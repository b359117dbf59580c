use vstd::prelude::*;

verus! {

use std::collections::VecDeque;
use vstd::string::StringExecFns;
use crate::arith::{is_floor_sqrt, isqrt_u128, lemma_mean_le_max};
use crate::stats::NetworkStats;

/// A resolved target address, v4 or v6, held as plain integers.
#[derive(Clone, Copy, Debug, PartialEq, Eq, Structural)]
pub enum IpAddress {
    V4(u32),
    V6(u128),
}

/// Result of one web-reachability probe against a single port.
/// The duration inside `Success` is in microseconds.
#[derive(Debug, PartialEq, Eq)]
pub enum WebCheckStatus {
    Untested,
    Success(u32),
    Timeout,
    ConnectionRefused,
    Error(String),
}

impl Clone for WebCheckStatus {
    fn clone(&self) -> (r: WebCheckStatus)
        ensures
            r == *self,
    {
        match self {
            WebCheckStatus::Untested => WebCheckStatus::Untested,
            WebCheckStatus::Success(us) => WebCheckStatus::Success(*us),
            WebCheckStatus::Timeout => WebCheckStatus::Timeout,
            WebCheckStatus::ConnectionRefused => WebCheckStatus::ConnectionRefused,
            WebCheckStatus::Error(msg) => WebCheckStatus::Error(msg.clone()),
        }
    }
}

/// Commands the host may send to the background sampler task.
#[derive(Debug)]
pub enum PingCommand {
    ToggleWebCheck(bool),
    SetInterval(u64),
    Stop,
}

/// One event produced by the background sampler: a round trip measured
/// in microseconds, a timeout, or the outcome of a web-reachability probe.
#[derive(Debug)]
pub enum PingResult {
    Success(u32),
    Timeout,
    WebCheck { port: u16, status: WebCheckStatus },
}

/// How a single TCP connect attempt ended, as plain data. The host
/// performs the connect and the timeout; the duration is in microseconds.
#[derive(Debug)]
pub enum ConnectOutcome {
    Connected(u32),
    Refused,
    TimedOut,
    Failed(String),
}

/// Classifies a web-check connect attempt exactly as the sampler reports it.
pub fn web_check_status(outcome: ConnectOutcome) -> (r: WebCheckStatus)
    ensures
        r == (match outcome {
            ConnectOutcome::Connected(us) => WebCheckStatus::Success(us),
            ConnectOutcome::Refused => WebCheckStatus::ConnectionRefused,
            ConnectOutcome::TimedOut => WebCheckStatus::Timeout,
            ConnectOutcome::Failed(msg) => WebCheckStatus::Error(msg),
        }),
{
    match outcome {
        ConnectOutcome::Connected(us) => WebCheckStatus::Success(us),
        ConnectOutcome::Refused => WebCheckStatus::ConnectionRefused,
        ConnectOutcome::TimedOut => WebCheckStatus::Timeout,
        ConnectOutcome::Failed(msg) => WebCheckStatus::Error(msg),
    }
}

/// Push onto the back of a bounded queue, evicting from the front
/// when the bound is exceeded.
pub open spec fn push_bounded<T>(s: Seq<T>, x: T, max: int) -> Seq<T> {
    let p = s.push(x);
    if p.len() <= max {
        p
    } else {
        p.subrange(p.len() - max, p.len() as int)
    }
}

/// Number of successful (non-timeout) samples in the history.
pub open spec fn n_valid(h: Seq<Option<u32>>) -> int
    decreases h.len(),
{
    if h.len() == 0 {
        0
    } else {
        n_valid(h.drop_last()) + (if h.last() is Some {
            1int
        } else {
            0int
        })
    }
}

/// Sum of the successful samples in the history.
pub open spec fn sum_valid(h: Seq<Option<u32>>) -> int
    decreases h.len(),
{
    if h.len() == 0 {
        0
    } else {
        sum_valid(h.drop_last()) + (if h.last() is Some {
            h.last()->Some_0 as int
        } else {
            0int
        })
    }
}

/// Smallest successful sample; one past `u32::MAX` when there is none.
pub open spec fn min_valid(h: Seq<Option<u32>>) -> int
    decreases h.len(),
{
    if h.len() == 0 {
        0x1_0000_0000int
    } else {
        let m = min_valid(h.drop_last());
        if h.last() is Some && h.last()->Some_0 < m {
            h.last()->Some_0 as int
        } else {
            m
        }
    }
}

/// Largest successful sample; zero when there is none.
pub open spec fn max_valid(h: Seq<Option<u32>>) -> int
    decreases h.len(),
{
    if h.len() == 0 {
        0int
    } else {
        let m = max_valid(h.drop_last());
        if h.last() is Some && h.last()->Some_0 > m {
            h.last()->Some_0 as int
        } else {
            m
        }
    }
}

/// Mean of the successful samples (floor division).
pub open spec fn mean_valid(h: Seq<Option<u32>>) -> int {
    sum_valid(h) / n_valid(h)
}

/// Sum of squared deviations of the successful samples from `mean`.
pub open spec fn sum_sq_dev(h: Seq<Option<u32>>, mean: int) -> int
    decreases h.len(),
{
    if h.len() == 0 {
        0
    } else {
        sum_sq_dev(h.drop_last(), mean) + (if h.last() is Some {
            (h.last()->Some_0 - mean) * (h.last()->Some_0 - mean)
        } else {
            0int
        })
    }
}

/// Population variance of the successful samples (floor division).
pub open spec fn variance_spec(h: Seq<Option<u32>>) -> int {
    sum_sq_dev(h, mean_valid(h)) / n_valid(h)
}

/// Sum of a sequence of samples.
pub open spec fn sum_u32(s: Seq<u32>) -> int
    decreases s.len(),
{
    if s.len() == 0 {
        0
    } else {
        sum_u32(s.drop_last()) + s.last()
    }
}

/// Short-window average over the recent-successes queue (microseconds).
pub open spec fn recent_avg_spec(recent: Seq<u32>) -> int {
    if recent.len() > 0 {
        sum_u32(recent) / recent.len() as int
    } else {
        0
    }
}

/// The quality label. It is "OFFLINE" exactly when the most recently
/// pushed sample is a timeout; otherwise the short-window average picks
/// the label, with thresholds at 30 ms, 100 ms and 200 ms.
pub open spec fn quality_spec(h: Seq<Option<u32>>, recent: Seq<u32>) -> Seq<char> {
    if h.len() > 0 && h.last() is None {
        "OFFLINE"@
    } else if recent_avg_spec(recent) < 30000 {
        "EXCELLENT"@
    } else if recent_avg_spec(recent) < 100000 {
        "GOOD"@
    } else if recent_avg_spec(recent) < 200000 {
        "FAIR"@
    } else {
        "POOR"@
    }
}

/// Continuous liveness sampler state: a bounded history of samples
/// (successful round trips in microseconds, or `None` for a timeout),
/// a short queue of recent successes, and running counters.
pub struct PingMonitor {
    pub target_addr: IpAddress,
    pub history: VecDeque<Option<u32>>,
    pub recent: VecDeque<u32>,
    pub max_history: usize,
    pub total_pings: u64,
    pub successful_pings: u64,
    pub failed_pings: u64,
    pub dns_duration: Option<u32>,
    pub tcp_80: WebCheckStatus,
    pub tcp_443: WebCheckStatus,
}

impl PingMonitor {
    /// Structural invariant: the retention window stays in its configured
    /// range, both queues respect their bounds, and every processed ping
    /// was counted either a success or a failure.
    pub open spec fn wf(&self) -> bool {
        &&& 30 <= self.max_history <= 600
        &&& self.history@.len() <= self.max_history
        &&& self.recent@.len() <= 10
        &&& self.total_pings == self.successful_pings + self.failed_pings
    }

    pub fn new(target_addr: IpAddress, max_history: usize) -> (r: PingMonitor)
        requires
            30 <= max_history <= 600,
        ensures
            r.wf(),
            r.target_addr == target_addr,
            r.history@ == Seq::<Option<u32>>::empty(),
            r.recent@ == Seq::<u32>::empty(),
            r.max_history == max_history,
            r.total_pings == 0,
            r.successful_pings == 0,
            r.failed_pings == 0,
            r.dns_duration is None,
            r.tcp_80 == WebCheckStatus::Untested,
            r.tcp_443 == WebCheckStatus::Untested,
    {
        PingMonitor {
            target_addr,
            history: VecDeque::with_capacity(max_history),
            recent: VecDeque::with_capacity(10),
            max_history,
            total_pings: 0,
            successful_pings: 0,
            failed_pings: 0,
            dns_duration: None,
            tcp_80: WebCheckStatus::Untested,
            tcp_443: WebCheckStatus::Untested,
        }
    }

    pub fn get_target_addr(&self) -> (r: IpAddress)
        ensures
            r == self.target_addr,
    {
        self.target_addr
    }

    /// Changes the retention window. Shrinking truncates the oldest
    /// samples immediately; growing lets the window fill naturally.
    pub fn set_max_history(&mut self, new_size: usize)
        requires
            old(self).wf(),
            30 <= new_size <= 600,
        ensures
            final(self).wf(),
            final(self).max_history == new_size,
            final(self).history@ == (if old(self).history@.len() <= new_size {
                old(self).history@
            } else {
                old(self).history@.skip(old(self).history@.len() - new_size)
            }),
            final(self).recent@ == old(self).recent@,
            final(self).target_addr == old(self).target_addr,
            final(self).total_pings == old(self).total_pings,
            final(self).successful_pings == old(self).successful_pings,
            final(self).failed_pings == old(self).failed_pings,
            final(self).dns_duration == old(self).dns_duration,
            final(self).tcp_80 == old(self).tcp_80,
            final(self).tcp_443 == old(self).tcp_443,
    {
        if new_size == self.max_history {
            return ;
        }
        self.max_history = new_size;
        while self.history.len() > new_size
            invariant
                self.history@.len() <= old(self).history@.len(),
                old(self).history@.len() > new_size ==> self.history@.len() >= new_size,
                old(self).history@.len() <= new_size ==> self.history@.len() == old(
                    self,
                ).history@.len(),
                self.history@ == old(self).history@.skip(
                    old(self).history@.len() - self.history@.len(),
                ),
                self.max_history == new_size,
                self.recent == old(self).recent,
                self.target_addr == old(self).target_addr,
                self.total_pings == old(self).total_pings,
                self.successful_pings == old(self).successful_pings,
                self.failed_pings == old(self).failed_pings,
                self.dns_duration == old(self).dns_duration,
                self.tcp_80 == old(self).tcp_80,
                self.tcp_443 == old(self).tcp_443,
            decreases self.history@.len(),
        {
            let ghost pre = self.history@;
            self.history.pop_front();
            proof {
                let k = old(self).history@.len() - pre.len();
                assert(pre.subrange(1, pre.len() as int) =~= old(self).history@.skip(k + 1));
            }
        }
        proof {
            assert(self.history@.skip(0) =~= self.history@);
        }
    }

    /// Folds one sampler event into the state. A success or timeout is
    /// appended to the history (evicting the oldest entry when full) and
    /// counted; a web-check result only overwrites the per-port status.
    pub fn process_result(&mut self, result: PingResult)
        requires
            old(self).wf(),
            old(self).total_pings < u64::MAX,
        ensures
            final(self).wf(),
            final(self).target_addr == old(self).target_addr,
            final(self).max_history == old(self).max_history,
            final(self).dns_duration == old(self).dns_duration,
            match result {
                PingResult::Success(us) => {
                    &&& final(self).total_pings == old(self).total_pings + 1
                    &&& final(self).successful_pings == old(self).successful_pings + 1
                    &&& final(self).failed_pings == old(self).failed_pings
                    &&& final(self).history@ == push_bounded(
                        old(self).history@,
                        Some(us),
                        old(self).max_history as int,
                    )
                    &&& final(self).recent@ == push_bounded(old(self).recent@, us, 10)
                    &&& final(self).tcp_80 == old(self).tcp_80
                    &&& final(self).tcp_443 == old(self).tcp_443
                },
                PingResult::Timeout => {
                    &&& final(self).total_pings == old(self).total_pings + 1
                    &&& final(self).successful_pings == old(self).successful_pings
                    &&& final(self).failed_pings == old(self).failed_pings + 1
                    &&& final(self).history@ == push_bounded(
                        old(self).history@,
                        None::<u32>,
                        old(self).max_history as int,
                    )
                    &&& final(self).recent@ == old(self).recent@
                    &&& final(self).tcp_80 == old(self).tcp_80
                    &&& final(self).tcp_443 == old(self).tcp_443
                },
                PingResult::WebCheck { port, status } => {
                    &&& final(self).total_pings == old(self).total_pings
                    &&& final(self).successful_pings == old(self).successful_pings
                    &&& final(self).failed_pings == old(self).failed_pings
                    &&& final(self).history@ == old(self).history@
                    &&& final(self).recent@ == old(self).recent@
                    &&& final(self).tcp_80 == (if port == 80 {
                        status
                    } else {
                        old(self).tcp_80
                    })
                    &&& final(self).tcp_443 == (if port == 443 {
                        status
                    } else {
                        old(self).tcp_443
                    })
                },
            },
    {
        match result {
            PingResult::Success(us) => {
                self.total_pings = self.total_pings + 1;
                self.successful_pings = self.successful_pings + 1;
                self.history.push_back(Some(us));
                self.recent.push_back(us);
                if self.recent.len() > 10 {
                    let ghost pre = self.recent@;
                    self.recent.pop_front();
                    proof {
                        assert(pre.subrange(1, pre.len() as int) =~= pre.skip(1));
                    }
                }
            },
            PingResult::Timeout => {
                self.total_pings = self.total_pings + 1;
                self.failed_pings = self.failed_pings + 1;
                self.history.push_back(None);
            },
            PingResult::WebCheck { port, status } => {
                if port == 80 {
                    self.tcp_80 = status;
                } else if port == 443 {
                    self.tcp_443 = status;
                }
            },
        }
        if self.history.len() > self.max_history {
            let ghost pre = self.history@;
            self.history.pop_front();
            proof {
                assert(pre.subrange(1, pre.len() as int) =~= pre.skip(1));
                assert(pre.skip(1) =~= pre.subrange(pre.len() - self.max_history, pre.len() as int));
            }
        }
    }

    /// Clears history, the recent window and all counters; the target,
    /// the configured window, the DNS figure and the web-check statuses
    /// are untouched.
    pub fn reset(&mut self)
        requires
            old(self).wf(),
        ensures
            final(self).wf(),
            final(self).history@ == Seq::<Option<u32>>::empty(),
            final(self).recent@ == Seq::<u32>::empty(),
            final(self).total_pings == 0,
            final(self).successful_pings == 0,
            final(self).failed_pings == 0,
            final(self).target_addr == old(self).target_addr,
            final(self).max_history == old(self).max_history,
            final(self).dns_duration == old(self).dns_duration,
            final(self).tcp_80 == old(self).tcp_80,
            final(self).tcp_443 == old(self).tcp_443,
    {
        self.history.clear();
        self.recent.clear();
        self.total_pings = 0;
        self.successful_pings = 0;
        self.failed_pings = 0;
    }

    /// Read-only ordered view of the raw history for charting.
    pub fn latency_data(&self) -> (r: &VecDeque<Option<u32>>)
        ensures
            r@ == self.history@,
    {
        &self.history
    }

    /// Recomputes the full statistics snapshot from the raw state.
    pub fn stats(&self) -> (r: NetworkStats)
        requires
            self.wf(),
        ensures
            r.current_response == (if self.history@.len() == 0 {
                None::<u32>
            } else {
                self.history@.last()
            }),
            r.current_avg == recent_avg_spec(self.recent@),
            r.avg_response == (if n_valid(self.history@) > 0 {
                mean_valid(self.history@)
            } else {
                0int
            }),
            r.min_response == (if n_valid(self.history@) > 0 {
                min_valid(self.history@)
            } else {
                0int
            }),
            r.max_response == max_valid(self.history@),
            self.total_pings > 0 ==> r.uptime_pct == self.successful_pings * 10000
                / (self.total_pings as int),
            self.total_pings > 0 ==> r.packet_loss_pct == 10000 - r.uptime_pct,
            self.total_pings == 0 ==> r.uptime_pct == 0 && r.packet_loss_pct == 0,
            n_valid(self.history@) <= 1 ==> r.jitter == 0,
            n_valid(self.history@) > 1 ==> is_floor_sqrt(
                r.jitter as int,
                variance_spec(self.history@),
            ),
            r.avg_response == 0 ==> r.stability == 100,
            r.avg_response > 0 ==> r.stability == (if r.jitter * 100 / (r.avg_response as int) >= 100 {
                0int
            } else {
                100 - r.jitter * 100 / (r.avg_response as int)
            }),
            r.quality@ == quality_spec(self.history@, self.recent@),
            r.total_pings == self.total_pings,
            r.dns_duration == self.dns_duration,
            r.tcp_port_80 == self.tcp_80,
            r.tcp_port_443 == self.tcp_443,
    {
        let ghost h = self.history@;
        let n = self.history.len();

        // First pass: count, sum, min and max of the successful samples.
        let mut i: usize = 0;
        let mut cnt: u64 = 0;
        let mut sum: u64 = 0;
        let mut mn: u64 = 0x1_0000_0000;
        let mut mx: u64 = 0;
        while i < n
            invariant
                i <= n,
                n == h.len(),
                h == self.history@,
                n <= 600,
                cnt == n_valid(h.take(i as int)),
                sum == sum_valid(h.take(i as int)),
                mn == min_valid(h.take(i as int)),
                mx == max_valid(h.take(i as int)),
                cnt <= i,
                sum <= cnt * 0xFFFF_FFFF,
            decreases n - i,
        {
            let x = self.history[i];
            proof {
                assert(h.take(i + 1).drop_last() =~= h.take(i as int));
                assert(h.take(i + 1).last() == h[i as int]);
                if x is Some {
                    assert((cnt + 1) * 0xFFFF_FFFF == cnt * 0xFFFF_FFFF + 0xFFFF_FFFF)
                        by (nonlinear_arith);
                }
            }
            match x {
                Some(v) => {
                    cnt = cnt + 1;
                    sum = sum + v as u64;
                    if (v as u64) < mn {
                        mn = v as u64;
                    }
                    if (v as u64) > mx {
                        mx = v as u64;
                    }
                },
                None => {},
            }
            i = i + 1;
        }
        proof {
            assert(h.take(n as int) =~= h);
        }

        let avg: u64 = if cnt > 0 {
            proof {
                lemma_mean_le_max(sum as int, cnt as int, 0xFFFF_FFFF);
            }
            sum / cnt
        } else {
            0
        };

        // Second pass: squared deviations from the mean.
        let mut sumsq: u128 = 0;
        i = 0;
        while i < n
            invariant
                i <= n,
                n == h.len(),
                h == self.history@,
                n <= 600,
                avg <= 0xFFFF_FFFF,
                sumsq == sum_sq_dev(h.take(i as int), avg as int),
                sumsq <= n_valid(h.take(i as int)) * (0xFFFF_FFFFu128 * 0xFFFF_FFFF),
                n_valid(h.take(i as int)) <= i,
            decreases n - i,
        {
            let x = self.history[i];
            proof {
                assert(h.take(i + 1).drop_last() =~= h.take(i as int));
                assert(h.take(i + 1).last() == h[i as int]);
            }
            match x {
                Some(v) => {
                    let v64 = v as u64;
                    let d: u64 = if v64 >= avg {
                        v64 - avg
                    } else {
                        avg - v64
                    };
                    proof {
                        assert(d * d == (v64 - avg) * (v64 - avg)) by (nonlinear_arith)
                            requires
                                d == v64 - avg || d == avg - v64,
                        ;
                        assert(d <= 0xFFFF_FFFF);
                        assert((d as u128) * (d as u128) <= 0xFFFF_FFFFu128 * 0xFFFF_FFFF)
                            by (nonlinear_arith)
                            requires
                                d <= 0xFFFF_FFFFu64,
                        ;
                        let q = n_valid(h.take(i as int));
                        assert((q + 1) * (0xFFFF_FFFFu128 * 0xFFFF_FFFF) == q * (0xFFFF_FFFFu128
                            * 0xFFFF_FFFF) + 0xFFFF_FFFFu128 * 0xFFFF_FFFF) by (nonlinear_arith);
                    }
                    sumsq = sumsq + (d as u128) * (d as u128);
                },
                None => {},
            }
            i = i + 1;
        }
        proof {
            assert(h.take(n as int) =~= h);
        }

        let jitter: u64 = if cnt > 1 {
            let var: u128 = sumsq / (cnt as u128);
            proof {
                lemma_mean_le_max(
                    sumsq as int,
                    cnt as int,
                    (0xFFFF_FFFFu128 * 0xFFFF_FFFF) as int,
                );
            }
            let j = isqrt_u128(var);
            proof {
                assert(j <= 0xFFFF_FFFF) by (nonlinear_arith)
                    requires
                        (j as int) * (j as int) <= var as int,
                        var <= 0xFFFF_FFFFu128 * 0xFFFF_FFFF,
                ;
            }
            j
        } else {
            0
        };

        let stability: u64 = if avg == 0 {
            100
        } else {
            let ratio = jitter * 100 / avg;
            if ratio >= 100 {
                0
            } else {
                100 - ratio
            }
        };

        // Short-window average over the recent successes.
        let ghost rec = self.recent@;
        let rn = self.recent.len();
        let mut rsum: u64 = 0;
        let mut ri: usize = 0;
        while ri < rn
            invariant
                ri <= rn,
                rn == rec.len(),
                rec == self.recent@,
                rn <= 10,
                rsum == sum_u32(rec.take(ri as int)),
                rsum <= ri * 0xFFFF_FFFF,
            decreases rn - ri,
        {
            proof {
                assert(rec.take(ri + 1).drop_last() =~= rec.take(ri as int));
                assert(rec.take(ri + 1).last() == rec[ri as int]);
            }
            let v = self.recent[ri];
            rsum = rsum + v as u64;
            ri = ri + 1;
        }
        proof {
            assert(rec.take(rn as int) =~= rec);
        }
        let current_avg: u64 = if rn > 0 {
            rsum / (rn as u64)
        } else {
            0
        };

        let current_response: Option<u32> = if n == 0 {
            None
        } else {
            self.history[n - 1]
        };
        proof {
            if n > 0 {
                assert(h[n - 1] == h.last());
            }
        }

        let offline = n > 0 && current_response.is_none();
        let quality: String = if offline {
            String::from_str("OFFLINE")
        } else if current_avg < 30000 {
            String::from_str("EXCELLENT")
        } else if current_avg < 100000 {
            String::from_str("GOOD")
        } else if current_avg < 200000 {
            String::from_str("FAIR")
        } else {
            String::from_str("POOR")
        };

        let (uptime_pct, packet_loss_pct): (u64, u64) = if self.total_pings > 0 {
            let up128: u128 = (self.successful_pings as u128) * 10000 / (self.total_pings as u128);
            proof {
                crate::arith::lemma_mul_le(
                    self.successful_pings as int,
                    self.total_pings as int,
                    10000,
                );
                lemma_mean_le_max(
                    (self.successful_pings as int) * 10000,
                    self.total_pings as int,
                    10000,
                );
                assert((self.total_pings as int) * 10000 == 10000 * (self.total_pings as int))
                    by (nonlinear_arith);
            }
            let up = up128 as u64;
            (up, 10000 - up)
        } else {
            (0, 0)
        };

        NetworkStats {
            current_response,
            current_avg,
            avg_response: avg,
            min_response: if cnt > 0 {
                mn
            } else {
                0
            },
            max_response: mx,
            uptime_pct,
            packet_loss_pct,
            jitter,
            stability,
            quality,
            total_pings: self.total_pings,
            dns_duration: self.dns_duration,
            tcp_port_80: self.tcp_80.clone(),
            tcp_port_443: self.tcp_443.clone(),
        }
    }

    /// The quality label alone.
    pub fn quality(&self) -> (r: String)
        requires
            self.wf(),
        ensures
            r@ == quality_spec(self.history@, self.recent@),
    {
        self.stats().quality
    }
}

/// Every well-formed monitor balances its counters: processed pings are
/// exactly the successes plus the failures, whatever sequence of events
/// was folded in.
pub proof fn lemma_ping_counters_balance(m: &PingMonitor)
    requires
        m.wf(),
    ensures
        m.total_pings == m.successful_pings + m.failed_pings,
{
}

/// The retained history never outgrows the configured window, whatever
/// sequence of events was folded in.
pub proof fn lemma_history_bounded(m: &PingMonitor)
    requires
        m.wf(),
    ensures
        m.history@.len() <= m.max_history,
{
}

/// Whenever the most recently pushed sample is a timeout, the quality
/// label is "OFFLINE", no matter how low the recent average is.
pub proof fn lemma_quality_offline(h: Seq<Option<u32>>, recent: Seq<u32>)
    requires
        h.len() > 0,
        h.last() is None,
    ensures
        quality_spec(h, recent) == "OFFLINE"@,
{
}

/// With no data at all — in particular right after `reset()` — the
/// short-window average is zero, so the label is the lowest-latency one.
pub proof fn lemma_quality_no_data()
    ensures
        quality_spec(Seq::<Option<u32>>::empty(), Seq::<u32>::empty()) == "EXCELLENT"@,
{
}

} // verus!
