use vstd::prelude::*;

verus! {

use vstd::arithmetic::div_mod::lemma_div_is_ordered;

/// One event reported by a transfer task. Throughputs are in bits per
/// second, durations in microseconds.
#[derive(Debug, PartialEq, Eq)]
pub enum SpeedTestEvent {
    DownloadProgress { bytes: u64, bps: u64 },
    DownloadComplete { bps: u64, avg_bps: u64, peak_bps: u64 },
    UploadProgress { bytes: u64 },
    UploadComplete { bps: u64, duration_us: u64 },
    Error(String),
}

/// The staged test: download first, then upload, then done — or a
/// terminal error from either stage.
#[derive(Debug, PartialEq, Eq)]
pub enum SpeedTestState {
    Preparing,
    Downloading { bytes_received: u64, samples: Vec<u64> },
    Uploading { bytes_sent: u64, download_results: (u64, u64, u64) },
    Complete {
        download_bps: u64,
        upload_bps: u64,
        total_bytes: u64,
        duration_us: u64,
        avg_bps: u64,
        peak_bps: u64,
    },
    Error(String),
}

/// Mathematical image of a [`SpeedTestState`].
pub enum StateModel {
    Preparing,
    Downloading { bytes_received: u64, samples: Seq<u64> },
    Uploading { bytes_sent: u64, download_results: (u64, u64, u64) },
    Complete {
        download_bps: u64,
        upload_bps: u64,
        total_bytes: u64,
        duration_us: u64,
        avg_bps: u64,
        peak_bps: u64,
    },
    Error(Seq<char>),
}

impl View for SpeedTestState {
    type V = StateModel;

    open spec fn view(&self) -> StateModel {
        match self {
            SpeedTestState::Preparing => StateModel::Preparing,
            SpeedTestState::Downloading { bytes_received, samples } => StateModel::Downloading {
                bytes_received: *bytes_received,
                samples: samples@,
            },
            SpeedTestState::Uploading { bytes_sent, download_results } => StateModel::Uploading {
                bytes_sent: *bytes_sent,
                download_results: *download_results,
            },
            SpeedTestState::Complete {
                download_bps,
                upload_bps,
                total_bytes,
                duration_us,
                avg_bps,
                peak_bps,
            } => StateModel::Complete {
                download_bps: *download_bps,
                upload_bps: *upload_bps,
                total_bytes: *total_bytes,
                duration_us: *duration_us,
                avg_bps: *avg_bps,
                peak_bps: *peak_bps,
            },
            SpeedTestState::Error(msg) => StateModel::Error(msg@),
        }
    }
}

/// `Complete` and `Error` accept no further transitions.
pub open spec fn is_terminal(s: StateModel) -> bool {
    s is Complete || s is Error
}

/// Background work the host must start in response to an `update` call.
#[derive(Debug, Clone, Copy, PartialEq, Eq, Structural)]
pub enum SpeedTestTask {
    Download,
    Upload,
}

/// Effect of one event on a non-terminal, already-started state.
/// Progress events only touch their own stage; a completed download
/// carries its three figures into the upload stage; a completed upload
/// merges them with its own figure; an error is terminal.
pub open spec fn step_state(s: StateModel, e: SpeedTestEvent) -> StateModel {
    match e {
        SpeedTestEvent::DownloadProgress { bytes, bps } => {
            if s is Downloading {
                StateModel::Downloading {
                    bytes_received: bytes,
                    samples: s->Downloading_samples.push(bps),
                }
            } else {
                s
            }
        },
        SpeedTestEvent::DownloadComplete { bps, avg_bps, peak_bps } => {
            StateModel::Uploading { bytes_sent: 0, download_results: (bps, avg_bps, peak_bps) }
        },
        SpeedTestEvent::UploadProgress { bytes } => {
            if s is Uploading {
                StateModel::Uploading {
                    bytes_sent: bytes,
                    download_results: s->Uploading_download_results,
                }
            } else {
                s
            }
        },
        SpeedTestEvent::UploadComplete { bps, duration_us } => {
            if s is Uploading {
                StateModel::Complete {
                    download_bps: s->Uploading_download_results.0,
                    upload_bps: bps,
                    total_bytes: 0,
                    duration_us,
                    avg_bps: s->Uploading_download_results.1,
                    peak_bps: s->Uploading_download_results.2,
                }
            } else {
                s
            }
        },
        SpeedTestEvent::Error(msg) => StateModel::Error(msg@),
    }
}

/// Folds a queue of events into a state, stopping at the first terminal
/// state: events behind a terminal transition are discarded.
pub open spec fn run_events(s: StateModel, events: Seq<SpeedTestEvent>) -> StateModel
    decreases events.len(),
{
    if is_terminal(s) || events.len() == 0 {
        s
    } else {
        run_events(step_state(s, events.first()), events.drop_first())
    }
}

/// The background tasks spawned while folding `events`: one upload task
/// per processed download-completion.
pub open spec fn run_tasks(s: StateModel, events: Seq<SpeedTestEvent>) -> Seq<SpeedTestTask>
    decreases events.len(),
{
    if is_terminal(s) || events.len() == 0 {
        Seq::empty()
    } else {
        (if events.first() is DownloadComplete {
            seq![SpeedTestTask::Upload]
        } else {
            Seq::empty()
        }) + run_tasks(step_state(s, events.first()), events.drop_first())
    }
}

/// Folding a concatenation folds the parts in order.
pub proof fn lemma_run_events_append(s: StateModel, a: Seq<SpeedTestEvent>, b: Seq<SpeedTestEvent>)
    ensures
        run_events(s, a + b) == run_events(run_events(s, a), b),
        run_tasks(s, a + b) == run_tasks(s, a) + run_tasks(run_events(s, a), b),
    decreases a.len(),
{
    if is_terminal(s) || a.len() == 0 {
        if is_terminal(s) {
            assert(run_events(s, a + b) == s) by {
                if (a + b).len() > 0 {
                }
            }
            assert(run_tasks(s, a + b) =~= run_tasks(s, a) + run_tasks(s, b));
        } else {
            assert(a + b =~= b);
            assert(run_tasks(s, a) =~= Seq::<SpeedTestTask>::empty());
            assert(run_tasks(s, a + b) =~= run_tasks(s, a) + run_tasks(run_events(s, a), b));
        }
    } else {
        assert((a + b).first() == a.first());
        assert((a + b).drop_first() =~= a.drop_first() + b);
        lemma_run_events_append(step_state(s, a.first()), a.drop_first(), b);
        assert(run_tasks(s, a + b) =~= run_tasks(s, a) + run_tasks(run_events(s, a), b));
    }
}

/// A terminal state absorbs every later event.
pub proof fn lemma_terminal_absorbs(s: StateModel, events: Seq<SpeedTestEvent>)
    requires
        is_terminal(s),
    ensures
        run_events(s, events) == s,
        run_tasks(s, events) == Seq::<SpeedTestTask>::empty(),
{
}

/// A download completion observed while downloading moves the machine to
/// the upload stage with the three download figures carried over intact.
pub proof fn lemma_download_figures_carried(
    bytes_received: u64,
    samples: Seq<u64>,
    bps: u64,
    avg_bps: u64,
    peak_bps: u64,
)
    ensures
        (step_state(
            (StateModel::Downloading { bytes_received, samples }),
            (SpeedTestEvent::DownloadComplete { bps, avg_bps, peak_bps }),
        ) == (StateModel::Uploading {
            bytes_sent: 0,
            download_results: (bps, avg_bps, peak_bps),
        })),
{
}

/// An error event is terminal from every non-terminal state.
pub proof fn lemma_error_is_terminal(s: StateModel, msg: String)
    ensures
        step_state(s, SpeedTestEvent::Error(msg)) == StateModel::Error(msg@),
        is_terminal(step_state(s, SpeedTestEvent::Error(msg))),
{
}

/// The staged throughput test, driven by polling `update` with whatever
/// task events have arrived since the last poll.
pub struct SpeedTest {
    pub state: SpeedTestState,
    pub target: String,
}

impl SpeedTest {
    pub fn new(target: String) -> (r: SpeedTest)
        ensures
            r.state@ is Preparing,
            r.target == target,
    {
        SpeedTest { state: SpeedTestState::Preparing, target }
    }

    /// Advances the machine. On the very first call it moves from
    /// `Preparing` to `Downloading` and asks the host to start the
    /// download task, without touching `events`. In a terminal state it
    /// is a no-op that reports completion. Otherwise it folds the events
    /// in order — discarding whatever follows a terminal transition —
    /// and reports whether a terminal state was reached, together with
    /// the tasks to start.
    pub fn update(&mut self, events: Vec<SpeedTestEvent>) -> (r: (bool, Vec<SpeedTestTask>))
        ensures
            final(self).target == old(self).target,
            is_terminal(old(self).state@) ==> {
                &&& final(self).state@ == old(self).state@
                &&& r.0
                &&& r.1@ == Seq::<SpeedTestTask>::empty()
            },
            old(self).state@ is Preparing ==> {
                &&& final(self).state@ == StateModel::Downloading {
                    bytes_received: 0,
                    samples: Seq::empty(),
                }
                &&& !r.0
                &&& r.1@ == seq![SpeedTestTask::Download]
            },
            !is_terminal(old(self).state@) && !(old(self).state@ is Preparing) ==> {
                &&& final(self).state@ == run_events(old(self).state@, events@)
                &&& r.1@ == run_tasks(old(self).state@, events@)
                &&& r.0 == is_terminal(final(self).state@)
            },
    {
        match &self.state {
            SpeedTestState::Complete { .. } => {
                return (true, Vec::new());
            },
            SpeedTestState::Error(_) => {
                return (true, Vec::new());
            },
            SpeedTestState::Preparing => {
                self.state = SpeedTestState::Downloading { bytes_received: 0, samples: Vec::new() };
                let mut tasks: Vec<SpeedTestTask> = Vec::new();
                tasks.push(SpeedTestTask::Download);
                proof {
                    assert(tasks@ =~= seq![SpeedTestTask::Download]);
                }
                return (false, tasks);
            },
            _ => {},
        }

        let ghost s0 = self.state@;
        let ghost evs = events@;
        let n = events.len();
        let mut tasks: Vec<SpeedTestTask> = Vec::new();
        let mut i: usize = 0;
        let mut done = false;
        while i < n && !done
            invariant
                i <= n,
                n == evs.len(),
                evs == events@,
                self.target == old(self).target,
                !is_terminal(s0),
                !(s0 is Preparing),
                !done ==> {
                    &&& self.state@ == run_events(s0, evs.take(i as int))
                    &&& tasks@ == run_tasks(s0, evs.take(i as int))
                    &&& !is_terminal(self.state@)
                },
                done ==> {
                    &&& self.state@ == run_events(s0, evs)
                    &&& tasks@ == run_tasks(s0, evs)
                    &&& is_terminal(self.state@)
                },
            decreases n - i,
        {
            let ghost pre = self.state@;
            let ghost pre_tasks = tasks@;
            proof {
                assert(evs.take(i + 1) =~= evs.take(i as int) + seq![evs[i as int]]);
                lemma_run_events_append(s0, evs.take(i as int), seq![evs[i as int]]);
                let e = evs[i as int];
                let single = seq![e];
                assert(single.first() == e);
                assert(single.drop_first() =~= Seq::<SpeedTestEvent>::empty());
                assert(run_events(pre, single) == run_events(
                    step_state(pre, e),
                    single.drop_first(),
                ));
                assert(run_events(step_state(pre, e), single.drop_first()) == step_state(pre, e));
                assert(run_tasks(pre, single) == (if e is DownloadComplete {
                    seq![SpeedTestTask::Upload]
                } else {
                    Seq::<SpeedTestTask>::empty()
                }) + run_tasks(step_state(pre, e), single.drop_first()));
                assert(run_tasks(step_state(pre, e), single.drop_first()) =~= Seq::<
                    SpeedTestTask,
                >::empty());
                assert(run_events(pre, seq![evs[i as int]]) == step_state(pre, evs[i as int]));
                assert(run_tasks(pre, seq![evs[i as int]]) == (if evs[i as int] is DownloadComplete {
                    seq![SpeedTestTask::Upload]
                } else {
                    Seq::<SpeedTestTask>::empty()
                }));
            }
            match &events[i] {
                SpeedTestEvent::DownloadProgress { bytes, bps } => {
                    if let SpeedTestState::Downloading { bytes_received, samples } =
                        &mut self.state {
                        *bytes_received = *bytes;
                        samples.push(*bps);
                    }
                },
                SpeedTestEvent::DownloadComplete { bps, avg_bps, peak_bps } => {
                    self.state = SpeedTestState::Uploading {
                        bytes_sent: 0,
                        download_results: (*bps, *avg_bps, *peak_bps),
                    };
                    tasks.push(SpeedTestTask::Upload);
                },
                SpeedTestEvent::UploadProgress { bytes } => {
                    if let SpeedTestState::Uploading { bytes_sent, .. } = &mut self.state {
                        *bytes_sent = *bytes;
                    }
                },
                SpeedTestEvent::UploadComplete { bps, duration_us } => {
                    if let SpeedTestState::Uploading { download_results, .. } = &self.state {
                        let (d0, d1, d2) = *download_results;
                        self.state = SpeedTestState::Complete {
                            download_bps: d0,
                            upload_bps: *bps,
                            total_bytes: 0,
                            duration_us: *duration_us,
                            avg_bps: d1,
                            peak_bps: d2,
                        };
                        done = true;
                    }
                },
                SpeedTestEvent::Error(msg) => {
                    self.state = SpeedTestState::Error(msg.clone());
                    done = true;
                },
            }
            proof {
                assert(self.state@ == step_state(pre, evs[i as int]));
                assert(self.state@ == run_events(s0, evs.take(i + 1)));
                assert(tasks@ == run_tasks(s0, evs.take(i + 1)));
                if done {
                    assert(is_terminal(self.state@));
                    assert(evs =~= evs.take(i + 1) + evs.skip(i + 1));
                    lemma_run_events_append(s0, evs.take(i + 1), evs.skip(i + 1));
                    lemma_terminal_absorbs(self.state@, evs.skip(i + 1));
                    assert(tasks@ =~= run_tasks(s0, evs));
                }
            }
            i = i + 1;
        }
        proof {
            if !done {
                assert(evs.take(n as int) =~= evs);
            }
        }
        let complete = done;
        (complete, tasks)
    }

    pub fn get_state(&self) -> (r: &SpeedTestState)
        ensures
            *r == self.state,
    {
        &self.state
    }

    pub fn is_complete(&self) -> (r: bool)
        ensures
            r == is_terminal(self.state@),
    {
        match &self.state {
            SpeedTestState::Complete { .. } => true,
            SpeedTestState::Error(_) => true,
            _ => false,
        }
    }
}

/// Throughput in bits per second for `bytes` moved in `elapsed_us`
/// microseconds.
pub fn throughput_bps(bytes: u64, elapsed_us: u64) -> (r: u64)
    requires
        elapsed_us > 0,
        bytes <= 2_000_000_000_000,
    ensures
        r == bytes * 8_000_000 / (elapsed_us as int),
{
    let wide: u128 = (bytes as u128) * 8_000_000 / (elapsed_us as u128);
    proof {
        assert((bytes as int) * 8_000_000 <= 2_000_000_000_000int * 8_000_000) by (nonlinear_arith)
            requires
                bytes <= 2_000_000_000_000u64,
        ;
        lemma_div_is_ordered(
            (bytes as int) * 8_000_000,
            2_000_000_000_000int * 8_000_000,
            elapsed_us as int,
        );
        vstd::arithmetic::div_mod::lemma_div_nonincreasing(
            2_000_000_000_000int * 8_000_000,
            elapsed_us as int,
        );
    }
    wide as u64
}

/// Streaming download bookkeeping: the byte count, the running peak and
/// the throttle on progress events (at most one per 100 ms).
pub struct DownloadMeter {
    pub total_bytes: u64,
    pub peak_bps: u64,
    pub last_emit_us: u64,
}

impl DownloadMeter {
    pub fn new() -> (r: DownloadMeter)
        ensures
            r.total_bytes == 0,
            r.peak_bps == 0,
            r.last_emit_us == 0,
    {
        DownloadMeter { total_bytes: 0, peak_bps: 0, last_emit_us: 0 }
    }

    /// Accounts one received chunk at `elapsed_us` microseconds since the
    /// start of the test. Emits a progress event — and raises the peak —
    /// only when at least 100 ms have passed since the last emission.
    pub fn on_chunk(&mut self, chunk_len: u64, elapsed_us: u64) -> (r: Option<SpeedTestEvent>)
        requires
            old(self).total_bytes + chunk_len <= 2_000_000_000_000,
            elapsed_us >= old(self).last_emit_us,
        ensures
            final(self).total_bytes == old(self).total_bytes + chunk_len,
            ({
                let emit = elapsed_us - old(self).last_emit_us >= 100_000 && elapsed_us > 0;
                let bps = final(self).total_bytes * 8_000_000 / (elapsed_us as int);
                if emit {
                    &&& r == Some(
                        SpeedTestEvent::DownloadProgress {
                            bytes: final(self).total_bytes,
                            bps: bps as u64,
                        },
                    )
                    &&& final(self).peak_bps == (if bps > old(self).peak_bps {
                        bps
                    } else {
                        old(self).peak_bps as int
                    })
                    &&& final(self).last_emit_us == elapsed_us
                } else {
                    &&& r is None
                    &&& final(self).peak_bps == old(self).peak_bps
                    &&& final(self).last_emit_us == old(self).last_emit_us
                }
            }),
    {
        self.total_bytes = self.total_bytes + chunk_len;
        if elapsed_us - self.last_emit_us >= 100_000 && elapsed_us > 0 {
            let bps = throughput_bps(self.total_bytes, elapsed_us);
            if bps > self.peak_bps {
                self.peak_bps = bps;
            }
            self.last_emit_us = elapsed_us;
            Some(SpeedTestEvent::DownloadProgress { bytes: self.total_bytes, bps })
        } else {
            None
        }
    }

    /// The completion event once the stream has ended: the overall
    /// average over the whole elapsed time, and the observed peak.
    pub fn finish(&self, elapsed_us: u64) -> (r: SpeedTestEvent)
        requires
            self.total_bytes <= 2_000_000_000_000,
        ensures
            ({
                let avg = if elapsed_us > 0 {
                    self.total_bytes * 8_000_000 / (elapsed_us as int)
                } else {
                    0int
                };
                r == SpeedTestEvent::DownloadComplete {
                    bps: avg as u64,
                    avg_bps: avg as u64,
                    peak_bps: self.peak_bps,
                }
            }),
    {
        let avg = if elapsed_us > 0 {
            throughput_bps(self.total_bytes, elapsed_us)
        } else {
            0
        };
        SpeedTestEvent::DownloadComplete { bps: avg, avg_bps: avg, peak_bps: self.peak_bps }
    }
}

} // verus!
