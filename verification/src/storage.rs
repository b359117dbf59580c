use vstd::prelude::*;

verus! {

use vstd::seq_lib::group_to_multiset_ensures;
use vstd::string::{StringExecFns, StrSliceExecFns};
use crate::config::Config;

/// One remembered target: when it was last monitored (Unix
/// milliseconds), how many sessions it has seen, and the last recorded
/// figures (average latency in microseconds, success rate in hundredths
/// of a percent).
#[derive(Debug, PartialEq, Eq)]
pub struct TargetEntry {
    pub target: String,
    pub alias: Option<String>,
    pub last_used: u64,
    pub total_sessions: u32,
    pub avg_latency: Option<u64>,
    pub success_rate: Option<u64>,
}

impl Clone for TargetEntry {
    fn clone(&self) -> (r: TargetEntry)
        ensures
            r == *self,
    {
        TargetEntry {
            target: self.target.clone(),
            alias: match &self.alias {
                Some(a) => Some(a.clone()),
                None => None,
            },
            last_used: self.last_used,
            total_sessions: self.total_sessions,
            avg_latency: self.avg_latency,
            success_rate: self.success_rate,
        }
    }
}

/// Entries ordered from most recently used to least.
pub open spec fn sorted_by_recency(s: Seq<TargetEntry>) -> bool {
    forall|i: int, j: int| 0 <= i < j < s.len() ==> s[i].last_used >= s[j].last_used
}

/// Character-for-character string equality.
pub fn str_eq(a: &str, b: &str) -> (r: bool)
    ensures
        r == (a@ == b@),
{
    let n = a.unicode_len();
    let m = b.unicode_len();
    if n != m {
        proof {
            assert(a@ != b@);
        }
        return false;
    }
    let mut k: usize = 0;
    while k < n
        invariant
            k <= n,
            n == a@.len(),
            n == b@.len(),
            forall|t: int| 0 <= t < k ==> a@[t] == b@[t],
        decreases n - k,
    {
        if a.get_char(k) != b.get_char(k) {
            return false;
        }
        k = k + 1;
    }
    proof {
        assert(a@ =~= b@);
    }
    true
}

/// The recent-targets list and the configuration, as persisted between
/// sessions.
#[derive(Debug)]
pub struct TargetHistory {
    pub entries: Vec<TargetEntry>,
    pub favorites: Vec<String>,
    pub config: Config,
}

impl Default for TargetHistory {
    fn default() -> (r: TargetHistory)
        ensures
            r.entries@ == Seq::<TargetEntry>::empty(),
            r.favorites@ == Seq::<String>::empty(),
            r.config.pause_ping_during_speedtest == true,
            r.config.graph_history_length == 200,
            r.config.ping_interval_ms == 500,
            r.config.show_jitter_panel == true,
            r.config.show_history_panel == true,
            r.config.speedtest_provider@ == "ookla"@,
    {
        TargetHistory { entries: Vec::new(), favorites: Vec::new(), config: Config::default() }
    }
}

/// Sorts the entries from most recently used to least. The result is a
/// rearrangement: same entries, same multiplicities.
fn sort_entries_by_recency(v: &mut Vec<TargetEntry>)
    ensures
        sorted_by_recency(final(v)@),
        final(v)@.to_multiset() == old(v)@.to_multiset(),
        final(v)@.len() == old(v)@.len(),
{
    broadcast use group_to_multiset_ensures;

    let ghost orig = v@;
    let mut i: usize = 1;
    while i < v.len()
        invariant
            1 <= i,
            i <= v@.len() || v@.len() < 1,
            v@.to_multiset() == orig.to_multiset(),
            v@.len() == orig.len(),
            sorted_by_recency(v@.take(i as int)) || v@.len() == 0,
        decreases v@.len() - i,
    {
        let ghost pre = v@;
        let x = v.remove(i);
        // Insert before the first strictly older entry of the sorted prefix.
        let mut j: usize = 0;
        while j < i && v[j].last_used >= x.last_used
            invariant
                j <= i,
                i < pre.len(),
                v@ == pre.remove(i as int),
                forall|t: int| 0 <= t < j ==> v@[t].last_used >= x.last_used,
            decreases i - j,
        {
            j = j + 1;
        }
        let ghost mid = v@;
        v.insert(j, x);
        proof {
            broadcast use vstd::multiset::group_multiset_axioms;

            assert(v@ == mid.insert(j as int, x));
            // The multiset is unchanged by removing and reinserting `x`.
            vstd::seq_lib::to_multiset_insert(mid, j as int, x);
            vstd::seq_lib::to_multiset_remove(pre, i as int);
            vstd::seq_lib::to_multiset_contains(pre, x);
            assert(pre[i as int] == x);
            assert(pre.contains(x));
            assert(pre.to_multiset().count(x) >= 1);
            assert(v@.to_multiset() == pre.to_multiset().remove(x).insert(x));
            assert(v@.to_multiset() =~= pre.to_multiset());
            // The widened prefix is still sorted.
            assert forall|a: int, b: int| 0 <= a < b < i + 1 implies v@[a].last_used
                >= v@[b].last_used by {
                assert(forall|t: int|
                    0 <= t < i ==> mid[t] == (if t < j {
                        v@[t]
                    } else {
                        v@[t + 1]
                    }));
                assert(forall|t: int| 0 <= t < i ==> mid[t] == pre[t]);
                if a < j && b == j {
                } else if a == j && b > j {
                    assert(mid[j as int].last_used < x.last_used || j == i);
                } else if a < j && b > j {
                    assert(pre.take(i as int)[a] == v@[a]);
                }
            }
            assert(sorted_by_recency(v@.take(i + 1)));
        }
        i = i + 1;
    }
    proof {
        if v@.len() > 0 {
            assert(v@.take(v@.len() as int) =~= v@);
        }
    }
}

/// The three invocations that are help requests, not targets.
pub open spec fn is_help_flag(s: Seq<char>) -> bool {
    s == "--help"@ || s == "-h"@ || s == "?"@
}

/// An entry refreshed at `now_ms`: one more session (capped rather than
/// wrapped), everything else kept.
pub open spec fn bumped_entry(e: TargetEntry, now_ms: u64) -> TargetEntry {
    TargetEntry {
        target: e.target,
        alias: e.alias,
        last_used: now_ms,
        total_sessions: if e.total_sessions < u32::MAX {
            (e.total_sessions + 1) as u32
        } else {
            e.total_sessions
        },
        avg_latency: e.avg_latency,
        success_rate: e.success_rate,
    }
}

impl TargetHistory {
    /// Records a session against `target` at time `now_ms`: the first
    /// matching entry is bumped, or a fresh one is added, help flags are
    /// ignored, and the list is reordered most recent first. The rest of
    /// the entries survive unchanged: the result is a rearrangement of
    /// the old list with exactly that one entry bumped or added.
    pub fn add_target(&mut self, target: &str, now_ms: u64)
        ensures
            final(self).config == old(self).config,
            final(self).favorites == old(self).favorites,
            is_help_flag(target@) ==> final(self).entries == old(self).entries,
            !is_help_flag(target@) ==> {
                &&& sorted_by_recency(final(self).entries@)
                &&& exists|t: int|
                    0 <= t < final(self).entries@.len() && (#[trigger] final(self).entries@[t]).target@ == target@ && final(self).entries@[t].last_used
                        == now_ms
            },
            !is_help_flag(target@) && (exists|t: int|
                0 <= t < old(self).entries@.len() && (#[trigger] old(self).entries@[t]).target@
                    == target@) ==> {
                &&& final(self).entries@.len() == old(self).entries@.len()
                &&& exists|t: int|
                    {
                        &&& 0 <= t < old(self).entries@.len()
                        &&& (#[trigger] old(self).entries@[t]).target@ == target@
                        &&& forall|u: int|
                            0 <= u < t ==> (#[trigger] old(self).entries@[u]).target@ != target@
                        &&& final(self).entries@.to_multiset() == old(self).entries@.remove(
                            t,
                        ).to_multiset().insert(bumped_entry(old(self).entries@[t], now_ms))
                    }
            },
            !is_help_flag(target@) && !(exists|t: int|
                0 <= t < old(self).entries@.len() && (#[trigger] old(self).entries@[t]).target@
                    == target@) ==> {
                &&& final(self).entries@.len() == old(self).entries@.len() + 1
                &&& exists|en: TargetEntry|
                    {
                        &&& (#[trigger] en.target)@ == target@
                        &&& en.alias is None
                        &&& en.last_used == now_ms
                        &&& en.total_sessions == 1
                        &&& en.avg_latency is None
                        &&& en.success_rate is None
                        &&& final(self).entries@.to_multiset() == old(
                            self,
                        ).entries@.to_multiset().insert(en)
                    }
            },
    {
        if str_eq(target, "--help") || str_eq(target, "-h") || str_eq(target, "?") {
            return ;
        }
        let n = self.entries.len();
        let mut idx: usize = 0;
        let mut found = false;
        while idx < n && !found
            invariant
                idx <= n,
                n == self.entries@.len(),
                self.entries == old(self).entries,
                forall|t: int| 0 <= t < idx ==> (#[trigger] self.entries@[t]).target@ != target@,
                found ==> idx < n && self.entries@[idx as int].target@ == target@,
            decreases n - idx + (if found {
                0int
            } else {
                1int
            }),
        {
            if str_eq(self.entries[idx].target.as_str(), target) {
                found = true;
            } else {
                idx = idx + 1;
            }
        }
        proof {
            if !found {
                assert(forall|t: int|
                    0 <= t < old(self).entries@.len() ==> (#[trigger] old(
                        self,
                    ).entries@[t]).target@ != target@);
            }
        }
        if found {
            let entry = self.entries.remove(idx);
            let sessions = if entry.total_sessions < u32::MAX {
                entry.total_sessions + 1
            } else {
                entry.total_sessions
            };
            let bumped = TargetEntry {
                target: entry.target,
                alias: entry.alias,
                last_used: now_ms,
                total_sessions: sessions,
                avg_latency: entry.avg_latency,
                success_rate: entry.success_rate,
            };
            self.entries.push(bumped);
        } else {
            self.entries.push(
                TargetEntry {
                    target: String::from_str(target),
                    alias: None,
                    last_used: now_ms,
                    total_sessions: 1,
                    avg_latency: None,
                    success_rate: None,
                },
            );
        }
        let ghost before_sort = self.entries@;
        let ghost pre = old(self).entries@;
        proof {
            broadcast use group_to_multiset_ensures;

            assert(before_sort[before_sort.len() - 1].target@ == target@);
            assert(before_sort[before_sort.len() - 1].last_used == now_ms);
            if found {
                assert(before_sort == pre.remove(idx as int).push(
                    bumped_entry(pre[idx as int], now_ms),
                ));
                assert(before_sort.to_multiset() == pre.remove(idx as int).to_multiset().insert(
                    bumped_entry(pre[idx as int], now_ms),
                ));
            } else {
                assert(before_sort.drop_last() == pre);
                assert(before_sort == pre.push(before_sort.last()));
                assert(before_sort.to_multiset() == pre.to_multiset().insert(
                    before_sort.last(),
                ));
            }
        }
        sort_entries_by_recency(&mut self.entries);
        proof {
            broadcast use group_to_multiset_ensures;

            let probe = before_sort[before_sort.len() - 1];
            assert(before_sort.to_multiset().contains(probe));
            assert(self.entries@.to_multiset().contains(probe));
            assert(self.entries@.contains(probe));
            let w = choose|w: int|
                0 <= w < self.entries@.len() && self.entries@[w] == probe;
            assert(self.entries@[w].target@ == target@ && self.entries@[w].last_used == now_ms);
            if found {
                assert(exists|t: int|
                    0 <= t < pre.len() && (#[trigger] pre[t]).target@ == target@);
            }
        }
    }

    pub fn is_empty(&self) -> (r: bool)
        ensures
            r == (self.entries@.len() == 0),
    {
        self.entries.is_empty()
    }

    /// Overwrites the recorded figures of `target`'s first entry, when
    /// one exists: average latency in microseconds, success rate in
    /// hundredths of a percent.
    pub fn update_stats(&mut self, target: &str, avg_latency_us: u64, success_rate_cpct: u64)
        ensures
            final(self).config == old(self).config,
            final(self).favorites == old(self).favorites,
            final(self).entries@.len() == old(self).entries@.len(),
            !(exists|t: int|
                0 <= t < old(self).entries@.len() && (#[trigger] old(self).entries@[t]).target@
                    == target@) ==> final(self).entries == old(self).entries,
            (exists|t: int|
                0 <= t < old(self).entries@.len() && (#[trigger] old(self).entries@[t]).target@
                    == target@) ==> exists|t: int|
                {
                    &&& 0 <= t < old(self).entries@.len()
                    &&& (#[trigger] old(self).entries@[t]).target@ == target@
                    &&& forall|u: int|
                        0 <= u < t ==> (#[trigger] old(self).entries@[u]).target@ != target@
                    &&& final(self).entries@[t] == (TargetEntry {
                        avg_latency: Some(avg_latency_us),
                        success_rate: Some(success_rate_cpct),
                        ..old(self).entries@[t]
                    })
                    &&& forall|u: int|
                        0 <= u < old(self).entries@.len() && u != t ==> final(self).entries@[u]
                            == (#[trigger] old(self).entries@[u])
                },
    {
        let n = self.entries.len();
        let mut idx: usize = 0;
        let mut found = false;
        while idx < n && !found
            invariant
                idx <= n,
                n == self.entries@.len(),
                self.entries == old(self).entries,
                forall|t: int| 0 <= t < idx ==> (#[trigger] self.entries@[t]).target@ != target@,
                found ==> idx < n && self.entries@[idx as int].target@ == target@,
            decreases n - idx + (if found {
                0int
            } else {
                1int
            }),
        {
            if str_eq(self.entries[idx].target.as_str(), target) {
                found = true;
            } else {
                idx = idx + 1;
            }
        }
        if found {
            let entry = self.entries.remove(idx);
            let updated = TargetEntry {
                target: entry.target,
                alias: entry.alias,
                last_used: entry.last_used,
                total_sessions: entry.total_sessions,
                avg_latency: Some(avg_latency_us),
                success_rate: Some(success_rate_cpct),
            };
            self.entries.insert(idx, updated);
            proof {
                assert(forall|t: int|
                    0 <= t < self.entries@.len() && t != idx ==> #[trigger] self.entries@[t]
                        == old(self).entries@[t]);
                assert(self.entries@[idx as int].target@ == target@);
            }
        }
    }
}

} // verus!
