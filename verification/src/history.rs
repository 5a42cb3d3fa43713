//! History of CPU-tick observations carried across scans, keyed by process
//! id together with the process's start time so that a process id reused by
//! a later, unrelated process is never mistaken for its predecessor.

use vstd::prelude::*;

verus! {

/// One remembered observation: the start time identifying the process
/// incarnation, its cumulative CPU ticks, and the wall-clock time of the
/// observation in milliseconds.
pub ghost struct SampleVal {
    pub start_time: u64,
    pub ticks: u64,
    pub at_ms: u64,
}

#[derive(Clone, Copy)]
struct HistEntry {
    pid: u64,
    start_time: u64,
    ticks: u64,
    at_ms: u64,
}

/// The remembered observation of a history entry.
spec fn val_of(e: HistEntry) -> SampleVal {
    SampleVal { start_time: e.start_time, ticks: e.ticks, at_ms: e.at_ms }
}

/// The map an entry sequence denotes: each pid to its remembered
/// observation.
spec fn entries_map(s: Seq<HistEntry>) -> Map<u64, SampleVal>
    decreases s.len(),
{
    if s.len() == 0 {
        Map::empty()
    } else {
        entries_map(s.drop_last()).insert(s.last().pid, val_of(s.last()))
    }
}

/// No two entries share a pid.
spec fn unique_pids(s: Seq<HistEntry>) -> bool {
    forall|i: int, j: int| 0 <= i < j < s.len() ==> s[i].pid != s[j].pid
}

proof fn lemma_entries_map_contains(s: Seq<HistEntry>, p: u64)
    ensures
        entries_map(s).contains_key(p) <==> exists|i: int| 0 <= i < s.len() && s[i].pid == p,
    decreases s.len(),
{
    if s.len() > 0 {
        lemma_entries_map_contains(s.drop_last(), p);
        if s.last().pid == p {
            assert(s[s.len() - 1].pid == p);
        } else if entries_map(s).contains_key(p) {
            let i = choose|i: int| 0 <= i < s.drop_last().len() && s.drop_last()[i].pid == p;
            assert(s[i].pid == p);
        } else {
            assert(forall|i: int|
                0 <= i < s.len() - 1 ==> s[i].pid == s.drop_last()[i].pid);
        }
    }
}

proof fn lemma_entries_map_index(s: Seq<HistEntry>, i: int)
    requires
        unique_pids(s),
        0 <= i < s.len(),
    ensures
        entries_map(s).contains_key(s[i].pid),
        entries_map(s)[s[i].pid] == val_of(s[i]),
    decreases s.len(),
{
    if i == s.len() - 1 {
        assert(s.last() == s[i]);
    } else {
        assert(unique_pids(s.drop_last())) by {
            assert(forall|a: int, b: int|
                0 <= a < b < s.len() - 1 ==> s.drop_last()[a] == s[a] && s.drop_last()[b] == s[b]);
        }
        lemma_entries_map_index(s.drop_last(), i);
        assert(s.drop_last()[i] == s[i]);
        assert(s.last().pid != s[i].pid);
    }
}

proof fn lemma_entries_map_update(s: Seq<HistEntry>, j: int, e: HistEntry)
    requires
        unique_pids(s),
        0 <= j < s.len(),
        e.pid == s[j].pid,
    ensures
        entries_map(s.update(j, e)) =~= entries_map(s).insert(e.pid, val_of(e)),
    decreases s.len(),
{
    let s2 = s.update(j, e);
    if j == s.len() - 1 {
        assert(s2.drop_last() =~= s.drop_last());
        assert(s2.last() == e);
    } else {
        assert(unique_pids(s.drop_last())) by {
            assert(forall|a: int, b: int|
                0 <= a < b < s.len() - 1 ==> s.drop_last()[a] == s[a] && s.drop_last()[b] == s[b]);
        }
        lemma_entries_map_update(s.drop_last(), j, e);
        assert(s2.drop_last() =~= s.drop_last().update(j, e));
        assert(s2.last() == s.last());
        assert(s.last().pid != e.pid);
    }
}

/// The CPU utilization a new observation yields, in hundredths of a percent,
/// always in [0, 10000]: the tick delta against the remembered observation
/// for the same process incarnation, over the elapsed wall time, scaled by
/// the clock-tick rate. A first observation, a different incarnation (pid
/// reuse), or a backwards tick counter yields zero.
pub open spec fn spec_cpu_centi(
    h: Map<u64, SampleVal>,
    pid: u64,
    start_time: u64,
    ticks: u64,
    now_ms: u64,
    tps: u64,
) -> int {
    if h.contains_key(pid) && h[pid].start_time == start_time {
        let prev = h[pid];
        let delta = if ticks > prev.ticks {
            ticks - prev.ticks
        } else {
            0
        };
        let ms = if now_ms > prev.at_ms {
            now_ms - prev.at_ms
        } else {
            1
        };
        let q = delta * 10000000 / (tps * ms);
        if q > 10000 {
            10000
        } else {
            q
        }
    } else {
        0
    }
}

/// The per-process CPU-tick history carried by the caller across scans.
pub struct CpuSampleHistory {
    entries: Vec<HistEntry>,
}

impl View for CpuSampleHistory {
    type V = Map<u64, SampleVal>;

    closed spec fn view(&self) -> Map<u64, SampleVal> {
        entries_map(self.entries@)
    }
}

impl CpuSampleHistory {
    /// The history's internal invariant: one entry per process id.
    pub closed spec fn wf(&self) -> bool {
        unique_pids(self.entries@)
    }

    /// An empty history, for the start of a monitoring session.
    pub fn new() -> (h: CpuSampleHistory)
        ensures
            h@ == Map::<u64, SampleVal>::empty(),
            h.wf(),
    {
        CpuSampleHistory { entries: Vec::new() }
    }

    /// How many process incarnations are remembered.
    pub fn len(&self) -> (n: usize)
        requires
            self.wf(),
        ensures
            n == self@.dom().len(),
    {
        proof {
            lemma_entries_len(self.entries@);
        }
        self.entries.len()
    }

    /// The index of the entry for `pid`, if one is remembered.
    fn find_idx(&self, pid: u64) -> (r: Option<usize>)
        requires
            self.wf(),
        ensures
            r matches Some(j) ==> 0 <= j < self.entries@.len() && self.entries@[j as int].pid
                == pid && self@.contains_key(pid) && self@[pid] == val_of(
                self.entries@[j as int],
            ),
            r is None ==> !self@.contains_key(pid),
    {
        let n = self.entries.len();
        let mut i: usize = 0;
        while i < n
            invariant
                0 <= i <= n,
                n == self.entries@.len(),
                self.wf(),
                forall|k: int| 0 <= k < i ==> self.entries@[k].pid != pid,
            decreases n - i,
        {
            if self.entries[i].pid == pid {
                proof {
                    lemma_entries_map_index(self.entries@, i as int);
                }
                return Some(i);
            }
            i = i + 1;
        }
        proof {
            lemma_entries_map_contains(self.entries@, pid);
        }
        None
    }

    /// The remembered observation for `pid`, if any.
    pub fn lookup(&self, pid: u64) -> (r: Option<(u64, u64, u64)>)
        requires
            self.wf(),
        ensures
            (r is Some) == self@.contains_key(pid),
            r matches Some(t) ==> self@[pid] == (SampleVal {
                start_time: t.0,
                ticks: t.1,
                at_ms: t.2,
            }),
    {
        match self.find_idx(pid) {
            Some(j) => {
                let e = self.entries[j];
                Some((e.start_time, e.ticks, e.at_ms))
            },
            None => None,
        }
    }

    /// Records the observation `(ticks, now_ms)` for the process incarnation
    /// `(pid, start_time)` and returns the CPU utilization this sample
    /// shows, in hundredths of a percent, clamped into [0, 10000].
    pub fn sample(
        &mut self,
        pid: u64,
        start_time: u64,
        ticks: u64,
        now_ms: u64,
        tps: u64,
    ) -> (centi: u32)
        requires
            old(self).wf(),
            tps >= 1,
        ensures
            final(self).wf(),
            final(self)@ == old(self)@.insert(
                pid,
                SampleVal { start_time, ticks, at_ms: now_ms },
            ),
            centi as int == spec_cpu_centi(old(self)@, pid, start_time, ticks, now_ms, tps),
            centi <= 10000,
    {
        let e = HistEntry { pid, start_time, ticks, at_ms: now_ms };
        match self.find_idx(pid) {
            Some(j) => {
                let prev = self.entries[j];
                let centi: u32 = if prev.start_time == start_time {
                    let delta: u64 = if ticks > prev.ticks {
                        ticks - prev.ticks
                    } else {
                        0
                    };
                    let ms: u64 = if now_ms > prev.at_ms {
                        now_ms - prev.at_ms
                    } else {
                        1
                    };
                    let num: u128 = (delta as u128) * 10000000;
                    assert(tps as int * ms as int <= u64::MAX as int * u64::MAX as int)
                        by (nonlinear_arith)
                        requires
                            1 <= tps <= u64::MAX,
                            1 <= ms <= u64::MAX,
                    ;
                    let den: u128 = (tps as u128) * (ms as u128);
                    assert(den >= 1) by (nonlinear_arith)
                        requires
                            tps >= 1,
                            ms >= 1,
                            den == tps as int * ms as int,
                    ;
                    let q = num / den;
                    if q > 10000 {
                        10000u32
                    } else {
                        q as u32
                    }
                } else {
                    0
                };
                proof {
                    lemma_entries_map_update(self.entries@, j as int, e);
                }
                self.entries[j] = e;
                centi
            },
            None => {
                proof {
                    let s = self.entries@;
                    assert(s.push(e).drop_last() =~= s);
                    lemma_entries_map_contains(s, pid);
                }
                self.entries.push(e);
                0
            },
        }
    }

    /// Drops every remembered incarnation whose pid is not in `keep`; the
    /// observations of the kept pids are unchanged. Called after a scan so
    /// that the history never outgrows the set of live processes.
    pub fn retain_pids(&mut self, keep: &Vec<u64>)
        requires
            old(self).wf(),
        ensures
            final(self).wf(),
            forall|p: u64| #[trigger]
                final(self)@.contains_key(p) ==> old(self)@.contains_key(p) && keep@.contains(p),
            forall|p: u64| #![trigger old(self)@.contains_key(p)]
                old(self)@.contains_key(p) && keep@.contains(p) ==> final(self)@.contains_key(p),
            forall|p: u64| #[trigger]
                final(self)@.contains_key(p) ==> final(self)@[p] == old(self)@[p],
    {
        let ghost s = self.entries@;
        let ghost m0 = self@;
        let n = self.entries.len();
        let mut kept: Vec<HistEntry> = Vec::new();
        let mut i: usize = 0;
        while i < n
            invariant
                0 <= i <= n,
                n == s.len(),
                self.entries@ == s,
                kept@ == filter_entries(s.subrange(0, i as int), keep@),
            decreases n - i,
        {
            let e = self.entries[i];
            let ghost pre = s.subrange(0, i as int);
            let ghost cur = s.subrange(0, i + 1);
            proof {
                assert(cur.drop_last() =~= pre);
                assert(cur.last() == s[i as int]);
            }
            if contains_u64(keep, e.pid) {
                kept.push(e);
            }
            i = i + 1;
        }
        proof {
            assert(s.subrange(0, n as int) =~= s);
            lemma_filter_entries_unique(s, keep@);
        }
        self.entries = kept;
        proof {
            assert forall|p: u64| #[trigger]
                self@.contains_key(p) implies m0.contains_key(p) && keep@.contains(p) by {
                lemma_filter_entries_key(s, keep@, p);
            }
            assert forall|p: u64| #![trigger m0.contains_key(p)]
                m0.contains_key(p) && keep@.contains(p) implies self@.contains_key(p) by {
                lemma_filter_entries_key(s, keep@, p);
            }
            assert forall|p: u64| #[trigger] self@.contains_key(p) implies self@[p] == m0[p] by {
                lemma_filter_entries_key(s, keep@, p);
            }
        }
    }
}

/// The entries of `s` whose pid is in `keep`, in order.
spec fn filter_entries(s: Seq<HistEntry>, keep: Seq<u64>) -> Seq<HistEntry>
    decreases s.len(),
{
    if s.len() == 0 {
        Seq::empty()
    } else {
        let rest = filter_entries(s.drop_last(), keep);
        if keep.contains(s.last().pid) {
            rest.push(s.last())
        } else {
            rest
        }
    }
}

/// Filtering a unique-pid entry sequence keeps the pids unique.
proof fn lemma_filter_entries_unique(s: Seq<HistEntry>, keep: Seq<u64>)
    requires
        unique_pids(s),
    ensures
        unique_pids(filter_entries(s, keep)),
    decreases s.len(),
{
    if s.len() > 0 {
        let d = s.drop_last();
        let last = s.last();
        assert(unique_pids(d)) by {
            assert(forall|a: int, b: int|
                0 <= a < b < s.len() - 1 ==> d[a] == s[a] && d[b] == s[b]);
        }
        lemma_filter_entries_unique(d, keep);
        let td = filter_entries(d, keep);
        if keep.contains(last.pid) {
            let t = filter_entries(s, keep);
            assert(t == td.push(last));
            lemma_filter_entries_key(d, keep, last.pid);
            lemma_entries_map_contains(d, last.pid);
            assert(forall|i: int| 0 <= i < s.len() - 1 ==> d[i] == s[i]);
            assert(!entries_map(d).contains_key(last.pid));
            assert(!entries_map(td).contains_key(last.pid));
            lemma_entries_map_contains(td, last.pid);
            assert(forall|a: int| 0 <= a < td.len() ==> td[a].pid != last.pid);
            assert(forall|a: int| 0 <= a < t.len() - 1 ==> t[a] == td[a]);
        }
    }
}

/// Filtering a unique-pid entry sequence restricts its map to the kept
/// pids and leaves the kept observations unchanged, at any one key.
proof fn lemma_filter_entries_key(s: Seq<HistEntry>, keep: Seq<u64>, p: u64)
    requires
        unique_pids(s),
    ensures
        entries_map(filter_entries(s, keep)).contains_key(p) <==> (entries_map(
            s,
        ).contains_key(p) && keep.contains(p)),
        entries_map(filter_entries(s, keep)).contains_key(p) ==> entries_map(
            filter_entries(s, keep),
        )[p] == entries_map(s)[p],
    decreases s.len(),
{
    if s.len() > 0 {
        let d = s.drop_last();
        let last = s.last();
        assert(unique_pids(d)) by {
            assert(forall|a: int, b: int|
                0 <= a < b < s.len() - 1 ==> d[a] == s[a] && d[b] == s[b]);
        }
        lemma_filter_entries_key(d, keep, p);
        let t = filter_entries(s, keep);
        let td = filter_entries(d, keep);
        lemma_entries_map_contains(d, last.pid);
        assert(forall|i: int| 0 <= i < s.len() - 1 ==> d[i] == s[i]);
        assert(!entries_map(d).contains_key(last.pid));
        assert(entries_map(s) == entries_map(d).insert(last.pid, val_of(last)));
        if keep.contains(last.pid) {
            assert(t == td.push(last));
            assert(t.drop_last() =~= td);
            assert(t.last() == last);
            assert(entries_map(t) == entries_map(td).insert(last.pid, val_of(last)));
        } else {
            assert(t == td);
        }
    }
}

/// A unique-pid entry sequence denotes a map with one key per entry.
proof fn lemma_entries_len(s: Seq<HistEntry>)
    requires
        unique_pids(s),
    ensures
        entries_map(s).dom().len() == s.len(),
        entries_map(s).dom().finite(),
    decreases s.len(),
{
    if s.len() > 0 {
        assert(unique_pids(s.drop_last())) by {
            assert(forall|a: int, b: int|
                0 <= a < b < s.len() - 1 ==> s.drop_last()[a] == s[a] && s.drop_last()[b] == s[b]);
        }
        lemma_entries_len(s.drop_last());
        lemma_entries_map_contains(s.drop_last(), s.last().pid);
        assert(forall|i: int| 0 <= i < s.len() - 1 ==> s.drop_last()[i] == s[i]);
        assert(!entries_map(s.drop_last()).contains_key(s.last().pid));
        vstd::set::axiom_set_insert_finite(entries_map(s.drop_last()).dom(), s.last().pid);
        vstd::set::axiom_set_insert_len(entries_map(s.drop_last()).dom(), s.last().pid);
        assert(entries_map(s).dom() =~= entries_map(s.drop_last()).dom().insert(s.last().pid));
    }
}

/// Whether `v` holds `x`.
pub(crate) fn contains_u64(v: &Vec<u64>, x: u64) -> (r: bool)
    ensures
        r == v@.contains(x),
{
    let n = v.len();
    let mut i: usize = 0;
    while i < n
        invariant
            0 <= i <= n,
            n == v@.len(),
            forall|k: int| 0 <= k < i ==> v@[k] != x,
        decreases n - i,
    {
        if v[i] == x {
            return true;
        }
        i = i + 1;
    }
    false
}

} // verus!
