//! Assembling one full snapshot: turning the per-process observations a
//! caller gathered into records, tolerating the loss of any one process,
//! and keeping the caller's CPU history and user cache in step.

use crate::device::get_terminal_name;
use crate::device::spec_terminal_name;
use crate::history::CpuSampleHistory;
use crate::history::SampleVal;
use crate::history::spec_cpu_centi;
use crate::identity::UserCache;
use crate::identity::spec_uid_name;
use crate::identity::uid_fallback_name;
use crate::meminfo::parse_vmrss;
use crate::meminfo::spec_vmrss_kb;
use crate::model::ProcessInfo;
use crate::stat::StatError;
use crate::stat::StatFields;
use crate::stat::StatModel;
use crate::stat::parse_stat;
use crate::stat::spec_parse_stat;
use crate::state::state_of_char;
use vstd::prelude::*;
use vstd::string::StringExecFns;

verus! {

/// Everything the caller observed about one process id: the raw status
/// text, the memory-status text, the command-line text, and the owner id.
/// `None` in any position means that resource could not be read, most often
/// because the process vanished between enumeration and the read.
pub struct Observation {
    /// The process id the observation was gathered for.
    pub pid: u64,
    /// The raw positional status text.
    pub stat_text: Option<String>,
    /// The line-oriented memory-status text.
    pub status_text: Option<String>,
    /// The raw command-line text.
    pub cmdline: Option<String>,
    /// The numeric owner id.
    pub uid: Option<u32>,
}

/// What parsing an observation's status text yields; an unreadable status
/// text rules the process out of the snapshot.
#[verifier::opaque]
pub open spec fn obs_parse(o: Observation) -> Result<StatModel, StatError> {
    match o.stat_text {
        Some(t) => spec_parse_stat(t@),
        None => Err(StatError::StatUnavailable),
    }
}

/// The record's cumulative tick count: user plus kernel ticks, saturating.
pub open spec fn spec_total_ticks(m: StatModel) -> u64 {
    if m.utime + m.stime > u64::MAX {
        u64::MAX
    } else {
        (m.utime + m.stime) as u64
    }
}

/// How a finished record relates to the parsed status fields `m`, the rest
/// of the observation `o`, and the CPU history `h` as it stood before the
/// record was built.
#[verifier::opaque]
pub open spec fn record_matches(
    p: ProcessInfo,
    m: StatModel,
    o: Observation,
    h: Map<u64, SampleVal>,
    now_ms: u64,
    tps: u64,
) -> bool {
    &&& p.pid == m.pid
    &&& p.ppid == m.ppid
    &&& p.name@ == m.name
    &&& p.state == state_of_char(m.state_ch)
    &&& p.session_id == m.session_id
    &&& p.priority == m.priority
    &&& p.nice == m.nice
    &&& p.num_threads == m.num_threads
    &&& p.start_time == m.start_time
    &&& p.virtual_memory_kb == m.vsize_bytes / 1024
    &&& p.cpu_time_total == spec_total_ticks(m)
    &&& p.terminal@ == spec_terminal_name(m.tty_nr)
    &&& p.memory_kb == (match o.status_text {
        Some(t) => spec_vmrss_kb(t@),
        None => 0,
    })
    &&& p.command@ == (match o.cmdline {
        Some(c) => c@,
        None => m.name,
    })
    &&& p.cpu_centi_percent as int == spec_cpu_centi(
        h,
        m.pid,
        m.start_time,
        spec_total_ticks(m),
        now_ms,
        tps,
    )
    &&& p.cpu_centi_percent <= 10000
    &&& p.user@.len() > 0
}

/// Builds the finished record from parsed status fields and the rest of
/// the observation: decodes the terminal, extracts resident memory, settles
/// the command text, samples the CPU history, and resolves the owner name.
fn build_record(
    f: StatFields,
    o: &Observation,
    now_ms: u64,
    tps: u64,
    history: &mut CpuSampleHistory,
    users: &mut UserCache,
) -> (p: ProcessInfo)
    requires
        old(history).wf(),
        old(users).wf(),
        tps >= 1,
    ensures
        final(history).wf(),
        final(users).wf(),
        final(users).scans() == old(users).scans(),
        final(users).interval() == old(users).interval(),
        record_matches(p, f@, *o, old(history)@, now_ms, tps),
        final(history)@ == old(history)@.insert(
            f@.pid,
            SampleVal {
                start_time: f@.start_time,
                ticks: spec_total_ticks(f@),
                at_ms: now_ms,
            },
        ),
        match o.uid {
            Some(u) => if old(users)@.contains_key(u) {
                final(users)@ == old(users)@ && p.user@ == old(users)@[u]
            } else {
                final(users)@ == old(users)@.insert(u, p.user@)
            },
            None => final(users)@ == old(users)@ && p.user@ == spec_uid_name(f@.pid),
        },
{
    proof {
        reveal(record_matches);
    }
    let state = f.state();
    let terminal = get_terminal_name(f.tty_nr);
    let memory_kb = match &o.status_text {
        Some(t) => parse_vmrss(t.as_str()),
        None => 0,
    };
    let command = match &o.cmdline {
        Some(c) => c.clone(),
        None => f.name.clone(),
    };
    let total: u64 = if f.utime > u64::MAX - f.stime {
        u64::MAX
    } else {
        f.utime + f.stime
    };
    let cpu = history.sample(f.pid, f.start_time, total, now_ms, tps);
    let user = match o.uid {
        Some(u) => users.resolve(u),
        None => uid_fallback_name(f.pid),
    };
    ProcessInfo {
        pid: f.pid,
        ppid: f.ppid,
        name: f.name,
        command,
        cpu_centi_percent: cpu,
        cpu_time_total: total,
        memory_kb,
        start_time: f.start_time,
        state,
        user,
        priority: f.priority,
        nice: f.nice,
        num_threads: f.num_threads,
        virtual_memory_kb: f.vsize_bytes / 1024,
        session_id: f.session_id,
        terminal,
    }
}

/// Attempts one process's record from its observation: parses the status
/// text and, on success, assembles the full record, recording the CPU
/// observation in the history and resolving the owner name through the
/// cache. On any parse error the history and the cache are untouched.
pub fn parse_process(
    obs: &Observation,
    now_ms: u64,
    tps: u64,
    history: &mut CpuSampleHistory,
    users: &mut UserCache,
) -> (r: Result<ProcessInfo, StatError>)
    requires
        old(history).wf(),
        old(users).wf(),
        tps >= 1,
    ensures
        final(history).wf(),
        final(users).wf(),
        final(users).scans() == old(users).scans(),
        final(users).interval() == old(users).interval(),
        (r is Ok) == (obs_parse(*obs) is Ok),
        r matches Err(e) ==> obs_parse(*obs) matches Err(e2) && e == e2 && final(history)@ == old(
            history,
        )@ && final(users)@ == old(users)@,
        r matches Ok(p) ==> obs_parse(*obs) matches Ok(m) && {
            &&& record_matches(p, m, *obs, old(history)@, now_ms, tps)
            &&& final(history)@ == old(history)@.insert(
                m.pid,
                SampleVal {
                    start_time: m.start_time,
                    ticks: spec_total_ticks(m),
                    at_ms: now_ms,
                },
            )
            &&& match obs.uid {
                Some(u) => if old(users)@.contains_key(u) {
                    final(users)@ == old(users)@ && p.user@ == old(users)@[u]
                } else {
                    final(users)@ == old(users)@.insert(u, p.user@)
                },
                None => final(users)@ == old(users)@ && p.user@ == spec_uid_name(m.pid),
            }
        },
{
    proof {
        reveal(obs_parse);
    }
    let stat_text = match &obs.stat_text {
        Some(t) => t,
        None => {
            return Err(StatError::StatUnavailable);
        },
    };
    let f = match parse_stat(stat_text.as_str()) {
        Ok(f) => f,
        Err(e) => {
            return Err(e);
        },
    };
    Ok(build_record(f, obs, now_ms, tps, history, users))
}

/// Whether some record in `records` carries this pid.
pub open spec fn has_pid_in(records: Seq<ProcessInfo>, pid: u64) -> bool {
    exists|k: int| 0 <= k < records.len() && records[k].pid == pid
}

/// Whether some already-planned index in `idxs` names an observation whose
/// status text parsed to this pid.
pub open spec fn idxs_have_pid(obs: Seq<Observation>, idxs: Seq<int>, pid: u64) -> bool {
    exists|k: int|
        0 <= k < idxs.len() && 0 <= idxs[k] < obs.len() && obs_parse(obs[idxs[k]]) is Ok
            && obs_parse(obs[idxs[k]])->Ok_0.pid == pid
}

/// The observation indices a scan turns into records, in order: those whose
/// status text parses, whose pid is strictly positive, and whose pid no
/// earlier accepted observation already claimed.
pub open spec fn scan_plan(obs: Seq<Observation>) -> Seq<int>
    decreases obs.len(),
{
    if obs.len() == 0 {
        Seq::empty()
    } else {
        let pre = scan_plan(obs.drop_last());
        let o = obs.last();
        if obs_parse(o) is Ok && obs_parse(o)->Ok_0.pid > 0 && !idxs_have_pid(
            obs.drop_last(),
            pre,
            obs_parse(o)->Ok_0.pid,
        ) {
            pre.push(obs.len() - 1)
        } else {
            pre
        }
    }
}

/// One full scan: builds a record for every accepted observation in
/// enumeration order, skipping any process whose status text is missing or
/// malformed so that one lost process never fails the snapshot; afterwards
/// evicts from the CPU history every process not seen in this scan and
/// marks the scan completed on the user cache.
///
/// Every record's pid is strictly positive and unique within the returned
/// snapshot, its CPU utilization is clamped into [0, 10000], and its user
/// name is non-empty.
#[verifier::rlimit(100)]
pub fn scan(
    observations: &Vec<Observation>,
    now_ms: u64,
    tps: u64,
    history: &mut CpuSampleHistory,
    users: &mut UserCache,
) -> (records: Vec<ProcessInfo>)
    requires
        old(history).wf(),
        old(users).wf(),
        tps >= 1,
    ensures
        final(history).wf(),
        final(users).wf(),
        records@.len() == scan_plan(observations@).len(),
        forall|k: int|
            #![trigger scan_plan(observations@)[k]]
            0 <= k < records@.len() ==> (0 <= scan_plan(observations@)[k] < observations@.len()
                && obs_parse(observations@[scan_plan(observations@)[k]]) is Ok && record_matches(
                records@[k],
                obs_parse(observations@[scan_plan(observations@)[k]])->Ok_0,
                observations@[scan_plan(observations@)[k]],
                old(history)@,
                now_ms,
                tps,
            )),
        forall|k: int| 0 <= k < records@.len() ==> (#[trigger] records@[k].pid) > 0,
        forall|k1: int, k2: int|
            0 <= k1 < k2 < records@.len() ==> records@[k1].pid != records@[k2].pid,
        forall|p: u64| #[trigger]
            final(history)@.contains_key(p) ==> has_pid_in(records@, p),
        forall|k: int|
            0 <= k < records@.len() ==> final(history)@.contains_key(#[trigger] records@[k].pid)
                && final(history)@[records@[k].pid] == (SampleVal {
                start_time: records@[k].start_time,
                ticks: records@[k].cpu_time_total,
                at_ms: now_ms,
            }),
        final(users).interval() == old(users).interval(),
        old(users).scans() + 1 >= old(users).interval() ==> final(users)@ == Map::<
            u32,
            Seq<char>,
        >::empty() && final(users).scans() == 0,
        old(users).scans() + 1 < old(users).interval() ==> final(users).scans() == old(
            users,
        ).scans() + 1 && (forall|u: u32| #[trigger]
            old(users)@.contains_key(u) ==> final(users)@.contains_key(u) && final(users)@[u]
                == old(users)@[u]),
{
    let ghost h0 = history@;
    let ghost u0 = users@;
    let ghost s0 = users.scans();
    let ghost iv0 = users.interval();
    let n = observations.len();
    let mut recs: Vec<ProcessInfo> = Vec::new();
    let mut seen: Vec<u64> = Vec::new();
    let mut i: usize = 0;
    while i < n
        invariant
            0 <= i <= n,
            n == observations@.len(),
            tps >= 1,
            history.wf(),
            users.wf(),
            users.scans() == s0,
            users.interval() == iv0,
            recs@.len() == scan_plan(observations@.subrange(0, i as int)).len(),
            recs@.len() == seen@.len(),
            forall|k: int| 0 <= k < recs@.len() ==> seen@[k] == (#[trigger] recs@[k]).pid,
            forall|k: int| 0 <= k < recs@.len() ==> (#[trigger] recs@[k].pid) > 0,
            forall|k1: int, k2: int|
                0 <= k1 < k2 < recs@.len() ==> recs@[k1].pid != recs@[k2].pid,
            forall|k: int|
                #![trigger recs@[k]]
                0 <= k < recs@.len() ==> ({
                    let idx = scan_plan(observations@.subrange(0, i as int))[k];
                    &&& 0 <= idx < i
                    &&& obs_parse(observations@[idx]) is Ok
                    &&& recs@[k].pid == obs_parse(observations@[idx])->Ok_0.pid
                    &&& record_matches(
                        recs@[k],
                        obs_parse(observations@[idx])->Ok_0,
                        observations@[idx],
                        h0,
                        now_ms,
                        tps,
                    )
                }),
            forall|p: u64| #[trigger]
                history@.contains_key(p) ==> ((h0.contains_key(p) && history@[p] == h0[p])
                    || has_pid_in(recs@, p)),
            forall|p: u64| #[trigger] h0.contains_key(p) ==> history@.contains_key(p),
            forall|k: int|
                0 <= k < recs@.len() ==> history@.contains_key(#[trigger] recs@[k].pid)
                    && history@[recs@[k].pid] == (SampleVal {
                    start_time: recs@[k].start_time,
                    ticks: recs@[k].cpu_time_total,
                    at_ms: now_ms,
                }),
            forall|u: u32| #[trigger]
                u0.contains_key(u) ==> users@.contains_key(u) && users@[u] == u0[u],
        decreases n - i,
    {
        let ghost pre_plan = scan_plan(observations@.subrange(0, i as int));
        let ghost old_rs = recs@;
        proof {
            reveal(obs_parse);
            assert(observations@.subrange(0, i + 1).drop_last() =~= observations@.subrange(
                0,
                i as int,
            ));
            assert(observations@.subrange(0, i + 1).last() == observations@[i as int]);
        }
        let o = &observations[i];
        let mut accepted = false;
        match &o.stat_text {
            Some(t) => {
                match parse_stat(t.as_str()) {
                    Ok(f) => {
                        if f.pid > 0 && !crate::history::contains_u64(&seen, f.pid) {
                            let ghost m = obs_parse(observations@[i as int])->Ok_0;
                            proof {
                                assert(obs_parse(observations@[i as int]) is Ok);
                                assert(m == f@);
                                assert(!has_pid_in(old_rs, m.pid)) by {
                                    if has_pid_in(old_rs, m.pid) {
                                        let k = choose|k: int|
                                            0 <= k < old_rs.len() && old_rs[k].pid == m.pid;
                                        assert(seen@[k] == m.pid);
                                        assert(seen@.contains(m.pid));
                                    }
                                }
                                assert(!idxs_have_pid(
                                    observations@.subrange(0, i as int),
                                    pre_plan,
                                    m.pid,
                                )) by {
                                    if idxs_have_pid(
                                        observations@.subrange(0, i as int),
                                        pre_plan,
                                        m.pid,
                                    ) {
                                        let k = choose|k: int|
                                            0 <= k < pre_plan.len() && 0 <= pre_plan[k]
                                                < observations@.subrange(0, i as int).len()
                                                && obs_parse(
                                                observations@.subrange(0, i as int)[pre_plan[k]],
                                            ) is Ok && obs_parse(
                                                observations@.subrange(0, i as int)[pre_plan[k]],
                                            )->Ok_0.pid == m.pid;
                                        assert(observations@.subrange(0, i as int)[pre_plan[k]]
                                            == observations@[pre_plan[k]]);
                                        assert(old_rs[k].pid == m.pid);
                                        assert(seen@[k] == m.pid);
                                        assert(seen@.contains(m.pid));
                                    }
                                }
                                // the history still agrees with its scan-start
                                // state at this pid, so the CPU figure computed
                                // now is the one the contract states over h0
                                if history@.contains_key(m.pid) {
                                    assert(h0.contains_key(m.pid));
                                    assert(history@[m.pid] == h0[m.pid]);
                                } else {
                                    assert(!h0.contains_key(m.pid));
                                }
                                assert(spec_cpu_centi(
                                    history@,
                                    m.pid,
                                    m.start_time,
                                    spec_total_ticks(m),
                                    now_ms,
                                    tps,
                                ) == spec_cpu_centi(
                                    h0,
                                    m.pid,
                                    m.start_time,
                                    spec_total_ticks(m),
                                    now_ms,
                                    tps,
                                ));
                            }
                            let ghost h_before = history@;
                            let pid = f.pid;
                            let p = build_record(f, o, now_ms, tps, history, users);
                            recs.push(p);
                            seen.push(pid);
                            accepted = true;
                            proof {
                                reveal(record_matches);
                                let rs = recs@;
                                assert(rs == old_rs.push(p));
                                assert(rs.drop_last() =~= old_rs);
                                assert(rs[rs.len() - 1] == p);
                                assert(record_matches(
                                    p,
                                    m,
                                    observations@[i as int],
                                    h0,
                                    now_ms,
                                    tps,
                                ));
                                assert(scan_plan(observations@.subrange(0, i + 1)) == pre_plan.push(
                                    i as int,
                                ));
                                assert(history@ == h_before.insert(
                                    m.pid,
                                    SampleVal {
                                        start_time: m.start_time,
                                        ticks: spec_total_ticks(m),
                                        at_ms: now_ms,
                                    },
                                ));
                                assert(has_pid_in(rs, m.pid)) by {
                                    assert(rs[rs.len() - 1].pid == m.pid);
                                }
                                assert forall|p2: u64| #[trigger]
                                    history@.contains_key(p2) implies ((h0.contains_key(p2)
                                    && history@[p2] == h0[p2]) || has_pid_in(rs, p2)) by {
                                    if p2 != m.pid {
                                        assert(h_before.contains_key(p2));
                                        if has_pid_in(old_rs, p2) {
                                            let k = choose|k: int|
                                                0 <= k < old_rs.len() && old_rs[k].pid == p2;
                                            assert(rs[k].pid == p2);
                                        }
                                    }
                                }
                                assert forall|k: int|
                                    0 <= k < rs.len() implies history@.contains_key(
                                    #[trigger] rs[k].pid,
                                ) && history@[rs[k].pid] == (SampleVal {
                                    start_time: rs[k].start_time,
                                    ticks: rs[k].cpu_time_total,
                                    at_ms: now_ms,
                                }) by {
                                    if k < rs.len() - 1 {
                                        assert(rs[k] == old_rs[k]);
                                        assert(old_rs[k].pid != m.pid);
                                    }
                                }
                            }
                        }
                    },
                    Err(_) => {},
                }
            },
            None => {},
        }
        proof {
            if !accepted {
                assert(recs@ == old_rs);
                assert(scan_plan(observations@.subrange(0, i + 1)) == pre_plan) by {
                    let o_spec = observations@[i as int];
                    if obs_parse(o_spec) is Ok && obs_parse(o_spec)->Ok_0.pid > 0 {
                        let pid = obs_parse(o_spec)->Ok_0.pid;
                        assert(seen@.contains(pid));
                        let k = choose|k: int| 0 <= k < seen@.len() && seen@[k] == pid;
                        assert(recs@[k].pid == pid);
                        assert(idxs_have_pid(
                            observations@.subrange(0, i as int),
                            pre_plan,
                            pid,
                        )) by {
                            let idx = pre_plan[k];
                            assert(0 <= idx < i);
                            assert(obs_parse(observations@[idx])->Ok_0.pid == recs@[k].pid);
                            assert(observations@.subrange(0, i as int)[idx] == observations@[idx]);
                        }
                    }
                }
            }
        }
        i = i + 1;
    }
    proof {
        assert(observations@.subrange(0, n as int) =~= observations@);
        assert(scan_plan(observations@.subrange(0, n as int)) == scan_plan(observations@));
    }
    history.retain_pids(&seen);
    proof {
        assert forall|p: u64| #[trigger] history@.contains_key(p) implies has_pid_in(
            recs@,
            p,
        ) by {
            assert(seen@.contains(p));
            let k = choose|k: int| 0 <= k < seen@.len() && seen@[k] == p;
            assert(recs@[k].pid == p);
        }
        assert forall|k: int| 0 <= k < recs@.len() implies history@.contains_key(
            #[trigger] recs@[k].pid,
        ) && history@[recs@[k].pid] == (SampleVal {
            start_time: recs@[k].start_time,
            ticks: recs@[k].cpu_time_total,
            at_ms: now_ms,
        }) by {
            assert(seen@[k] == recs@[k].pid);
            assert(seen@.contains(recs@[k].pid));
        }
    }
    users.end_scan();
    proof {
        assert forall|k: int| #![trigger scan_plan(observations@)[k]] 0 <= k < recs@.len() implies (0
            <= scan_plan(observations@)[k] < observations@.len() && obs_parse(
            observations@[scan_plan(observations@)[k]],
        ) is Ok && record_matches(
            recs@[k],
            obs_parse(observations@[scan_plan(observations@)[k]])->Ok_0,
            observations@[scan_plan(observations@)[k]],
            h0,
            now_ms,
            tps,
        )) by {
            let rk = recs@[k];
            assert(i == n);
            assert(scan_plan(observations@) == scan_plan(observations@.subrange(0, n as int)));
            let idx = scan_plan(observations@.subrange(0, i as int))[k];
            assert(0 <= idx < i);
            assert(obs_parse(observations@[idx]) is Ok);
            assert(record_matches(
                rk,
                obs_parse(observations@[idx])->Ok_0,
                observations@[idx],
                h0,
                now_ms,
                tps,
            ));
        }

    }
    recs
}

} // verus!
