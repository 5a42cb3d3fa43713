//! The per-process snapshot record and the sort keys a presentation layer
//! may choose from.

use crate::history::CpuSampleHistory;
use crate::history::SampleVal;
use crate::history::spec_cpu_centi;
use crate::state::ProcessState;
use crate::tokens::spec_rfind;
use crate::tokens::spec_tokens;
use crate::tokens::lemma_rfind_from_range;
use crate::tokens::rfind_char;
use crate::tokens::split_whitespace_tokens;
use vstd::prelude::*;
use vstd::string::StrSliceExecFns;
use vstd::string::StringExecFns;

verus! {

/// One process's snapshot entry. CPU utilization is carried in hundredths
/// of a percent so that the record stays in integers; the tick history that
/// derives it lives with the caller, not in the record.
#[derive(Clone, Debug)]
pub struct ProcessInfo {
    pub pid: u64,
    pub ppid: u64,
    /// The short name from the status text.
    pub name: String,
    /// The full command line, or the short name when it cannot be read.
    pub command: String,
    /// CPU utilization in hundredths of a percent, clamped into [0, 10000].
    pub cpu_centi_percent: u32,
    /// Cumulative CPU ticks, user and kernel mode together.
    pub cpu_time_total: u64,
    /// Resident memory in kilobytes.
    pub memory_kb: u64,
    /// Start time in raw kernel time-base units.
    pub start_time: u64,
    pub state: ProcessState,
    /// The owning user's display name; never empty.
    pub user: String,
    pub priority: i64,
    pub nice: i64,
    pub num_threads: u64,
    /// Virtual memory in kilobytes.
    pub virtual_memory_kb: u64,
    pub session_id: u64,
    /// The controlling terminal's display name.
    pub terminal: String,
}

/// Whether a process name marks a kernel thread: bracketed on both sides.
pub open spec fn spec_is_kernel_thread(name: Seq<char>) -> bool {
    name.len() > 0 && name[0] == '[' && name[name.len() - 1] == ']'
}

/// The short command: the last `/`-separated segment of the first
/// whitespace-separated token of the command line, or the process name when
/// the command line has no tokens.
pub open spec fn spec_short_command(command: Seq<char>, name: Seq<char>) -> Seq<char> {
    let toks = spec_tokens(command);
    if toks.len() == 0 {
        name
    } else {
        let first = toks[0];
        match spec_rfind(first, '/') {
            Some(k) => first.subrange(k + 1, first.len() as int),
            None => first,
        }
    }
}

impl ProcessInfo {
    /// An empty record: zero in every numeric field, empty texts, and an
    /// unknown state.
    pub fn new() -> (p: ProcessInfo)
        ensures
            p.pid == 0,
            p.ppid == 0,
            p.name@ == Seq::<char>::empty(),
            p.command@ == Seq::<char>::empty(),
            p.cpu_centi_percent == 0,
            p.cpu_time_total == 0,
            p.memory_kb == 0,
            p.start_time == 0,
            p.state == ProcessState::Unknown('?'),
            p.user@ == Seq::<char>::empty(),
            p.priority == 0,
            p.nice == 0,
            p.num_threads == 0,
            p.virtual_memory_kb == 0,
            p.session_id == 0,
            p.terminal@ == Seq::<char>::empty(),
    {
        ProcessInfo {
            pid: 0,
            ppid: 0,
            name: String::new(),
            command: String::new(),
            cpu_centi_percent: 0,
            cpu_time_total: 0,
            memory_kb: 0,
            start_time: 0,
            state: ProcessState::Unknown('?'),
            user: String::new(),
            priority: 0,
            nice: 0,
            num_threads: 0,
            virtual_memory_kb: 0,
            session_id: 0,
            terminal: String::new(),
        }
    }

    /// The process age cannot be derived from the raw start time alone
    /// without the system's boot reference, which the collector does not
    /// read; this reports zero.
    pub fn age_seconds(&self) -> (r: u64)
        ensures
            r == 0,
    {
        0
    }

    /// Whether the record describes a kernel thread, indicated by a
    /// bracketed name.
    pub fn is_kernel_thread(&self) -> (r: bool)
        ensures
            r == spec_is_kernel_thread(self.name@),
    {
        let n = self.name.as_str();
        let len = n.unicode_len();
        len > 0 && n.get_char(0) == '[' && n.get_char(len - 1) == ']'
    }

    /// Derives this record's CPU utilization from the caller's tick
    /// history and this record's own cumulative ticks, recording the new
    /// observation in the history. Every other field is left unchanged.
    pub fn update_cpu_percent(&mut self, history: &mut CpuSampleHistory, now_ms: u64, tps: u64)
        requires
            old(history).wf(),
            tps >= 1,
        ensures
            final(history).wf(),
            final(history)@ == old(history)@.insert(
                old(self).pid,
                SampleVal {
                    start_time: old(self).start_time,
                    ticks: old(self).cpu_time_total,
                    at_ms: now_ms,
                },
            ),
            final(self).cpu_centi_percent as int == spec_cpu_centi(
                old(history)@,
                old(self).pid,
                old(self).start_time,
                old(self).cpu_time_total,
                now_ms,
                tps,
            ),
            *final(self) == (ProcessInfo {
                cpu_centi_percent: final(self).cpu_centi_percent,
                ..*old(self)
            }),
    {
        let c = history.sample(self.pid, self.start_time, self.cpu_time_total, now_ms, tps);
        self.cpu_centi_percent = c;
    }

    /// The short command name, without path or arguments.
    pub fn short_command(&self) -> (r: String)
        ensures
            r@ == spec_short_command(self.command@, self.name@),
    {
        let toks = split_whitespace_tokens(self.command.as_str());
        if toks.len() == 0 {
            return self.name.clone();
        }
        proof {
            assert(toks.deep_view()[0] == toks@[0]@);
        }
        let first = toks[0].as_str();
        match rfind_char(first, '/') {
            Some(k) => {
                proof {
                    lemma_rfind_from_range(first@, '/', first@.len() - 1);
                    assert(k < first@.len());
                }
                let flen = first.unicode_len();
                String::from_str(first.substring_char(k + 1, flen))
            },
            None => String::from_str(first),
        }
    }
}

/// The sort keys the presentation layer can ask a snapshot to be ordered
/// by; ordering itself is the presentation layer's work.
#[derive(Clone, Copy, Debug, PartialEq, Eq, Structural)]
pub enum SortBy {
    Cpu,
    Memory,
    Pid,
    Name,
    Command,
}

} // verus!
