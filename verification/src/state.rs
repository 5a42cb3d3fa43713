//! The closed set of process scheduling states and its one-character
//! kernel encoding.

use vstd::prelude::*;

verus! {

/// The scheduling state of a process, mirroring the kernel's one-character
/// status codes. A character outside the recognized set is preserved
/// verbatim in `Unknown`, never discarded.
#[derive(Clone, Copy, Debug, PartialEq, Eq, Structural)]
pub enum ProcessState {
    Running,
    Sleeping,
    DiskSleep,
    Zombie,
    Stopped,
    TracingStop,
    Dead,
    WakeKill,
    Waking,
    Parked,
    Unknown(char),
}

/// The state a given kernel status character denotes.
pub open spec fn state_of_char(c: char) -> ProcessState {
    if c == 'R' {
        ProcessState::Running
    } else if c == 'S' {
        ProcessState::Sleeping
    } else if c == 'D' {
        ProcessState::DiskSleep
    } else if c == 'Z' {
        ProcessState::Zombie
    } else if c == 'T' {
        ProcessState::Stopped
    } else if c == 't' {
        ProcessState::TracingStop
    } else if c == 'X' {
        ProcessState::Dead
    } else if c == 'K' {
        ProcessState::WakeKill
    } else if c == 'W' {
        ProcessState::Waking
    } else if c == 'P' {
        ProcessState::Parked
    } else {
        ProcessState::Unknown(c)
    }
}

/// The status character a state is written as.
pub open spec fn char_of_state(s: ProcessState) -> char {
    match s {
        ProcessState::Running => 'R',
        ProcessState::Sleeping => 'S',
        ProcessState::DiskSleep => 'D',
        ProcessState::Zombie => 'Z',
        ProcessState::Stopped => 'T',
        ProcessState::TracingStop => 't',
        ProcessState::Dead => 'X',
        ProcessState::WakeKill => 'K',
        ProcessState::Waking => 'W',
        ProcessState::Parked => 'P',
        ProcessState::Unknown(c) => c,
    }
}

/// The human-readable label of a state.
pub open spec fn spec_description(s: ProcessState) -> Seq<char> {
    match s {
        ProcessState::Running => "Running"@,
        ProcessState::Sleeping => "Sleeping"@,
        ProcessState::DiskSleep => "Disk Sleep"@,
        ProcessState::Zombie => "Zombie"@,
        ProcessState::Stopped => "Stopped"@,
        ProcessState::TracingStop => "Tracing"@,
        ProcessState::Dead => "Dead"@,
        ProcessState::WakeKill => "Wake Kill"@,
        ProcessState::Waking => "Waking"@,
        ProcessState::Parked => "Parked"@,
        ProcessState::Unknown(_) => "Unknown"@,
    }
}

impl ProcessState {
    /// Decodes a kernel status character.
    pub fn from_char(c: char) -> (s: ProcessState)
        ensures
            s == state_of_char(c),
    {
        match c {
            'R' => ProcessState::Running,
            'S' => ProcessState::Sleeping,
            'D' => ProcessState::DiskSleep,
            'Z' => ProcessState::Zombie,
            'T' => ProcessState::Stopped,
            't' => ProcessState::TracingStop,
            'X' => ProcessState::Dead,
            'K' => ProcessState::WakeKill,
            'W' => ProcessState::Waking,
            'P' => ProcessState::Parked,
            other => ProcessState::Unknown(other),
        }
    }

    /// Encodes the state back to its status character.
    pub fn as_char(&self) -> (c: char)
        ensures
            c == char_of_state(*self),
    {
        match self {
            ProcessState::Running => 'R',
            ProcessState::Sleeping => 'S',
            ProcessState::DiskSleep => 'D',
            ProcessState::Zombie => 'Z',
            ProcessState::Stopped => 'T',
            ProcessState::TracingStop => 't',
            ProcessState::Dead => 'X',
            ProcessState::WakeKill => 'K',
            ProcessState::Waking => 'W',
            ProcessState::Parked => 'P',
            ProcessState::Unknown(c) => *c,
        }
    }

    /// A human-readable label for the state.
    pub fn description(&self) -> (d: &'static str)
        ensures
            d@ == spec_description(*self),
    {
        match self {
            ProcessState::Running => "Running",
            ProcessState::Sleeping => "Sleeping",
            ProcessState::DiskSleep => "Disk Sleep",
            ProcessState::Zombie => "Zombie",
            ProcessState::Stopped => "Stopped",
            ProcessState::TracingStop => "Tracing",
            ProcessState::Dead => "Dead",
            ProcessState::WakeKill => "Wake Kill",
            ProcessState::Waking => "Waking",
            ProcessState::Parked => "Parked",
            ProcessState::Unknown(_) => "Unknown",
        }
    }
}

/// Decoding a status character and encoding the result again always yields
/// the original character, whether or not the character is recognized.
pub proof fn lemma_state_char_round_trip(c: char)
    ensures
        char_of_state(state_of_char(c)) == c,
{
}

/// Encoding any of the ten named states and decoding the result yields the
/// same state again; an `Unknown` round-trips whenever its character is not
/// one of the ten recognized codes.
pub proof fn lemma_char_state_round_trip(s: ProcessState)
    ensures
        !(s is Unknown) ==> state_of_char(char_of_state(s)) == s,
        s matches ProcessState::Unknown(c) && state_of_char(c) is Unknown ==> state_of_char(
            char_of_state(s),
        ) == s,
{
}

} // verus!
