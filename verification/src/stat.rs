//! Parsing one process's raw status text into a structured record of raw
//! fields.
//!
//! The process name sits between the first `(` and the last `)` of the text
//! and may itself contain spaces or parentheses, so the name's boundaries are
//! located by those two characters rather than by whitespace. The process id
//! precedes the name; everything after the closing parenthesis is a run of
//! whitespace-separated positional fields, of which at least 23 must be
//! present.

use crate::digits::dec_val;
use crate::digits::i64_numeral_val;
use crate::digits::parse_i64;
use crate::digits::parse_u64;
use crate::digits::parses_as_i64;
use crate::digits::parses_as_u64;
use crate::digits::unsigned_body;
use crate::state::ProcessState;
use crate::state::state_of_char;
use crate::tokens::lemma_find_from_range;
use crate::tokens::lemma_rfind_from_range;
use crate::tokens::find_char;
use crate::tokens::rfind_char;
use crate::tokens::spec_find;
use crate::tokens::spec_rfind;
use crate::tokens::spec_tokens;
use crate::tokens::split_whitespace_tokens;
use vstd::prelude::*;
use vstd::string::StrSliceExecFns;
use vstd::string::StringExecFns;

verus! {

/// Why a process's status text could not be turned into a record.
#[derive(Clone, Copy, Debug, PartialEq, Eq, Structural)]
pub enum StatError {
    /// The status text could not be read at all (the process vanished, or
    /// the resource was unreadable).
    StatUnavailable,
    /// No opening parenthesis, so the name's start cannot be located.
    MissingOpenParen,
    /// No closing parenthesis, so the name's end cannot be located.
    MissingCloseParen,
    /// The last closing parenthesis precedes the first opening one.
    MisorderedParens,
    /// Fewer than the 23 required positional fields follow the name.
    InsufficientFields,
    /// The text before the name is not a single well-formed process id.
    BadPid,
    /// The parent-id field is not a well-formed integer.
    BadPpid,
}

/// The raw fields of one process's status text, as a mathematical value.
pub ghost struct StatModel {
    pub pid: u64,
    pub name: Seq<char>,
    pub state_ch: char,
    pub ppid: u64,
    pub session_id: u64,
    pub tty_nr: u64,
    pub utime: u64,
    pub stime: u64,
    pub priority: i64,
    pub nice: i64,
    pub num_threads: u64,
    pub start_time: u64,
    pub vsize_bytes: u64,
    pub rss_raw: u64,
}

/// The raw fields of one process's status text.
#[derive(Clone, Debug)]
pub struct StatFields {
    pub pid: u64,
    pub name: String,
    pub state_ch: char,
    pub ppid: u64,
    pub session_id: u64,
    pub tty_nr: u64,
    pub utime: u64,
    pub stime: u64,
    pub priority: i64,
    pub nice: i64,
    pub num_threads: u64,
    pub start_time: u64,
    pub vsize_bytes: u64,
    pub rss_raw: u64,
}

impl View for StatFields {
    type V = StatModel;

    open spec fn view(&self) -> StatModel {
        StatModel {
            pid: self.pid,
            name: self.name@,
            state_ch: self.state_ch,
            ppid: self.ppid,
            session_id: self.session_id,
            tty_nr: self.tty_nr,
            utime: self.utime,
            stime: self.stime,
            priority: self.priority,
            nice: self.nice,
            num_threads: self.num_threads,
            start_time: self.start_time,
            vsize_bytes: self.vsize_bytes,
            rss_raw: self.rss_raw,
        }
    }
}

impl StatFields {
    /// The process state the status character denotes.
    pub fn state(&self) -> (s: ProcessState)
        ensures
            s == state_of_char(self.state_ch),
    {
        ProcessState::from_char(self.state_ch)
    }
}

/// The value of an auxiliary numeric field: its token's value, or zero when
/// the token is not a well-formed unsigned integer. A single corrupt
/// auxiliary field degrades to zero rather than discarding the record.
pub open spec fn u64_field(toks: Seq<Seq<char>>, k: int) -> u64
    recommends
        0 <= k < toks.len(),
{
    if parses_as_u64(toks[k]) {
        dec_val(unsigned_body(toks[k])) as u64
    } else {
        0
    }
}

/// The value of an auxiliary signed numeric field, or zero when malformed.
pub open spec fn i64_field(toks: Seq<Seq<char>>, k: int) -> i64
    recommends
        0 <= k < toks.len(),
{
    if parses_as_i64(toks[k]) {
        i64_numeral_val(toks[k]) as i64
    } else {
        0
    }
}

/// The state character of the first positional field: its first character,
/// or `?` for an empty token.
pub open spec fn state_char_of(tok: Seq<char>) -> char {
    if tok.len() > 0 {
        tok[0]
    } else {
        '?'
    }
}

/// What parsing a status text yields: the record of raw fields, or the
/// error that rules it out. The positional fields after the name are,
/// zero-indexed: 0 state, 1 parent id, 3 session id, 4 terminal device,
/// 11 user-mode ticks, 12 kernel-mode ticks, 15 priority, 16 nice,
/// 17 thread count, 19 start time, 20 virtual size in bytes, 21 resident
/// size.
#[verifier::opaque]
pub open spec fn spec_parse_stat(s: Seq<char>) -> Result<StatModel, StatError> {
    match spec_find(s, '(') {
        None => Err(StatError::MissingOpenParen),
        Some(fl) => match spec_rfind(s, ')') {
            None => Err(StatError::MissingCloseParen),
            Some(ll) => {
                if ll < fl {
                    Err(StatError::MisorderedParens)
                } else {
                    let toks = spec_tokens(s.subrange(ll + 1, s.len() as int));
                    if toks.len() < 23 {
                        Err(StatError::InsufficientFields)
                    } else {
                        let pid_toks = spec_tokens(s.subrange(0, fl));
                        if !(pid_toks.len() == 1 && parses_as_u64(pid_toks[0])) {
                            Err(StatError::BadPid)
                        } else if !parses_as_u64(toks[1]) {
                            Err(StatError::BadPpid)
                        } else {
                            Ok(
                                StatModel {
                                    pid: dec_val(unsigned_body(pid_toks[0])) as u64,
                                    name: s.subrange(fl + 1, ll),
                                    state_ch: state_char_of(toks[0]),
                                    ppid: dec_val(unsigned_body(toks[1])) as u64,
                                    session_id: u64_field(toks, 3),
                                    tty_nr: u64_field(toks, 4),
                                    utime: u64_field(toks, 11),
                                    stime: u64_field(toks, 12),
                                    priority: i64_field(toks, 15),
                                    nice: i64_field(toks, 16),
                                    num_threads: u64_field(toks, 17),
                                    start_time: u64_field(toks, 19),
                                    vsize_bytes: u64_field(toks, 20),
                                    rss_raw: u64_field(toks, 21),
                                },
                            )
                        }
                    }
                }
            },
        },
    }
}

/// Reads an auxiliary unsigned field, degrading to zero when malformed.
fn u64_field_exec(toks: &Vec<String>, k: usize) -> (r: u64)
    requires
        k < toks@.len(),
    ensures
        r == u64_field(toks.deep_view(), k as int),
{
    proof {
        assert(toks.deep_view()[k as int] == toks@[k as int]@);
    }
    match parse_u64(toks[k].as_str()) {
        Some(v) => v,
        None => 0,
    }
}

/// Reads an auxiliary signed field, degrading to zero when malformed.
fn i64_field_exec(toks: &Vec<String>, k: usize) -> (r: i64)
    requires
        k < toks@.len(),
    ensures
        r == i64_field(toks.deep_view(), k as int),
{
    proof {
        assert(toks.deep_view()[k as int] == toks@[k as int]@);
    }
    match parse_i64(toks[k].as_str()) {
        Some(v) => v,
        None => 0,
    }
}

/// Parses one process's raw status text into its record of raw fields.
///
/// Succeeds exactly when the text has an opening and a closing parenthesis
/// in order, a single well-formed process id before the name, at least 23
/// positional fields after the name, and a well-formed parent id; every
/// other numeric field degrades to zero when malformed rather than failing
/// the record.
pub fn parse_stat(s: &str) -> (r: Result<StatFields, StatError>)
    ensures
        (r is Ok) == (spec_parse_stat(s@) is Ok),
        r matches Ok(f) ==> spec_parse_stat(s@) matches Ok(m) && f@ == m,
        r matches Err(e) ==> spec_parse_stat(s@) matches Err(e2) && e == e2,
{
    proof {
        reveal(spec_parse_stat);
    }
    let len = s.unicode_len();
    let fl = match find_char(s, '(') {
        Some(k) => k,
        None => {
            return Err(StatError::MissingOpenParen);
        },
    };
    proof {
        lemma_find_from_range(s@, '(', 0);
    }
    let ll = match rfind_char(s, ')') {
        Some(k) => k,
        None => {
            return Err(StatError::MissingCloseParen);
        },
    };
    proof {
        lemma_rfind_from_range(s@, ')', s@.len() - 1);
    }
    if ll < fl {
        return Err(StatError::MisorderedParens);
    }
    assert(fl < ll);
    let rest = s.substring_char(ll + 1, len);
    let toks = split_whitespace_tokens(rest);
    if toks.len() < 23 {
        return Err(StatError::InsufficientFields);
    }
    let pid_str = s.substring_char(0, fl);
    let pid_toks = split_whitespace_tokens(pid_str);
    if pid_toks.len() != 1 {
        return Err(StatError::BadPid);
    }
    proof {
        assert(pid_toks.deep_view()[0] == pid_toks@[0]@);
    }
    let pid = match parse_u64(pid_toks[0].as_str()) {
        Some(v) => v,
        None => {
            return Err(StatError::BadPid);
        },
    };
    proof {
        assert(toks.deep_view()[1] == toks@[1]@);
        assert(toks.deep_view()[0] == toks@[0]@);
    }
    let ppid = match parse_u64(toks[1].as_str()) {
        Some(v) => v,
        None => {
            return Err(StatError::BadPpid);
        },
    };
    let name_str = s.substring_char(fl + 1, ll);
    let name = String::from_str(name_str);
    let state_tok = toks[0].as_str();
    let state_ch = if state_tok.unicode_len() > 0 {
        state_tok.get_char(0)
    } else {
        '?'
    };
    let f = StatFields {
        pid,
        name,
        state_ch,
        ppid,
        session_id: u64_field_exec(&toks, 3),
        tty_nr: u64_field_exec(&toks, 4),
        utime: u64_field_exec(&toks, 11),
        stime: u64_field_exec(&toks, 12),
        priority: i64_field_exec(&toks, 15),
        nice: i64_field_exec(&toks, 16),
        num_threads: u64_field_exec(&toks, 17),
        start_time: u64_field_exec(&toks, 19),
        vsize_bytes: u64_field_exec(&toks, 20),
        rss_raw: u64_field_exec(&toks, 21),
    };
    Ok(f)
}

} // verus!
