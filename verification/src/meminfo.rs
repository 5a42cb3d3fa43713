//! Extracting the resident-set size from a process's line-oriented
//! memory-status text: the second token of the first line that begins with
//! `VmRSS:`, in kilobytes. Absence or a malformed value yields zero, never
//! an error.

use crate::digits::dec_val;
use crate::digits::parse_u64;
use crate::digits::parses_as_u64;
use crate::digits::unsigned_body;
use crate::tokens::find_char_from;
use crate::tokens::find_from;
use crate::tokens::lemma_find_from_range;
use crate::tokens::spec_tokens;
use crate::tokens::split_whitespace_tokens;
use vstd::prelude::*;
use vstd::string::StrSliceExecFns;
use vstd::string::StringExecFns;

verus! {

/// Whether the characters of `p` occur in `s` starting at position `i`.
pub open spec fn prefix_at(s: Seq<char>, i: int, p: Seq<char>) -> bool {
    &&& 0 <= i
    &&& i + p.len() <= s.len()
    &&& forall|k: int| 0 <= k < p.len() ==> s[i + k] == p[k]
}

/// The position just past the line starting at `i`: the next newline, or
/// the end of the text.
pub open spec fn line_end(s: Seq<char>, i: int) -> int {
    match find_from(s, '\n', i) {
        Some(k) => k,
        None => s.len() as int,
    }
}

/// The start of the first line at or after the line start `i` that begins
/// with `p`, walking the text newline by newline.
pub open spec fn find_prefixed_line(s: Seq<char>, p: Seq<char>, i: int) -> Option<int>
    decreases s.len() - i,
        when 0 <= i <= s.len()
{
    if prefix_at(s, i, p) {
        Some(i)
    } else {
        match find_from(s, '\n', i) {
            None => None,
            Some(k) => {
                proof {
                    lemma_find_from_range(s, '\n', i);
                }
                find_prefixed_line(s, p, k + 1)
            },
        }
    }
}

/// The resident-set size a memory-status text reports: the second token of
/// its first `VmRSS:` line, or zero when that line is absent or malformed.
pub open spec fn spec_vmrss_kb(s: Seq<char>) -> u64 {
    match find_prefixed_line(s, "VmRSS:"@, 0) {
        None => 0,
        Some(i) => {
            let toks = spec_tokens(s.subrange(i, line_end(s, i)));
            if toks.len() >= 2 && parses_as_u64(toks[1]) {
                dec_val(unsigned_body(toks[1])) as u64
            } else {
                0
            }
        },
    }
}

/// Whether `p` occurs in `s` starting at position `i`.
fn has_prefix_at(s: &str, i: usize, p: &str) -> (r: bool)
    requires
        i <= s@.len(),
    ensures
        r == prefix_at(s@, i as int, p@),
{
    let slen = s.unicode_len();
    let plen = p.unicode_len();
    if slen - i < plen {
        return false;
    }
    let mut k: usize = 0;
    while k < plen
        invariant
            0 <= k <= plen,
            plen == p@.len(),
            slen == s@.len(),
            i + plen <= slen,
            forall|j: int| 0 <= j < k ==> s@[i + j] == p@[j],
        decreases plen - k,
    {
        if s.get_char(i + k) != p.get_char(k) {
            return false;
        }
        k = k + 1;
    }
    true
}

/// Extracts the resident-set size in kilobytes from a memory-status text.
pub fn parse_vmrss(status_text: &str) -> (kb: u64)
    ensures
        kb == spec_vmrss_kb(status_text@),
{
    proof {
        reveal_strlit("VmRSS:");
    }
    let len = status_text.unicode_len();
    let mut i: usize = 0;
    loop
        invariant
            0 <= i <= len,
            len == status_text@.len(),
            find_prefixed_line(status_text@, "VmRSS:"@, 0) == find_prefixed_line(
                status_text@,
                "VmRSS:"@,
                i as int,
            ),
        decreases len - i,
    {
        if has_prefix_at(status_text, i, "VmRSS:") {
            let end = match find_char_from(status_text, '\n', i) {
                Some(k) => {
                    proof {
                        lemma_find_from_range(status_text@, '\n', i as int);
                    }
                    k
                },
                None => len,
            };
            assert(end == line_end(status_text@, i as int));
            let line = status_text.substring_char(i, end);
            let toks = split_whitespace_tokens(line);
            if toks.len() >= 2 {
                proof {
                    assert(toks.deep_view()[1] == toks@[1]@);
                }
                match parse_u64(toks[1].as_str()) {
                    Some(v) => {
                        return v;
                    },
                    None => {
                        return 0;
                    },
                }
            }
            return 0;
        }
        match find_char_from(status_text, '\n', i) {
            Some(k) => {
                proof {
                    lemma_find_from_range(status_text@, '\n', i as int);
                }
                i = k + 1;
            },
            None => {
                return 0;
            },
        }
    }
}

} // verus!
