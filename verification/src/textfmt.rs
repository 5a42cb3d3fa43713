//! Fitting display text into a column: truncation with an ellipsis.

use vstd::prelude::*;
use vstd::string::StrSliceExecFns;
use vstd::string::StringExecFns;

verus! {

/// The text cut to at most `max_len` characters: unchanged when it fits,
/// else its first `max_len - 1` characters with an ellipsis appended.
pub open spec fn spec_truncate(s: Seq<char>, max_len: nat) -> Seq<char> {
    if s.len() <= max_len {
        s
    } else {
        s.subrange(0, (if max_len == 0 { 0 } else { (max_len - 1) as nat }) as int) + "\u{2026}"@
    }
}

/// Cuts `s` to at most `max_len` characters for a display column, marking
/// a cut with an ellipsis.
pub fn truncate_string(s: &str, max_len: usize) -> (r: String)
    ensures
        r@ == spec_truncate(s@, max_len as nat),
{
    let len = s.unicode_len();
    if len <= max_len {
        String::from_str(s)
    } else {
        let cut: usize = if max_len == 0 {
            0
        } else {
            max_len - 1
        };
        let mut r = String::from_str(s.substring_char(0, cut));
        r.append("\u{2026}");
        r
    }
}

} // verus!
