//! Locating characters in text and splitting text into whitespace-separated
//! tokens, the shape the kernel's positional status format uses.

use vstd::prelude::*;
use vstd::string::StrSliceExecFns;
use vstd::string::StringExecFns;

verus! {

/// Whether `c` is an ASCII whitespace character, the separators the kernel
/// writes between status fields.
pub open spec fn is_ws(c: char) -> bool {
    c == ' ' || c == '\t' || c == '\n' || c == '\r' || c == '\x0b' || c == '\x0c'
}

/// Executable test for [`is_ws`].
pub fn is_ws_char(c: char) -> (r: bool)
    ensures
        r == is_ws(c),
{
    c == ' ' || c == '\t' || c == '\n' || c == '\r' || c == '\x0b' || c == '\x0c'
}

/// The position just past the token starting at `i`: the first position at
/// or after `i` holding whitespace, or the end of the text.
pub open spec fn token_end(s: Seq<char>, i: int) -> int
    decreases s.len() - i,
        when 0 <= i <= s.len()
{
    if i >= s.len() {
        i
    } else if is_ws(s[i]) {
        i
    } else {
        token_end(s, i + 1)
    }
}

/// `token_end` stays within the text and makes progress on a non-space.
pub proof fn lemma_token_end_bounds(s: Seq<char>, i: int)
    requires
        0 <= i <= s.len(),
    ensures
        i <= token_end(s, i) <= s.len(),
        i < s.len() && !is_ws(s[i]) ==> i < token_end(s, i),
    decreases s.len() - i,
{
    if i < s.len() && !is_ws(s[i]) {
        lemma_token_end_bounds(s, i + 1);
    }
}

/// The whitespace-separated tokens of `s` from position `i` on, in order.
pub open spec fn tokens_from(s: Seq<char>, i: int) -> Seq<Seq<char>>
    decreases s.len() - i,
        when 0 <= i <= s.len()
{
    if i >= s.len() {
        Seq::empty()
    } else if is_ws(s[i]) {
        tokens_from(s, i + 1)
    } else {
        proof {
            lemma_token_end_bounds(s, i);
        }
        seq![s.subrange(i, token_end(s, i))] + tokens_from(s, token_end(s, i))
    }
}

/// The whitespace-separated tokens of `s`, in order.
pub open spec fn spec_tokens(s: Seq<char>) -> Seq<Seq<char>> {
    tokens_from(s, 0)
}

/// Splits `s` into its whitespace-separated tokens.
pub fn split_whitespace_tokens(s: &str) -> (toks: Vec<String>)
    ensures
        toks.deep_view() == spec_tokens(s@),
{
    let len = s.unicode_len();
    let mut toks: Vec<String> = Vec::new();
    let mut i: usize = 0;
    while i < len
        invariant
            0 <= i <= len,
            len == s@.len(),
            spec_tokens(s@) == toks.deep_view() + tokens_from(s@, i as int),
        decreases len - i,
    {
        let c = s.get_char(i);
        if is_ws_char(c) {
            assert(tokens_from(s@, i as int) == tokens_from(s@, i + 1));
            i = i + 1;
        } else {
            let ghost prev = toks.deep_view();
            let mut j = i;
            while j < len && !is_ws_char(s.get_char(j))
                invariant
                    0 <= i <= j <= len,
                    len == s@.len(),
                    token_end(s@, i as int) == token_end(s@, j as int),
                decreases len - j,
            {
                assert(token_end(s@, j as int) == token_end(s@, j + 1));
                j = j + 1;
            }
            assert(token_end(s@, j as int) == j);
            let tok = s.substring_char(i, j);
            toks.push(String::from_str(tok));
            proof {
                assert(toks.deep_view() =~= prev.push(tok@));
                assert(tokens_from(s@, i as int) == seq![s@.subrange(i as int, j as int)]
                    + tokens_from(s@, j as int));
                assert(toks.deep_view() + tokens_from(s@, j as int) =~= prev + tokens_from(
                    s@,
                    i as int,
                ));
            }
            i = j;
        }
    }
    proof {
        assert(tokens_from(s@, i as int) == Seq::<Seq<char>>::empty());
        assert(toks.deep_view() =~= spec_tokens(s@));
    }
    toks
}

/// The position of the first occurrence of `c` in `s` at or after `i`.
pub open spec fn find_from(s: Seq<char>, c: char, i: int) -> Option<int>
    decreases s.len() - i,
        when 0 <= i <= s.len()
{
    if i >= s.len() {
        None
    } else if s[i] == c {
        Some(i)
    } else {
        find_from(s, c, i + 1)
    }
}

/// The position of the first occurrence of `c` in `s`, if any.
pub open spec fn spec_find(s: Seq<char>, c: char) -> Option<int> {
    find_from(s, c, 0)
}

/// The position of the last occurrence of `c` in `s` at or before `i`.
pub open spec fn rfind_from(s: Seq<char>, c: char, i: int) -> Option<int>
    decreases i + 1,
        when -1 <= i < s.len()
{
    if i < 0 {
        None
    } else if s[i] == c {
        Some(i)
    } else {
        rfind_from(s, c, i - 1)
    }
}

/// The position of the last occurrence of `c` in `s`, if any.
pub open spec fn spec_rfind(s: Seq<char>, c: char) -> Option<int> {
    rfind_from(s, c, s.len() - 1)
}

/// A found first occurrence lies in the searched range and holds `c`.
pub proof fn lemma_find_from_range(s: Seq<char>, c: char, i: int)
    requires
        0 <= i <= s.len(),
    ensures
        find_from(s, c, i) matches Some(k) ==> i <= k < s.len() && s[k] == c,
    decreases s.len() - i,
{
    if i < s.len() && s[i] != c {
        lemma_find_from_range(s, c, i + 1);
    }
}

/// A found last occurrence lies in the searched range and holds `c`.
pub proof fn lemma_rfind_from_range(s: Seq<char>, c: char, i: int)
    requires
        -1 <= i < s.len(),
    ensures
        rfind_from(s, c, i) matches Some(k) ==> 0 <= k <= i && s[k] == c,
    decreases i + 1,
{
    if i >= 0 && s[i] != c {
        lemma_rfind_from_range(s, c, i - 1);
    }
}

/// Finds the first occurrence of `c` in `s`.
pub fn find_char(s: &str, c: char) -> (r: Option<usize>)
    ensures
        (r is Some) == (spec_find(s@, c) is Some),
        r matches Some(k) ==> Some(k as int) == spec_find(s@, c),
{
    let len = s.unicode_len();
    let mut i: usize = 0;
    while i < len
        invariant
            0 <= i <= len,
            len == s@.len(),
            spec_find(s@, c) == find_from(s@, c, i as int),
        decreases len - i,
    {
        if s.get_char(i) == c {
            return Some(i);
        }
        assert(find_from(s@, c, i as int) == find_from(s@, c, i + 1));
        i = i + 1;
    }
    None
}

/// Finds the first occurrence of `c` in `s` at or after `from`.
pub fn find_char_from(s: &str, c: char, from: usize) -> (r: Option<usize>)
    requires
        from <= s@.len(),
    ensures
        (r is Some) == (find_from(s@, c, from as int) is Some),
        r matches Some(k) ==> Some(k as int) == find_from(s@, c, from as int),
{
    let len = s.unicode_len();
    let mut i: usize = from;
    while i < len
        invariant
            0 <= from <= i <= len,
            len == s@.len(),
            find_from(s@, c, from as int) == find_from(s@, c, i as int),
        decreases len - i,
    {
        if s.get_char(i) == c {
            return Some(i);
        }
        assert(find_from(s@, c, i as int) == find_from(s@, c, i + 1));
        i = i + 1;
    }
    None
}

/// Finds the last occurrence of `c` in `s`.
pub fn rfind_char(s: &str, c: char) -> (r: Option<usize>)
    ensures
        (r is Some) == (spec_rfind(s@, c) is Some),
        r matches Some(k) ==> Some(k as int) == spec_rfind(s@, c),
{
    let len = s.unicode_len();
    let mut i: usize = len;
    while i > 0
        invariant
            0 <= i <= len,
            len == s@.len(),
            spec_rfind(s@, c) == rfind_from(s@, c, i - 1),
        decreases i,
    {
        let k = i - 1;
        if s.get_char(k) == c {
            return Some(k);
        }
        assert(rfind_from(s@, c, k as int) == rfind_from(s@, c, k - 1));
        i = k;
    }
    None
}

} // verus!
