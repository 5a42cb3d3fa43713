//! Decimal numerals: what it means for a token to parse as an integer, and
//! rendering an integer back to its decimal text.

use vstd::prelude::*;
use vstd::string::StringExecFns;
use vstd::string::StrSliceExecFns;

verus! {

/// Whether `c` is a decimal digit.
pub open spec fn is_digit_char(c: char) -> bool {
    48 <= c as u32 <= 57
}

/// The numeric value of a digit character.
pub open spec fn digit_val(c: char) -> nat
    recommends
        is_digit_char(c),
{
    (c as u32 - 48) as nat
}

/// Every character of `s` is a decimal digit.
pub open spec fn all_digits(s: Seq<char>) -> bool {
    forall|i: int| 0 <= i < s.len() ==> is_digit_char(s[i])
}

/// The value of a string of decimal digits, most significant first.
pub open spec fn dec_val(s: Seq<char>) -> nat
    decreases s.len(),
{
    if s.len() == 0 {
        0
    } else {
        dec_val(s.drop_last()) * 10 + digit_val(s.last())
    }
}

/// The digits of a numeral after its optional leading `+` sign.
pub open spec fn unsigned_body(s: Seq<char>) -> Seq<char> {
    if s.len() > 0 && s[0] == '+' {
        s.drop_first()
    } else {
        s
    }
}

/// Whether `s` is a numeral that parses as a `u64`: an optional `+`, then
/// one or more digits, denoting a value that fits.
pub open spec fn parses_as_u64(s: Seq<char>) -> bool {
    let b = unsigned_body(s);
    b.len() > 0 && all_digits(b) && dec_val(b) <= u64::MAX
}

/// The digits of a signed numeral after its optional sign.
pub open spec fn signed_body(s: Seq<char>) -> Seq<char> {
    if s.len() > 0 && (s[0] == '+' || s[0] == '-') {
        s.drop_first()
    } else {
        s
    }
}

/// Whether the numeral is negative: a leading `-` sign.
pub open spec fn is_negative_numeral(s: Seq<char>) -> bool {
    s.len() > 0 && s[0] == '-'
}

/// Whether `s` is a numeral that parses as an `i64`: an optional sign, then
/// one or more digits, denoting a value in `i64`'s range.
pub open spec fn parses_as_i64(s: Seq<char>) -> bool {
    let b = signed_body(s);
    b.len() > 0 && all_digits(b) && (if is_negative_numeral(s) {
        dec_val(b) <= 0x8000000000000000
    } else {
        dec_val(b) <= i64::MAX
    })
}

/// The value a signed numeral denotes.
pub open spec fn i64_numeral_val(s: Seq<char>) -> int
    recommends
        parses_as_i64(s),
{
    if is_negative_numeral(s) {
        -(dec_val(signed_body(s)) as int)
    } else {
        dec_val(signed_body(s)) as int
    }
}

/// Extending a digit string by one character multiplies its value by ten and
/// adds the new digit.
pub proof fn lemma_dec_val_step(s: Seq<char>, i: int)
    requires
        0 <= i < s.len(),
    ensures
        dec_val(s.subrange(0, i + 1)) == dec_val(s.subrange(0, i)) * 10 + digit_val(s[i]),
{
    let pre = s.subrange(0, i + 1);
    assert(pre.drop_last() =~= s.subrange(0, i));
    assert(pre.last() == s[i]);
}

/// The value of a whole digit string is at least the value of any prefix.
pub proof fn lemma_dec_val_prefix_le(s: Seq<char>, i: int)
    requires
        0 <= i <= s.len(),
    ensures
        dec_val(s) >= dec_val(s.subrange(0, i)),
    decreases s.len() - i,
{
    if i == s.len() {
        assert(s.subrange(0, i) =~= s);
    } else {
        lemma_dec_val_step(s, i);
        lemma_dec_val_prefix_le(s, i + 1);
    }
}

/// Parses a token as a `u64`, exactly as the standard decimal parse does:
/// `None` on an empty body, a non-digit, or a value that does not fit.
pub fn parse_u64(s: &str) -> (r: Option<u64>)
    ensures
        r is Some <==> parses_as_u64(s@),
        r matches Some(v) ==> v == dec_val(unsigned_body(s@)),
{
    let len = s.unicode_len();
    let ghost b = unsigned_body(s@);
    let mut i: usize = 0;
    if len > 0 && s.get_char(0) == '+' {
        i = 1;
    }
    let ghost off = i as int;
    assert(b =~= s@.subrange(off, len as int));
    if i >= len {
        return None;
    }
    let mut acc: u64 = 0;
    while i < len
        invariant
            0 <= off <= i <= len,
            len == s@.len(),
            b == unsigned_body(s@),
            b == s@.subrange(off, len as int),
            all_digits(b.subrange(0, i - off)),
            acc == dec_val(b.subrange(0, i - off)),
        decreases len - i,
    {
        let c = s.get_char(i);
        let u = c as u32;
        if u < 48 || u > 57 {
            assert(!is_digit_char(b[i - off]));
            return None;
        }
        let d = (u - 48) as u64;
        if acc > (u64::MAX - d) / 10 {
            proof {
                lemma_dec_val_step(b, i - off);
                assert(dec_val(b.subrange(0, i - off + 1)) > u64::MAX);
                lemma_dec_val_prefix_le(b, i - off + 1);
            }
            return None;
        }
        acc = acc * 10 + d;
        proof {
            lemma_dec_val_step(b, i - off);
            assert(b.subrange(0, i - off + 1).drop_last() =~= b.subrange(0, i - off));
        }
        i = i + 1;
    }
    assert(b.subrange(0, len - off) =~= b);
    Some(acc)
}

/// Parses a token as an `i64`, exactly as the standard decimal parse does:
/// an optional `+` or `-` sign, then digits, within `i64`'s range.
pub fn parse_i64(s: &str) -> (r: Option<i64>)
    ensures
        r is Some <==> parses_as_i64(s@),
        r matches Some(v) ==> v as int == i64_numeral_val(s@),
{
    let len = s.unicode_len();
    let ghost b = signed_body(s@);
    let mut neg = false;
    let mut i: usize = 0;
    if len > 0 {
        let c0 = s.get_char(0);
        if c0 == '+' {
            i = 1;
        } else if c0 == '-' {
            neg = true;
            i = 1;
        }
    }
    let ghost off = i as int;
    assert(b =~= s@.subrange(off, len as int));
    assert(neg == is_negative_numeral(s@));
    if i >= len {
        return None;
    }
    let bound: u64 = if neg {
        0x8000000000000000
    } else {
        0x7fffffffffffffff
    };
    let mut acc: u64 = 0;
    while i < len
        invariant
            0 <= off <= i <= len,
            len == s@.len(),
            b == signed_body(s@),
            neg == is_negative_numeral(s@),
            b == s@.subrange(off, len as int),
            all_digits(b.subrange(0, i - off)),
            acc == dec_val(b.subrange(0, i - off)),
            acc <= bound,
            bound == if neg { 0x8000000000000000u64 } else { 0x7fffffffffffffffu64 },
        decreases len - i,
    {
        let c = s.get_char(i);
        let u = c as u32;
        if u < 48 || u > 57 {
            assert(!is_digit_char(b[i - off]));
            return None;
        }
        let d = (u - 48) as u64;
        if acc > (bound - d) / 10 {
            proof {
                lemma_dec_val_step(b, i - off);
                assert(dec_val(b.subrange(0, i - off + 1)) > bound);
                lemma_dec_val_prefix_le(b, i - off + 1);
            }
            return None;
        }
        acc = acc * 10 + d;
        proof {
            lemma_dec_val_step(b, i - off);
            assert(b.subrange(0, i - off + 1).drop_last() =~= b.subrange(0, i - off));
        }
        i = i + 1;
    }
    assert(b.subrange(0, len - off) =~= b);
    if neg {
        if acc == 0x8000000000000000 {
            Some(i64::MIN)
        } else {
            Some(-(acc as i64))
        }
    } else {
        Some(acc as i64)
    }
}

/// The digit character of a value below ten.
pub open spec fn digit_char(d: nat) -> char
    recommends
        d < 10,
{
    if d == 0 {
        '0'
    } else if d == 1 {
        '1'
    } else if d == 2 {
        '2'
    } else if d == 3 {
        '3'
    } else if d == 4 {
        '4'
    } else if d == 5 {
        '5'
    } else if d == 6 {
        '6'
    } else if d == 7 {
        '7'
    } else if d == 8 {
        '8'
    } else {
        '9'
    }
}

/// The decimal text of `n`, most significant digit first, no leading zeros
/// (a single `0` for zero).
pub open spec fn spec_decimal(n: nat) -> Seq<char>
    decreases n,
{
    if n < 10 {
        seq![digit_char(n)]
    } else {
        spec_decimal(n / 10).push(digit_char(n % 10))
    }
}

/// The one-character text of a digit value.
fn digit_str(d: u64) -> (r: &'static str)
    requires
        d < 10,
    ensures
        r@ == seq![digit_char(d as nat)],
{
    proof {
        reveal_strlit("0");
        reveal_strlit("1");
        reveal_strlit("2");
        reveal_strlit("3");
        reveal_strlit("4");
        reveal_strlit("5");
        reveal_strlit("6");
        reveal_strlit("7");
        reveal_strlit("8");
        reveal_strlit("9");
    }
    let r = match d {
        0 => "0",
        1 => "1",
        2 => "2",
        3 => "3",
        4 => "4",
        5 => "5",
        6 => "6",
        7 => "7",
        8 => "8",
        _ => "9",
    };
    proof {
        assert(r@ =~= seq![digit_char(d as nat)]);
    }
    r
}

/// Renders `n` in decimal.
pub fn u64_to_decimal(n: u64) -> (s: String)
    ensures
        s@ == spec_decimal(n as nat),
    decreases n,
{
    if n < 10 {
        String::from_str(digit_str(n))
    } else {
        let mut s = u64_to_decimal(n / 10);
        s.append(digit_str(n % 10));
        proof {
            assert(s@ =~= spec_decimal(n as nat));
        }
        s
    }
}

} // verus!
