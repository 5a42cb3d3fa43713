//! Decoding a packed terminal device number into the display name a process
//! monitor shows for the controlling terminal.

use crate::digits::spec_decimal;
use crate::digits::u64_to_decimal;
use vstd::prelude::*;
use vstd::string::StrSliceExecFns;
use vstd::string::StringExecFns;

verus! {

/// The major part of a packed device number.
pub open spec fn spec_major(v: u64) -> u64 {
    (v >> 8) & 0xfff
}

/// The minor part of a packed device number.
pub open spec fn spec_minor(v: u64) -> u64 {
    v & 0xff
}

/// The display name of a packed terminal device number: `?` for none,
/// `tty<n>` for the tty major, the console names for major five,
/// `pts/<n>` for the Unix98 pseudo-terminal majors, and `major:minor`
/// for anything else.
pub open spec fn spec_terminal_name(v: u64) -> Seq<char> {
    let major = spec_major(v);
    let minor = spec_minor(v);
    if v == 0 {
        "?"@
    } else if major == 4 {
        "tty"@ + spec_decimal(minor as nat)
    } else if major == 5 {
        if minor == 0 {
            "tty"@
        } else if minor == 1 {
            "console"@
        } else if minor == 2 {
            "ptmx"@
        } else {
            "tty"@ + spec_decimal(minor as nat)
        }
    } else if 136 <= major <= 143 {
        "pts/"@ + spec_decimal(((major - 136) * 256 + minor) as nat)
    } else {
        spec_decimal(major as nat) + ":"@ + spec_decimal(minor as nat)
    }
}

/// Decodes a packed terminal device number into its display name.
/// Total: every value decodes to some name.
pub fn get_terminal_name(tty_nr: u64) -> (r: String)
    ensures
        r@ == spec_terminal_name(tty_nr),
{
    proof {
        reveal_strlit("?");
        reveal_strlit("tty");
        reveal_strlit("console");
        reveal_strlit("ptmx");
        reveal_strlit("pts/");
        reveal_strlit(":");
    }
    if tty_nr == 0 {
        return String::from_str("?");
    }
    let major = (tty_nr >> 8) & 0xfff;
    let minor = tty_nr & 0xff;
    if major == 4 {
        let mut s = String::from_str("tty");
        s.append(u64_to_decimal(minor).as_str());
        s
    } else if major == 5 {
        if minor == 0 {
            String::from_str("tty")
        } else if minor == 1 {
            String::from_str("console")
        } else if minor == 2 {
            String::from_str("ptmx")
        } else {
            let mut s = String::from_str("tty");
            s.append(u64_to_decimal(minor).as_str());
            s
        }
    } else if 136 <= major && major <= 143 {
        assert(tty_nr & 0xff < 256) by (bit_vector);
        let pts = (major - 136) * 256 + minor;
        let mut s = String::from_str("pts/");
        s.append(u64_to_decimal(pts).as_str());
        s
    } else {
        let mut s = u64_to_decimal(major);
        s.append(":");
        s.append(u64_to_decimal(minor).as_str());
        s
    }
}

} // verus!
