//! Decimal rendering of centi-unit values: the status endpoint reports
//! every quantity as a decimal string, one fractional digit for status
//! fields, minimal fractional digits inside alert messages.

use vstd::prelude::*;
use vstd::string::{StrSliceExecFns, StringExecFns};

verus! {

/// The decimal digit character for `d`.
pub open spec fn digit_char(d: int) -> char
    recommends
        0 <= d < 10,
{
    if d == 0 {
        '0'
    } else if d == 1 {
        '1'
    } else if d == 2 {
        '2'
    } else if d == 3 {
        '3'
    } else if d == 4 {
        '4'
    } else if d == 5 {
        '5'
    } else if d == 6 {
        '6'
    } else if d == 7 {
        '7'
    } else if d == 8 {
        '8'
    } else {
        '9'
    }
}

/// Decimal digits of `n`, most significant first, without leading zeros
/// (just `"0"` for zero).
pub open spec fn spec_digits(n: nat) -> Seq<char>
    decreases n,
{
    if n < 10 {
        seq![digit_char(n as int)]
    } else {
        spec_digits(n / 10) + seq![digit_char((n % 10) as int)]
    }
}

/// Magnitude of `v`.
pub open spec fn spec_abs(v: int) -> int {
    if v < 0 {
        -v
    } else {
        v
    }
}

/// A centi-unit value rendered with exactly one fractional digit, halves
/// rounded away from zero; a leading minus sign for negative values.
pub open spec fn spec_fmt_fixed1(centi: int) -> Seq<char> {
    let tenths = (spec_abs(centi) + 5) / 10;
    let sign: Seq<char> = if centi < 0 {
        seq!['-']
    } else {
        Seq::empty()
    };
    sign + spec_digits((tenths / 10) as nat) + seq!['.'] + seq![digit_char(tenths % 10)]
}

/// A centi-unit value rendered with as few fractional digits as possible:
/// none when whole, one when a whole number of tenths, else two.
pub open spec fn spec_fmt_display(centi: int) -> Seq<char> {
    let mag = spec_abs(centi);
    let sign: Seq<char> = if centi < 0 {
        seq!['-']
    } else {
        Seq::empty()
    };
    if mag % 100 == 0 {
        sign + spec_digits((mag / 100) as nat)
    } else if mag % 10 == 0 {
        sign + spec_digits((mag / 100) as nat) + seq!['.'] + seq![digit_char(mag / 10 % 10)]
    } else {
        sign + spec_digits((mag / 100) as nat) + seq!['.'] + seq![digit_char(mag / 10 % 10)]
            + seq![digit_char(mag % 10)]
    }
}

fn digit_str(d: u64) -> (s: &'static str)
    requires
        d < 10,
    ensures
        s@ == seq![digit_char(d as int)],
{
    proof {
        reveal_strlit("0");
        reveal_strlit("1");
        reveal_strlit("2");
        reveal_strlit("3");
        reveal_strlit("4");
        reveal_strlit("5");
        reveal_strlit("6");
        reveal_strlit("7");
        reveal_strlit("8");
        reveal_strlit("9");
    }
    let s: &'static str = if d == 0 {
        "0"
    } else if d == 1 {
        "1"
    } else if d == 2 {
        "2"
    } else if d == 3 {
        "3"
    } else if d == 4 {
        "4"
    } else if d == 5 {
        "5"
    } else if d == 6 {
        "6"
    } else if d == 7 {
        "7"
    } else if d == 8 {
        "8"
    } else {
        "9"
    };
    proof {
        assert(s@ =~= seq![digit_char(d as int)]);
    }
    s
}

/// Decimal digits of `n`, as [`spec_digits`].
pub fn fmt_u64(n: u64) -> (s: String)
    ensures
        s@ == spec_digits(n as nat),
    decreases n,
{
    if n < 10 {
        digit_str(n).to_owned()
    } else {
        let mut s = fmt_u64(n / 10);
        s.append(digit_str(n % 10));
        s
    }
}

fn abs_u64(v: i64) -> (m: u64)
    ensures
        m == spec_abs(v as int),
{
    if v == i64::MIN {
        9223372036854775808u64
    } else if v < 0 {
        (-v) as u64
    } else {
        v as u64
    }
}

/// Executable form of [`spec_fmt_fixed1`].
pub fn fmt_fixed1(centi: i64) -> (s: String)
    ensures
        s@ == spec_fmt_fixed1(centi as int),
{
    proof {
        reveal_strlit("-");
        reveal_strlit(".");
    }
    let mag = abs_u64(centi);
    let tenths = (mag + 5) / 10;
    let mut s = String::new();
    if centi < 0 {
        s.append("-");
    }
    let digits = fmt_u64(tenths / 10);
    s.append(digits.as_str());
    s.append(".");
    s.append(digit_str(tenths % 10));
    proof {
        assert(s@ =~= spec_fmt_fixed1(centi as int));
    }
    s
}

/// Executable form of [`spec_fmt_display`].
pub fn fmt_display(centi: i64) -> (s: String)
    ensures
        s@ == spec_fmt_display(centi as int),
{
    proof {
        reveal_strlit("-");
        reveal_strlit(".");
    }
    let mag = abs_u64(centi);
    let mut s = String::new();
    if centi < 0 {
        s.append("-");
    }
    let whole = fmt_u64(mag / 100);
    s.append(whole.as_str());
    if mag % 100 != 0 {
        s.append(".");
        s.append(digit_str(mag / 10 % 10));
        if mag % 10 != 0 {
            s.append(digit_str(mag % 10));
        }
    }
    proof {
        assert(s@ =~= spec_fmt_display(centi as int));
    }
    s
}

} // verus!
