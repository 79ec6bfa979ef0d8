//! Numbers as text, for the game log.

use vstd::prelude::*;
use vstd::string::*;

verus! {

/// The character that stands for the digit `d`.
pub open spec fn digit_char(d: nat) -> char
    recommends
        d < 10,
{
    if d == 0 {
        '0'
    } else if d == 1 {
        '1'
    } else if d == 2 {
        '2'
    } else if d == 3 {
        '3'
    } else if d == 4 {
        '4'
    } else if d == 5 {
        '5'
    } else if d == 6 {
        '6'
    } else if d == 7 {
        '7'
    } else if d == 8 {
        '8'
    } else {
        '9'
    }
}

/// The decimal digits of `n`, most significant first, without leading zeros.
pub open spec fn spec_decimal(n: nat) -> Seq<char>
    decreases n,
{
    if n < 10 {
        seq![digit_char(n)]
    } else {
        spec_decimal(n / 10).push(digit_char(n % 10))
    }
}

/// A raw fixed-point value rounded to hundredths of a unit, half away from
/// zero: the number of hundredths in its magnitude.
pub open spec fn hundredths(v: i64) -> nat {
    let a: int = if v < 0 { -v } else { v as int };
    ((a + 5_000) / 10_000) as nat
}

/// A raw fixed-point value with two decimals, as in `-12.50`. The sign is
/// that of the value itself, also where the rounded magnitude is zero.
pub open spec fn spec_two_decimals(v: i64) -> Seq<char> {
    let h = hundredths(v);
    let sign: Seq<char> = if v < 0 { seq!['-'] } else { Seq::empty() };
    sign + spec_decimal(h / 100).push('.').push(digit_char((h % 100) / 10)).push(
        digit_char(h % 10),
    )
}

/// The one-character text of a digit.
fn digit_str(d: u64) -> (s: &'static str)
    requires
        d < 10,
    ensures
        s@ == seq![digit_char(d as nat)],
{
    proof {
        reveal_strlit("0");
        reveal_strlit("1");
        reveal_strlit("2");
        reveal_strlit("3");
        reveal_strlit("4");
        reveal_strlit("5");
        reveal_strlit("6");
        reveal_strlit("7");
        reveal_strlit("8");
        reveal_strlit("9");
    }
    let s = if d == 0 {
        "0"
    } else if d == 1 {
        "1"
    } else if d == 2 {
        "2"
    } else if d == 3 {
        "3"
    } else if d == 4 {
        "4"
    } else if d == 5 {
        "5"
    } else if d == 6 {
        "6"
    } else if d == 7 {
        "7"
    } else if d == 8 {
        "8"
    } else {
        "9"
    };
    assert(s@ =~= seq![digit_char(d as nat)]);
    s
}

/// Writes `n` in decimal.
pub fn decimal(n: u64) -> (s: String)
    ensures
        s@ == spec_decimal(n as nat),
    decreases n,
{
    if n < 10 {
        String::from_str(digit_str(n))
    } else {
        let mut s = decimal(n / 10);
        s.append(digit_str(n % 10));
        assert(s@ =~= spec_decimal((n / 10) as nat).push(digit_char((n % 10) as nat)));
        s
    }
}

/// Writes a raw fixed-point value with two decimals.
pub fn two_decimals(v: i64) -> (s: String)
    ensures
        s@ == spec_two_decimals(v),
{
    let a: u64 = if v < 0 {
        (-(v as i128)) as u64
    } else {
        v as u64
    };
    let h: u64 = (a + 5_000) / 10_000;
    proof {
        reveal_strlit("-");
        reveal_strlit("");
        reveal_strlit(".");
    }
    let mut s = String::from_str(if v < 0 { "-" } else { "" });
    let whole = decimal(h / 100);
    s.append(whole.as_str());
    s.append(".");
    s.append(digit_str((h % 100) / 10));
    s.append(digit_str(h % 10));
    assert(s@ =~= spec_two_decimals(v));
    s
}

} // verus!
