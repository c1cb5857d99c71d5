//! Amounts in millionths written out in decimal.

use vstd::prelude::*;
use vstd::string::StringExecFns;
use crate::fixed::magnitude;

verus! {

/// The character that stands for the digit `d`.
pub open spec fn digit(d: int) -> char {
    if d == 0 {
        '0'
    } else if d == 1 {
        '1'
    } else if d == 2 {
        '2'
    } else if d == 3 {
        '3'
    } else if d == 4 {
        '4'
    } else if d == 5 {
        '5'
    } else if d == 6 {
        '6'
    } else if d == 7 {
        '7'
    } else if d == 8 {
        '8'
    } else {
        '9'
    }
}

/// The digits of `n`, the most significant first and none of them a leading
/// zero; zero is a single `0`.
pub open spec fn whole(n: nat) -> Seq<char>
    decreases n,
{
    if n < 10 {
        seq![digit(n as int)]
    } else {
        whole(n / 10).push(digit((n % 10) as int))
    }
}

/// Whether `unit` is one of 1, 10, 100 and so on.
pub open spec fn is_power_of_ten(unit: nat) -> bool
    decreases unit,
{
    unit == 1 || (unit >= 10 && unit % 10 == 0 && is_power_of_ten(unit / 10))
}

/// The digits of `f / unit` behind the decimal point, up to the last that is
/// not zero.
pub open spec fn fraction(f: nat, unit: nat) -> Seq<char>
    recommends
        is_power_of_ten(unit),
        f < unit,
    decreases unit,
{
    if f == 0 || unit < 10 {
        Seq::empty()
    } else {
        seq![digit((f / (unit / 10)) as int)] + fraction(f % (unit / 10), unit / 10)
    }
}

/// An amount of `a` millionths in decimal: a minus sign where it is negative,
/// the whole units, and, unless the rest is zero, a point and the digits of
/// the rest without trailing zeros.
pub open spec fn decimal(a: int) -> Seq<char> {
    let sign = if a < 0 {
        seq!['-']
    } else {
        Seq::empty()
    };
    let units = whole(magnitude(a) / 1_000_000);
    let rest = magnitude(a) % 1_000_000;
    if rest == 0 {
        sign + units
    } else {
        sign + units + seq!['.'] + fraction(rest, 1_000_000)
    }
}

/// The text of one digit.
fn digit_text(d: u64) -> (s: &'static str)
    requires
        d < 10,
    ensures
        s@ == seq![digit(d as int)],
{
    proof {
        reveal_strlit("0");
        reveal_strlit("1");
        reveal_strlit("2");
        reveal_strlit("3");
        reveal_strlit("4");
        reveal_strlit("5");
        reveal_strlit("6");
        reveal_strlit("7");
        reveal_strlit("8");
        reveal_strlit("9");
    }
    let s: &'static str = if d == 0 {
        "0"
    } else if d == 1 {
        "1"
    } else if d == 2 {
        "2"
    } else if d == 3 {
        "3"
    } else if d == 4 {
        "4"
    } else if d == 5 {
        "5"
    } else if d == 6 {
        "6"
    } else if d == 7 {
        "7"
    } else if d == 8 {
        "8"
    } else {
        "9"
    };
    assert(s@ =~= seq![digit(d as int)]);
    s
}

/// Appends the digits of `n` to `out`.
fn push_whole(out: &mut String, n: u64)
    ensures
        final(out)@ == old(out)@ + whole(n as nat),
    decreases n,
{
    if n >= 10 {
        push_whole(out, n / 10);
    }
    out.append(digit_text(n % 10));
    assert(final(out)@ =~= old(out)@ + whole(n as nat));
}

/// Appends the digits of `f / unit` behind the point to `out`.
fn push_fraction(out: &mut String, f: u64, unit: u64)
    requires
        f < unit,
        is_power_of_ten(unit as nat),
    ensures
        final(out)@ == old(out)@ + fraction(f as nat, unit as nat),
    decreases unit,
{
    if f != 0 && unit >= 10 {
        let step: u64 = unit / 10;
        assert(f / step < 10) by (nonlinear_arith)
            requires
                f < 10 * step,
                step > 0,
        ;
        assert(f % step < step) by (nonlinear_arith)
            requires
                step > 0,
        ;
        out.append(digit_text(f / step));
        push_fraction(out, f % step, step);
    }
    assert(final(out)@ =~= old(out)@ + fraction(f as nat, unit as nat));
}

/// Writes an amount of millionths in decimal.
pub fn render(amount: i64) -> (s: String)
    ensures
        s@ == decimal(amount as int),
{
    let mut out = String::new();
    let size: u64 = if amount < 0 {
        proof {
            reveal_strlit("-");
        }
        out.append("-");
        (-(amount as i128)) as u64
    } else {
        amount as u64
    };
    push_whole(&mut out, size / 1_000_000);
    let rest: u64 = size % 1_000_000;
    if rest != 0 {
        proof {
            reveal_strlit(".");
        }
        out.append(".");
        assert(is_power_of_ten(1_000_000)) by {
            reveal_with_fuel(is_power_of_ten, 7);
        }
        push_fraction(&mut out, rest, 1_000_000);
    }
    assert(out@ =~= decimal(amount as int));
    out
}

} // verus!
