//! Fixed-point arithmetic on millionths.
//!
//! An amount of money and an exchange rate are both counted in millionths of a
//! unit. Multiplying one by the other gives millionths of millionths; the
//! product is brought back to millionths by rounding to the nearest, ties to
//! even, and then held within the range of `i64`.

use vstd::prelude::*;

verus! {

/// How many parts make one whole unit: a million.
pub const SCALE: u64 = 1_000_000;

/// The integer nearest to `n` millionths; of two equally near, the even one.
pub open spec fn nearest(n: int) -> int {
    let q = n / 1_000_000;
    let r = n % 1_000_000;
    if 2 * r < 1_000_000 || (2 * r == 1_000_000 && q % 2 == 0) {
        q
    } else {
        q + 1
    }
}

/// `v` where it fits an `i64`, else the end of the range on its side.
pub open spec fn saturate(v: int) -> int {
    if v < i64::MIN {
        i64::MIN as int
    } else if v > i64::MAX {
        i64::MAX as int
    } else {
        v
    }
}

/// An amount times a rate, both in millionths, as an amount in millionths.
pub open spec fn scaled(amount: int, rate: int) -> int {
    saturate(nearest(amount * rate))
}

/// The distance between two integers.
pub open spec fn distance(a: int, b: int) -> int {
    if a <= b {
        b - a
    } else {
        a - b
    }
}

/// Rounding moves a value by at most half a unit.
pub proof fn lemma_nearest_is_near(n: int)
    ensures
        2 * distance(1_000_000 * nearest(n), n) <= 1_000_000,
{
}

/// Rounding is symmetric about zero.
pub proof fn lemma_nearest_negated(n: int)
    ensures
        nearest(-n) == -nearest(n),
{
}

/// A whole number of units is its own rounding.
pub proof fn lemma_nearest_whole(k: int)
    ensures
        nearest(1_000_000 * k) == k,
{
}

/// Whether `v` is within the range of `i64`.
pub open spec fn fits(v: int) -> bool {
    i64::MIN <= v <= i64::MAX
}

/// The size of `a`, whatever its sign.
pub open spec fn magnitude(a: int) -> nat {
    if a < 0 {
        (-a) as nat
    } else {
        a as nat
    }
}

/// Saturating brings a value no further from one that fits.
pub proof fn lemma_saturate_nearer(v: int, a: int)
    requires
        fits(a),
    ensures
        distance(saturate(v), a) <= distance(v, a),
{
}

/// Saturating two values brings them no further apart.
pub proof fn lemma_saturate_close(u: int, v: int)
    ensures
        distance(saturate(u), saturate(v)) <= distance(u, v),
{
}

/// A rate of one leaves an amount as it is.
pub proof fn lemma_scaled_by_one(a: int)
    requires
        fits(a),
    ensures
        scaled(a, 1_000_000) == a,
{
    assert(a * 1_000_000 == 1_000_000 * a);
    lemma_nearest_whole(a);
}

/// Two amounts scaled by one rate lie as far apart as the amounts times the
/// rate, give or take one rounding.
pub proof fn lemma_scaled_close(u: int, v: int, rate: int)
    requires
        rate >= 0,
    ensures
        1_000_000 * distance(scaled(u, rate), scaled(v, rate)) <= distance(u, v) * rate
            + 1_000_000,
{
    let p: int = nearest(u * rate);
    let q: int = nearest(v * rate);
    lemma_nearest_is_near(u * rate);
    lemma_nearest_is_near(v * rate);
    lemma_saturate_close(p, q);
    assert(distance(u * rate, v * rate) == distance(u, v) * rate) by (nonlinear_arith)
        requires
            rate >= 0,
    ;
}

/// An amount scaled by one rate and then by another is the amount times both
/// rates, give or take the two roundings, as long as both results fit.
pub proof fn lemma_scaled_twice(a: int, first: int, second: int)
    requires
        second >= 0,
        fits(nearest(a * first)),
        fits(nearest(nearest(a * first) * second)),
    ensures
        2 * distance(1_000_000_000_000 * scaled(scaled(a, first), second), a * first * second)
            <= 1_000_000 * second + 1_000_000_000_000,
{
    let x: int = nearest(a * first);
    let y: int = nearest(x * second);
    lemma_nearest_is_near(a * first);
    lemma_nearest_is_near(x * second);
    let e1: int = 1_000_000 * x - a * first;
    let e2: int = 1_000_000 * y - x * second;
    let t1: int = second * e1;
    assert(1_000_000_000_000 * y - a * first * second == 1_000_000 * e2 + t1)
        by (nonlinear_arith)
        requires
            e1 == 1_000_000 * x - a * first,
            e2 == 1_000_000 * y - x * second,
            t1 == second * e1,
    ;
    assert(-(1_000_000 * second) <= 2 * t1 <= 1_000_000 * second) by (nonlinear_arith)
        requires
            t1 == second * e1,
            second >= 0,
            -1_000_000 <= 2 * e1 <= 1_000_000,
    ;
}

proof fn lemma_round_trip_algebra(
    a: int,
    first: int,
    second: int,
    x: int,
    y: int,
    e1: int,
    e2: int,
    g: int,
)
    by (nonlinear_arith)
    requires
        e1 == 1_000_000 * x - a * first,
        e2 == 1_000_000 * y - x * second,
        g == first * second - 1_000_000_000_000,
    ensures
        1_000_000_000_000 * (y - a) == 1_000_000 * e2 + second * e1 + a * g,
{
}

/// An amount scaled by one rate and then by another comes back as it was,
/// give or take the amount times the distance of the two rates' product from
/// one, and the two roundings, as long as the amount in between fits.
pub proof fn lemma_round_trip(a: int, first: int, second: int)
    requires
        fits(a),
        first >= 0,
        second >= 0,
        fits(nearest(a * first)),
    ensures
        2_000_000_000_000 * distance(scaled(scaled(a, first), second), a) <= 2 * (magnitude(a)
            * distance(first * second, 1_000_000_000_000)) + 1_000_000 * second
            + 1_000_000_000_000,
{
    let x: int = nearest(a * first);
    let y: int = nearest(x * second);
    assert(scaled(a, first) == x);
    assert(scaled(scaled(a, first), second) == saturate(y));
    lemma_nearest_is_near(a * first);
    lemma_nearest_is_near(x * second);
    let e1: int = 1_000_000 * x - a * first;
    let e2: int = 1_000_000 * y - x * second;
    let g: int = first * second - 1_000_000_000_000;
    lemma_round_trip_algebra(a, first, second, x, y, e1, e2, g);
    let t1: int = second * e1;
    let t2: int = a * g;
    let m: int = magnitude(a) * distance(first * second, 1_000_000_000_000);
    assert(-(1_000_000 * second) <= 2 * t1 <= 1_000_000 * second) by (nonlinear_arith)
        requires
            t1 == second * e1,
            second >= 0,
            -1_000_000 <= 2 * e1 <= 1_000_000,
    ;
    assert(-m <= t2 <= m) by (nonlinear_arith)
        requires
            t2 == a * g,
            m == magnitude(a) * distance(first * second, 1_000_000_000_000),
            g == first * second - 1_000_000_000_000,
    ;
    assert(2_000_000_000_000 * distance(y, a) <= 2 * m + 1_000_000 * second
        + 1_000_000_000_000);
    lemma_saturate_nearer(y, a);
}

/// Saturated addition of two amounts.
pub fn saturating_sum(a: i64, b: i64) -> (r: i64)
    ensures
        r == saturate(a + b),
{
    let wide: i128 = a as i128 + b as i128;
    if wide > i64::MAX as i128 {
        i64::MAX
    } else if wide < i64::MIN as i128 {
        i64::MIN
    } else {
        wide as i64
    }
}

/// Saturated subtraction of one amount from another.
pub fn saturating_difference(a: i64, b: i64) -> (r: i64)
    ensures
        r == saturate(a - b),
{
    let wide: i128 = a as i128 - b as i128;
    if wide > i64::MAX as i128 {
        i64::MAX
    } else if wide < i64::MIN as i128 {
        i64::MIN
    } else {
        wide as i64
    }
}

/// Multiplies an amount by a rate, rounds the product to the nearest
/// millionth, ties to even, and saturates it.
pub fn scale(amount: i64, rate: u64) -> (r: i64)
    ensures
        r == scaled(amount as int, rate as int),
{
    let negative = amount < 0;
    let magnitude: u128 = if negative {
        (-(amount as i128)) as u128
    } else {
        amount as u128
    };
    assert(magnitude * rate <= 0x8000_0000_0000_0000 * 0xffff_ffff_ffff_ffff) by (nonlinear_arith)
        requires
            magnitude <= 0x8000_0000_0000_0000,
            rate <= 0xffff_ffff_ffff_ffff,
    ;
    let product: u128 = magnitude * (rate as u128);
    let unit: u128 = SCALE as u128;
    let q: u128 = product / unit;
    let r: u128 = product % unit;
    let rounded: u128 = if 2 * r < unit || (2 * r == unit && q % 2 == 0) {
        q
    } else {
        q + 1
    };
    assert(rounded == nearest(product as int));
    if negative {
        proof {
            assert(amount * rate == -(product as int)) by (nonlinear_arith)
                requires
                    product == magnitude * rate,
                    magnitude == -amount,
            ;
            lemma_nearest_negated(product as int);
        }
        if rounded > 0x8000_0000_0000_0000 {
            i64::MIN
        } else {
            (-(rounded as i128)) as i64
        }
    } else {
        if rounded > i64::MAX as u128 {
            i64::MAX
        } else {
            rounded as i64
        }
    }
}

} // verus!
