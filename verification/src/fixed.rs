//! Fixed-point scalars.
//!
//! Every length, coordinate and velocity component of the simulation is an
//! `i64` that counts millionths of a world unit ([`SCALE`] raw units make one
//! world unit); velocities are raw units per second. Elapsed time is a `u64`
//! count of nanoseconds.
//!
//! All operations are total. A result that leaves the `i64` range sticks to
//! the nearest end of it ([`clamp`]). Every division rounds to the nearest
//! raw unit, a half away from zero ([`round_div`]): no result is off by
//! more than half a raw unit, and mirrored inputs give mirrored results.

use vstd::prelude::*;
use vstd::arithmetic::div_mod::{
    lemma_fundamental_div_mod, lemma_fundamental_div_mod_converse, lemma_mod_bound,
};

verus! {

/// Raw units in one world unit.
pub const SCALE: i64 = 1_000_000;

/// Nanoseconds in one second.
pub const NANOS_PER_SEC: u64 = 1_000_000_000;

/// The nearest `i64` to `v`.
pub open spec fn clamp(v: int) -> i64 {
    if v < i64::MIN {
        i64::MIN
    } else if v > i64::MAX {
        i64::MAX
    } else {
        v as i64
    }
}

/// The magnitude of a number.
pub open spec fn abs(v: int) -> int {
    if v < 0 {
        -v
    } else {
        v
    }
}

/// The quotient of `n` by a positive `d`, rounded to the nearest whole
/// number, a half away from zero.
pub open spec fn round_div(n: int, d: int) -> int
    recommends
        d > 0,
{
    if n >= 0 {
        (2 * n + d) / (2 * d)
    } else {
        -((2 * (-n) + d) / (2 * d))
    }
}

/// The sum of two raw values, held to the `i64` range.
pub open spec fn spec_sat_add(a: i64, b: i64) -> i64 {
    clamp(a + b)
}

/// The difference of two raw values, held to the `i64` range.
pub open spec fn spec_sat_sub(a: i64, b: i64) -> i64 {
    clamp(a - b)
}

/// The product of two fixed-point numbers, as a fixed-point number.
pub open spec fn spec_mul_fixed(a: i64, b: i64) -> i64 {
    clamp(round_div(a * b, SCALE as int))
}

/// What a rate of `per_second` raw units per second amounts to over `nanos`
/// nanoseconds.
pub open spec fn spec_scale_by_time(per_second: i64, nanos: u64) -> i64 {
    clamp(round_div(per_second * nanos, NANOS_PER_SEC as int))
}

/// How far something moves in `nanos` nanoseconds that is asked to move by
/// `amount`, where one world unit stands for the full speed of `per_second`
/// raw units per second: `amount * per_second * nanos`, brought back to raw
/// units. It is rounded once where the speed times the time fits in 63
/// bits, which is so for any speed and time of a game; beyond that the
/// distance at full speed is rounded first.
pub open spec fn spec_step(amount: i64, per_second: i64, nanos: u64) -> i64 {
    let full = per_second * nanos;
    if -0x8000_0000_0000_0000 <= full <= 0x8000_0000_0000_0000 {
        clamp(round_div(amount * full, SCALE * NANOS_PER_SEC))
    } else {
        spec_mul_fixed(amount, spec_scale_by_time(per_second, nanos))
    }
}

/// `r` is the integer square root of `n`: the largest number whose square
/// does not exceed `n`.
pub open spec fn is_sqrt_floor(n: nat, r: nat) -> bool {
    r * r <= n < (r + 1) * (r + 1)
}

/// The integer square root of `n`.
pub open spec fn sqrt_floor(n: nat) -> nat {
    choose|r: nat| is_sqrt_floor(n, r)
}

/// At most one number is the integer square root of `n`.
pub proof fn lemma_sqrt_floor_unique(n: nat, r1: nat, r2: nat)
    requires
        is_sqrt_floor(n, r1),
        is_sqrt_floor(n, r2),
    ensures
        r1 == r2,
{
    if r1 < r2 {
        assert((r1 + 1) * (r1 + 1) <= r2 * r2) by (nonlinear_arith)
            requires
                r1 + 1 <= r2,
        ;
    } else if r2 < r1 {
        assert((r2 + 1) * (r2 + 1) <= r1 * r1) by (nonlinear_arith)
            requires
                r2 + 1 <= r1,
        ;
    }
}

/// Every number has an integer square root.
pub proof fn lemma_sqrt_floor_exists(n: nat)
    ensures
        is_sqrt_floor(n, sqrt_floor(n)),
    decreases n,
{
    if n == 0 {
        assert(is_sqrt_floor(0, 0)) by (nonlinear_arith);
    } else {
        lemma_sqrt_floor_exists((n - 1) as nat);
        let r = sqrt_floor((n - 1) as nat);
        if (r + 1) * (r + 1) <= n {
            assert((r + 1) * (r + 1) < (r + 2) * (r + 2)) by (nonlinear_arith);
            assert(is_sqrt_floor(n, r + 1));
        } else {
            assert(is_sqrt_floor(n, r));
        }
    }
}

/// A number with the defining property is the integer square root.
pub proof fn lemma_sqrt_floor_is(n: nat, r: nat)
    requires
        is_sqrt_floor(n, r),
    ensures
        sqrt_floor(n) == r,
{
    lemma_sqrt_floor_unique(n, r, sqrt_floor(n));
}

/// The integer square root is monotonic.
pub proof fn lemma_sqrt_floor_monotonic(a: nat, b: nat)
    requires
        a <= b,
    ensures
        sqrt_floor(a) <= sqrt_floor(b),
{
    lemma_sqrt_floor_exists(a);
    lemma_sqrt_floor_exists(b);
    let ra = sqrt_floor(a);
    let rb = sqrt_floor(b);
    if rb < ra {
        assert((rb + 1) * (rb + 1) <= ra * ra) by (nonlinear_arith)
            requires
                rb + 1 <= ra,
        ;
    }
}

/// Brings a wide intermediate result back into the `i64` range.
pub fn saturate(v: i128) -> (r: i64)
    ensures
        r == clamp(v as int),
{
    if v < i64::MIN as i128 {
        i64::MIN
    } else if v > i64::MAX as i128 {
        i64::MAX
    } else {
        v as i64
    }
}

/// The absolute value, widened so that it always fits.
pub fn magnitude(v: i128) -> (r: u128)
    requires
        v > i128::MIN,
    ensures
        r == abs(v as int),
{
    if v < 0 {
        (-v) as u128
    } else {
        v as u128
    }
}

/// Division that rounds to the nearest whole number, a half away from
/// zero, on wide intermediates. The result is no larger in magnitude than
/// what is divided.
pub fn round_quotient(n: i128, d: u128) -> (q: i128)
    requires
        d > 0,
        n > i128::MIN,
    ensures
        q == round_div(n as int, d as int),
        abs(q as int) <= abs(n as int),
{
    let whole: u128 = magnitude(n);
    let down: u128 = whole / d;
    let rest: u128 = whole % d;
    proof {
        lemma_fundamental_div_mod(whole as int, d as int);
        lemma_mod_bound(whole as int, d as int);
        assert(d * down >= 0 && (d >= 2 ==> d * down >= 2 * down)) by (nonlinear_arith)
            requires
                d >= 1,
                down >= 0,
        ;
        assert(2 * (d * down) == down * (2 * d) && 2 * (d * down) + 2 * d == (down + 1) * (2 * d))
            by (nonlinear_arith);
    }
    // up where the rest is at least half of the divisor
    let up = rest >= d - rest;
    let nearest: u128 = if up { down + 1 } else { down };
    proof {
        if up {
            lemma_fundamental_div_mod_converse(
                2 * whole + d,
                2 * d as int,
                down + 1,
                2 * rest - d,
            );
        } else {
            lemma_fundamental_div_mod_converse(2 * whole + d, 2 * d as int, down as int, 2 * rest + d);
        }
    }
    if n >= 0 {
        nearest as i128
    } else {
        -(nearest as i128)
    }
}

/// Saturating addition of raw values.
#[verifier::when_used_as_spec(spec_sat_add)]
pub fn sat_add(a: i64, b: i64) -> (r: i64)
    ensures
        r == spec_sat_add(a, b),
{
    saturate(a as i128 + b as i128)
}

/// Saturating subtraction of raw values.
#[verifier::when_used_as_spec(spec_sat_sub)]
pub fn sat_sub(a: i64, b: i64) -> (r: i64)
    ensures
        r == spec_sat_sub(a, b),
{
    saturate(a as i128 - b as i128)
}

/// Fixed-point multiplication: `a * b / SCALE`, rounded to the nearest raw
/// unit and held to the `i64` range.
#[verifier::when_used_as_spec(spec_mul_fixed)]
pub fn mul_fixed(a: i64, b: i64) -> (r: i64)
    ensures
        r == spec_mul_fixed(a, b),
{
    let wa: i128 = a as i128;
    let wb: i128 = b as i128;
    assert(-0x4000_0000_0000_0000_0000_0000_0000_0000 <= wa * wb
        <= 0x4000_0000_0000_0000_0000_0000_0000_0000) by (nonlinear_arith)
        requires
            -0x8000_0000_0000_0000 <= wa <= 0x8000_0000_0000_0000,
            -0x8000_0000_0000_0000 <= wb <= 0x8000_0000_0000_0000,
    ;
    saturate(round_quotient(wa * wb, SCALE as u128))
}

/// The distance covered in `nanos` nanoseconds at `per_second` raw units per
/// second, rounded to the nearest raw unit and held to the `i64` range.
#[verifier::when_used_as_spec(spec_scale_by_time)]
pub fn scale_by_time(per_second: i64, nanos: u64) -> (r: i64)
    ensures
        r == spec_scale_by_time(per_second, nanos),
{
    let wv: i128 = per_second as i128;
    let wt: i128 = nanos as i128;
    assert(-0x8000_0000_0000_0000_0000_0000_0000_0000 < wv * wt
        < 0x8000_0000_0000_0000_0000_0000_0000_0000) by (nonlinear_arith)
        requires
            -0x8000_0000_0000_0000 <= wv <= 0x8000_0000_0000_0000,
            0 <= wt < 0x1_0000_0000_0000_0000,
    ;
    saturate(round_quotient(wv * wt, NANOS_PER_SEC as u128))
}

/// The step of something that is asked to move by `amount` of its full
/// speed of `per_second`, for `nanos` nanoseconds.
#[verifier::when_used_as_spec(spec_step)]
pub fn step(amount: i64, per_second: i64, nanos: u64) -> (r: i64)
    ensures
        r == spec_step(amount, per_second, nanos),
{
    let wv: i128 = per_second as i128;
    let wt: i128 = nanos as i128;
    assert(-0x8000_0000_0000_0000_0000_0000_0000_0000 < wv * wt
        < 0x8000_0000_0000_0000_0000_0000_0000_0000) by (nonlinear_arith)
        requires
            -0x8000_0000_0000_0000 <= wv <= 0x8000_0000_0000_0000,
            0 <= wt < 0x1_0000_0000_0000_0000,
    ;
    let full: i128 = wv * wt;
    if full >= -0x8000_0000_0000_0000 && full <= 0x8000_0000_0000_0000 {
        let wa: i128 = amount as i128;
        assert(-0x4000_0000_0000_0000_0000_0000_0000_0000 <= wa * full
            <= 0x4000_0000_0000_0000_0000_0000_0000_0000) by (nonlinear_arith)
            requires
                -0x8000_0000_0000_0000 <= wa <= 0x8000_0000_0000_0000,
                -0x8000_0000_0000_0000 <= full <= 0x8000_0000_0000_0000,
        ;
        saturate(round_quotient(wa * full, 1_000_000_000_000_000))
    } else {
        mul_fixed(amount, scale_by_time(per_second, nanos))
    }
}

/// The integer square root, by bisection.
pub fn isqrt(n: u128) -> (r: u64)
    ensures
        r == sqrt_floor(n as nat),
        is_sqrt_floor(n as nat, r as nat),
{
    let mut lo: u128 = 0;
    let mut hi: u128 = 0x1_0000_0000_0000_0000;
    assert(hi * hi > n) by (nonlinear_arith)
        requires
            hi == 0x1_0000_0000_0000_0000,
            n <= u128::MAX,
    ;
    while hi - lo > 1
        invariant
            lo < hi <= 0x1_0000_0000_0000_0000,
            lo * lo <= n < hi * hi,
        decreases hi - lo,
    {
        let mid: u128 = lo + (hi - lo) / 2;
        assert(mid * mid <= u128::MAX) by (nonlinear_arith)
            requires
                0 <= mid < 0x1_0000_0000_0000_0000,
        ;
        if mid * mid <= n {
            lo = mid;
        } else {
            hi = mid;
        }
    }
    proof {
        assert(hi == lo + 1);
        assert(is_sqrt_floor(n as nat, lo as nat));
        lemma_sqrt_floor_is(n as nat, lo as nat);
    }
    lo as u64
}

} // verus!
