//! Plane vectors in fixed point: length, direction, rotation, and the
//! linear map between two ranges.
//!
//! A vector that is made here, be it a direction, a vector of a given
//! length or a turned vector, has each of its components rounded once, to
//! the nearest raw unit. So each component is within half a raw unit of what
//! it stands for, but for what the root and the sines lack, which is far
//! less.

use vstd::prelude::*;
use crate::fixed::{
    abs, clamp, is_sqrt_floor, isqrt, lemma_sqrt_floor_exists, lemma_sqrt_floor_is,
    lemma_sqrt_floor_monotonic, magnitude, round_div, round_quotient, saturate,
    sqrt_floor, SCALE,
};
use crate::trig::{
    cos_deg, lemma_sin_cos_bounds, lemma_sin_cos_symmetry, lemma_unit_circle, sin_deg,
    spec_cos_deg, spec_sin_deg, TRIG_SCALE, UNIT_CIRCLE_SLACK,
};

verus! {

/// Vectors whose squared length is below this (a hundredth of a unit,
/// squared) have no direction.
pub const NORM_EPSILON_SQ: u128 = 100_000_000;

/// Vectors whose squared length is below this are short: their length is
/// taken with extra digits, [`ROOT_BOOST`] times as fine.
pub const SHORT_SQ: u128 = 0x1_0000_0000_0000_0000;

/// By how much a short vector is stretched before its length is taken.
pub const ROOT_BOOST: i64 = 0x8000_0000;

/// The squared length of `(x, y)`.
pub open spec fn norm_sq(x: int, y: int) -> int {
    x * x + y * y
}

/// By how much a vector of squared length `n` is stretched before its
/// length is taken.
pub open spec fn boost(n: int) -> int {
    if n < SHORT_SQ {
        ROOT_BOOST as int
    } else {
        1
    }
}

/// The length of `(x, y)` after stretching, rounded down. For any vector
/// that has a direction it is at least `2^32`, so what the rounding drops is
/// less than a quarter of a billionth of the length.
pub open spec fn stretched_length(x: int, y: int) -> int {
    let n = norm_sq(x, y);
    sqrt_floor((n * boost(n) * boost(n)) as nat) as int
}

/// The vectors that a turn is shown to keep the length of: those of no
/// more than `10^17` raw units in either component.
pub open spec fn turnable(x: i64, y: i64) -> bool {
    &&& -100_000_000_000_000_000 <= x <= 100_000_000_000_000_000
    &&& -100_000_000_000_000_000 <= y <= 100_000_000_000_000_000
}

/// The lengths that a vector is shown to be made to: from three raw units
/// to `2^29`, which is more than five hundred units.
pub open spec fn makeable(length: int) -> bool {
    3 <= abs(length) <= 0x2000_0000
}

/// Whether `(x, y)` is as long as `length` asks, up to rounding: its length
/// differs from the magnitude of `length` by at most one raw unit.
pub open spec fn has_length(x: i64, y: i64, length: int) -> bool {
    (abs(length) - 1) * (abs(length) - 1) <= norm_sq(x as int, y as int) <= (abs(length) + 1) * (
        abs(length) + 1)
}

/// Whether `(x, y)` has length one, up to rounding: its length lies within
/// one raw unit, a millionth, of one. The bounds are the squares of
/// `SCALE - 1` and of `SCALE + 1`.
pub open spec fn is_unit(x: i64, y: i64) -> bool {
    999_998_000_001 <= norm_sq(x as int, y as int) <= 1_000_002_000_001
}

/// Whether `(rx, ry)` is as long as `(x, y)`, up to the rounding of a
/// rotation: the two lengths, each rounded down to a whole raw unit, differ
/// by at most two.
pub open spec fn length_kept(x: i64, y: i64, rx: i64, ry: i64) -> bool {
    let before = sqrt_floor(norm_sq(x as int, y as int) as nat) as int;
    let after = sqrt_floor(norm_sq(rx as int, ry as int) as nat) as int;
    before - 2 <= after <= before + 1
}

/// The vector of length `length` along `(x, y)`, or the zero vector where
/// `(x, y)` is too short to have a direction. A negative `length` turns it
/// round.
pub open spec fn spec_resize(x: i64, y: i64, length: i64) -> (i64, i64) {
    let n = norm_sq(x as int, y as int);
    if n < NORM_EPSILON_SQ {
        (0i64, 0i64)
    } else {
        let k = boost(n);
        let m = stretched_length(x as int, y as int);
        (clamp(round_div(length * (x * k), m)), clamp(round_div(length * (y * k), m)))
    }
}

/// The direction of `(x, y)` as a vector of length one, or the zero vector
/// where `(x, y)` is too short to have one.
pub open spec fn spec_norm(x: i64, y: i64) -> (i64, i64) {
    spec_resize(x, y, SCALE)
}

/// The distance between two points, rounded down; `u64::MAX` where it would
/// not fit.
pub open spec fn spec_dis(x0: i64, y0: i64, x1: i64, y1: i64) -> u64 {
    let d = sqrt_floor(norm_sq(x0 - x1, y0 - y1) as nat);
    if d > u64::MAX {
        u64::MAX
    } else {
        d as u64
    }
}

/// Whether two points lie no further apart than `radius`.
pub open spec fn spec_within(x0: i64, y0: i64, x1: i64, y1: i64, radius: i64) -> bool {
    radius >= 0 && norm_sq(x0 - x1, y0 - y1) <= radius * radius
}

/// `(x, y)` turned counter-clockwise by a whole number of degrees.
pub open spec fn spec_rotate_vector(x: i64, y: i64, degrees: i32) -> (i64, i64) {
    let c = spec_cos_deg(degrees as int);
    let s = spec_sin_deg(degrees as int);
    (
        clamp(round_div(x * c - y * s, TRIG_SCALE as int)),
        clamp(round_div(x * s + y * c, TRIG_SCALE as int)),
    )
}

/// The quotient of `n` by a non-zero `d`, rounded to the nearest whole
/// number.
pub open spec fn round_ratio(n: int, d: int) -> int
    recommends
        d != 0,
{
    if d > 0 {
        round_div(n, d)
    } else {
        round_div(-n, -d)
    }
}

/// The point of the range from `min_s` to `max_s` that lies where `t` lies
/// in the range from `min_t` to `max_t`.
pub open spec fn spec_map_range(min_s: i64, max_s: i64, min_t: i32, max_t: i32, t: i32) -> i64
    recommends
        min_t != max_t,
{
    clamp(min_s + round_ratio((max_s - min_s) * (t - min_t), max_t - min_t))
}

/// Makes the vector of length `length` along `(x, y)`: the zero vector
/// where the squared length of `(x, y)` is below [`NORM_EPSILON_SQ`], else
/// `length * (x, y) / |(x, y)|`, each component rounded to the nearest raw
/// unit.
#[verifier::when_used_as_spec(spec_resize)]
pub fn resize(x: i64, y: i64, length: i64) -> (r: (i64, i64))
    ensures
        r == spec_resize(x, y, length),
        norm_sq(x as int, y as int) < NORM_EPSILON_SQ ==> r == (0i64, 0i64),
        norm_sq(x as int, y as int) >= NORM_EPSILON_SQ && makeable(length as int) ==> has_length(
            r.0,
            r.1,
            length as int,
        ),
{
    proof {
        if norm_sq(x as int, y as int) >= NORM_EPSILON_SQ && makeable(length as int) {
            lemma_resize_has_length(x, y, length);
        }
    }
    let ax = magnitude(x as i128);
    let ay = magnitude(y as i128);
    assert(ax * ax <= 0x4000_0000_0000_0000_0000_0000_0000_0000 && ax * ax == x * x)
        by (nonlinear_arith)
        requires
            0 <= ax <= 0x8000_0000_0000_0000,
            ax == x || ax == -x,
    ;
    assert(ay * ay <= 0x4000_0000_0000_0000_0000_0000_0000_0000 && ay * ay == y * y)
        by (nonlinear_arith)
        requires
            0 <= ay <= 0x8000_0000_0000_0000,
            ay == y || ay == -y,
    ;
    let n = ax * ax + ay * ay;
    if n < NORM_EPSILON_SQ {
        return (0, 0);
    }
    let short = n < SHORT_SQ;
    let k: i128 = if short { ROOT_BOOST as i128 } else { 1 };
    proof {
        if short {
            assert(ax < 0x1_0000_0000 && ay < 0x1_0000_0000) by (nonlinear_arith)
                requires
                    ax * ax + ay * ay < 0x1_0000_0000_0000_0000,
                    0 <= ax,
                    0 <= ay,
            ;
        }
    }
    let sx: u128 = ax * (k as u128);
    let sy: u128 = ay * (k as u128);
    assert(sx * sx + sy * sy == n * k * k && sx * sx <= 0x4000_0000_0000_0000_0000_0000_0000_0000
        && sy * sy <= 0x4000_0000_0000_0000_0000_0000_0000_0000) by (nonlinear_arith)
        requires
            sx == ax * k,
            sy == ay * k,
            n == ax * ax + ay * ay,
            0 <= sx <= 0x8000_0000_0000_0000,
            0 <= sy <= 0x8000_0000_0000_0000,
    ;
    let m = isqrt(sx * sx + sy * sy);
    proof {
        let mm = m as int;
        assert(mm > 0) by (nonlinear_arith)
            requires
                n * k * k >= 100_000_000,
                n * k * k < (mm + 1) * (mm + 1),
                0 <= mm,
        ;
    }
    let wx: i128 = x as i128 * k;
    let wy: i128 = y as i128 * k;
    let wl: i128 = length as i128;
    assert(-0x4000_0000_0000_0000_0000_0000_0000_0000 <= wl * wx
        <= 0x4000_0000_0000_0000_0000_0000_0000_0000) by (nonlinear_arith)
        requires
            -0x8000_0000_0000_0000 <= wl <= 0x8000_0000_0000_0000,
            -0x8000_0000_0000_0000 <= wx <= 0x8000_0000_0000_0000,
    ;
    assert(-0x4000_0000_0000_0000_0000_0000_0000_0000 <= wl * wy
        <= 0x4000_0000_0000_0000_0000_0000_0000_0000) by (nonlinear_arith)
        requires
            -0x8000_0000_0000_0000 <= wl <= 0x8000_0000_0000_0000,
            -0x8000_0000_0000_0000 <= wy <= 0x8000_0000_0000_0000,
    ;
    (saturate(round_quotient(wl * wx, m as u128)), saturate(round_quotient(wl * wy, m as u128)))
}

/// Normalizes `(x, y)`: the zero vector where its squared length is below
/// [`NORM_EPSILON_SQ`], else the vector of length one that points the same
/// way.
#[verifier::when_used_as_spec(spec_norm)]
pub fn norm(x: i64, y: i64) -> (r: (i64, i64))
    ensures
        r == spec_norm(x, y),
        x == 0 && y == 0 ==> r == (0i64, 0i64),
        norm_sq(x as int, y as int) < NORM_EPSILON_SQ ==> r == (0i64, 0i64),
        norm_sq(x as int, y as int) >= NORM_EPSILON_SQ ==> is_unit(r.0, r.1),
{
    proof {
        assert(norm_sq(0, 0) == 0) by (nonlinear_arith);
    }
    resize(x, y, SCALE)
}

/// The distance between `(x0, y0)` and `(x1, y1)`, rounded down to a whole
/// raw unit; `u64::MAX` where the distance exceeds it.
#[verifier::when_used_as_spec(spec_dis)]
pub fn dis(x0: i64, y0: i64, x1: i64, y1: i64) -> (r: u64)
    ensures
        r == spec_dis(x0, y0, x1, y1),
{
    let dx = magnitude(x0 as i128 - x1 as i128);
    let dy = magnitude(y0 as i128 - y1 as i128);
    assert(dx * dx <= 0xffff_ffff_ffff_ffff * 0xffff_ffff_ffff_ffff && dx * dx == (x0 - x1) * (x0
        - x1)) by (nonlinear_arith)
        requires
            0 <= dx <= 0xffff_ffff_ffff_ffff,
            dx == x0 - x1 || dx == -(x0 - x1),
    ;
    assert(dy * dy <= 0xffff_ffff_ffff_ffff * 0xffff_ffff_ffff_ffff && dy * dy == (y0 - y1) * (y0
        - y1)) by (nonlinear_arith)
        requires
            0 <= dy <= 0xffff_ffff_ffff_ffff,
            dy == y0 - y1 || dy == -(y0 - y1),
    ;
    let dx2 = dx * dx;
    let dy2 = dy * dy;
    if dx2 > u128::MAX - dy2 {
        proof {
            let big: nat = 0x1_0000_0000_0000_0000_0000_0000_0000_0000nat;
            let d2 = norm_sq(x0 - x1, y0 - y1) as nat;
            assert(is_sqrt_floor(big, 0x1_0000_0000_0000_0000)) by (nonlinear_arith)
                requires
                    big == 0x1_0000_0000_0000_0000_0000_0000_0000_0000nat,
            ;
            lemma_sqrt_floor_is(big, 0x1_0000_0000_0000_0000);
            lemma_sqrt_floor_monotonic(big, d2);
        }
        return u64::MAX;
    }
    isqrt(dx2 + dy2)
}

/// Whether `(x0, y0)` and `(x1, y1)` lie no further apart than `radius`.
/// The comparison is exact: it is made on the squares.
#[verifier::when_used_as_spec(spec_within)]
pub fn within(x0: i64, y0: i64, x1: i64, y1: i64, radius: i64) -> (r: bool)
    ensures
        r == spec_within(x0, y0, x1, y1, radius),
{
    if radius < 0 {
        return false;
    }
    let reach = radius as u128;
    let dx = magnitude(x0 as i128 - x1 as i128);
    let dy = magnitude(y0 as i128 - y1 as i128);
    assert(dx * dx == (x0 - x1) * (x0 - x1)) by (nonlinear_arith)
        requires
            dx == x0 - x1 || dx == -(x0 - x1),
    ;
    assert(dy * dy == (y0 - y1) * (y0 - y1)) by (nonlinear_arith)
        requires
            dy == y0 - y1 || dy == -(y0 - y1),
    ;
    if dx > reach {
        assert(dx * dx > reach * reach) by (nonlinear_arith)
            requires
                dx > reach,
                reach >= 0,
        ;
        assert(dy * dy >= 0) by (nonlinear_arith);
        return false;
    }
    if dy > reach {
        assert(dy * dy > reach * reach) by (nonlinear_arith)
            requires
                dy > reach,
                reach >= 0,
        ;
        assert(dx * dx >= 0) by (nonlinear_arith);
        return false;
    }
    assert(dx * dx <= 0x4000_0000_0000_0000_0000_0000_0000_0000) by (nonlinear_arith)
        requires
            0 <= dx <= 0x8000_0000_0000_0000,
    ;
    assert(dy * dy <= 0x4000_0000_0000_0000_0000_0000_0000_0000) by (nonlinear_arith)
        requires
            0 <= dy <= 0x8000_0000_0000_0000,
    ;
    assert(reach * reach <= 0x4000_0000_0000_0000_0000_0000_0000_0000) by (nonlinear_arith)
        requires
            0 <= reach <= 0x8000_0000_0000_0000,
    ;
    dx * dx + dy * dy <= reach * reach
}

/// Turns `(x, y)` counter-clockwise by `degrees`. Each component of the
/// result is rounded once, to the nearest raw unit. A turn by nothing, or by
/// full turns, gives the vector back as it is; any turn keeps the length, up
/// to rounding.
#[verifier::when_used_as_spec(spec_rotate_vector)]
pub fn rotate_vector(x: i64, y: i64, degrees: i32) -> (r: (i64, i64))
    ensures
        r == spec_rotate_vector(x, y, degrees),
        degrees as int % 360 == 0 ==> r == (x, y),
        turnable(x, y) ==> length_kept(x, y, r.0, r.1),
{
    proof {
        if degrees as int % 360 == 0 {
            lemma_rotate_by_full_turns(x, y, degrees as int / 360);
        }
        if turnable(x, y) {
            lemma_rotate_keeps_length(x, y, degrees);
        }
    }
    let c: i128 = cos_deg(degrees) as i128;
    let s: i128 = sin_deg(degrees) as i128;
    let wx: i128 = x as i128;
    let wy: i128 = y as i128;
    proof {
        lemma_product_bound(wx as int, c as int);
        lemma_product_bound(wy as int, s as int);
        lemma_product_bound(wx as int, s as int);
        lemma_product_bound(wy as int, c as int);
    }
    let rx = round_quotient(wx * c - wy * s, TRIG_SCALE as u128);
    let ry = round_quotient(wx * s + wy * c, TRIG_SCALE as u128);
    (saturate(rx), saturate(ry))
}

/// A coordinate times a sine or cosine stays far inside the wide range.
proof fn lemma_product_bound(v: int, t: int)
    by (nonlinear_arith)
    requires
        -0x8000_0000_0000_0000 <= v <= 0x8000_0000_0000_0000,
        -1_000_000_000_000_000_000 <= t <= 1_000_000_000_000_000_000,
    ensures
        -0x8000_0000_0000_0000 * 1_000_000_000_000_000_000 <= v * t <= 0x8000_0000_0000_0000
            * 1_000_000_000_000_000_000,
{
}

/// Maps `t` from the range `min_t..max_t` onto the range `min_s..max_s`:
/// `min_s + (max_s - min_s) * (t - min_t) / (max_t - min_t)`, rounded to
/// the nearest raw unit. The range that `t` comes from must not be empty.
#[verifier::when_used_as_spec(spec_map_range)]
pub fn map_range(min_s: i64, max_s: i64, min_t: i32, max_t: i32, t: i32) -> (r: i64)
    requires
        min_t != max_t,
    ensures
        r == spec_map_range(min_s, max_s, min_t, max_t, t),
{
    let diff_s: i128 = max_s as i128 - min_s as i128;
    let diff_t: i128 = max_t as i128 - min_t as i128;
    let off_t: i128 = t as i128 - min_t as i128;
    assert(-0x1_0000_0000_0000_0000 * 0x1_0000_0000 <= diff_s * off_t <= 0x1_0000_0000_0000_0000
        * 0x1_0000_0000) by (nonlinear_arith)
        requires
            -0x1_0000_0000_0000_0000 <= diff_s <= 0x1_0000_0000_0000_0000,
            -0x1_0000_0000 <= off_t <= 0x1_0000_0000,
    ;
    let num: i128 = diff_s * off_t;
    let ratio = if diff_t > 0 {
        round_quotient(num, diff_t as u128)
    } else {
        round_quotient(-num, (-diff_t) as u128)
    };
    saturate(min_s as i128 + ratio)
}

/// Squares keep the order of numbers that are not negative.
proof fn lemma_square_le(a: int, b: int)
    by (nonlinear_arith)
    requires
        0 <= a <= b,
    ensures
        a * a <= b * b,
{
}

/// The square of a product is the product of the squares.
proof fn lemma_square_of_product(a: int, b: int)
    by (nonlinear_arith)
    ensures
        (a * b) * (a * b) == (a * a) * (b * b),
{
}

/// The square of a difference.
proof fn lemma_square_of_difference(a: int, b: int)
    by (nonlinear_arith)
    ensures
        (a - b) * (a - b) == a * a - 2 * (a * b) + b * b,
        (a + b) * (a + b) == a * a + 2 * (a * b) + b * b,
{
}

/// Four factors may be paired either way.
proof fn lemma_swap_pairs(x: int, c: int, y: int, s: int)
    ensures
        (x * c) * (y * s) == (x * s) * (y * c),
{
    assert((x * c) * (y * s) == x * (c * (y * s))) by (nonlinear_arith);
    assert(c * (y * s) == s * (y * c)) by (nonlinear_arith);
    assert(x * (s * (y * c)) == (x * s) * (y * c)) by (nonlinear_arith);
}

/// The product of two sums, written out.
proof fn lemma_product_of_sums(a: int, b: int, c: int, d: int)
    by (nonlinear_arith)
    ensures
        (a + b) * (c + d) == a * c + a * d + b * c + b * d,
{
}

/// Turning the vector `(x, y)` by an angle with cosine `c` and sine `s`
/// multiplies its squared length by `c^2 + s^2`.
proof fn lemma_rotation_identity(x: int, y: int, c: int, s: int)
    ensures
        (x * c - y * s) * (x * c - y * s) + (x * s + y * c) * (x * s + y * c) == (x * x + y * y)
            * (c * c + s * s),
{
    lemma_square_of_difference(x * c, y * s);
    lemma_square_of_difference(x * s, y * c);
    lemma_swap_pairs(x, c, y, s);
    lemma_square_of_product(x, c);
    lemma_square_of_product(y, s);
    lemma_square_of_product(x, s);
    lemma_square_of_product(y, c);
    lemma_product_of_sums(x * x, y * y, c * c, s * s);
}

/// A factor that is not negative keeps the order.
proof fn lemma_scale_le(a: int, b: int, f: int)
    by (nonlinear_arith)
    requires
        a <= b,
        f >= 0,
    ensures
        a * f <= b * f,
{
}

/// Rounding to the nearest whole number misses by at most a half.
proof fn lemma_round_div_error(n: int, d: int)
    requires
        d > 0,
    ensures
        -d <= 2 * d * round_div(n, d) - 2 * n <= d,
{
    let a = abs(n);
    let z = (2 * a + d) / (2 * d);
    vstd::arithmetic::div_mod::lemma_fundamental_div_mod(2 * a + d, 2 * d);
    vstd::arithmetic::div_mod::lemma_mod_bound(2 * a + d, 2 * d);
    assert((2 * d) * z == 2 * d * z && 2 * d * (-z) == -(2 * d * z)) by (nonlinear_arith);
}

/// A multiple of `d` divides by `d` without rounding.
proof fn lemma_round_div_of_multiple(v: int, d: int)
    requires
        d > 0,
    ensures
        round_div(v * d, d) == v,
{
    let a = abs(v);
    assert(a * d >= 0 && (v >= 0 ==> v * d == a * d) && (v < 0 ==> v * d < 0 && -(v * d) == a
        * d) && 2 * (a * d) + d == (2 * d) * a + d) by (nonlinear_arith)
        requires
            d > 0,
            a == abs(v),
    ;
    vstd::arithmetic::div_mod::lemma_fundamental_div_mod_converse(2 * (a * d) + d, 2 * d, a, d);
}

/// A number whose square is at most that of `w` is at most `w` in
/// magnitude.
proof fn lemma_root_bound(z: int, w: int)
    by (nonlinear_arith)
    requires
        w >= 0,
        z * z <= w * w,
    ensures
        -w <= z <= w,
{
}

/// A common positive factor can be dropped from an inequality.
proof fn lemma_cancel_le(a: int, b: int, f: int)
    by (nonlinear_arith)
    requires
        f > 0,
        a * f <= b * f,
    ensures
        a <= b,
{
}

/// The square of a sum of two vectors' components, written out.
proof fn lemma_square_of_shifted(p: int, q: int, u: int, v: int)
    by (nonlinear_arith)
    ensures
        (p + u) * (p + u) + (q + v) * (q + v) == (p * p + q * q) + 2 * (p * u + q * v) + (u * u + v
            * v),
{
}

/// The inner product of two vectors is at most the product of their
/// lengths, here in squares.
proof fn lemma_inner_product(p: int, q: int, u: int, v: int)
    ensures
        (p * u + q * v) * (p * u + q * v) <= (p * p + q * q) * (u * u + v * v),
{
    lemma_rotation_identity(p, -q, u, v);
    assert(p * u - (-q) * v == p * u + q * v && (-q) * (-q) == q * q) by (nonlinear_arith);
    assert((p * v + (-q) * u) * (p * v + (-q) * u) >= 0) by (nonlinear_arith);
}

/// A vector whose two components are each rounded by at most `e`, in
/// doubled scale: where `(a, b)` misses `(p, q)` by at most `e` in each
/// component, and the inner product with the miss is at most `w`, the
/// squared lengths differ by at most `2 * w + 2 * e * e`.
proof fn lemma_rounded_vector(a: int, b: int, p: int, q: int, e: int, w: int)
    requires
        e >= 0,
        -e <= a - p <= e,
        -e <= b - q <= e,
        w >= 0,
        (p * p + q * q) * (2 * (e * e)) <= w * w,
    ensures
        p * p + q * q - 2 * w <= a * a + b * b <= p * p + q * q + 2 * w + 2 * (e * e),
{
    let u = a - p;
    let v = b - q;
    lemma_square_of_shifted(p, q, u, v);
    lemma_inner_product(p, q, u, v);
    assert(0 <= u * u <= e * e && 0 <= v * v <= e * e) by (nonlinear_arith)
        requires
            -e <= u <= e,
            -e <= v <= e,
    ;
    let g = p * p + q * q;
    assert(g >= 0) by (nonlinear_arith)
        requires
            g == p * p + q * q,
    ;
    lemma_scale_le(u * u + v * v, 2 * (e * e), g);
    assert(g * (u * u + v * v) == (u * u + v * v) * g && g * (2 * (e * e)) == (2 * (e * e)) * g)
        by (nonlinear_arith);
    lemma_root_bound(p * u + q * v, w);
}

/// The stretched length of a vector that has a direction is at least
/// `2^32`, and it is the length of the stretched vector, rounded down.
pub proof fn lemma_stretched_length(x: i64, y: i64)
    requires
        norm_sq(x as int, y as int) >= NORM_EPSILON_SQ,
    ensures
        ({
            let k = boost(norm_sq(x as int, y as int));
            let m = stretched_length(x as int, y as int);
            &&& m >= 0x1_0000_0000
            &&& m * m <= (x * k) * (x * k) + (y * k) * (y * k) < (m + 1) * (m + 1)
        }),
{
    let n = norm_sq(x as int, y as int);
    let k = boost(n);
    let stretched = n * k * k;
    assert(stretched == (x * k) * (x * k) + (y * k) * (y * k)) by (nonlinear_arith)
        requires
            stretched == n * k * k,
            n == x * x + y * y,
    ;
    assert(stretched >= 0x1_0000_0000_0000_0000) by (nonlinear_arith)
        requires
            stretched == n * k * k,
            n >= 100_000_000,
            (k == 1 && n >= 0x1_0000_0000_0000_0000) || k == 0x8000_0000,
    ;
    lemma_sqrt_floor_exists(stretched as nat);
    let m = sqrt_floor(stretched as nat) as int;
    if m < 0x1_0000_0000 {
        lemma_square_le(m + 1, 0x1_0000_0000);
    }
}

/// A vector made to a length has that length, up to rounding.
pub proof fn lemma_resize_has_length(x: i64, y: i64, length: i64)
    requires
        norm_sq(x as int, y as int) >= NORM_EPSILON_SQ,
        makeable(length as int),
    ensures
        has_length(spec_resize(x, y, length).0, spec_resize(x, y, length).1, length as int),
{
    let n = norm_sq(x as int, y as int);
    let k = boost(n);
    let m = stretched_length(x as int, y as int);
    lemma_stretched_length(x, y);
    let l = length as int;
    let len = abs(l);
    let sx = x * k;
    let sy = y * k;
    let stretched = sx * sx + sy * sy;
    let a = round_div(l * sx, m);
    let b = round_div(l * sy, m);
    lemma_round_div_error(l * sx, m);
    lemma_round_div_error(l * sy, m);
    // in doubled scale: what is made, and what is meant
    let da = 2 * m * a;
    let db = 2 * m * b;
    let p = 2 * (l * sx);
    let q = 2 * (l * sy);
    let g = p * p + q * q;
    let ll = len * len;
    let mm = m * m;
    let m1 = (m + 1) * (m + 1);
    assert(g == 4 * (ll * stretched)) by (nonlinear_arith)
        requires
            g == p * p + q * q,
            p == 2 * (l * sx),
            q == 2 * (l * sy),
            stretched == sx * sx + sy * sy,
            ll == len * len,
            len == l || len == -l,
    ;
    assert(ll >= 0) by (nonlinear_arith)
        requires
            ll == len * len,
    ;
    lemma_scale_le(mm, stretched, ll);
    lemma_scale_le(stretched, m1, ll);
    assert(ll * stretched == stretched * ll);
    assert(4 * (mm * ll) <= g <= 4 * (m1 * ll));
    // the products that the bounds are made of
    let lm = len * m;
    let lmm = lm * m;
    let llm = ll * m;
    let llmm = llm * m;
    assert(mm * ll == llmm && m1 * ll == llmm + 2 * llm + ll && lmm == len * mm && mm * (len + 1)
        * (len + 1) == llmm + 2 * lmm + mm && mm * (len - 1) * (len - 1) == llmm - 2 * lmm + mm)
        by (nonlinear_arith)
        requires
            lm == len * m,
            lmm == lm * m,
            llm == ll * m,
            llmm == llm * m,
            ll == len * len,
            mm == m * m,
            m1 == (m + 1) * (m + 1),
    ;
    // the inner product with the miss is at most 3 * len * m * (m + 1)
    let h = lmm + lm;
    let w = 3 * h;
    assert(h * h == m1 * ll * mm) by (nonlinear_arith)
        requires
            h == lmm + lm,
            lm == len * m,
            lmm == lm * m,
            ll == len * len,
            mm == m * m,
            m1 == (m + 1) * (m + 1),
    ;
    assert(mm >= 0) by (nonlinear_arith)
        requires
            mm == m * m,
    ;
    lemma_scale_le(g, 4 * (m1 * ll), 2 * mm);
    assert(g * (2 * (m * m)) == g * (2 * mm));
    assert(4 * (m1 * ll) * (2 * mm) == 8 * (m1 * ll * mm) && w * w == 9 * (h * h)) by (
        nonlinear_arith)
        requires
            w == 3 * h,
    ;
    assert(h * h >= 0) by (nonlinear_arith);
    assert(h >= 0 && lm >= 0 && lmm >= 0 && llm >= 0) by (nonlinear_arith)
        requires
            h == lmm + lm,
            lm == len * m,
            lmm == lm * m,
            llm == ll * m,
            ll == len * len,
            len >= 0,
            m >= 0,
    ;
    lemma_rounded_vector(da, db, p, q, m, w);
    // how the products compare, for a length between 3 and 2^29 and a
    // stretched length of at least 2^32
    assert(lmm >= 3 * mm && mm >= 3 * lm && lmm >= 8 * llm && lm >= ll && lmm >= 10 * lm) by (
        nonlinear_arith)
        requires
            lm == len * m,
            lmm == lm * m,
            llm == ll * m,
            ll == len * len,
            mm == m * m,
            3 <= len <= 0x2000_0000,
            m >= 0x1_0000_0000,
    ;
    // back to single scale
    let t = a * a + b * b;
    assert(da * da + db * db == t * (4 * mm)) by (nonlinear_arith)
        requires
            da == 2 * m * a,
            db == 2 * m * b,
            t == a * a + b * b,
            mm == m * m,
    ;
    assert(t * (4 * mm) <= (len + 1) * (len + 1) * (4 * mm)) by (nonlinear_arith)
        requires
            t * (4 * mm) <= 4 * (llmm + 2 * llm + ll) + 2 * w + 2 * mm,
            w == 3 * (lmm + lm),
            mm * (len + 1) * (len + 1) == llmm + 2 * lmm + mm,
            lmm >= 8 * llm,
            lm >= ll,
            lmm >= 10 * lm,
            mm >= 0,
            lm >= 0,
    ;
    assert((len - 1) * (len - 1) * (4 * mm) <= t * (4 * mm)) by (nonlinear_arith)
        requires
            t * (4 * mm) >= 4 * llmm - 2 * w,
            w == 3 * (lmm + lm),
            mm * (len - 1) * (len - 1) == llmm - 2 * lmm + mm,
            lmm >= 3 * mm,
            mm >= 3 * lm,
    ;
    assert(4 * mm > 0) by (nonlinear_arith)
        requires
            mm == m * m,
            m >= 0x1_0000_0000,
    ;
    lemma_cancel_le(t, (len + 1) * (len + 1), 4 * mm);
    lemma_cancel_le((len - 1) * (len - 1), t, 4 * mm);
    // nothing is cut off at the ends of the range
    assert(t <= 0x2000_0001 * 0x2000_0001) by (nonlinear_arith)
        requires
            t <= (len + 1) * (len + 1),
            0 <= len <= 0x2000_0000,
    ;
    assert(-0x2000_0001 <= a <= 0x2000_0001 && -0x2000_0001 <= b <= 0x2000_0001) by (
        nonlinear_arith)
        requires
            t == a * a + b * b,
            t <= 0x2000_0001 * 0x2000_0001,
    ;
}

/// Each component of a vector made to a length is within half a raw unit
/// of `length * x * k / m`, where `k` stretches the vector and `m` is its
/// stretched length. It is written without a fraction, and doubled to
/// spare the half.
pub proof fn lemma_resize_is_near(x: i64, y: i64, length: i64)
    requires
        norm_sq(x as int, y as int) >= NORM_EPSILON_SQ,
    ensures
        ({
            let k = boost(norm_sq(x as int, y as int));
            let m = stretched_length(x as int, y as int);
            let a = round_div(length * (x * k), m);
            let b = round_div(length * (y * k), m);
            &&& m > 0
            &&& -m <= 2 * m * a - 2 * (length * (x * k)) <= m
            &&& -m <= 2 * m * b - 2 * (length * (y * k)) <= m
            &&& spec_resize(x, y, length) == (clamp(a), clamp(b))
        }),
{
    lemma_stretched_length(x, y);
    let k = boost(norm_sq(x as int, y as int));
    let m = stretched_length(x as int, y as int);
    lemma_round_div_error(length * (x * k), m);
    lemma_round_div_error(length * (y * k), m);
}

/// A vector made to no length at all is the zero vector.
pub proof fn lemma_resize_to_nothing(x: i64, y: i64)
    ensures
        spec_resize(x, y, 0) == (0i64, 0i64),
{
    if norm_sq(x as int, y as int) >= NORM_EPSILON_SQ {
        lemma_stretched_length(x, y);
        let k = boost(norm_sq(x as int, y as int));
        let m = stretched_length(x as int, y as int);
        assert(0 * (x * k) == 0 && 0 * (y * k) == 0) by (nonlinear_arith);
        vstd::arithmetic::div_mod::lemma_fundamental_div_mod_converse(m, 2 * m, 0, m);
    }
}

/// A vector too short to have a direction normalizes to the zero vector;
/// the zero vector itself does.
pub proof fn lemma_norm_of_short_is_zero(x: i64, y: i64)
    requires
        norm_sq(x as int, y as int) < NORM_EPSILON_SQ,
    ensures
        spec_norm(x, y) == (0i64, 0i64),
        spec_norm(0, 0) == (0i64, 0i64),
{
    assert(norm_sq(0, 0) == 0) by (nonlinear_arith);
}

/// A direction has length one, up to rounding.
pub proof fn lemma_norm_is_unit(x: i64, y: i64)
    requires
        norm_sq(x as int, y as int) >= NORM_EPSILON_SQ,
    ensures
        is_unit(spec_norm(x, y).0, spec_norm(x, y).1),
        has_length(spec_norm(x, y).0, spec_norm(x, y).1, SCALE as int),
{
    lemma_resize_has_length(x, y, SCALE);
    assert(999_999 * 999_999 == 999_998_000_001 && 1_000_001 * 1_000_001 == 1_000_002_000_001)
        by (nonlinear_arith);
}

/// Turning by no angle at all, or by full turns, changes nothing.
pub proof fn lemma_rotate_by_full_turns(x: i64, y: i64, turns: int)
    requires
        i32::MIN <= 360 * turns <= i32::MAX,
    ensures
        spec_rotate_vector(x, y, (360 * turns) as i32) == (x, y),
        spec_rotate_vector(x, y, 0) == (x, y),
{
    let deg = 360 * turns;
    vstd::arithmetic::div_mod::lemma_fundamental_div_mod_converse(deg, 360, turns, 0);
    vstd::arithmetic::div_mod::lemma_fundamental_div_mod_converse(deg + 90, 360, turns, 90);
    assert(spec_sin_deg(deg) == 0);
    assert(spec_cos_deg(deg) == TRIG_SCALE);
    assert(spec_sin_deg(0) == 0);
    assert(spec_cos_deg(0) == TRIG_SCALE);
    assert(x * TRIG_SCALE - y * 0 == x * TRIG_SCALE && x * 0 + y * TRIG_SCALE == y * TRIG_SCALE)
        by (nonlinear_arith);
    lemma_round_div_of_multiple(x as int, TRIG_SCALE as int);
    lemma_round_div_of_multiple(y as int, TRIG_SCALE as int);
}

/// The integer square root of a number between two squares lies between
/// their roots.
proof fn lemma_sqrt_floor_between(t: int, low: int, high: int)
    requires
        0 <= low,
        low * low <= t < high * high,
        0 <= high,
    ensures
        low <= sqrt_floor(t as nat) < high,
{
    lemma_sqrt_floor_exists(t as nat);
    let g = sqrt_floor(t as nat) as int;
    if g < low {
        lemma_square_le(g + 1, low);
    }
    if g >= high {
        lemma_square_le(high, g);
    }
}

/// A number whose square is at most `t` is at most the root of `t` that
/// bounds it.
proof fn lemma_component_bound(a: int, b: int, bound: int)
    by (nonlinear_arith)
    requires
        bound >= 0,
        a * a + b * b < bound * bound,
    ensures
        -bound < a < bound,
        -bound < b < bound,
{
}

/// What the rounding of a turned vector does to its squared length. With
/// `n` the squared length before and `t` after, and `h` the length before,
/// rounded down: `t` lies between `(h - 2)^2` and `(h + 2)^2`. No component
/// leaves the range of a number.
pub proof fn lemma_rotate_squares(x: i64, y: i64, degrees: i32)
    requires
        -100_000_000_000_000_000 <= x <= 100_000_000_000_000_000,
        -100_000_000_000_000_000 <= y <= 100_000_000_000_000_000,
    ensures
        ({
            let c = spec_cos_deg(degrees as int);
            let s = spec_sin_deg(degrees as int);
            let a = round_div(x * c - y * s, TRIG_SCALE as int);
            let b = round_div(x * s + y * c, TRIG_SCALE as int);
            let h = sqrt_floor(norm_sq(x as int, y as int) as nat) as int;
            &&& spec_rotate_vector(x, y, degrees) == (a as i64, b as i64)
            &&& a as i64 == a
            &&& b as i64 == b
            &&& a * a + b * b < (h + 2) * (h + 2)
            &&& h >= 3 ==> (h - 2) * (h - 2) <= a * a + b * b
            &&& -TRIG_SCALE <= 2 * TRIG_SCALE * a - 2 * (x * c - y * s) <= TRIG_SCALE
            &&& -TRIG_SCALE <= 2 * TRIG_SCALE * b - 2 * (x * s + y * c) <= TRIG_SCALE
        }),
{
    let c = spec_cos_deg(degrees as int);
    let s = spec_sin_deg(degrees as int);
    lemma_sin_cos_bounds(degrees as int);
    lemma_unit_circle(degrees as int);
    let one: int = 1_000_000_000_000_000_000;
    let unit: int = 1_000_000_000_000_000_000_000_000_000_000_000_000int;
    let slack: int = UNIT_CIRCLE_SLACK as int;
    let n = norm_sq(x as int, y as int);
    assert(0 <= n <= 20_000_000_000_000_000_000_000_000_000_000_000) by (nonlinear_arith)
        requires
            n == x * x + y * y,
            -100_000_000_000_000_000 <= x <= 100_000_000_000_000_000,
            -100_000_000_000_000_000 <= y <= 100_000_000_000_000_000,
    ;
    lemma_sqrt_floor_exists(n as nat);
    let h = sqrt_floor(n as nat) as int;
    if h >= 200_000_000_000_000_000 {
        lemma_square_le(200_000_000_000_000_000, h);
    }
    assert(0 <= h < 200_000_000_000_000_000);
    let hh = h * h;
    assert(hh <= n <= hh + 2 * h) by (nonlinear_arith)
        requires
            hh == h * h,
            hh <= n < (h + 1) * (h + 1),
    ;
    // what is meant, before the rounding
    let xt = x * c - y * s;
    let yt = x * s + y * c;
    lemma_rotation_identity(x as int, y as int, c, s);
    let circle = c * c + s * s;
    assert(unit - slack <= circle <= unit + slack);
    assert(xt * xt + yt * yt == n * circle);
    let a = round_div(xt, one);
    let b = round_div(yt, one);
    lemma_round_div_error(xt, one);
    lemma_round_div_error(yt, one);
    // in doubled scale
    let da = 2 * one * a;
    let db = 2 * one * b;
    let p = 2 * xt;
    let q = 2 * yt;
    let g = p * p + q * q;
    assert(g == 4 * (n * circle)) by (nonlinear_arith)
        requires
            g == p * p + q * q,
            p == 2 * xt,
            q == 2 * yt,
            xt * xt + yt * yt == n * circle,
    ;
    lemma_scale_le(circle, unit + slack, n);
    lemma_scale_le(unit - slack, circle, n);
    assert(n * circle == circle * n);
    // the products that the bounds are made of
    let hs = h * slack;
    let hhs = hh * slack;
    assert(0 <= hs <= unit / 4 && hhs == h * hs && 0 <= hhs && (unit + slack) * n == unit * n
        + slack * n && (unit - slack) * n == unit * n - slack * n && slack * n <= hhs + 2 * hs
        && slack * n >= 0) by (nonlinear_arith)
        requires
            hs == h * slack,
            hhs == hh * slack,
            hh == h * h,
            0 <= h < 200_000_000_000_000_000,
            slack == 1_133_759_066_578_938_848,
            unit == 1_000_000_000_000_000_000_000_000_000_000_000_000int,
            hh <= n <= hh + 2 * h,
    ;
    lemma_scale_le(hs, unit / 4, h);
    assert(hhs <= (unit / 4) * h);
    // the inner product with the miss is at most 3 * (h + 1) * unit
    let w = 3 * ((h + 1) * unit);
    assert(g * (2 * (one * one)) <= w * w) by (nonlinear_arith)
        requires
            0 <= g <= 4 * ((unit + slack) * n),
            n < (h + 1) * (h + 1),
            w == 3 * ((h + 1) * unit),
            one == 1_000_000_000_000_000_000,
            unit == 1_000_000_000_000_000_000_000_000_000_000_000_000int,
            slack == 1_133_759_066_578_938_848,
            h >= 0,
    {
        let e = (h + 1) * (h + 1);
        assert((unit + slack) * n <= (unit + slack) * e);
        assert(8 * (unit + slack) <= 9 * unit);
        assert(one * one == unit);
        assert(w * w == 9 * unit * (unit * e));
        assert(g * (2 * unit) <= 8 * (unit + slack) * e * unit);
        assert(8 * (unit + slack) * (e * unit) <= 9 * unit * (e * unit));
    }
    assert(g >= 0) by (nonlinear_arith)
        requires
            g == p * p + q * q,
    ;
    lemma_rounded_vector(da, db, p, q, one, w);
    let t = a * a + b * b;
    assert(da * da + db * db == t * (4 * unit) && 2 * (one * one) == 2 * unit) by (
        nonlinear_arith)
        requires
            da == 2 * one * a,
            db == 2 * one * b,
            t == a * a + b * b,
            one == 1_000_000_000_000_000_000,
            unit == 1_000_000_000_000_000_000_000_000_000_000_000_000int,
    ;
    // from above
    let hu = h * unit;
    let hhu = hh * unit;
    assert(unit * n <= hhu + 2 * hu && unit * n >= hhu && hhu == h * hu && (h + 2) * (h + 2) * (4
        * unit) == 4 * hhu + 16 * hu + 16 * unit && (h - 2) * (h - 2) * (4 * unit) == 4 * hhu
        - 16 * hu + 16 * unit && w == 3 * hu + 3 * unit && (unit / 4) * h * 4 == hu) by (
        nonlinear_arith)
        requires
            hu == h * unit,
            hhu == hh * unit,
            hh == h * h,
            hh <= n <= hh + 2 * h,
            w == 3 * ((h + 1) * unit),
            unit == 1_000_000_000_000_000_000_000_000_000_000_000_000int,
    ;
    assert(t * (4 * unit) < (h + 2) * (h + 2) * (4 * unit));
    lemma_cancel_lt(t, (h + 2) * (h + 2), 4 * unit);
    if h >= 3 {
        assert((h - 2) * (h - 2) * (4 * unit) <= t * (4 * unit)) by (nonlinear_arith)
            requires
                t * (4 * unit) >= 4 * (unit * n - slack * n) - 2 * w,
                unit * n >= hhu,
                slack * n <= hhs + 2 * hs,
                hhs * 4 <= hu,
                hs * 4 <= unit,
                w == 3 * hu + 3 * unit,
                (h - 2) * (h - 2) * (4 * unit) == 4 * hhu - 16 * hu + 16 * unit,
                hu == h * unit,
                h >= 3,
                unit > 0,
        ;
        lemma_cancel_le((h - 2) * (h - 2), t, 4 * unit);
    }
    lemma_component_bound(a, b, h + 2);
}

/// Turning a vector keeps its length, up to rounding.
pub proof fn lemma_rotate_keeps_length(x: i64, y: i64, degrees: i32)
    requires
        turnable(x, y),
    ensures
        length_kept(
            x,
            y,
            spec_rotate_vector(x, y, degrees).0,
            spec_rotate_vector(x, y, degrees).1,
        ),
{
    lemma_rotate_squares(x, y, degrees);
    let r = spec_rotate_vector(x, y, degrees);
    let t = norm_sq(r.0 as int, r.1 as int);
    let h = sqrt_floor(norm_sq(x as int, y as int) as nat) as int;
    lemma_square_of_abs(r.0 as int);
    lemma_square_of_abs(r.1 as int);
    if h >= 3 {
        lemma_sqrt_floor_between(t, h - 2, h + 2);
    } else {
        lemma_sqrt_floor_between(t, 0, h + 2);
    }
}

/// Turning `(x, y)` and then turning the result back multiplies either
/// component by `c^2 + s^2`.
proof fn lemma_turn_back(x: int, y: int, c: int, s: int)
    ensures
        (x * c - y * s) * c + (x * s + y * c) * s == x * (c * c + s * s),
        (x * s + y * c) * c - (x * c - y * s) * s == y * (c * c + s * s),
{
    assert((x * c - y * s) * c == x * (c * c) - (y * s) * c && (x * s + y * c) * s == x * (s * s)
        + (y * c) * s && (y * s) * c == (y * c) * s) by (nonlinear_arith);
    assert((x * s + y * c) * c == (x * s) * c + y * (c * c) && (x * c - y * s) * s == (x * c) * s
        - y * (s * s) && (x * s) * c == (x * c) * s) by (nonlinear_arith);
    assert(x * (c * c + s * s) == x * (c * c) + x * (s * s) && y * (c * c + s * s) == y * (c * c)
        + y * (s * s)) by (nonlinear_arith);
}

/// Where `f * a` and `f * b` are known as sums, so is `f * (a * c + b * s)`.
proof fn lemma_spread_over(
    f: int,
    a: int,
    b: int,
    c: int,
    s: int,
    x1: int,
    y1: int,
    u: int,
    v: int,
)
    requires
        f * a == 2 * x1 + u,
        f * b == 2 * y1 + v,
    ensures
        f * (a * c + b * s) == 2 * (x1 * c + y1 * s) + (u * c + v * s),
{
    assert(f * (a * c + b * s) == (f * a) * c + (f * b) * s) by (nonlinear_arith);
    assert((2 * x1 + u) * c == 2 * (x1 * c) + u * c && (2 * y1 + v) * s == 2 * (y1 * s) + v * s)
        by (nonlinear_arith);
}

/// A turn and the same turn back give the vector back, up to rounding: no
/// component is off by more than one raw unit.
pub proof fn lemma_rotate_there_and_back(x: i64, y: i64, degrees: i32)
    requires
        turnable(x, y),
        degrees > i32::MIN,
    ensures
        ({
            let there = spec_rotate_vector(x, y, degrees);
            let back = spec_rotate_vector(there.0, there.1, (-degrees) as i32);
            &&& x - 1 <= back.0 <= x + 1
            &&& y - 1 <= back.1 <= y + 1
        }),
{
    let one: int = 1_000_000_000_000_000_000;
    let unit: int = 1_000_000_000_000_000_000_000_000_000_000_000_000int;
    let slack: int = UNIT_CIRCLE_SLACK as int;
    let c = spec_cos_deg(degrees as int);
    let s = spec_sin_deg(degrees as int);
    lemma_sin_cos_bounds(degrees as int);
    lemma_sin_cos_symmetry(degrees as int);
    lemma_unit_circle(degrees as int);
    lemma_rotate_squares(x, y, degrees);
    let there = spec_rotate_vector(x, y, degrees);
    let a = there.0 as int;
    let b = there.1 as int;
    let h = sqrt_floor(norm_sq(x as int, y as int) as nat) as int;
    lemma_sqrt_floor_exists(norm_sq(x as int, y as int) as nat);
    assert(norm_sq(x as int, y as int) <= 20_000_000_000_000_000_000_000_000_000_000_000)
        by (nonlinear_arith)
        requires
            -100_000_000_000_000_000 <= x <= 100_000_000_000_000_000,
            -100_000_000_000_000_000 <= y <= 100_000_000_000_000_000,
    ;
    if h >= 200_000_000_000_000_000 {
        lemma_square_le(200_000_000_000_000_000, h);
    }
    lemma_component_bound(a, b, h + 2);
    // the way back: the cosine is the same, the sine is turned round
    let u1 = 2 * one * a - 2 * (x * c - y * s);
    let v1 = 2 * one * b - 2 * (x * s + y * c);
    let xb = a * c - b * (-s);
    let yb = a * (-s) + b * c;
    let ba = round_div(xb, one);
    let bb = round_div(yb, one);
    lemma_round_div_error(xb, one);
    lemma_round_div_error(yb, one);
    let u2 = 2 * one * ba - 2 * xb;
    let v2 = 2 * one * bb - 2 * yb;
    let e = c * c + s * s - unit;
    // 4 * unit * (ba - x) == 4 * x * e + 2 * (u1 * c + v1 * s) + 2 * one * u2
    let x1 = x * c - y * s;
    let y1 = x * s + y * c;
    lemma_turn_back(x as int, y as int, c, s);
    lemma_spread_over(2 * one, a, b, c, s, x1, y1, u1, v1);
    lemma_spread_over(2 * one, b, a, c, -s, y1, x1, v1, u1);
    assert(b * c + a * (-s) == yb && a * c + b * s == xb && y1 * c + x1 * (-s) == y1 * c - x1 * s
        && v1 * c + u1 * (-s) == v1 * c - u1 * s) by (nonlinear_arith)
        requires
            xb == a * c - b * (-s),
            yb == a * (-s) + b * c,
    ;
    assert(x * (c * c + s * s) == x * unit + x * e && y * (c * c + s * s) == y * unit + y * e)
        by (nonlinear_arith)
        requires
            e == c * c + s * s - unit,
    ;
    assert(4 * unit * ba == 2 * ((2 * one) * xb) + 2 * (one * u2) && 4 * unit * bb == 2 * ((2
        * one) * yb) + 2 * (one * v2)) by (nonlinear_arith)
        requires
            u2 == 2 * one * ba - 2 * xb,
            v2 == 2 * one * bb - 2 * yb,
            one == 1_000_000_000_000_000_000,
            unit == one * one,
    ;
    assert(4 * unit * ba - 4 * unit * x == 4 * (x * e) + 2 * (u1 * c + v1 * s) + 2 * (one * u2)
        && 4 * unit * bb - 4 * unit * y == 4 * (y * e) + 2 * (v1 * c - u1 * s) + 2 * (one * v2));
    assert(-unit <= u1 * c <= unit && -unit <= v1 * s <= unit && -unit <= v1 * c <= unit && -unit
        <= u1 * s <= unit && -unit <= one * u2 <= unit && -unit <= one * v2 <= unit && -unit <= 4
        * (x * e) <= unit && -unit <= 4 * (y * e) <= unit) by (nonlinear_arith)
        requires
            -one <= u1 <= one,
            -one <= v1 <= one,
            -one <= u2 <= one,
            -one <= v2 <= one,
            -one <= c <= one,
            -one <= s <= one,
            -slack <= e <= slack,
            -100_000_000_000_000_000 <= x <= 100_000_000_000_000_000,
            -100_000_000_000_000_000 <= y <= 100_000_000_000_000_000,
            one == 1_000_000_000_000_000_000,
            unit == 1_000_000_000_000_000_000_000_000_000_000_000_000int,
            slack == 1_133_759_066_578_938_848,
    ;
    // so either component is off by less than two
    assert(-2 < ba - x < 2 && -2 < bb - y < 2) by (nonlinear_arith)
        requires
            -7 * unit <= 4 * unit * ba - 4 * unit * x <= 7 * unit,
            -7 * unit <= 4 * unit * bb - 4 * unit * y <= 7 * unit,
            unit > 0,
    ;
}

/// A common positive factor can be dropped from a strict inequality.
proof fn lemma_cancel_lt(a: int, b: int, f: int)
    by (nonlinear_arith)
    requires
        f > 0,
        a * f < b * f,
    ensures
        a < b,
{
}

/// A number and its magnitude have the same square.
proof fn lemma_square_of_abs(v: int)
    by (nonlinear_arith)
    ensures
        abs(v) * abs(v) == v * v,
        v * v >= 0,
{
}

} // verus!
