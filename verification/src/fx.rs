//! Fixed-point scalar arithmetic.
//!
//! A scalar is an `i64` holding its value scaled by `FX_ONE` (so the integer
//! `FX_ONE` stands for 1.0). Multiplication and division rescale with exact
//! truncating integer division; every operation saturates to the `i64` range,
//! so all operations are total and their results are pinned exactly by the
//! spec functions below.

use vstd::prelude::*;

verus! {

/// The fixed-point representation of 1.0.
pub const FX_ONE: i64 = 65536;

/// The fixed-point representation of 0.5.
pub const FX_HALF: i64 = 32768;

/// Tolerance used by geometric predicates (about 1e-4).
pub const FX_EPS: i64 = 7;

/// Mathematical absolute value.
pub open spec fn abs_int(a: int) -> int {
    if a >= 0 {
        a
    } else {
        -a
    }
}

/// Saturate a mathematical integer to the `i64` range.
pub open spec fn sat64(v: int) -> int {
    if v > i64::MAX as int {
        i64::MAX as int
    } else if v < i64::MIN as int {
        i64::MIN as int
    } else {
        v
    }
}

/// Division truncating toward zero (the machine convention), total in spec.
pub open spec fn div_trunc(a: int, b: int) -> int
    recommends
        b != 0,
{
    if (a >= 0) == (b >= 0) {
        abs_int(a) / abs_int(b)
    } else {
        -(abs_int(a) / abs_int(b))
    }
}

/// What fixed-point addition returns.
pub open spec fn fadd(a: int, b: int) -> int {
    sat64(a + b)
}

/// What fixed-point subtraction returns.
pub open spec fn fsub(a: int, b: int) -> int {
    sat64(a - b)
}

/// What fixed-point negation returns.
pub open spec fn fneg(a: int) -> int {
    sat64(-a)
}

/// What fixed-point multiplication returns: the exact product rescaled by
/// `FX_ONE` with truncation, then saturated.
pub open spec fn fmul(a: int, b: int) -> int {
    sat64(div_trunc(a * b, FX_ONE as int))
}

/// What fixed-point division returns: the exact quotient scaled by `FX_ONE`
/// with truncation, then saturated.
pub open spec fn fdiv(a: int, b: int) -> int
    recommends
        b != 0,
{
    sat64(div_trunc(a * (FX_ONE as int), b))
}

/// What clamping to `[lo, hi]` returns.
pub open spec fn fclamp(v: int, lo: int, hi: int) -> int
    recommends
        lo <= hi,
{
    if v < lo {
        lo
    } else if v > hi {
        hi
    } else {
        v
    }
}

/// The integer part of a fixed-point value, truncated toward zero.
pub open spec fn fx_floor_to_int(a: int) -> int {
    div_trunc(a, FX_ONE as int)
}

/// A fixed-point value rounded to the nearest integer, halves away from zero.
pub open spec fn fx_round_spec(a: int) -> int {
    if a >= 0 {
        (a + FX_HALF as int) / (FX_ONE as int)
    } else {
        -((-a + FX_HALF as int) / (FX_ONE as int))
    }
}

/// `r` is the integer square root of `x`.
pub open spec fn is_isqrt(x: int, r: int) -> bool {
    r >= 0 && r * r <= x && (r + 1) * (r + 1) > x
}

/// The integer square root as a function (meaningful for `x >= 0`).
pub open spec fn sqrt_val(x: int) -> int {
    choose|r: int| is_isqrt(x, r)
}

/// What the square root of a fixed-point value is: the exact root of the
/// value rescaled so the result is on the fixed-point grid.
pub open spec fn fsqrt(a: int) -> int {
    sqrt_val(a * FX_ONE as int)
}

proof fn lemma_mul_i64_fits(a: int, b: int)
    requires
        -0x8000000000000000 <= a <= 0x7FFFFFFFFFFFFFFF,
        -0x8000000000000000 <= b <= 0x7FFFFFFFFFFFFFFF,
    ensures
        -0x40000000000000000000000000000000 <= a * b
            <= 0x40000000000000000000000000000000,
{
    assert(-0x40000000000000000000000000000000 <= a * b
        <= 0x40000000000000000000000000000000) by (nonlinear_arith)
        requires
            -0x8000000000000000 <= a <= 0x7FFFFFFFFFFFFFFF,
            -0x8000000000000000 <= b <= 0x7FFFFFFFFFFFFFFF,
    ;
}

proof fn lemma_sq_bound(m: int)
    requires
        0 <= m <= 0x10000000000,
    ensures
        m * m <= 0x100000000000000000000,
{
    assert(m * m <= 0x100000000000000000000) by (nonlinear_arith)
        requires
            0 <= m <= 0x10000000000,
    ;
}

fn sat_to_i64(v: i128) -> (r: i64)
    ensures
        r as int == sat64(v as int),
{
    if v > i64::MAX as i128 {
        i64::MAX
    } else if v < i64::MIN as i128 {
        i64::MIN
    } else {
        v as i64
    }
}

/// Saturating fixed-point addition.
pub fn fx_add(a: i64, b: i64) -> (r: i64)
    ensures
        r as int == fadd(a as int, b as int),
{
    sat_to_i64(a as i128 + b as i128)
}

/// Saturating fixed-point subtraction.
pub fn fx_sub(a: i64, b: i64) -> (r: i64)
    ensures
        r as int == fsub(a as int, b as int),
{
    sat_to_i64(a as i128 - b as i128)
}

/// Saturating fixed-point negation.
pub fn fx_neg(a: i64) -> (r: i64)
    ensures
        r as int == fneg(a as int),
{
    sat_to_i64(-(a as i128))
}

/// Saturating fixed-point multiplication.
pub fn fx_mul(a: i64, b: i64) -> (r: i64)
    ensures
        r as int == fmul(a as int, b as int),
{
    proof {
        lemma_mul_i64_fits(a as int, b as int);
    }
    let p: i128 = (a as i128) * (b as i128);
    let q: i128 = p / (FX_ONE as i128);
    proof {
        assert(q as int == div_trunc(a as int * b as int, FX_ONE as int));
    }
    sat_to_i64(q)
}

/// Saturating fixed-point division, truncating toward zero.
pub fn fx_div(a: i64, b: i64) -> (r: i64)
    requires
        b != 0,
    ensures
        r as int == fdiv(a as int, b as int),
{
    proof {
        lemma_mul_i64_fits(a as int, FX_ONE as int);
    }
    let n: i128 = (a as i128) * (FX_ONE as i128);
    let d: i128 = b as i128;
    let (n2, d2): (i128, i128) = if b < 0 {
        (-n, -d)
    } else {
        (n, d)
    };
    let q: i128 = n2 / d2;
    proof {
        assert(q as int == div_trunc(a as int * (FX_ONE as int), b as int));
    }
    sat_to_i64(q)
}

/// The smaller of two fixed-point values.
pub fn fx_min(a: i64, b: i64) -> (r: i64)
    ensures
        r == if a <= b { a } else { b },
{
    if a <= b {
        a
    } else {
        b
    }
}

/// The larger of two fixed-point values.
pub fn fx_max(a: i64, b: i64) -> (r: i64)
    ensures
        r == if a >= b { a } else { b },
{
    if a >= b {
        a
    } else {
        b
    }
}

/// Clamp a value into `[lo, hi]`.
pub fn fx_clamp(v: i64, lo: i64, hi: i64) -> (r: i64)
    requires
        lo <= hi,
    ensures
        r as int == fclamp(v as int, lo as int, hi as int),
{
    if v < lo {
        lo
    } else if v > hi {
        hi
    } else {
        v
    }
}

/// Saturating absolute value.
pub fn fx_abs(a: i64) -> (r: i64)
    ensures
        r as int == sat64(abs_int(a as int)),
{
    if a < 0 {
        fx_neg(a)
    } else {
        a
    }
}

/// The integer part of a fixed-point value, truncated toward zero.
pub fn fx_trunc(a: i64) -> (r: i64)
    ensures
        r as int == fx_floor_to_int(a as int),
{
    let q: i128 = (a as i128) / (FX_ONE as i128);
    proof {
        assert(q as int == div_trunc(a as int, FX_ONE as int));
    }
    q as i64
}

/// Round a fixed-point value to the nearest integer, halves away from zero.
pub fn fx_round(a: i64) -> (r: i64)
    ensures
        r as int == fx_round_spec(a as int),
{
    if a >= 0 {
        let q: i128 = (a as i128 + FX_HALF as i128) / (FX_ONE as i128);
        q as i64
    } else {
        let q: i128 = (-(a as i128) + FX_HALF as i128) / (FX_ONE as i128);
        -(q as i64)
    }
}

/// Turn an integer into the fixed-point value that stands for it.
pub fn fx_from_int(n: i64) -> (r: i64)
    ensures
        r as int == sat64(n * FX_ONE as int),
{
    proof {
        lemma_mul_i64_fits(n as int, FX_ONE as int);
    }
    sat_to_i64((n as i128) * (FX_ONE as i128))
}

/// Integer square root by binary search.
fn isqrt_u128(x: u128) -> (r: u128)
    requires
        x < 0x100000000000000000000i128 as u128,  // 2^80
    ensures
        is_isqrt(x as int, r as int),
        r < 0x10000000000u128,
{
    if x == 0 {
        return 0;
    }
    let mut lo: u128 = 0;
    let mut hi: u128 = 0x10000000000;  // 2^40, and (2^40)^2 = 2^80 > x
    proof {
        assert((0x10000000000u128 as int) * (0x10000000000u128 as int) == 0x100000000000000000000int)
            by (nonlinear_arith);
    }
    while lo + 1 < hi
        invariant
            lo < hi,
            hi <= 0x10000000000u128,
            (lo as int) * (lo as int) <= x as int,
            (hi as int) * (hi as int) > x as int,
        decreases hi - lo,
    {
        let mid: u128 = lo + (hi - lo) / 2;
        proof {
            lemma_sq_bound(mid as int);
        }
        if mid * mid <= x {
            lo = mid;
        } else {
            hi = mid;
        }
    }
    lo
}

/// The square root of a fixed-point value: the exact root of `a * FX_ONE`,
/// rounded down, which is the fixed-point root truncated to the grid.
pub fn fx_sqrt(a: i64) -> (r: i64)
    requires
        a >= 0,
    ensures
        is_isqrt(a as int * FX_ONE as int, r as int),
        r as int == fsqrt(a as int),
        r >= 0,
{
    proof {
        lemma_mul_i64_fits(a as int, FX_ONE as int);
    }
    let x: u128 = (a as u128) * (FX_ONE as u128);
    let r: u128 = isqrt_u128(x);
    proof {
        assert(is_isqrt(x as int, sqrt_val(x as int))) by {
            assert(is_isqrt(x as int, r as int));
        }
        lemma_isqrt_unique(x as int, r as int, sqrt_val(x as int));
    }
    r as i64
}

/// The fixed-point square of a value is never negative.
pub proof fn lemma_fmul_self_nonneg(a: int)
    ensures
        fmul(a, a) >= 0,
{
    assert(a * a >= 0) by (nonlinear_arith);
}

/// The integer square root is unique: two roots of the same value are equal.
pub proof fn lemma_isqrt_unique(x: int, r1: int, r2: int)
    requires
        is_isqrt(x, r1),
        is_isqrt(x, r2),
    ensures
        r1 == r2,
{
    if r1 < r2 {
        assert((r1 + 1) * (r1 + 1) <= r2 * r2) by (nonlinear_arith)
            requires
                0 <= r1,
                r1 < r2,
        ;
    }
    if r2 < r1 {
        assert((r2 + 1) * (r2 + 1) <= r1 * r1) by (nonlinear_arith)
            requires
                0 <= r2,
                r2 < r1,
        ;
    }
}

} // verus!
