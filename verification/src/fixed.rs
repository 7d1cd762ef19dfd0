//! The fixed-point scalar that the whole engine computes with.
//!
//! A value is an `i64` holding `v * 2^32`: 32 fractional bits, 31
//! integer bits and a sign ("Q32.32"). Multiplication and division
//! round toward zero; every operation saturates at `±FX_MAX` instead
//! of wrapping, so all operations are total and exactly specified.

use vstd::prelude::*;

verus! {

/// 1.0 in Q32.32, which is also the scaling factor itself.
pub const FX_ONE: i64 = 4294967296;

/// 2.0 in Q32.32.
pub const FX_TWO: i64 = 8589934592;

/// Largest representable magnitude. Saturation clamps to `[-FX_MAX, FX_MAX]`,
/// symmetric around zero so that negation never overflows.
pub const FX_MAX: i64 = 0x7fff_ffff_ffff_ffff;

/// Clamp an unbounded integer into the representable range.
pub open spec fn sat64(v: int) -> int {
    if v > FX_MAX as int {
        FX_MAX as int
    } else if v < -(FX_MAX as int) {
        -(FX_MAX as int)
    } else {
        v
    }
}

/// Integer division rounding toward zero (`b != 0`).
pub open spec fn div_trunc(a: int, b: int) -> int {
    let q = vstd::math::abs(a) as int / vstd::math::abs(b) as int;
    if (a >= 0) == (b >= 0) {
        q
    } else {
        -q
    }
}

/// Saturating fixed-point addition.
pub open spec fn fx_add(a: int, b: int) -> int {
    sat64(a + b)
}

/// Saturating fixed-point subtraction.
pub open spec fn fx_sub(a: int, b: int) -> int {
    sat64(a - b)
}

/// Saturating fixed-point negation.
pub open spec fn fx_neg(a: int) -> int {
    sat64(-a)
}

/// Saturating fixed-point product: `a * b / 2^32`, rounded toward zero.
pub open spec fn fx_mul(a: int, b: int) -> int {
    sat64(div_trunc(a * b, FX_ONE as int))
}

/// Saturating fixed-point quotient: `a * 2^32 / b`, rounded toward zero
/// (`b != 0`).
pub open spec fn fx_div(a: int, b: int) -> int {
    sat64(div_trunc(a * (FX_ONE as int), b))
}

/// Saturating division of a fixed-point value by a plain integer `k > 0`,
/// rounded toward zero.
pub open spec fn fx_divi(a: int, k: int) -> int {
    sat64(div_trunc(a, k))
}

/// Clamp a fixed-point value into `[lo, hi]`.
pub open spec fn fx_clamp(v: int, lo: int, hi: int) -> int {
    if v < lo {
        lo
    } else if v > hi {
        hi
    } else {
        v
    }
}

/// The magnitude and the sign of a product: `|a*b| == |a|*|b|`, and the
/// product is nonnegative exactly when the factors agree in sign.
pub proof fn lemma_mul_parts(a: int, b: int)
    by (nonlinear_arith)
    ensures
        vstd::math::abs(a * b) == vstd::math::abs(a) * vstd::math::abs(b),
        a * b >= 0 <==> (a >= 0 && b >= 0) || (a <= 0 && b <= 0),
{
}

/// Multiplying by zero gives exactly zero.
pub proof fn lemma_fx_mul_zero(a: int)
    ensures
        fx_mul(a, 0) == 0,
        fx_mul(0, a) == 0,
{
    assert(a * 0 == 0) by (nonlinear_arith);
    assert(0 * a == 0) by (nonlinear_arith);
}

/// Multiplying by one only saturates.
pub proof fn lemma_fx_mul_one(a: int)
    ensures
        fx_mul(a, FX_ONE as int) == sat64(a),
        fx_mul(FX_ONE as int, a) == sat64(a),
{
    lemma_mul_parts(a, FX_ONE as int);
    lemma_mul_parts(FX_ONE as int, a);
    vstd::arithmetic::div_mod::lemma_div_multiples_vanish(
        vstd::math::abs(a) as int,
        FX_ONE as int,
    );
}

/// Multiplying by two doubles exactly (up to saturation).
pub proof fn lemma_fx_mul_two(a: int)
    ensures
        fx_mul(FX_TWO as int, a) == sat64(2 * a),
        fx_mul(a, FX_TWO as int) == sat64(2 * a),
{
    lemma_mul_parts(FX_TWO as int, a);
    lemma_mul_parts(a, FX_TWO as int);
    assert(vstd::math::abs(FX_TWO as int) * vstd::math::abs(a) == (FX_ONE as int) * (2
        * vstd::math::abs(a) as int)) by (nonlinear_arith);
    vstd::arithmetic::div_mod::lemma_div_multiples_vanish(
        2 * vstd::math::abs(a) as int,
        FX_ONE as int,
    );
}

/// Dividing by one only saturates.
pub proof fn lemma_fx_div_one(a: int)
    ensures
        fx_div(a, FX_ONE as int) == sat64(a),
{
    lemma_mul_parts(a, FX_ONE as int);
    vstd::arithmetic::div_mod::lemma_div_multiples_vanish(
        vstd::math::abs(a) as int,
        FX_ONE as int,
    );
}

/// Zero divided by anything nonzero is zero.
pub proof fn lemma_fx_div_zero(b: int)
    requires
        b != 0,
    ensures
        fx_div(0, b) == 0,
{
    assert(0 * (FX_ONE as int) == 0) by (nonlinear_arith);
    vstd::arithmetic::div_mod::lemma_div_of0(vstd::math::abs(b) as int);
}

/// Magnitude of an `i64` as an unsigned value (`|i64::MIN|` still fits).
pub(crate) fn mag64(a: i64) -> (r: u128)
    ensures
        r == vstd::math::abs(a as int),
        r <= 0x8000_0000_0000_0000u128,
{
    if a >= 0 {
        a as u128
    } else {
        (-(a as i128)) as u128
    }
}

/// Reattach a sign to a magnitude, saturating at `±FX_MAX`.
pub(crate) fn from_mag(neg: bool, m: u128) -> (r: i64)
    ensures
        r as int == sat64(if neg { -(m as int) } else { m as int }),
{
    if m > FX_MAX as u128 {
        if neg {
            -FX_MAX
        } else {
            FX_MAX
        }
    } else {
        if neg {
            -(m as i64)
        } else {
            m as i64
        }
    }
}

/// Clamp a wide intermediate value back into the `i64` range.
pub(crate) fn clamp_i128(v: i128) -> (r: i64)
    ensures
        r as int == sat64(v as int),
{
    if v > FX_MAX as i128 {
        FX_MAX
    } else if v < -(FX_MAX as i128) {
        -FX_MAX
    } else {
        v as i64
    }
}

/// Saturating addition.
pub fn qadd(a: i64, b: i64) -> (r: i64)
    ensures
        r as int == fx_add(a as int, b as int),
{
    clamp_i128(a as i128 + b as i128)
}

/// Saturating subtraction.
pub fn qsub(a: i64, b: i64) -> (r: i64)
    ensures
        r as int == fx_sub(a as int, b as int),
{
    clamp_i128(a as i128 - b as i128)
}

/// Saturating negation.
pub fn qneg(a: i64) -> (r: i64)
    ensures
        r as int == fx_neg(a as int),
{
    clamp_i128(-(a as i128))
}

/// Saturating fixed-point multiplication.
pub fn qmul(a: i64, b: i64) -> (r: i64)
    ensures
        r as int == fx_mul(a as int, b as int),
{
    let neg: bool = (a < 0) != (b < 0);
    let ma: u128 = mag64(a);
    let mb: u128 = mag64(b);
    assert(ma * mb <= 0x8000_0000_0000_0000u128 * 0x8000_0000_0000_0000u128)
        by (nonlinear_arith)
        requires
            ma <= 0x8000_0000_0000_0000u128,
            mb <= 0x8000_0000_0000_0000u128,
    ;
    let p: u128 = ma * mb;
    let q: u128 = p / (FX_ONE as u128);
    proof {
        lemma_mul_parts(a as int, b as int);
    }
    from_mag(neg, q)
}

/// Saturating fixed-point division; the divisor must not be zero.
pub fn qdiv(a: i64, b: i64) -> (r: i64)
    requires
        b != 0,
    ensures
        r as int == fx_div(a as int, b as int),
{
    let neg: bool = (a < 0) != (b < 0);
    let ma: u128 = mag64(a);
    let mb: u128 = mag64(b);
    assert(ma * (FX_ONE as u128) <= 0x8000_0000_0000_0000u128 * (FX_ONE as u128))
        by (nonlinear_arith)
        requires
            ma <= 0x8000_0000_0000_0000u128,
    ;
    let p: u128 = ma * (FX_ONE as u128);
    let q: u128 = p / mb;
    proof {
        lemma_mul_parts(a as int, FX_ONE as int);
    }
    from_mag(neg, q)
}

/// Saturating division by a plain positive integer.
pub fn qdivi(a: i64, k: i64) -> (r: i64)
    requires
        k > 0,
    ensures
        r as int == fx_divi(a as int, k as int),
{
    let neg: bool = a < 0;
    let ma: u128 = mag64(a);
    let q: u128 = ma / (k as u128);
    from_mag(neg, q)
}

/// Clamp into `[lo, hi]`.
pub fn qclamp(v: i64, lo: i64, hi: i64) -> (r: i64)
    requires
        lo <= hi,
    ensures
        r as int == fx_clamp(v as int, lo as int, hi as int),
{
    if v < lo {
        lo
    } else if v > hi {
        hi
    } else {
        v
    }
}

} // verus!
