//! Sine and cosine on `[0, pi]` in Q32.32.
//!
//! The polynomial is the truncated Taylor series in Horner form, taken
//! on `[0, pi/2]` and reflected for the upper half of the interval; its
//! truncation error is far below one part in 2^30, and every rounding
//! step is pinned down exactly by the fixed-point operations. Inputs
//! outside `[0, pi]` are clamped first: the engine keeps the angular
//! frequency inside that interval, and the clamp guards the degenerate
//! region. Results are clamped into `[-1, 1]`.

use vstd::prelude::*;
use crate::fixed::{
    fx_clamp, fx_divi, fx_mul, fx_neg, fx_sub, qclamp, qdivi, qmul, qneg, qsub, FX_ONE,
};

verus! {

/// pi in Q32.32 (rounded to the nearest representable value).
pub const FX_PI: i64 = 13493037705;

/// pi/2 in Q32.32 (rounded to the nearest representable value).
pub const FX_HALF_PI: i64 = 6746518852;

/// 2*pi in Q32.32 (rounded to the nearest representable value).
pub const FX_TWO_PI: i64 = 26986075409;

/// Taylor polynomial for sine on `[0, pi/2]`:
/// `x * (1 - u/6 * (1 - u/20 * (... * (1 - u/210))))` with `u = x^2`,
/// carrying terms through `x^15`.
pub open spec fn sin_poly(x: int) -> int {
    let u = fx_mul(x, x);
    let t7 = fx_sub(FX_ONE as int, fx_divi(u, 210));
    let t6 = fx_sub(FX_ONE as int, fx_divi(fx_mul(u, t7), 156));
    let t5 = fx_sub(FX_ONE as int, fx_divi(fx_mul(u, t6), 110));
    let t4 = fx_sub(FX_ONE as int, fx_divi(fx_mul(u, t5), 72));
    let t3 = fx_sub(FX_ONE as int, fx_divi(fx_mul(u, t4), 42));
    let t2 = fx_sub(FX_ONE as int, fx_divi(fx_mul(u, t3), 20));
    let t1 = fx_sub(FX_ONE as int, fx_divi(fx_mul(u, t2), 6));
    fx_mul(x, t1)
}

/// Taylor polynomial for cosine on `[0, pi/2]`:
/// `1 - u/2 * (1 - u/12 * (... * (1 - u/182)))` with `u = x^2`,
/// carrying terms through `x^14`.
pub open spec fn cos_poly(x: int) -> int {
    let u = fx_mul(x, x);
    let t7 = fx_sub(FX_ONE as int, fx_divi(u, 182));
    let t6 = fx_sub(FX_ONE as int, fx_divi(fx_mul(u, t7), 132));
    let t5 = fx_sub(FX_ONE as int, fx_divi(fx_mul(u, t6), 90));
    let t4 = fx_sub(FX_ONE as int, fx_divi(fx_mul(u, t5), 56));
    let t3 = fx_sub(FX_ONE as int, fx_divi(fx_mul(u, t4), 30));
    let t2 = fx_sub(FX_ONE as int, fx_divi(fx_mul(u, t3), 12));
    fx_sub(FX_ONE as int, fx_divi(fx_mul(u, t2), 2))
}

/// Sine of an angle, after clamping it into `[0, pi]` and reflecting
/// the upper half onto `[0, pi/2]`; the result is clamped into `[-1, 1]`.
pub open spec fn fx_sin(x: int) -> int {
    let c = fx_clamp(x, 0, FX_PI as int);
    let y = if c <= FX_HALF_PI as int {
        c
    } else {
        FX_PI as int - c
    };
    fx_clamp(sin_poly(y), -(FX_ONE as int), FX_ONE as int)
}

/// Cosine of an angle, after clamping it into `[0, pi]`; on the upper
/// half `cos(x) == -cos(pi - x)`. The result is clamped into `[-1, 1]`.
pub open spec fn fx_cos(x: int) -> int {
    let c = fx_clamp(x, 0, FX_PI as int);
    if c <= FX_HALF_PI as int {
        fx_clamp(cos_poly(c), -(FX_ONE as int), FX_ONE as int)
    } else {
        fx_clamp(fx_neg(cos_poly(FX_PI as int - c)), -(FX_ONE as int), FX_ONE as int)
    }
}

/// One step of the Horner recurrence: `1 - (u * t) / k`.
fn horner_step(u: i64, t: i64, k: i64) -> (r: i64)
    requires
        k > 0,
    ensures
        r as int == fx_sub(FX_ONE as int, fx_divi(fx_mul(u as int, t as int), k as int)),
{
    qsub(FX_ONE, qdivi(qmul(u, t), k))
}

fn sin_poly_exec(x: i64) -> (r: i64)
    ensures
        r as int == sin_poly(x as int),
{
    let u = qmul(x, x);
    let t7 = qsub(FX_ONE, qdivi(u, 210));
    let t6 = horner_step(u, t7, 156);
    let t5 = horner_step(u, t6, 110);
    let t4 = horner_step(u, t5, 72);
    let t3 = horner_step(u, t4, 42);
    let t2 = horner_step(u, t3, 20);
    let t1 = horner_step(u, t2, 6);
    qmul(x, t1)
}

fn cos_poly_exec(x: i64) -> (r: i64)
    ensures
        r as int == cos_poly(x as int),
{
    let u = qmul(x, x);
    let t7 = qsub(FX_ONE, qdivi(u, 182));
    let t6 = horner_step(u, t7, 132);
    let t5 = horner_step(u, t6, 90);
    let t4 = horner_step(u, t5, 56);
    let t3 = horner_step(u, t4, 30);
    let t2 = horner_step(u, t3, 12);
    qsub(FX_ONE, qdivi(qmul(u, t2), 2))
}

/// Sine in Q32.32.
pub fn qsin(x: i64) -> (r: i64)
    ensures
        r as int == fx_sin(x as int),
        -(FX_ONE as int) <= r as int <= FX_ONE as int,
{
    let c = qclamp(x, 0, FX_PI);
    let y = if c <= FX_HALF_PI {
        c
    } else {
        FX_PI - c
    };
    qclamp(sin_poly_exec(y), -FX_ONE, FX_ONE)
}

/// Cosine in Q32.32.
pub fn qcos(x: i64) -> (r: i64)
    ensures
        r as int == fx_cos(x as int),
        -(FX_ONE as int) <= r as int <= FX_ONE as int,
{
    let c = qclamp(x, 0, FX_PI);
    if c <= FX_HALF_PI {
        qclamp(cos_poly_exec(c), -FX_ONE, FX_ONE)
    } else {
        qclamp(qneg(cos_poly_exec(FX_PI - c)), -FX_ONE, FX_ONE)
    }
}

} // verus!
