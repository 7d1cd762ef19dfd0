//! The gain-derived amplitude factor `A = 10^(gain_dB / 80)` and the
//! square root, in Q32.32.
//!
//! The amplitude is computed as `2^(gain_dB * log2(10)/80)`: the input
//! is split into an integer exponent and a fraction, the fractional
//! power of two comes from the truncated Taylor series of `e^x` at
//! `x = f * ln 2`, and the integer exponent is applied by saturating
//! doubling or truncating halving. The square root is the exact floor
//! square root of the Q32.32 radicand.

use vstd::prelude::*;
use crate::fixed::{div_trunc, fx_add, fx_divi, fx_mul, qadd, qdivi, qmul, sat64, FX_MAX, FX_ONE};
use vstd::arithmetic::div_mod::{lemma_fundamental_div_mod, lemma_fundamental_div_mod_converse};

verus! {

/// ln 2 in Q32.32 (rounded to the nearest representable value).
pub const FX_LN2: i64 = 2977044472;

/// log2(10) / 80 in Q32.32: multiplying a decibel value by this
/// constant gives the base-two exponent of `10^(dB/80)`.
pub const FX_DB_TO_EXP2: i64 = 178344657;

/// Truncated Taylor series of `e^v` in Horner form,
/// `1 + v*(1 + v/2*(1 + v/3*(... (1 + v/13))))`, for `v` in `[0, ln 2)`.
pub open spec fn exp_poly(v: int) -> int {
    let s12 = fx_add(FX_ONE as int, fx_divi(v, 13));
    let s11 = fx_add(FX_ONE as int, fx_divi(fx_mul(v, s12), 12));
    let s10 = fx_add(FX_ONE as int, fx_divi(fx_mul(v, s11), 11));
    let s9 = fx_add(FX_ONE as int, fx_divi(fx_mul(v, s10), 10));
    let s8 = fx_add(FX_ONE as int, fx_divi(fx_mul(v, s9), 9));
    let s7 = fx_add(FX_ONE as int, fx_divi(fx_mul(v, s8), 8));
    let s6 = fx_add(FX_ONE as int, fx_divi(fx_mul(v, s7), 7));
    let s5 = fx_add(FX_ONE as int, fx_divi(fx_mul(v, s6), 6));
    let s4 = fx_add(FX_ONE as int, fx_divi(fx_mul(v, s5), 5));
    let s3 = fx_add(FX_ONE as int, fx_divi(fx_mul(v, s4), 4));
    let s2 = fx_add(FX_ONE as int, fx_divi(fx_mul(v, s3), 3));
    let s1 = fx_add(FX_ONE as int, fx_divi(fx_mul(v, s2), 2));
    fx_add(FX_ONE as int, fx_mul(v, s1))
}

/// `p * 2^n`, saturating at every doubling.
pub open spec fn shl_sat(p: int, n: nat) -> int
    decreases n,
{
    if n == 0 {
        sat64(p)
    } else {
        sat64(2 * shl_sat(p, (n - 1) as nat))
    }
}

/// `p / 2^n`, truncating toward zero at every halving.
pub open spec fn shr_trunc(p: int, n: nat) -> int
    decreases n,
{
    if n == 0 {
        sat64(p)
    } else {
        sat64(div_trunc(shr_trunc(p, (n - 1) as nat), 2))
    }
}

/// `2^t` for a Q32.32 exponent `t`: the integer part of `t` shifts, the
/// fractional part `f` contributes `e^(f * ln 2)`. Exponents at or above
/// 31 saturate and exponents at or below -34 flush to zero, matching
/// the representable range.
pub open spec fn fx_exp2(t: int) -> int {
    let n = t / (FX_ONE as int);
    let f = t % (FX_ONE as int);
    let p = exp_poly(fx_mul(f, FX_LN2 as int));
    if n >= 31 {
        FX_MAX as int
    } else if n <= -34 {
        0
    } else if n >= 0 {
        shl_sat(p, n as nat)
    } else {
        shr_trunc(p, (-n) as nat)
    }
}

/// The amplitude factor `A = 10^(g/80)` for a gain `g` in decibels.
pub open spec fn fx_amp(g: int) -> int {
    fx_exp2(fx_mul(g, FX_DB_TO_EXP2 as int))
}

/// `r` is the floor square root of `n`.
pub open spec fn is_sqrt(n: int, r: int) -> bool {
    0 <= r && r * r <= n && n < (r + 1) * (r + 1)
}

/// The floor square root: the unique `r >= 0` with `r^2 <= n < (r+1)^2`.
pub open spec fn sqrt_floor(n: int) -> int {
    choose|r: int| is_sqrt(n, r)
}

/// The square root of a Q32.32 value: `floor(sqrt(a * 2^32))`.
pub open spec fn fx_sqrt(a: int) -> int {
    sqrt_floor(a * (FX_ONE as int))
}

/// Two floor square roots of the same radicand are equal.
pub proof fn lemma_sqrt_unique(n: int, r1: int, r2: int)
    by (nonlinear_arith)
    requires
        0 <= r1,
        r1 * r1 <= n < (r1 + 1) * (r1 + 1),
        0 <= r2,
        r2 * r2 <= n < (r2 + 1) * (r2 + 1),
    ensures
        r1 == r2,
{
}

/// At zero decibels the amplitude factor is exactly one.
pub proof fn lemma_amp_zero()
    ensures
        fx_amp(0) == FX_ONE as int,
{
    crate::fixed::lemma_fx_mul_zero(FX_DB_TO_EXP2 as int);
    crate::fixed::lemma_fx_mul_zero(FX_LN2 as int);
    vstd::arithmetic::div_mod::lemma_div_of0(FX_ONE as int);
    vstd::arithmetic::div_mod::lemma_small_mod(0, FX_ONE as nat);
    assert(exp_poly(0) == FX_ONE as int);
    assert(fx_exp2(0) == shl_sat(FX_ONE as int, 0));
    assert(shl_sat(FX_ONE as int, 0) == FX_ONE as int);
}

/// The square root of one is exactly one.
pub proof fn lemma_sqrt_one()
    ensures
        fx_sqrt(FX_ONE as int) == FX_ONE as int,
{
    let nn = (FX_ONE as int) * (FX_ONE as int);
    assert(is_sqrt(nn, FX_ONE as int));
    let w = sqrt_floor(nn);
    assert(exists|r: int| is_sqrt(nn, r)) by {
        assert(is_sqrt(nn, FX_ONE as int));
    }
    assert(is_sqrt(nn, w));
    lemma_sqrt_unique(nn, FX_ONE as int, w);
}

/// One step of the Horner recurrence for `e^v`: `1 + (v * s) / k`.
fn exp_step(v: i64, s: i64, k: i64) -> (r: i64)
    requires
        k > 0,
    ensures
        r as int == fx_add(FX_ONE as int, fx_divi(fx_mul(v as int, s as int), k as int)),
{
    qadd(FX_ONE, qdivi(qmul(v, s), k))
}

fn exp_poly_exec(v: i64) -> (r: i64)
    ensures
        r as int == exp_poly(v as int),
{
    let s12 = qadd(FX_ONE, qdivi(v, 13));
    let s11 = exp_step(v, s12, 12);
    let s10 = exp_step(v, s11, 11);
    let s9 = exp_step(v, s10, 10);
    let s8 = exp_step(v, s9, 9);
    let s7 = exp_step(v, s8, 8);
    let s6 = exp_step(v, s7, 7);
    let s5 = exp_step(v, s6, 6);
    let s4 = exp_step(v, s5, 5);
    let s3 = exp_step(v, s4, 4);
    let s2 = exp_step(v, s3, 3);
    let s1 = exp_step(v, s2, 2);
    qadd(FX_ONE, qmul(v, s1))
}

/// Split a Q32.32 value into its floor integer part and the remaining
/// nonnegative fraction.
fn split_units(t: i64) -> (nf: (i64, i64))
    ensures
        nf.0 as int == (t as int) / (FX_ONE as int),
        nf.1 as int == (t as int) % (FX_ONE as int),
{
    if t >= 0 {
        let tu: u64 = t as u64;
        let q: u64 = tu / (FX_ONE as u64);
        let r: u64 = tu % (FX_ONE as u64);
        proof {
            lemma_fundamental_div_mod(tu as int, FX_ONE as int);
        }
        (q as i64, r as i64)
    } else {
        let m: u64 = (-(t as i128)) as u64;
        let q: u64 = m / (FX_ONE as u64);
        let rm: u64 = m % (FX_ONE as u64);
        proof {
            lemma_fundamental_div_mod(m as int, FX_ONE as int);
        }
        if rm == 0 {
            proof {
                lemma_fundamental_div_mod_converse(
                    t as int,
                    FX_ONE as int,
                    -(q as int),
                    0,
                );
            }
            (-(q as i64), 0)
        } else {
            proof {
                lemma_fundamental_div_mod_converse(
                    t as int,
                    FX_ONE as int,
                    -(q as int) - 1,
                    FX_ONE as int - rm as int,
                );
            }
            (-(q as i64) - 1, FX_ONE - rm as i64)
        }
    }
}

/// `2^t` in Q32.32 for a Q32.32 exponent.
pub fn qexp2(t: i64) -> (r: i64)
    ensures
        r as int == fx_exp2(t as int),
{
    let nf = split_units(t);
    let n = nf.0;
    let f = nf.1;
    let p = exp_poly_exec(qmul(f, FX_LN2));
    if n >= 31 {
        FX_MAX
    } else if n <= -34 {
        0
    } else if n >= 0 {
        let mut cur = p;
        let mut i: i64 = 0;
        while i < n
            invariant
                0 <= i <= n,
                n < 31,
                cur as int == shl_sat(p as int, i as nat),
            decreases n - i,
        {
            cur = qadd(cur, cur);
            i = i + 1;
        }
        cur
    } else {
        let m = -n;
        let mut cur = p;
        let mut i: i64 = 0;
        while i < m
            invariant
                0 <= i <= m,
                m <= 33,
                cur as int == shr_trunc(p as int, i as nat),
            decreases m - i,
        {
            cur = qdivi(cur, 2);
            i = i + 1;
        }
        cur
    }
}

/// The amplitude factor `A = 10^(g/80)` for a gain `g` in decibels.
pub fn qamp(g: i64) -> (r: i64)
    ensures
        r as int == fx_amp(g as int),
{
    qexp2(qmul(g, FX_DB_TO_EXP2))
}

/// Floor square root of a nonnegative Q32.32 value.
pub fn qsqrt(a: i64) -> (r: i64)
    requires
        a >= 0,
    ensures
        r as int == fx_sqrt(a as int),
        r >= 0,
{
    assert((a as u128) * (FX_ONE as u128) <= 0x7fff_ffff_ffff_ffffu128 * 0x1_0000_0000u128)
        by (nonlinear_arith)
        requires
            a as u128 <= 0x7fff_ffff_ffff_ffffu128,
    ;
    let n: u128 = (a as u128) * (FX_ONE as u128);
    let mut lo: u128 = 0;
    let mut hi: u128 = 0x1_0000_0000_0000u128;
    assert(n < hi * hi) by (nonlinear_arith)
        requires
            n <= 0x7fff_ffff_ffff_ffffu128 * 0x1_0000_0000u128,
            hi == 0x1_0000_0000_0000u128,
    ;
    while lo + 1 < hi
        invariant
            lo < hi <= 0x1_0000_0000_0000u128,
            lo * lo <= n,
            n < hi * hi,
        decreases hi - lo,
    {
        let mid = lo + (hi - lo) / 2;
        assert(lo < mid < hi);
        assert(mid * mid < 0x1_0000_0000_0000_0000_0000_0000u128) by (nonlinear_arith)
            requires
                mid < 0x1_0000_0000_0000u128,
        ;
        if mid * mid <= n {
            lo = mid;
        } else {
            hi = mid;
        }
    }
    proof {
        let nn = n as int;
        let ll = lo as int;
        assert(nn == a as int * (FX_ONE as int));
        assert(ll * ll <= nn);
        assert(nn < (ll + 1) * (ll + 1));
        let w = sqrt_floor(nn);
        assert(exists|r: int| is_sqrt(nn, r)) by {
            assert(is_sqrt(nn, ll));
        }
        assert(is_sqrt(nn, w));
        lemma_sqrt_unique(nn, ll, w);
    }
    lo as u64 as i64
}

} // verus!
