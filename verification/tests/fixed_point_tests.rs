//! The fixed-point scalar: exactness, truncation direction, saturation,
//! and the transcendental helpers against double-precision references.

use interleaf::fixed::{
    qadd, qclamp, qdiv, qdivi, qmul, qneg, qsub, FX_MAX, FX_ONE, FX_TWO,
};
use interleaf::gain::{qamp, qexp2, qsqrt};
use interleaf::trig::{qcos, qsin, FX_HALF_PI, FX_PI};

fn q(x: f64) -> i64 {
    (x * 4294967296.0).round() as i64
}

fn fq(v: i64) -> f64 {
    v as f64 / 4294967296.0
}

#[test]
fn qadd_saturates_at_max() {
    assert_eq!(qadd(FX_MAX, 1), FX_MAX);
    assert_eq!(qadd(FX_MAX, FX_MAX), FX_MAX);
    assert_eq!(qadd(-FX_MAX, -FX_MAX), -FX_MAX);
    assert_eq!(qadd(q(1.5), q(2.25)), q(3.75));
}

#[test]
fn qsub_and_qneg_saturate_symmetrically() {
    assert_eq!(qsub(-FX_MAX, FX_MAX), -FX_MAX);
    assert_eq!(qneg(i64::MIN), FX_MAX);
    assert_eq!(qneg(q(2.5)), q(-2.5));
}

#[test]
fn qmul_is_exact_on_representable_products() {
    assert_eq!(qmul(q(1.5), q(2.0)), q(3.0));
    assert_eq!(qmul(FX_ONE, FX_ONE), FX_ONE);
    assert_eq!(qmul(q(-0.5), q(0.5)), q(-0.25));
    assert_eq!(qmul(0, q(123.0)), 0);
}

#[test]
fn qmul_truncates_toward_zero() {
    // 3 * 1 least-significant-bit / 2^32 truncates to zero from either sign.
    assert_eq!(qmul(3, 1), 0);
    assert_eq!(qmul(-3, 1), 0);
}

#[test]
fn qmul_saturates_on_overflow() {
    assert_eq!(qmul(FX_MAX, FX_TWO), FX_MAX);
    assert_eq!(qmul(-FX_MAX, FX_TWO), -FX_MAX);
}

#[test]
fn qdiv_is_exact_on_representable_quotients() {
    assert_eq!(qdiv(q(3.0), q(2.0)), q(1.5));
    assert_eq!(qdiv(q(-3.0), q(2.0)), q(-1.5));
    assert_eq!(qdiv(0, q(7.0)), 0);
}

#[test]
fn qdivi_truncates_toward_zero() {
    assert_eq!(qdivi(7, 2), 3);
    assert_eq!(qdivi(-7, 2), -3);
    assert_eq!(qdivi(q(1.0), 4), q(0.25));
}

#[test]
fn qclamp_clamps_both_ends() {
    assert_eq!(qclamp(5, 0, 3), 3);
    assert_eq!(qclamp(-5, 0, 3), 0);
    assert_eq!(qclamp(2, 0, 3), 2);
}

#[test]
fn qsin_matches_reference_on_grid() {
    for k in 0..=16 {
        let x = std::f64::consts::PI * k as f64 / 16.0;
        let got = fq(qsin(q(x)));
        assert!((got - x.sin()).abs() < 1e-6, "sin({x}) = {got}");
    }
}

#[test]
fn qcos_matches_reference_on_grid() {
    for k in 0..=16 {
        let x = std::f64::consts::PI * k as f64 / 16.0;
        let got = fq(qcos(q(x)));
        assert!((got - x.cos()).abs() < 1e-6, "cos({x}) = {got}");
    }
}

#[test]
fn trig_clamps_out_of_range_angles() {
    assert_eq!(qsin(-q(5.0)), qsin(0));
    assert_eq!(qsin(q(100.0)), qsin(FX_PI));
    assert_eq!(qcos(0), FX_ONE);
    assert!(fq(qsin(FX_HALF_PI)) > 0.999999);
    assert!(qsin(FX_HALF_PI) <= FX_ONE);
}

#[test]
fn qexp2_is_exact_on_integer_exponents() {
    assert_eq!(qexp2(0), FX_ONE);
    assert_eq!(qexp2(q(3.0)), 8 * FX_ONE);
    assert_eq!(qexp2(q(-2.0)), FX_ONE / 4);
}

#[test]
fn qexp2_matches_reference_on_fractions() {
    for k in [-1.5f64, -0.25, 0.5, 1.25, 4.75] {
        let got = fq(qexp2(q(k)));
        assert!((got - k.exp2()).abs() < 1e-5, "2^{k} = {got}");
    }
}

#[test]
fn qamp_zero_db_is_exactly_one() {
    assert_eq!(qamp(0), FX_ONE);
}

#[test]
fn qamp_matches_reference() {
    for g in [-12.0f64, -6.0, 3.0, 6.0, 12.0] {
        let want = 10f64.powf(g / 80.0);
        let got = fq(qamp(q(g)));
        assert!((got - want).abs() < 1e-5, "amp({g} dB) = {got}, want {want}");
    }
}

#[test]
fn qsqrt_is_exact_on_squares() {
    assert_eq!(qsqrt(FX_ONE), FX_ONE);
    assert_eq!(qsqrt(4 * FX_ONE), 2 * FX_ONE);
    assert_eq!(qsqrt(0), 0);
    let got = fq(qsqrt(q(2.0)));
    assert!((got - 2f64.sqrt()).abs() < 1e-9);
}
