//! The plain biquad: silence idempotence, lazy recomputation, the
//! impulse-response scenario, history shifting and the bypass state.

use interleaf::biquad::Biquad;
use interleaf::coeffs::FilterType;
use interleaf::fixed::FX_ONE;

fn q(x: f64) -> i64 {
    (x * 4294967296.0).round() as i64
}

/// Fixed-point multiply, truncating toward zero, as the engine does.
fn fmul(a: i64, b: i64) -> i64 {
    ((a as i128 * b as i128) / (FX_ONE as i128)) as i64
}

/// Fixed-point divide, truncating toward zero, as the engine does.
fn fdiv(a: i64, b: i64) -> i64 {
    ((a as i128 * FX_ONE as i128) / (b as i128)) as i64
}

fn fresh_peak() -> Biquad {
    Biquad::new(q(44100.0), q(1000.0), 0, q(0.707), FilterType::Peak)
}

#[test]
fn silent_input_gives_silent_output() {
    let mut b = Biquad::new(q(44100.0), q(2000.0), q(6.0), q(0.9), FilterType::LowShelf);
    for _ in 0..100 {
        let (l, r) = b.process_sample(0, 0);
        assert_eq!(l, 0);
        assert_eq!(r, 0);
    }
    assert_eq!(b.left.x1, 0);
    assert_eq!(b.left.x2, 0);
    assert_eq!(b.left.y1, 0);
    assert_eq!(b.left.y2, 0);
    assert_eq!(b.right.x1, 0);
    assert_eq!(b.right.y2, 0);
}

#[test]
fn unchanged_update_keeps_coefficients_bit_identical() {
    let mut b = fresh_peak();
    b.update(q(44100.0), q(500.0), q(3.0), q(0.5));
    let frozen = b.coeffs;
    for _ in 0..10 {
        b.update(q(44100.0), q(500.0), q(3.0), q(0.5));
        assert_eq!(b.coeffs, frozen);
    }
}

#[test]
fn unchanged_update_keeps_output_deterministic() {
    let mut with_updates = fresh_peak();
    let mut without = fresh_peak();
    with_updates.update(q(44100.0), q(1000.0), 0, q(0.707));
    for i in 0..50i64 {
        let x = q(0.01) * (i % 7 - 3);
        with_updates.update(q(44100.0), q(1000.0), 0, q(0.707));
        let a = with_updates.process_sample(x, -x);
        let b = without.process_sample(x, -x);
        assert_eq!(a, b);
    }
}

#[test]
fn changed_update_recomputes_coefficients() {
    let mut b = fresh_peak();
    let before = b.coeffs;
    b.update(q(44100.0), q(1000.0), q(6.0), q(0.707));
    assert_ne!(b.coeffs, before);
}

#[test]
fn impulse_response_first_two_taps() {
    let mut b = fresh_peak();
    let c = b.coeffs;
    let input = [FX_ONE, 0, 0, 0, 0];
    let mut out = Vec::new();
    for x in input {
        out.push(b.process_sample(x, x).0);
    }
    let y0 = fdiv(c.b0, c.a0);
    assert_eq!(out[0], y0);
    let y1 = fdiv(c.b1 - fmul(c.a1, y0), c.a0);
    assert_eq!(out[1], y1);
    // Peak at zero gain: the impulse passes through unchanged, so the
    // first tap is one and the later taps vanish.
    assert_eq!(out[0], FX_ONE);
    assert_eq!(out[1], 0);
}

#[test]
fn process_shifts_history() {
    let mut b = fresh_peak();
    let (l1, r1) = b.process_sample(q(0.25), q(-0.125));
    assert_eq!(b.left.x1, q(0.25));
    assert_eq!(b.left.y1, l1);
    assert_eq!(b.right.x1, q(-0.125));
    assert_eq!(b.right.y1, r1);
    let x1 = b.left.x1;
    let y1 = b.left.y1;
    b.process_sample(q(0.5), 0);
    assert_eq!(b.left.x2, x1);
    assert_eq!(b.left.y2, y1);
    assert_eq!(b.left.x1, q(0.5));
}

#[test]
fn zero_a0_bypasses_exactly() {
    let mut b = fresh_peak();
    b.coeffs.a0 = 0;
    let before_left = b.left;
    let (l, r) = b.process_sample(q(0.3), q(-0.7));
    assert_eq!(l, q(0.3));
    assert_eq!(r, q(-0.7));
    assert_eq!(b.left, before_left);
}

#[test]
fn stereo_channels_are_independent() {
    let mut b = Biquad::new(q(48000.0), q(4000.0), q(-6.0), q(1.0), FilterType::HighShelf);
    let mut left_only = Biquad::new(q(48000.0), q(4000.0), q(-6.0), q(1.0), FilterType::HighShelf);
    for i in 0..32i64 {
        let x = q(0.02) * (i % 5 - 2);
        let (l, _) = b.process_sample(x, 7 * x);
        let (l2, _) = left_only.process_sample(x, 0);
        assert_eq!(l, l2);
    }
}
