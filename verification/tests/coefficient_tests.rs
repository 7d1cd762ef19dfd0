//! The coefficient solver against the cookbook formulas evaluated in
//! double precision, and the boundary sanity of the derived `a0` and
//! the DC response at unity gain.

use interleaf::coeffs::{BiquadCoefficients, FilterType};

const ALL_TYPES: [FilterType; 7] = [
    FilterType::LowPass,
    FilterType::HighPass,
    FilterType::BandPass,
    FilterType::Notch,
    FilterType::Peak,
    FilterType::LowShelf,
    FilterType::HighShelf,
];

fn q(x: f64) -> i64 {
    (x * 4294967296.0).round() as i64
}

fn fq(v: i64) -> f64 {
    v as f64 / 4294967296.0
}

/// omega and alpha for a center frequency, sample rate and resonance.
fn omega_alpha(f0: f64, sr: f64, qf: f64) -> (f64, f64) {
    let omega = 2.0 * std::f64::consts::PI * f0 / sr;
    (omega, omega.sin() / (2.0 * qf))
}

/// The reference coefficients in double precision.
fn reference(t: FilterType, alpha: f64, omega: f64, gain_db: f64) -> [f64; 6] {
    let cw = omega.cos();
    let sw = omega.sin();
    let a = 10f64.powf(gain_db / 40.0).sqrt();
    match t {
        FilterType::LowPass => [
            (1.0 - cw) / 2.0,
            1.0 - cw,
            (1.0 - cw) / 2.0,
            1.0 + alpha,
            -2.0 * cw,
            1.0 - alpha,
        ],
        FilterType::HighPass => [
            (1.0 + cw) / 2.0,
            -(1.0 + cw),
            (1.0 + cw) / 2.0,
            1.0 + alpha,
            -2.0 * cw,
            1.0 - alpha,
        ],
        FilterType::BandPass => [
            sw / 2.0,
            0.0,
            -sw / 2.0,
            1.0 + alpha,
            -2.0 * cw,
            1.0 - alpha,
        ],
        FilterType::Notch => [1.0, -2.0 * cw, 1.0, 1.0 + alpha, -2.0 * cw, 1.0 - alpha],
        FilterType::Peak => [
            1.0 + alpha * a,
            -2.0 * cw,
            1.0 - alpha * a,
            1.0 + alpha / a,
            -2.0 * cw,
            1.0 - alpha / a,
        ],
        FilterType::LowShelf => {
            let s2a = 2.0 * a.sqrt() * alpha;
            [
                a * ((a + 1.0) - (a - 1.0) * cw + s2a),
                2.0 * a * ((a - 1.0) - (a + 1.0) * cw),
                a * ((a + 1.0) - (a - 1.0) * cw - s2a),
                (a + 1.0) + (a - 1.0) * cw + s2a,
                -2.0 * ((a - 1.0) + (a + 1.0) * cw),
                (a + 1.0) + (a - 1.0) * cw - s2a,
            ]
        }
        FilterType::HighShelf => {
            let s2a = 2.0 * a.sqrt() * alpha;
            [
                a * ((a + 1.0) + (a - 1.0) * cw + s2a),
                -2.0 * a * ((a - 1.0) + (a + 1.0) * cw),
                a * ((a + 1.0) + (a - 1.0) * cw - s2a),
                (a + 1.0) - (a - 1.0) * cw + s2a,
                2.0 * ((a - 1.0) - (a + 1.0) * cw),
                (a + 1.0) - (a - 1.0) * cw - s2a,
            ]
        }
    }
}

fn derive(t: FilterType, f0: f64, sr: f64, qf: f64, gain_db: f64) -> BiquadCoefficients {
    let (omega, alpha) = omega_alpha(f0, sr, qf);
    BiquadCoefficients::new(t, q(alpha), q(omega), q(gain_db))
}

#[test]
fn unity_gain_a0_positive_all_types() {
    let qf = 2f64.sqrt() / 2.0;
    for t in ALL_TYPES {
        let c = derive(t, 1000.0, 44100.0, qf, 0.0);
        assert!(c.a0 > 0, "{t:?}: a0 = {}", c.a0);
    }
}

#[test]
fn unity_gain_dc_response_all_types() {
    let qf = 2f64.sqrt() / 2.0;
    for t in ALL_TYPES {
        // 20 Hz at 44100 Hz: very low frequency relative to the band.
        let c = derive(t, 1000.0, 44100.0, qf, 0.0);
        let num = fq(c.b0) + fq(c.b1) + fq(c.b2);
        let den = fq(c.a0) + fq(c.a1) + fq(c.a2);
        let dc = num / den;
        match t {
            FilterType::HighPass | FilterType::BandPass => {
                assert!(dc.abs() < 1e-3, "{t:?}: DC gain {dc}")
            }
            _ => assert!((dc - 1.0).abs() < 1e-3, "{t:?}: DC gain {dc}"),
        }
    }
}

#[test]
fn coefficients_match_reference_all_types() {
    let cases = [(1000.0, 44100.0, 0.707, 6.0), (5000.0, 48000.0, 1.0, -6.0)];
    for t in ALL_TYPES {
        for (f0, sr, qf, g) in cases {
            let c = derive(t, f0, sr, qf, g);
            let want = reference(t, omega_alpha(f0, sr, qf).1, omega_alpha(f0, sr, qf).0, g);
            let got = [fq(c.b0), fq(c.b1), fq(c.b2), fq(c.a0), fq(c.a1), fq(c.a2)];
            for i in 0..6 {
                assert!(
                    (got[i] - want[i]).abs() < 1e-4,
                    "{t:?} f0={f0} g={g}: coeff {i} = {} want {}",
                    got[i],
                    want[i]
                );
            }
        }
    }
}

#[test]
fn peak_at_zero_gain_is_transparent_in_coefficients() {
    let c = derive(FilterType::Peak, 1000.0, 44100.0, 0.707, 0.0);
    assert_eq!(c.b0, c.a0);
    assert_eq!(c.b1, c.a1);
    assert_eq!(c.b2, c.a2);
}
