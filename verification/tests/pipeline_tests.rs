//! The five-band chain, the mix stage and the single-knob equalizer:
//! the round-trip RMS property, dry/wet exactness, cascade transparency
//! and the bookkeeping of the band list.

use interleaf::biquad::Biquad;
use interleaf::chain::{process_frame, BandChain, BandParams, TickParams};
use interleaf::coeffs::FilterType;
use interleaf::equalizer::Equalizer;
use interleaf::fixed::{FX_MAX, FX_ONE};
use interleaf::mix::{apply_gain, mix_dry_wet, tick_amplitude};

fn q(x: f64) -> i64 {
    (x * 4294967296.0).round() as i64
}

fn fq(v: i64) -> f64 {
    v as f64 / 4294967296.0
}

/// RMS of a fixed test waveform before and after one peak filter.
fn rms_ratio(center: f64, qf: f64, gain_db: f64) -> f64 {
    let sr = 44100.0;
    let n = 17640;
    let mut b = Biquad::new(q(sr), q(center), q(gain_db), q(qf), FilterType::Peak);
    let mut in_sq = 0.0;
    let mut out_sq = 0.0;
    for i in 0..n {
        let x = 0.5 * (2.0 * std::f64::consts::PI * 1000.0 * i as f64 / sr).sin();
        let (l, _) = b.process_sample(q(x), 0);
        in_sq += x * x;
        out_sq += fq(l) * fq(l);
    }
    (out_sq / in_sq).sqrt()
}

#[test]
fn peak_boost_at_center_raises_rms() {
    // 1 kHz sine through a peak at 1 kHz, +6 dB.
    let ratio = rms_ratio(1000.0, 0.707, 6.0);
    assert!(ratio > 1.2, "RMS ratio {ratio}");
}

#[test]
fn peak_far_from_center_leaves_rms() {
    // The same sine through a peak centered at 5 kHz: within 0.1 dB.
    let ratio = rms_ratio(5000.0, 2.0, 6.0);
    let db = 20.0 * ratio.log10();
    assert!(db.abs() < 0.1, "RMS change {db} dB");
}

#[test]
fn dry_mix_reproduces_input_exactly() {
    for x in [0i64, 7, -12345, q(0.9), -q(123.0), FX_MAX, -FX_MAX] {
        assert_eq!(mix_dry_wet(x, q(0.5), 0), x);
    }
}

#[test]
fn wet_mix_reproduces_filtered_exactly() {
    for w in [0i64, 42, -99, q(-0.25), FX_MAX, -FX_MAX] {
        assert_eq!(mix_dry_wet(q(0.8), w, FX_ONE), w);
    }
}

#[test]
fn apply_gain_and_amplitude_basics() {
    assert_eq!(apply_gain(q(0.5), FX_ONE), q(0.5));
    assert_eq!(apply_gain(q(0.5), 0), 0);
    assert_eq!(apply_gain(q(0.5), q(2.0)), q(1.0));
    assert_eq!(tick_amplitude(q(0.25), q(0.5)), q(0.75));
    assert_eq!(tick_amplitude(FX_MAX, FX_MAX), FX_MAX);
}

fn flat_params(interleave: usize, extra: usize) -> TickParams {
    TickParams {
        sample_rate: q(44100.0),
        bands: vec![
            BandParams {
                center_freq: q(200.0),
                gain_db: 0,
                q_factor: q(0.707),
                filter_type: FilterType::Peak,
            };
            5
        ],
        interleave,
        extra_passes: extra,
    }
}

#[test]
fn frame_with_dry_mix_is_exact_bypass() {
    let mut chain = BandChain::new();
    let params = flat_params(1, 0);
    for i in 0..32i64 {
        let x = q(0.01) * (i % 9 - 4);
        let out = process_frame(&mut chain, &params, FX_ONE, FX_ONE, 0, x, -x);
        assert_eq!(out.0, x);
        assert_eq!(out.1, -x);
    }
}

#[test]
fn frame_with_wet_mix_is_exactly_the_chain_output() {
    let mut chain = BandChain::new();
    let mut shadow = BandChain::new();
    let params = flat_params(1, 0);
    let params2 = flat_params(1, 0);
    for i in 0..32i64 {
        let x = q(0.02) * (i % 5 - 2);
        let out = process_frame(&mut chain, &params, FX_ONE, FX_ONE, FX_ONE, x, x);
        let want = shadow.process_tick(&params2, x, x);
        assert_eq!(out, want);
    }
}

#[test]
fn transparent_cascade_is_near_identity() {
    // Five peak bands at zero gain pass the signal through the whole
    // cascade nearly unchanged (only rounding on the way).
    let mut chain = BandChain::new();
    let params = flat_params(1, 0);
    for i in 0..64i64 {
        let x = q(0.03) * (i % 11 - 5);
        let (l, _) = chain.process_tick(&params, x, x);
        assert!((fq(l) - fq(x)).abs() < 1e-6, "sample {i}: {} vs {}", fq(l), fq(x));
    }
}

#[test]
fn silence_through_the_interleaved_chain_stays_silent() {
    let mut chain = BandChain::new();
    let params = flat_params(4, 1);
    for _ in 0..64 {
        let out = chain.process_tick(&params, 0, 0);
        assert_eq!(out, (0, 0));
    }
}

#[test]
fn oversampling_passes_change_the_response() {
    let mut single = BandChain::new();
    let mut double = BandChain::new();
    let p1 = {
        let mut p = flat_params(1, 0);
        p.bands[2].gain_db = q(6.0);
        p.bands[2].center_freq = q(1000.0);
        p
    };
    let p2 = {
        let mut p = flat_params(1, 1);
        p.bands[2].gain_db = q(6.0);
        p.bands[2].center_freq = q(1000.0);
        p
    };
    let sr = 44100.0;
    let mut differed = false;
    for i in 0..256 {
        let x = q(0.25 * (2.0 * std::f64::consts::PI * 1000.0 * i as f64 / sr).sin());
        let a = single.process_tick(&p1, x, x);
        let b = double.process_tick(&p2, x, x);
        if a != b {
            differed = true;
        }
    }
    assert!(differed);
}

#[test]
fn equalizer_with_no_bands_is_identity() {
    let mut eq = Equalizer::new(q(44100.0));
    for x in [0i64, q(0.5), -q(0.25), 12345] {
        assert_eq!(eq.process_sample(x), x);
    }
}

#[test]
fn equalizer_band_bookkeeping() {
    let mut eq = Equalizer::new(q(44100.0));
    eq.add_band(q(1.0));
    eq.add_band(q(2.0));
    eq.add_band(q(0.5));
    assert_eq!(eq.bands.len(), 3);
    assert_eq!(eq.bands[1].gain, q(2.0));
    eq.remove_band(1);
    assert_eq!(eq.bands.len(), 2);
    assert_eq!(eq.bands[1].gain, q(0.5));
    eq.remove_band(7);
    assert_eq!(eq.bands.len(), 2);
}

#[test]
fn equalizer_unity_gain_band_is_near_transparent() {
    let mut eq = Equalizer::new(q(44100.0));
    eq.add_band(q(1.0));
    for i in 0..64i64 {
        let x = q(0.04) * (i % 7 - 3);
        let y = eq.process_sample(x);
        assert!((fq(y) - fq(x)).abs() < 1e-6);
    }
}

#[test]
fn equalizer_zero_gain_band_bypasses() {
    let mut eq = Equalizer::new(q(44100.0));
    eq.add_band(0);
    for x in [q(0.5), -q(0.125), 99i64] {
        assert_eq!(eq.process_sample(x), x);
    }
}

#[test]
fn equalizer_silence_is_idempotent() {
    let mut eq = Equalizer::new(q(48000.0));
    eq.add_band(q(2.0));
    eq.add_band(q(0.5));
    for _ in 0..50 {
        assert_eq!(eq.process_sample(0), 0);
    }
    assert_eq!(eq.bands[0].history.y1, 0);
    assert_eq!(eq.bands[1].history.x2, 0);
}

#[test]
fn equalizer_boost_band_raises_rms() {
    let sr = 44100.0;
    let mut eq = Equalizer::new(q(sr));
    // A gain factor above one boosts around the fixed 1 kHz center.
    eq.add_band(q(2.0));
    let mut in_sq = 0.0;
    let mut out_sq = 0.0;
    for i in 0..8820 {
        let x = 0.5 * (2.0 * std::f64::consts::PI * 1000.0 * i as f64 / sr).sin();
        let y = eq.process_sample(q(x));
        in_sq += x * x;
        out_sq += fq(y) * fq(y);
    }
    assert!(out_sq > in_sq * 1.2);
}
