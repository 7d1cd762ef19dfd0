//! A minimal single-knob equalizer: a dynamic list of bands, each a
//! peak-style biquad fixed at 1 kHz with unit resonance, whose only
//! control is a per-band gain factor applied directly in the
//! coefficient formulas.
//!
//! Designs of this kind often read sine and cosine from small lookup
//! tables; here both come from the verified polynomial evaluation,
//! which states its value exactly instead of hiding the table's
//! quantization. A band whose gain is zero, or whose
//! derived `a0` (or the tangent half-angle denominator) is zero, is an
//! explicit bypass rather than a division by zero.

use vstd::prelude::*;
use crate::fixed::{fx_add, fx_div, fx_divi, fx_mul, fx_neg, fx_sub, qadd, FX_ONE, FX_TWO};
use crate::trig::{fx_cos, fx_sin, qcos, qsin, FX_TWO_PI};
use crate::coeffs::BiquadCoefficients;
use crate::biquad::{df1_output, df1_shift, process_channel, zero_state, ChannelState};

verus! {

/// 1000 Hz in Q32.32: the fixed center frequency of every band.
pub const FX_FREQ_1000: i64 = 4294967296000;

/// One band: its gain factor and its two-deep filter history.
#[derive(Clone, Copy, PartialEq, Eq, Structural, Debug)]
pub struct Band {
    pub gain: i64,
    pub history: ChannelState,
}

/// The coefficients a band derives from the sample rate and its gain
/// factor: a peak-style section at 1 kHz, unit resonance, with
/// `alpha = sin(omega/2) / (1 + cos(omega/2))` (the tangent half-angle
/// form) and the gain factor scaling `alpha` directly.
pub open spec fn band_coeffs(sample_rate: int, gain: int) -> BiquadCoefficients {
    let omega = fx_div(fx_mul(FX_TWO_PI as int, FX_FREQ_1000 as int), sample_rate);
    let half = fx_divi(omega, 2);
    let alpha = fx_div(fx_sin(half), fx_add(FX_ONE as int, fx_cos(half)));
    let cosw = fx_cos(omega);
    BiquadCoefficients {
        b0: fx_add(FX_ONE as int, fx_mul(alpha, gain)) as i64,
        b1: fx_neg(fx_mul(FX_TWO as int, cosw)) as i64,
        b2: fx_sub(FX_ONE as int, fx_mul(alpha, gain)) as i64,
        a0: fx_add(FX_ONE as int, fx_div(alpha, gain)) as i64,
        a1: fx_neg(fx_mul(FX_TWO as int, cosw)) as i64,
        a2: fx_sub(FX_ONE as int, fx_div(alpha, gain)) as i64,
    }
}

/// Whether a band passes the sample through untouched: a zero gain or a
/// zero tangent half-angle denominator would divide by zero, and a zero
/// derived `a0` would too.
pub open spec fn band_bypassed(sample_rate: int, gain: int) -> bool {
    let omega = fx_div(fx_mul(FX_TWO_PI as int, FX_FREQ_1000 as int), sample_rate);
    let half = fx_divi(omega, 2);
    gain == 0 || fx_add(FX_ONE as int, fx_cos(half)) == 0 || band_coeffs(
        sample_rate,
        gain,
    ).a0 == 0
}

/// One band applied to one sample: the Direct-Form-I recursion with the
/// band's derived coefficients, or an exact pass-through when bypassed.
pub open spec fn band_step(sample_rate: int, b: Band, x: i64) -> (Band, i64) {
    if band_bypassed(sample_rate, b.gain as int) {
        (b, x)
    } else {
        let c = band_coeffs(sample_rate, b.gain as int);
        let y = df1_output(c, b.history, x as int) as i64;
        (Band { gain: b.gain, history: df1_shift(b.history, x, y) }, y)
    }
}

/// A sample run through a list of bands in order, each band's output
/// feeding the next.
pub open spec fn eq_run(sample_rate: int, bands: Seq<Band>, x: i64) -> (Seq<Band>, i64)
    decreases bands.len(),
{
    if bands.len() == 0 {
        (bands, x)
    } else {
        let s = band_step(sample_rate, bands[0], x);
        let rest = eq_run(sample_rate, bands.subrange(1, bands.len() as int), s.1);
        (seq![s.0] + rest.0, rest.1)
    }
}

/// Running a concatenation runs the first part, then the second on the
/// first part's output.
proof fn lemma_eq_run_append(sample_rate: int, s1: Seq<Band>, s2: Seq<Band>, x: i64)
    ensures
        eq_run(sample_rate, s1 + s2, x) == ({
            let a = eq_run(sample_rate, s1, x);
            let b = eq_run(sample_rate, s2, a.1);
            (a.0 + b.0, b.1)
        }),
    decreases s1.len(),
{
    let whole = s1 + s2;
    if s1.len() == 0 {
        assert(whole =~= s2);
        assert(eq_run(sample_rate, s1, x).0 + eq_run(sample_rate, s2, x).0 =~= eq_run(
            sample_rate,
            s2,
            x,
        ).0);
    } else {
        assert(whole[0] == s1[0]);
        let s = band_step(sample_rate, s1[0], x);
        assert(whole.subrange(1, whole.len() as int) =~= s1.subrange(1, s1.len() as int) + s2);
        lemma_eq_run_append(sample_rate, s1.subrange(1, s1.len() as int), s2, s.1);
        let a = eq_run(sample_rate, s1, x);
        let b = eq_run(sample_rate, s2, a.1);
        let a1 = eq_run(sample_rate, s1.subrange(1, s1.len() as int), s.1);
        assert(seq![s.0] + (a1.0 + b.0) =~= (seq![s.0] + a1.0) + b.0);
    }
}

/// The band list, the sample rate, nothing else: trigonometry comes
/// from the verified polynomials instead of lookup tables.
pub struct Equalizer {
    pub bands: Vec<Band>,
    pub sample_rate: i64,
}

impl Equalizer {
    /// An equalizer with no bands yet. A degenerate rate is rejected
    /// here: the per-band derivation divides by it.
    pub fn new(sample_rate: i64) -> (r: Self)
        requires
            sample_rate > 0,
        ensures
            r.bands@.len() == 0,
            r.sample_rate == sample_rate,
    {
        Equalizer { bands: Vec::new(), sample_rate: sample_rate }
    }

    /// Append a band with the given gain factor and cleared history.
    pub fn add_band(&mut self, gain: i64)
        ensures
            final(self).sample_rate == old(self).sample_rate,
            final(self).bands@ == old(self).bands@.push(
                Band { gain: gain, history: zero_state() },
            ),
    {
        let band = Band { gain: gain, history: ChannelState::zero() };
        self.bands.push(band);
    }

    /// Remove the band at `index`; out-of-range indices are ignored.
    pub fn remove_band(&mut self, index: usize)
        ensures
            final(self).sample_rate == old(self).sample_rate,
            index < old(self).bands@.len() ==> final(self).bands@ == old(
                self,
            ).bands@.remove(index as int),
            index >= old(self).bands@.len() ==> final(self).bands@ == old(self).bands@,
    {
        if index < self.bands.len() {
            self.bands.remove(index);
        }
    }

    /// Run one sample through every band in order, updating each band's
    /// history, and return the final output.
    pub fn process_sample(&mut self, sample: i64) -> (out: i64)
        requires
            old(self).sample_rate > 0,
        ensures
            final(self).sample_rate == old(self).sample_rate,
            ({
                let s = eq_run(old(self).sample_rate as int, old(self).bands@, sample);
                final(self).bands@ == s.0 && out == s.1
            }),
    {
        let ghost orig = self.bands@;
        let ghost sr = self.sample_rate as int;
        let mut output = sample;
        let mut i: usize = 0;
        while i < self.bands.len()
            invariant
                self.sample_rate == old(self).sample_rate,
                self.sample_rate > 0,
                i <= self.bands@.len(),
                self.bands@.len() == orig.len(),
                orig == old(self).bands@,
                sr == old(self).sample_rate as int,
                ({
                    let a = eq_run(sr, orig.subrange(0, i as int), sample);
                    &&& self.bands@ == a.0 + orig.subrange(i as int, orig.len() as int)
                &&& output == a.1
                }),
            decreases self.bands@.len() - i,
        {
            proof {
                let a = eq_run(sr, orig.subrange(0, i as int), sample);
                assert(self.bands@[i as int] == orig[i as int]);
            }
            let mut band = self.bands[i];
            output = self.apply_band_gain(output, &mut band);
            self.bands[i] = band;
            proof {
                reveal_with_fuel(eq_run, 3);
                let pre = orig.subrange(0, i as int);
                let pre1 = orig.subrange(0, i as int + 1);
                assert(pre1 =~= pre + seq![orig[i as int]]);
                lemma_eq_run_append(sr, pre, seq![orig[i as int]], sample);
                let a = eq_run(sr, pre, sample);
                let one = eq_run(sr, seq![orig[i as int]], a.1);
                assert(seq![orig[i as int]].subrange(1, 1) =~= Seq::<Band>::empty());
                let st = band_step(sr, orig[i as int], a.1);
                assert(one.0 =~= seq![st.0]);
                assert(self.bands@ =~= eq_run(sr, pre1, sample).0 + orig.subrange(
                    i as int + 1,
                    orig.len() as int,
                ));
            }
            i = i + 1;
        }
        proof {
            assert(orig.subrange(0, orig.len() as int) =~= orig);
            let a = eq_run(sr, orig, sample);
            assert(orig.subrange(orig.len() as int, orig.len() as int) =~= Seq::<Band>::empty());
            assert(self.bands@ =~= a.0);
        }
        output
    }

    /// Apply one band to one sample: derive the band's coefficients at
    /// this equalizer's sample rate, filter, and shift the band's
    /// history.
    pub fn apply_band_gain(&self, sample: i64, band: &mut Band) -> (out: i64)
        requires
            self.sample_rate > 0,
        ensures
            ({
                let s = band_step(self.sample_rate as int, *old(band), sample);
                *final(band) == s.0 && out == s.1
            }),
    {
        let omega = crate::fixed::qdiv(
            crate::fixed::qmul(FX_TWO_PI, FX_FREQ_1000),
            self.sample_rate,
        );
        let half = crate::fixed::qdivi(omega, 2);
        let denom = qadd(FX_ONE, qcos(half));
        if band.gain == 0 || denom == 0 {
            return sample;
        }
        let alpha = crate::fixed::qdiv(qsin(half), denom);
        let cosw = qcos(omega);
        let c = BiquadCoefficients {
            b0: qadd(FX_ONE, crate::fixed::qmul(alpha, band.gain)),
            b1: crate::fixed::qneg(crate::fixed::qmul(FX_TWO, cosw)),
            b2: crate::fixed::qsub(FX_ONE, crate::fixed::qmul(alpha, band.gain)),
            a0: qadd(FX_ONE, crate::fixed::qdiv(alpha, band.gain)),
            a1: crate::fixed::qneg(crate::fixed::qmul(FX_TWO, cosw)),
            a2: crate::fixed::qsub(FX_ONE, crate::fixed::qdiv(alpha, band.gain)),
        };
        if c.a0 == 0 {
            return sample;
        }
        let y = process_channel(&c, &mut band.history, sample);
        y
    }
}

} // verus!
