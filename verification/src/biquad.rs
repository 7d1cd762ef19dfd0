//! One biquad filter section: lazily recomputed coefficients and a
//! two-sample Direct-Form-I history per stereo channel.
//!
//! `update` recomputes the coefficients only when one of the four
//! controlling parameters actually changed; `process_sample` applies
//! the recursion `y = (b0*x + b1*x1 + b2*x2 - a1*y1 - a2*y2) / a0` to
//! each channel independently and shifts both histories. A section
//! whose derived `a0` is zero acts as an explicit bypass: it hands the
//! input through untouched instead of dividing by zero.

use vstd::prelude::*;
use crate::fixed::{
    fx_add, fx_div, fx_mul, fx_sub, lemma_fx_div_zero, lemma_fx_mul_zero, qadd, qdiv, qmul, qsub,
};
use crate::trig::{fx_sin, qsin, FX_TWO_PI};
use crate::coeffs::{derived_coeffs, BiquadCoefficients, FilterType};

verus! {

/// The two-deep input and output history of one channel.
#[derive(Clone, Copy, PartialEq, Eq, Structural, Debug)]
pub struct ChannelState {
    pub x1: i64,
    pub x2: i64,
    pub y1: i64,
    pub y2: i64,
}

/// A history with every delay element at zero.
pub open spec fn zero_state() -> ChannelState {
    ChannelState { x1: 0, x2: 0, y1: 0, y2: 0 }
}

impl ChannelState {
    /// A cleared history.
    pub fn zero() -> (r: Self)
        ensures
            r == zero_state(),
    {
        ChannelState { x1: 0, x2: 0, y1: 0, y2: 0 }
    }
}

/// The Direct-Form-I output for one channel (`c.a0 != 0`).
pub open spec fn df1_output(c: BiquadCoefficients, h: ChannelState, x: int) -> int {
    fx_div(
        fx_sub(
            fx_sub(
                fx_add(
                    fx_add(fx_mul(c.b0 as int, x), fx_mul(c.b1 as int, h.x1 as int)),
                    fx_mul(c.b2 as int, h.x2 as int),
                ),
                fx_mul(c.a1 as int, h.y1 as int),
            ),
            fx_mul(c.a2 as int, h.y2 as int),
        ),
        c.a0 as int,
    )
}

/// The history after one sample: the newest input and output move in,
/// the oldest pair falls out.
pub open spec fn df1_shift(h: ChannelState, x: i64, y: i64) -> ChannelState {
    ChannelState { x1: x, x2: h.x1, y1: y, y2: h.y1 }
}

/// Filter one channel's sample through one history.
pub(crate) fn process_channel(c: &BiquadCoefficients, h: &mut ChannelState, x: i64) -> (y: i64)
    requires
        c.a0 != 0,
    ensures
        y as int == df1_output(*c, *old(h), x as int),
        *final(h) == df1_shift(*old(h), x, y),
{
    let num = qsub(
        qsub(
            qadd(qadd(qmul(c.b0, x), qmul(c.b1, h.x1)), qmul(c.b2, h.x2)),
            qmul(c.a1, h.y1),
        ),
        qmul(c.a2, h.y2),
    );
    let y = qdiv(num, c.a0);
    h.x2 = h.x1;
    h.x1 = x;
    h.y2 = h.y1;
    h.y1 = y;
    y
}

/// One filter band: parameters, derived coefficients and stereo history.
#[derive(Clone, Copy, PartialEq, Eq, Structural, Debug)]
pub struct Biquad {
    pub biquad_type: FilterType,
    pub sample_rate: i64,
    pub center_freq: i64,
    pub gain_db: i64,
    pub q_factor: i64,
    pub left: ChannelState,
    pub right: ChannelState,
    pub coeffs: BiquadCoefficients,
}

/// The angular frequency `omega = 2*pi*f / sample_rate` (`sample_rate != 0`).
pub open spec fn omega_for(center_freq: int, sample_rate: int) -> int {
    fx_div(fx_mul(FX_TWO_PI as int, center_freq), sample_rate)
}

/// The cookbook intermediate `alpha = sin(omega) / (2*q)` (`q > 0`).
pub open spec fn alpha_for(omega: int, q: int) -> int {
    fx_div(fx_sin(omega), fx_add(q, q))
}

/// The coefficients a band derives from its four parameters and type.
pub open spec fn coeffs_for(t: FilterType, sample_rate: int, center_freq: int, gain_db: int, q: int)
    -> BiquadCoefficients {
    let omega = omega_for(center_freq, sample_rate);
    derived_coeffs(t, alpha_for(omega, q), omega, gain_db)
}

/// A freshly constructed band: cleared history, coefficients derived
/// from the construction parameters.
pub open spec fn biquad_fresh(
    sample_rate: i64,
    center_freq: i64,
    gain_db: i64,
    q_factor: i64,
    biquad_type: FilterType,
) -> Biquad {
    Biquad {
        biquad_type: biquad_type,
        sample_rate: sample_rate,
        center_freq: center_freq,
        gain_db: gain_db,
        q_factor: q_factor,
        left: zero_state(),
        right: zero_state(),
        coeffs: coeffs_for(
            biquad_type,
            sample_rate as int,
            center_freq as int,
            gain_db as int,
            q_factor as int,
        ),
    }
}

/// A band after `update`: parameters stored, coefficients recomputed
/// only if one of the four parameters changed, history untouched.
pub open spec fn biquad_updated(
    b: Biquad,
    sample_rate: i64,
    center_freq: i64,
    gain_db: i64,
    q_factor: i64,
) -> Biquad {
    if b.sample_rate == sample_rate && b.center_freq == center_freq && b.gain_db == gain_db
        && b.q_factor == q_factor {
        b
    } else {
        Biquad {
            sample_rate: sample_rate,
            center_freq: center_freq,
            gain_db: gain_db,
            q_factor: q_factor,
            coeffs: coeffs_for(
                b.biquad_type,
                sample_rate as int,
                center_freq as int,
                gain_db as int,
                q_factor as int,
            ),
            ..b
        }
    }
}

/// A band and a stereo sample after `process_sample`: Direct Form I on
/// each channel, or an exact pass-through when `a0` is zero.
pub open spec fn biquad_step(b: Biquad, input_l: i64, input_r: i64) -> (Biquad, i64, i64) {
    if b.coeffs.a0 == 0 {
        (b, input_l, input_r)
    } else {
        let out_l = df1_output(b.coeffs, b.left, input_l as int) as i64;
        let out_r = df1_output(b.coeffs, b.right, input_r as int) as i64;
        (
            Biquad {
                left: df1_shift(b.left, input_l, out_l),
                right: df1_shift(b.right, input_r, out_r),
                ..b
            },
            out_l,
            out_r,
        )
    }
}

impl Biquad {
    /// Construct a band. Degenerate rates and resonances (`sample_rate <= 0`,
    /// `q_factor <= 0`) are rejected at this boundary: the derivation
    /// divides by both.
    pub fn new(
        sample_rate: i64,
        center_freq: i64,
        gain_db: i64,
        q_factor: i64,
        biquad_type: FilterType,
    ) -> (r: Self)
        requires
            sample_rate > 0,
            q_factor > 0,
        ensures
            r == biquad_fresh(sample_rate, center_freq, gain_db, q_factor, biquad_type),
    {
        let omega = qdiv(qmul(FX_TWO_PI, center_freq), sample_rate);
        let alpha = qdiv(qsin(omega), qadd(q_factor, q_factor));
        Biquad {
            biquad_type: biquad_type,
            sample_rate: sample_rate,
            center_freq: center_freq,
            gain_db: gain_db,
            q_factor: q_factor,
            left: ChannelState::zero(),
            right: ChannelState::zero(),
            coeffs: BiquadCoefficients::new(biquad_type, alpha, omega, gain_db),
        }
    }

    /// Store the four parameters and recompute the coefficients only if
    /// one of them actually changed; otherwise this is a no-op, and the
    /// stored state (coefficients included) stays bit-identical.
    pub fn update(&mut self, sample_rate: i64, center_freq: i64, gain_db: i64, q_factor: i64)
        requires
            sample_rate > 0,
            q_factor > 0,
        ensures
            *final(self) == biquad_updated(
                *old(self),
                sample_rate,
                center_freq,
                gain_db,
                q_factor,
            ),
    {
        let mut recalc = false;
        if self.sample_rate != sample_rate {
            self.sample_rate = sample_rate;
            recalc = true;
        }
        if self.center_freq != center_freq {
            self.center_freq = center_freq;
            recalc = true;
        }
        if self.gain_db != gain_db {
            self.gain_db = gain_db;
            recalc = true;
        }
        if self.q_factor != q_factor {
            self.q_factor = q_factor;
            recalc = true;
        }
        if recalc {
            let omega = qdiv(qmul(FX_TWO_PI, center_freq), sample_rate);
            let alpha = qdiv(qsin(omega), qadd(q_factor, q_factor));
            self.coeffs = BiquadCoefficients::new(self.biquad_type, alpha, omega, self.gain_db);
        }
    }

    /// Filter one stereo sample pair through this band (Direct Form I,
    /// channels independent, shared coefficients). When the derived
    /// `a0` is zero the band is bypassed: input passes through and the
    /// state is untouched.
    pub fn process_sample(&mut self, input_l: i64, input_r: i64) -> (out: (i64, i64))
        ensures
            ({
                let s = biquad_step(*old(self), input_l, input_r);
                *final(self) == s.0 && out.0 == s.1 && out.1 == s.2
            }),
    {
        if self.coeffs.a0 == 0 {
            (input_l, input_r)
        } else {
            let coeffs = self.coeffs;
            let out_l = process_channel(&coeffs, &mut self.left, input_l);
            let out_r = process_channel(&coeffs, &mut self.right, input_r);
            (out_l, out_r)
        }
    }
}

/// Updating a band with the parameters it already holds leaves every
/// stored value, the coefficients included, bit-identical; any run of
/// such updates is therefore a no-op.
pub proof fn lemma_update_stable(b: Biquad)
    ensures
        biquad_updated(b, b.sample_rate, b.center_freq, b.gain_db, b.q_factor) == b,
{
}

/// One silent sample through a band with cleared history: the output is
/// zero and the history stays cleared.
pub proof fn lemma_silent_step(b: Biquad)
    requires
        b.left == zero_state(),
        b.right == zero_state(),
    ensures
        biquad_step(b, 0, 0) == (b, 0i64, 0i64),
{
    if b.coeffs.a0 != 0 {
        lemma_fx_mul_zero(b.coeffs.b0 as int);
        lemma_fx_mul_zero(b.coeffs.b1 as int);
        lemma_fx_mul_zero(b.coeffs.b2 as int);
        lemma_fx_mul_zero(b.coeffs.a1 as int);
        lemma_fx_mul_zero(b.coeffs.a2 as int);
        lemma_fx_div_zero(b.coeffs.a0 as int);
        assert(df1_output(b.coeffs, zero_state(), 0) == 0);
        assert(df1_shift(zero_state(), 0, 0) == zero_state());
    }
}

/// The first output of a unit impulse through a cleared history is
/// exactly `b0 / a0`.
pub proof fn lemma_impulse_first_tap(c: BiquadCoefficients)
    requires
        c.a0 != 0,
        -(crate::fixed::FX_MAX as int) <= c.b0 as int,
    ensures
        df1_output(c, zero_state(), crate::fixed::FX_ONE as int) == fx_div(
            c.b0 as int,
            c.a0 as int,
        ),
{
    crate::fixed::lemma_fx_mul_one(c.b0 as int);
    lemma_fx_mul_zero(c.b1 as int);
    lemma_fx_mul_zero(c.b2 as int);
    lemma_fx_mul_zero(c.a1 as int);
    lemma_fx_mul_zero(c.a2 as int);
}

/// The second output of a unit impulse (the next input being zero) is
/// exactly `(b1 - a1 * y0) / a0`, with `y0` the first output.
pub proof fn lemma_impulse_second_tap(c: BiquadCoefficients, y0: i64)
    requires
        c.a0 != 0,
        -(crate::fixed::FX_MAX as int) <= c.b1 as int,
    ensures
        df1_output(c, df1_shift(zero_state(), crate::fixed::FX_ONE, y0), 0) == fx_div(
            fx_sub(c.b1 as int, fx_mul(c.a1 as int, y0 as int)),
            c.a0 as int,
        ),
{
    crate::fixed::lemma_fx_mul_one(c.b1 as int);
    lemma_fx_mul_zero(c.b0 as int);
    lemma_fx_mul_zero(c.b2 as int);
    lemma_fx_mul_zero(c.a2 as int);
}

/// A band run over a sequence of stereo samples, sample by sample.
pub open spec fn biquad_run(b: Biquad, ins: Seq<(i64, i64)>) -> (Biquad, Seq<(i64, i64)>)
    decreases ins.len(),
{
    if ins.len() == 0 {
        (b, Seq::empty())
    } else {
        let s = biquad_step(b, ins[0].0, ins[0].1);
        let rest = biquad_run(s.0, ins.subrange(1, ins.len() as int));
        (rest.0, seq![(s.1, s.2)] + rest.1)
    }
}

/// Silence is idempotent: any number of all-zero samples through a band
/// with cleared history yields all-zero output and leaves the band,
/// history included, exactly as it was.
pub proof fn lemma_silence_idempotent(b: Biquad, ins: Seq<(i64, i64)>)
    requires
        b.left == zero_state(),
        b.right == zero_state(),
        forall|i: int| 0 <= i < ins.len() ==> ins[i] == (0i64, 0i64),
    ensures
        biquad_run(b, ins).0 == b,
        biquad_run(b, ins).1.len() == ins.len(),
        forall|i: int| 0 <= i < ins.len() ==> biquad_run(b, ins).1[i] == (0i64, 0i64),
    decreases ins.len(),
{
    if ins.len() == 0 {
    } else {
        assert(ins[0] == (0i64, 0i64));
        lemma_silent_step(b);
        let tail = ins.subrange(1, ins.len() as int);
        assert(forall|i: int| 0 <= i < tail.len() ==> tail[i] == (0i64, 0i64));
        lemma_silence_idempotent(b, tail);
        let s = biquad_step(b, 0, 0);
        assert(s.0 == b);
        assert(biquad_run(b, ins).1 == seq![(0i64, 0i64)] + biquad_run(b, tail).1);
    }
}

} // verus!
