//! The interleaved biquad: one shared set of coefficients and one to
//! ten rotating history slots, each a full stereo Direct-Form-I state.
//!
//! Every slot filters with the same coefficients, recomputed lazily by
//! `update` exactly as for a plain `Biquad`; `process_sample` runs the
//! recursion on the currently active slot only, and `increment_index`
//! advances the active slot round-robin, so consecutive repeated passes
//! within one output sample touch different histories.

use vstd::prelude::*;
use crate::fixed::qadd;
use crate::fixed::qdiv;
use crate::fixed::qmul;
use crate::trig::{qsin, FX_TWO_PI};
use crate::coeffs::{BiquadCoefficients, FilterType};
use crate::biquad::{
    coeffs_for, df1_output, df1_shift, process_channel, zero_state, ChannelState,
};
use vstd::arithmetic::div_mod::{
    lemma_add_mod_noop, lemma_mod_bound, lemma_mod_multiples_vanish, lemma_small_mod,
};

verus! {

/// One rotating slot: an independent stereo history.
#[derive(Clone, Copy, PartialEq, Eq, Structural, Debug)]
pub struct StereoState {
    pub left: ChannelState,
    pub right: ChannelState,
}

/// A slot with both channel histories cleared.
pub open spec fn zero_stereo() -> StereoState {
    StereoState { left: zero_state(), right: zero_state() }
}

impl StereoState {
    /// A cleared slot.
    pub fn zero() -> (r: Self)
        ensures
            r == zero_stereo(),
    {
        StereoState { left: ChannelState::zero(), right: ChannelState::zero() }
    }
}

/// The mathematical model of an interleaved biquad: the same data with
/// the slot vector as a sequence, for use in contracts.
pub ghost struct IqModel {
    pub biquad_type: FilterType,
    pub sample_rate: int,
    pub center_freq: int,
    pub gain_db: int,
    pub q_factor: int,
    pub slots: Seq<StereoState>,
    pub active: int,
    pub coeffs: BiquadCoefficients,
}

impl IqModel {
    /// The structural invariant: one to ten slots, active index in range.
    pub open spec fn wf(self) -> bool {
        1 <= self.slots.len() <= 10 && 0 <= self.active < self.slots.len()
    }
}

/// The slot sequence after `set_interleave(n)`: truncated, or extended
/// with cleared slots.
pub open spec fn resized_slots(s: Seq<StereoState>, n: int) -> Seq<StereoState> {
    Seq::new(n as nat, |i: int| if i < s.len() { s[i] } else { zero_stereo() })
}

/// The model after `set_interleave(n)`: slots resized, the active index
/// kept unless shrinking would strand it, in which case it restarts at
/// the first slot.
pub open spec fn iq_with_interleave(m: IqModel, n: int) -> IqModel {
    IqModel {
        slots: resized_slots(m.slots, n),
        active: if m.active < n { m.active } else { 0 },
        ..m
    }
}

/// The model after `update`: parameters stored, the shared coefficients
/// recomputed only if one of the four parameters changed; every slot's
/// history is untouched.
pub open spec fn iq_updated(m: IqModel, sample_rate: int, center_freq: int, gain_db: int, q_factor: int)
    -> IqModel {
    if m.sample_rate == sample_rate && m.center_freq == center_freq && m.gain_db == gain_db
        && m.q_factor == q_factor {
        m
    } else {
        IqModel {
            sample_rate: sample_rate,
            center_freq: center_freq,
            gain_db: gain_db,
            q_factor: q_factor,
            coeffs: coeffs_for(m.biquad_type, sample_rate, center_freq, gain_db, q_factor),
            ..m
        }
    }
}

/// The model and stereo output after `process_sample`: Direct Form I on
/// the active slot's two histories, or an exact pass-through when the
/// shared `a0` is zero.
pub open spec fn iq_step(m: IqModel, input_l: i64, input_r: i64) -> (IqModel, i64, i64) {
    if m.coeffs.a0 == 0 {
        (m, input_l, input_r)
    } else {
        let slot = m.slots[m.active];
        let out_l = df1_output(m.coeffs, slot.left, input_l as int) as i64;
        let out_r = df1_output(m.coeffs, slot.right, input_r as int) as i64;
        let new_slot = StereoState {
            left: df1_shift(slot.left, input_l, out_l),
            right: df1_shift(slot.right, input_r, out_r),
        };
        (IqModel { slots: m.slots.update(m.active, new_slot), ..m }, out_l, out_r)
    }
}

/// The model after `increment_index`: the active slot advances by one,
/// wrapping modulo the interleave depth.
pub open spec fn iq_bumped(m: IqModel) -> IqModel {
    IqModel { active: (m.active + 1) % m.slots.len() as int, ..m }
}

/// A biquad with one to ten rotating history slots sharing one set of
/// coefficients.
pub struct InterleavedBiquad {
    pub biquad_type: FilterType,
    pub sample_rate: i64,
    pub center_freq: i64,
    pub gain_db: i64,
    pub q_factor: i64,
    pub slots: Vec<StereoState>,
    pub active: usize,
    pub coeffs: BiquadCoefficients,
}

impl InterleavedBiquad {
    /// The model this filter denotes in contracts.
    pub open spec fn model(&self) -> IqModel {
        IqModel {
            biquad_type: self.biquad_type,
            sample_rate: self.sample_rate as int,
            center_freq: self.center_freq as int,
            gain_db: self.gain_db as int,
            q_factor: self.q_factor as int,
            slots: self.slots@,
            active: self.active as int,
            coeffs: self.coeffs,
        }
    }

    /// The structural invariant of the live filter.
    pub open spec fn wf(&self) -> bool {
        self.model().wf()
    }

    /// Construct an interleaved band with `interleave` cleared slots and
    /// coefficients derived from the construction parameters. Degenerate
    /// rates and resonances are rejected at this boundary.
    pub fn new(
        sample_rate: i64,
        center_freq: i64,
        gain_db: i64,
        q_factor: i64,
        biquad_type: FilterType,
        interleave: usize,
    ) -> (r: Self)
        requires
            sample_rate > 0,
            q_factor > 0,
            1 <= interleave <= 10,
        ensures
            r.wf(),
            r.biquad_type == biquad_type,
            r.sample_rate == sample_rate,
            r.center_freq == center_freq,
            r.gain_db == gain_db,
            r.q_factor == q_factor,
            r.slots@.len() == interleave,
            forall|i: int| 0 <= i < interleave ==> r.slots@[i] == zero_stereo(),
            r.active == 0,
            r.coeffs == coeffs_for(
                biquad_type,
                sample_rate as int,
                center_freq as int,
                gain_db as int,
                q_factor as int,
            ),
    {
        let omega = qdiv(qmul(FX_TWO_PI, center_freq), sample_rate);
        let alpha = qdiv(qsin(omega), qadd(q_factor, q_factor));
        let mut slots: Vec<StereoState> = Vec::new();
        while slots.len() < interleave
            invariant
                slots@.len() <= interleave,
                forall|i: int| 0 <= i < slots@.len() ==> slots@[i] == zero_stereo(),
            decreases interleave - slots@.len(),
        {
            slots.push(StereoState::zero());
        }
        InterleavedBiquad {
            biquad_type: biquad_type,
            sample_rate: sample_rate,
            center_freq: center_freq,
            gain_db: gain_db,
            q_factor: q_factor,
            slots: slots,
            active: 0,
            coeffs: BiquadCoefficients::new(biquad_type, alpha, omega, gain_db),
        }
    }

    /// Set the number of rotating slots (one to ten, the caller clamps).
    /// Kept slots keep their history, new slots start cleared, and the
    /// active index is never left out of range.
    pub fn set_interleave(&mut self, n: usize)
        requires
            old(self).wf(),
            1 <= n <= 10,
        ensures
            final(self).wf(),
            final(self).model() == iq_with_interleave(old(self).model(), n as int),
    {
        if n < self.slots.len() {
            self.slots.truncate(n);
            proof {
                assert(self.slots@ =~= resized_slots(old(self).slots@, n as int));
            }
        } else {
            while self.slots.len() < n
                invariant
                    old(self).slots@.len() <= self.slots@.len() <= n,
                    forall|i: int|
                        0 <= i < old(self).slots@.len() ==> self.slots@[i] == old(
                            self,
                        ).slots@[i],
                    forall|i: int|
                        old(self).slots@.len() <= i < self.slots@.len() ==> self.slots@[i]
                            == zero_stereo(),
                    self.biquad_type == old(self).biquad_type,
                    self.sample_rate == old(self).sample_rate,
                    self.center_freq == old(self).center_freq,
                    self.gain_db == old(self).gain_db,
                    self.q_factor == old(self).q_factor,
                    self.active == old(self).active,
                    self.coeffs == old(self).coeffs,
                decreases n - self.slots@.len(),
            {
                self.slots.push(StereoState::zero());
            }
            proof {
                assert(self.slots@ =~= resized_slots(old(self).slots@, n as int));
            }
        }
        if self.active >= n {
            self.active = 0;
        }
    }

    /// Change the filter type; it takes effect on the next `update` that
    /// recomputes the coefficients.
    pub fn set_type(&mut self, biquad_type: FilterType)
        ensures
            final(self).model() == (IqModel { biquad_type: biquad_type, ..old(self).model() }),
            final(self).wf() == old(self).wf(),
    {
        self.biquad_type = biquad_type;
    }

    /// Store the four parameters and recompute the shared coefficients
    /// only if one of them actually changed — uniformly for every slot,
    /// since the slots share them. No slot's history moves.
    pub fn update(&mut self, sample_rate: i64, center_freq: i64, gain_db: i64, q_factor: i64)
        requires
            sample_rate > 0,
            q_factor > 0,
        ensures
            final(self).model() == iq_updated(
                old(self).model(),
                sample_rate as int,
                center_freq as int,
                gain_db as int,
                q_factor as int,
            ),
            final(self).wf() == old(self).wf(),
    {
        let mut recalc = false;
        if self.sample_rate != sample_rate {
            self.sample_rate = sample_rate;
            recalc = true;
        }
        if self.center_freq != center_freq {
            self.center_freq = center_freq;
            recalc = true;
        }
        if self.gain_db != gain_db {
            self.gain_db = gain_db;
            recalc = true;
        }
        if self.q_factor != q_factor {
            self.q_factor = q_factor;
            recalc = true;
        }
        if recalc {
            let omega = qdiv(qmul(FX_TWO_PI, center_freq), sample_rate);
            let alpha = qdiv(qsin(omega), qadd(q_factor, q_factor));
            self.coeffs = BiquadCoefficients::new(self.biquad_type, alpha, omega, self.gain_db);
        }
    }

    /// Filter one stereo sample pair using the currently active slot's
    /// history and the shared coefficients; bypass exactly when the
    /// shared `a0` is zero.
    pub fn process_sample(&mut self, input_l: i64, input_r: i64) -> (out: (i64, i64))
        requires
            old(self).wf(),
        ensures
            final(self).wf(),
            ({
                let s = iq_step(old(self).model(), input_l, input_r);
                final(self).model() == s.0 && out.0 == s.1 && out.1 == s.2
            }),
    {
        if self.coeffs.a0 == 0 {
            (input_l, input_r)
        } else {
            let idx = self.active;
            let coeffs = self.coeffs;
            let mut slot = self.slots[idx];
            let out_l = process_channel(&coeffs, &mut slot.left, input_l);
            let out_r = process_channel(&coeffs, &mut slot.right, input_r);
            self.slots[idx] = slot;
            (out_l, out_r)
        }
    }

    /// Advance the active slot by one, wrapping modulo the interleave
    /// depth; called once per oversampling sub-step.
    pub fn increment_index(&mut self)
        requires
            old(self).wf(),
        ensures
            final(self).wf(),
            final(self).model() == iq_bumped(old(self).model()),
    {
        self.active = (self.active + 1) % self.slots.len();
    }
}

/// One silent sample through an interleaved band whose every slot is
/// cleared: the output is zero and no slot moves.
pub proof fn lemma_iq_silent_step(m: IqModel)
    requires
        m.wf(),
        forall|i: int| 0 <= i < m.slots.len() ==> m.slots[i] == zero_stereo(),
    ensures
        iq_step(m, 0, 0).0 == m,
        iq_step(m, 0, 0).1 == 0i64,
        iq_step(m, 0, 0).2 == 0i64,
{
    if m.coeffs.a0 != 0 {
        crate::fixed::lemma_fx_mul_zero(m.coeffs.b0 as int);
        crate::fixed::lemma_fx_mul_zero(m.coeffs.b1 as int);
        crate::fixed::lemma_fx_mul_zero(m.coeffs.b2 as int);
        crate::fixed::lemma_fx_mul_zero(m.coeffs.a1 as int);
        crate::fixed::lemma_fx_mul_zero(m.coeffs.a2 as int);
        crate::fixed::lemma_fx_div_zero(m.coeffs.a0 as int);
        assert(m.slots[m.active] == zero_stereo());
        assert(df1_output(m.coeffs, zero_state(), 0) == 0);
        assert(df1_shift(zero_state(), 0, 0) == zero_state());
        assert(m.slots.update(m.active, zero_stereo()) =~= m.slots);
    }
}

/// An interleaved band run over a sequence of stereo samples.
pub open spec fn iq_run(m: IqModel, ins: Seq<(i64, i64)>) -> (IqModel, Seq<(i64, i64)>)
    decreases ins.len(),
{
    if ins.len() == 0 {
        (m, Seq::empty())
    } else {
        let s = iq_step(m, ins[0].0, ins[0].1);
        let rest = iq_run(s.0, ins.subrange(1, ins.len() as int));
        (rest.0, seq![(s.1, s.2)] + rest.1)
    }
}

/// Silence is idempotent for the interleaved band too: any number of
/// all-zero samples through cleared slots yields all-zero output and
/// leaves every slot cleared and the band unchanged.
pub proof fn lemma_iq_silence_idempotent(m: IqModel, ins: Seq<(i64, i64)>)
    requires
        m.wf(),
        forall|i: int| 0 <= i < m.slots.len() ==> m.slots[i] == zero_stereo(),
        forall|i: int| 0 <= i < ins.len() ==> ins[i] == (0i64, 0i64),
    ensures
        iq_run(m, ins).0 == m,
        iq_run(m, ins).1.len() == ins.len(),
        forall|i: int| 0 <= i < ins.len() ==> iq_run(m, ins).1[i] == (0i64, 0i64),
    decreases ins.len(),
{
    if ins.len() > 0 {
        assert(ins[0] == (0i64, 0i64));
        lemma_iq_silent_step(m);
        let tail = ins.subrange(1, ins.len() as int);
        assert(forall|i: int| 0 <= i < tail.len() ==> tail[i] == (0i64, 0i64));
        lemma_iq_silence_idempotent(m, tail);
        assert(iq_run(m, ins).1 == seq![(0i64, 0i64)] + iq_run(m, tail).1);
    }
}

/// The active index after `k` single advances from `i`, each wrapping
/// modulo `n`.
pub open spec fn advanced(i: int, n: int, k: nat) -> int
    decreases k,
{
    if k == 0 {
        i
    } else {
        (advanced(i, n, (k - 1) as nat) + 1) % n
    }
}

/// Taking one more step modulo `n` commutes with reducing first.
proof fn lemma_mod_succ(a: int, n: int)
    requires
        n > 0,
    ensures
        (a % n + 1) % n == (a + 1) % n,
{
    lemma_add_mod_noop(a, 1, n);
    if n == 1 {
        lemma_mod_bound(a % n + 1, n);
        lemma_mod_bound(a + 1, n);
        lemma_mod_bound(a % n + 1int % n, n);
    } else {
        lemma_small_mod(1, n as nat);
    }
}

/// `k` single advances land on `(i + k) % n`.
pub proof fn lemma_advanced_linear(i: int, n: int, k: nat)
    requires
        n > 0,
        0 <= i < n,
    ensures
        advanced(i, n, k) == (i + k) % n,
    decreases k,
{
    if k == 0 {
        lemma_small_mod(i as nat, n as nat);
    } else {
        lemma_advanced_linear(i, n, (k - 1) as nat);
        lemma_mod_succ(i + k - 1, n);
    }
}

/// Advancing the active slot once per sub-step, `n` times for an
/// interleave depth of `n`, returns it to exactly where it started —
/// for every depth and every in-range starting slot.
pub proof fn lemma_increment_cycle(i: int, n: int)
    requires
        n > 0,
        0 <= i < n,
    ensures
        advanced(i, n, n as nat) == i,
{
    lemma_advanced_linear(i, n, n as nat);
    lemma_mod_multiples_vanish(1, i, n);
    lemma_small_mod(i as nat, n as nat);
}

} // verus!
