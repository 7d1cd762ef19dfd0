//! The five-band chain and its per-sample pipeline.
//!
//! Each tick the caller hands in the current parameters; every band is
//! updated (lazily) and the stereo sample then cascades through the
//! five bands in fixed left-to-right order, the output of one band
//! feeding the next. An oversampling setting of `k` extra passes
//! (`k <= 2`) re-enters each band on its own just-produced output `k`
//! more times. An interleave depth of two or more selects the
//! interleaved band set, which advances its rotating slot after every
//! pass; a depth below two selects the plain set. The full per-sample
//! flow around this chain — input gain, cascade, dry/wet crossfade,
//! output gain — is `process_frame`.

use vstd::prelude::*;
use crate::coeffs::FilterType;
use crate::biquad::{biquad_fresh, biquad_step, biquad_updated, Biquad};
use crate::interleaved::{
    iq_bumped, iq_step, iq_updated, iq_with_interleave, InterleavedBiquad, IqModel,
};
use crate::mix::{apply_gain, gain_applied, mix_dry_wet, mixed};

verus! {

/// 44100 Hz in Q32.32: the construction-time placeholder rate, replaced
/// by the first real `update`.
pub const FX_RATE_44100: i64 = 189408057753600;

/// 800 Hz in Q32.32: the construction-time placeholder center frequency.
pub const FX_FREQ_800: i64 = 3435973836800;

/// 0.707 in Q32.32: the construction-time placeholder resonance.
pub const FX_Q_707: i64 = 3036541878;

/// The number of bands in the chain.
pub const BAND_COUNT: usize = 5;

/// One band's controlling parameters for a tick.
#[derive(Clone, Copy, PartialEq, Eq, Structural, Debug)]
pub struct BandParams {
    pub center_freq: i64,
    pub gain_db: i64,
    pub q_factor: i64,
    pub filter_type: FilterType,
}

/// Everything the caller supplies for one tick of the chain.
pub struct TickParams {
    pub sample_rate: i64,
    pub bands: Vec<BandParams>,
    pub interleave: usize,
    pub extra_passes: usize,
}

impl TickParams {
    /// The caller keeps these in range, clamping at its own boundary:
    /// a positive rate and resonance for every band, an interleave
    /// depth of one to ten, and at most two extra passes.
    pub open spec fn wf(&self) -> bool {
        &&& self.sample_rate > 0
    &&& self.bands@.len() == BAND_COUNT
    &&& forall|i: int| 0 <= i < BAND_COUNT ==> self.bands@[i].q_factor > 0
    &&& 1 <= self.interleave <= 10
    &&& self.extra_passes <= 2
    }
}

/// A plain band after one tick: lazily updated, then `n >= 1` passes,
/// each feeding the previous pass's output back in.
pub open spec fn simple_band_tick(b: Biquad, sample_rate: i64, p: BandParams, l: i64, r: i64, n: nat)
    -> (Biquad, i64, i64)
    decreases n,
{
    if n <= 1 {
        biquad_step(biquad_updated(b, sample_rate, p.center_freq, p.gain_db, p.q_factor), l, r)
    } else {
        let s = simple_band_tick(b, sample_rate, p, l, r, (n - 1) as nat);
        biquad_step(s.0, s.1, s.2)
    }
}

/// One pass of an interleaved band: filter on the active slot, then
/// advance the rotating index.
pub open spec fn iq_pass(m: IqModel, l: i64, r: i64) -> (IqModel, i64, i64) {
    let s = iq_step(m, l, r);
    (iq_bumped(s.0), s.1, s.2)
}

/// An interleaved band after one tick: slots resized, type stored,
/// lazily updated, then `n >= 1` passes, the rotating index advancing
/// after every pass.
pub open spec fn inter_band_tick(
    m: IqModel,
    sample_rate: i64,
    p: BandParams,
    depth: int,
    l: i64,
    r: i64,
    n: nat,
) -> (IqModel, i64, i64)
    decreases n,
{
    if n <= 1 {
        let prepared = iq_updated(
            IqModel { biquad_type: p.filter_type, ..iq_with_interleave(m, depth) },
            sample_rate as int,
            p.center_freq as int,
            p.gain_db as int,
            p.q_factor as int,
        );
        iq_pass(prepared, l, r)
    } else {
        let s = inter_band_tick(m, sample_rate, p, depth, l, r, (n - 1) as nat);
        iq_pass(s.0, s.1, s.2)
    }
}

/// The plain five-band cascade: band `i`'s output feeds band `i + 1`.
pub open spec fn simple_chain_tick(
    bs: Seq<Biquad>,
    sample_rate: i64,
    ps: Seq<BandParams>,
    l: i64,
    r: i64,
    n: nat,
) -> (Seq<Biquad>, i64, i64) {
    let s0 = simple_band_tick(bs[0], sample_rate, ps[0], l, r, n);
    let s1 = simple_band_tick(bs[1], sample_rate, ps[1], s0.1, s0.2, n);
    let s2 = simple_band_tick(bs[2], sample_rate, ps[2], s1.1, s1.2, n);
    let s3 = simple_band_tick(bs[3], sample_rate, ps[3], s2.1, s2.2, n);
    let s4 = simple_band_tick(bs[4], sample_rate, ps[4], s3.1, s3.2, n);
    (seq![s0.0, s1.0, s2.0, s3.0, s4.0], s4.1, s4.2)
}

/// The interleaved five-band cascade.
pub open spec fn inter_chain_tick(
    ms: Seq<IqModel>,
    sample_rate: i64,
    ps: Seq<BandParams>,
    depth: int,
    l: i64,
    r: i64,
    n: nat,
) -> (Seq<IqModel>, i64, i64) {
    let s0 = inter_band_tick(ms[0], sample_rate, ps[0], depth, l, r, n);
    let s1 = inter_band_tick(ms[1], sample_rate, ps[1], depth, s0.1, s0.2, n);
    let s2 = inter_band_tick(ms[2], sample_rate, ps[2], depth, s1.1, s1.2, n);
    let s3 = inter_band_tick(ms[3], sample_rate, ps[3], depth, s2.1, s2.2, n);
    let s4 = inter_band_tick(ms[4], sample_rate, ps[4], depth, s3.1, s3.2, n);
    (seq![s0.0, s1.0, s2.0, s3.0, s4.0], s4.1, s4.2)
}

/// The models of a band vector, for contracts.
pub open spec fn models_of(v: Seq<InterleavedBiquad>) -> Seq<IqModel> {
    Seq::new(v.len(), |i: int| v[i].model())
}

/// Run one plain band for a tick: lazy update, then `extra + 1` passes.
fn run_simple_band(
    b: &mut Biquad,
    sample_rate: i64,
    p: &BandParams,
    l: i64,
    r: i64,
    extra: usize,
) -> (out: (i64, i64))
    requires
        sample_rate > 0,
        p.q_factor > 0,
        extra <= 2,
    ensures
        ({
            let s = simple_band_tick(*old(b), sample_rate, *p, l, r, (extra + 1) as nat);
            *final(b) == s.0 && out.0 == s.1 && out.1 == s.2
        }),
{
    b.update(sample_rate, p.center_freq, p.gain_db, p.q_factor);
    let mut out = b.process_sample(l, r);
    let mut i: usize = 0;
    while i < extra
        invariant
            i <= extra,
            ({
                let s = simple_band_tick(*old(b), sample_rate, *p, l, r, (i + 1) as nat);
                *b == s.0 && out.0 == s.1 && out.1 == s.2
            }),
        decreases extra - i,
    {
        out = b.process_sample(out.0, out.1);
        i = i + 1;
    }
    out
}

/// Run one interleaved band for a tick: resize, type, lazy update, then
/// `extra + 1` passes with the rotating index advancing after each.
fn run_inter_band(
    b: &mut InterleavedBiquad,
    sample_rate: i64,
    p: &BandParams,
    depth: usize,
    l: i64,
    r: i64,
    extra: usize,
) -> (out: (i64, i64))
    requires
        old(b).wf(),
        sample_rate > 0,
        p.q_factor > 0,
        1 <= depth <= 10,
        extra <= 2,
    ensures
        final(b).wf(),
        ({
            let s = inter_band_tick(
                old(b).model(),
                sample_rate,
                *p,
                depth as int,
                l,
                r,
                (extra + 1) as nat,
            );
            final(b).model() == s.0 && out.0 == s.1 && out.1 == s.2
        }),
{
    b.set_interleave(depth);
    b.set_type(p.filter_type);
    b.update(sample_rate, p.center_freq, p.gain_db, p.q_factor);
    let mut out = b.process_sample(l, r);
    b.increment_index();
    let mut i: usize = 0;
    while i < extra
        invariant
            i <= extra,
            b.wf(),
            ({
                let s = inter_band_tick(
                    old(b).model(),
                    sample_rate,
                    *p,
                    depth as int,
                    l,
                    r,
                    (i + 1) as nat,
                );
                b.model() == s.0 && out.0 == s.1 && out.1 == s.2
            }),
        decreases extra - i,
    {
        out = b.process_sample(out.0, out.1);
        b.increment_index();
        i = i + 1;
    }
    out
}

/// The five-band chain: a plain and an interleaved band set; each tick
/// selects one of the two by the interleave depth.
pub struct BandChain {
    pub simple: Vec<Biquad>,
    pub inter: Vec<InterleavedBiquad>,
}

impl BandChain {
    /// The structural invariant: five bands in each set, every
    /// interleaved band internally well formed.
    pub open spec fn wf(&self) -> bool {
        &&& self.simple@.len() == BAND_COUNT
    &&& self.inter@.len() == BAND_COUNT
    &&& forall|i: int| 0 <= i < BAND_COUNT ==> self.inter@[i].wf()
    }

    /// Construct the chain with placeholder parameters (44100 Hz, 800 Hz
    /// peak at a resonance of 0.707, two interleave slots); the first
    /// real tick overwrites them before audio reaches the bands.
    pub fn new() -> (r: Self)
        ensures
            r.wf(),
            forall|i: int|
                0 <= i < BAND_COUNT ==> r.simple@[i] == biquad_fresh(
                    FX_RATE_44100,
                    FX_FREQ_800,
                    0,
                    FX_Q_707,
                    FilterType::Peak,
                ),
    {
        let mut simple: Vec<Biquad> = Vec::new();
        while simple.len() < BAND_COUNT
            invariant
                simple@.len() <= BAND_COUNT,
                forall|i: int|
                    0 <= i < simple@.len() ==> simple@[i] == biquad_fresh(
                        FX_RATE_44100,
                        FX_FREQ_800,
                        0,
                        FX_Q_707,
                        FilterType::Peak,
                    ),
            decreases BAND_COUNT - simple@.len(),
        {
            simple.push(Biquad::new(FX_RATE_44100, FX_FREQ_800, 0, FX_Q_707, FilterType::Peak));
        }
        let mut inter: Vec<InterleavedBiquad> = Vec::new();
        while inter.len() < BAND_COUNT
            invariant
                inter@.len() <= BAND_COUNT,
                forall|i: int| 0 <= i < inter@.len() ==> inter@[i].wf(),
            decreases BAND_COUNT - inter@.len(),
        {
            inter.push(
                InterleavedBiquad::new(
                    FX_RATE_44100,
                    FX_FREQ_800,
                    0,
                    FX_Q_707,
                    FilterType::Peak,
                    2,
                ),
            );
        }
        BandChain { simple: simple, inter: inter }
    }

    /// The interleaved half of a tick: resize, retype, update and run
    /// all five interleaved bands in cascade.
    #[verifier::rlimit(100)]
    #[verifier::spinoff_prover]
    fn run_inter_chain(&mut self, params: &TickParams, in_l: i64, in_r: i64) -> (out: (i64, i64))
        requires
            old(self).wf(),
            params.wf(),
            params.interleave >= 2,
        ensures
            final(self).wf(),
            ({
                let s = inter_chain_tick(
                    models_of(old(self).inter@),
                    params.sample_rate,
                    params.bands@,
                    params.interleave as int,
                    in_l,
                    in_r,
                    (params.extra_passes + 1) as nat,
                );
                &&& models_of(final(self).inter@) == s.0
                &&& final(self).simple@ == old(self).simple@
                &&& out.0 == s.1
                &&& out.1 == s.2
            }),
    {
        let sr = params.sample_rate;
        let extra = params.extra_passes;
        let depth = params.interleave;
        let o0 = run_inter_band(&mut self.inter[0], sr, &params.bands[0], depth, in_l, in_r, extra);
        let o1 = run_inter_band(&mut self.inter[1], sr, &params.bands[1], depth, o0.0, o0.1, extra);
        let o2 = run_inter_band(&mut self.inter[2], sr, &params.bands[2], depth, o1.0, o1.1, extra);
        let o3 = run_inter_band(&mut self.inter[3], sr, &params.bands[3], depth, o2.0, o2.1, extra);
        let o4 = run_inter_band(&mut self.inter[4], sr, &params.bands[4], depth, o3.0, o3.1, extra);
        proof {
            let s = inter_chain_tick(
                models_of(old(self).inter@),
                sr,
                params.bands@,
                depth as int,
                in_l,
                in_r,
                (extra + 1) as nat,
            );
            assert(models_of(self.inter@) =~= s.0);
        }
        o4
    }

    /// The plain half of a tick: update and run all five plain bands in
    /// cascade.
    #[verifier::rlimit(100)]
    #[verifier::spinoff_prover]
    fn run_simple_chain(&mut self, params: &TickParams, in_l: i64, in_r: i64) -> (out: (i64, i64))
        requires
            old(self).wf(),
            params.wf(),
        ensures
            final(self).wf(),
            ({
                let s = simple_chain_tick(
                    old(self).simple@,
                    params.sample_rate,
                    params.bands@,
                    in_l,
                    in_r,
                    (params.extra_passes + 1) as nat,
                );
                &&& final(self).simple@ == s.0
                &&& final(self).inter@ == old(self).inter@
                &&& out.0 == s.1
                &&& out.1 == s.2
            }),
    {
        let sr = params.sample_rate;
        let extra = params.extra_passes;
        let mut b0 = self.simple[0];
        let o0 = run_simple_band(&mut b0, sr, &params.bands[0], in_l, in_r, extra);
        self.simple[0] = b0;
        let mut b1 = self.simple[1];
        let o1 = run_simple_band(&mut b1, sr, &params.bands[1], o0.0, o0.1, extra);
        self.simple[1] = b1;
        let mut b2 = self.simple[2];
        let o2 = run_simple_band(&mut b2, sr, &params.bands[2], o1.0, o1.1, extra);
        self.simple[2] = b2;
        let mut b3 = self.simple[3];
        let o3 = run_simple_band(&mut b3, sr, &params.bands[3], o2.0, o2.1, extra);
        self.simple[3] = b3;
        let mut b4 = self.simple[4];
        let o4 = run_simple_band(&mut b4, sr, &params.bands[4], o3.0, o3.1, extra);
        self.simple[4] = b4;
        proof {
            let s = simple_chain_tick(
                old(self).simple@,
                sr,
                params.bands@,
                in_l,
                in_r,
                (extra + 1) as nat,
            );
            assert(self.simple@ =~= s.0);
        }
        o4
    }

    /// Cascade one stereo sample through the five bands, updating each
    /// band from this tick's parameters first. An interleave depth of
    /// two or more runs the interleaved set (and leaves the plain set
    /// untouched); below two, the plain set (and the interleaved set is
    /// untouched).
    pub fn process_tick(&mut self, params: &TickParams, in_l: i64, in_r: i64) -> (out: (i64, i64))
        requires
            old(self).wf(),
            params.wf(),
        ensures
            final(self).wf(),
            params.interleave >= 2 ==> ({
                let s = inter_chain_tick(
                    models_of(old(self).inter@),
                    params.sample_rate,
                    params.bands@,
                    params.interleave as int,
                    in_l,
                    in_r,
                    (params.extra_passes + 1) as nat,
                );
                &&& models_of(final(self).inter@) == s.0
                &&& final(self).simple@ == old(self).simple@
                &&& out.0 == s.1
                &&& out.1 == s.2
            }),
            params.interleave < 2 ==> ({
                let s = simple_chain_tick(
                    old(self).simple@,
                    params.sample_rate,
                    params.bands@,
                    in_l,
                    in_r,
                    (params.extra_passes + 1) as nat,
                );
                &&& final(self).simple@ == s.0
                &&& final(self).inter@ == old(self).inter@
                &&& out.0 == s.1
                &&& out.1 == s.2
            }),
    {
        if params.interleave >= 2 {
            self.run_inter_chain(params, in_l, in_r)
        } else {
            self.run_simple_chain(params, in_l, in_r)
        }
    }
}

/// One whole frame through the pipeline: input gain on both channels,
/// the five-band cascade, the dry/wet crossfade against the gained
/// input, and the output gain.
pub open spec fn frame_spec(
    chain_out_l: i64,
    chain_out_r: i64,
    gained_l: int,
    gained_r: int,
    wet_mix: int,
    output_gain: int,
) -> (int, int) {
    (
        gain_applied(mixed(gained_l, chain_out_l as int, wet_mix), output_gain),
        gain_applied(mixed(gained_r, chain_out_r as int, wet_mix), output_gain),
    )
}

/// Process one stereo frame: apply the input gain, cascade through the
/// chain, cross-fade the chain's output against the gained (dry) input,
/// and apply the output gain. Returns the output pair.
pub fn process_frame(
    chain: &mut BandChain,
    params: &TickParams,
    input_gain: i64,
    output_gain: i64,
    wet_mix: i64,
    in_l: i64,
    in_r: i64,
) -> (out: (i64, i64))
    requires
        old(chain).wf(),
        params.wf(),
    ensures
        final(chain).wf(),
        ({
            let gl = gain_applied(in_l as int, input_gain as int);
            let gr = gain_applied(in_r as int, input_gain as int);
            let wet = ({
                if params.interleave >= 2 {
                    let s = inter_chain_tick(
                        models_of(old(chain).inter@),
                        params.sample_rate,
                        params.bands@,
                        params.interleave as int,
                        gl as i64,
                        gr as i64,
                        (params.extra_passes + 1) as nat,
                    );
                    (s.1, s.2)
                } else {
                    let s = simple_chain_tick(
                        old(chain).simple@,
                        params.sample_rate,
                        params.bands@,
                        gl as i64,
                        gr as i64,
                        (params.extra_passes + 1) as nat,
                    );
                    (s.1, s.2)
                }
            });
            let f = frame_spec(wet.0, wet.1, gl, gr, wet_mix as int, output_gain as int);
            out.0 as int == f.0 && out.1 as int == f.1
        }),
{
    let gained_l = apply_gain(in_l, input_gain);
    let gained_r = apply_gain(in_r, input_gain);
    let wet = chain.process_tick(params, gained_l, gained_r);
    let mixed_l = mix_dry_wet(gained_l, wet.0, wet_mix);
    let mixed_r = mix_dry_wet(gained_r, wet.1, wet_mix);
    (apply_gain(mixed_l, output_gain), apply_gain(mixed_r, output_gain))
}

} // verus!
