//! The mix stage around the filter chain: linear input/output gain, the
//! dry/wet crossfade, and the raw per-tick amplitude handed to metering.
//!
//! The crossfade computes `dry * (1 - wet_mix) + wet * wet_mix`. At
//! `wet_mix == 0` it reproduces the dry signal exactly and at
//! `wet_mix == 1` the wet signal exactly; both laws are proved below.

use vstd::prelude::*;
use crate::fixed::{
    fx_add, fx_mul, fx_sub, lemma_fx_mul_one, lemma_fx_mul_zero, qadd, qmul, qsub, FX_MAX, FX_ONE,
};

verus! {

/// A sample scaled by a linear gain factor.
pub open spec fn gain_applied(x: int, g: int) -> int {
    fx_mul(x, g)
}

/// Apply a linear gain factor to one sample.
pub fn apply_gain(x: i64, g: i64) -> (r: i64)
    ensures
        r as int == gain_applied(x as int, g as int),
{
    qmul(x, g)
}

/// The dry/wet crossfade: `dry * (1 - wet_mix) + wet * wet_mix`.
pub open spec fn mixed(dry: int, wet: int, wet_mix: int) -> int {
    fx_add(fx_mul(dry, fx_sub(FX_ONE as int, wet_mix)), fx_mul(wet, wet_mix))
}

/// Cross-fade the unprocessed and the filtered sample.
pub fn mix_dry_wet(dry: i64, wet: i64, wet_mix: i64) -> (r: i64)
    ensures
        r as int == mixed(dry as int, wet as int, wet_mix as int),
{
    qadd(qmul(dry, qsub(FX_ONE, wet_mix)), qmul(wet, wet_mix))
}

/// The raw amplitude of one stereo pair, as handed to the excluded
/// metering layer: the (saturating) sum of the two channels.
pub fn tick_amplitude(l: i64, r: i64) -> (a: i64)
    ensures
        a as int == fx_add(l as int, r as int),
{
    qadd(l, r)
}

/// A fully dry mix is an exact bypass: at `wet_mix == 0` the crossfade
/// reproduces the dry sample bit for bit.
pub proof fn lemma_mix_dry_is_bypass(dry: int, wet: int)
    requires
        -(FX_MAX as int) <= dry <= FX_MAX as int,
    ensures
        mixed(dry, wet, 0) == dry,
{
    lemma_fx_mul_one(dry);
    lemma_fx_mul_zero(wet);
}

/// A fully wet mix reproduces the filtered sample bit for bit.
pub proof fn lemma_mix_wet_is_filtered(dry: int, wet: int)
    requires
        -(FX_MAX as int) <= wet <= FX_MAX as int,
    ensures
        mixed(dry, wet, FX_ONE as int) == wet,
{
    lemma_fx_mul_zero(dry);
    lemma_fx_mul_one(wet);
}

} // verus!
