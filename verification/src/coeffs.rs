//! Derivation of the six biquad coefficients for the seven filter
//! responses, following the classical audio-EQ-cookbook formulas.
//!
//! The derivation is a pure function of the filter type, the
//! pre-computed intermediate values `alpha` and `omega`, and the band
//! gain in decibels. The gain-dependent responses use the amplitude
//! factor `A = 10^(gain/80)`; it is clamped to stay positive so that
//! the peak formula's division is total even in the degenerate
//! far-negative-gain region, which callers are expected to avoid.

use vstd::prelude::*;
use crate::fixed::{
    fx_add, fx_div, fx_divi, fx_mul, fx_neg, fx_sub, lemma_fx_div_one, lemma_fx_mul_two,
    lemma_fx_mul_zero, qadd, qdiv, qdivi, qmul, qneg, qsub, FX_ONE, FX_TWO,
};
use crate::trig::{fx_cos, fx_sin, qcos, qsin};
use crate::gain::{fx_amp, fx_sqrt, lemma_amp_zero, lemma_sqrt_one, qamp, qsqrt};

verus! {

/// The seven filter responses the solver knows.
#[derive(Clone, Copy, PartialEq, Eq, Structural, Debug)]
pub enum FilterType {
    LowPass,
    HighPass,
    BandPass,
    Notch,
    Peak,
    LowShelf,
    HighShelf,
}

/// The six coefficients of one biquad section, in Q32.32.
#[derive(Clone, Copy, PartialEq, Eq, Structural, Debug)]
pub struct BiquadCoefficients {
    pub b0: i64,
    pub b1: i64,
    pub b2: i64,
    pub a0: i64,
    pub a1: i64,
    pub a2: i64,
}

/// The amplitude factor, kept at least one least-significant bit above
/// zero so dividing by it is always defined.
pub open spec fn amp_clamped(gain: int) -> int {
    let a = fx_amp(gain);
    if a < 1 {
        1
    } else {
        a
    }
}

/// The cookbook coefficients for a filter type, given `alpha`,
/// `omega` and the gain in decibels.
pub open spec fn derived_coeffs(t: FilterType, alpha: int, omega: int, gain: int)
    -> BiquadCoefficients {
    let cosw = fx_cos(omega);
    let sinw = fx_sin(omega);
    match t {
        FilterType::LowPass => (BiquadCoefficients {
            b0: fx_divi(fx_sub(FX_ONE as int, cosw), 2) as i64,
            b1: fx_sub(FX_ONE as int, cosw) as i64,
            b2: fx_divi(fx_sub(FX_ONE as int, cosw), 2) as i64,
            a0: fx_add(FX_ONE as int, alpha) as i64,
            a1: fx_neg(fx_mul(FX_TWO as int, cosw)) as i64,
            a2: fx_sub(FX_ONE as int, alpha) as i64,
        }),
        FilterType::HighPass => (BiquadCoefficients {
            b0: fx_divi(fx_add(FX_ONE as int, cosw), 2) as i64,
            b1: fx_neg(fx_add(FX_ONE as int, cosw)) as i64,
            b2: fx_divi(fx_add(FX_ONE as int, cosw), 2) as i64,
            a0: fx_add(FX_ONE as int, alpha) as i64,
            a1: fx_neg(fx_mul(FX_TWO as int, cosw)) as i64,
            a2: fx_sub(FX_ONE as int, alpha) as i64,
        }),
        FilterType::BandPass => (BiquadCoefficients {
            b0: fx_divi(sinw, 2) as i64,
            b1: 0,
            b2: fx_neg(fx_divi(sinw, 2)) as i64,
            a0: fx_add(FX_ONE as int, alpha) as i64,
            a1: fx_neg(fx_mul(FX_TWO as int, cosw)) as i64,
            a2: fx_sub(FX_ONE as int, alpha) as i64,
        }),
        FilterType::Notch => (BiquadCoefficients {
            b0: FX_ONE,
            b1: fx_neg(fx_mul(FX_TWO as int, cosw)) as i64,
            b2: FX_ONE,
            a0: fx_add(FX_ONE as int, alpha) as i64,
            a1: fx_neg(fx_mul(FX_TWO as int, cosw)) as i64,
            a2: fx_sub(FX_ONE as int, alpha) as i64,
        }),
        FilterType::Peak => {
            let amp = amp_clamped(gain);
            (BiquadCoefficients {
                b0: fx_add(FX_ONE as int, fx_mul(alpha, amp)) as i64,
                b1: fx_neg(fx_mul(FX_TWO as int, cosw)) as i64,
                b2: fx_sub(FX_ONE as int, fx_mul(alpha, amp)) as i64,
                a0: fx_add(FX_ONE as int, fx_div(alpha, amp)) as i64,
                a1: fx_neg(fx_mul(FX_TWO as int, cosw)) as i64,
                a2: fx_sub(FX_ONE as int, fx_div(alpha, amp)) as i64,
            })
        },
        FilterType::LowShelf => {
            let amp = amp_clamped(gain);
            let s2a = fx_mul(fx_mul(FX_TWO as int, fx_sqrt(amp)), alpha);
            let ap1 = fx_add(amp, FX_ONE as int);
            let am1 = fx_sub(amp, FX_ONE as int);
            (BiquadCoefficients {
                b0: fx_mul(amp, fx_add(fx_sub(ap1, fx_mul(am1, cosw)), s2a)) as i64,
                b1: fx_mul(fx_mul(FX_TWO as int, amp), fx_sub(am1, fx_mul(ap1, cosw))) as i64,
                b2: fx_mul(amp, fx_sub(fx_sub(ap1, fx_mul(am1, cosw)), s2a)) as i64,
                a0: fx_add(fx_add(ap1, fx_mul(am1, cosw)), s2a) as i64,
                a1: fx_neg(fx_mul(FX_TWO as int, fx_add(am1, fx_mul(ap1, cosw)))) as i64,
                a2: fx_sub(fx_add(ap1, fx_mul(am1, cosw)), s2a) as i64,
            })
        },
        FilterType::HighShelf => {
            let amp = amp_clamped(gain);
            let s2a = fx_mul(fx_mul(FX_TWO as int, fx_sqrt(amp)), alpha);
            let ap1 = fx_add(amp, FX_ONE as int);
            let am1 = fx_sub(amp, FX_ONE as int);
            (BiquadCoefficients {
                b0: fx_mul(amp, fx_add(fx_add(ap1, fx_mul(am1, cosw)), s2a)) as i64,
                b1: fx_neg(fx_mul(fx_mul(FX_TWO as int, amp), fx_add(am1, fx_mul(ap1, cosw)))) as i64,
                b2: fx_mul(amp, fx_sub(fx_add(ap1, fx_mul(am1, cosw)), s2a)) as i64,
                a0: fx_add(fx_sub(ap1, fx_mul(am1, cosw)), s2a) as i64,
                a1: fx_mul(FX_TWO as int, fx_sub(am1, fx_mul(ap1, cosw))) as i64,
                a2: fx_sub(fx_sub(ap1, fx_mul(am1, cosw)), s2a) as i64,
            })
        },
    }
}

impl BiquadCoefficients {
    /// Derive the coefficients for one filter configuration.
    pub fn new(biquad_type: FilterType, alpha: i64, omega: i64, peak_gain: i64) -> (r: Self)
        ensures
            r == derived_coeffs(biquad_type, alpha as int, omega as int, peak_gain as int),
    {
        let cos_omega = qcos(omega);
        let sin_omega = qsin(omega);
        match biquad_type {
            FilterType::LowPass => BiquadCoefficients {
                b0: qdivi(qsub(FX_ONE, cos_omega), 2),
                b1: qsub(FX_ONE, cos_omega),
                b2: qdivi(qsub(FX_ONE, cos_omega), 2),
                a0: qadd(FX_ONE, alpha),
                a1: qneg(qmul(FX_TWO, cos_omega)),
                a2: qsub(FX_ONE, alpha),
            },
            FilterType::HighPass => BiquadCoefficients {
                b0: qdivi(qadd(FX_ONE, cos_omega), 2),
                b1: qneg(qadd(FX_ONE, cos_omega)),
                b2: qdivi(qadd(FX_ONE, cos_omega), 2),
                a0: qadd(FX_ONE, alpha),
                a1: qneg(qmul(FX_TWO, cos_omega)),
                a2: qsub(FX_ONE, alpha),
            },
            FilterType::BandPass => BiquadCoefficients {
                b0: qdivi(sin_omega, 2),
                b1: 0,
                b2: qneg(qdivi(sin_omega, 2)),
                a0: qadd(FX_ONE, alpha),
                a1: qneg(qmul(FX_TWO, cos_omega)),
                a2: qsub(FX_ONE, alpha),
            },
            FilterType::Notch => BiquadCoefficients {
                b0: FX_ONE,
                b1: qneg(qmul(FX_TWO, cos_omega)),
                b2: FX_ONE,
                a0: qadd(FX_ONE, alpha),
                a1: qneg(qmul(FX_TWO, cos_omega)),
                a2: qsub(FX_ONE, alpha),
            },
            FilterType::Peak => {
                let amp = clamp_amp(qamp(peak_gain));
                BiquadCoefficients {
                    b0: qadd(FX_ONE, qmul(alpha, amp)),
                    b1: qneg(qmul(FX_TWO, cos_omega)),
                    b2: qsub(FX_ONE, qmul(alpha, amp)),
                    a0: qadd(FX_ONE, qdiv(alpha, amp)),
                    a1: qneg(qmul(FX_TWO, cos_omega)),
                    a2: qsub(FX_ONE, qdiv(alpha, amp)),
                }
            },
            FilterType::LowShelf => {
                let amp = clamp_amp(qamp(peak_gain));
                let s2a = qmul(qmul(FX_TWO, qsqrt(amp)), alpha);
                let ap1 = qadd(amp, FX_ONE);
                let am1 = qsub(amp, FX_ONE);
                BiquadCoefficients {
                    b0: qmul(amp, qadd(qsub(ap1, qmul(am1, cos_omega)), s2a)),
                    b1: qmul(qmul(FX_TWO, amp), qsub(am1, qmul(ap1, cos_omega))),
                    b2: qmul(amp, qsub(qsub(ap1, qmul(am1, cos_omega)), s2a)),
                    a0: qadd(qadd(ap1, qmul(am1, cos_omega)), s2a),
                    a1: qneg(qmul(FX_TWO, qadd(am1, qmul(ap1, cos_omega)))),
                    a2: qsub(qadd(ap1, qmul(am1, cos_omega)), s2a),
                }
            },
            FilterType::HighShelf => {
                let amp = clamp_amp(qamp(peak_gain));
                let s2a = qmul(qmul(FX_TWO, qsqrt(amp)), alpha);
                let ap1 = qadd(amp, FX_ONE);
                let am1 = qsub(amp, FX_ONE);
                BiquadCoefficients {
                    b0: qmul(amp, qadd(qadd(ap1, qmul(am1, cos_omega)), s2a)),
                    b1: qneg(qmul(qmul(FX_TWO, amp), qadd(am1, qmul(ap1, cos_omega)))),
                    b2: qmul(amp, qsub(qadd(ap1, qmul(am1, cos_omega)), s2a)),
                    a0: qadd(qsub(ap1, qmul(am1, cos_omega)), s2a),
                    a1: qmul(FX_TWO, qsub(am1, qmul(ap1, cos_omega))),
                    a2: qsub(qsub(ap1, qmul(am1, cos_omega)), s2a),
                }
            },
        }
    }
}

/// Keep the amplitude factor at least one least-significant bit above zero.
fn clamp_amp(a: i64) -> (r: i64)
    ensures
        r as int == ({
            if (a as int) < 1 {
                1int
            } else {
                a as int
            }
        }),
{
    if a < 1 {
        1
    } else {
        a
    }
}

/// With the gain at zero decibels and any positive `alpha` at most one,
/// every one of the seven responses derives a strictly positive `a0`.
pub proof fn lemma_unity_gain_a0_positive(t: FilterType, alpha: int, omega: int)
    requires
        0 < alpha <= FX_ONE as int,
    ensures
        derived_coeffs(t, alpha, omega, 0).a0 > 0,
{
    lemma_amp_zero();
    assert(amp_clamped(0) == FX_ONE as int);
    let cosw = fx_cos(omega);
    match t {
        FilterType::LowPass => {},
        FilterType::HighPass => {},
        FilterType::BandPass => {},
        FilterType::Notch => {},
        FilterType::Peak => {
            lemma_fx_div_one(alpha);
            assert(fx_div(alpha, FX_ONE as int) == alpha);
        },
        FilterType::LowShelf => {
            lemma_sqrt_one();
            lemma_fx_mul_zero(cosw);
            lemma_fx_mul_two(FX_ONE as int);
            lemma_fx_mul_two(alpha);
            assert(fx_sub(FX_ONE as int, FX_ONE as int) == 0);
            assert(fx_mul(0, cosw) == 0);
            assert(fx_mul(FX_TWO as int, alpha) == 2 * alpha);
            assert(derived_coeffs(t, alpha, omega, 0).a0 == 2 * (FX_ONE as int) + 2 * alpha);
        },
        FilterType::HighShelf => {
            lemma_sqrt_one();
            lemma_fx_mul_zero(cosw);
            lemma_fx_mul_two(FX_ONE as int);
            lemma_fx_mul_two(alpha);
            assert(fx_sub(FX_ONE as int, FX_ONE as int) == 0);
            assert(fx_mul(0, cosw) == 0);
            assert(fx_mul(FX_TWO as int, alpha) == 2 * alpha);
            assert(derived_coeffs(t, alpha, omega, 0).a0 == 2 * (FX_ONE as int) + 2 * alpha);
        },
    }
}

} // verus!
