//! Core of a parametric equalizer: derivation of biquad filter
//! coefficients for seven response types, Direct-Form-I filtering with
//! persistent per-channel history, an interleaved multi-slot variant,
//! a five-band chain with oversampling-style repeated passes, and a
//! dry/wet mix stage.
//!
//! All signal values, frequencies, gains and coefficients are exact
//! fixed-point numbers: `i64` with 32 fractional bits ("Q32.32").
//! Every arithmetic step saturates instead of wrapping, and every
//! function states the exact value it computes, so the whole numeric
//! pipeline is verified end to end.

pub mod fixed;
pub mod trig;
pub mod gain;
pub mod coeffs;
pub mod biquad;
pub mod interleaved;
pub mod mix;
pub mod chain;
pub mod equalizer;
