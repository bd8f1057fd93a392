//! Demodulation of a two-tone radio-teletype signal into text, in integer
//! arithmetic throughout.
//!
//! The chain, from the audio samples to the text:
//!
//! - `signal`: sampled signals in fixed point, with sums, differences,
//!   products and quotients sample by sample, running sum and centred
//!   difference, convolution and filtering, and a slicer with hysteresis;
//!   `fixed` holds the arithmetic on single samples, `algebra` the laws.
//! - `nco`: an oscillator that walks a table of one cycle, and a clock that
//!   ticks where the oscillator's wave rises through zero.
//! - `filter`: low-pass kernels, a sinc under a Blackman window.
//! - `demod`: a quadrature discriminator, which turns the two tones into the
//!   two signs of a signal and then into symbols, one for each sample.
//! - `clock`: recovery of the bit clock, which picks one symbol near the
//!   middle of each bit cell.
//! - `baudot`: framing and the five-unit code, which turn picked symbols into
//!   characters.
//!
//! Values that do not fit a sample saturate; a quotient by zero is zero.
//! Nothing in the chain fails on bad data: a frame that is not closed by a
//! stop bit is dropped, and a code that the table lacks prints as `?`.
pub mod algebra;
pub mod baudot;
pub mod clock;
pub mod demod;
pub mod filter;
pub mod fixed;
pub mod nco;
pub mod signal;
