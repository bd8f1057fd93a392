//! A quadrature discriminator for two-tone frequency-shift keying.
//!
//! The incoming signal is mixed with a sine and a cosine at the detection
//! frequency and low-pass filtered, which gives an in-phase part `i` and a
//! quadrature part `q`. With `i'` and `q'` their differences, the quotient
//! `(i * q' - q * i') / (i * i + q * q)` follows the deviation of the
//! instantaneous frequency from the detection frequency, with no arctangent
//! taken. Where `i` and `q` are both zero the quotient is zero. The quotient
//! is filtered once more and then cut into symbols.
use vstd::prelude::*;
use vstd::pervasive::unreached;
use crate::nco::NCOTable;
use crate::signal::{BitStream, Signal, SignalError, SignalModel};

verus! {

/// The in-phase or quadrature part of `raw`: the product with the
/// oscillator's wave from phase `index` on, low-pass filtered with `lowpass`.
pub open spec fn mixed(
    raw: SignalModel,
    table: &NCOTable,
    index: int,
    detect: int,
    lowpass: SignalModel,
) -> SignalModel {
    table.wave(index, table.steps(detect), raw.len()).times(raw).filtered(lowpass)
}

/// The quotient `(i * q' - q * i') / (i * i + q * q)` of an in-phase part `i`
/// and a quadrature part `q`.
pub open spec fn deviation(i: SignalModel, q: SignalModel) -> SignalModel {
    i.times(q.centered_difference()).minus(q.times(i.centered_difference())).over(
        i.times(i).plus(q.times(q)),
    )
}

/// The smoothed frequency deviation of `raw` about the frequency `detect`.
pub open spec fn discriminated(
    raw: SignalModel,
    table: &NCOTable,
    detect: int,
    lowpass: SignalModel,
) -> SignalModel {
    deviation(
        mixed(raw, table, 0, detect, lowpass),
        mixed(raw, table, table.phase(1, 4), detect, lowpass),
    ).filtered(lowpass)
}

fn product(a: Signal, b: Signal) -> (r: Signal)
    requires
        a.wf(),
        b.wf(),
        a@.len() == b@.len(),
    ensures
        r.wf(),
        r@ == a@.times(b@),
{
    match a * b {
        Ok(r) => r,
        Err(_) => unreached(),
    }
}

fn mix(raw: &Signal, wave: Signal, lowpass: &Signal) -> (r: Signal)
    requires
        raw.wf(),
        wave.wf(),
        lowpass.wf(),
        wave@.len() == raw@.len(),
    ensures
        r.wf(),
        r@ == wave@.times(raw@).filtered(lowpass@),
{
    product(wave, raw.clone()).filter(lowpass)
}

fn deviate(i: Signal, q: Signal) -> (r: Signal)
    requires
        i.wf(),
        q.wf(),
        i@.len() == q@.len(),
    ensures
        r.wf(),
        r@ == deviation(i@, q@),
{
    let id: Signal = i.diff();
    let qd: Signal = q.diff();
    let i2: Signal = product(i.clone(), i.clone());
    let q2: Signal = product(q.clone(), q.clone());
    let cross: Signal = match product(i, qd) - product(q, id) {
        Ok(r) => r,
        Err(_) => unreached(),
    };
    let power: Signal = match i2 + q2 {
        Ok(r) => r,
        Err(_) => unreached(),
    };
    match cross / power {
        Ok(r) => r,
        Err(_) => unreached(),
    }
}

/// Turns the two-tone signal `raw` into a signal that is positive while the
/// tone lies on one side of the frequency `detect` and negative while it lies
/// on the other. The result is shorter than `raw` by the samples that two
/// passes of the filter drop.
pub fn discriminate(raw: &Signal, table: &NCOTable, detect: u64, lowpass: &Signal) -> (r: Signal)
    requires
        raw.wf(),
        table.wf(),
        lowpass.wf(),
    ensures
        r.wf(),
        r@ == discriminated(raw@, table, detect as int, lowpass@),
{
    let size: usize = raw.len();
    let i: Signal = mix(raw, table.sin(detect).into_signal(size), lowpass);
    let q: Signal = mix(raw, table.cos(detect).into_signal(size), lowpass);
    deviate(i, q).filter(lowpass)
}

/// Demodulates `raw` into one symbol for each sample that the discriminator
/// gives: the discriminator's output cut with hysteresis at `threshold`.
pub fn demodulate(
    raw: &Signal,
    table: &NCOTable,
    detect: u64,
    lowpass: &Signal,
    threshold: i32,
) -> (bits: BitStream)
    requires
        raw.wf(),
        table.wf(),
        lowpass.wf(),
    ensures
        bits.wf(),
        bits.stream@ == discriminated(raw@, table, detect as int, lowpass@).sliced(
            threshold as int,
        ),
{
    discriminate(raw, table, detect, lowpass).into_bitstream(threshold)
}

} // verus!
