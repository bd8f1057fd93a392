//! Design of low-pass kernels for convolution.
//!
//! A kernel is a signal of taps. The taps of a sinc kernel follow
//! `sin(2 pi c f / rate) / (pi c)` at the offset `c` from the middle tap,
//! which is one; a Blackman window weighs them down toward both ends. Sines
//! and cosines are read from an oscillator table, so a kernel is as good as
//! the table is fine, and it has the table's precision. Every kernel is
//! brought to unit gain at zero frequency.
use vstd::prelude::*;
use vstd::arithmetic::power2::pow2;
use crate::fixed::{clamp, divide, magnitude, quotient, saturate};
use crate::nco::NCOTable;
use crate::signal::{Signal, SignalError, SignalModel};

verus! {

/// The number of bits behind the binary point of `PI_RAW`.
pub const PI_PRECISION: u32 = 29;

/// The ratio of a circle's circumference to its diameter, to the nearest
/// value with `PI_PRECISION` bits behind the binary point.
pub const PI_RAW: i64 = 1686629713;

/// A designer of kernels for signals at the sample rate of its table.
#[derive(Debug)]
pub struct Kernel<'a> {
    /// The table that sines are read from.
    pub table: &'a NCOTable,
}

/// A designer of windows.
#[derive(Debug)]
pub struct Window;

/// The offset from the middle tap of the last tap of a sinc kernel asked for
/// with `bins` bins.
pub open spec fn reach(bins: nat) -> nat {
    ((bins - 1) / 2) as nat
}

/// The tap of a sinc kernel at `offset` from the middle: one in the middle,
/// and elsewhere the sine after as many samples as the offset is long,
/// divided by pi times that length.
pub open spec fn sinc_tap(table: &NCOTable, frequency: int, offset: int) -> int {
    if offset == 0 {
        clamp(pow2(table.precision as nat) as int)
    } else {
        clamp(
            quotient(
                table.sample_at(table.phase_after(0, table.steps(frequency), magnitude(offset)))
                    * pow2(PI_PRECISION as nat),
                PI_RAW * magnitude(offset),
            ),
        )
    }
}

/// The taps of a sinc kernel before they are brought to unit gain: as many
/// as `bins` if that is odd, and one less if it is even.
pub open spec fn sinc_taps(table: &NCOTable, frequency: int, bins: nat) -> SignalModel {
    SignalModel {
        samples: Seq::new(
            2 * reach(bins) + 1,
            |n: int| sinc_tap(table, frequency, n - reach(bins)),
        ),
        precision: table.precision as nat,
    }
}

/// The table's entry a quarter of a turn ahead of `index`: the cosine where
/// the table holds a sine.
pub open spec fn cosine_at(table: &NCOTable, index: int) -> int {
    table.sample_at((index + table.phase(1, 4)) % (table.range() as int))
}

/// The weight of a Blackman window of `last + 1` bins at bin `n`:
/// `0.42 - 0.5 cos(2 pi n / last) + 0.08 cos(4 pi n / last)`.
pub open spec fn blackman_tap(table: &NCOTable, n: int, last: int) -> int {
    clamp(
        quotient(
            42 * pow2(table.precision as nat) - 50 * cosine_at(table, table.phase(n, last)) + 8
                * cosine_at(
                table,
                (table.phase(n, last) + table.phase(n, last)) % (table.range() as int),
            ),
            100,
        ),
    )
}

/// The Blackman window of `bins` bins.
pub open spec fn blackman_taps(table: &NCOTable, bins: nat) -> SignalModel {
    SignalModel {
        samples: Seq::new(bins, |n: int| blackman_tap(table, n, bins - 1)),
        precision: table.precision as nat,
    }
}

/// The taps of a sinc kernel under a Blackman window, brought to unit gain.
pub open spec fn windowed_sinc_taps(table: &NCOTable, frequency: int, bins: nat) -> SignalModel {
    sinc_taps(table, frequency, bins).normalized().times(blackman_taps(table, bins)).normalized()
}

impl<'a> Kernel<'a> {
    /// A designer of kernels that reads its sines from `table`.
    pub fn new(table: &'a NCOTable) -> (k: Kernel<'a>)
        ensures
            k.table == table,
    {
        Kernel { table }
    }

    /// The kernel that changes nothing: a single tap of one.
    pub fn unit(&self) -> (r: Signal)
        ensures
            r.wf(),
            r.stream@ == seq![1i32],
            r.precision == 0,
    {
        let mut stream: Vec<i32> = Vec::with_capacity(1);
        stream.push(1);
        Signal { stream, precision: 0 }
    }

    /// A low-pass kernel with its edge at `frequency`, of `bins` taps if that
    /// is odd and of one less if it is even, brought to unit gain.
    pub fn sinc(&self, frequency: u64, bins: usize) -> (r: Signal)
        requires
            self.table.wf(),
            bins >= 1,
        ensures
            r.wf(),
            r@ == sinc_taps(self.table, frequency as int, bins as nat).normalized(),
    {
        let half: usize = (bins - 1) / 2;
        let precision: u32 = self.table.precision;
        let wave: Signal = self.table.sin(frequency).into_signal(half + 1);
        let one: i32 = saturate(crate::fixed::power_of_two(precision));
        let scale: i128 = crate::fixed::power_of_two(PI_PRECISION);
        let count: usize = 2 * half + 1;
        let mut taps_so_far: Vec<i32> = Vec::with_capacity(count);
        let mut n: usize = 0;
        proof {
            assert(wave@.samples.len() == half + 1);
        }
        while n < count
            invariant
                self.table.wf(),
                wave.stream@.len() == half + 1,
                half == reach(bins as nat),
                count == 2 * half + 1,
                precision == self.table.precision,
                wave@ == self.table.wave(
                    0,
                    self.table.steps(frequency as int),
                    (half + 1) as nat,
                ),
                one == clamp(pow2(precision as nat) as int),
                scale == pow2(PI_PRECISION as nat),
                0 <= n <= count,
                taps_so_far@.len() == n,
                forall|k: int|
                    0 <= k < n ==> taps_so_far@[k] as int == sinc_tap(
                        self.table,
                        frequency as int,
                        k - half,
                    ),
            decreases count - n,
        {
            let c: usize = if n >= half { n - half } else { half - n };
            let tap: i32 = if c == 0 {
                one
            } else {
                let sine: i32 = wave.stream[c];
                proof {
                    assert(wave@.samples[c as int] == sine as int);
                    vstd::arithmetic::power2::lemma2_to64();
                    let x = sine as int;
                    let y = c as int;
                    assert(-0x8000_0000 * 0x2000_0000 <= x * 0x2000_0000 <= 0x8000_0000
                        * 0x2000_0000);
                    assert(0 < 1686629713 * y <= 1686629713 * 0xFFFF_FFFF_FFFF_FFFF)
                        by (nonlinear_arith)
                        requires
                            0 < y <= 0xFFFF_FFFF_FFFF_FFFF,
                    ;
                }
                saturate(divide((sine as i128) * scale, (PI_RAW as i128) * (c as i128)))
            };
            taps_so_far.push(tap);
            n = n + 1;
        }
        let taps = Signal { stream: taps_so_far, precision };
        proof {
            assert(taps@.samples =~= sinc_taps(
                self.table,
                frequency as int,
                bins as nat,
            ).samples);
        }
        taps.normalize()
    }

    /// A low-pass kernel under a Blackman window. The kernel and its window
    /// are equally long only for an odd number of bins.
    pub fn windowed_sinc(&self, frequency: u64, bins: usize) -> (r: Result<Signal, SignalError>)
        requires
            self.table.wf(),
            bins >= 2,
        ensures
            bins % 2 == 0 ==> r == Err::<Signal, SignalError>(SignalError::LengthMismatch),
            bins % 2 == 1 ==> r is Ok && r->Ok_0.wf() && r->Ok_0@ == windowed_sinc_taps(
                self.table,
                frequency as int,
                bins as nat,
            ),
    {
        match self.sinc(frequency, bins) * Window::blackman(self.table, bins) {
            Ok(base) => Ok(base.normalize()),
            Err(e) => Err(e),
        }
    }
}

impl Window {
    /// The Blackman window of `bins` bins, which is lowest at both ends and
    /// highest in the middle. With fewer than two bins the window's formula
    /// divides by zero.
    pub fn blackman(table: &NCOTable, bins: usize) -> (r: Signal)
        requires
            table.wf(),
            bins >= 2,
        ensures
            r.wf(),
            r@ == blackman_taps(table, bins as nat),
    {
        let last: u64 = (bins - 1) as u64;
        let precision: u32 = table.precision;
        let one: i128 = crate::fixed::power_of_two(precision);
        proof {
            vstd::arithmetic::power2::lemma2_to64();
            if precision < 31 {
                vstd::arithmetic::power2::lemma_pow2_strictly_increases(precision as nat, 31);
            }
        }
        let base: i128 = 42 * one;
        let mut taps_so_far: Vec<i32> = Vec::with_capacity(bins);
        let mut n: usize = 0;
        while n < bins
            invariant
                table.wf(),
                bins >= 2,
                last == bins - 1,
                precision == table.precision,
                base == 42 * pow2(precision as nat),
                0 < base <= 42 * 0x8000_0000,
                0 <= n <= bins,
                taps_so_far@.len() == n,
                forall|k: int|
                    0 <= k < n ==> taps_so_far@[k] as int == blackman_tap(table, k, last as int),
            decreases bins - n,
        {
            let mut osc = table.step(0);
            osc.set_phase(n as u64, last);
            osc.shift_phase(1, 4);
            let once: i32 = match osc.next() {
                Some(v) => v,
                None => 0,
            };
            osc.set_phase(n as u64, last);
            osc.shift_phase(n as u64, last);
            osc.shift_phase(1, 4);
            let twice: i32 = match osc.next() {
                Some(v) => v,
                None => 0,
            };
            let wide: i128 = base - 50 * (once as i128) + 8 * (twice as i128);
            taps_so_far.push(saturate(divide(wide, 100)));
            n = n + 1;
        }
        let r = Signal { stream: taps_so_far, precision };
        proof {
            assert(r@.samples =~= blackman_taps(table, bins as nat).samples);
        }
        r
    }
}

} // verus!
