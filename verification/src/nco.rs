//! A numerically controlled oscillator: one table of a full cycle, and any
//! number of light cursors that walk it.
//!
//! The table holds `2^bits` samples of one cycle. A cursor keeps a phase
//! accumulator of `bits + fractional` bits and adds a fixed step to it for
//! every sample, modulo the accumulator's range; the top `bits` bits pick the
//! table entry. The extra `fractional` bits let the step come closer to a
//! wanted frequency without a larger table. Frequencies and the sample rate
//! are whole numbers in one unit of the caller's choice.
use vstd::prelude::*;
use vstd::arithmetic::power2::pow2;
use crate::fixed::MAX_PRECISION;
use crate::signal::Signal;

verus! {

/// One full cycle of a waveform, computed once and then only read.
#[derive(Debug)]
pub struct NCOTable {
    /// The table has `2^bits` entries.
    pub bits: usize,
    /// The bits of the phase accumulator below those that pick an entry.
    pub fractional: usize,
    /// The number of samples taken in one second, in the caller's unit of
    /// frequency.
    pub sample_rate: u64,
    /// The number of bits behind the binary point of each entry.
    pub precision: u32,
    /// The entries, from phase zero on.
    pub samples: Vec<i32>,
}

/// A cursor into a table: a phase and the step by which it advances.
#[derive(Debug)]
pub struct NCO<'a> {
    pub index: usize,
    pub step: usize,
    pub table: &'a NCOTable,
}

/// A clock derived from an oscillator: it ticks where the waveform rises
/// through zero.
#[derive(Debug)]
pub struct PulseTrain<'a> {
    pub nco: NCO<'a>,
    pub last: i32,
}

/// `v`, or the largest `usize` where `v` is beyond it.
pub open spec fn capped(v: int) -> int {
    if v > usize::MAX as int {
        usize::MAX as int
    } else {
        v
    }
}

/// The pulse that a clock gives on a sample that follows `last`: `1` where the
/// waveform has risen from below zero to zero or above, else `0`.
pub open spec fn pulse(last: int, sample: int) -> usize {
    if last < 0 && sample >= 0 {
        1
    } else {
        0
    }
}

impl NCOTable {
    /// The range of the phase accumulator, `2^(bits + fractional)`.
    pub open spec fn range(&self) -> nat {
        pow2((self.bits + self.fractional) as nat)
    }

    /// The table fits its description: it has `2^bits` entries, the phase
    /// accumulator fits a machine word, and the sample rate is not zero.
    pub open spec fn wf(&self) -> bool {
        &&& self.sample_rate > 0
        &&& self.bits + self.fractional < usize::BITS
        &&& self.samples@.len() == pow2(self.bits as nat)
        &&& self.precision <= MAX_PRECISION
    }

    /// The entry that the phase `index` picks.
    pub open spec fn sample_at(&self, index: int) -> int {
        self.samples@[index / (pow2(self.fractional as nat) as int)] as int
    }

    /// The step that comes closest from below to `freq`: the whole part of
    /// `range * freq / sample_rate`, capped at the largest `usize`.
    pub open spec fn steps(&self, freq: int) -> int {
        capped(self.range() * freq / (self.sample_rate as int))
    }

    /// The phase that lies `turns_num / turns_den` of a full turn past zero,
    /// modulo full turns.
    pub open spec fn phase(&self, turns_num: int, turns_den: int) -> int {
        (self.range() * turns_num / turns_den) % (self.range() as int)
    }

    /// The phase reached from `index` after `count` steps of `step`.
    pub open spec fn phase_after(&self, index: int, step: int, count: int) -> int {
        (index + count * step) % (self.range() as int)
    }

    /// The signal that an oscillator at phase `index` gives over `count`
    /// samples.
    pub open spec fn wave(&self, index: int, step: int, count: nat) -> crate::signal::SignalModel {
        crate::signal::SignalModel {
            samples: Seq::new(count, |k: int| self.sample_at(self.phase_after(index, step, k))),
            precision: self.precision as nat,
        }
    }

    /// One more step from the phase after `count` steps gives the phase after
    /// `count + 1` steps.
    pub proof fn lemma_phase_advances(&self, index: int, step: int, count: int)
        requires
            self.wf(),
        ensures
            self.phase_after(self.phase_after(index, step, count), step, 1) == self.phase_after(
                index,
                step,
                count + 1,
            ),
    {
        let r = self.range() as int;
        vstd::arithmetic::power2::lemma_pow2_pos((self.bits + self.fractional) as nat);
        assert((count + 1) * step == count * step + step) by (nonlinear_arith);
        assert(1 * step == step);
        vstd::arithmetic::div_mod::lemma_add_mod_noop(index + count * step, step, r);
        vstd::arithmetic::div_mod::lemma_add_mod_noop((index + count * step) % r, step, r);
        vstd::arithmetic::div_mod::lemma_mod_twice(index + count * step, r);
    }

    /// Every phase below the range picks an entry of the table.
    pub proof fn lemma_phase_picks_entry(&self, index: int)
        requires
            self.wf(),
            0 <= index < self.range(),
        ensures
            0 <= index / (pow2(self.fractional as nat) as int) < self.samples@.len(),
    {
        let f = pow2(self.fractional as nat) as int;
        let b = pow2(self.bits as nat) as int;
        vstd::arithmetic::power2::lemma_pow2_pos(self.fractional as nat);
        vstd::arithmetic::power2::lemma_pow2_adds(self.bits as nat, self.fractional as nat);
        assert(self.range() == b * f);
        vstd::arithmetic::div_mod::lemma_div_pos_is_pos(index, f);
        assert(index / f < b) by {
            vstd::arithmetic::div_mod::lemma_multiply_divide_lt(index, f, b);
        }
    }

    /// Builds a table from the samples of one cycle. Gives nothing unless
    /// there are `2^bits` samples, `bits + fractional` is less than the width
    /// of a machine word, the sample rate is not zero and the precision is at
    /// most `MAX_PRECISION`.
    pub fn new(
        sample_rate: u64,
        bits: usize,
        fractional: usize,
        samples: Vec<i32>,
        precision: u32,
    ) -> (r: Option<NCOTable>)
        ensures
            r is Some <==> {
                &&& sample_rate > 0
                &&& bits + fractional < usize::BITS
                &&& samples@.len() == pow2(bits as nat)
                &&& precision <= MAX_PRECISION
            },
            r is Some ==> {
                &&& r->Some_0.wf()
                &&& r->Some_0.sample_rate == sample_rate
                &&& r->Some_0.bits == bits
                &&& r->Some_0.fractional == fractional
                &&& r->Some_0.precision == precision
                &&& r->Some_0.samples == samples
            },
    {
        if sample_rate == 0 || precision > MAX_PRECISION {
            return None;
        }
        let width: usize = usize::BITS as usize;
        if bits >= width || fractional >= width - bits {
            return None;
        }
        let entries: usize = power_of_two(bits);
        if samples.len() != entries {
            return None;
        }
        Some(NCOTable { bits, fractional, sample_rate, precision, samples })
    }

    /// The range of the phase accumulator.
    pub fn accumulator_range(&self) -> (r: usize)
        requires
            self.wf(),
        ensures
            r == self.range(),
            r > 0,
    {
        power_of_two(self.bits + self.fractional)
    }

    /// The phase step for a frequency.
    pub fn steps_for_freq(&self, freq: u64) -> (step: usize)
        requires
            self.wf(),
        ensures
            step == self.steps(freq as int),
    {
        let range: usize = self.accumulator_range();
        proof {
            let r = range as int;
            let f = freq as int;
            assert(0 <= r * f <= 0xFFFF_FFFF_FFFF_FFFF * 0xFFFF_FFFF_FFFF_FFFF)
                by (nonlinear_arith)
                requires
                    0 <= r <= 0xFFFF_FFFF_FFFF_FFFF,
                    0 <= f <= 0xFFFF_FFFF_FFFF_FFFF,
            ;
        }
        let exact: u128 = (range as u128) * (freq as u128) / (self.sample_rate as u128);
        if exact > usize::MAX as u128 {
            usize::MAX
        } else {
            exact as usize
        }
    }

    /// An oscillator at phase zero that advances by `step` for every sample.
    pub fn step(&self, step: usize) -> (osc: NCO<'_>)
        requires
            self.wf(),
        ensures
            osc.wf(),
            osc.index == 0,
            osc.step == step,
            osc.table == self,
    {
        proof {
            vstd::arithmetic::power2::lemma_pow2_pos((self.bits + self.fractional) as nat);
        }
        NCO { index: 0, step, table: self }
    }

    /// An oscillator at phase zero with the step for `freq`.
    pub fn freq(&self, freq: u64) -> (osc: NCO<'_>)
        requires
            self.wf(),
        ensures
            osc.wf(),
            osc.index == 0,
            osc.step == self.steps(freq as int),
            osc.table == self,
    {
        let step: usize = self.steps_for_freq(freq);
        self.step(step)
    }

    /// A sine oscillator: the table walked from phase zero.
    pub fn sin(&self, freq: u64) -> (osc: NCO<'_>)
        requires
            self.wf(),
        ensures
            osc.wf(),
            osc.index == 0,
            osc.step == self.steps(freq as int),
            osc.table == self,
    {
        self.freq(freq)
    }

    /// A cosine oscillator: the sine a quarter of a turn ahead.
    pub fn cos(&self, freq: u64) -> (osc: NCO<'_>)
        requires
            self.wf(),
        ensures
            osc.wf(),
            osc.index == self.phase(1, 4),
            osc.step == self.steps(freq as int),
            osc.table == self,
    {
        let mut osc = self.sin(freq);
        osc.set_phase(1, 4);
        osc
    }
}

impl Clone for NCOTable {
    fn clone(&self) -> (r: NCOTable)
        ensures
            r.bits == self.bits,
            r.fractional == self.fractional,
            r.sample_rate == self.sample_rate,
            r.precision == self.precision,
            r.samples@ == self.samples@,
    {
        NCOTable {
            bits: self.bits,
            fractional: self.fractional,
            sample_rate: self.sample_rate,
            precision: self.precision,
            samples: self.samples.clone(),
        }
    }
}

impl<'a> Clone for NCO<'a> {
    fn clone(&self) -> (r: NCO<'a>)
        ensures
            r == *self,
    {
        NCO { index: self.index, step: self.step, table: self.table }
    }
}

impl<'a> Clone for PulseTrain<'a> {
    fn clone(&self) -> (r: PulseTrain<'a>)
        ensures
            r == *self,
    {
        PulseTrain { nco: self.nco.clone(), last: self.last }
    }
}

/// A clock made from an oscillator at phase zero ticks on its first sample
/// and is silent on the second, whatever its step, if the table's first entry
/// is not negative, as that of a sine table is.
pub proof fn lemma_fresh_clock_ticks_once(table: &NCOTable, step: int)
    requires
        table.wf(),
        table.sample_at(0) >= 0,
    ensures
        pulse(-1, table.sample_at(0)) == 1,
        pulse(table.sample_at(0), table.sample_at(table.phase_after(0, step, 1))) == 0,
{
}

/// Two to the power `e`, for an `e` below the width of a machine word.
pub fn power_of_two(e: usize) -> (r: usize)
    requires
        e < usize::BITS,
    ensures
        r == pow2(e as nat),
        r > 0,
{
    proof {
        vstd::bits::lemma_usize_pow2_no_overflow(e as nat);
        vstd::bits::lemma_usize_shl_is_mul(1usize, e);
    }
    1usize << e
}

impl<'a> NCO<'a> {
    /// The oscillator reads a well-formed table at a phase within its range.
    pub open spec fn wf(&self) -> bool {
        self.table.wf() && self.index < self.table.range()
    }

    /// Replaces the step; the phase stays.
    pub fn set_step(&mut self, step: usize)
        ensures
            final(self).step == step,
            final(self).index == old(self).index,
            final(self).table == old(self).table,
    {
        self.step = step;
    }

    /// Retunes to `freq` without a jump in phase.
    pub fn set_freq(&mut self, freq: u64)
        requires
            old(self).wf(),
        ensures
            final(self).wf(),
            final(self).step == old(self).table.steps(freq as int),
            final(self).index == old(self).index,
            final(self).table == old(self).table,
    {
        let step: usize = self.table.steps_for_freq(freq);
        self.set_step(step);
    }

    /// The phase offset that `turns_num / turns_den` of a turn comes to.
    fn offset(&self, turns_num: u64, turns_den: u64) -> (r: usize)
        requires
            self.table.wf(),
            turns_den > 0,
        ensures
            r == self.table.phase(turns_num as int, turns_den as int),
            r < self.table.range(),
    {
        let range: usize = self.table.accumulator_range();
        proof {
            let r = range as int;
            let n = turns_num as int;
            assert(0 <= r * n <= 0xFFFF_FFFF_FFFF_FFFF * 0xFFFF_FFFF_FFFF_FFFF)
                by (nonlinear_arith)
                requires
                    0 <= r <= 0xFFFF_FFFF_FFFF_FFFF,
                    0 <= n <= 0xFFFF_FFFF_FFFF_FFFF,
            ;
        }
        let turned: u128 = (range as u128) * (turns_num as u128) / (turns_den as u128);
        (turned % (range as u128)) as usize
    }

    /// Sets the phase to `turns_num / turns_den` of a full turn.
    pub fn set_phase(&mut self, turns_num: u64, turns_den: u64)
        requires
            old(self).table.wf(),
            turns_den > 0,
        ensures
            final(self).wf(),
            final(self).index == old(self).table.phase(turns_num as int, turns_den as int),
            final(self).step == old(self).step,
            final(self).table == old(self).table,
    {
        let phase_step: usize = self.offset(turns_num, turns_den);
        self.index = phase_step;
    }

    /// Moves the phase on by `turns_num / turns_den` of a full turn.
    pub fn shift_phase(&mut self, turns_num: u64, turns_den: u64)
        requires
            old(self).wf(),
            turns_den > 0,
        ensures
            final(self).wf(),
            final(self).index == (old(self).index + old(self).table.phase(
                turns_num as int,
                turns_den as int,
            )) % (old(self).table.range() as int),
            final(self).step == old(self).step,
            final(self).table == old(self).table,
    {
        let range: usize = self.table.accumulator_range();
        let phase_step: usize = self.offset(turns_num, turns_den);
        self.index = (((self.index as u128) + (phase_step as u128)) % (range as u128)) as usize;
    }

    /// Gives the sample at the present phase, then advances the phase by one
    /// step. An oscillator never runs out.
    pub fn next(&mut self) -> (r: Option<i32>)
        requires
            old(self).wf(),
        ensures
            final(self).wf(),
            r is Some,
            r->Some_0 as int == old(self).table.sample_at(old(self).index as int),
            final(self).index == old(self).table.phase_after(
                old(self).index as int,
                old(self).step as int,
                1,
            ),
            final(self).step == old(self).step,
            final(self).table == old(self).table,
    {
        let range: usize = self.table.accumulator_range();
        proof {
            self.table.lemma_phase_picks_entry(self.index as int);
            vstd::bits::lemma_usize_shr_is_div(self.index, self.table.fractional);
        }
        let result: i32 = self.table.samples[self.index >> self.table.fractional];
        self.index = (((self.index as u128) + (self.step as u128)) % (range as u128)) as usize;
        Some(result)
    }

    /// The next `samples` samples of the oscillator as a signal at the
    /// table's precision.
    pub fn into_signal(self, samples: usize) -> (r: Signal)
        requires
            self.wf(),
        ensures
            r.wf(),
            r@ == self.table.wave(self.index as int, self.step as int, samples as nat),
    {
        let precision: u32 = self.table.precision;
        let mut osc = self;
        let mut vec: Vec<i32> = Vec::with_capacity(samples);
        let mut i: usize = 0;
        proof {
            assert(0 * (self.step as int) == 0);
            vstd::arithmetic::div_mod::lemma_small_mod(self.index as nat, self.table.range());
        }
        while i < samples
            invariant
                osc.wf(),
                self.wf(),
                osc.table == self.table,
                osc.step == self.step,
                0 <= i <= samples,
                vec@.len() == i,
                osc.index == self.table.phase_after(self.index as int, self.step as int, i as int),
                forall|k: int|
                    0 <= k < i ==> vec@[k] as int == self.table.sample_at(
                        self.table.phase_after(self.index as int, self.step as int, k),
                    ),
            decreases samples - i,
        {
            proof {
                self.table.lemma_phase_advances(self.index as int, self.step as int, i as int);
            }
            let v: i32 = match osc.next() {
                Some(v) => v,
                None => 0,
            };
            vec.push(v);
            i = i + 1;
        }
        let r = Signal { stream: vec, precision };
        proof {
            assert(r@.samples =~= self.table.wave(
                self.index as int,
                self.step as int,
                samples as nat,
            ).samples);
        }
        r
    }

    /// Turns the oscillator into a clock that ticks on every rise through
    /// zero. The clock starts as if the waveform had just been negative.
    pub fn into_pulsetrain(self) -> (pt: PulseTrain<'a>)
        ensures
            pt.nco == self,
            pt.last == -1,
    {
        PulseTrain { nco: self, last: -1 }
    }
}

impl<'a> PulseTrain<'a> {
    /// The clock runs on a well-formed oscillator.
    pub open spec fn wf(&self) -> bool {
        self.nco.wf()
    }

    /// Advances the clock by one sample. Gives `1` where the waveform rose
    /// from below zero to zero or above, else `0`. A clock never runs out.
    pub fn next(&mut self) -> (r: Option<usize>)
        requires
            old(self).wf(),
        ensures
            final(self).wf(),
            r == Some(
                pulse(
                    old(self).last as int,
                    old(self).nco.table.sample_at(old(self).nco.index as int),
                ),
            ),
            final(self).last as int == old(self).nco.table.sample_at(old(self).nco.index as int),
            final(self).nco.index == old(self).nco.table.phase_after(
                old(self).nco.index as int,
                old(self).nco.step as int,
                1,
            ),
            final(self).nco.step == old(self).nco.step,
            final(self).nco.table == old(self).nco.table,
    {
        let n: i32 = match self.nco.next() {
            Some(v) => v,
            None => 0,
        };
        let result: usize = if self.last < 0 && n >= 0 { 1 } else { 0 };
        self.last = n;
        Some(result)
    }
}

} // verus!
