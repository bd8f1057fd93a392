//! Recovery of the bit clock: picks one symbol near the middle of each bit
//! cell out of a stream that holds one symbol for every audio sample.
//!
//! A local clock runs at the nominal baud rate. Every change of the incoming
//! symbol restarts it, so that it stays locked to the edges of the data. Each
//! tick of the local clock arms a countdown of half a bit cell; the symbol at
//! which the countdown runs out is the one that is picked.
use vstd::prelude::*;
use crate::nco::{capped, pulse, NCOTable, PulseTrain};
use crate::signal::BitStream;

verus! {

/// The state of clock recovery between two symbols.
#[derive(Debug)]
pub struct ClockRecovery<'a> {
    /// The table that the local clock reads.
    pub table: &'a NCOTable,
    /// The nominal symbol rate, in the unit of the table's sample rate.
    pub baud: u64,
    /// Half a bit cell, in samples.
    pub half_period: usize,
    /// The local clock.
    pub clock: PulseTrain<'a>,
    /// The samples left until a symbol is picked, while a pick is due.
    pub countdown: Option<usize>,
    /// The symbol seen last, once one was seen.
    pub previous: Option<usize>,
}

/// What changes from symbol to symbol in clock recovery.
pub struct ClockModel {
    /// The phase of the local clock.
    pub index: int,
    /// The last sample of the local clock's waveform.
    pub last: int,
    /// The samples left until a symbol is picked, while a pick is due.
    pub countdown: Option<int>,
    /// The symbol seen last, once one was seen.
    pub previous: Option<usize>,
}

/// Half a bit cell in samples: the whole part of `sample_rate / (2 * baud)`,
/// capped at the largest `usize`.
pub open spec fn half_period(sample_rate: int, baud: int) -> int {
    capped(sample_rate / (2 * baud))
}

impl ClockModel {
    /// The state before the first symbol: the local clock is fresh, a pick is
    /// due after half a bit cell, and no symbol has been seen.
    pub open spec fn start(half: int) -> ClockModel {
        ClockModel { index: 0, last: -1, countdown: Some(half), previous: None }
    }

    /// Whether `bit` differs from the symbol before it. The first symbol has
    /// none before it and is no transition.
    pub open spec fn transition(self, bit: usize) -> bool {
        self.previous is Some && self.previous->Some_0 != bit
    }

    /// One symbol's worth of clock recovery: the state after `bit`, and `bit`
    /// itself if it is the one picked. A transition restarts the local clock;
    /// then the clock advances and, if it ticks, arms the countdown with
    /// `half`; then the countdown goes down by one, and on reaching zero picks
    /// the symbol and is disarmed.
    pub open spec fn tick(self, table: &NCOTable, step: int, half: int, bit: usize) -> (
        ClockModel,
        Option<usize>,
    ) {
        let index = if self.transition(bit) {
            0
        } else {
            self.index
        };
        let last = if self.transition(bit) {
            -1
        } else {
            self.last
        };
        let sample = table.sample_at(index);
        let armed = if pulse(last, sample) == 1 {
            Some(half)
        } else {
            self.countdown
        };
        let picked = armed is Some && armed->Some_0 - 1 == 0;
        (
            ClockModel {
                index: table.phase_after(index, step, 1),
                last: sample,
                countdown: if armed is Some && !picked {
                    Some(armed->Some_0 - 1)
                } else {
                    None
                },
                previous: Some(bit),
            },
            if picked {
                Some(bit)
            } else {
                None
            },
        )
    }

    /// Clock recovery run over `bits` from this state: the state it ends in
    /// and the symbols it has picked on the way.
    pub open spec fn run(self, table: &NCOTable, step: int, half: int, bits: Seq<usize>) -> (
        ClockModel,
        Seq<usize>,
    )
        decreases bits.len(),
    {
        if bits.len() == 0 {
            (self, Seq::empty())
        } else {
            let (before, picks) = self.run(table, step, half, bits.drop_last());
            let (after, picked) = before.tick(table, step, half, bits.last());
            (
                after,
                match picked {
                    Some(b) => picks.push(b),
                    None => picks,
                },
            )
        }
    }
}

/// The symbols that clock recovery picks out of `bits` at the symbol rate
/// `baud`, from a fresh start.
pub open spec fn sampled(table: &NCOTable, baud: int, bits: Seq<usize>) -> Seq<usize> {
    ClockModel::start(half_period(table.sample_rate as int, baud)).run(
        table,
        table.steps(baud),
        half_period(table.sample_rate as int, baud),
        bits,
    ).1
}

impl<'a> View for ClockRecovery<'a> {
    type V = ClockModel;

    open spec fn view(&self) -> ClockModel {
        ClockModel {
            index: self.clock.nco.index as int,
            last: self.clock.last as int,
            countdown: match self.countdown {
                Some(x) => Some(x as int),
                None => None,
            },
            previous: self.previous,
        }
    }
}

impl<'a> ClockRecovery<'a> {
    /// The local clock reads the table at the step of the symbol rate, half a
    /// bit cell is at least one sample, and a countdown that is armed has not
    /// run out.
    pub open spec fn wf(&self) -> bool {
        &&& self.table.wf()
        &&& self.clock.wf()
        &&& self.clock.nco.table == self.table
        &&& self.clock.nco.step == self.table.steps(self.baud as int)
        &&& self.baud > 0
        &&& self.half_period >= 1
        &&& self.half_period == half_period(self.table.sample_rate as int, self.baud as int)
        &&& (self.countdown is Some ==> self.countdown->Some_0 >= 1)
    }

    /// Clock recovery at the symbol rate `baud`, before the first symbol.
    /// Gives nothing where `baud` is zero or half a bit cell is shorter than
    /// one sample.
    pub fn new(table: &'a NCOTable, baud: u64) -> (r: Option<ClockRecovery<'a>>)
        requires
            table.wf(),
        ensures
            r is Some <==> baud > 0 && 2 * baud <= table.sample_rate,
            r is Some ==> {
                &&& r->Some_0.wf()
                &&& r->Some_0.table == table
                &&& r->Some_0.baud == baud
                &&& r->Some_0@ == ClockModel::start(
                    half_period(table.sample_rate as int, baud as int),
                )
            },
    {
        if baud == 0 || baud > table.sample_rate / 2 {
            return None;
        }
        let exact: u64 = table.sample_rate / (2 * baud);
        let half: usize = if exact > usize::MAX as u64 {
            usize::MAX
        } else {
            exact as usize
        };
        proof {
            let rate = table.sample_rate as int;
            let b = baud as int;
            assert(rate / (2 * b) >= 1) by (nonlinear_arith)
                requires
                    b > 0,
                    2 * b <= rate,
            ;
        }
        Some(
            ClockRecovery {
                table,
                baud,
                half_period: half,
                clock: table.freq(baud).into_pulsetrain(),
                countdown: Some(half),
                previous: None,
            },
        )
    }

    /// Takes in one symbol. Gives it back if it is the one picked for its bit
    /// cell.
    pub fn step(&mut self, bit: usize) -> (r: Option<usize>)
        requires
            old(self).wf(),
        ensures
            final(self).wf(),
            final(self).table == old(self).table,
            final(self).baud == old(self).baud,
            final(self).half_period == old(self).half_period,
            (final(self)@, r) == old(self)@.tick(
                old(self).table,
                old(self).table.steps(old(self).baud as int),
                old(self).half_period as int,
                bit,
            ),
    {
        let transition: bool = match self.previous {
            Some(p) => p != bit,
            None => false,
        };
        self.previous = Some(bit);
        if transition {
            self.clock = self.table.freq(self.baud).into_pulsetrain();
        }
        let cstate: usize = match self.clock.next() {
            Some(c) => c,
            None => 0,
        };
        if cstate == 1 {
            self.countdown = Some(self.half_period);
        }
        match self.countdown {
            Some(x) => {
                if x - 1 == 0 {
                    self.countdown = None;
                    Some(bit)
                } else {
                    self.countdown = Some(x - 1);
                    None
                }
            },
            None => None,
        }
    }

    /// Takes in a whole stream of symbols and gives the symbols picked, in
    /// order.
    pub fn run(&mut self, bits: &BitStream) -> (output: Vec<usize>)
        requires
            old(self).wf(),
        ensures
            final(self).wf(),
            final(self).table == old(self).table,
            final(self).baud == old(self).baud,
            final(self).half_period == old(self).half_period,
            (final(self)@, output@) == old(self)@.run(
                old(self).table,
                old(self).table.steps(old(self).baud as int),
                old(self).half_period as int,
                bits.stream@,
            ),
    {
        let mut output: Vec<usize> = Vec::new();
        let n: usize = bits.stream.len();
        let mut i: usize = 0;
        while i < n
            invariant
                n == bits.stream@.len(),
                0 <= i <= n,
                self.wf(),
                self.table == old(self).table,
                self.baud == old(self).baud,
                self.half_period == old(self).half_period,
                (self@, output@) == old(self)@.run(
                    old(self).table,
                    old(self).table.steps(old(self).baud as int),
                    old(self).half_period as int,
                    bits.stream@.take(i as int),
                ),
            decreases n - i,
        {
            proof {
                assert(bits.stream@.take(i + 1).drop_last() == bits.stream@.take(i as int));
            }
            match self.step(bits.stream[i]) {
                Some(b) => {
                    output.push(b);
                },
                None => {},
            }
            i = i + 1;
        }
        proof {
            assert(bits.stream@.take(n as int) == bits.stream@);
        }
        output
    }
}

/// Picks the symbols of `bits` at the symbol rate `baud`, one near the middle
/// of each bit cell. Gives nothing where `baud` is zero or half a bit cell is
/// shorter than one sample.
pub fn recover(table: &NCOTable, baud: u64, bits: &BitStream) -> (r: Option<Vec<usize>>)
    requires
        table.wf(),
    ensures
        r is Some <==> baud > 0 && 2 * baud <= table.sample_rate,
        r is Some ==> r->Some_0@ == sampled(table, baud as int, bits.stream@),
{
    match ClockRecovery::new(table, baud) {
        Some(state) => {
            let mut state = state;
            Some(state.run(bits))
        },
        None => None,
    }
}

} // verus!
