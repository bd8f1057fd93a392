//! Framing and character decoding for a five-unit teleprinter line.
//!
//! A character travels as a start bit `0`, five data bits with the least
//! significant first, and a stop bit `1`. The decoder is a small state machine
//! over single bits; a frame whose stop bit is `0` is dropped without a trace.
//! The two shift codes are printed as arrows and never change how later codes
//! are read.
use vstd::prelude::*;

verus! {

/// `String::push` appends one character to the end of the string.
pub assume_specification[ String::push ](s: &mut String, c: char)
    ensures
        final(s)@ == old(s)@.push(c),
;

/// The character printed for a frame that matches no code.
pub const UNKNOWN: char = '?';

/// The glyph of each of the 32 codes. A code is written as the table lists its
/// pattern, first listed bit most significant.
pub open spec fn glyph(code: int) -> char {
    if code == 0 {
        '\u{2400}'
    } else if code == 1 {
        'E'
    } else if code == 2 {
        '\u{240A}'
    } else if code == 3 {
        'A'
    } else if code == 4 {
        ' '
    } else if code == 5 {
        'S'
    } else if code == 6 {
        'I'
    } else if code == 7 {
        'U'
    } else if code == 8 {
        '\u{240D}'
    } else if code == 9 {
        'D'
    } else if code == 10 {
        'R'
    } else if code == 11 {
        'J'
    } else if code == 12 {
        'N'
    } else if code == 13 {
        'F'
    } else if code == 14 {
        'C'
    } else if code == 15 {
        'K'
    } else if code == 16 {
        'T'
    } else if code == 17 {
        'Z'
    } else if code == 18 {
        'L'
    } else if code == 19 {
        'W'
    } else if code == 20 {
        'H'
    } else if code == 21 {
        'Y'
    } else if code == 22 {
        'P'
    } else if code == 23 {
        'Q'
    } else if code == 24 {
        'O'
    } else if code == 25 {
        'B'
    } else if code == 26 {
        'G'
    } else if code == 27 {
        '\u{2191}'
    } else if code == 28 {
        'M'
    } else if code == 29 {
        'X'
    } else if code == 30 {
        'V'
    } else if code == 31 {
        '\u{2193}'
    } else {
        UNKNOWN
    }
}

/// Five values that are all `0` or `1`.
pub open spec fn is_pattern(bits: Seq<usize>) -> bool {
    bits.len() == 5 && forall|i: int| 0 <= i < 5 ==> #[trigger] bits[i] <= 1
}

/// The code that five received bits spell. The line sends the last listed bit
/// of a pattern first, so the first received bit is the least significant.
pub open spec fn code_of(bits: Seq<usize>) -> int {
    bits[0] + 2 * bits[1] + 4 * bits[2] + 8 * bits[3] + 16 * bits[4]
}

/// The character that the data bits of one frame stand for: the glyph of
/// their code, or `UNKNOWN` when they are not five binary values.
pub open spec fn decode_model(bits: Seq<usize>) -> char {
    if is_pattern(bits) {
        glyph(code_of(bits))
    } else {
        UNKNOWN
    }
}

fn glyph_of(code: usize) -> (c: char)
    ensures
        c == glyph(code as int),
{
    match code {
        0 => '\u{2400}',
        1 => 'E',
        2 => '\u{240A}',
        3 => 'A',
        4 => ' ',
        5 => 'S',
        6 => 'I',
        7 => 'U',
        8 => '\u{240D}',
        9 => 'D',
        10 => 'R',
        11 => 'J',
        12 => 'N',
        13 => 'F',
        14 => 'C',
        15 => 'K',
        16 => 'T',
        17 => 'Z',
        18 => 'L',
        19 => 'W',
        20 => 'H',
        21 => 'Y',
        22 => 'P',
        23 => 'Q',
        24 => 'O',
        25 => 'B',
        26 => 'G',
        27 => '\u{2191}',
        28 => 'M',
        29 => 'X',
        30 => 'V',
        31 => '\u{2193}',
        _ => UNKNOWN,
    }
}

/// Looks up the character for the data bits of one frame, given in the order
/// in which they arrived.
pub fn decode(input_v: Vec<usize>) -> (c: char)
    ensures
        c == decode_model(input_v@),
{
    if input_v.len() != 5 {
        return UNKNOWN;
    }
    let b0: usize = input_v[0];
    let b1: usize = input_v[1];
    let b2: usize = input_v[2];
    let b3: usize = input_v[3];
    let b4: usize = input_v[4];
    if b0 > 1 || b1 > 1 || b2 > 1 || b3 > 1 || b4 > 1 {
        return UNKNOWN;
    }
    glyph_of(b0 + 2 * b1 + 4 * b2 + 8 * b3 + 16 * b4)
}

/// Where the decoder stands within a frame.
#[derive(Clone, Debug)]
pub enum DecodeState {
    /// Waiting for a start bit; no bits are held.
    Standby,
    /// A start bit was seen; holds the data bits read so far.
    Reading(Vec<usize>),
    /// All data bits are in; the next bit must be the stop bit.
    ExpectingStop(Vec<usize>),
}

/// A decoder state as a mathematical value.
pub enum FrameModel {
    Standby,
    Reading(Seq<usize>),
    ExpectingStop(Seq<usize>),
}

impl View for DecodeState {
    type V = FrameModel;

    open spec fn view(&self) -> FrameModel {
        match self {
            DecodeState::Standby => FrameModel::Standby,
            DecodeState::Reading(bits) => FrameModel::Reading(bits@),
            DecodeState::ExpectingStop(bits) => FrameModel::ExpectingStop(bits@),
        }
    }
}

impl FrameModel {
    /// A state that the decoder can reach from `Standby`: while reading it
    /// holds at most four bits, and exactly five once it waits for the stop bit.
    pub open spec fn wf(self) -> bool {
        match self {
            FrameModel::Standby => true,
            FrameModel::Reading(bits) => bits.len() <= 4,
            FrameModel::ExpectingStop(bits) => bits.len() == 5,
        }
    }

    /// One step of the decoder: the state after `bit`, and the character that
    /// this bit completes, if any.
    pub open spec fn step(self, bit: usize) -> (FrameModel, Option<char>) {
        match self {
            FrameModel::Standby => if bit == 0 {
                (FrameModel::Reading(Seq::empty()), None)
            } else {
                (FrameModel::Standby, None)
            },
            FrameModel::Reading(bits) => if bits.len() + 1 == 5 {
                (FrameModel::ExpectingStop(bits.push(bit)), None)
            } else {
                (FrameModel::Reading(bits.push(bit)), None)
            },
            FrameModel::ExpectingStop(bits) => if bit == 0 {
                (FrameModel::Standby, None)
            } else {
                (FrameModel::Standby, Some(decode_model(bits)))
            },
        }
    }

    /// The decoder run over `bits` from this state: the state it ends in and
    /// the characters it has printed on the way.
    pub open spec fn run(self, bits: Seq<usize>) -> (FrameModel, Seq<char>)
        decreases bits.len(),
    {
        if bits.len() == 0 {
            (self, Seq::empty())
        } else {
            let (before, text) = self.run(bits.drop_last());
            let (after, printed) = before.step(bits.last());
            (
                after,
                match printed {
                    Some(c) => text.push(c),
                    None => text,
                },
            )
        }
    }
}

/// The bits of one frame on the line: a start bit, the data bits, a stop bit.
pub open spec fn frame(data: Seq<usize>, stop: usize) -> Seq<usize> {
    seq![0usize] + data + seq![stop]
}

/// Every state that the decoder reaches from a well-formed one is well formed.
pub proof fn lemma_run_keeps_wf(state: FrameModel, bits: Seq<usize>)
    requires
        state.wf(),
    ensures
        state.run(bits).0.wf(),
    decreases bits.len(),
{
    if bits.len() > 0 {
        lemma_run_keeps_wf(state, bits.drop_last());
    }
}

/// Running the decoder over two streams in a row is running it over the
/// first, then over the second from the state that the first left.
pub proof fn lemma_run_concat(state: FrameModel, first: Seq<usize>, second: Seq<usize>)
    ensures
        state.run(first + second) == (
            state.run(first).0.run(second).0,
            state.run(first).1 + state.run(first).0.run(second).1,
        ),
    decreases second.len(),
{
    if second.len() == 0 {
        assert(first + second == first);
        assert(state.run(first).1 + Seq::<char>::empty() == state.run(first).1);
    } else {
        assert((first + second).drop_last() == first + second.drop_last());
        assert((first + second).last() == second.last());
        lemma_run_concat(state, first, second.drop_last());
        let mid = state.run(first).0;
        let (before, text) = mid.run(second.drop_last());
        match before.step(second.last()).1 {
            Some(c) => {
                assert((state.run(first).1 + text).push(c) == state.run(first).1 + text.push(
                    c,
                ));
            },
            None => {},
        }
    }
}

/// A frame met between frames ends between frames, and prints the character
/// of its data bits if its stop bit is not `0`, and nothing if it is.
pub proof fn lemma_frame_from_standby(data: Seq<usize>, stop: usize)
    requires
        data.len() == 5,
    ensures
        FrameModel::Standby.run(frame(data, stop)) == (
            FrameModel::Standby,
            if stop == 0 {
                Seq::<char>::empty()
            } else {
                seq![decode_model(data)]
            },
        ),
{
    let f = frame(data, stop);
    let s0 = FrameModel::Standby;
    assert(f.len() == 7);
    assert(f.take(0) == Seq::<usize>::empty());
    assert(s0.run(f.take(0)) == (s0, Seq::<char>::empty()));
    lemma_run_one_more(s0, f, 0);
    assert(data.take(0) == Seq::<usize>::empty());
    assert(s0.run(f.take(1)) == (FrameModel::Reading(data.take(0)), Seq::<char>::empty()));
    lemma_run_one_more(s0, f, 1);
    assert(data.take(0).push(data[0]) == data.take(1));
    lemma_run_one_more(s0, f, 2);
    assert(data.take(1).push(data[1]) == data.take(2));
    lemma_run_one_more(s0, f, 3);
    assert(data.take(2).push(data[2]) == data.take(3));
    lemma_run_one_more(s0, f, 4);
    assert(data.take(3).push(data[3]) == data.take(4));
    lemma_run_one_more(s0, f, 5);
    assert(data.take(4).push(data[4]) == data);
    assert(s0.run(f.take(6)) == (FrameModel::ExpectingStop(data), Seq::<char>::empty()));
    lemma_run_one_more(s0, f, 6);
    assert(f.take(7) == f);
    assert(Seq::<char>::empty().push(decode_model(data)) == seq![decode_model(data)]);
}

proof fn lemma_run_one_more(state: FrameModel, bits: Seq<usize>, n: int)
    requires
        0 <= n < bits.len(),
    ensures
        state.run(bits.take(n + 1)) == ({
            let (before, text) = state.run(bits.take(n));
            let (after, printed) = before.step(bits[n]);
            (
                after,
                match printed {
                    Some(c) => text.push(c),
                    None => text,
                },
            )
        }),
{
    assert(bits.take(n + 1).drop_last() == bits.take(n));
    assert(bits.take(n + 1).last() == bits[n]);
}

/// A well-framed character between frames decodes to the glyph of its data
/// bits, whatever came before it, as long as that left the decoder between
/// frames.
pub proof fn lemma_framed_character(before: Seq<usize>, data: Seq<usize>, stop: usize)
    requires
        data.len() == 5,
        stop != 0,
        FrameModel::Standby.run(before).0 == FrameModel::Standby,
    ensures
        decode_stream_model(before + frame(data, stop)) == decode_stream_model(before).push(
            decode_model(data),
        ),
{
    lemma_run_concat(FrameModel::Standby, before, frame(data, stop));
    lemma_frame_from_standby(data, stop);
    assert(decode_stream_model(before) + seq![decode_model(data)] == decode_stream_model(
        before,
    ).push(decode_model(data)));
}

/// A frame whose stop bit is `0` prints nothing and leaves the decoder between
/// frames: of such a frame followed at once by a well-framed character, only
/// the second character is printed.
pub proof fn lemma_bad_stop_is_dropped(bad: Seq<usize>, good: Seq<usize>, stop: usize)
    requires
        bad.len() == 5,
        good.len() == 5,
        stop != 0,
    ensures
        FrameModel::Standby.run(frame(bad, 0)) == (FrameModel::Standby, Seq::<char>::empty()),
        decode_stream_model(frame(bad, 0) + frame(good, stop)) == seq![decode_model(good)],
{
    lemma_frame_from_standby(bad, 0);
    lemma_frame_from_standby(good, stop);
    lemma_run_concat(FrameModel::Standby, frame(bad, 0), frame(good, stop));
    assert(Seq::<char>::empty() + seq![decode_model(good)] == seq![decode_model(good)]);
}

/// The text that a stream of sampled bits decodes to.
pub open spec fn decode_stream_model(bits: Seq<usize>) -> Seq<char> {
    FrameModel::Standby.run(bits).1
}

impl DecodeState {
    /// Feeds one bit to the decoder. Returns the next state and the character
    /// that the bit completes, if it is the valid stop bit of a frame.
    pub fn step(self, bit: usize) -> (r: (DecodeState, Option<char>))
        ensures
            (r.0@, r.1) == self@.step(bit),
            self@.wf() ==> r.0@.wf(),
    {
        match self {
            DecodeState::Standby => {
                if bit == 0 {
                    (DecodeState::Reading(Vec::new()), None)
                } else {
                    (DecodeState::Standby, None)
                }
            },
            DecodeState::Reading(current) => {
                let mut my = current;
                my.push(bit);
                if my.len() == 5 {
                    (DecodeState::ExpectingStop(my), None)
                } else {
                    (DecodeState::Reading(my), None)
                }
            },
            DecodeState::ExpectingStop(current) => {
                if bit == 0 {
                    (DecodeState::Standby, None)
                } else {
                    let c = decode(current);
                    (DecodeState::Standby, Some(c))
                }
            },
        }
    }
}

/// Decodes a stream of sampled bits into text, starting between frames.
pub fn decode_stream(s: Vec<usize>) -> (text: String)
    ensures
        text@ == decode_stream_model(s@),
{
    let mut result: String = String::new();
    let mut state: DecodeState = DecodeState::Standby;
    let mut i: usize = 0;
    while i < s.len()
        invariant
            0 <= i <= s.len(),
            (state@, result@) == FrameModel::Standby.run(s@.take(i as int)),
        decreases s.len() - i,
    {
        proof {
            assert(s@.take(i + 1).drop_last() == s@.take(i as int));
        }
        let (next, printed) = state.step(s[i]);
        state = next;
        match printed {
            Some(c) => {
                result.push(c);
            },
            None => {},
        }
        i = i + 1;
    }
    proof {
        assert(s@.take(i as int) == s@);
    }
    result
}

} // verus!
