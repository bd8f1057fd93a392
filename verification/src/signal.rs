//! Sampled signals in fixed point, and the algebra on them.
//!
//! A `Signal` is a finite run of samples taken at a constant rate, which the
//! caller keeps track of. All its samples share one precision. Every
//! operation gives a new signal; two signals that are combined sample by
//! sample must be equally long.
use vstd::prelude::*;
use vstd::arithmetic::power2::pow2;
use crate::fixed::{
    add_samples, clamp, common, difference_at, div_samples, lesser, mul_samples, product_at,
    narrow, quotient, ratio_at, saturate, sub_samples, sum_at, MAX_PRECISION,
};

verus! {

/// Why two signals could not be combined.
#[derive(Clone, Copy, Debug, PartialEq, Eq, Structural)]
pub enum SignalError {
    /// The two operands differ in length.
    LengthMismatch,
}

/// A run of fixed-point samples with `precision` bits behind the binary point.
#[derive(Debug)]
pub struct Signal {
    pub stream: Vec<i32>,
    pub precision: u32,
}

/// A run of binary symbols, one for each sample of the signal it was cut from.
#[derive(Clone, Debug)]
pub struct BitStream {
    pub stream: Vec<usize>,
}

/// A signal as a mathematical value: its raw samples and their precision.
pub struct SignalModel {
    pub samples: Seq<int>,
    pub precision: nat,
}

impl View for Signal {
    type V = SignalModel;

    open spec fn view(&self) -> SignalModel {
        SignalModel {
            samples: Seq::new(self.stream@.len(), |i: int| self.stream@[i] as int),
            precision: self.precision as nat,
        }
    }
}

impl SignalModel {
    /// The number of samples.
    pub open spec fn len(self) -> nat {
        self.samples.len()
    }

    /// The sample at `i`, and zero before the first and after the last.
    pub open spec fn at(self, i: int) -> int {
        if 0 <= i < self.samples.len() {
            self.samples[i]
        } else {
            0
        }
    }

    /// The sample-by-sample sum.
    pub open spec fn plus(self, rhs: SignalModel) -> SignalModel {
        SignalModel {
            samples: Seq::new(
                self.len(),
                |i: int| sum_at(self.samples[i], self.precision, rhs.samples[i], rhs.precision),
            ),
            precision: common(self.precision, rhs.precision),
        }
    }

    /// The sample-by-sample difference.
    pub open spec fn minus(self, rhs: SignalModel) -> SignalModel {
        SignalModel {
            samples: Seq::new(
                self.len(),
                |i: int|
                    difference_at(self.samples[i], self.precision, rhs.samples[i], rhs.precision),
            ),
            precision: common(self.precision, rhs.precision),
        }
    }

    /// The sample-by-sample product.
    pub open spec fn times(self, rhs: SignalModel) -> SignalModel {
        SignalModel {
            samples: Seq::new(
                self.len(),
                |i: int|
                    product_at(self.samples[i], self.precision, rhs.samples[i], rhs.precision),
            ),
            precision: common(self.precision, rhs.precision),
        }
    }

    /// The sample-by-sample quotient, zero wherever the divisor is zero.
    pub open spec fn over(self, rhs: SignalModel) -> SignalModel {
        SignalModel {
            samples: Seq::new(
                self.len(),
                |i: int| ratio_at(self.samples[i], self.precision, rhs.samples[i], rhs.precision),
            ),
            precision: common(self.precision, rhs.precision),
        }
    }
}

impl Signal {
    /// The binary point stands within the sample word.
    pub open spec fn wf(&self) -> bool {
        self.precision <= MAX_PRECISION
    }

    /// A signal of the given raw samples at the given precision. Gives
    /// nothing where the precision is beyond `MAX_PRECISION`.
    pub fn new(stream: Vec<i32>, precision: u32) -> (r: Option<Signal>)
        ensures
            r is Some <==> precision <= MAX_PRECISION,
            r is Some ==> r->Some_0.wf() && r->Some_0.stream == stream && r->Some_0.precision
                == precision,
    {
        if precision <= MAX_PRECISION {
            Some(Signal { stream, precision })
        } else {
            None
        }
    }

    /// The number of samples.
    pub fn len(&self) -> (n: usize)
        ensures
            n == self@.len(),
    {
        self.stream.len()
    }
}

impl Clone for Signal {
    fn clone(&self) -> (s: Signal)
        ensures
            s@ == self@,
            s.stream@ == self.stream@,
            s.precision == self.precision,
    {
        let s = Signal { stream: self.stream.clone(), precision: self.precision };
        proof {
            assert(s@.samples =~= self@.samples);
        }
        s
    }
}

impl From<Vec<i32>> for Signal {
    /// A signal of whole-numbered samples: no bits behind the binary point.
    fn from(v: Vec<i32>) -> (s: Signal) {
        Signal { stream: v, precision: 0 }
    }
}

impl vstd::std_specs::convert::FromSpecImpl<Vec<i32>> for Signal {
    open spec fn obeys_from_spec() -> bool {
        true
    }

    open spec fn from_spec(v: Vec<i32>) -> Signal {
        Signal { stream: v, precision: 0 }
    }
}

/// The four ways of combining two samples.
#[derive(Clone, Copy)]
enum Operator {
    Add,
    Sub,
    Mul,
    Div,
}

spec fn combined_at(op: Operator, a: int, pa: nat, b: int, pb: nat) -> int {
    match op {
        Operator::Add => sum_at(a, pa, b, pb),
        Operator::Sub => difference_at(a, pa, b, pb),
        Operator::Mul => product_at(a, pa, b, pb),
        Operator::Div => ratio_at(a, pa, b, pb),
    }
}

fn combine(a: &Signal, b: &Signal, op: Operator) -> (r: Signal)
    requires
        a.wf(),
        b.wf(),
        a.stream@.len() == b.stream@.len(),
    ensures
        r.wf(),
        r.precision == common(a.precision as nat, b.precision as nat),
        r.stream@.len() == a.stream@.len(),
        forall|j: int|
            0 <= j < r.stream@.len() ==> r.stream@[j] as int == combined_at(
                op,
                a.stream@[j] as int,
                a.precision as nat,
                b.stream@[j] as int,
                b.precision as nat,
            ),
{
    let n: usize = a.stream.len();
    let mut res: Vec<i32> = Vec::with_capacity(n);
    let mut i: usize = 0;
    while i < n
        invariant
            a.wf(),
            b.wf(),
            n == a.stream@.len(),
            n == b.stream@.len(),
            0 <= i <= n,
            res@.len() == i,
            forall|j: int|
                0 <= j < i ==> res@[j] as int == combined_at(
                    op,
                    a.stream@[j] as int,
                    a.precision as nat,
                    b.stream@[j] as int,
                    b.precision as nat,
                ),
        decreases n - i,
    {
        let x: i32 = a.stream[i];
        let y: i32 = b.stream[i];
        let v: i32 = match op {
            Operator::Add => add_samples(x, a.precision, y, b.precision),
            Operator::Sub => sub_samples(x, a.precision, y, b.precision),
            Operator::Mul => mul_samples(x, a.precision, y, b.precision),
            Operator::Div => div_samples(x, a.precision, y, b.precision),
        };
        res.push(v);
        i = i + 1;
    }
    Signal {
        stream: res,
        precision: if a.precision >= b.precision {
            a.precision
        } else {
            b.precision
        },
    }
}

impl core::ops::Add for Signal {
    type Output = Result<Signal, SignalError>;

    /// Adds two equally long signals sample by sample.
    fn add(self, rhs: Signal) -> (r: Result<Signal, SignalError>)
        ensures
            self@.len() != rhs@.len() ==> r == Err::<Signal, SignalError>(
                SignalError::LengthMismatch,
            ),
            self@.len() == rhs@.len() ==> r is Ok && r->Ok_0.wf() && r->Ok_0@ == self@.plus(
                rhs@,
            ),
    {
        if self.stream.len() != rhs.stream.len() {
            return Err(SignalError::LengthMismatch);
        }
        let out = combine(&self, &rhs, Operator::Add);
        proof {
            assert(out@.samples =~= self@.plus(rhs@).samples);
        }
        Ok(out)
    }
}

impl vstd::std_specs::ops::AddSpecImpl for Signal {
    open spec fn obeys_add_spec() -> bool {
        false
    }

    open spec fn add_req(self, rhs: Signal) -> bool {
        self.wf() && rhs.wf()
    }

    open spec fn add_spec(self, rhs: Signal) -> Result<Signal, SignalError> {
        Err(SignalError::LengthMismatch)
    }
}

impl core::ops::Sub for Signal {
    type Output = Result<Signal, SignalError>;

    /// Subtracts an equally long signal sample by sample.
    fn sub(self, rhs: Signal) -> (r: Result<Signal, SignalError>)
        ensures
            self@.len() != rhs@.len() ==> r == Err::<Signal, SignalError>(
                SignalError::LengthMismatch,
            ),
            self@.len() == rhs@.len() ==> r is Ok && r->Ok_0.wf() && r->Ok_0@ == self@.minus(
                rhs@,
            ),
    {
        if self.stream.len() != rhs.stream.len() {
            return Err(SignalError::LengthMismatch);
        }
        let out = combine(&self, &rhs, Operator::Sub);
        proof {
            assert(out@.samples =~= self@.minus(rhs@).samples);
        }
        Ok(out)
    }
}

impl vstd::std_specs::ops::SubSpecImpl for Signal {
    open spec fn obeys_sub_spec() -> bool {
        false
    }

    open spec fn sub_req(self, rhs: Signal) -> bool {
        self.wf() && rhs.wf()
    }

    open spec fn sub_spec(self, rhs: Signal) -> Result<Signal, SignalError> {
        Err(SignalError::LengthMismatch)
    }
}

impl core::ops::Mul for Signal {
    type Output = Result<Signal, SignalError>;

    /// Multiplies two equally long signals sample by sample.
    fn mul(self, rhs: Signal) -> (r: Result<Signal, SignalError>)
        ensures
            self@.len() != rhs@.len() ==> r == Err::<Signal, SignalError>(
                SignalError::LengthMismatch,
            ),
            self@.len() == rhs@.len() ==> r is Ok && r->Ok_0.wf() && r->Ok_0@ == self@.times(
                rhs@,
            ),
    {
        if self.stream.len() != rhs.stream.len() {
            return Err(SignalError::LengthMismatch);
        }
        let out = combine(&self, &rhs, Operator::Mul);
        proof {
            assert(out@.samples =~= self@.times(rhs@).samples);
        }
        Ok(out)
    }
}

impl vstd::std_specs::ops::MulSpecImpl for Signal {
    open spec fn obeys_mul_spec() -> bool {
        false
    }

    open spec fn mul_req(self, rhs: Signal) -> bool {
        self.wf() && rhs.wf()
    }

    open spec fn mul_spec(self, rhs: Signal) -> Result<Signal, SignalError> {
        Err(SignalError::LengthMismatch)
    }
}

impl core::ops::Div for Signal {
    type Output = Result<Signal, SignalError>;

    /// Divides by an equally long signal sample by sample; a sample
    /// divided by zero is zero.
    fn div(self, rhs: Signal) -> (r: Result<Signal, SignalError>)
        ensures
            self@.len() != rhs@.len() ==> r == Err::<Signal, SignalError>(
                SignalError::LengthMismatch,
            ),
            self@.len() == rhs@.len() ==> r is Ok && r->Ok_0.wf() && r->Ok_0@ == self@.over(
                rhs@,
            ),
    {
        if self.stream.len() != rhs.stream.len() {
            return Err(SignalError::LengthMismatch);
        }
        let out = combine(&self, &rhs, Operator::Div);
        proof {
            assert(out@.samples =~= self@.over(rhs@).samples);
        }
        Ok(out)
    }
}

impl vstd::std_specs::ops::DivSpecImpl for Signal {
    open spec fn obeys_div_spec() -> bool {
        false
    }

    open spec fn div_req(self, rhs: Signal) -> bool {
        self.wf() && rhs.wf()
    }

    open spec fn div_spec(self, rhs: Signal) -> Result<Signal, SignalError> {
        Err(SignalError::LengthMismatch)
    }
}

/// The sum of the first `n` values of `s`.
pub open spec fn prefix_sum(s: Seq<int>, n: int) -> int
    decreases n,
{
    if n <= 0 {
        0
    } else {
        prefix_sum(s, n - 1) + s[n - 1]
    }
}

/// The state of the slicer after the first `n` values of `s`. It starts at
/// `0`, rises to `1` on a value of at least `threshold`, and falls back to `0`
/// on a value of at most `-threshold`.
pub open spec fn slicer_state(s: Seq<int>, threshold: int, n: int) -> int
    decreases n,
{
    if n <= 0 {
        0
    } else if slicer_state(s, threshold, n - 1) == 0 {
        if s[n - 1] >= threshold {
            1
        } else {
            0
        }
    } else {
        if s[n - 1] <= -threshold {
            0
        } else {
            1
        }
    }
}

impl SignalModel {
    /// The running sum: each sample is the sum of all samples up to it.
    pub open spec fn running_sum(self) -> SignalModel {
        SignalModel {
            samples: Seq::new(self.len(), |i: int| clamp(prefix_sum(self.samples, i + 1))),
            precision: self.precision,
        }
    }

    /// The centred difference: each sample is its successor less its
    /// predecessor, with zero standing before the first and after the last.
    pub open spec fn centered_difference(self) -> SignalModel {
        SignalModel {
            samples: Seq::new(self.len(), |i: int| clamp(self.at(i + 1) - self.at(i - 1))),
            precision: self.precision,
        }
    }

    /// The sum over the first `taps` taps `j` of `kernel` of tap `j` times the
    /// sample `j` places before `i`, exact and with all fractional bits.
    pub open spec fn dot(self, kernel: SignalModel, i: int, taps: int) -> int
        decreases taps,
    {
        if taps <= 0 {
            0
        } else {
            self.dot(kernel, i, taps - 1) + kernel.samples[taps - 1] * self.at(i - (taps - 1))
        }
    }

    /// The causal convolution with `kernel`, as long as the signal itself.
    pub open spec fn convolution(self, kernel: SignalModel) -> SignalModel {
        SignalModel {
            samples: Seq::new(
                self.len(),
                |i: int|
                    clamp(
                        quotient(
                            self.dot(kernel, i, kernel.len() as int),
                            pow2(lesser(self.precision, kernel.precision)) as int,
                        ),
                    ),
            ),
            precision: common(self.precision, kernel.precision),
        }
    }

    /// How many leading samples filtering with a kernel of `taps` taps drops:
    /// twice the kernel's length, or all there are.
    pub open spec fn settling(self, taps: nat) -> nat {
        if 2 * taps <= self.len() {
            2 * taps
        } else {
            self.len()
        }
    }

    /// The convolution with `kernel` without its first samples, in which the
    /// kernel is still filling up.
    pub open spec fn filtered(self, kernel: SignalModel) -> SignalModel {
        SignalModel {
            samples: self.convolution(kernel).samples.skip(self.settling(kernel.len()) as int),
            precision: common(self.precision, kernel.precision),
        }
    }

    /// Every sample multiplied by `factor`, which is read at the signal's own
    /// precision.
    pub open spec fn scaled(self, factor: int) -> SignalModel {
        SignalModel {
            samples: Seq::new(
                self.len(),
                |i: int| product_at(self.samples[i], self.precision, factor, self.precision),
            ),
            precision: self.precision,
        }
    }

    /// The symbols that the slicer cuts the signal into, one for each sample.
    pub open spec fn sliced(self, threshold: int) -> Seq<usize> {
        Seq::new(self.len(), |i: int| slicer_state(self.samples, threshold, i + 1) as usize)
    }

    /// The sum of all samples, exact.
    pub open spec fn total(self) -> int {
        prefix_sum(self.samples, self.len() as int)
    }

    /// Every sample divided by the sum of all samples, so that the result sums
    /// to one as nearly as its precision allows; all zero where the sum is zero.
    pub open spec fn normalized(self) -> SignalModel {
        SignalModel {
            samples: Seq::new(
                self.len(),
                |i: int| clamp(quotient(self.samples[i] * pow2(self.precision), self.total())),
            ),
            precision: self.precision,
        }
    }
}

impl BitStream {
    /// Every symbol is `0` or `1`.
    pub open spec fn wf(&self) -> bool {
        forall|i: int| 0 <= i < self.stream@.len() ==> #[trigger] self.stream@[i] <= 1
    }

    /// The number of symbols.
    pub fn len(&self) -> (n: usize)
        ensures
            n == self.stream@.len(),
    {
        self.stream.len()
    }
}

impl Signal {
    /// The running sum of the signal.
    pub fn sum(&self) -> (r: Signal)
        ensures
            r@ == self@.running_sum(),
            self.wf() ==> r.wf(),
    {
        let n: usize = self.stream.len();
        let mut vec: Vec<i32> = Vec::with_capacity(n);
        let mut total: i128 = 0;
        let mut i: usize = 0;
        while i < n
            invariant
                n == self.stream@.len(),
                0 <= i <= n,
                vec@.len() == i,
                total == prefix_sum(self@.samples, i as int),
                -0x8000_0000 * i <= total <= 0x8000_0000 * i,
                forall|j: int|
                    0 <= j < i ==> vec@[j] as int == clamp(prefix_sum(self@.samples, j + 1)),
            decreases n - i,
        {
            total = total + self.stream[i] as i128;
            vec.push(saturate(total));
            i = i + 1;
        }
        let r = Signal { stream: vec, precision: self.precision };
        proof {
            assert(r@.samples =~= self@.running_sum().samples);
        }
        r
    }

    /// The centred difference of the signal.
    pub fn diff(&self) -> (r: Signal)
        ensures
            r@ == self@.centered_difference(),
            self.wf() ==> r.wf(),
    {
        let n: usize = self.stream.len();
        let mut vec: Vec<i32> = Vec::with_capacity(n);
        let mut i: usize = 0;
        while i < n
            invariant
                n == self.stream@.len(),
                0 <= i <= n,
                vec@.len() == i,
                forall|j: int|
                    0 <= j < i ==> vec@[j] as int == clamp(self@.at(j + 1) - self@.at(j - 1)),
            decreases n - i,
        {
            let before: i128 = if i >= 1 { self.stream[i - 1] as i128 } else { 0 };
            let after: i128 = if i + 1 < n { self.stream[i + 1] as i128 } else { 0 };
            vec.push(saturate(after - before));
            i = i + 1;
        }
        let r = Signal { stream: vec, precision: self.precision };
        proof {
            assert(r@.samples =~= self@.centered_difference().samples);
        }
        r
    }

    /// The exact dot product of the kernel with the samples that end at `i`.
    fn window(&self, other: &Signal, i: usize) -> (acc: i128)
        requires
            i < self.stream@.len(),
        ensures
            acc == self@.dot(other@, i as int, other@.len() as int),
            -0x4000_0000_0000_0000 * other@.len() <= acc <= 0x4000_0000_0000_0000 * other@.len(),
    {
        let taps: usize = other.stream.len();
        let mut acc: i128 = 0;
        let mut j: usize = 0;
        while j < taps
            invariant
                taps == other.stream@.len(),
                i < self.stream@.len(),
                0 <= j <= taps,
                acc == self@.dot(other@, i as int, j as int),
                -0x4000_0000_0000_0000 * j <= acc <= 0x4000_0000_0000_0000 * j,
            decreases taps - j,
        {
            let tap: i128 = other.stream[j] as i128;
            let sample: i128 = if j <= i { self.stream[i - j] as i128 } else { 0 };
            proof {
                let x = tap as int;
                let y = sample as int;
                assert(-0x4000_0000_0000_0000 <= x * y <= 0x4000_0000_0000_0000)
                    by (nonlinear_arith)
                    requires
                        -0x8000_0000 <= x < 0x8000_0000,
                        -0x8000_0000 <= y < 0x8000_0000,
                ;
            }
            acc = acc + tap * sample;
            j = j + 1;
        }
        acc
    }

    /// The causal convolution of the signal with a kernel, as long as the
    /// signal itself: the signal is taken as zero before its first sample.
    pub fn convolve(&self, other: &Signal) -> (r: Signal)
        requires
            self.wf(),
            other.wf(),
        ensures
            r.wf(),
            r@ == self@.convolution(other@),
    {
        let n: usize = self.stream.len();
        let taps: usize = other.stream.len();
        let shift: u32 = if self.precision <= other.precision {
            self.precision
        } else {
            other.precision
        };
        let mut vec: Vec<i32> = Vec::with_capacity(n);
        let mut i: usize = 0;
        while i < n
            invariant
                n == self.stream@.len(),
                taps == other@.len(),
                shift == lesser(self.precision as nat, other.precision as nat),
                shift <= MAX_PRECISION,
                0 <= i <= n,
                vec@.len() == i,
                forall|k: int|
                    0 <= k < i ==> vec@[k] as int == clamp(
                        quotient(
                            self@.dot(other@, k, other@.len() as int),
                            pow2(shift as nat) as int,
                        ),
                    ),
            decreases n - i,
        {
            let acc: i128 = self.window(other, i);
            proof {
                let t = taps as int;
                assert(0x4000_0000_0000_0000 * t <= 0x4000_0000_0000_0000 * 0xFFFF_FFFF_FFFF_FFFF)
                    by (nonlinear_arith)
                    requires
                        0 <= t <= 0xFFFF_FFFF_FFFF_FFFF,
                ;
            }
            vec.push(narrow(acc, shift));
            i = i + 1;
        }
        let r = Signal {
            stream: vec,
            precision: if self.precision >= other.precision {
                self.precision
            } else {
                other.precision
            },
        };
        proof {
            assert(r@.samples =~= self@.convolution(other@).samples);
        }
        r
    }

    /// The convolution with a kernel, less its first samples: twice as many as
    /// the kernel has taps, or all of them where the signal is shorter.
    pub fn filter(&self, other: &Signal) -> (r: Signal)
        requires
            self.wf(),
            other.wf(),
        ensures
            r.wf(),
            r@ == self@.filtered(other@),
    {
        let s = self.convolve(other);
        let n: usize = s.stream.len();
        proof {
            assert(s@.samples.len() == self@.len());
        }
        let taps: usize = other.stream.len();
        let skip: usize = if taps <= n / 2 { 2 * taps } else { n };
        let mut vec: Vec<i32> = Vec::with_capacity(n - skip);
        let mut i: usize = skip;
        while i < n
            invariant
                n == s.stream@.len(),
                skip <= i <= n,
                vec@.len() == i - skip,
                forall|k: int| 0 <= k < i - skip ==> vec@[k] == s.stream@[k + skip],
            decreases n - i,
        {
            vec.push(s.stream[i]);
            i = i + 1;
        }
        let r = Signal { stream: vec, precision: s.precision };
        proof {
            assert(skip == self@.settling(other@.len()));
            assert(r@.samples =~= self@.filtered(other@).samples);
        }
        r
    }

    /// Multiplies every sample by `value`, read at the signal's own precision.
    pub fn scale(self, value: i32) -> (r: Signal)
        requires
            self.wf(),
        ensures
            r.wf(),
            r@ == self@.scaled(value as int),
    {
        let n: usize = self.stream.len();
        let mut res: Vec<i32> = Vec::with_capacity(n);
        let mut i: usize = 0;
        while i < n
            invariant
                self.wf(),
                n == self.stream@.len(),
                0 <= i <= n,
                res@.len() == i,
                forall|j: int|
                    0 <= j < i ==> res@[j] as int == product_at(
                        self.stream@[j] as int,
                        self.precision as nat,
                        value as int,
                        self.precision as nat,
                    ),
            decreases n - i,
        {
            res.push(mul_samples(self.stream[i], self.precision, value, self.precision));
            i = i + 1;
        }
        let r = Signal { stream: res, precision: self.precision };
        proof {
            assert(r@.samples =~= self@.scaled(value as int).samples);
        }
        r
    }

    /// Cuts the signal into binary symbols with hysteresis. The slicer starts
    /// at `0`; it rises to `1` on a sample of at least `threshold` and falls
    /// back to `0` on a sample of at most `-threshold`. The threshold is read
    /// at the signal's own precision.
    pub fn into_bitstream(self, threshold: i32) -> (r: BitStream)
        ensures
            r.wf(),
            r.stream@ == self@.sliced(threshold as int),
    {
        let n: usize = self.stream.len();
        let mut res: Vec<usize> = Vec::with_capacity(n);
        let mut state: usize = 0;
        let mut i: usize = 0;
        while i < n
            invariant
                n == self.stream@.len(),
                0 <= i <= n,
                res@.len() == i,
                state <= 1,
                state == slicer_state(self@.samples, threshold as int, i as int),
                forall|j: int|
                    0 <= j < i ==> res@[j] as int == slicer_state(
                        self@.samples,
                        threshold as int,
                        j + 1,
                    ),
            decreases n - i,
        {
            let s: i64 = self.stream[i] as i64;
            let t: i64 = threshold as i64;
            if state == 0 {
                if s >= t {
                    state = 1;
                }
            } else {
                if s <= -t {
                    state = 0;
                }
            }
            res.push(state);
            i = i + 1;
        }
        let r = BitStream { stream: res };
        proof {
            assert(r.stream@ =~= self@.sliced(threshold as int));
        }
        r
    }

    /// Divides every sample by the sum of all samples, which gives a kernel
    /// unit gain at zero frequency.
    pub fn normalize(&self) -> (r: Signal)
        requires
            self.wf(),
        ensures
            r.wf(),
            r@ == self@.normalized(),
    {
        let n: usize = self.stream.len();
        let mut total: i128 = 0;
        let mut i: usize = 0;
        while i < n
            invariant
                n == self.stream@.len(),
                0 <= i <= n,
                total == prefix_sum(self@.samples, i as int),
                -0x8000_0000 * i <= total <= 0x8000_0000 * i,
            decreases n - i,
        {
            total = total + self.stream[i] as i128;
            i = i + 1;
        }
        let mut vec: Vec<i32> = Vec::with_capacity(n);
        let mut k: usize = 0;
        while k < n
            invariant
                self.wf(),
                n == self.stream@.len(),
                0 <= k <= n,
                vec@.len() == k,
                total == self@.total(),
                -0x8000_0000 * n <= total <= 0x8000_0000 * n,
                forall|j: int|
                    0 <= j < k ==> vec@[j] as int == clamp(
                        quotient(self@.samples[j] * pow2(self.precision as nat), self@.total()),
                    ),
            decreases n - k,
        {
            let v: i32 = if total == 0 {
                0
            } else {
                let wide: i128 = crate::fixed::lifted(self.stream[k], 0, self.precision);
                saturate(crate::fixed::divide(wide, total))
            };
            vec.push(v);
            k = k + 1;
        }
        let r = Signal { stream: vec, precision: self.precision };
        proof {
            assert(r@.samples =~= self@.normalized().samples);
        }
        r
    }
}

} // verus!
