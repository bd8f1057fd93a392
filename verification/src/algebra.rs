//! Laws of the signal algebra, stated over signal models.
//!
//! Samples saturate, so a law of exact arithmetic holds of a sample only where
//! nothing on the way to it has saturated. Each law says so in its own terms.
use vstd::prelude::*;
use vstd::arithmetic::power2::pow2;
use crate::fixed::{
    clamp, common, lemma_quotient_is_close, lift, magnitude, product_at, quotient,
};
use crate::signal::{prefix_sum, SignalModel};

verus! {

/// `v` is a value that a sample can hold.
pub open spec fn fits(v: int) -> bool {
    i32::MIN <= v <= i32::MAX
}

impl SignalModel {
    /// Every sample is a value that a sample word can hold, as in the model
    /// of any `Signal`.
    pub open spec fn in_range(self) -> bool {
        forall|i: int| 0 <= i < self.len() ==> fits(#[trigger] self.samples[i])
    }

    /// No centred difference up to and including the one at `i` saturates.
    pub open spec fn differences_fit(self, i: int) -> bool {
        forall|k: int| 0 <= k <= i ==> fits(#[trigger] self.at(k + 1) - self.at(k - 1))
    }

    /// No running sum up to and including the one at `i` saturates.
    pub open spec fn sums_fit(self, i: int) -> bool {
        forall|k: int| 0 <= k <= i ==> fits(#[trigger] prefix_sum(self.samples, k + 1))
    }
}

/// Adding a signal and taking it away again gives back the first signal at
/// the common precision of the two, at every sample at which the sum did not
/// saturate.
pub proof fn lemma_add_then_sub(a: SignalModel, b: SignalModel, i: int)
    requires
        a.len() == b.len(),
        0 <= i < a.len(),
        fits(
            lift(a.samples[i], a.precision, common(a.precision, b.precision)) + lift(
                b.samples[i],
                b.precision,
                common(a.precision, b.precision),
            ),
        ),
    ensures
        a.plus(b).minus(b).len() == a.len(),
        a.plus(b).minus(b).precision == common(a.precision, b.precision),
        a.plus(b).minus(b).samples[i] == clamp(
            lift(a.samples[i], a.precision, common(a.precision, b.precision)),
        ),
{
    vstd::arithmetic::power2::lemma2_to64();
    let p = common(a.precision, b.precision);
    assert(common(p, b.precision) == p);
    let sum = a.plus(b).samples[i];
    assert(lift(sum, p, p) == sum) by {
        assert(pow2((p - p) as nat) == 1);
        assert(sum * 1 == sum);
    }
}

/// Where the second signal has no more precision than the first, and no sum
/// saturates, adding it and taking it away again gives back the first signal.
pub proof fn lemma_add_then_sub_restores(a: SignalModel, b: SignalModel)
    requires
        a.len() == b.len(),
        a.in_range(),
        b.in_range(),
        b.precision <= a.precision,
        forall|i: int|
            0 <= i < a.len() ==> fits(
                a.samples[i] + lift(#[trigger] b.samples[i], b.precision, a.precision),
            ),
    ensures
        a.plus(b).minus(b) == a,
{
    vstd::arithmetic::power2::lemma2_to64();
    let r = a.plus(b).minus(b);
    assert(common(a.precision, b.precision) == a.precision);
    assert forall|i: int| 0 <= i < a.len() implies r.samples[i] == a.samples[i] by {
        assert(lift(a.samples[i], a.precision, a.precision) == a.samples[i]);
        assert(fits(a.samples[i] + lift(b.samples[i], b.precision, a.precision)));
        lemma_add_then_sub(a, b, i);
    }
    assert(r.samples =~= a.samples);
}

/// The centred differences of a signal add up to the sample itself, plus its
/// successor, less the first sample.
pub proof fn lemma_differences_add_up(s: SignalModel, i: int)
    requires
        0 <= i < s.len(),
        s.differences_fit(i),
    ensures
        prefix_sum(s.centered_difference().samples, i + 1) == s.at(i) + s.at(i + 1) - s.at(0),
    decreases i,
{
    let d = s.centered_difference();
    assert(fits(s.at(i + 1) - s.at(i - 1)));
    assert(d.samples[i] == s.at(i + 1) - s.at(i - 1));
    if i == 0 {
        assert(prefix_sum(d.samples, 0) == 0);
    } else {
        assert(s.differences_fit(i - 1)) by {
            assert forall|k: int| 0 <= k <= i - 1 implies fits(
                #[trigger] s.at(k + 1) - s.at(k - 1),
            ) by {}
        }
        lemma_differences_add_up(s, i - 1);
    }
}

/// The running sum of the centred difference of a signal holds, at each
/// sample, the sample plus its successor less the first sample: it gives the
/// signal back only where the successor equals the first sample.
pub proof fn lemma_diff_then_sum(s: SignalModel, i: int)
    requires
        0 <= i < s.len(),
        s.differences_fit(i),
    ensures
        s.centered_difference().running_sum().len() == s.len(),
        s.centered_difference().running_sum().precision == s.precision,
        s.centered_difference().running_sum().samples[i] == clamp(
            s.at(i) + s.at(i + 1) - s.at(0),
        ),
        s.in_range() && s.at(i + 1) == s.at(0)
            ==> s.centered_difference().running_sum().samples[i] == s.samples[i],
{
    lemma_differences_add_up(s, i);
}

/// For a signal that starts at zero, taking the difference and the running
/// sum in either order gives the same sample, the last one apart, wherever
/// neither saturates.
pub proof fn lemma_sum_diff_commute(s: SignalModel, i: int)
    requires
        0 <= i,
        i + 1 < s.len(),
        s.at(0) == 0,
        s.differences_fit(i),
        s.sums_fit(i + 1),
    ensures
        s.running_sum().centered_difference().samples[i]
            == s.centered_difference().running_sum().samples[i],
{
    lemma_diff_then_sum(s, i);
    let t = s.running_sum();
    assert(t.at(i + 1) == prefix_sum(s.samples, i + 2)) by {
        assert(fits(prefix_sum(s.samples, (i + 1) + 1)));
    }
    assert(prefix_sum(s.samples, i + 2) == prefix_sum(s.samples, i) + s.samples[i] + s.samples[i
        + 1]) by {
        assert(prefix_sum(s.samples, i + 2) == prefix_sum(s.samples, i + 1) + s.samples[i + 1]);
        assert(prefix_sum(s.samples, i + 1) == prefix_sum(s.samples, i) + s.samples[i]);
    }
    if i == 0 {
        assert(t.at(i - 1) == 0);
        assert(prefix_sum(s.samples, 0) == 0);
    } else {
        assert(t.at(i - 1) == prefix_sum(s.samples, i)) by {
            assert(fits(prefix_sum(s.samples, (i - 1) + 1)));
        }
    }
}

/// Convolving with a kernel of one tap multiplies every sample by that tap
/// and keeps the length.
pub proof fn lemma_convolve_single_tap(s: SignalModel, kernel: SignalModel)
    requires
        kernel.len() == 1,
    ensures
        s.convolution(kernel).len() == s.len(),
        s.convolution(kernel).precision == common(s.precision, kernel.precision),
        forall|i: int|
            0 <= i < s.len() ==> #[trigger] s.convolution(kernel).samples[i] == product_at(
                s.samples[i],
                s.precision,
                kernel.samples[0],
                kernel.precision,
            ),
{
    assert forall|i: int| 0 <= i < s.len() implies #[trigger] s.convolution(kernel).samples[i]
        == product_at(s.samples[i], s.precision, kernel.samples[0], kernel.precision) by {
        assert(s.dot(kernel, i, 1) == s.dot(kernel, i, 0) + kernel.samples[0] * s.at(i - 0));
        assert(s.dot(kernel, i, 0) == 0);
        assert(kernel.samples[0] * s.samples[i] == s.samples[i] * kernel.samples[0])
            by (nonlinear_arith);
    }
}

/// Convolving with a one-tap kernel of the signal's own precision is scaling
/// by the tap.
pub proof fn lemma_convolve_single_tap_scales(s: SignalModel, kernel: SignalModel)
    requires
        kernel.len() == 1,
        kernel.precision == s.precision,
    ensures
        s.convolution(kernel) == s.scaled(kernel.samples[0]),
{
    lemma_convolve_single_tap(s, kernel);
    assert(s.convolution(kernel).samples =~= s.scaled(kernel.samples[0]).samples);
}

/// Convolving with the unit kernel, a single tap of one with no fractional
/// bits, gives the signal back.
pub proof fn lemma_convolve_unit(s: SignalModel, kernel: SignalModel)
    requires
        s.in_range(),
        kernel.len() == 1,
        kernel.samples[0] == 1,
        kernel.precision == 0,
    ensures
        s.convolution(kernel) == s,
{
    vstd::arithmetic::power2::lemma2_to64();
    lemma_convolve_single_tap(s, kernel);
    assert forall|i: int| 0 <= i < s.len() implies s.convolution(kernel).samples[i]
        == s.samples[i] by {
        let x = s.samples[i];
        assert(fits(x));
        assert(x * 1 == x);
        assert(pow2(0) == 1);
        assert(magnitude(x) / 1 == magnitude(x));
        assert(quotient(x, 1) == x);
    }
    assert(s.convolution(kernel).samples =~= s.samples);
}

impl SignalModel {
    /// No sample saturates when the signal is normalized.
    pub open spec fn normalizes_exactly(self) -> bool {
        forall|i: int|
            0 <= i < self.len() ==> fits(
                quotient(#[trigger] self.samples[i] * pow2(self.precision), self.total()),
            )
    }
}

proof fn lemma_normalized_prefix(s: SignalModel, k: int)
    requires
        0 <= k <= s.len(),
        s.total() != 0,
        s.normalizes_exactly(),
    ensures
        magnitude(
            s.total() * prefix_sum(s.normalized().samples, k) - pow2(s.precision) * prefix_sum(
                s.samples,
                k,
            ),
        ) <= k * (magnitude(s.total()) - 1),
    decreases k,
{
    if k > 0 {
        lemma_normalized_prefix(s, k - 1);
        let t = s.total();
        let e = pow2(s.precision) as int;
        let x = s.samples[k - 1];
        let q = quotient(x * e, t);
        assert(fits(quotient(s.samples[k - 1] * pow2(s.precision), s.total())));
        assert(s.normalized().samples[k - 1] == q);
        lemma_quotient_is_close(x * e, t);
        let before = prefix_sum(s.normalized().samples, k - 1);
        let sum = prefix_sum(s.samples, k - 1);
        assert(t * (before + q) - e * (sum + x) == (t * before - e * sum) + (q * t - x * e))
            by (nonlinear_arith);
        assert(k * (magnitude(t) - 1) == (k - 1) * (magnitude(t) - 1) + (magnitude(t) - 1))
            by (nonlinear_arith);
    } else {
        assert(s.total() * 0 == 0);
        assert(pow2(s.precision) * 0 == 0);
    }
}

/// A normalized signal has unit gain at zero frequency as nearly as rounding
/// allows: where no sample saturates, its samples add up to one, written at
/// the signal's precision, with an error of less than one unit in the last
/// place for each sample.
pub proof fn lemma_normalized_gain(s: SignalModel)
    requires
        s.total() != 0,
        s.normalizes_exactly(),
    ensures
        s.normalized().len() == s.len(),
        s.normalized().precision == s.precision,
        magnitude(s.normalized().total() - pow2(s.precision)) < s.len(),
{
    let n = s.len() as int;
    lemma_normalized_prefix(s, n);
    let t = s.total();
    let e = pow2(s.precision) as int;
    let g = s.normalized().total();
    assert(n >= 1) by {
        assert(prefix_sum(s.samples, 0) == 0);
    }
    let a = magnitude(t);
    let b = magnitude(g - e);
    assert(t * g - e * t == t * (g - e)) by (nonlinear_arith);
    assert(magnitude(t * (g - e)) == a * b) by (nonlinear_arith)
        requires
            a == if t < 0 {
                -t
            } else {
                t
            },
            b == if g - e < 0 {
                -(g - e)
            } else {
                g - e
            },
            magnitude(t * (g - e)) == if t * (g - e) < 0 {
                -(t * (g - e))
            } else {
                t * (g - e)
            },
    ;
    if b >= n {
        assert(a * b >= a * n) by (nonlinear_arith)
            requires
                b >= n,
                a >= 1,
        ;
        assert(n * (a - 1) == a * n - n) by (nonlinear_arith);
    }
}

} // verus!
