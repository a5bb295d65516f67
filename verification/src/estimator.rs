//! An online estimator of the mean and the unbiased sample variance of a
//! stream of fixed-point samples.
//!
//! The estimator keeps the exact integer sum and sum of squares of the
//! samples it has seen, so every derived statistic is an exact rational:
//! the mean is `sum / n`, Welford's `M2` (the sum of squared deviations
//! from the mean) is `(n * sum_squares - sum * sum) / n`, and the unbiased
//! sample variance is `M2 / (n - 1)`. Estimators filled independently are
//! combined with [`VarianceEstimator::merge`], whose result carries exactly
//! the statistics of the union of the two sample streams, in any merge
//! order or grouping.
//!
//! In exact arithmetic the accumulated sums and Welford's one-pass update
//! coincide step for step: [`crate::laws::lemma_welford_step`] proves that
//! appending a sample moves the scaled second moment by exactly Welford's
//! `delta * delta2` term, and [`crate::laws::lemma_merge_combination`]
//! proves that `merge` realises the parallel combination rule
//! `M2 == M2_l + M2_r + (mean_r - mean_l)^2 * n_l * n_r / n`.

use vstd::prelude::*;

use crate::stats::{
    lemma_sum_concat, lemma_sum_push, lemma_sum_squares_concat, lemma_sum_squares_push,
    scaled_m2_of, sum_of, sum_squares_of,
};

verus! {

/// Largest magnitude a sample may have.
pub const SAMPLE_LIMIT: i64 = 0x8000_0000;

/// Largest number of samples one estimator can hold.
pub const COUNT_LIMIT: u64 = 0x8000_0000;

/// A sample the estimator accepts: magnitude at most `SAMPLE_LIMIT`.
pub open spec fn in_range(x: int) -> bool {
    -(SAMPLE_LIMIT as int) <= x <= SAMPLE_LIMIT as int
}

/// Every sample of the stream is within `SAMPLE_LIMIT`.
pub open spec fn all_in_range(s: Seq<int>) -> bool {
    forall|i: int| 0 <= i < s.len() ==> in_range(s[i])
}

/// An exact rational number; `den` is at least 1 wherever one is returned.
#[derive(Clone, Copy, Debug, PartialEq, Eq, Structural)]
pub struct Ratio {
    pub num: i128,
    pub den: i128,
}

/// Online mean/variance accumulator over a stream of samples.
///
/// The mathematical value of an estimator is the stream of samples folded
/// into it, `self@: Seq<int>`; all contracts are stated over that stream.
#[derive(Clone, Copy)]
pub struct VarianceEstimator {
    sample_count: u64,
    sum: i128,
    sum_squares: i128,
    samples: Ghost<Seq<int>>,
}

impl View for VarianceEstimator {
    type V = Seq<int>;

    closed spec fn view(&self) -> Seq<int> {
        self.samples@
    }
}

/// The sums grow at most linearly with the stream: with every sample
/// within `SAMPLE_LIMIT` (`2^31`), the sum stays within `len * 2^31` and
/// the sum of squares within `len * 2^62`.
proof fn lemma_sums_linear_bounds(s: Seq<int>)
    requires
        all_in_range(s),
    ensures
        -(s.len() * 0x8000_0000) <= sum_of(s) <= s.len() * 0x8000_0000,
        0 <= sum_squares_of(s) <= s.len() * 0x4000_0000_0000_0000,
    decreases s.len(),
{
    if s.len() == 0 {
    } else {
        let d = s.drop_last();
        let x = s.last();
        assert(all_in_range(d));
        lemma_sums_linear_bounds(d);
        assert(0 <= x * x <= 0x4000_0000_0000_0000) by (nonlinear_arith)
            requires
                -0x8000_0000 <= x <= 0x8000_0000,
        {
        }
    }
}

/// Numeric bounds that the well-formedness invariant puts on the sums:
/// with at most `COUNT_LIMIT` samples, the sum stays within `2^62` and the
/// sum of squares within `2^93`.
proof fn lemma_wf_bounds(s: Seq<int>)
    requires
        all_in_range(s),
        s.len() <= COUNT_LIMIT as int,
    ensures
        -0x4000_0000_0000_0000 <= sum_of(s) <= 0x4000_0000_0000_0000,
        0 <= sum_squares_of(s) <= 0x2000_0000_0000_0000_0000_0000,
{
    lemma_sums_linear_bounds(s);
}

impl VarianceEstimator {
    /// The estimator's internal invariant: the fields are the count, the
    /// sum and the sum of squares of the sample stream `self@`, the count
    /// is within `COUNT_LIMIT`, and every sample is within `SAMPLE_LIMIT`.
    pub closed spec fn wf(&self) -> bool {
        &&& self.sample_count as int == self@.len()
        &&& self@.len() <= COUNT_LIMIT as int
        &&& self.sum as int == sum_of(self@)
        &&& self.sum_squares as int == sum_squares_of(self@)
        &&& all_in_range(self@)
    }

    /// A fresh, empty estimator: the identity value for `merge`.
    pub fn new() -> (r: Self)
        ensures
            r.wf(),
            r@ == Seq::<int>::empty(),
    {
        Self { sample_count: 0, sum: 0, sum_squares: 0, samples: Ghost(Seq::empty()) }
    }

    /// How many samples have been folded in so far.
    pub fn sample_count(&self) -> (n: u64)
        requires
            self.wf(),
        ensures
            n as int == self@.len(),
    {
        self.sample_count
    }

    /// Fold one sample into the stream.
    pub fn add_sample(&mut self, x: i64)
        requires
            old(self).wf(),
            old(self)@.len() < COUNT_LIMIT as int,
            in_range(x as int),
        ensures
            final(self).wf(),
            final(self)@ == old(self)@.push(x as int),
    {
        let ghost s0: Seq<int> = self.samples@;
        proof {
            lemma_sums_linear_bounds(s0);
            lemma_sum_push(s0, x as int);
            lemma_sum_squares_push(s0, x as int);
        }
        let xi: i128 = x as i128;
        proof {
            assert(0 <= xi * xi <= 0x4000_0000_0000_0000) by (nonlinear_arith)
                requires
                    -0x8000_0000 <= xi <= 0x8000_0000,
            {
            }
        }
        self.sample_count = self.sample_count + 1;
        self.sum = self.sum + xi;
        self.sum_squares = self.sum_squares + xi * xi;
        self.samples = Ghost(s0.push(x as int));
        proof {
            assert(all_in_range(self.samples@)) by {
                assert forall|i: int| 0 <= i < self.samples@.len() implies in_range(
                    self.samples@[i],
                ) by {
                    if i < s0.len() {
                        assert(self.samples@[i] == s0[i]);
                    }
                }
            }
        }
    }

    /// The running mean, `sum / n`, as an exact rational; `0/1` while the
    /// estimator is empty.
    pub fn mean(&self) -> (r: Ratio)
        requires
            self.wf(),
        ensures
            r.den >= 1,
            self@.len() == 0 ==> r.num == 0 && r.den == 1,
            self@.len() > 0 ==> r.num == sum_of(self@) && r.den == self@.len(),
    {
        if self.sample_count == 0 {
            Ratio { num: 0, den: 1 }
        } else {
            Ratio { num: self.sum, den: self.sample_count as i128 }
        }
    }

    /// The unbiased sample variance `M2 / (n - 1)` as an exact rational,
    /// returned as `scaled_m2 / (n * (n - 1))`; `0/1` while fewer than two
    /// samples are in (a defined default, not an error).
    pub fn variance(&self) -> (r: Ratio)
        requires
            self.wf(),
        ensures
            r.den >= 1,
            self@.len() <= 1 ==> r.num == 0 && r.den == 1,
            self@.len() > 1 ==> r.num == scaled_m2_of(self@) && r.den == self@.len() * (
            self@.len() - 1),
    {
        if self.sample_count <= 1 {
            return Ratio { num: 0, den: 1 };
        }
        proof {
            lemma_wf_bounds(self@);
        }
        let n: i128 = self.sample_count as i128;
        proof {
            assert(2 <= n * (n - 1) <= 0x4000_0000_0000_0000 && 0 <= n * self.sum_squares
                <= 0x1000_0000_0000_0000_0000_0000_0000_0000 && 0 <= self.sum * self.sum
                <= 0x1000_0000_0000_0000_0000_0000_0000_0000) by (nonlinear_arith)
                requires
                    2 <= n <= 0x8000_0000,
                    0 <= self.sum_squares <= 0x2000_0000_0000_0000_0000_0000,
                    -0x4000_0000_0000_0000 <= self.sum <= 0x4000_0000_0000_0000,
            {
            }
        }
        let num: i128 = n * self.sum_squares - self.sum * self.sum;
        let den: i128 = n * (n - 1);
        Ratio { num, den }
    }

    /// The variance divided by the mean, `scaled_m2 / ((n - 1) * sum)`, as
    /// an exact rational with a positive denominator; `0/1` while fewer
    /// than two samples are in or the mean is exactly zero (both defined
    /// fallbacks guarding a division by zero, not errors).
    pub fn relative_variance(&self) -> (r: Ratio)
        requires
            self.wf(),
        ensures
            r.den >= 1,
            self@.len() <= 1 || sum_of(self@) == 0 ==> r.num == 0 && r.den == 1,
            self@.len() > 1 && sum_of(self@) > 0 ==> r.num == scaled_m2_of(self@) && r.den == (
            self@.len() - 1) * sum_of(self@),
            self@.len() > 1 && sum_of(self@) < 0 ==> r.num == -scaled_m2_of(self@) && r.den == (
            self@.len() - 1) * -sum_of(self@),
    {
        if self.sample_count <= 1 || self.sum == 0 {
            return Ratio { num: 0, den: 1 };
        }
        proof {
            lemma_wf_bounds(self@);
        }
        let n: i128 = self.sample_count as i128;
        proof {
            assert(0 <= n * self.sum_squares <= 0x1000_0000_0000_0000_0000_0000_0000_0000 && 0
                <= self.sum * self.sum <= 0x1000_0000_0000_0000_0000_0000_0000_0000 && (self.sum
                >= 1 ==> 1 <= (n - 1) * self.sum <= 0x2000_0000_0000_0000_0000_0000) && (self.sum
                <= -1 ==> 1 <= (n - 1) * -self.sum <= 0x2000_0000_0000_0000_0000_0000))
                by (nonlinear_arith)
                requires
                    2 <= n <= 0x8000_0000,
                    0 <= self.sum_squares <= 0x2000_0000_0000_0000_0000_0000,
                    -0x4000_0000_0000_0000 <= self.sum <= 0x4000_0000_0000_0000,
                    self.sum != 0,
            {
            }
        }
        let m2: i128 = n * self.sum_squares - self.sum * self.sum;
        if self.sum > 0 {
            Ratio { num: m2, den: (n - 1) * self.sum }
        } else {
            Ratio { num: -m2, den: (n - 1) * -self.sum }
        }
    }

    /// Combine two independently filled estimators. The result carries
    /// exactly the statistics of the two sample streams laid end to end,
    /// so it matches an estimator that ingested every sample one at a
    /// time; an empty operand on either side is the identity.
    pub fn merge(lhs: Self, rhs: Self) -> (r: Self)
        requires
            lhs.wf(),
            rhs.wf(),
            lhs@.len() + rhs@.len() <= COUNT_LIMIT as int,
        ensures
            r.wf(),
            r@ == lhs@ + rhs@,
    {
        if rhs.sample_count == 0 {
            proof {
                assert(lhs@ + rhs@ =~= lhs@);
            }
            return lhs;
        }
        if lhs.sample_count == 0 {
            proof {
                assert(lhs@ + rhs@ =~= rhs@);
            }
            return rhs;
        }
        proof {
            lemma_wf_bounds(lhs@);
            lemma_wf_bounds(rhs@);
            lemma_sum_concat(lhs@, rhs@);
            lemma_sum_squares_concat(lhs@, rhs@);
            assert(all_in_range(lhs@ + rhs@)) by {
                assert forall|i: int| 0 <= i < (lhs@ + rhs@).len() implies in_range(
                    (lhs@ + rhs@)[i],
                ) by {
                    if i < lhs@.len() {
                        assert((lhs@ + rhs@)[i] == lhs@[i]);
                    } else {
                        assert((lhs@ + rhs@)[i] == rhs@[i - lhs@.len()]);
                    }
                }
            }
        }
        Self {
            sample_count: lhs.sample_count + rhs.sample_count,
            sum: lhs.sum + rhs.sum,
            sum_squares: lhs.sum_squares + rhs.sum_squares,
            samples: Ghost(lhs@ + rhs@),
        }
    }
}

impl Default for VarianceEstimator {
    /// Same value as `new`: the empty estimator.
    fn default() -> (r: Self)
        ensures
            r.wf(),
            r@ == Seq::<int>::empty(),
    {
        VarianceEstimator::new()
    }
}

} // verus!
