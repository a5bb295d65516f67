//! Spec-level statistics of a sequence of samples.
//!
//! A stream of samples is modelled as a `Seq<int>`. The three quantities
//! every estimator contract speaks of are the sample count, the sum of the
//! samples, and the sum of their squares; the scaled second central moment
//! `scaled_m2_of` (the count times Welford's `M2`, the sum of squared
//! deviations from the mean) is derived from them and stays an integer.

use vstd::prelude::*;

verus! {

/// Sum of all samples in the stream.
pub open spec fn sum_of(s: Seq<int>) -> int
    decreases s.len(),
{
    if s.len() == 0 {
        0
    } else {
        sum_of(s.drop_last()) + s.last()
    }
}

/// Sum of the squares of all samples in the stream.
pub open spec fn sum_squares_of(s: Seq<int>) -> int
    decreases s.len(),
{
    if s.len() == 0 {
        0
    } else {
        sum_squares_of(s.drop_last()) + s.last() * s.last()
    }
}

/// The sample count times Welford's `M2` (the sum of squared deviations of
/// the samples from their mean): an integer even though `M2` itself is a
/// rational with denominator `s.len()`.
pub open spec fn scaled_m2_of(s: Seq<int>) -> int {
    s.len() * sum_squares_of(s) - sum_of(s) * sum_of(s)
}

/// Appending a sample adds it to the sum.
pub proof fn lemma_sum_push(s: Seq<int>, x: int)
    ensures
        sum_of(s.push(x)) == sum_of(s) + x,
{
    assert(s.push(x).drop_last() =~= s);
}

/// Appending a sample adds its square to the sum of squares.
pub proof fn lemma_sum_squares_push(s: Seq<int>, x: int)
    ensures
        sum_squares_of(s.push(x)) == sum_squares_of(s) + x * x,
{
    assert(s.push(x).drop_last() =~= s);
}

/// The sum of a concatenation is the sum of the parts.
pub proof fn lemma_sum_concat(a: Seq<int>, b: Seq<int>)
    ensures
        sum_of(a + b) == sum_of(a) + sum_of(b),
    decreases b.len(),
{
    if b.len() == 0 {
        assert(a + b =~= a);
    } else {
        lemma_sum_concat(a, b.drop_last());
        assert(a + b =~= (a + b.drop_last()).push(b.last()));
        lemma_sum_push(a + b.drop_last(), b.last());
    }
}

/// The sum of squares of a concatenation is the sum of the parts'.
pub proof fn lemma_sum_squares_concat(a: Seq<int>, b: Seq<int>)
    ensures
        sum_squares_of(a + b) == sum_squares_of(a) + sum_squares_of(b),
    decreases b.len(),
{
    if b.len() == 0 {
        assert(a + b =~= a);
    } else {
        lemma_sum_squares_concat(a, b.drop_last());
        assert(a + b =~= (a + b.drop_last()).push(b.last()));
        lemma_sum_squares_push(a + b.drop_last(), b.last());
    }
}

} // verus!
