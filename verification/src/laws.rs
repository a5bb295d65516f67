//! Laws of the estimator's statistics, stated over the sample-stream model.
//!
//! Every contract of [`crate::estimator::VarianceEstimator`] speaks of the
//! stream `self@` through `sum_of`, `sum_squares_of` and `scaled_m2_of`;
//! the proof functions here state what those quantities do under the
//! operations the estimator offers: a constant stream, one Welford step,
//! merging, reordering, and merging with an empty estimator.

use vstd::prelude::*;

use crate::stats::{
    lemma_sum_concat, lemma_sum_push, lemma_sum_squares_concat, lemma_sum_squares_push,
    scaled_m2_of, sum_of, sum_squares_of,
};

verus! {

/// A stream of `n` copies of `c` sums to `n * c` and its squares to
/// `n * c * c`.
proof fn lemma_constant_sums(c: int, n: nat)
    ensures
        sum_of(Seq::new(n, |i: int| c)) == n * c,
        sum_squares_of(Seq::new(n, |i: int| c)) == n * (c * c),
    decreases n,
{
    let s = Seq::new(n, |i: int| c);
    if n == 0 {
    } else {
        let d = Seq::new((n - 1) as nat, |i: int| c);
        lemma_constant_sums(c, (n - 1) as nat);
        assert(s.drop_last() =~= d);
        assert(s.last() == c);
        assert((n - 1) * c + c == n * c) by (nonlinear_arith);
        assert((n - 1) * (c * c) + c * c == n * (c * c)) by (nonlinear_arith);
    }
}

/// Constant stream: after `n >= 1` samples all equal to `c`, the mean is
/// exactly `c` (the sum is `n * c` over `n` samples) and the variance is
/// exactly zero (the scaled second moment vanishes).
pub proof fn lemma_constant_stream(c: int, n: nat)
    requires
        n >= 1,
    ensures
        sum_of(Seq::new(n, |i: int| c)) == n * c,
        scaled_m2_of(Seq::new(n, |i: int| c)) == 0,
{
    lemma_constant_sums(c, n);
    let s = Seq::new(n, |i: int| c);
    assert(n * (n * (c * c)) - (n * c) * (n * c) == 0) by (nonlinear_arith);
    assert(scaled_m2_of(s) == n * (n * (c * c)) - (n * c) * (n * c));
}

/// One Welford step, in exact arithmetic: appending a sample `x` to a
/// stream of `n` samples turns the scaled second moment `n * M2` into
/// `(n + 1) * M2'` with `M2' == M2 + delta * delta2`, where
/// `delta == x - mean` and `delta2 == x - mean'`; cleared of the
/// denominators `n` and `n + 1` that is the identity below.
pub proof fn lemma_welford_step(s: Seq<int>, x: int)
    ensures
        s.len() * scaled_m2_of(s.push(x)) == (s.len() + 1) * scaled_m2_of(s) + (x * s.len()
            - sum_of(s)) * (x * s.len() - sum_of(s)),
{
    lemma_sum_push(s, x);
    lemma_sum_squares_push(s, x);
    let n = s.len() as int;
    let sm = sum_of(s);
    let q = sum_squares_of(s);
    assert(scaled_m2_of(s.push(x)) == (n + 1) * (q + x * x) - (sm + x) * (sm + x));
    lemma_welford_identity(n, sm, q, x);
}

/// Squares of a sum and of a difference, expanded into monomials.
proof fn lemma_square_expand(u: int, v: int)
    ensures
        (u + v) * (u + v) == u * u + 2 * (u * v) + v * v,
        (u - v) * (u - v) == u * u - 2 * (u * v) + v * v,
{
    assert((u + v) * (u + v) == u * u + 2 * (u * v) + v * v) by (nonlinear_arith);
    assert((u - v) * (u - v) == u * u - 2 * (u * v) + v * v) by (nonlinear_arith);
}

/// The ring identity behind one Welford step, assembled from expansion
/// steps small enough for the nonlinear solver.
proof fn lemma_welford_identity(n: int, sm: int, q: int, x: int)
    ensures
        n * ((n + 1) * (q + x * x) - (sm + x) * (sm + x)) == (n + 1) * (n * q - sm * sm) + (x * n
            - sm) * (x * n - sm),
{
    lemma_square_expand(sm, x);
    assert((n + 1) * (q + x * x) == n * q + q + n * (x * x) + x * x) by (nonlinear_arith);
    assert(n * (n * q + q + n * (x * x) - sm * sm - 2 * (sm * x)) == n * (n * q) + n * q + n * (n
        * (x * x)) - n * (sm * sm) - 2 * (n * (sm * x))) by (nonlinear_arith);
    assert((n + 1) * (n * q - sm * sm) == n * (n * q) + n * q - n * (sm * sm) - sm * sm)
        by (nonlinear_arith);
    lemma_square_expand(x * n, sm);
    assert((x * n) * (x * n) == n * (n * (x * x))) by (nonlinear_arith);
    assert((x * n) * sm == sm * x * n) by (nonlinear_arith);
    assert(sm * x * n == n * (sm * x)) by (nonlinear_arith);
}

/// The sum of squared deviations from the mean is never negative: every
/// estimator's scaled second moment is at least zero.
pub proof fn lemma_scaled_m2_nonneg(s: Seq<int>)
    ensures
        scaled_m2_of(s) >= 0,
    decreases s.len(),
{
    if s.len() == 0 {
    } else if s.len() == 1 {
        let x = s.last();
        assert(s.drop_last().len() == 0);
        assert(sum_of(s.drop_last()) == 0 && sum_squares_of(s.drop_last()) == 0);
        assert(sum_of(s) == x && sum_squares_of(s) == x * x);
        assert(1 * (x * x) - x * x == 0) by (nonlinear_arith);
    } else {
        let d = s.drop_last();
        let x = s.last();
        lemma_scaled_m2_nonneg(d);
        assert(s =~= d.push(x));
        lemma_welford_step(d, x);
        let n = d.len() as int;
        let dn = x * n - sum_of(d);
        assert(scaled_m2_of(s) >= 0) by (nonlinear_arith)
            requires
                n >= 1,
                scaled_m2_of(d) >= 0,
                n * scaled_m2_of(s) == (n + 1) * scaled_m2_of(d) + dn * dn,
        {
        }
    }
}

/// Merge correctness, the parallel combination rule in exact form: for
/// streams `a` and `b` of lengths `nl` and `nr`, the merged stream's
/// scaled second moment obeys
/// `M2 == M2_l + M2_r + (mean_r - mean_l)^2 * nl * nr / n` and its mean
/// `mean == (nl * mean_l + nr * mean_r) / n`, both cleared of
/// denominators below, so that the merged statistics are exactly those of
/// one estimator fed every sample of `a` and of `b`.
pub proof fn lemma_merge_combination(a: Seq<int>, b: Seq<int>)
    ensures
        (a + b).len() == a.len() + b.len(),
        sum_of(a + b) == sum_of(a) + sum_of(b),
        a.len() * b.len() * scaled_m2_of(a + b) == (a.len() + b.len()) * (b.len() * scaled_m2_of(
            a,
        )) + (a.len() + b.len()) * (a.len() * scaled_m2_of(b)) + (sum_of(b) * a.len() - sum_of(a)
            * b.len()) * (sum_of(b) * a.len() - sum_of(a) * b.len()),
{
    lemma_sum_concat(a, b);
    lemma_sum_squares_concat(a, b);
    let nl = a.len() as int;
    let nr = b.len() as int;
    let sl = sum_of(a);
    let sr = sum_of(b);
    let ql = sum_squares_of(a);
    let qr = sum_squares_of(b);
    lemma_chan_identity(nl, nr, sl, sr, ql, qr);
}

/// The ring identity behind the parallel combination rule, assembled from
/// distributivity steps small enough for the nonlinear solver.
proof fn lemma_chan_identity(nl: int, nr: int, sl: int, sr: int, ql: int, qr: int)
    ensures
        nl * nr * ((nl + nr) * (ql + qr) - (sl + sr) * (sl + sr)) == (nl + nr) * (nr * (nl * ql
            - sl * sl)) + (nl + nr) * (nl * (nr * qr - sr * sr)) + (sr * nl - sl * nr) * (sr * nl
            - sl * nr),
{
    assert(nl * nr * ((nl + nr) * (ql + qr)) == (nl + nr) * (nr * (nl * ql)) + (nl + nr) * (nl * (
    nr * qr))) by (nonlinear_arith);
    lemma_chan_identity_squares(nl, nr, sl, sr);
    assert(nl * nr * ((nl + nr) * (ql + qr) - (sl + sr) * (sl + sr)) == nl * nr * ((nl + nr) * (ql
        + qr)) - nl * nr * ((sl + sr) * (sl + sr))) by (nonlinear_arith);
    assert((nl + nr) * (nr * (nl * ql - sl * sl)) == (nl + nr) * (nr * (nl * ql)) - (nl + nr) * (
    nr * (sl * sl))) by (nonlinear_arith);
    assert((nl + nr) * (nl * (nr * qr - sr * sr)) == (nl + nr) * (nl * (nr * qr)) - (nl + nr) * (
    nl * (sr * sr))) by (nonlinear_arith);
}

/// The square terms of the parallel combination rule, expanded into
/// monomials.
proof fn lemma_chan_identity_squares(nl: int, nr: int, sl: int, sr: int)
    ensures
        nl * nr * ((sl + sr) * (sl + sr)) == (nl + nr) * (nr * (sl * sl)) + (nl + nr) * (nl * (sr
            * sr)) - (sr * nl - sl * nr) * (sr * nl - sl * nr),
{
    lemma_square_expand(sl, sr);
    lemma_square_expand(sr * nl, sl * nr);
    assert(nl * nr * (sl * sl + 2 * (sl * sr) + sr * sr) == nl * (nr * (sl * sl)) + 2 * (nl * nr
        * (sl * sr)) + nr * (nl * (sr * sr))) by (nonlinear_arith);
    assert((sr * nl) * (sr * nl) == nl * (nl * (sr * sr))) by (nonlinear_arith);
    assert((sl * nr) * (sl * nr) == nr * (nr * (sl * sl))) by (nonlinear_arith);
    assert((sr * nl) * (sl * nr) == nl * nr * (sl * sr)) by (nonlinear_arith);
    assert((nl + nr) * (nr * (sl * sl)) == nl * (nr * (sl * sl)) + nr * (nr * (sl * sl)))
        by (nonlinear_arith);
    assert((nl + nr) * (nl * (sr * sr)) == nl * (nl * (sr * sr)) + nr * (nl * (sr * sr)))
        by (nonlinear_arith);
}

/// Order independence of merging: grouping is free (concatenation is
/// associative) and swapping the two operands leaves the count, the sum,
/// the sum of squares and the scaled second moment unchanged, so merging
/// any partition of a sample set in any order yields the same mean and
/// variance.
pub proof fn lemma_merge_order_independent(a: Seq<int>, b: Seq<int>, c: Seq<int>)
    ensures
        (a + b) + c == a + (b + c),
        (a + b).len() == (b + a).len(),
        sum_of(a + b) == sum_of(b + a),
        sum_squares_of(a + b) == sum_squares_of(b + a),
        scaled_m2_of(a + b) == scaled_m2_of(b + a),
{
    assert((a + b) + c =~= a + (b + c));
    lemma_sum_concat(a, b);
    lemma_sum_concat(b, a);
    lemma_sum_squares_concat(a, b);
    lemma_sum_squares_concat(b, a);
}

/// Merging with an empty estimator is the identity, on either side: the
/// merged stream is the other operand's stream unchanged.
pub proof fn lemma_empty_merge_identity(s: Seq<int>, e: Seq<int>)
    requires
        e.len() == 0,
    ensures
        s + e == s,
        e + s == s,
{
    assert(s + e =~= s);
    assert(e + s =~= s);
}

} // verus!
