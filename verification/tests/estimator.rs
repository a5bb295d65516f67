use rayon::iter::{IntoParallelIterator, ParallelIterator};
use variance_estimator::estimator::{Ratio, VarianceEstimator};

/// Numeric value of an exact rational result.
fn ratio_value(r: Ratio) -> f64 {
    r.num as f64 / r.den as f64
}

fn assert_approx_eq(actual: f64, expected: f64, tolerance: f64) {
    assert!(
        (actual - expected).abs() <= tolerance,
        "{} is not within {} of {}",
        actual,
        tolerance,
        expected
    );
}

#[test]
fn test_all_same() {
    const CONSTANT: i64 = 42;
    let mut ve = VarianceEstimator::new();
    (0i64..100).for_each(|_| ve.add_sample(CONSTANT));
    assert_eq!(ratio_value(ve.mean()), 42.0);
    assert_eq!(ratio_value(ve.variance()), 0.0);
    assert_eq!(ratio_value(ve.relative_variance()), 0.0);
}

#[test]
fn test_range() {
    let mut ve = VarianceEstimator::new();
    // An integer sequence from 0 to 100 has a variance around 841.67
    (0i64..100).for_each(|i| ve.add_sample(i));

    assert_eq!(ratio_value(ve.mean()), 49.5);
    assert_approx_eq(ratio_value(ve.variance()), 841.67, 0.01);
    assert_approx_eq(
        ratio_value(ve.relative_variance()),
        841.67 / ratio_value(ve.mean()),
        0.01,
    );
}

#[test]
fn test_merge() {
    let mut ve1 = VarianceEstimator::new();
    let mut ve2 = VarianceEstimator::new();

    // An integer sequence from 0 to 200 has a variance around 3350
    (0i64..100).for_each(|i| ve1.add_sample(i));
    (100i64..200).for_each(|i| ve2.add_sample(i));

    let ve = VarianceEstimator::merge(ve1, ve2);

    assert_eq!(ratio_value(ve.mean()), 99.5);
    assert_approx_eq(ratio_value(ve.variance()), 3350.0, 0.01);
    assert_approx_eq(
        ratio_value(ve.relative_variance()),
        3350.0 / ratio_value(ve.mean()),
        0.01,
    );
}

#[test]
fn test_concurrent_accumulate() {
    // An integer sequence from 0 to 10000 has a variance around 8334166.67
    let ve = (0i64..10000)
        .into_par_iter()
        .fold(VarianceEstimator::new, |mut ve, i: i64| {
            ve.add_sample(i);
            ve
        })
        .reduce(VarianceEstimator::new, VarianceEstimator::merge);

    assert_approx_eq(ratio_value(ve.variance()), 8334166.67, 0.01);
}

#[test]
fn test_identity() {
    let ve = VarianceEstimator::new();
    assert_eq!(ve.sample_count(), 0);
    assert_eq!(ve.mean(), Ratio { num: 0, den: 1 });
    assert_eq!(ve.variance(), Ratio { num: 0, den: 1 });
    assert_eq!(ve.relative_variance(), Ratio { num: 0, den: 1 });
}

#[test]
fn test_default_is_empty() {
    let ve = VarianceEstimator::default();
    assert_eq!(ve.sample_count(), 0);
    assert_eq!(ve.mean(), Ratio { num: 0, den: 1 });
}

#[test]
fn test_constant_stream_exact() {
    let mut ve = VarianceEstimator::new();
    (0i64..5).for_each(|_| ve.add_sample(-7));
    assert_eq!(ve.sample_count(), 5);
    assert_eq!(ve.mean(), Ratio { num: -35, den: 5 });
    assert_eq!(ve.variance(), Ratio { num: 0, den: 20 });
    assert_eq!(ratio_value(ve.variance()), 0.0);
}

#[test]
fn test_range_exact_values() {
    let mut ve = VarianceEstimator::new();
    (0i64..100).for_each(|i| ve.add_sample(i));
    // sum = 4950 over 100 samples; scaled M2 = 100 * 328350 - 4950^2
    assert_eq!(ve.mean(), Ratio { num: 4950, den: 100 });
    assert_eq!(ve.variance(), Ratio { num: 8332500, den: 9900 });
    assert_eq!(
        ve.relative_variance(),
        Ratio { num: 8332500, den: 99 * 4950 }
    );
}

#[test]
fn test_empty_merge_identity() {
    let mut filled = VarianceEstimator::new();
    (0i64..100).for_each(|i| filled.add_sample(i));
    let mean = filled.mean();
    let variance = filled.variance();

    let right = VarianceEstimator::merge(filled, VarianceEstimator::new());
    assert_eq!(right.sample_count(), 100);
    assert_eq!(right.mean(), mean);
    assert_eq!(right.variance(), variance);

    let left = VarianceEstimator::merge(VarianceEstimator::new(), right);
    assert_eq!(left.sample_count(), 100);
    assert_eq!(left.mean(), mean);
    assert_eq!(left.variance(), variance);
}

#[test]
fn test_merge_order_independence() {
    let mut a = VarianceEstimator::new();
    let mut b = VarianceEstimator::new();
    let mut c = VarianceEstimator::new();
    (0i64..100).for_each(|i| a.add_sample(i));
    (100i64..180).for_each(|i| b.add_sample(i));
    (180i64..300).for_each(|i| c.add_sample(i));

    let grouped_left = VarianceEstimator::merge(VarianceEstimator::merge(a, b), c);
    let grouped_right = VarianceEstimator::merge(a, VarianceEstimator::merge(b, c));
    let swapped = VarianceEstimator::merge(VarianceEstimator::merge(c, b), a);

    let mut sequential = VarianceEstimator::new();
    (0i64..300).for_each(|i| sequential.add_sample(i));

    for ve in [grouped_left, grouped_right, swapped] {
        assert_eq!(ve.sample_count(), sequential.sample_count());
        assert_eq!(ve.mean(), sequential.mean());
        assert_eq!(ve.variance(), sequential.variance());
        assert_eq!(ve.relative_variance(), sequential.relative_variance());
    }
}

#[test]
fn test_partitioned_reduction_matches_sequential() {
    // The same 10000 samples split into four uneven partitions.
    let bounds: [(i64, i64); 4] = [(0, 17), (17, 5000), (5000, 5001), (5001, 10000)];
    let mut parts: Vec<VarianceEstimator> = Vec::new();
    for (lo, hi) in bounds {
        let mut ve = VarianceEstimator::new();
        (lo..hi).for_each(|i| ve.add_sample(i));
        parts.push(ve);
    }
    let merged = parts
        .into_iter()
        .fold(VarianceEstimator::new(), VarianceEstimator::merge);

    let mut sequential = VarianceEstimator::new();
    (0i64..10000).for_each(|i| sequential.add_sample(i));

    assert_eq!(merged.sample_count(), 10000);
    assert_eq!(merged.mean(), sequential.mean());
    assert_eq!(merged.variance(), sequential.variance());
    assert_approx_eq(ratio_value(merged.variance()), 8334166.67, 0.01);
}

#[test]
fn test_relative_variance_zero_mean() {
    let mut ve = VarianceEstimator::new();
    ve.add_sample(-5);
    ve.add_sample(5);
    assert_eq!(ve.mean(), Ratio { num: 0, den: 2 });
    assert_eq!(ve.variance(), Ratio { num: 100, den: 2 });
    assert_eq!(ve.relative_variance(), Ratio { num: 0, den: 1 });
}

#[test]
fn test_relative_variance_negative_mean() {
    let mut ve = VarianceEstimator::new();
    ve.add_sample(-1);
    ve.add_sample(-2);
    ve.add_sample(-3);
    // mean -2, variance 1, relative variance -0.5
    assert_eq!(ratio_value(ve.mean()), -2.0);
    assert_eq!(ratio_value(ve.variance()), 1.0);
    assert_eq!(ratio_value(ve.relative_variance()), -0.5);
}

#[test]
fn test_single_sample() {
    let mut ve = VarianceEstimator::new();
    ve.add_sample(9);
    assert_eq!(ve.sample_count(), 1);
    assert_eq!(ve.mean(), Ratio { num: 9, den: 1 });
    assert_eq!(ve.variance(), Ratio { num: 0, den: 1 });
    assert_eq!(ve.relative_variance(), Ratio { num: 0, den: 1 });
}
