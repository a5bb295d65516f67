//! An online mean/variance estimator over streams of fixed-point samples.
//!
//! The estimator accumulates exact integer sums, so its mean and its
//! unbiased sample variance are exact rationals; independently filled
//! estimators combine with an associative, order-independent `merge`.

pub mod estimator;
pub mod laws;
pub mod stats;
