//! Estimators for enumerated experimental designs: the carried data is the
//! set of possible outcomes and the sample count; the sampling itself runs
//! outside the library.
use vstd::prelude::*;

verus! {

/// A plain nested Monte Carlo estimator marker.
#[derive(Debug, PartialEq, Eq)]
pub struct NestedMonteCarloEstimator {}

/// An estimator that enumerates the outcomes of an experiment and averages
/// over a fixed number of samples per outcome.
#[derive(Debug, PartialEq, Eq)]
pub struct EnumeratedMonteCarloEstimator {
    pub outcomes: Vec<bool>,
    pub n_samples: usize,
}

impl EnumeratedMonteCarloEstimator {
    /// Creates an estimator over the given outcomes and sample count.
    pub fn new(outcomes: Vec<bool>, n_samples: usize) -> (r: Self)
        ensures
            r.outcomes == outcomes,
            r.n_samples == n_samples,
    {
        EnumeratedMonteCarloEstimator { outcomes, n_samples }
    }

    /// The constructor as exposed to callers that build the estimator from
    /// keyword arguments.
    pub fn py_new(outcomes: Vec<bool>, n_samples: usize) -> (r: Self)
        ensures
            r.outcomes == outcomes,
            r.n_samples == n_samples,
    {
        EnumeratedMonteCarloEstimator::new(outcomes, n_samples)
    }
}

} // verus!
