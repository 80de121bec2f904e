//! Random draws, taken from the `rand` crate.

use vstd::prelude::*;

use rand::distributions::{IndependentSample, Weighted, WeightedChoice};
use rand::Rng;

verus! {

/// The sum of `weights`.
pub open spec fn total_weight(weights: Seq<u32>) -> int
    decreases weights.len(),
{
    if weights.len() == 0 {
        0
    } else {
        total_weight(weights.drop_last()) + weights.last()
    }
}

/// Relies on rand's `Rng::gen_range` on the thread-local generator: a value in
/// `[low, high)`; it panics unless `low < high`.
#[verifier::external_body]
pub(crate) fn random_range(low: i32, high: i32) -> (r: i32)
    requires
        low < high,
    ensures
        low <= r < high,
{
    rand::thread_rng().gen_range(low, high)
}

/// Relies on `rand::random` for a `bool`: a fair coin.
#[verifier::external_body]
pub(crate) fn coin_flip() -> bool {
    rand::random::<bool>()
}

/// Relies on rand's `WeightedChoice`: an index into `weights`, drawn with
/// probability proportional to its weight. `WeightedChoice::new` panics on an
/// empty list and on a total weight of zero or above `u32::MAX`.
#[verifier::external_body]
pub(crate) fn weighted_index(weights: &Vec<u32>) -> (r: usize)
    requires
        weights@.len() > 0,
        0 < total_weight(weights@) <= u32::MAX,
    ensures
        r < weights@.len(),
{
    let mut items: Vec<Weighted<usize>> = weights.iter().enumerate().map(
        |(i, w)| Weighted { weight: *w, item: i },
    ).collect();
    WeightedChoice::new(&mut items).ind_sample(&mut rand::thread_rng())
}

} // verus!
