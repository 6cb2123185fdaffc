//! Trusted boundary to the `rand` crate: range draws for spawning, and the
//! weighted index distribution the enemy steering samples from.

use vstd::prelude::*;

use rand::distributions::Distribution;
use rand::Rng;

verus! {

/// An opaque holder for rand's `WeightedIndex<i32>` distribution, which Verus
/// cannot declare directly; everything known of it is said over
/// `index_weights` by the trusted wrappers below.
#[verifier::external_body]
pub struct WeightedDist {
    dist: rand::distributions::WeightedIndex<i32>,
}

/// The weights a `WeightedDist` distribution was built from, as recorded by
/// `weighted_index_new`.
pub uninterp spec fn index_weights(d: WeightedDist) -> Seq<int>;

/// The total of a sequence of weights.
pub open spec fn weight_total(s: Seq<int>) -> int
    decreases s.len(),
{
    if s.len() == 0 {
        0
    } else {
        weight_total(s.drop_last()) + s.last()
    }
}

/// Relies on rand::thread_rng and rand::Rng::gen_range: a draw from a
/// nonempty half-open range lies in that range.
#[verifier::external_body]
pub(crate) fn rand_range(low: i32, high: i32) -> (r: i32)
    requires
        low < high,
    ensures
        low <= r < high,
{
    rand::thread_rng().gen_range(low..high)
}

/// Relies on rand::distributions::WeightedIndex::new: with at least one
/// weight, none negative, and a positive total that fits the weight type,
/// construction succeeds, recording exactly the given weights.
#[verifier::external_body]
pub(crate) fn weighted_index_new(weights: &Vec<i32>) -> (d: WeightedDist)
    requires
        weights@.len() > 0,
        forall|i: int| 0 <= i < weights@.len() ==> weights@[i] >= 0,
        weight_total(weights@.map_values(|w: i32| w as int)) > 0,
        weight_total(weights@.map_values(|w: i32| w as int)) <= i32::MAX,
    ensures
        index_weights(d) == weights@.map_values(|w: i32| w as int),
{
    WeightedDist { dist: rand::distributions::WeightedIndex::new(weights.clone()).unwrap() }
}

/// Relies on WeightedIndex's Distribution::sample (drawing from
/// rand::thread_rng): the sampled value indexes the recorded weights, and an
/// index whose weight is zero is never returned.
#[verifier::external_body]
pub(crate) fn weighted_index_sample(d: &WeightedDist) -> (r: usize)
    ensures
        r < index_weights(*d).len(),
        index_weights(*d)[r as int] > 0,
{
    d.dist.sample(&mut rand::thread_rng())
}

} // verus!
