//! Random draws, taken from the thread-local generator of `rand`.
use vstd::prelude::*;

use rand::distributions::{Distribution, WeightedIndex};
use rand::seq::IteratorRandom;
use rand::Rng;

verus! {

/// Relies on `rand::Rng::gen_ratio`: true with probability
/// `numerator / denominator`; never true when the numerator is zero and
/// always true when it equals the denominator. It panics on a zero
/// denominator or a numerator above it.
#[verifier::external_body]
pub(crate) fn chance(numerator: u32, denominator: u32) -> (r: bool)
    requires
        0 < denominator,
        numerator <= denominator,
    ensures
        numerator == 0 ==> !r,
        numerator == denominator ==> r,
{
    rand::thread_rng().gen_ratio(numerator, denominator)
}

/// Relies on `rand::seq::IteratorRandom::choose`: one of the items, which is
/// `None` only for an empty sequence.
#[verifier::external_body]
pub(crate) fn choose_one<T: Copy>(options: &[T]) -> (r: T)
    requires
        options@.len() > 0,
    ensures
        options@.contains(r),
{
    *options.iter().choose(&mut rand::thread_rng()).unwrap()
}

/// The sum of a sequence of weights.
pub open spec fn total(weights: Seq<u64>) -> int
    decreases weights.len(),
{
    if weights.len() == 0 {
        0
    } else {
        total(weights.drop_last()) + weights.last()
    }
}

/// Relies on `rand::distributions::WeightedIndex`: an index drawn with
/// probability proportional to its weight, so never one of weight zero. Its
/// constructor fails on no weights or a zero total, and its running total
/// must not overflow.
#[verifier::external_body]
pub(crate) fn weighted_pick(weights: &Vec<u64>) -> (r: usize)
    requires
        weights@.len() > 0,
        0 < total(weights@) <= u64::MAX,
    ensures
        r < weights@.len(),
        weights@[r as int] > 0,
{
    WeightedIndex::new(weights).unwrap().sample(&mut rand::thread_rng())
}

} // verus!
