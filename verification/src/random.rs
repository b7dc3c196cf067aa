//! The random draws of a simulation, taken from the `rand` crate.
//!
//! Nothing here is proved: each function states what its draw is known to
//! satisfy whatever the generator yields, and the rest of the library is
//! verified against these statements alone.

use rand::distributions::{Distribution, Uniform};
use rand::rngs::ThreadRng;
use rand::seq::IteratorRandom;
use vstd::prelude::*;

verus! {

/// `rand::rngs::ThreadRng`, the generator that every draw advances. Its state
/// is opaque to the proofs.
#[verifier::external_type_specification]
#[verifier::external_body]
pub struct ExThreadRng(rand::rngs::ThreadRng);

/// Builds a `rand::distributions::Uniform` from the range `0..bound` and
/// calls `rand::distributions::Distribution::sample` on it. The contract
/// claims only that the sample lies in the range, which is what `Uniform`
/// documents of a distribution over a half-open range. `Uniform::from`
/// panics on an empty range, which the precondition leaves out.
#[verifier::external_body]
pub(crate) fn sample_below(rng: &mut ThreadRng, bound: usize) -> (sample: usize)
    requires
        bound > 0,
    ensures
        sample < bound,
{
    Uniform::from(0..bound).sample(rng)
}

/// Calls `rand::seq::IteratorRandom::choose` on the iterator of `items`. The
/// contract claims what `choose` documents: the result is `None` if and only
/// if there is nothing to choose from, and otherwise it is one of the items.
#[verifier::external_body]
pub(crate) fn choose_one(rng: &mut ThreadRng, items: &Vec<usize>) -> (choice: Option<usize>)
    ensures
        choice is None <==> items@.len() == 0,
        choice matches Some(item) ==> items@.contains(item),
{
    items.iter().choose(rng).copied()
}

} // verus!
