//! The random source and the draws the library takes from it.
//!
//! All randomness comes from one seeded generator that the caller owns and
//! passes in, so that a run can be repeated from its seed.

use rand::distributions::WeightedError;
use rand::seq::SliceRandom;
use rand::Rng;
use rand_chacha::ChaCha8Rng;
use vstd::prelude::*;

use crate::genetic::Individual;
use crate::selection::{fitness_of, some_positive};

verus! {

/// `rand_chacha::ChaCha8Rng`, the seeded generator that every draw is taken from.
/// Nothing is known of its state.
#[verifier::external_type_specification]
#[verifier::external_body]
pub struct ExChaCha8Rng(ChaCha8Rng);

/// `rand::distributions::WeightedError`, the reason for which a weighted choice
/// was refused.
#[verifier::external_type_specification]
#[verifier::external_body]
pub struct ExWeightedError(WeightedError);

/// What a weighted choice may return: a member with a fitness above zero if
/// there is one, and a refusal if there is none.
pub open spec fn weighted_outcome<I: Individual>(
    population: Seq<I>,
    outcome: Result<&I, WeightedError>,
) -> bool {
    match outcome {
        Ok(chosen) => exists|i: int|
            0 <= i < population.len() && #[trigger] population[i] == *chosen && fitness_of(population)[i] > 0,
        Err(_) => !some_positive(fitness_of(population)),
    }
}

/// What a uniform choice may return: a member if there is one.
pub open spec fn uniform_outcome<I>(population: Seq<I>, outcome: Option<&I>) -> bool {
    match outcome {
        Some(chosen) => exists|i: int| 0 <= i < population.len() && #[trigger] population[i] == *chosen,
        None => population.len() == 0,
    }
}

/// `draw` can be called whatever the state of the random source.
pub open spec fn draws_always<V, D: Fn(&mut ChaCha8Rng) -> V>(draw: D) -> bool {
    forall|rng: &mut ChaCha8Rng| #[trigger] draw.requires((rng,))
}

/// `value` is something that `draw` may give.
pub open spec fn may_draw<V, D: Fn(&mut ChaCha8Rng) -> V>(draw: D, value: V) -> bool {
    exists|rng: &mut ChaCha8Rng| #[trigger] draw.ensures((rng,), value)
}

/// `Rng::gen_ratio(1, 2)`: a fair coin. The outcome is random, so nothing is
/// claimed of it.
#[verifier::external_body]
pub(crate) fn flip(rng: &mut ChaCha8Rng) -> (heads: bool) {
    rng.gen_ratio(1, 2)
}

/// `SliceRandom::choose_weighted` with each member's fitness as its weight,
/// widened to 128 bits so that the sum of the weights cannot overflow.
/// It refuses an empty population and one whose weights are all zero, and
/// otherwise returns a member whose weight is above zero: the chosen index is
/// the first whose running total exceeds a value drawn below the sum.
#[verifier::external_body]
pub(crate) fn choose_weighted<'a, I: Individual>(
    rng: &mut ChaCha8Rng,
    population: &'a [I],
) -> (outcome: Result<&'a I, WeightedError>)
    ensures
        weighted_outcome(population@, outcome),
{
    population.choose_weighted(rng, |individual| u128::from(individual.fitness()))
}

/// `SliceRandom::choose`: a member of the slice, each with the same chance, or
/// `None` if and only if the slice is empty.
#[verifier::external_body]
pub(crate) fn choose_uniform<'a, I>(rng: &mut ChaCha8Rng, population: &'a [I]) -> (outcome: Option<&'a I>)
    ensures
        uniform_outcome(population@, outcome),
{
    population.choose(rng)
}

} // verus!
