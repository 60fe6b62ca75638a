//! Selection: which member of a generation becomes a parent.

use rand_chacha::ChaCha8Rng;
use vstd::prelude::*;

use crate::genetic::Individual;
use crate::random::{choose_uniform, choose_weighted};

verus! {

/// A way to pick one parent from a population. The same member may be picked
/// any number of times.
pub trait SelectionMethod {
    /// Whether the method may pick the member at index `chosen` from a
    /// population whose members have the fitness values `fitness`, in order.
    /// A method that states nothing admits every member.
    open spec fn may_select(&self, fitness: Seq<u64>, chosen: int) -> bool {
        true
    }

    /// Picks one member of `population`.
    fn select<'a, I: Individual>(&self, rng: &mut ChaCha8Rng, population: &'a [I]) -> (chosen: &'a I)
        requires
            population@.len() > 0,
        ensures
            exists|i: int|
                0 <= i < population@.len() && #[trigger] population@[i] == *chosen && self.may_select(
                    fitness_of(population@),
                    i,
                ),
    ;
}

/// The fitness values of the members of `population`, in order.
pub open spec fn fitness_of<I: Individual>(population: Seq<I>) -> Seq<u64> {
    Seq::new(population.len(), |i: int| population[i].spec_fitness())
}

/// `chosen` is a member of `population` that `method` may pick from it.
pub open spec fn selects<S: SelectionMethod, I: Individual>(
    method: S,
    population: Seq<I>,
    chosen: I,
) -> bool {
    exists|i: int|
        0 <= i < population.len() && #[trigger] population[i] == chosen && method.may_select(
            fitness_of(population),
            i,
        )
}

/// Some value of `fitness` is above zero.
pub open spec fn some_positive(fitness: Seq<u64>) -> bool {
    exists|i: int| 0 <= i < fitness.len() && #[trigger] fitness[i] > 0
}

/// Fitness-proportionate selection: a member is picked with a chance
/// proportional to its share of the total fitness. Where no member has any
/// fitness, every member has the same chance.
#[derive(Clone, Copy, Debug)]
pub struct RouletteWheelSelection;

impl SelectionMethod for RouletteWheelSelection {
    /// A member without fitness is picked only where no member has any.
    open spec fn may_select(&self, fitness: Seq<u64>, chosen: int) -> bool {
        some_positive(fitness) ==> fitness[chosen] > 0
    }

    fn select<'a, I: Individual>(&self, rng: &mut ChaCha8Rng, population: &'a [I]) -> (chosen: &'a I) {
        match choose_weighted(rng, population) {
            Ok(chosen) => chosen,
            Err(_) => match choose_uniform(rng, population) {
                Some(chosen) => chosen,
                None => &population[0],
            },
        }
    }
}

} // verus!
