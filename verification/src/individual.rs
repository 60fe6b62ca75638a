//! Animals as the genetic algorithm sees them: a fitness and a chromosome.

use rand_chacha::ChaCha8Rng;
use vstd::prelude::*;

use crate::animal::Animal;
use crate::chromosome::Chromosome;
use crate::error::Error;
use crate::genetic::Individual;
use crate::network::network_genes;
use crate::point::Point2;
use crate::random::draws_always;

verus! {

/// What is kept of an animal from one generation to the next: how much it
/// has eaten, and the genes of its brain.
#[derive(Clone, Debug)]
pub struct AnimalIndividual {
    fitness: u64,
    chromosome: Chromosome,
}

impl AnimalIndividual {
    /// An individual with the given fitness and chromosome.
    pub fn new(fitness: u64, chromosome: Chromosome) -> (individual: AnimalIndividual)
        ensures
            individual.spec_fitness() == fitness,
            individual.spec_chromosome() == chromosome@,
    {
        AnimalIndividual { fitness, chromosome }
    }

    /// The individual that stands for `animal`: its fitness is what the animal
    /// has eaten, its chromosome the genes of the animal's brain.
    pub fn from_animal(animal: &Animal) -> (individual: AnimalIndividual)
        ensures
            individual.spec_fitness() == animal@.satiation,
            individual.spec_chromosome() == network_genes(animal@.brain),
    {
        AnimalIndividual { fitness: animal.satiation() as u64, chromosome: animal.as_chromosome() }
    }

    /// The newborn animal that has the genes of the individual.
    pub fn into_animal<P: Fn(&mut ChaCha8Rng) -> Point2, T: Fn(&mut ChaCha8Rng) -> u32>(
        self,
        rng: &mut ChaCha8Rng,
        place: &P,
        turn: &T,
    ) -> (result: Result<Animal, Error>)
        requires
            draws_always(*place),
            draws_always(*turn),
        ensures
            Animal::hatched(self.spec_chromosome(), *place, *turn, result),
    {
        Animal::from_chromosome(self.chromosome, rng, place, turn)
    }
}

impl Individual for AnimalIndividual {
    closed spec fn spec_fitness(&self) -> u64 {
        self.fitness
    }

    closed spec fn spec_chromosome(&self) -> Seq<u32> {
        self.chromosome@
    }

    /// An individual with the given chromosome and no fitness yet.
    fn create(chromosome: Chromosome) -> (individual: Self)
        ensures
            individual.spec_fitness() == 0,
    {
        AnimalIndividual { fitness: 0, chromosome }
    }

    fn fitness(&self) -> (fitness: u64) {
        self.fitness
    }

    fn chromosome(&self) -> (chromosome: &Chromosome) {
        &self.chromosome
    }
}

} // verus!
