//! The genetic algorithm: one generation in, the next generation out.

use rand_chacha::ChaCha8Rng;
use vstd::prelude::*;

use crate::chromosome::Chromosome;
use crate::crossover::CrossoverMethod;
use crate::mutation::MutationMethod;
use crate::selection::{selects, SelectionMethod};

verus! {

/// A member of a generation: it has a fitness, carries a chromosome, and can be
/// made anew from a chromosome.
pub trait Individual: Sized {
    /// The fitness of the individual.
    spec fn spec_fitness(&self) -> u64;

    /// The genes of the individual.
    spec fn spec_chromosome(&self) -> Seq<u32>;

    /// A fresh individual that carries `chromosome`.
    fn create(chromosome: Chromosome) -> (individual: Self)
        ensures
            individual.spec_chromosome() == chromosome@,
    ;

    /// The fitness of the individual: the higher, the likelier it is to breed.
    fn fitness(&self) -> (fitness: u64)
        ensures
            fitness == self.spec_fitness(),
    ;

    /// The chromosome that the individual carries.
    fn chromosome(&self) -> (chromosome: &Chromosome)
        ensures
            chromosome@ == self.spec_chromosome(),
    ;
}

/// All members of `population` carry chromosomes of `genes` genes.
pub open spec fn uniform_length<I: Individual>(population: Seq<I>, genes: nat) -> bool {
    forall|i: int|
        0 <= i < population.len() ==> (#[trigger] population[i]).spec_chromosome().len() == genes
}

/// Selection, crossover and mutation, applied in this order to breed each
/// member of the next generation.
pub struct GeneticAlgorithm<S, C, M> {
    selection_method: S,
    crossover_method: C,
    mutation_method: M,
}

impl<S: SelectionMethod, C: CrossoverMethod, M: MutationMethod> GeneticAlgorithm<S, C, M> {
    /// The selection method in use.
    pub closed spec fn selection(&self) -> S {
        self.selection_method
    }

    /// The crossover method in use.
    pub closed spec fn crossover(&self) -> C {
        self.crossover_method
    }

    /// The mutation method in use.
    pub closed spec fn mutation(&self) -> M {
        self.mutation_method
    }

    /// `child` may be bred from `population`: two members that the selection
    /// method may pick are crossed over, the result is mutated, and the child
    /// carries what the mutation left.
    pub open spec fn breeds<I: Individual>(&self, population: Seq<I>, child: I) -> bool {
        exists|first: I, second: I, crossed: Seq<u32>|
            selects(self.selection(), population, first) && selects(
                self.selection(),
                population,
                second,
            ) && #[trigger] self.crossover().may_produce(
                first.spec_chromosome(),
                second.spec_chromosome(),
                crossed,
            ) && self.mutation().may_yield(crossed, child.spec_chromosome()) && crossed.len()
                == child.spec_chromosome().len() && crossed.len() == first.spec_chromosome().len()
    }

    /// Every member of `offspring` may be bred from `population`.
    pub open spec fn breeds_all<I: Individual>(&self, population: Seq<I>, offspring: Seq<I>) -> bool {
        forall|k: int| 0 <= k < offspring.len() ==> self.breeds(population, #[trigger] offspring[k])
    }

    /// A genetic algorithm that selects, crosses over and mutates with the
    /// given methods.
    pub fn new(selection_method: S, crossover_method: C, mutation_method: M) -> (ga: Self)
        ensures
            ga.selection() == selection_method,
            ga.crossover() == crossover_method,
            ga.mutation() == mutation_method,
    {
        Self { selection_method, crossover_method, mutation_method }
    }

    /// Breeds the next generation, of the size of `population`. For each of
    /// its members, in order: a first parent is selected, then a second, the
    /// two are crossed over, the result is mutated, and the individual is
    /// created from it.
    pub fn evolve<I: Individual>(&self, rng: &mut ChaCha8Rng, population: &[I]) -> (offspring: Vec<I>)
        requires
            population@.len() > 0,
            uniform_length(population@, population@[0].spec_chromosome().len()),
        ensures
            offspring@.len() == population@.len(),
            uniform_length(offspring@, population@[0].spec_chromosome().len()),
            self.breeds_all(population@, offspring@),
    {
        let ghost genes = population@[0].spec_chromosome().len();
        let mut offspring: Vec<I> = Vec::new();
        let mut slot: usize = 0;
        while slot < population.len()
            invariant
                slot <= population@.len(),
                offspring@.len() == slot,
                uniform_length(population@, genes),
                uniform_length(offspring@, genes),
                self.breeds_all(population@, offspring@),
                population@.len() > 0,
            decreases population@.len() - slot,
        {
            let first = self.selection_method.select(rng, population);
            let second = self.selection_method.select(rng, population);
            let parent_a = first.chromosome();
            let parent_b = second.chromosome();
            let mut child = self.crossover_method.crossover(rng, parent_a, parent_b);
            let ghost crossed = child@;
            self.mutation_method.mutate(rng, &mut child);
            let individual = I::create(child);
            proof {
                assert(self.crossover().may_produce(
                    first.spec_chromosome(),
                    second.spec_chromosome(),
                    crossed,
                ));
                assert(self.breeds(population@, individual));
            }
            offspring.push(individual);
            slot += 1;
        }
        offspring
    }
}

} // verus!
