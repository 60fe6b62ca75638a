//! The simulation: a world that goes on step by step, and from one generation
//! of animals to the next.

use rand_chacha::ChaCha8Rng;
use vstd::prelude::*;

use crate::animal::{newborn, Animal, AnimalView, Motion};
use crate::brain::brain_sizes;
use crate::crossover::CrossoverMethod;
use crate::eye::{adds_all, Eye, Sighting, CELLS};
use crate::eye::sights_all;
use crate::food::Food;
use crate::genetic::{uniform_length, GeneticAlgorithm, Individual};
use crate::individual::AnimalIndividual;
use crate::mutation::MutationMethod;
use crate::network::{fires_on_all, lemma_network_genes_len, network_genes, parameter_count, Neuron};
use crate::point::Point2;
use crate::random::{draws_always, may_draw};
use crate::selection::{fitness_of, SelectionMethod};
use crate::statistics::{Statistics, Summary};
use crate::world::{
    animal_moved, animal_views, animals_drawn, animals_wf, foods_drawn, has_room, lemma_meals_bound,
    steers_all, touches_all, world_fed, world_moved, world_wf, World, WorldView, ANIMALS, FOODS,
};

verus! {

/// What a simulation is: its world, and the number of generations that it has
/// left behind.
pub struct SimulationView {
    pub world: WorldView,
    pub generation: usize,
}

/// One step of a world: first every animal moves, then the animals are fed.
pub open spec fn world_stepped<
    S: Fn(Eye, Point2, u32, Food) -> Option<Sighting>,
    A: Fn(u32, u32) -> u32,
    F: Fn(&Neuron, &Vec<u32>) -> u32,
    T: Fn(Point2, u32, u32, &Vec<u32>) -> Motion,
    N: Fn(Point2, Point2) -> bool,
    R: Fn(&mut ChaCha8Rng) -> Point2,
>(
    sight: S,
    accumulate: A,
    fire: F,
    steer: T,
    touches: N,
    relocate: R,
    before: WorldView,
    after: WorldView,
) -> bool {
    exists|moved: WorldView, eaters: Seq<Option<usize>>|
        world_moved(sight, accumulate, fire, steer, before, moved) && #[trigger] world_fed(
            touches,
            relocate,
            moved,
            eaters,
            after,
        )
}

/// A step keeps the animals and the food in number, and of each animal its
/// speed, its eye and its brain; no animal has eaten less after it.
pub proof fn lemma_step_keeps_the_animals<
    S: Fn(Eye, Point2, u32, Food) -> Option<Sighting>,
    A: Fn(u32, u32) -> u32,
    F: Fn(&Neuron, &Vec<u32>) -> u32,
    T: Fn(Point2, u32, u32, &Vec<u32>) -> Motion,
    N: Fn(Point2, Point2) -> bool,
    R: Fn(&mut ChaCha8Rng) -> Point2,
>(
    sight: S,
    accumulate: A,
    fire: F,
    steer: T,
    touches: N,
    relocate: R,
    before: WorldView,
    after: WorldView,
)
    requires
        has_room(before),
        world_stepped(sight, accumulate, fire, steer, touches, relocate, before, after),
    ensures
        after.animals.len() == before.animals.len(),
        after.foods.len() == before.foods.len(),
        forall|i: int|
            0 <= i < before.animals.len() ==> {
                &&& (#[trigger] after.animals[i]).speed == before.animals[i].speed
                &&& after.animals[i].eye == before.animals[i].eye
                &&& after.animals[i].brain == before.animals[i].brain
                &&& after.animals[i].satiation >= before.animals[i].satiation
            },
{
    let (moved, eaters) = choose|moved: WorldView, eaters: Seq<Option<usize>>|
        world_moved(sight, accumulate, fire, steer, before, moved) && #[trigger] world_fed(
            touches,
            relocate,
            moved,
            eaters,
            after,
        );
    assert forall|i: int| 0 <= i < before.animals.len() implies {
        &&& (#[trigger] after.animals[i]).speed == before.animals[i].speed
        &&& after.animals[i].eye == before.animals[i].eye
        &&& after.animals[i].brain == before.animals[i].brain
        &&& after.animals[i].satiation >= before.animals[i].satiation
    } by {
        lemma_meals_bound(eaters, i);
        assert(animal_moved(sight, accumulate, fire, steer, before.foods, before.animals[i], moved.animals[i]));
        assert(before.animals[i].satiation + before.foods.len() <= usize::MAX);
    }
}

/// The fitness of each animal: what it has eaten.
pub open spec fn fitness_values(animals: Seq<AnimalView>) -> Seq<u64> {
    Seq::new(animals.len(), |i: int| animals[i].satiation as u64)
}

/// Each individual stands for the animal at its index: it has the animal's
/// fitness and the genes of the animal's brain.
pub open spec fn stand_for(population: Seq<AnimalIndividual>, animals: Seq<AnimalView>) -> bool {
    &&& population.len() == animals.len()
    &&& forall|i: int|
        0 <= i < animals.len() ==> {
            &&& (#[trigger] population[i]).spec_fitness() == animals[i].satiation
            &&& population[i].spec_chromosome() == network_genes(animals[i].brain)
        }
}

/// Each animal is the newborn animal of the individual at its index: it has
/// the individual's genes, a place that `place` drew and a heading that
/// `turn` drew.
pub open spec fn hatched_from<P: Fn(&mut ChaCha8Rng) -> Point2, T: Fn(&mut ChaCha8Rng) -> u32>(
    offspring: Seq<AnimalIndividual>,
    place: P,
    turn: T,
    animals: Seq<AnimalView>,
) -> bool {
    &&& animals.len() == offspring.len()
    &&& forall|k: int|
        0 <= k < animals.len() ==> {
            &&& newborn(#[trigger] animals[k])
            &&& network_genes(animals[k].brain) == offspring[k].spec_chromosome()
            &&& may_draw(place, animals[k].position)
            &&& may_draw(turn, animals[k].rotation)
        }
}

/// The passage from one generation to the next: the fitness of the animals
/// is summed up, as many individuals are bred from them as there are
/// animals, and a newborn animal takes the place of each animal. The food
/// stays, and the count of generations goes up by one.
pub open spec fn generation_evolved<
    S: SelectionMethod,
    C: CrossoverMethod,
    M: MutationMethod,
    P: Fn(&mut ChaCha8Rng) -> Point2,
    T: Fn(&mut ChaCha8Rng) -> u32,
>(
    ga: GeneticAlgorithm<S, C, M>,
    place: P,
    turn: T,
    before: SimulationView,
    statistics: Statistics,
    after: SimulationView,
) -> bool {
    &&& after.generation == before.generation + 1
    &&& after.world.foods == before.world.foods
    &&& after.world.animals.len() == before.world.animals.len()
    &&& statistics.generation == before.generation
    &&& statistics.ga.summarizes(fitness_values(before.world.animals))
    &&& exists|population: Seq<AnimalIndividual>, offspring: Seq<AnimalIndividual>|
        {
            &&& stand_for(population, before.world.animals)
            &&& #[trigger] ga.breeds_all(population, offspring)
            &&& hatched_from(offspring, place, turn, after.world.animals)
        }
}

/// A world and the count of its generations.
#[derive(Debug)]
pub struct Simulation {
    world: World,
    generation: usize,
}

impl View for Simulation {
    type V = SimulationView;

    closed spec fn view(&self) -> SimulationView {
        SimulationView { world: self.world@, generation: self.generation }
    }
}

impl Simulation {
    /// The simulation has a well-formed world.
    pub open spec fn wf(&self) -> bool {
        world_wf(self@.world)
    }

    /// The simulation that starts with `world`, in its first generation.
    pub fn new(world: World) -> (simulation: Simulation)
        requires
            world.wf(),
        ensures
            simulation@ == (SimulationView { world: world@, generation: 0 }),
            simulation.wf(),
    {
        Simulation { world, generation: 0 }
    }

    /// A simulation that starts with a world of newborn animals and of food,
    /// all drawn.
    pub fn random<D: Fn(&mut ChaCha8Rng) -> u32, P: Fn(&mut ChaCha8Rng) -> Point2, T: Fn(&mut ChaCha8Rng) -> u32>(
        rng: &mut ChaCha8Rng,
        draw: &D,
        place: &P,
        turn: &T,
    ) -> (simulation: Simulation)
        requires
            draws_always(*draw),
            draws_always(*place),
            draws_always(*turn),
        ensures
            simulation.wf(),
            simulation@.generation == 0,
            simulation@.world.animals.len() == ANIMALS,
            simulation@.world.foods.len() == FOODS,
            animals_drawn(*draw, *place, *turn, simulation@.world.animals),
            foods_drawn(*place, simulation@.world.foods),
    {
        Simulation { world: World::random(rng, draw, place, turn), generation: 0 }
    }

    /// The world as it is.
    pub fn world(&self) -> (world: &World)
        ensures
            world@ == self@.world,
    {
        &self.world
    }

    /// The number of generations left behind.
    pub fn generation(&self) -> (generation: usize)
        ensures
            generation == self@.generation,
    {
        self.generation
    }

    /// One step: every animal sees, thinks and moves, and then the animals
    /// are fed. `sight` and `accumulate` serve the eyes, `fire` the brains,
    /// `steer` moves an animal as its brain answered, `touches` tells whether
    /// an animal reaches an item of food, and `relocate` draws the place
    /// where an eaten item appears again.
    pub fn step<
        S: Fn(Eye, Point2, u32, Food) -> Option<Sighting>,
        A: Fn(u32, u32) -> u32,
        F: Fn(&Neuron, &Vec<u32>) -> u32,
        T: Fn(Point2, u32, u32, &Vec<u32>) -> Motion,
        N: Fn(Point2, Point2) -> bool,
        R: Fn(&mut ChaCha8Rng) -> Point2,
    >(
        &mut self,
        rng: &mut ChaCha8Rng,
        sight: &S,
        accumulate: &A,
        fire: &F,
        steer: &T,
        touches: &N,
        relocate: &R,
    )
        requires
            old(self).wf(),
            has_room(old(self)@.world),
            sights_all(*sight),
            adds_all(*accumulate),
            fires_on_all(*fire),
            steers_all(*steer),
            touches_all(*touches),
            draws_always(*relocate),
        ensures
            final(self).wf(),
            final(self)@.generation == old(self)@.generation,
            final(self)@.world.animals.len() == old(self)@.world.animals.len(),
            final(self)@.world.foods.len() == old(self)@.world.foods.len(),
            world_stepped(
                *sight,
                *accumulate,
                *fire,
                *steer,
                *touches,
                *relocate,
                old(self)@.world,
                final(self)@.world,
            ),
    {
        let ghost before = self.world@;
        self.world.process_movements(sight, accumulate, fire, steer);
        let ghost moved = self.world@;
        proof {
            assert forall|i: int| 0 <= i < moved.animals.len() implies (#[trigger] moved.animals[i]).satiation
                + moved.foods.len() <= usize::MAX by {
                assert(moved.animals[i].satiation == before.animals[i].satiation);
            }
        }
        let eaters = self.world.process_collisions(rng, touches, relocate);
        assert(world_fed(*touches, *relocate, moved, eaters@, self.world@));
    }

    /// Ends a generation: sums up the fitness of the animals, breeds as many
    /// individuals from them with `ga` as there are animals, and puts a
    /// newborn animal for each in the place of the animals, each at a place
    /// that `place` draws and with a heading that `turn` draws.
    pub fn evolve<S: SelectionMethod, C: CrossoverMethod, M: MutationMethod, P: Fn(&mut ChaCha8Rng) -> Point2, T: Fn(&mut ChaCha8Rng) -> u32>(
        &mut self,
        ga: &GeneticAlgorithm<S, C, M>,
        rng: &mut ChaCha8Rng,
        place: &P,
        turn: &T,
    ) -> (statistics: Statistics)
        requires
            old(self).wf(),
            old(self)@.generation < usize::MAX,
            draws_always(*place),
            draws_always(*turn),
        ensures
            final(self).wf(),
            generation_evolved(*ga, *place, *turn, old(self)@, statistics, final(self)@),
    {
        let ghost before = self@;
        let ghost genes = parameter_count(brain_sizes(CELLS as nat));
        let mut population: Vec<AnimalIndividual> = Vec::new();
        let animals = self.world.animals();
        let mut i: usize = 0;
        while i < animals.len()
            invariant
                i <= animals@.len(),
                genes == parameter_count(brain_sizes(CELLS as nat)),
                animal_views(animals@) == before.world.animals,
                animals_wf(before.world.animals),
                population@.len() == i,
                stand_for(population@, before.world.animals.take(i as int)),
                uniform_length(population@, genes),
            decreases animals@.len() - i,
        {
            let animal = &animals[i];
            assert(animal@ == before.world.animals[i as int]);
            proof {
                lemma_network_genes_len(animal@.brain);
            }
            let individual = AnimalIndividual::from_animal(animal);
            let ghost earlier = population@;
            population.push(individual);
            proof {
                assert(animals_wf(before.world.animals));
                assert(individual.spec_chromosome().len() == genes);
                assert forall|n: int| 0 <= n < population@.len() implies (#[trigger] population@[n]).spec_chromosome().len()
                    == genes by {
                    if n < i {
                        assert(population@[n] == earlier[n]);
                    }
                }
                assert forall|n: int| 0 <= n < i + 1 implies {
                    &&& (#[trigger] population@[n]).spec_fitness() == before.world.animals.take(i + 1)[n].satiation
                    &&& population@[n].spec_chromosome() == network_genes(
                        before.world.animals.take(i + 1)[n].brain,
                    )
                } by {
                    if n < i {
                        assert(population@[n] == earlier[n]);
                        assert(before.world.animals.take(i + 1)[n] == before.world.animals.take(i as int)[n]);
                    }
                }
            }
            i += 1;
        }
        proof {
            assert(before.world.animals.take(i as int) =~= before.world.animals);
            assert(fitness_of(population@) =~= fitness_values(before.world.animals));
        }
        let ga_statistics = Summary::new(population.as_slice());
        let mut offspring = ga.evolve(rng, population.as_slice());
        let ghost bred = offspring@;
        let count = offspring.len();
        let mut newborns: Vec<Animal> = Vec::new();
        let mut k: usize = 0;
        while k < count
            invariant
                k <= count,
                genes == parameter_count(brain_sizes(CELLS as nat)),
                count == bred.len(),
                offspring@ == bred.skip(k as int),
                uniform_length(bred, genes),
                draws_always(*place),
                draws_always(*turn),
                newborns@.len() == k,
                hatched_from(bred.take(k as int), *place, *turn, animal_views(newborns@)),
            decreases count - k,
        {
            assert(offspring@[0] == bred[k as int]);
            assert(bred[k as int].spec_chromosome().len() == genes);
            let individual = offspring.remove(0);
            let ghost earlier = animal_views(newborns@);
            match individual.into_animal(rng, place, turn) {
                Ok(animal) => {
                    newborns.push(animal);
                    proof {
                        let views = animal_views(newborns@);
                        assert forall|n: int| 0 <= n < views.len() implies {
                            &&& newborn(#[trigger] views[n])
                            &&& network_genes(views[n].brain) == bred.take(k + 1)[n].spec_chromosome()
                            &&& may_draw(*place, views[n].position)
                            &&& may_draw(*turn, views[n].rotation)
                        } by {
                            if n < k {
                                assert(views[n] == earlier[n]);
                                assert(bred.take(k + 1)[n] == bred.take(k as int)[n]);
                            } else {
                                assert(views[n] == animal@);
                            }
                        }
                    }
                },
                Err(_) => {
                    proof {
                        assert(false);
                    }
                    vstd::pervasive::unreached()
                },
            }
            assert(offspring@ =~= bred.skip(k + 1));
            k += 1;
        }
        proof {
            assert(bred.take(k as int) =~= bred);
        }
        let generation = self.generation;
        self.world.repopulate(newborns);
        self.generation = generation + 1;
        Statistics { generation, ga: ga_statistics }
    }
}

} // verus!
