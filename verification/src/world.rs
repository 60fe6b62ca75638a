//! The world: the animals and the food in it, and what one step does to them.

use rand_chacha::ChaCha8Rng;
use vstd::prelude::*;

use crate::animal::{animal_wf, newborn, Animal, AnimalView, Motion};
use crate::error::Error;
use crate::eye::{adds_all, sees, sights_all, Eye, Sighting};
use crate::food::Food;
use crate::network::{fires_on_all, network_drawn, propagates, Neuron};
use crate::point::Point2;
use crate::random::{draws_always, may_draw};

verus! {

/// How many animals a world of random animals has.
pub const ANIMALS: usize = 40;

/// How many items of food a world of random animals has.
pub const FOODS: usize = 60;

/// What a world is: its animals and its food, each in order.
pub struct WorldView {
    pub animals: Seq<AnimalView>,
    pub foods: Seq<Food>,
}

/// The views of a sequence of animals.
pub open spec fn animal_views(animals: Seq<Animal>) -> Seq<AnimalView> {
    animals.map_values(|animal: Animal| animal@)
}

/// All the animals are well formed.
pub open spec fn animals_wf(animals: Seq<AnimalView>) -> bool {
    forall|i: int| 0 <= i < animals.len() ==> animal_wf(#[trigger] animals[i])
}

/// A world has an animal and an item of food, and its animals are well
/// formed: among other things, every animal is inside the world, both
/// coordinates of its place being numbers `c` with `0 <= c < 1`.
pub open spec fn world_wf(world: WorldView) -> bool {
    &&& world.animals.len() > 0
    &&& world.foods.len() > 0
    &&& animals_wf(world.animals)
}

/// What making a world may give: the world of those animals and that food,
/// or a refusal where there is no animal or, there being one, no food.
pub open spec fn assembled(animals: Seq<AnimalView>, foods: Seq<Food>, result: Result<World, Error>) -> bool {
    match result {
        Ok(world) => world@ == (WorldView { animals, foods }) && world.wf(),
        Err(error) => if animals.len() == 0 {
            error == Error::EmptyPopulation
        } else {
            error == Error::EmptyFoodSet && foods.len() == 0
        },
    }
}

/// Every animal is newborn, with a brain that `draw` drew, at a place that
/// `place` drew and with a heading that `turn` drew.
pub open spec fn animals_drawn<D: Fn(&mut ChaCha8Rng) -> u32, P: Fn(&mut ChaCha8Rng) -> Point2, T: Fn(&mut ChaCha8Rng) -> u32>(
    draw: D,
    place: P,
    turn: T,
    animals: Seq<AnimalView>,
) -> bool {
    forall|i: int|
        0 <= i < animals.len() ==> {
            &&& newborn(#[trigger] animals[i])
            &&& network_drawn(draw, animals[i].brain)
            &&& may_draw(place, animals[i].position)
            &&& may_draw(turn, animals[i].rotation)
        }
}

/// Every item of food lies at a place that `place` drew.
pub open spec fn foods_drawn<P: Fn(&mut ChaCha8Rng) -> Point2>(place: P, foods: Seq<Food>) -> bool {
    forall|j: int| 0 <= j < foods.len() ==> may_draw(place, (#[trigger] foods[j]).spec_position())
}

/// `steer` can be called on every pose, every speed and every answer of a
/// brain, which is two numbers.
pub open spec fn steers_all<T: Fn(Point2, u32, u32, &Vec<u32>) -> Motion>(steer: T) -> bool {
    forall|position: Point2, rotation: u32, speed: u32, response: Vec<u32>|
        response@.len() == 2 ==> #[trigger] steer.requires((position, rotation, speed, &response))
}

/// `steer` may move an animal like `before`, whose brain answered
/// `response`, to the place and the heading of `after`.
pub open spec fn steered<T: Fn(Point2, u32, u32, &Vec<u32>) -> Motion>(
    steer: T,
    before: AnimalView,
    response: Seq<u32>,
    after: AnimalView,
) -> bool {
    exists|signals: Vec<u32>|
        signals@ == response && #[trigger] steer.ensures(
            (before.position, before.rotation, before.speed, &signals),
            Motion { position: after.position, rotation: after.rotation },
        )
}

/// One animal's part in a step: its eye sees the food, its brain answers what
/// the eye saw, and `steer` turns the answer into its next place and heading.
/// Its speed, its eye, its brain and what it has eaten stay as they are.
pub open spec fn animal_moved<
    S: Fn(Eye, Point2, u32, Food) -> Option<Sighting>,
    A: Fn(u32, u32) -> u32,
    F: Fn(&Neuron, &Vec<u32>) -> u32,
    T: Fn(Point2, u32, u32, &Vec<u32>) -> Motion,
>(sight: S, accumulate: A, fire: F, steer: T, foods: Seq<Food>, before: AnimalView, after: AnimalView) -> bool {
    &&& after.speed == before.speed
    &&& after.eye == before.eye
    &&& after.brain == before.brain
    &&& after.satiation == before.satiation
    &&& exists|vision: Seq<u32>, response: Seq<u32>|
        {
            &&& #[trigger] sees(sight, accumulate, before.eye, before.position, before.rotation, foods, vision)
            &&& #[trigger] propagates(fire, before.brain, vision, response)
            &&& steered(steer, before, response, after)
        }
}

/// Every animal's part in a step, the food staying where it is.
pub open spec fn world_moved<
    S: Fn(Eye, Point2, u32, Food) -> Option<Sighting>,
    A: Fn(u32, u32) -> u32,
    F: Fn(&Neuron, &Vec<u32>) -> u32,
    T: Fn(Point2, u32, u32, &Vec<u32>) -> Motion,
>(sight: S, accumulate: A, fire: F, steer: T, before: WorldView, after: WorldView) -> bool {
    &&& after.foods == before.foods
    &&& after.animals.len() == before.animals.len()
    &&& forall|i: int|
        0 <= i < before.animals.len() ==> animal_moved(
            sight,
            accumulate,
            fire,
            steer,
            before.foods,
            before.animals[i],
            #[trigger] after.animals[i],
        )
}

/// `touches` can be called on every two places.
pub open spec fn touches_all<N: Fn(Point2, Point2) -> bool>(touches: N) -> bool {
    forall|animal: Point2, food: Point2| #[trigger] touches.requires((animal, food))
}

/// Who eats an item of food: the first animal, in order, that `touches`
/// finds touching it, and nobody where it finds none.
pub open spec fn eaten_by<N: Fn(Point2, Point2) -> bool>(
    touches: N,
    animals: Seq<AnimalView>,
    food: Food,
    eater: Option<usize>,
) -> bool {
    match eater {
        Some(first) => {
            &&& first < animals.len()
            &&& touches.ensures((animals[first as int].position, food.spec_position()), true)
            &&& forall|k: int|
                0 <= k < first ==> touches.ensures(((#[trigger] animals[k]).position, food.spec_position()), false)
        },
        None => forall|k: int|
            0 <= k < animals.len() ==> touches.ensures(
                ((#[trigger] animals[k]).position, food.spec_position()),
                false,
            ),
    }
}

/// How many items of food the animal at index `animal` eats, where
/// `eaters` names the eater of each item.
pub open spec fn meals(eaters: Seq<Option<usize>>, animal: int) -> nat
    decreases eaters.len(),
{
    if eaters.len() == 0 {
        0
    } else {
        meals(eaters.drop_last(), animal) + if eaters.last() == Some(animal as usize) {
            1nat
        } else {
            0nat
        }
    }
}

/// What becomes of an item of food: eaten, it lies at a place that
/// `relocate` drew; not eaten, it lies where it lay.
pub open spec fn food_moved<R: Fn(&mut ChaCha8Rng) -> Point2>(relocate: R, eater: Option<usize>, before: Food, after: Food) -> bool {
    match eater {
        Some(_) => may_draw(relocate, after.spec_position()),
        None => after == before,
    }
}

/// The feeding of a step: each item of food is eaten by the first animal
/// that touches it and by no other, each animal has eaten one more item for
/// each one it ate, and nothing else changes.
pub open spec fn world_fed<N: Fn(Point2, Point2) -> bool, R: Fn(&mut ChaCha8Rng) -> Point2>(
    touches: N,
    relocate: R,
    before: WorldView,
    eaters: Seq<Option<usize>>,
    after: WorldView,
) -> bool {
    &&& eaters.len() == before.foods.len()
    &&& after.foods.len() == before.foods.len()
    &&& after.animals.len() == before.animals.len()
    &&& forall|j: int|
        0 <= j < before.foods.len() ==> eaten_by(touches, before.animals, before.foods[j], #[trigger] eaters[j])
            && food_moved(relocate, eaters[j], before.foods[j], after.foods[j])
    &&& forall|i: int|
        0 <= i < before.animals.len() ==> #[trigger] after.animals[i] == (AnimalView {
            satiation: (before.animals[i].satiation + meals(eaters, i)) as usize,
            ..before.animals[i]
        })
}

/// Every animal can eat all the food without its count running over.
pub open spec fn has_room(world: WorldView) -> bool {
    forall|i: int|
        0 <= i < world.animals.len() ==> (#[trigger] world.animals[i]).satiation + world.foods.len() <= usize::MAX
}

/// No animal eats more items than there are.
pub proof fn lemma_meals_bound(eaters: Seq<Option<usize>>, animal: int)
    ensures
        meals(eaters, animal) <= eaters.len(),
    decreases eaters.len(),
{
    if eaters.len() > 0 {
        lemma_meals_bound(eaters.drop_last(), animal);
    }
}

/// How many items of food are eaten, where `eaters` names the eater of each
/// item.
pub open spec fn eaten(eaters: Seq<Option<usize>>) -> nat
    decreases eaters.len(),
{
    if eaters.len() == 0 {
        0
    } else {
        eaten(eaters.drop_last()) + if eaters.last().is_some() {
            1nat
        } else {
            0nat
        }
    }
}

/// How many items of food the first `animals` animals eat together.
pub open spec fn meals_among(eaters: Seq<Option<usize>>, animals: int) -> nat
    decreases animals,
{
    if animals <= 0 {
        0
    } else {
        meals_among(eaters, animals - 1) + meals(eaters, animals - 1)
    }
}

/// One more item of food is one more meal for the animals together where one
/// of them eats it, and none where nobody does.
proof fn lemma_meals_among_step(eaters: Seq<Option<usize>>, animals: int)
    requires
        eaters.len() > 0,
        0 <= animals <= usize::MAX,
    ensures
        meals_among(eaters, animals) == meals_among(eaters.drop_last(), animals) + if eaters.last().is_some()
            && eaters.last().unwrap() < animals {
            1nat
        } else {
            0nat
        },
    decreases animals,
{
    if animals > 0 {
        lemma_meals_among_step(eaters, animals - 1);
    }
}

/// No item of food is eaten twice: the animals together eat as many items as
/// are eaten.
pub proof fn lemma_meals_total(eaters: Seq<Option<usize>>, animals: int)
    requires
        0 <= animals <= usize::MAX,
        forall|j: int| 0 <= j < eaters.len() && (#[trigger] eaters[j]).is_some() ==> eaters[j].unwrap() < animals,
    ensures
        meals_among(eaters, animals) == eaten(eaters),
    decreases eaters.len(), animals,
{
    if eaters.len() == 0 {
        if animals > 0 {
            lemma_meals_total(eaters, animals - 1);
        }
    } else {
        lemma_meals_among_step(eaters, animals);
        lemma_meals_total(eaters.drop_last(), animals);
    }
}

/// The animals and the food.
#[derive(Debug)]
pub struct World {
    animals: Vec<Animal>,
    foods: Vec<Food>,
}

impl View for World {
    type V = WorldView;

    closed spec fn view(&self) -> WorldView {
        WorldView { animals: animal_views(self.animals@), foods: self.foods@ }
    }
}

impl World {
    /// The world is well formed.
    pub open spec fn wf(&self) -> bool {
        world_wf(self@)
    }

    /// The world of the given animals and food.
    pub fn new(animals: Vec<Animal>, foods: Vec<Food>) -> (result: Result<World, Error>)
        requires
            animals_wf(animal_views(animals@)),
        ensures
            assembled(animal_views(animals@), foods@, result),
    {
        if animals.len() == 0 {
            Err(Error::EmptyPopulation)
        } else if foods.len() == 0 {
            Err(Error::EmptyFoodSet)
        } else {
            Ok(World { animals, foods })
        }
    }

    /// A world of newborn animals and of food, all drawn: first the animals,
    /// one after the other, then the food.
    pub fn random<D: Fn(&mut ChaCha8Rng) -> u32, P: Fn(&mut ChaCha8Rng) -> Point2, T: Fn(&mut ChaCha8Rng) -> u32>(
        rng: &mut ChaCha8Rng,
        draw: &D,
        place: &P,
        turn: &T,
    ) -> (world: World)
        requires
            draws_always(*draw),
            draws_always(*place),
            draws_always(*turn),
        ensures
            world.wf(),
            world@.animals.len() == ANIMALS,
            world@.foods.len() == FOODS,
            animals_drawn(*draw, *place, *turn, world@.animals),
            foods_drawn(*place, world@.foods),
    {
        let mut animals: Vec<Animal> = Vec::new();
        let mut i: usize = 0;
        while i < ANIMALS
            invariant
                i <= ANIMALS,
                animals@.len() == i,
                draws_always(*draw),
                draws_always(*place),
                draws_always(*turn),
                animals_drawn(*draw, *place, *turn, animal_views(animals@)),
            decreases ANIMALS - i,
        {
            let animal = Animal::random(rng, draw, place, turn);
            let ghost earlier = animal_views(animals@);
            animals.push(animal);
            proof {
                let views = animal_views(animals@);
                assert forall|k: int| 0 <= k < views.len() implies {
                    &&& newborn(#[trigger] views[k])
                    &&& network_drawn(*draw, views[k].brain)
                    &&& may_draw(*place, views[k].position)
                    &&& may_draw(*turn, views[k].rotation)
                } by {
                    if k < i {
                        assert(views[k] == earlier[k]);
                    } else {
                        assert(views[k] == animal@);
                    }
                }
            }
            i += 1;
        }
        let mut foods: Vec<Food> = Vec::new();
        let mut j: usize = 0;
        while j < FOODS
            invariant
                j <= FOODS,
                foods@.len() == j,
                draws_always(*place),
                foods_drawn(*place, foods@),
            decreases FOODS - j,
        {
            let food = Food::random(rng, place);
            foods.push(food);
            j += 1;
        }
        World { animals, foods }
    }

    /// Moves every animal, in order: its eye sees the food, its brain answers,
    /// and `steer` gives its next place and heading.
    pub fn process_movements<
        S: Fn(Eye, Point2, u32, Food) -> Option<Sighting>,
        A: Fn(u32, u32) -> u32,
        F: Fn(&Neuron, &Vec<u32>) -> u32,
        T: Fn(Point2, u32, u32, &Vec<u32>) -> Motion,
    >(&mut self, sight: &S, accumulate: &A, fire: &F, steer: &T)
        requires
            old(self).wf(),
            sights_all(*sight),
            adds_all(*accumulate),
            fires_on_all(*fire),
            steers_all(*steer),
        ensures
            final(self).wf(),
            world_moved(*sight, *accumulate, *fire, *steer, old(self)@, final(self)@),
    {
        let ghost before = self@;
        let mut i: usize = 0;
        while i < self.animals.len()
            invariant
                i <= self.animals@.len(),
                before == old(self)@,
                world_wf(before),
                self.wf(),
                sights_all(*sight),
                adds_all(*accumulate),
                fires_on_all(*fire),
                steers_all(*steer),
                self@.foods == before.foods,
                self@.animals.len() == before.animals.len(),
                forall|k: int| i <= k < before.animals.len() ==> #[trigger] self@.animals[k] == before.animals[k],
                forall|k: int|
                    0 <= k < i ==> animal_moved(
                        *sight,
                        *accumulate,
                        *fire,
                        *steer,
                        before.foods,
                        before.animals[k],
                        #[trigger] self@.animals[k],
                    ),
            decreases self.animals@.len() - i,
        {
            let ghost earlier = self@;
            let animal = &self.animals[i];
            assert(animal@ == self@.animals[i as int]);
            assert(animal_wf(animal@));
            let position = animal.position();
            let rotation = animal.rotation();
            let speed = animal.speed();
            let eye = animal.eye();
            let vision = eye.process_vision(position, rotation, self.foods.as_slice(), sight, accumulate);
            let response = animal.brain().network().propagate(vision, fire);
            let motion = steer(position, rotation, speed, &response);
            self.animals[i].advance(motion);
            proof {
                let now = self@;
                assert(now.animals.len() == earlier.animals.len());
                assert forall|k: int| 0 <= k < now.animals.len() && k != i implies #[trigger] now.animals[k]
                    == earlier.animals[k] by {
                    assert(now.animals[k] == self.animals@[k]@);
                }
                let after = now.animals[i as int];
                assert(after == self.animals@[i as int]@);
                assert(before.animals[i as int] == earlier.animals[i as int]);
                assert(motion == (Motion { position: after.position, rotation: after.rotation }));
                assert(steer.ensures(
                    (
                        before.animals[i as int].position,
                        before.animals[i as int].rotation,
                        before.animals[i as int].speed,
                        &response,
                    ),
                    Motion { position: after.position, rotation: after.rotation },
                ));
                assert(steered(*steer, before.animals[i as int], response@, after));
                assert(animal_moved(
                    *sight,
                    *accumulate,
                    *fire,
                    *steer,
                    before.foods,
                    before.animals[i as int],
                    after,
                ));
                assert(animal_wf(after));
            }
            i += 1;
        }
    }

    /// Feeds the animals: each item of food, in order, is eaten by the first
    /// animal that `touches` finds touching it, and is then put where
    /// `relocate` draws. Returns, for each item, which animal ate it.
    pub fn process_collisions<N: Fn(Point2, Point2) -> bool, R: Fn(&mut ChaCha8Rng) -> Point2>(
        &mut self,
        rng: &mut ChaCha8Rng,
        touches: &N,
        relocate: &R,
    ) -> (eaters: Vec<Option<usize>>)
        requires
            old(self).wf(),
            has_room(old(self)@),
            touches_all(*touches),
            draws_always(*relocate),
        ensures
            final(self).wf(),
            world_fed(*touches, *relocate, old(self)@, eaters@, final(self)@),
    {
        let ghost before = self@;
        let mut eaters: Vec<Option<usize>> = Vec::new();
        let mut j: usize = 0;
        while j < self.foods.len()
            invariant
                j <= self.foods@.len(),
                before == old(self)@,
                world_wf(before),
                has_room(before),
                self.wf(),
                touches_all(*touches),
                draws_always(*relocate),
                eaters@.len() == j,
                self@.foods.len() == before.foods.len(),
                self@.animals.len() == before.animals.len(),
                forall|k: int| j <= k < before.foods.len() ==> #[trigger] self@.foods[k] == before.foods[k],
                forall|k: int|
                    0 <= k < j ==> eaten_by(*touches, before.animals, before.foods[k], #[trigger] eaters@[k])
                        && food_moved(*relocate, eaters@[k], before.foods[k], self@.foods[k]),
                forall|i: int|
                    0 <= i < before.animals.len() ==> #[trigger] self@.animals[i] == (AnimalView {
                        satiation: (before.animals[i].satiation + meals(eaters@, i)) as usize,
                        ..before.animals[i]
                    }),
            decreases self.foods@.len() - j,
        {
            let ghost earlier = self@;
            let ghost fed = eaters@;
            let food = self.foods[j];
            let at = food.position();
            let mut eater: Option<usize> = None;
            let mut i: usize = 0;
            while i < self.animals.len() && eater.is_none()
                invariant
                    i <= self.animals@.len(),
                    self@ == earlier,
                    earlier.animals.len() == before.animals.len(),
                    at == food.spec_position(),
                    touches_all(*touches),
                    forall|k: int|
                        0 <= k < before.animals.len() ==> (#[trigger] earlier.animals[k]).position
                            == before.animals[k].position,
                    match eater {
                        Some(first) => eaten_by(*touches, before.animals, food, eater),
                        None => forall|k: int|
                            0 <= k < i ==> touches.ensures(((#[trigger] before.animals[k]).position, at), false),
                    },
                decreases self.animals@.len() - i,
            {
                assert(self.animals@[i as int]@ == earlier.animals[i as int]);
                let hit = touches(self.animals[i].position(), at);
                if hit {
                    eater = Some(i);
                }
                i += 1;
            }
            match eater {
                Some(first) => {
                    assert(self.animals@[first as int]@ == earlier.animals[first as int]);
                    proof {
                        lemma_meals_bound(fed, first as int);
                    }
                    self.animals[first].eat();
                    let place = relocate(rng);
                    self.foods.set(j, Food::new(place));
                },
                None => {},
            }
            eaters.push(eater);
            proof {
                let now = self@;
                assert(eaters@.drop_last() =~= fed);
                assert(eaters@.last() == eater);
                assert forall|i: int| 0 <= i < before.animals.len() implies #[trigger] now.animals[i] == (
                AnimalView {
                    satiation: (before.animals[i].satiation + meals(eaters@, i)) as usize,
                    ..before.animals[i]
                }) by {
                    assert(now.animals[i] == self.animals@[i]@);
                    lemma_meals_bound(fed, i);
                    assert(earlier.animals[i] == (AnimalView {
                        satiation: (before.animals[i].satiation + meals(fed, i)) as usize,
                        ..before.animals[i]
                    }));
                }
                assert forall|i: int| 0 <= i < now.animals.len() implies animal_wf(#[trigger] now.animals[i]) by {
                    assert(animal_wf(before.animals[i]));
                }
                assert forall|k: int| 0 <= k < j + 1 implies eaten_by(
                    *touches,
                    before.animals,
                    before.foods[k],
                    #[trigger] eaters@[k],
                ) && food_moved(*relocate, eaters@[k], before.foods[k], now.foods[k]) by {
                    if k < j {
                        assert(eaters@[k] == fed[k]);
                        assert(now.foods[k] == earlier.foods[k]);
                    }
                }
            }
            j += 1;
        }
        eaters
    }

    /// Puts `animals` in the place of the animals of the world, one for
    /// one: the world keeps its number of animals. The food stays.
    pub fn repopulate(&mut self, animals: Vec<Animal>)
        requires
            animals@.len() == old(self)@.animals.len(),
            animals_wf(animal_views(animals@)),
        ensures
            final(self)@ == (WorldView { animals: animal_views(animals@), foods: old(self)@.foods }),
    {
        self.animals = animals;
    }

    /// The animals, in order.
    pub fn animals(&self) -> (animals: &[Animal])
        ensures
            animal_views(animals@) == self@.animals,
    {
        self.animals.as_slice()
    }

    /// The food, in order.
    pub fn foods(&self) -> (foods: &[Food])
        ensures
            foods@ == self@.foods,
    {
        self.foods.as_slice()
    }
}

} // verus!
