//! An animal: a body with a place, a heading and a fixed speed, an eye, a
//! brain, and a count of what it has eaten.

use rand_chacha::ChaCha8Rng;
use vstd::prelude::*;

use crate::brain::{brain_sizes, Brain};
use crate::chromosome::Chromosome;
use crate::error::Error;
use crate::eye::{Eye, CELLS};
use crate::network::{network_drawn, network_genes, network_wf, parameter_count, shape, NetworkView};
use crate::point::Point2;
use crate::random::{draws_always, may_draw};

verus! {

/// The speed of every animal, which it keeps for life: two thousandths of
/// the world's width in one step.
pub const SPEED: u32 = 0x3B03_126F;

/// Where an animal is after a step, and where it is headed.
#[derive(Clone, Copy, Debug)]
pub struct Motion {
    pub position: Point2,
    pub rotation: u32,
}

/// What an animal is.
pub struct AnimalView {
    pub position: Point2,
    pub rotation: u32,
    pub speed: u32,
    pub eye: Eye,
    pub brain: NetworkView,
    pub satiation: usize,
}

/// An animal.
#[derive(Clone, Debug)]
pub struct Animal {
    position: Point2,
    rotation: u32,
    speed: u32,
    eye: Eye,
    brain: Brain,
    satiation: usize,
}

impl View for Animal {
    type V = AnimalView;

    closed spec fn view(&self) -> AnimalView {
        AnimalView {
            position: self.position,
            rotation: self.rotation,
            speed: self.speed,
            eye: self.eye,
            brain: self.brain@,
            satiation: self.satiation,
        }
    }
}

/// The animal is inside the world, has the eye that every animal has, and a
/// brain that is a well-formed network of the shape that this eye calls for.
pub open spec fn animal_wf(animal: AnimalView) -> bool {
    &&& animal.position.in_bounds()
    &&& network_wf(animal.brain)
    &&& shape(animal.brain) == brain_sizes(animal.eye.spec_cells() as nat)
    &&& animal.eye.spec_cells() == CELLS
}

/// The animal is one that has just been put into the world: at the speed of
/// every animal, and hungry.
pub open spec fn newborn(animal: AnimalView) -> bool {
    &&& animal_wf(animal)
    &&& animal.speed == SPEED
    &&& animal.satiation == 0
}

impl Animal {
    /// The animal is well formed.
    pub open spec fn wf(&self) -> bool {
        animal_wf(self@)
    }

    /// What making an animal of a chromosome may give: a newborn animal with
    /// those genes, at a place and with a heading that were drawn, or a
    /// refusal where the number of genes is not that of the brain.
    pub open spec fn hatched<P: Fn(&mut ChaCha8Rng) -> Point2, T: Fn(&mut ChaCha8Rng) -> u32>(
        genes: Seq<u32>,
        place: P,
        turn: T,
        result: Result<Animal, Error>,
    ) -> bool {
        match result {
            Ok(animal) => {
                &&& genes.len() == parameter_count(brain_sizes(CELLS as nat))
                &&& newborn(animal@)
                &&& network_genes(animal@.brain) == genes
                &&& may_draw(place, animal@.position)
                &&& may_draw(turn, animal@.rotation)
            },
            Err(error) => error == Error::EncodingMismatch && genes.len() != parameter_count(
                brain_sizes(CELLS as nat),
            ),
        }
    }

    /// The animal with the given eye and brain, at `position` and headed as
    /// `rotation` tells, at the speed of every animal, and hungry.
    fn new(eye: Eye, brain: Brain, position: Point2, rotation: u32) -> (animal: Animal)
        requires
            brain.fits(eye),
            eye.spec_cells() == CELLS,
        ensures
            animal@ == (AnimalView { position, rotation, speed: SPEED, eye, brain: brain@, satiation: 0 }),
            animal.wf(),
    {
        proof {
            use_type_invariant(&position);
        }
        Animal { position, rotation, speed: SPEED, eye, brain, satiation: 0 }
    }

    /// A newborn animal: its brain is drawn with `draw`, then its place with
    /// `place`, then its heading with `turn`.
    pub fn random<D: Fn(&mut ChaCha8Rng) -> u32, P: Fn(&mut ChaCha8Rng) -> Point2, T: Fn(&mut ChaCha8Rng) -> u32>(
        rng: &mut ChaCha8Rng,
        draw: &D,
        place: &P,
        turn: &T,
    ) -> (animal: Animal)
        requires
            draws_always(*draw),
            draws_always(*place),
            draws_always(*turn),
        ensures
            newborn(animal@),
            network_drawn(*draw, animal@.brain),
            may_draw(*place, animal@.position),
            may_draw(*turn, animal@.rotation),
    {
        let eye = Eye::default();
        match Brain::random(rng, draw, &eye) {
            Ok(brain) => {
                let position = place(rng);
                let rotation = turn(rng);
                Self::new(eye, brain, position, rotation)
            },
            Err(_) => {
                proof {
                    assert(false);
                }
                vstd::pervasive::unreached()
            },
        }
    }

    /// A newborn animal with the genes of `chromosome`: its place is drawn
    /// with `place`, then its heading with `turn`.
    pub fn from_chromosome<P: Fn(&mut ChaCha8Rng) -> Point2, T: Fn(&mut ChaCha8Rng) -> u32>(
        chromosome: Chromosome,
        rng: &mut ChaCha8Rng,
        place: &P,
        turn: &T,
    ) -> (result: Result<Animal, Error>)
        requires
            draws_always(*place),
            draws_always(*turn),
        ensures
            Self::hatched(chromosome@, *place, *turn, result),
    {
        let eye = Eye::default();
        match Brain::from_chromosome(chromosome, &eye) {
            Ok(brain) => {
                let position = place(rng);
                let rotation = turn(rng);
                Ok(Self::new(eye, brain, position, rotation))
            },
            Err(error) => Err(error),
        }
    }

    /// The genes of the animal's brain.
    pub fn as_chromosome(&self) -> (chromosome: Chromosome)
        ensures
            chromosome@ == network_genes(self@.brain),
    {
        self.brain.as_chromosome()
    }

    /// Where the animal is.
    pub fn position(&self) -> (position: Point2)
        ensures
            position == self@.position,
            position.in_bounds(),
    {
        proof {
            use_type_invariant(&self.position);
        }
        self.position
    }

    /// Where the animal is headed: the pattern of an angle in radians.
    pub fn rotation(&self) -> (rotation: u32)
        ensures
            rotation == self@.rotation,
    {
        self.rotation
    }

    /// How fast the animal goes: a speed that no step changes.
    pub fn speed(&self) -> (speed: u32)
        ensures
            speed == self@.speed,
    {
        self.speed
    }

    /// How many items of food the animal has eaten.
    pub fn satiation(&self) -> (satiation: usize)
        ensures
            satiation == self@.satiation,
    {
        self.satiation
    }

    /// The eye of the animal.
    pub fn eye(&self) -> (eye: Eye)
        ensures
            eye == self@.eye,
    {
        self.eye
    }

    /// The brain of the animal.
    pub fn brain(&self) -> (brain: &Brain)
        ensures
            brain@ == self@.brain,
    {
        &self.brain
    }

    /// Puts the animal where `motion` tells, with its heading. Its speed, its
    /// eye, its brain and what it has eaten stay as they are.
    pub fn advance(&mut self, motion: Motion)
        ensures
            final(self)@ == (AnimalView {
                position: motion.position,
                rotation: motion.rotation,
                ..old(self)@
            }),
            motion.position.in_bounds(),
    {
        proof {
            use_type_invariant(&motion.position);
        }
        self.position = motion.position;
        self.rotation = motion.rotation;
    }

    /// Counts one more item of food as eaten.
    pub fn eat(&mut self)
        requires
            old(self)@.satiation < usize::MAX,
        ensures
            final(self)@ == (AnimalView { satiation: (old(self)@.satiation + 1) as usize, ..old(self)@ }),
    {
        self.satiation = self.satiation + 1;
    }
}

} // verus!
