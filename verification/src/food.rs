//! Food: what the animals look for.

use rand_chacha::ChaCha8Rng;
use vstd::prelude::*;

use crate::point::Point2;
use crate::random::{draws_always, may_draw};

verus! {

/// One item of food. It lies where it is until an animal eats it, and is then
/// put elsewhere.
#[derive(Clone, Copy, Debug)]
pub struct Food {
    position: Point2,
}

impl Food {
    /// Where the food lies.
    pub closed spec fn spec_position(&self) -> Point2 {
        self.position
    }

    /// An item of food at `position`.
    pub fn new(position: Point2) -> (food: Food)
        ensures
            food.spec_position() == position,
            position.in_bounds(),
    {
        proof {
            use_type_invariant(&position);
        }
        Food { position }
    }

    /// An item of food at a place that `place` draws.
    pub fn random<P: Fn(&mut ChaCha8Rng) -> Point2>(rng: &mut ChaCha8Rng, place: &P) -> (food: Food)
        requires
            draws_always(*place),
        ensures
            may_draw(*place, food.spec_position()),
            food.spec_position().in_bounds(),
    {
        Self::new(place(rng))
    }

    /// Where the food lies.
    pub fn position(&self) -> (position: Point2)
        ensures
            position == self.spec_position(),
            position.in_bounds(),
    {
        proof {
            use_type_invariant(&self.position);
        }
        self.position
    }
}

} // verus!
