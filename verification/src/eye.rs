//! The eye: what an animal sees of the food around it, as one number per cell
//! of its field of view.

use vstd::prelude::*;

use crate::error::Error;
use crate::food::Food;
use crate::point::Point2;
use crate::scalar::{is_positive, positive, ZERO};

verus! {

/// How far an eye sees by default: a quarter of the world's width.
pub const FOV_RANGE: u32 = 0x3E80_0000;

/// How wide an eye sees by default: five quarters of a half turn, in radians.
pub const FOV_ANGLE: u32 = 0x407B_53D2;

/// How many cells an eye has by default.
pub const CELLS: usize = 9;

/// One item of food as an eye sees it: the cell of the field of view that it
/// falls into, counted from the left, and the energy that it adds there.
#[derive(Clone, Copy, Debug)]
pub struct Sighting {
    pub cell: usize,
    pub energy: u32,
}

/// The geometry of an eye: how far and how wide it sees, and into how many
/// cells its field of view is cut. Range and angle are positive numbers, and
/// there is at least one cell: no other eye can be made.
#[derive(Clone, Copy, Debug)]
pub struct Eye {
    fov_range: u32,
    fov_angle: u32,
    cells: usize,
}

/// The cell that takes what falls into cell `cell` of `cells` cells: the same
/// cell, or the last one where rounding has carried `cell` past the end.
pub open spec fn clamped(cell: usize, cells: usize) -> int {
    if cell < cells {
        cell as int
    } else {
        cells - 1
    }
}

/// What the eye makes of one more item of food: where `sight` does not see
/// it, the cells stay as they are; where it does, the energy is added, as
/// `accumulate` adds, to the cell it falls into, and the other cells stay.
pub open spec fn glimpsed<S: Fn(Eye, Point2, u32, Food) -> Option<Sighting>, A: Fn(u32, u32) -> u32>(
    sight: S,
    accumulate: A,
    eye: Eye,
    position: Point2,
    rotation: u32,
    food: Food,
    before: Seq<u32>,
    after: Seq<u32>,
) -> bool {
    exists|outcome: Option<Sighting>| #[trigger]
        sight.ensures((eye, position, rotation, food), outcome) && match outcome {
            None => after == before,
            Some(seen) => {
                let cell = clamped(seen.cell, eye.spec_cells());
                &&& accumulate.ensures((before[cell], seen.energy), after[cell])
                &&& after == before.update(cell, after[cell])
            },
        }
}

/// What the eye makes of `foods`: it starts from cells that are all zero and
/// takes in one item after the other.
pub open spec fn sees<S: Fn(Eye, Point2, u32, Food) -> Option<Sighting>, A: Fn(u32, u32) -> u32>(
    sight: S,
    accumulate: A,
    eye: Eye,
    position: Point2,
    rotation: u32,
    foods: Seq<Food>,
    cells: Seq<u32>,
) -> bool
    decreases foods.len(),
{
    if foods.len() == 0 {
        cells == Seq::new(eye.spec_cells() as nat, |i: int| ZERO)
    } else {
        exists|before: Seq<u32>|
            sees(sight, accumulate, eye, position, rotation, foods.drop_last(), before) && #[trigger] glimpsed(
                sight,
                accumulate,
                eye,
                position,
                rotation,
                foods.last(),
                before,
                cells,
            )
    }
}

/// Vision is local: an item of food that `sight` never sees from where the
/// eye is adds nothing to any cell.
pub proof fn lemma_unseen_food_adds_nothing<
    S: Fn(Eye, Point2, u32, Food) -> Option<Sighting>,
    A: Fn(u32, u32) -> u32,
>(
    sight: S,
    accumulate: A,
    eye: Eye,
    position: Point2,
    rotation: u32,
    food: Food,
    before: Seq<u32>,
    after: Seq<u32>,
)
    requires
        forall|outcome: Option<Sighting>| #[trigger]
            sight.ensures((eye, position, rotation, food), outcome) ==> outcome.is_none(),
        glimpsed(sight, accumulate, eye, position, rotation, food, before, after),
    ensures
        after == before,
{
}

/// Vision is local: an item of food that `sight` always sees in the cell
/// `cell` adds nothing to any other cell.
pub proof fn lemma_seen_food_adds_to_one_cell<
    S: Fn(Eye, Point2, u32, Food) -> Option<Sighting>,
    A: Fn(u32, u32) -> u32,
>(
    sight: S,
    accumulate: A,
    eye: Eye,
    position: Point2,
    rotation: u32,
    food: Food,
    before: Seq<u32>,
    after: Seq<u32>,
    cell: int,
)
    requires
        before.len() == eye.spec_cells(),
        0 <= cell < before.len(),
        forall|outcome: Option<Sighting>| #[trigger]
            sight.ensures((eye, position, rotation, food), outcome) ==> outcome.is_some() && clamped(
                outcome.unwrap().cell,
                eye.spec_cells(),
            ) == cell,
        glimpsed(sight, accumulate, eye, position, rotation, food, before, after),
    ensures
        after.len() == before.len(),
        forall|other: int| 0 <= other < before.len() && other != cell ==> after[other] == before[other],
{
}

/// Vision is local: where `sight` sees none of the food from where the eye
/// is, every cell is zero.
pub proof fn lemma_unseen_foods_leave_zero<
    S: Fn(Eye, Point2, u32, Food) -> Option<Sighting>,
    A: Fn(u32, u32) -> u32,
>(sight: S, accumulate: A, eye: Eye, position: Point2, rotation: u32, foods: Seq<Food>, cells: Seq<u32>)
    requires
        forall|j: int, outcome: Option<Sighting>|
            0 <= j < foods.len() && #[trigger] sight.ensures((eye, position, rotation, foods[j]), outcome)
                ==> outcome.is_none(),
        sees(sight, accumulate, eye, position, rotation, foods, cells),
    ensures
        cells == Seq::new(eye.spec_cells() as nat, |i: int| ZERO),
    decreases foods.len(),
{
    if foods.len() > 0 {
        let before = choose|before: Seq<u32>|
            sees(sight, accumulate, eye, position, rotation, foods.drop_last(), before) && #[trigger] glimpsed(
                sight,
                accumulate,
                eye,
                position,
                rotation,
                foods.last(),
                before,
                cells,
            );
        assert forall|j: int, outcome: Option<Sighting>|
            0 <= j < foods.drop_last().len() && #[trigger] sight.ensures(
                (eye, position, rotation, foods.drop_last()[j]),
                outcome,
            ) implies outcome.is_none() by {
            assert(foods.drop_last()[j] == foods[j]);
        }
        lemma_unseen_foods_leave_zero(sight, accumulate, eye, position, rotation, foods.drop_last(), before);
        lemma_unseen_food_adds_nothing(sight, accumulate, eye, position, rotation, foods.last(), before, cells);
    }
}

/// Vision is local: where there is one item of food and `sight` always
/// sees it in the cell `cell`, that cell holds what `accumulate` makes of
/// zero and the energy seen, and every other cell is zero.
pub proof fn lemma_one_food_lights_one_cell<
    S: Fn(Eye, Point2, u32, Food) -> Option<Sighting>,
    A: Fn(u32, u32) -> u32,
>(
    sight: S,
    accumulate: A,
    eye: Eye,
    position: Point2,
    rotation: u32,
    food: Food,
    cells: Seq<u32>,
    cell: int,
)
    requires
        0 <= cell < eye.spec_cells(),
        forall|outcome: Option<Sighting>| #[trigger]
            sight.ensures((eye, position, rotation, food), outcome) ==> outcome.is_some() && clamped(
                outcome.unwrap().cell,
                eye.spec_cells(),
            ) == cell,
        sees(sight, accumulate, eye, position, rotation, seq![food], cells),
    ensures
        cells.len() == eye.spec_cells(),
        forall|other: int| 0 <= other < cells.len() && other != cell ==> cells[other] == ZERO,
        exists|seen: Sighting| #[trigger]
            sight.ensures((eye, position, rotation, food), Some(seen)) && accumulate.ensures(
                (ZERO, seen.energy),
                cells[cell],
            ),
{
    let foods = seq![food];
    let before = choose|before: Seq<u32>|
        sees(sight, accumulate, eye, position, rotation, foods.drop_last(), before) && #[trigger] glimpsed(
            sight,
            accumulate,
            eye,
            position,
            rotation,
            foods.last(),
            before,
            cells,
        );
    assert(foods.drop_last().len() == 0);
    assert(foods.last() == food);
    assert(before == Seq::new(eye.spec_cells() as nat, |i: int| ZERO));
    let outcome = choose|outcome: Option<Sighting>| #[trigger]
        sight.ensures((eye, position, rotation, food), outcome) && match outcome {
            None => cells == before,
            Some(seen) => {
                let at = clamped(seen.cell, eye.spec_cells());
                &&& accumulate.ensures((before[at], seen.energy), cells[at])
                &&& cells == before.update(at, cells[at])
            },
        };
    assert(sight.ensures((eye, position, rotation, food), Some(outcome.unwrap())));
}

/// `sight` can be called on every eye, pose and item of food.
pub open spec fn sights_all<S: Fn(Eye, Point2, u32, Food) -> Option<Sighting>>(sight: S) -> bool {
    forall|eye: Eye, position: Point2, rotation: u32, food: Food| #[trigger]
        sight.requires((eye, position, rotation, food))
}

/// `accumulate` can be called on every two patterns.
pub open spec fn adds_all<A: Fn(u32, u32) -> u32>(accumulate: A) -> bool {
    forall|a: u32, b: u32| #[trigger] accumulate.requires((a, b))
}

impl Eye {
    #[verifier::type_invariant]
    spec fn sound(self) -> bool {
        is_positive(self.fov_range) && is_positive(self.fov_angle) && self.cells > 0
    }

    /// The pattern of the range of the eye.
    pub closed spec fn spec_fov_range(&self) -> u32 {
        self.fov_range
    }

    /// The pattern of the angle of the eye.
    pub closed spec fn spec_fov_angle(&self) -> u32 {
        self.fov_angle
    }

    /// The number of cells of the eye.
    pub closed spec fn spec_cells(&self) -> usize {
        self.cells
    }

    /// What making an eye may give: the eye, where range and angle are
    /// positive numbers and there is a cell, and a refusal where not.
    pub open spec fn made(fov_range: u32, fov_angle: u32, cells: usize, result: Result<Eye, Error>) -> bool {
        let valid = is_positive(fov_range) && is_positive(fov_angle) && cells > 0;
        match result {
            Ok(eye) => {
                &&& valid
                &&& eye.spec_fov_range() == fov_range
                &&& eye.spec_fov_angle() == fov_angle
                &&& eye.spec_cells() == cells
            },
            Err(error) => error == Error::InvalidEye && !valid,
        }
    }

    /// An eye that sees as far as `fov_range` and as wide as `fov_angle`, in
    /// `cells` cells.
    pub fn new(fov_range: u32, fov_angle: u32, cells: usize) -> (result: Result<Eye, Error>)
        ensures
            Self::made(fov_range, fov_angle, cells, result),
    {
        if positive(fov_range) && positive(fov_angle) && cells > 0 {
            Ok(Eye { fov_range, fov_angle, cells })
        } else {
            Err(Error::InvalidEye)
        }
    }

    /// The pattern of the range of the eye, a positive number.
    pub fn fov_range(&self) -> (fov_range: u32)
        ensures
            fov_range == self.spec_fov_range(),
            is_positive(fov_range),
    {
        proof {
            use_type_invariant(self);
        }
        self.fov_range
    }

    /// The pattern of the angle of the eye, a positive number.
    pub fn fov_angle(&self) -> (fov_angle: u32)
        ensures
            fov_angle == self.spec_fov_angle(),
            is_positive(fov_angle),
    {
        proof {
            use_type_invariant(self);
        }
        self.fov_angle
    }

    /// The number of cells of the eye, at least one.
    pub fn cells(&self) -> (cells: usize)
        ensures
            cells == self.spec_cells(),
            cells > 0,
    {
        proof {
            use_type_invariant(self);
        }
        self.cells
    }

    /// What the eye sees of `foods` from `position`, turned by `rotation`:
    /// one number per cell. `sight` tells for one item of food whether the eye
    /// sees it, in which cell and with what energy, and `accumulate` adds two numbers.
    pub fn process_vision<S: Fn(Eye, Point2, u32, Food) -> Option<Sighting>, A: Fn(u32, u32) -> u32>(
        &self,
        position: Point2,
        rotation: u32,
        foods: &[Food],
        sight: &S,
        accumulate: &A,
    ) -> (cells: Vec<u32>)
        requires
            sights_all(*sight),
            adds_all(*accumulate),
        ensures
            cells@.len() == self.spec_cells(),
            sees(*sight, *accumulate, *self, position, rotation, foods@, cells@),
    {
        let count = self.cells();
        let mut cells: Vec<u32> = Vec::new();
        let mut c: usize = 0;
        while c < count
            invariant
                c <= count,
                cells@.len() == c,
                forall|k: int| 0 <= k < c ==> #[trigger] cells@[k] == ZERO,
            decreases count - c,
        {
            cells.push(ZERO);
            c += 1;
        }
        assert(cells@ =~= Seq::new(count as nat, |i: int| ZERO));
        assert(foods@.take(0) =~= Seq::<Food>::empty());
        let mut f: usize = 0;
        while f < foods.len()
            invariant
                f <= foods@.len(),
                count == self.spec_cells(),
                count > 0,
                cells@.len() == count,
                sights_all(*sight),
                adds_all(*accumulate),
                sees(*sight, *accumulate, *self, position, rotation, foods@.take(f as int), cells@),
            decreases foods@.len() - f,
        {
            let ghost before = cells@;
            let food = foods[f];
            let outcome = sight(*self, position, rotation, food);
            match outcome {
                Some(seen) => {
                    let cell = if seen.cell < count {
                        seen.cell
                    } else {
                        count - 1
                    };
                    let total = accumulate(cells[cell], seen.energy);
                    cells.set(cell, total);
                },
                None => {},
            }
            proof {
                assert(foods@.take(f + 1).drop_last() =~= foods@.take(f as int));
                assert(foods@.take(f + 1).last() == food);
                assert(sight.ensures((*self, position, rotation, food), outcome));
                assert(glimpsed(*sight, *accumulate, *self, position, rotation, food, before, cells@));
            }
            f += 1;
        }
        assert(foods@.take(f as int) =~= foods@);
        cells
    }
}

impl Default for Eye {
    /// The eye that every animal has unless it is given another.
    fn default() -> (eye: Eye)
        ensures
            eye.spec_fov_range() == FOV_RANGE,
            eye.spec_fov_angle() == FOV_ANGLE,
            eye.spec_cells() == CELLS,
    {
        Eye { fov_range: FOV_RANGE, fov_angle: FOV_ANGLE, cells: CELLS }
    }
}

} // verus!
