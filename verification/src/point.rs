//! Places in the world: the unit square, closed below and open above.

use vstd::prelude::*;

use crate::error::Error;
use crate::scalar::{in_unit_interval, within_unit_interval};

verus! {

/// A place in the world. Both coordinates stand for numbers `c` with
/// `0 <= c < 1`: no other point can be made.
#[derive(Clone, Copy, Debug)]
pub struct Point2 {
    x: u32,
    y: u32,
}

impl Point2 {
    /// The pattern of the first coordinate.
    pub closed spec fn spec_x(&self) -> u32 {
        self.x
    }

    /// The pattern of the second coordinate.
    pub closed spec fn spec_y(&self) -> u32 {
        self.y
    }

    /// Both coordinates are in the half-open unit interval. This holds of
    /// every point that a program holds.
    #[verifier::type_invariant]
    pub closed spec fn in_bounds(&self) -> bool {
        in_unit_interval(self.x) && in_unit_interval(self.y)
    }

    /// A point is in bounds where both its coordinates stand for numbers in
    /// the half-open unit interval.
    pub proof fn lemma_in_bounds(&self)
        ensures
            self.in_bounds() == (in_unit_interval(self.spec_x()) && in_unit_interval(self.spec_y())),
    {
    }

    /// What making a point of two patterns may give: the point, where both
    /// stand for numbers in the half-open unit interval, and a refusal where
    /// one does not.
    pub open spec fn made(x: u32, y: u32, result: Result<Point2, Error>) -> bool {
        match result {
            Ok(point) => point.spec_x() == x && point.spec_y() == y && point.in_bounds(),
            Err(error) => error == Error::OutOfBounds && !(in_unit_interval(x) && in_unit_interval(y)),
        }
    }

    /// The point with the given coordinates.
    pub fn new(x: u32, y: u32) -> (result: Result<Point2, Error>)
        ensures
            Self::made(x, y, result),
    {
        if within_unit_interval(x) && within_unit_interval(y) {
            Ok(Point2 { x, y })
        } else {
            Err(Error::OutOfBounds)
        }
    }

    /// The point with both coordinates zero.
    pub fn origin() -> (point: Point2)
        ensures
            point.spec_x() == 0,
            point.spec_y() == 0,
            point.in_bounds(),
    {
        Point2 { x: 0, y: 0 }
    }

    /// The pattern of the first coordinate.
    pub fn x(&self) -> (x: u32)
        ensures
            x == self.spec_x(),
            in_unit_interval(x),
    {
        proof {
            use_type_invariant(self);
        }
        self.x
    }

    /// The pattern of the second coordinate.
    pub fn y(&self) -> (y: u32)
        ensures
            y == self.spec_y(),
            in_unit_interval(y),
    {
        proof {
            use_type_invariant(self);
        }
        self.y
    }
}

} // verus!
