//! The reasons for which the library refuses a value.

use vstd::prelude::*;

verus! {

/// Why a constructor refused its arguments.
#[derive(Clone, Copy, Debug, PartialEq, Eq, Structural)]
pub enum Error {
    /// A topology has fewer than two layer sizes, or a layer size of zero.
    InvalidTopology,
    /// An eye has a range or an angle that is not a positive number, or no cells.
    InvalidEye,
    /// A chance of mutation is not a number between zero and one.
    InvalidMutationChance,
    /// A world was asked for without animals.
    EmptyPopulation,
    /// A world was asked for without food.
    EmptyFoodSet,
    /// A position has a coordinate outside the half-open unit interval.
    OutOfBounds,
    /// The number of genes differs from the number of parameters of the topology.
    EncodingMismatch,
}

} // verus!
