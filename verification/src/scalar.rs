//! Facts about single-precision patterns that can be read off the bits.
//!
//! A pattern has its sign in bit 31, then eight exponent bits, then the
//! fraction. For patterns with a clear sign bit, the order of the patterns as
//! unsigned integers is the order of the reals they stand for, with positive
//! infinity at `0x7F80_0000` and the not-a-number patterns above it.

use vstd::prelude::*;

verus! {

/// The pattern of positive zero.
pub const ZERO: u32 = 0;

/// The pattern of one.
pub const ONE: u32 = 0x3F80_0000;

/// The pattern of positive infinity.
pub const INFINITY: u32 = 0x7F80_0000;

/// The pattern of negative zero.
pub const NEGATIVE_ZERO: u32 = 0x8000_0000;

/// The pattern stands for a number greater than zero (infinity included).
pub open spec fn is_positive(bits: u32) -> bool {
    0 < bits <= INFINITY
}

/// The pattern stands for a number `x` with `0 <= x < 1`.
pub open spec fn in_unit_interval(bits: u32) -> bool {
    bits < ONE || bits == NEGATIVE_ZERO
}

/// The pattern stands for a number `p` with `0 <= p <= 1`.
pub open spec fn is_probability(bits: u32) -> bool {
    bits <= ONE || bits == NEGATIVE_ZERO
}

/// Tests whether a pattern stands for a number greater than zero.
pub fn positive(bits: u32) -> (yes: bool)
    ensures
        yes == is_positive(bits),
{
    0 < bits && bits <= INFINITY
}

/// Tests whether a pattern stands for a number between zero and one, both
/// included.
pub fn probability(bits: u32) -> (yes: bool)
    ensures
        yes == is_probability(bits),
{
    bits <= ONE || bits == NEGATIVE_ZERO
}

/// Tests whether a pattern stands for a number in the half-open unit interval.
pub fn within_unit_interval(bits: u32) -> (yes: bool)
    ensures
        yes == in_unit_interval(bits),
{
    bits < ONE || bits == NEGATIVE_ZERO
}

} // verus!
