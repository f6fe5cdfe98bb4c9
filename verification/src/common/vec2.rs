//! Two-dimensional vectors with whole-number coordinates.

use vstd::prelude::*;

verus! {

/// A point or a displacement in the plane.
///
/// Coordinates are whole numbers. Sums that would leave the range of `i32`
/// stop at its ends, so adding never fails.
#[derive(Clone, Copy, Debug, PartialEq, Eq, Structural)]
pub struct Vec2 {
    pub x: i32,
    pub y: i32,
}

/// The `i32` nearest to `v`.
pub open spec fn clamp_coordinate(v: int) -> i32 {
    if v > i32::MAX {
        i32::MAX
    } else if v < i32::MIN {
        i32::MIN
    } else {
        v as i32
    }
}

/// Adds two coordinates, stopping at the ends of the range.
pub fn add_coordinates(a: i32, b: i32) -> (sum: i32)
    ensures
        sum == clamp_coordinate(a + b),
{
    match a.checked_add(b) {
        Some(sum) => sum,
        None => if b > 0 {
            i32::MAX
        } else {
            i32::MIN
        },
    }
}

impl Vec2 {
    /// The origin.
    pub open spec fn spec_zero() -> Vec2 {
        Vec2 { x: 0, y: 0 }
    }

    /// The origin.
    #[verifier::when_used_as_spec(spec_zero)]
    pub fn zero() -> (v: Vec2)
        ensures
            v == Vec2::spec_zero(),
    {
        Vec2 { x: 0, y: 0 }
    }

    /// Builds a vector from its coordinates.
    pub fn new(x: i32, y: i32) -> (v: Vec2)
        ensures
            v == (Vec2 { x, y }),
    {
        Vec2 { x, y }
    }

    /// The sum of two vectors, coordinate by coordinate.
    pub open spec fn spec_plus(self, other: Vec2) -> Vec2 {
        Vec2 {
            x: clamp_coordinate(self.x + other.x),
            y: clamp_coordinate(self.y + other.y),
        }
    }

    /// The sum of two vectors, coordinate by coordinate.
    #[verifier::when_used_as_spec(spec_plus)]
    pub fn plus(self, other: Vec2) -> (sum: Vec2)
        ensures
            sum == self.spec_plus(other),
    {
        Vec2 { x: add_coordinates(self.x, other.x), y: add_coordinates(self.y, other.y) }
    }
}

/// Adding the origin changes nothing.
pub proof fn lemma_plus_zero(v: Vec2)
    ensures
        v.spec_plus(Vec2::spec_zero()) == v,
{
}

} // verus!
