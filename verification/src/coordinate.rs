//! Grid coordinates.

use vstd::prelude::*;

verus! {

/// A cell position: column `x`, row `y`.
#[derive(Debug, Clone, Copy, PartialEq, Eq, Hash, Structural)]
pub struct Coordinate {
    pub x: usize,
    pub y: usize,
}

impl Coordinate {
    pub fn new(x: usize, y: usize) -> (c: Coordinate)
        ensures
            c.x == x,
            c.y == y,
    {
        Coordinate { x, y }
    }

    /// The square of the distance between two positions.
    pub open spec fn distance_squared(self, other: Coordinate) -> nat {
        ((self.x - other.x) * (self.x - other.x) + (self.y - other.y) * (self.y - other.y)) as nat
    }

    /// How far apart two positions are along each axis.
    pub fn offset(&self, other: Coordinate) -> (d: (usize, usize))
        ensures
            d.0 == vstd::math::abs(self.x - other.x),
            d.1 == vstd::math::abs(self.y - other.y),
            d.0 * d.0 + d.1 * d.1 == self.distance_squared(other),
            (d.0 == 0 && d.1 == 0) <==> *self == other,
    {
        let dx: usize = if self.x >= other.x { self.x - other.x } else { other.x - self.x };
        let dy: usize = if self.y >= other.y { self.y - other.y } else { other.y - self.y };
        assert(dx * dx == (self.x - other.x) * (self.x - other.x)) by (nonlinear_arith)
            requires dx == self.x - other.x || dx == other.x - self.x;
        assert(dy * dy == (self.y - other.y) * (self.y - other.y)) by (nonlinear_arith)
            requires dy == self.y - other.y || dy == other.y - self.y;
        (dx, dy)
    }
}

} // verus!
