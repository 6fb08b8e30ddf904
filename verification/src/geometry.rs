//! Integer coordinates, vectors and axis-aligned boxes.
//!
//! Every length is a whole number of one fixed sub-pixel unit, so that all of
//! the simulation is exact integer arithmetic. Boxes are kept as a centre and
//! half-extents: no computation ever needs half of an odd number.

use vstd::prelude::*;

verus! {

/// The largest magnitude a coordinate, a half-extent or a velocity component
/// may have. Sums and differences of a few such values stay far inside `i64`.
pub const MAX_COORD: i64 = 1_000_000_000_000_000;

/// Whether `c` lies within the coordinate range.
pub open spec fn in_range(c: int) -> bool {
    -MAX_COORD <= c <= MAX_COORD
}

/// Absolute value of a mathematical integer.
pub open spec fn abs(v: int) -> int {
    if v < 0 {
        -v
    } else {
        v
    }
}

/// A pair of coordinates: a position, a velocity or a pair of half-extents.
#[derive(Clone, Copy, Debug, PartialEq, Eq, Structural)]
pub struct Vec2 {
    pub x: i64,
    pub y: i64,
}

impl Vec2 {
    /// Both components lie within the coordinate range.
    pub open spec fn bounded(&self) -> bool {
        in_range(self.x as int) && in_range(self.y as int)
    }

    /// Both components are strictly positive and within the coordinate range:
    /// what a pair of half-extents must be.
    pub open spec fn positive(&self) -> bool {
        0 < self.x <= MAX_COORD && 0 < self.y <= MAX_COORD
    }

    /// The vector with the given components.
    pub fn new(x: i64, y: i64) -> (v: Vec2)
        ensures
            v == (Vec2 { x, y }),
    {
        Vec2 { x, y }
    }

    /// Tests `bounded`.
    pub fn is_bounded(&self) -> (ok: bool)
        ensures
            ok == self.bounded(),
    {
        -MAX_COORD <= self.x && self.x <= MAX_COORD && -MAX_COORD <= self.y && self.y
            <= MAX_COORD
    }

    /// Tests `positive`.
    pub fn is_positive(&self) -> (ok: bool)
        ensures
            ok == self.positive(),
    {
        0 < self.x && self.x <= MAX_COORD && 0 < self.y && self.y <= MAX_COORD
    }
}

/// An axis-aligned box: its centre and its half-width and half-height.
#[derive(Clone, Copy, Debug, PartialEq, Eq, Structural)]
pub struct Aabb {
    pub center: Vec2,
    pub half: Vec2,
}

impl Aabb {
    /// The centre is within the coordinate range and both half-extents are
    /// strictly positive.
    pub open spec fn valid(&self) -> bool {
        self.center.bounded() && self.half.positive()
    }

    /// Tests `valid`.
    pub fn is_valid(&self) -> (ok: bool)
        ensures
            ok == self.valid(),
    {
        self.center.is_bounded() && self.half.is_positive()
    }
}

} // verus!
