//! Grid positions.

use vstd::prelude::*;
use crate::rect::Rect;

verus! {

/// `a + b`, held at `usize::MAX` where the sum would pass it.
pub open spec fn saturating_sum(a: usize, b: usize) -> usize {
    if a + b > usize::MAX {
        usize::MAX
    } else {
        (a + b) as usize
    }
}

/// A position on a character grid, or the width and height of a region of it.
/// `x` counts columns and `y` rows, both from zero.
#[derive(Copy, Clone, Debug)]
pub struct Coord {
    pub x: usize,
    pub y: usize,
}

impl Coord {
    /// The position `x` columns to the right, held at `usize::MAX`.
    pub open spec fn spec_add_x(self, x: usize) -> Coord {
        Coord { x: saturating_sum(self.x, x), y: self.y }
    }

    /// The position `y` rows down, held at `usize::MAX`.
    pub open spec fn spec_add_y(self, y: usize) -> Coord {
        Coord { x: self.x, y: saturating_sum(self.y, y) }
    }

    /// The sum of two positions, axis by axis, each axis saturating.
    pub open spec fn plus(self, other: Coord) -> Coord {
        Coord { x: saturating_sum(self.x, other.x), y: saturating_sum(self.y, other.y) }
    }

    /// Half of each axis, rounded down.
    pub open spec fn spec_center(self) -> Coord {
        Coord { x: self.x / 2, y: self.y / 2 }
    }

    /// Whether both axes lie strictly below those of `other`.
    pub open spec fn spec_is_inside_dimensions(self, other: Coord) -> bool {
        self.y < other.y && self.x < other.x
    }

    /// Whether the position lies within the size of `other`, whatever the
    /// offset of `other`.
    pub open spec fn spec_is_inside(self, other: Rect) -> bool {
        self.spec_is_inside_dimensions(other.dimensions)
    }

    /// Moves the position `x` columns to the right, stopping at `usize::MAX`.
    #[verifier::when_used_as_spec(spec_add_x)]
    pub fn add_x(self, x: usize) -> (r: Coord)
        ensures
            r == self.spec_add_x(x),
    {
        Coord { x: self.x.saturating_add(x), y: self.y }
    }

    /// Moves the position `y` rows down, stopping at `usize::MAX`.
    #[verifier::when_used_as_spec(spec_add_y)]
    pub fn add_y(self, y: usize) -> (r: Coord)
        ensures
            r == self.spec_add_y(y),
    {
        Coord { x: self.x, y: self.y.saturating_add(y) }
    }

    /// Half of each axis, rounded down.
    #[verifier::when_used_as_spec(spec_center)]
    pub fn center(self) -> (r: Coord)
        ensures
            r == self.spec_center(),
    {
        Coord { x: self.x / 2, y: self.y / 2 }
    }

    /// Whether the position lies on a grid of size `other`: both axes strictly
    /// below the size.
    #[verifier::when_used_as_spec(spec_is_inside_dimensions)]
    pub fn is_inside_dimensions(self, other: Coord) -> (b: bool)
        ensures
            b == self.spec_is_inside_dimensions(other),
    {
        self.y < other.y && self.x < other.x
    }

    /// Whether the position, taken relative to the origin of `other`, lies
    /// within the size of `other`. The offset of `other` plays no part.
    #[verifier::when_used_as_spec(spec_is_inside)]
    pub fn is_inside(self, other: Rect) -> (b: bool)
        ensures
            b == self.spec_is_inside(other),
    {
        self.is_inside_dimensions(other.dimensions)
    }
}

impl core::ops::Add<Coord> for Coord {
    type Output = Coord;

    /// Adds axis by axis; each axis saturates.
    fn add(self, other: Coord) -> (r: Coord)
        ensures
            r == self.plus(other),
    {
        Coord { x: self.x.saturating_add(other.x), y: self.y.saturating_add(other.y) }
    }
}

impl vstd::std_specs::ops::AddSpecImpl<Coord> for Coord {
    open spec fn obeys_add_spec() -> bool {
        true
    }

    open spec fn add_req(self, rhs: Coord) -> bool {
        true
    }

    open spec fn add_spec(self, rhs: Coord) -> Coord {
        self.plus(rhs)
    }
}

} // verus!
