//! Axis-aligned room footprints on a single floor.

use vstd::prelude::*;

use crate::coordinate::Coordinate;

verus! {

/// A room footprint: the axis-aligned box between two corners, on the floor
/// of `corner_one`.
#[derive(Clone, Copy, Debug, PartialEq, Eq, Structural)]
pub struct Rectangle {
    pub corner_one: Coordinate,
    pub corner_two: Coordinate,
}

/// Inclusive axis-aligned bounding-box overlap on the `x`/`y` plane.
pub open spec fn rects_intersect(a: Rectangle, b: Rectangle) -> bool {
    a.corner_one.x <= b.corner_two.x && a.corner_two.x >= b.corner_one.x
        && a.corner_one.y <= b.corner_two.y && a.corner_two.y >= b.corner_one.y
}

/// The midpoint of a rectangle, by integer division, on `corner_one`'s floor.
pub open spec fn rect_center(r: Rectangle) -> Coordinate {
    Coordinate {
        x: ((r.corner_one.x + r.corner_two.x) / 2) as usize,
        y: ((r.corner_one.y + r.corner_two.y) / 2) as usize,
        z: r.corner_one.z,
    }
}

impl Rectangle {
    pub fn new(corner_one: Coordinate, corner_two: Coordinate) -> (r: Rectangle)
        ensures
            r == (Rectangle { corner_one, corner_two }),
    {
        Rectangle { corner_one, corner_two }
    }

    /// Inclusive bounding-box overlap test against another room.
    pub fn intersect(&self, other: &Rectangle) -> (r: bool)
        ensures
            r == rects_intersect(*self, *other),
    {
        self.corner_one.x <= other.corner_two.x && self.corner_two.x >= other.corner_one.x
            && self.corner_one.y <= other.corner_two.y && self.corner_two.y >= other.corner_one.y
    }

    /// The midpoint, with integer division flooring and the floor index taken
    /// from `corner_one`.
    pub fn center(&self) -> (c: Coordinate)
        requires
            self.corner_one.x + self.corner_two.x <= usize::MAX,
            self.corner_one.y + self.corner_two.y <= usize::MAX,
        ensures
            c == rect_center(*self),
    {
        Coordinate {
            x: (self.corner_one.x + self.corner_two.x) / 2,
            y: (self.corner_one.y + self.corner_two.y) / 2,
            z: self.corner_one.z,
        }
    }
}

} // verus!
