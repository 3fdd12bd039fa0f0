//! Grid positions: `(x, y, z)` with `z` selecting an independent floor.

use vstd::prelude::*;

verus! {

/// The smaller of two mathematical integers.
pub open spec fn imin(a: int, b: int) -> int {
    if a <= b {
        a
    } else {
        b
    }
}

/// The larger of two mathematical integers.
pub open spec fn imax(a: int, b: int) -> int {
    if a <= b {
        b
    } else {
        a
    }
}

/// A position on the tile grid. `z` selects a floor; `x, y` index within it.
#[derive(Clone, Copy, Debug, PartialEq, Eq, Structural)]
pub struct Coordinate {
    pub x: usize,
    pub y: usize,
    pub z: usize,
}

impl Coordinate {
    pub fn new(x: usize, y: usize, z: usize) -> (c: Coordinate)
        ensures
            c == (Coordinate { x, y, z }),
    {
        Coordinate { x, y, z }
    }
}

} // verus!
