//! Movement validation: a directional move is permitted exactly when the
//! target cell holds a passable tile. A coordinate with no tile — out of
//! range, below zero, or unallocated — rejects the move.

use vstd::prelude::*;

use crate::coordinate::Coordinate;
use crate::entity_components::Viewshed;
use crate::tile_grid::TileGrid;

verus! {

/// The coordinate one step of `(delta_x, delta_y)` away from `c`, or `None`
/// when the step would go below zero on either axis.
pub open spec fn step_target(c: Coordinate, delta_x: i32, delta_y: i32) -> Option<Coordinate> {
    if c.x as int + delta_x as int >= 0 && c.y as int + delta_y as int >= 0 {
        Some(Coordinate {
            x: (c.x as int + delta_x as int) as usize,
            y: (c.y as int + delta_y as int) as usize,
            z: c.z,
        })
    } else {
        None
    }
}

/// The move from `c` by `(delta_x, delta_y)` is permitted: the target exists
/// and holds a passable tile.
pub open spec fn move_permitted(grid: TileGrid, c: Coordinate, delta_x: i32, delta_y: i32) -> bool {
    match step_target(c, delta_x, delta_y) {
        Some(target) => match grid.tile_at(target) {
            Some(t) => t.passable,
            None => false,
        },
        None => false,
    }
}

/// Attempts to move a mover by one directional command. On a permitted move
/// the coordinate advances to the target and the viewshed is marked dirty;
/// on a rejected move both are left unchanged (and `dirty` is not set).
pub fn try_move(
    grid: &TileGrid,
    coordinate: &mut Coordinate,
    viewshed: &mut Viewshed,
    delta_x: i32,
    delta_y: i32,
)
    requires
        grid.wf(),
        grid.spec_in_bounds(*old(coordinate)),
    ensures
        move_permitted(*grid, *old(coordinate), delta_x, delta_y) ==> {
            &&& Some(*final(coordinate)) == step_target(*old(coordinate), delta_x, delta_y)
            &&& *final(viewshed) == (Viewshed { dirty: true, ..*old(viewshed) })
        },
        !move_permitted(*grid, *old(coordinate), delta_x, delta_y) ==> {
            &&& *final(coordinate) == *old(coordinate)
            &&& *final(viewshed) == *old(viewshed)
        },
{
    let x64 = coordinate.x as i64;
    let y64 = coordinate.y as i64;
    let tx = x64 + delta_x as i64;
    let ty = y64 + delta_y as i64;
    if tx < 0 || ty < 0 {
        return ;
    }
    let target = Coordinate { x: tx as usize, y: ty as usize, z: coordinate.z };
    match grid.get(target) {
        Some(tile) => {
            if tile.passable {
                coordinate.x = target.x;
                coordinate.y = target.y;
                viewshed.dirty = true;
            }
        }
        None => {}
    }
}

} // verus!
