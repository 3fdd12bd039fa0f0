//! Dungeon generation: retry-bounded randomized room placement, L-shaped
//! corridors between consecutive room centers, and a final wall-derivation
//! pass, all on floor `0`.

use vstd::prelude::*;

use crate::coordinate::Coordinate;
use crate::coordinate::imax;
use crate::coordinate::imin;
use crate::random_source::RandomSource;
use crate::rectangle::Rectangle;
use crate::rectangle::rect_center;
use crate::rectangle::rects_intersect;
use crate::tile_grid::MAX_EXTENT;
use crate::tile_grid::TileGrid;
use crate::tile_grid::floor_tile;
use crate::tile_grid::make_floor_tile;
use crate::walls::add_walls;
use crate::walls::passable_at;

verus! {

/// How many placements are attempted for one room before it is dropped.
pub const MAX_ATTEMPTS: usize = 100;

/// Generation parameters that cannot produce a valid dungeon.
#[derive(Clone, Copy, Debug, PartialEq, Eq, Structural)]
pub enum ConfigError {
    /// The room size range is empty or admits zero-sized rooms.
    InvalidSizeRange,
    /// The grid cannot fit a largest room with a one-tile margin, or has no
    /// floor at all.
    GridTooSmall,
}

/// The room size range must be non-empty and start at one tile or more.
pub open spec fn valid_room_sizes(min_room_size: usize, max_room_size: usize) -> bool {
    1 <= min_room_size <= max_room_size
}

/// The grid must fit a largest room strictly inside its interior (a one-tile
/// margin on every side) and have at least one floor.
pub open spec fn grid_fits_rooms(max_room_size: usize, map_size: Coordinate) -> bool {
    &&& max_room_size + 3 <= map_size.x
    &&& max_room_size + 3 <= map_size.y
    &&& 1 <= map_size.z
}

/// The cells strictly inside a room's rectangle: offset by one from each
/// corner, on the room's floor.
pub open spec fn in_room_interior(room: Rectangle, c: Coordinate) -> bool {
    &&& room.corner_one.x + 1 <= c.x <= room.corner_two.x
    &&& room.corner_one.y + 1 <= c.y <= room.corner_two.y
    &&& c.z == room.corner_one.z
}

/// A room placed strictly inside the grid interior on floor `0`.
pub open spec fn room_fits(room: Rectangle, map_size: Coordinate) -> bool {
    &&& 1 <= room.corner_one.x
    &&& room.corner_one.x <= room.corner_two.x
    &&& room.corner_two.x + 2 <= map_size.x
    &&& 1 <= room.corner_one.y
    &&& room.corner_one.y <= room.corner_two.y
    &&& room.corner_two.y + 2 <= map_size.y
    &&& room.corner_one.z == 0
    &&& room.corner_two.z == 0
    &&& 1 <= map_size.z
}

/// A room's side lengths lie within the sampled size range.
pub open spec fn room_size_in(room: Rectangle, min_room_size: usize, max_room_size: usize) -> bool {
    &&& min_room_size <= room.corner_two.x - room.corner_one.x <= max_room_size
    &&& min_room_size <= room.corner_two.y - room.corner_one.y <= max_room_size
}

/// Every cell strictly inside the room holds a passable tile.
pub open spec fn room_interior_floored(grid: TileGrid, room: Rectangle) -> bool {
    forall|c: Coordinate| in_room_interior(room, c) ==> #[trigger] passable_at(grid, c)
}

/// The straight run at `from`'s row, spanning the `x` interval between the
/// two coordinates inclusively, is passable.
pub open spec fn h_run_passable(grid: TileGrid, from: Coordinate, to: Coordinate) -> bool {
    forall|x: int| imin(from.x as int, to.x as int) <= x <= imax(from.x as int, to.x as int)
        ==> #[trigger] passable_at(grid, Coordinate { x: x as usize, y: from.y, z: from.z })
}

/// The straight run at `to`'s column, spanning the `y` interval between the
/// two coordinates inclusively, is passable.
pub open spec fn v_run_passable(grid: TileGrid, from: Coordinate, to: Coordinate) -> bool {
    forall|y: int| imin(from.y as int, to.y as int) <= y <= imax(from.y as int, to.y as int)
        ==> #[trigger] passable_at(grid, Coordinate { x: to.x, y: y as usize, z: from.z })
}

/// An L-shaped passable path between the two coordinates: a horizontal run on
/// `from`'s row, then a vertical run on `to`'s column.
pub open spec fn l_path_passable(grid: TileGrid, from: Coordinate, to: Coordinate) -> bool {
    h_run_passable(grid, from, to) && v_run_passable(grid, from, to)
}

/// Every passable tile of `g1` is still passable in `g2`.
pub open spec fn preserves_passable(g1: TileGrid, g2: TileGrid) -> bool {
    forall|c: Coordinate| #[trigger] passable_at(g1, c) ==> passable_at(g2, c)
}

proof fn lemma_floored_monotone(g1: TileGrid, g2: TileGrid, room: Rectangle)
    requires
        preserves_passable(g1, g2),
        room_interior_floored(g1, room),
    ensures
        room_interior_floored(g2, room),
{
    assert forall|c: Coordinate| in_room_interior(room, c)
        implies #[trigger] passable_at(g2, c) by {
        assert(passable_at(g1, c));
    }
}

proof fn lemma_l_path_monotone(g1: TileGrid, g2: TileGrid, from: Coordinate, to: Coordinate)
    requires
        preserves_passable(g1, g2),
        l_path_passable(g1, from, to),
    ensures
        l_path_passable(g2, from, to),
{
    assert forall|x: int|
        imin(from.x as int, to.x as int) <= x <= imax(from.x as int, to.x as int)
        implies #[trigger] passable_at(g2, Coordinate { x: x as usize, y: from.y, z: from.z }) by {
        assert(passable_at(g1, Coordinate { x: x as usize, y: from.y, z: from.z }));
    }
    assert forall|y: int|
        imin(from.y as int, to.y as int) <= y <= imax(from.y as int, to.y as int)
        implies #[trigger] passable_at(g2, Coordinate { x: to.x, y: y as usize, z: from.z }) by {
        assert(passable_at(g1, Coordinate { x: to.x, y: y as usize, z: from.z }));
    }
}

/// Carves the cells strictly inside the rectangle as passable floor.
#[verifier::loop_isolation(false)]
fn add_room_to_map(room: &Rectangle, grid: &mut TileGrid)
    requires
        old(grid).wf(),
        room_fits(*room, old(grid).map_size),
    ensures
        final(grid).wf(),
        final(grid).map_size == old(grid).map_size,
        forall|c: Coordinate| #[trigger] final(grid).tile_at(c) == (
            if in_room_interior(*room, c) {
                Some(floor_tile())
            } else {
                old(grid).tile_at(c)
            }
        ),
{
    let ghost g0 = *grid;
    let mut cx: usize = room.corner_one.x + 1;
    while cx <= room.corner_two.x
        invariant
            grid.wf(),
            grid.map_size == g0.map_size,
            room.corner_one.x + 1 <= cx <= room.corner_two.x + 1,
            forall|c: Coordinate| #[trigger] grid.tile_at(c) == (
                if in_room_interior(*room, c) && c.x < cx {
                    Some(floor_tile())
                } else {
                    g0.tile_at(c)
                }
            ),
        decreases room.corner_two.x + 1 - cx,
    {
        let mut cy: usize = room.corner_one.y + 1;
        while cy <= room.corner_two.y
            invariant
                grid.wf(),
                grid.map_size == g0.map_size,
                room.corner_one.y + 1 <= cy <= room.corner_two.y + 1,
                cx <= room.corner_two.x,
                forall|c: Coordinate| #[trigger] grid.tile_at(c) == (
                    if in_room_interior(*room, c) && (c.x < cx || (c.x == cx && c.y < cy)) {
                        Some(floor_tile())
                    } else {
                        g0.tile_at(c)
                    }
                ),
            decreases room.corner_two.y + 1 - cy,
        {
            grid.set_tile(Coordinate { x: cx, y: cy, z: room.corner_one.z }, make_floor_tile());
            cy = cy + 1;
        }
        cx = cx + 1;
    }
}

/// Carves a straight passable run along `origin`'s row, between the two `x`
/// positions inclusively.
#[verifier::loop_isolation(false)]
fn add_horizontal_corridor(origin: Coordinate, target: Coordinate, grid: &mut TileGrid)
    requires
        old(grid).wf(),
        origin.x < old(grid).map_size.x,
        target.x < old(grid).map_size.x,
        origin.y < old(grid).map_size.y,
        origin.z < old(grid).map_size.z,
    ensures
        final(grid).wf(),
        final(grid).map_size == old(grid).map_size,
        forall|c: Coordinate| #[trigger] final(grid).tile_at(c) == (
            if c.y == origin.y && c.z == origin.z
                && imin(origin.x as int, target.x as int) <= c.x
                && c.x <= imax(origin.x as int, target.x as int) {
                Some(floor_tile())
            } else {
                old(grid).tile_at(c)
            }
        ),
{
    let ghost g0 = *grid;
    let lo = if origin.x <= target.x { origin.x } else { target.x };
    let hi = if origin.x <= target.x { target.x } else { origin.x };
    let mut cx: usize = lo;
    while cx <= hi
        invariant
            grid.wf(),
            grid.map_size == g0.map_size,
            lo <= cx <= hi + 1,
            forall|c: Coordinate| #[trigger] grid.tile_at(c) == (
                if c.y == origin.y && c.z == origin.z && lo <= c.x && c.x < cx {
                    Some(floor_tile())
                } else {
                    g0.tile_at(c)
                }
            ),
        decreases hi + 1 - cx,
    {
        grid.set_tile(Coordinate { x: cx, y: origin.y, z: origin.z }, make_floor_tile());
        cx = cx + 1;
    }
}

/// Carves a straight passable run along `target`'s column, between the two
/// `y` positions inclusively, on `origin`'s floor.
#[verifier::loop_isolation(false)]
fn add_vertical_corridor(origin: Coordinate, target: Coordinate, grid: &mut TileGrid)
    requires
        old(grid).wf(),
        target.x < old(grid).map_size.x,
        origin.y < old(grid).map_size.y,
        target.y < old(grid).map_size.y,
        origin.z < old(grid).map_size.z,
    ensures
        final(grid).wf(),
        final(grid).map_size == old(grid).map_size,
        forall|c: Coordinate| #[trigger] final(grid).tile_at(c) == (
            if c.x == target.x && c.z == origin.z
                && imin(origin.y as int, target.y as int) <= c.y
                && c.y <= imax(origin.y as int, target.y as int) {
                Some(floor_tile())
            } else {
                old(grid).tile_at(c)
            }
        ),
{
    let ghost g0 = *grid;
    let lo = if origin.y <= target.y { origin.y } else { target.y };
    let hi = if origin.y <= target.y { target.y } else { origin.y };
    let mut cy: usize = lo;
    while cy <= hi
        invariant
            grid.wf(),
            grid.map_size == g0.map_size,
            lo <= cy <= hi + 1,
            forall|c: Coordinate| #[trigger] grid.tile_at(c) == (
                if c.x == target.x && c.z == origin.z && lo <= c.y && c.y < cy {
                    Some(floor_tile())
                } else {
                    g0.tile_at(c)
                }
            ),
        decreases hi + 1 - cy,
    {
        grid.set_tile(Coordinate { x: target.x, y: cy, z: origin.z }, make_floor_tile());
        cy = cy + 1;
    }
}

impl TileGrid {
    /// Generates a dungeon of up to `number_of_rooms` non-overlapping rooms
    /// connected by L-shaped corridors, then derives enclosing walls.
    ///
    /// Each room is attempted up to `MAX_ATTEMPTS` times with uniformly
    /// sampled size and position; a room whose placements all collide is
    /// silently dropped, so the result may hold fewer rooms than requested
    /// (but at least one whenever any were requested). Degenerate parameters
    /// are rejected up front with a configuration error.
    #[verifier::loop_isolation(false)]
    pub fn rooms_and_corridors_map(
        number_of_rooms: usize,
        min_room_size: usize,
        max_room_size: usize,
        map_size: Coordinate,
        random: &mut RandomSource,
    ) -> (r: Result<(TileGrid, Vec<Rectangle>), ConfigError>)
        requires
            map_size.x * map_size.y * map_size.z <= usize::MAX,
            map_size.x <= MAX_EXTENT,
            map_size.y <= MAX_EXTENT,
            map_size.z <= MAX_EXTENT,
        ensures
            r is Ok <==> (valid_room_sizes(min_room_size, max_room_size)
                && grid_fits_rooms(max_room_size, map_size)),
            r == Err::<(TileGrid, Vec<Rectangle>), ConfigError>(ConfigError::InvalidSizeRange)
                <==> !valid_room_sizes(min_room_size, max_room_size),
            r == Err::<(TileGrid, Vec<Rectangle>), ConfigError>(ConfigError::GridTooSmall)
                <==> (valid_room_sizes(min_room_size, max_room_size)
                    && !grid_fits_rooms(max_room_size, map_size)),
            r matches Ok(pair) ==> {
                &&& pair.0.wf()
                &&& pair.0.map_size == map_size
                &&& pair.1@.len() <= number_of_rooms
                &&& (number_of_rooms > 0 ==> pair.1@.len() >= 1)
                &&& forall|i: int| 0 <= i < pair.1@.len()
                    ==> room_fits(#[trigger] pair.1@[i], map_size)
                &&& forall|i: int| 0 <= i < pair.1@.len()
                    ==> room_size_in(#[trigger] pair.1@[i], min_room_size, max_room_size)
                &&& forall|i: int, j: int| 0 <= i < j < pair.1@.len()
                    ==> !rects_intersect(#[trigger] pair.1@[i], #[trigger] pair.1@[j])
                &&& forall|i: int| 0 <= i < pair.1@.len()
                    ==> room_interior_floored(pair.0, #[trigger] pair.1@[i])
                &&& forall|i: int| 1 <= i < pair.1@.len()
                    ==> l_path_passable(pair.0, rect_center(#[trigger] pair.1@[i]), rect_center(pair.1@[i - 1]))
            },
    {
        if min_room_size < 1 || max_room_size < min_room_size {
            return Err(ConfigError::InvalidSizeRange);
        }
        if map_size.x < 3 || map_size.x - 3 < max_room_size
            || map_size.y < 3 || map_size.y - 3 < max_room_size
            || map_size.z < 1 {
            return Err(ConfigError::GridTooSmall);
        }

        let mut grid = TileGrid::empty(map_size);
        let mut rooms: Vec<Rectangle> = Vec::new();
        let mut previous_room_center = Coordinate::new(0, 0, 0);

        let mut room_index: usize = 0;
        while room_index < number_of_rooms
            invariant
                grid.wf(),
                grid.map_size == map_size,
                room_index <= number_of_rooms,
                rooms@.len() <= room_index,
                room_index > 0 ==> rooms@.len() >= 1,
                forall|i: int| 0 <= i < rooms@.len()
                    ==> room_fits(#[trigger] rooms@[i], map_size),
                forall|i: int| 0 <= i < rooms@.len()
                    ==> room_size_in(#[trigger] rooms@[i], min_room_size, max_room_size),
                forall|i: int, j: int| 0 <= i < j < rooms@.len()
                    ==> !rects_intersect(#[trigger] rooms@[i], #[trigger] rooms@[j]),
                forall|i: int| 0 <= i < rooms@.len()
                    ==> room_interior_floored(grid, #[trigger] rooms@[i]),
                forall|i: int| 1 <= i < rooms@.len()
                    ==> l_path_passable(grid, rect_center(#[trigger] rooms@[i]), rect_center(rooms@[i - 1])),
                rooms@.len() > 0 ==> previous_room_center == rect_center(rooms@[rooms@.len() - 1]),
            decreases number_of_rooms - room_index,
        {
            let ghost entry_len = rooms@.len();
            let mut current_attempts: usize = 0;
            let mut room_placed = false;

            while !room_placed && current_attempts < MAX_ATTEMPTS
                invariant
                    grid.wf(),
                    grid.map_size == map_size,
                    current_attempts <= MAX_ATTEMPTS,
                    rooms@.len() == entry_len + (if room_placed { 1int } else { 0int }),
                    entry_len == 0 ==> current_attempts == 0,
                    forall|i: int| 0 <= i < rooms@.len()
                        ==> room_fits(#[trigger] rooms@[i], map_size),
                    forall|i: int| 0 <= i < rooms@.len()
                        ==> room_size_in(#[trigger] rooms@[i], min_room_size, max_room_size),
                    forall|i: int, j: int| 0 <= i < j < rooms@.len()
                        ==> !rects_intersect(#[trigger] rooms@[i], #[trigger] rooms@[j]),
                    forall|i: int| 0 <= i < rooms@.len()
                        ==> room_interior_floored(grid, #[trigger] rooms@[i]),
                    forall|i: int| 1 <= i < rooms@.len()
                        ==> l_path_passable(grid, rect_center(#[trigger] rooms@[i]), rect_center(rooms@[i - 1])),
                    rooms@.len() > 0 ==> previous_room_center == rect_center(rooms@[rooms@.len() - 1]),
                decreases MAX_ATTEMPTS - current_attempts + (if room_placed { 0int } else { 1int }),
            {
                let room_width = random.sample_inclusive(min_room_size, max_room_size);
                let room_height = random.sample_inclusive(min_room_size, max_room_size);

                let corner_x = random.sample_inclusive(1, map_size.x - room_width - 2);
                let corner_y = random.sample_inclusive(1, map_size.y - room_height - 2);
                let room_coordinate = Coordinate::new(corner_x, corner_y, 0);
                let room = Rectangle::new(
                    room_coordinate,
                    Coordinate::new(corner_x + room_width, corner_y + room_height, 0),
                );

                let mut room_valid = true;
                let mut k: usize = 0;
                while k < rooms.len()
                    invariant
                        k <= rooms@.len(),
                        room_valid <==> (forall|i: int| 0 <= i < k
                            ==> !rects_intersect(room, #[trigger] rooms@[i])),
                    decreases rooms@.len() - k,
                {
                    let other_room = rooms[k];
                    if room.intersect(&other_room) {
                        room_valid = false;
                    }
                    k = k + 1;
                }

                if room_valid {
                    let ghost g_before = grid;
                    add_room_to_map(&room, &mut grid);
                    proof {
                        assert(preserves_passable(g_before, grid));
                        assert forall|i: int| 0 <= i < rooms@.len()
                            implies room_interior_floored(grid, #[trigger] rooms@[i]) by {
                            lemma_floored_monotone(g_before, grid, rooms@[i]);
                        }
                        assert forall|i: int| 1 <= i < rooms@.len()
                            implies l_path_passable(grid, rect_center(#[trigger] rooms@[i]), rect_center(rooms@[i - 1])) by {
                            lemma_l_path_monotone(g_before, grid, rect_center(rooms@[i]), rect_center(rooms@[i - 1]));
                        }
                    }

                    let center = room.center();
                    if rooms.len() > 0 {
                        let ghost g_h = grid;
                        add_horizontal_corridor(center, previous_room_center, &mut grid);
                        proof {
                            assert(preserves_passable(g_h, grid));
                            assert forall|i: int| 0 <= i < rooms@.len()
                                implies room_interior_floored(grid, #[trigger] rooms@[i]) by {
                                lemma_floored_monotone(g_h, grid, rooms@[i]);
                            }
                            assert forall|i: int| 1 <= i < rooms@.len()
                                implies l_path_passable(grid, rect_center(#[trigger] rooms@[i]), rect_center(rooms@[i - 1])) by {
                                lemma_l_path_monotone(g_h, grid, rect_center(rooms@[i]), rect_center(rooms@[i - 1]));
                            }
                        }
                        let ghost g_v = grid;
                        add_vertical_corridor(center, previous_room_center, &mut grid);
                        proof {
                            assert(preserves_passable(g_v, grid));
                            assert forall|i: int| 0 <= i < rooms@.len()
                                implies room_interior_floored(grid, #[trigger] rooms@[i]) by {
                                lemma_floored_monotone(g_v, grid, rooms@[i]);
                            }
                            assert forall|i: int| 1 <= i < rooms@.len()
                                implies l_path_passable(grid, rect_center(#[trigger] rooms@[i]), rect_center(rooms@[i - 1])) by {
                                lemma_l_path_monotone(g_v, grid, rect_center(rooms@[i]), rect_center(rooms@[i - 1]));
                            }
                            let prev = previous_room_center;
                            assert forall|x: int|
                                imin(center.x as int, prev.x as int) <= x
                                    <= imax(center.x as int, prev.x as int)
                                implies #[trigger] passable_at(grid, Coordinate { x: x as usize, y: center.y, z: center.z }) by {
                                assert(passable_at(g_v, Coordinate { x: x as usize, y: center.y, z: center.z }));
                            }
                            assert forall|y: int|
                                imin(center.y as int, prev.y as int) <= y
                                    <= imax(center.y as int, prev.y as int)
                                implies #[trigger] passable_at(grid, Coordinate { x: prev.x, y: y as usize, z: center.z }) by {
                            }
                            assert(l_path_passable(grid, center, prev));
                        }
                    }
                    previous_room_center = center;
                    rooms.push(room);
                    room_placed = true;
                } else {
                    current_attempts = current_attempts + 1;
                }
            }
            room_index = room_index + 1;
        }

        let ghost g_w = grid;
        add_walls(&mut grid);
        proof {
            assert(preserves_passable(g_w, grid));
            assert forall|i: int| 0 <= i < rooms@.len()
                implies room_interior_floored(grid, #[trigger] rooms@[i]) by {
                lemma_floored_monotone(g_w, grid, rooms@[i]);
            }
            assert forall|i: int| 1 <= i < rooms@.len()
                implies l_path_passable(grid, rect_center(#[trigger] rooms@[i]), rect_center(rooms@[i - 1])) by {
                lemma_l_path_monotone(g_w, grid, rect_center(rooms@[i]), rect_center(rooms@[i - 1]));
            }
        }

        Ok((grid, rooms))
    }
}

} // verus!
