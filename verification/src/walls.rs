//! Wall derivation: probing the neighbors of passable tiles and placing an
//! impassable, opaque wall on every probed cell that holds no tile, so that
//! carved rooms and corridors come out enclosed.
//!
//! The probe set is the full eight-tile neighborhood (orthogonal and
//! diagonal), guarded so that offsets below zero are skipped.

use vstd::prelude::*;

use crate::coordinate::Coordinate;
use crate::map_tile::MapTile;
use crate::tile_grid::TileGrid;
use crate::tile_grid::make_wall_tile;
use crate::tile_grid::wall_tile;

verus! {

/// The probed neighbor coordinates of `c`, in probe order: the eight
/// surrounding cells on the same floor, omitting offsets that would go below
/// zero in `x` or `y`.
pub open spec fn neighbor_coords(c: Coordinate) -> Seq<Coordinate> {
    let nw = if c.x > 0 && c.y > 0 {
        seq![Coordinate { x: (c.x - 1) as usize, y: (c.y - 1) as usize, z: c.z }]
    } else {
        Seq::<Coordinate>::empty()
    };
    let n = if c.y > 0 {
        seq![Coordinate { x: c.x, y: (c.y - 1) as usize, z: c.z }]
    } else {
        Seq::<Coordinate>::empty()
    };
    let ne = if c.y > 0 {
        seq![Coordinate { x: (c.x + 1) as usize, y: (c.y - 1) as usize, z: c.z }]
    } else {
        Seq::<Coordinate>::empty()
    };
    let w = if c.x > 0 {
        seq![Coordinate { x: (c.x - 1) as usize, y: c.y, z: c.z }]
    } else {
        Seq::<Coordinate>::empty()
    };
    let e = seq![Coordinate { x: (c.x + 1) as usize, y: c.y, z: c.z }];
    let sw = if c.x > 0 {
        seq![Coordinate { x: (c.x - 1) as usize, y: (c.y + 1) as usize, z: c.z }]
    } else {
        Seq::<Coordinate>::empty()
    };
    let s = seq![Coordinate { x: c.x, y: (c.y + 1) as usize, z: c.z }];
    let se = seq![Coordinate { x: (c.x + 1) as usize, y: (c.y + 1) as usize, z: c.z }];
    nw + n + ne + w + e + sw + s + se
}

/// The probed neighbors of `target_tile`, as the tiles found there (in probe
/// order) paired with the probed coordinates.
pub fn get_tile_neighbors(target_tile: Coordinate, map: &TileGrid) -> (r: (
    Vec<Option<MapTile>>,
    Vec<Coordinate>,
))
    requires
        map.wf(),
        map.spec_in_bounds(target_tile),
    ensures
        r.1@ == neighbor_coords(target_tile),
        r.0@.len() == r.1@.len(),
        forall|i: int| 0 <= i < r.1@.len() ==> r.0@[i] == map.tile_at(#[trigger] r.1@[i]),
{
    let mut neighbors: Vec<Option<MapTile>> = Vec::new();
    let mut coordinates: Vec<Coordinate> = Vec::new();

    if target_tile.x > 0 && target_tile.y > 0 {
        let c = Coordinate::new(target_tile.x - 1, target_tile.y - 1, target_tile.z);
        coordinates.push(c);
        neighbors.push(map.get(c));
    }
    if target_tile.y > 0 {
        let c = Coordinate::new(target_tile.x, target_tile.y - 1, target_tile.z);
        coordinates.push(c);
        neighbors.push(map.get(c));
        let c = Coordinate::new(target_tile.x + 1, target_tile.y - 1, target_tile.z);
        coordinates.push(c);
        neighbors.push(map.get(c));
    }
    if target_tile.x > 0 {
        let c = Coordinate::new(target_tile.x - 1, target_tile.y, target_tile.z);
        coordinates.push(c);
        neighbors.push(map.get(c));
    }
    let c = Coordinate::new(target_tile.x + 1, target_tile.y, target_tile.z);
    coordinates.push(c);
    neighbors.push(map.get(c));
    if target_tile.x > 0 {
        let c = Coordinate::new(target_tile.x - 1, target_tile.y + 1, target_tile.z);
        coordinates.push(c);
        neighbors.push(map.get(c));
    }
    let c = Coordinate::new(target_tile.x, target_tile.y + 1, target_tile.z);
    coordinates.push(c);
    neighbors.push(map.get(c));
    let c = Coordinate::new(target_tile.x + 1, target_tile.y + 1, target_tile.z);
    coordinates.push(c);
    neighbors.push(map.get(c));

    proof {
        assert(coordinates@ =~= neighbor_coords(target_tile));
    }
    (neighbors, coordinates)
}

/// True when the grid holds a passable tile at `c`.
pub open spec fn passable_at(grid: TileGrid, c: Coordinate) -> bool {
    match grid.tile_at(c) {
        Some(t) => t.passable,
        None => false,
    }
}

/// Derives enclosing walls, in place: every probed neighbor of a passable
/// tile that held no tile is given an impassable, opaque wall tile. Probes
/// that fall outside the grid are skipped; tiles that already exist are never
/// replaced, so passability is unchanged.
#[verifier::loop_isolation(false)]
pub fn add_walls(map: &mut TileGrid)
    requires
        old(map).wf(),
    ensures
        final(map).wf(),
        final(map).map_size == old(map).map_size,
        forall|c: Coordinate| old(map).tile_at(c) is Some
            ==> #[trigger] final(map).tile_at(c) == old(map).tile_at(c),
        forall|c: Coordinate| old(map).tile_at(c) is None
            ==> #[trigger] final(map).tile_at(c) == None::<MapTile>
                || final(map).tile_at(c) == Some(wall_tile()),
        forall|c: Coordinate, j: int|
            passable_at(*old(map), c) && 0 <= j < neighbor_coords(c).len()
                && final(map).spec_in_bounds(#[trigger] neighbor_coords(c)[j])
            ==> final(map).tile_at(neighbor_coords(c)[j]) is Some,
{
    let ghost g0 = *map;
    let ghost sx = map.map_size.x;
    let ghost sy = map.map_size.y;
    let ghost sz = map.map_size.z;
    let mut x: usize = 0;
    while x < map.map_size.x
        invariant
            map.wf(),
            map.map_size == g0.map_size,
            x <= sx,
            forall|c: Coordinate| g0.tile_at(c) is Some
                ==> #[trigger] map.tile_at(c) == g0.tile_at(c),
            forall|c: Coordinate| g0.tile_at(c) is None
                ==> #[trigger] map.tile_at(c) == None::<MapTile>
                    || map.tile_at(c) == Some(wall_tile()),
            forall|c: Coordinate, j: int|
                passable_at(g0, c) && c.x < x && 0 <= j < neighbor_coords(c).len()
                    && map.spec_in_bounds(#[trigger] neighbor_coords(c)[j])
                ==> map.tile_at(neighbor_coords(c)[j]) is Some,
        decreases sx - x,
    {
        let mut y: usize = 0;
        while y < map.map_size.y
            invariant
                map.wf(),
                map.map_size == g0.map_size,
                y <= sy,
                forall|c: Coordinate| g0.tile_at(c) is Some
                    ==> #[trigger] map.tile_at(c) == g0.tile_at(c),
                forall|c: Coordinate| g0.tile_at(c) is None
                    ==> #[trigger] map.tile_at(c) == None::<MapTile>
                        || map.tile_at(c) == Some(wall_tile()),
                forall|c: Coordinate, j: int|
                    passable_at(g0, c) && (c.x < x || (c.x == x && c.y < y))
                        && 0 <= j < neighbor_coords(c).len()
                        && map.spec_in_bounds(#[trigger] neighbor_coords(c)[j])
                    ==> map.tile_at(neighbor_coords(c)[j]) is Some,
            decreases sy - y,
        {
            let mut z: usize = 0;
            while z < map.map_size.z
                invariant
                    map.wf(),
                    map.map_size == g0.map_size,
                    z <= sz,
                    forall|c: Coordinate| g0.tile_at(c) is Some
                        ==> #[trigger] map.tile_at(c) == g0.tile_at(c),
                    forall|c: Coordinate| g0.tile_at(c) is None
                        ==> #[trigger] map.tile_at(c) == None::<MapTile>
                            || map.tile_at(c) == Some(wall_tile()),
                    forall|c: Coordinate, j: int|
                        passable_at(g0, c)
                            && (c.x < x || (c.x == x && (c.y < y || (c.y == y && c.z < z))))
                            && 0 <= j < neighbor_coords(c).len()
                            && map.spec_in_bounds(#[trigger] neighbor_coords(c)[j])
                        ==> map.tile_at(neighbor_coords(c)[j]) is Some,
                decreases sz - z,
            {
                let cell = Coordinate { x, y, z };
                let here = map.get(cell);
                let probe = match here {
                    Some(tile) => tile.passable,
                    None => false,
                };
                if probe {
                    let (neighbors, coordinates) = get_tile_neighbors(cell, map);
                    let ghost gc = *map;
                    let mut i: usize = 0;
                    while i < coordinates.len()
                        invariant
                            map.wf(),
                            map.map_size == g0.map_size,
                            i <= coordinates@.len(),
                            coordinates@ == neighbor_coords(cell),
                            neighbors@.len() == coordinates@.len(),
                            forall|c: Coordinate| g0.tile_at(c) is Some
                                ==> #[trigger] map.tile_at(c) == g0.tile_at(c),
                            forall|c: Coordinate| g0.tile_at(c) is None
                                ==> #[trigger] map.tile_at(c) == None::<MapTile>
                                    || map.tile_at(c) == Some(wall_tile()),
                            forall|c: Coordinate, j: int|
                                passable_at(g0, c)
                                    && (c.x < x || (c.x == x && (c.y < y || (c.y == y && c.z < z))))
                                    && 0 <= j < neighbor_coords(c).len()
                                    && map.spec_in_bounds(#[trigger] neighbor_coords(c)[j])
                                ==> map.tile_at(neighbor_coords(c)[j]) is Some,
                            forall|j: int| 0 <= j < coordinates@.len()
                                && neighbors@[j] is None
                                ==> g0.tile_at(#[trigger] coordinates@[j]) is None,
                            forall|j: int| 0 <= j < coordinates@.len()
                                && neighbors@[j] is Some
                                ==> map.tile_at(#[trigger] coordinates@[j]) is Some,
                            forall|j: int| 0 <= j < i
                                && map.spec_in_bounds(#[trigger] coordinates@[j])
                                ==> map.tile_at(coordinates@[j]) is Some,
                        decreases coordinates@.len() - i,
                    {
                        let neighbor = neighbors[i];
                        let coordinate = coordinates[i];
                        match neighbor {
                            None => {
                                map.set_tile(coordinate, make_wall_tile());
                            }
                            _ => {}
                        }
                        i = i + 1;
                    }
                }
                z = z + 1;
            }
            y = y + 1;
        }
        x = x + 1;
    }
}

} // verus!
