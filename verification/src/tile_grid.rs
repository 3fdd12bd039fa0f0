//! The layered tile store: a flat, linearly addressed arena indexed by
//! `(x, y, z)` through a single bounds-checked index computation, where each
//! cell is either an allocated `MapTile` or unallocated (no floor or wall was
//! ever carved there).

use vstd::prelude::*;

use crate::coordinate::Coordinate;
use crate::map_tile::MapTile;
use crate::map_tile::TileColor;

verus! {

/// Glyph code for floor tiles (`.`).
pub const FLOOR_GLYPH: u16 = 46;

/// Glyph code for wall tiles (`#`).
pub const WALL_GLYPH: u16 = 35;

/// Largest supported extent per axis, so that index and line-of-sight
/// arithmetic fits comfortably in machine words.
pub const MAX_EXTENT: usize = 0x7fff_ffff;

pub struct TileGrid {
    /// Exclusive upper bound on `x`, `y` and `z`.
    pub map_size: Coordinate,
    /// Flat cell arena of length `map_size.x * map_size.y * map_size.z`.
    pub tiles: Vec<Option<MapTile>>,
}

impl TileGrid {
    pub open spec fn spec_in_bounds(self, c: Coordinate) -> bool {
        c.x < self.map_size.x && c.y < self.map_size.y && c.z < self.map_size.z
    }

    pub open spec fn flat_index(self, c: Coordinate) -> int {
        c.x + self.map_size.x * (c.y + self.map_size.y * c.z)
    }

    pub open spec fn wf(self) -> bool {
        &&& self.tiles@.len() == self.map_size.x * self.map_size.y * self.map_size.z
        &&& self.map_size.x <= MAX_EXTENT
        &&& self.map_size.y <= MAX_EXTENT
        &&& self.map_size.z <= MAX_EXTENT
    }

    /// The mathematical content of a grid: the tile (or absence of one) at
    /// every coordinate, with out-of-range coordinates holding no tile.
    pub open spec fn tile_at(self, c: Coordinate) -> Option<MapTile> {
        if self.spec_in_bounds(c) {
            self.tiles@[self.flat_index(c)]
        } else {
            None
        }
    }

    pub open spec fn spec_opaque(self, c: Coordinate) -> bool {
        match self.tile_at(c) {
            Some(t) => t.opaque,
            None => false,
        }
    }

    proof fn lemma_flat_index_bounds(self, c: Coordinate)
        requires
            self.spec_in_bounds(c),
        ensures
            0 <= self.flat_index(c),
            self.flat_index(c) < self.map_size.x * self.map_size.y * self.map_size.z,
    {
        let x = c.x as int;
        let y = c.y as int;
        let z = c.z as int;
        let sx = self.map_size.x as int;
        let sy = self.map_size.y as int;
        let sz = self.map_size.z as int;
        assert(x + sx * (y + sy * z) < sx * sy * sz) by (nonlinear_arith)
            requires
                0 <= x < sx,
                0 <= y < sy,
                0 <= z < sz,
        ;
        assert(0 <= x + sx * (y + sy * z)) by (nonlinear_arith)
            requires
                0 <= x,
                0 <= y,
                0 <= z,
                0 <= sx,
                0 <= sy,
        ;
    }

    proof fn lemma_flat_index_injective(self, c1: Coordinate, c2: Coordinate)
        requires
            self.spec_in_bounds(c1),
            self.spec_in_bounds(c2),
            c1 != c2,
        ensures
            self.flat_index(c1) != self.flat_index(c2),
    {
        let x1 = c1.x as int;
        let y1 = c1.y as int;
        let z1 = c1.z as int;
        let x2 = c2.x as int;
        let y2 = c2.y as int;
        let z2 = c2.z as int;
        let sx = self.map_size.x as int;
        let sy = self.map_size.y as int;
        assert(x1 + sx * (y1 + sy * z1) != x2 + sx * (y2 + sy * z2)) by (nonlinear_arith)
            requires
                0 <= x1 < sx,
                0 <= x2 < sx,
                0 <= y1 < sy,
                0 <= y2 < sy,
                0 <= z1,
                0 <= z2,
                x1 != x2 || y1 != y2 || z1 != z2,
        ;
    }

    fn index_of(&self, c: Coordinate) -> (i: usize)
        requires
            self.wf(),
            self.spec_in_bounds(c),
        ensures
            i == self.flat_index(c),
            i < self.tiles@.len(),
    {
        proof {
            self.lemma_flat_index_bounds(c);
            let y = c.y as int;
            let z = c.z as int;
            let sy = self.map_size.y as int;
            let sz = self.map_size.z as int;
            assert(vstd::std_specs::vec::spec_vec_len(&self.tiles) == self.tiles@.len());
            assert(y + sy * z < sy * sz) by (nonlinear_arith)
                requires
                    0 <= y < sy,
                    0 <= z < sz,
            ;
            assert(0 <= sy * z) by (nonlinear_arith)
                requires
                    0 <= sy,
                    0 <= z,
            ;
            assert(self.map_size.y * self.map_size.z
                <= self.map_size.x * self.map_size.y * self.map_size.z) by (nonlinear_arith)
                requires
                    1 <= self.map_size.x,
                    0 <= self.map_size.y,
                    0 <= self.map_size.z,
            ;
            assert(0 <= self.map_size.x * (y + sy * z)) by (nonlinear_arith)
                requires
                    0 <= self.map_size.x,
                    0 <= y + sy * z,
            ;
        }
        c.x + self.map_size.x * (c.y + self.map_size.y * c.z)
    }

    /// Bounds-checked read: `None` both for out-of-range coordinates and for
    /// in-range but unallocated cells.
    pub fn get(&self, coordinate: Coordinate) -> (t: Option<MapTile>)
        requires
            self.wf(),
        ensures
            t == self.tile_at(coordinate),
    {
        if coordinate.x < self.map_size.x && coordinate.y < self.map_size.y
            && coordinate.z < self.map_size.z {
            let i = self.index_of(coordinate);
            self.tiles[i]
        } else {
            None
        }
    }

    /// Bounds-checked write: allocates or replaces the cell at `coordinate`;
    /// a no-op when the coordinate is out of range.
    pub fn set_tile(&mut self, coordinate: Coordinate, map_tile: MapTile)
        requires
            old(self).wf(),
        ensures
            final(self).wf(),
            final(self).map_size == old(self).map_size,
            forall|c: Coordinate| #[trigger] final(self).tile_at(c) == (
                if c == coordinate && old(self).spec_in_bounds(c) {
                    Some(map_tile)
                } else {
                    old(self).tile_at(c)
                }
            ),
    {
        if coordinate.x < self.map_size.x && coordinate.y < self.map_size.y
            && coordinate.z < self.map_size.z {
            let i = self.index_of(coordinate);
            self.tiles[i] = Some(map_tile);
            proof {
                assert forall|c: Coordinate| #[trigger] self.tile_at(c) == (
                    if c == coordinate && old(self).spec_in_bounds(c) {
                        Some(map_tile)
                    } else {
                        old(self).tile_at(c)
                    }
                ) by {
                    if self.spec_in_bounds(c) {
                        old(self).lemma_flat_index_bounds(c);
                        if c != coordinate {
                            old(self).lemma_flat_index_injective(c, coordinate);
                        }
                    }
                }
            }
        }
    }
}

/// The tile with its `visible` flag replaced, when there is one.
pub open spec fn with_visible(t: Option<MapTile>, visible: bool) -> Option<MapTile> {
    match t {
        Some(t) => Some(MapTile { visible, ..t }),
        None => None,
    }
}

/// The tile with its `revealed` flag replaced, when there is one.
pub open spec fn with_revealed(t: Option<MapTile>, revealed: bool) -> Option<MapTile> {
    match t {
        Some(t) => Some(MapTile { revealed, ..t }),
        None => None,
    }
}

impl TileGrid {
    /// Bounds-checked flag mutation: sets `visible` on the tile at
    /// `coordinate`; a no-op when the coordinate is out of range or the cell
    /// is unallocated.
    pub fn set_tile_visibility(&mut self, coordinate: Coordinate, visible: bool)
        requires
            old(self).wf(),
        ensures
            final(self).wf(),
            final(self).map_size == old(self).map_size,
            forall|c: Coordinate| #[trigger] final(self).tile_at(c) == (
                if c == coordinate {
                    with_visible(old(self).tile_at(c), visible)
                } else {
                    old(self).tile_at(c)
                }
            ),
    {
        match self.get(coordinate) {
            Some(tile) => {
                let updated = MapTile { visible, ..tile };
                self.set_tile(coordinate, updated);
            }
            None => {}
        }
    }

    /// Bounds-checked flag mutation: sets `revealed` on the tile at
    /// `coordinate`; a no-op when the coordinate is out of range or the cell
    /// is unallocated.
    pub fn set_tile_revealed(&mut self, coordinate: Coordinate, revealed: bool)
        requires
            old(self).wf(),
        ensures
            final(self).wf(),
            final(self).map_size == old(self).map_size,
            forall|c: Coordinate| #[trigger] final(self).tile_at(c) == (
                if c == coordinate {
                    with_revealed(old(self).tile_at(c), revealed)
                } else {
                    old(self).tile_at(c)
                }
            ),
    {
        match self.get(coordinate) {
            Some(tile) => {
                let updated = MapTile { revealed, ..tile };
                self.set_tile(coordinate, updated);
            }
            None => {}
        }
    }

    /// Clears the `visible` flag of every allocated tile on floor `z`, over
    /// the full `x`/`y` extent of the grid. `revealed` flags are untouched.
    #[verifier::loop_isolation(false)]
    pub fn reset_visibility(&mut self, z: usize)
        requires
            old(self).wf(),
        ensures
            final(self).wf(),
            final(self).map_size == old(self).map_size,
            forall|c: Coordinate| #[trigger] final(self).tile_at(c) == (
                if c.z == z {
                    with_visible(old(self).tile_at(c), false)
                } else {
                    old(self).tile_at(c)
                }
            ),
    {
        let ghost g0 = *self;
        let mut x: usize = 0;
        while x < self.map_size.x
            invariant
                self.wf(),
                self.map_size == g0.map_size,
                x <= self.map_size.x,
                forall|c: Coordinate| #[trigger] self.tile_at(c) == (
                    if c.z == z && c.x < x {
                        with_visible(g0.tile_at(c), false)
                    } else {
                        g0.tile_at(c)
                    }
                ),
            decreases self.map_size.x - x,
        {
            let mut y: usize = 0;
            while y < self.map_size.y
                invariant
                    self.wf(),
                    self.map_size == g0.map_size,
                    y <= self.map_size.y,
                    forall|c: Coordinate| #[trigger] self.tile_at(c) == (
                        if c.z == z && (c.x < x || (c.x == x && c.y < y)) {
                            with_visible(g0.tile_at(c), false)
                        } else {
                            g0.tile_at(c)
                        }
                    ),
                decreases self.map_size.y - y,
            {
                self.set_tile_visibility(Coordinate { x, y, z }, false);
                y = y + 1;
            }
            x = x + 1;
        }
    }

    /// True when the tile at `coordinate` blocks line of sight; out-of-range
    /// and unallocated cells do not block.
    pub fn is_opaque(&self, coordinate: Coordinate) -> (r: bool)
        requires
            self.wf(),
        ensures
            r == self.spec_opaque(coordinate),
    {
        match self.get(coordinate) {
            Some(tile) => tile.opaque,
            None => false,
        }
    }

    /// The exclusive upper bounds of the grid.
    pub fn dimensions(&self) -> (d: Coordinate)
        ensures
            d == self.map_size,
    {
        self.map_size
    }
}

/// Converts a row-major per-floor index (`idx == y * width + x`) back to a
/// coordinate on floor `0`.
pub fn idx_to_cartisian(idx: usize, map_size: Coordinate) -> (c: Coordinate)
    requires
        map_size.x > 0,
    ensures
        c.x == idx % map_size.x,
        c.y == idx / map_size.x,
        c.z == 0,
{
    let mut coordinate = Coordinate::new(0, 0, 0);
    coordinate.x = idx % map_size.x;
    coordinate.y = idx / map_size.x;
    coordinate
}

/// The impassable, opaque tile placed as a wall.
pub open spec fn wall_tile() -> MapTile {
    MapTile {
        glyph: WALL_GLYPH,
        foreground_color: TileColor { r: 128, g: 128, b: 204 },
        background_color: TileColor { r: 0, g: 0, b: 0 },
        passable: false,
        opaque: true,
        visible: false,
        revealed: false,
    }
}

/// The passable, transparent tile carved as floor.
pub open spec fn floor_tile() -> MapTile {
    MapTile {
        glyph: FLOOR_GLYPH,
        foreground_color: TileColor { r: 76, g: 76, b: 76 },
        background_color: TileColor { r: 0, g: 0, b: 0 },
        passable: true,
        opaque: false,
        visible: false,
        revealed: false,
    }
}

/// Builds a wall tile.
pub fn make_wall_tile() -> (t: MapTile)
    ensures
        t == wall_tile(),
{
    MapTile::new(WALL_GLYPH, TileColor { r: 128, g: 128, b: 204 }, TileColor { r: 0, g: 0, b: 0 }, false, true, false, false)
}

/// Builds a floor tile.
pub fn make_floor_tile() -> (t: MapTile)
    ensures
        t == floor_tile(),
{
    MapTile::new(FLOOR_GLYPH, TileColor { r: 76, g: 76, b: 76 }, TileColor { r: 0, g: 0, b: 0 }, true, false, false, false)
}

/// The tile a solid-boundary grid holds at `c`: wall on the `x`/`y` border of
/// each floor, floor everywhere inside.
pub open spec fn boundary_tile(map_size: Coordinate, c: Coordinate) -> MapTile {
    if c.x == 0 || c.y == 0 || c.x == map_size.x - 1 || c.y == map_size.y - 1 {
        wall_tile()
    } else {
        floor_tile()
    }
}

impl TileGrid {
    /// A grid of the given size with every cell unallocated.
    pub fn empty(map_size: Coordinate) -> (grid: TileGrid)
        requires
            map_size.x * map_size.y * map_size.z <= usize::MAX,
            map_size.x <= MAX_EXTENT,
            map_size.y <= MAX_EXTENT,
            map_size.z <= MAX_EXTENT,
        ensures
            grid.wf(),
            grid.map_size == map_size,
            forall|c: Coordinate| #[trigger] grid.tile_at(c) == None::<MapTile>,
    {
        let total: usize = if map_size.x == 0 || map_size.y == 0 || map_size.z == 0 {
            0
        } else {
            proof {
                assert(map_size.x * map_size.y <= map_size.x * map_size.y * map_size.z)
                    by (nonlinear_arith)
                    requires
                        1 <= map_size.z,
                        0 <= map_size.x * map_size.y,
                ;
            }
            map_size.x * map_size.y * map_size.z
        };
        let mut tiles: Vec<Option<MapTile>> = Vec::new();
        let mut i: usize = 0;
        while i < total
            invariant
                i <= total,
                tiles@.len() == i,
                forall|j: int| 0 <= j < i ==> tiles@[j] == None::<MapTile>,
            decreases total - i,
        {
            tiles.push(None);
            i = i + 1;
        }
        let grid = TileGrid { map_size, tiles };
        proof {
            if map_size.x == 0 || map_size.y == 0 || map_size.z == 0 {
                assert(map_size.x * map_size.y * map_size.z == 0) by (nonlinear_arith)
                    requires
                        map_size.x == 0 || map_size.y == 0 || map_size.z == 0,
                ;
            }
            assert forall|c: Coordinate| #[trigger] grid.tile_at(c) == None::<MapTile> by {
                if grid.spec_in_bounds(c) {
                    grid.lemma_flat_index_bounds(c);
                }
            }
        }
        grid
    }

    /// A grid with solid boundaries: every cell allocated, walls along the
    /// `x`/`y` border of each floor and floor tiles inside.
    #[verifier::loop_isolation(false)]
    pub fn new(map_size: Coordinate) -> (grid: TileGrid)
        requires
            map_size.x * map_size.y * map_size.z <= usize::MAX,
            map_size.x <= MAX_EXTENT,
            map_size.y <= MAX_EXTENT,
            map_size.z <= MAX_EXTENT,
        ensures
            grid.wf(),
            grid.map_size == map_size,
            forall|c: Coordinate| #[trigger] grid.tile_at(c) == (
                if grid.spec_in_bounds(c) {
                    Some(boundary_tile(map_size, c))
                } else {
                    None::<MapTile>
                }
            ),
    {
        let mut grid = TileGrid::empty(map_size);
        let mut x: usize = 0;
        while x < map_size.x
            invariant
                grid.wf(),
                grid.map_size == map_size,
                x <= map_size.x,
                forall|c: Coordinate| #[trigger] grid.tile_at(c) == (
                    if grid.spec_in_bounds(c) && c.x < x {
                        Some(boundary_tile(map_size, c))
                    } else {
                        None::<MapTile>
                    }
                ),
            decreases map_size.x - x,
        {
            let mut y: usize = 0;
            while y < map_size.y
                invariant
                    grid.wf(),
                    grid.map_size == map_size,
                    y <= map_size.y,
                    forall|c: Coordinate| #[trigger] grid.tile_at(c) == (
                        if grid.spec_in_bounds(c) && (c.x < x || (c.x == x && c.y < y)) {
                            Some(boundary_tile(map_size, c))
                        } else {
                            None::<MapTile>
                        }
                    ),
                decreases map_size.y - y,
            {
                let mut z: usize = 0;
                while z < map_size.z
                    invariant
                        grid.wf(),
                        grid.map_size == map_size,
                        z <= map_size.z,
                        forall|c: Coordinate| #[trigger] grid.tile_at(c) == (
                            if grid.spec_in_bounds(c)
                                && (c.x < x || (c.x == x && (c.y < y || (c.y == y && c.z < z)))) {
                                Some(boundary_tile(map_size, c))
                            } else {
                                None::<MapTile>
                            }
                        ),
                    decreases map_size.z - z,
                {
                    let tile = if x == 0 || y == 0 || x == map_size.x - 1 || y == map_size.y - 1 {
                        make_wall_tile()
                    } else {
                        make_floor_tile()
                    };
                    grid.set_tile(Coordinate { x, y, z }, tile);
                    z = z + 1;
                }
                y = y + 1;
            }
            x = x + 1;
        }
        grid
    }
}

} // verus!
