//! The visibility engine: a radius- and opacity-limited field of view.
//!
//! The distance cutoff is the Chebyshev distance on the `x`/`y` plane. Line
//! of sight follows the rounded straight ray between two cells: a tile is
//! visible when no strictly intermediate ray point holds an opaque tile.
//! Out-of-grid cells are excluded from every result.

use vstd::prelude::*;

use crate::coordinate::Coordinate;
use crate::coordinate::imax;
use crate::coordinate::imin;
use crate::entity_components::Viewshed;
use crate::map_tile::MapTile;
use crate::tile_grid::MAX_EXTENT;
use crate::tile_grid::TileGrid;
use crate::tile_grid::with_visible;

verus! {

/// Absolute difference along one axis.
pub open spec fn axis_dist(a: int, b: int) -> int {
    if a >= b {
        a - b
    } else {
        b - a
    }
}

/// Chebyshev distance on the `x`/`y` plane (the `z` floor plays no part).
pub open spec fn cheb_dist(a: Coordinate, b: Coordinate) -> int {
    imax(axis_dist(a.x as int, b.x as int), axis_dist(a.y as int, b.y as int))
}

/// One axis of the `k`-th point (of `n`) on the rounded straight ray from
/// `o` to `t`: linear interpolation with rounding to the nearest cell.
pub open spec fn ray_axis(o: int, t: int, k: int, n: int) -> int {
    if t >= o {
        o + ((t - o) * k + n / 2) / n
    } else {
        o - ((o - t) * k + n / 2) / n
    }
}

/// The `k`-th point on the rounded straight ray from `origin` to `target`,
/// where the ray has `cheb_dist(origin, target)` steps.
pub open spec fn ray_point(origin: Coordinate, target: Coordinate, k: int) -> Coordinate {
    Coordinate {
        x: ray_axis(origin.x as int, target.x as int, k, cheb_dist(origin, target)) as usize,
        y: ray_axis(origin.y as int, target.y as int, k, cheb_dist(origin, target)) as usize,
        z: origin.z,
    }
}

/// No strictly intermediate point of the ray from `origin` to `target` holds
/// an opaque tile. The target itself may be opaque: walls are seen.
pub open spec fn los_clear(grid: TileGrid, origin: Coordinate, target: Coordinate) -> bool {
    forall|k: int| 1 <= k < cheb_dist(origin, target)
        ==> !grid.spec_opaque(#[trigger] ray_point(origin, target, k))
}

/// `t` is visible from `origin` with vision radius `range`: within the
/// grid's `x`/`y` extent, on the viewer's floor, within Chebyshev distance
/// `range`, and with a clear line of sight.
pub open spec fn visible_from(grid: TileGrid, origin: Coordinate, range: usize, t: Coordinate) -> bool {
    &&& grid.spec_in_bounds(t)
    &&& t.z == origin.z
    &&& cheb_dist(origin, t) <= range
    &&& los_clear(grid, origin, t)
}

proof fn lemma_div_bound(d: int, k: int, n: int)
    requires
        0 <= d <= n,
        0 <= k <= n,
        1 <= n,
    ensures
        0 <= (d * k + n / 2) / n <= d,
{
    assert(0 <= (d * k + n / 2) / n <= d) by (nonlinear_arith)
        requires
            0 <= d <= n,
            0 <= k <= n,
            1 <= n,
    ;
}

proof fn lemma_ray_axis_bounds(o: int, t: int, k: int, n: int)
    requires
        1 <= n,
        0 <= k <= n,
        axis_dist(o, t) <= n,
    ensures
        imin(o, t) <= ray_axis(o, t, k, n) <= imax(o, t),
{
    if t >= o {
        lemma_div_bound(t - o, k, n);
    } else {
        lemma_div_bound(o - t, k, n);
    }
}

/// The Chebyshev distance between two coordinates.
pub fn cheb_dist_exec(a: Coordinate, b: Coordinate) -> (d: usize)
    ensures
        d == cheb_dist(a, b),
{
    let dx = if a.x >= b.x {
        a.x - b.x
    } else {
        b.x - a.x
    };
    let dy = if a.y >= b.y {
        a.y - b.y
    } else {
        b.y - a.y
    };
    if dx >= dy {
        dx
    } else {
        dy
    }
}

fn ray_axis_exec(o: usize, t: usize, k: usize, n: usize) -> (r: usize)
    requires
        1 <= n,
        k <= n,
        n <= MAX_EXTENT,
        o <= MAX_EXTENT,
        t <= MAX_EXTENT,
        axis_dist(o as int, t as int) <= n,
    ensures
        r == ray_axis(o as int, t as int, k as int, n as int),
{
    proof {
        lemma_ray_axis_bounds(o as int, t as int, k as int, n as int);
        if t >= o {
            lemma_div_bound(t - o, k as int, n as int);
        } else {
            lemma_div_bound(o - t, k as int, n as int);
        }
        assert((n as int) * (n as int) < 0x4000_0000_0000_0000) by (nonlinear_arith)
            requires
                0 <= n <= MAX_EXTENT,
        ;
    }
    if t >= o {
        let d = (t - o) as u64;
        proof {
            assert(d * (k as u64) <= (n as u64) * (n as u64)) by (nonlinear_arith)
                requires
                    0 <= d <= n as u64,
                    0 <= k <= n,
            ;
        }
        let q = (d * (k as u64) + (n as u64) / 2) / (n as u64);
        o + (q as usize)
    } else {
        let d = (o - t) as u64;
        proof {
            assert(d * (k as u64) <= (n as u64) * (n as u64)) by (nonlinear_arith)
                requires
                    0 <= d <= n as u64,
                    0 <= k <= n,
            ;
        }
        let q = (d * (k as u64) + (n as u64) / 2) / (n as u64);
        o - (q as usize)
    }
}

/// Walks the ray from `origin` to `target` and reports whether no strictly
/// intermediate tile blocks sight.
#[verifier::loop_isolation(false)]
fn line_of_sight_clear(grid: &TileGrid, origin: Coordinate, target: Coordinate) -> (r: bool)
    requires
        grid.wf(),
        grid.spec_in_bounds(origin),
        grid.spec_in_bounds(target),
    ensures
        r == los_clear(*grid, origin, target),
{
    let n = cheb_dist_exec(origin, target);
    if n <= 1 {
        return true;
    }
    let mut k: usize = 1;
    while k < n
        invariant
            1 <= k <= n,
            forall|j: int| 1 <= j < k
                ==> !grid.spec_opaque(#[trigger] ray_point(origin, target, j)),
        decreases n - k,
    {
        let px = ray_axis_exec(origin.x, target.x, k, n);
        let py = ray_axis_exec(origin.y, target.y, k, n);
        let p = Coordinate { x: px, y: py, z: origin.z };
        proof {
            lemma_ray_axis_bounds(origin.x as int, target.x as int, k as int, n as int);
            lemma_ray_axis_bounds(origin.y as int, target.y as int, k as int, n as int);
            assert(p == ray_point(origin, target, k as int));
        }
        if grid.is_opaque(p) {
            return false;
        }
        k = k + 1;
    }
    true
}

/// The set of coordinates visible from `origin` up to Chebyshev distance
/// `range`, clipped to the grid's `x`/`y` extent, on `origin`'s floor.
#[verifier::loop_isolation(false)]
pub fn field_of_view(grid: &TileGrid, origin: Coordinate, range: usize) -> (result: Vec<
    Coordinate,
>)
    requires
        grid.wf(),
        grid.spec_in_bounds(origin),
    ensures
        forall|t: Coordinate| result@.contains(t) <==> visible_from(*grid, origin, range, t),
        forall|i: int| 0 <= i < result@.len() ==> {
            &&& grid.spec_in_bounds(#[trigger] result@[i])
            &&& result@[i].z == origin.z
            &&& cheb_dist(origin, result@[i]) <= range
        },
{
    let sx = grid.map_size.x;
    let sy = grid.map_size.y;
    let r: usize = if range > MAX_EXTENT {
        MAX_EXTENT
    } else {
        range
    };
    let x_lo: usize = if origin.x > r {
        origin.x - r
    } else {
        0
    };
    let x_hi: usize = if origin.x + r > sx - 1 {
        sx - 1
    } else {
        origin.x + r
    };
    let y_lo: usize = if origin.y > r {
        origin.y - r
    } else {
        0
    };
    let y_hi: usize = if origin.y + r > sy - 1 {
        sy - 1
    } else {
        origin.y + r
    };

    let mut result: Vec<Coordinate> = Vec::new();
    let mut x: usize = x_lo;
    while x <= x_hi
        invariant
            x_lo <= x <= x_hi + 1,
            forall|t: Coordinate| result@.contains(t)
                <==> (visible_from(*grid, origin, range, t) && t.x < x),
        decreases x_hi + 1 - x,
    {
        let mut y: usize = y_lo;
        while y <= y_hi
            invariant
                y_lo <= y <= y_hi + 1,
                x <= x_hi,
                forall|t: Coordinate| result@.contains(t)
                    <==> (visible_from(*grid, origin, range, t)
                        && (t.x < x || (t.x == x && t.y < y))),
            decreases y_hi + 1 - y,
        {
            let c = Coordinate { x, y, z: origin.z };
            let within = cheb_dist_exec(origin, c) <= range;
            let seen = within && line_of_sight_clear(grid, origin, c);
            let ghost prior = result@;
            if seen {
                result.push(c);
            }
            proof {
                assert forall|t: Coordinate| result@.contains(t)
                    <==> (visible_from(*grid, origin, range, t)
                        && (t.x < x || (t.x == x && t.y < y + 1))) by {
                    if seen {
                        assert(result@ == prior.push(c));
                        if t == c {
                            assert(result@[result@.len() - 1] == t);
                            assert(result@.contains(t));
                        } else {
                            assert(result@.contains(t) <==> prior.contains(t)) by {
                                if prior.contains(t) {
                                    let i = choose|i: int| 0 <= i < prior.len() && prior[i] == t;
                                    assert(result@[i] == t);
                                }
                                if result@.contains(t) {
                                    let i = choose|i: int|
                                        0 <= i < result@.len() && result@[i] == t;
                                    assert(i < prior.len());
                                    assert(prior[i] == t);
                                }
                            }
                        }
                    }
                }
            }
            y = y + 1;
        }
        proof {
            assert forall|t: Coordinate| result@.contains(t)
                <==> (visible_from(*grid, origin, range, t) && t.x < x + 1) by {
                if visible_from(*grid, origin, range, t) && t.x == x {
                    assert(axis_dist(origin.y as int, t.y as int) <= cheb_dist(origin, t));
                    assert(y_lo <= t.y <= y_hi);
                }
            }
        }
        x = x + 1;
    }
    proof {
        assert forall|t: Coordinate| result@.contains(t)
            <==> visible_from(*grid, origin, range, t) by {
            if visible_from(*grid, origin, range, t) {
                assert(axis_dist(origin.x as int, t.x as int) <= cheb_dist(origin, t));
                assert(t.x <= x_hi);
            }
        }
        assert forall|i: int| 0 <= i < result@.len() implies {
            &&& grid.spec_in_bounds(#[trigger] result@[i])
            &&& result@[i].z == origin.z
            &&& cheb_dist(origin, result@[i]) <= range
        } by {
            assert(result@.contains(result@[i]));
        }
    }
    result
}

/// The static part of two cells agrees: both unallocated, or both allocated
/// with the same glyph, colors, `passable` and `opaque`; only the `visible`
/// and `revealed` flags may differ.
pub open spec fn tile_static_eq(a: Option<MapTile>, b: Option<MapTile>) -> bool {
    match (a, b) {
        (Some(t1), Some(t2)) => {
            &&& t1.glyph == t2.glyph
            &&& t1.foreground_color == t2.foreground_color
            &&& t1.background_color == t2.background_color
            &&& t1.passable == t2.passable
            &&& t1.opaque == t2.opaque
        },
        (None, None) => true,
        _ => false,
    }
}

/// The two grids agree on size, allocation, and every static tile property;
/// only visibility flags may differ.
pub open spec fn same_static(g1: TileGrid, g2: TileGrid) -> bool {
    &&& g1.map_size == g2.map_size
    &&& forall|c: Coordinate| #[trigger] tile_static_eq(g1.tile_at(c), g2.tile_at(c))
}

/// The grid holds a revealed tile at `c`.
pub open spec fn revealed_at(g: TileGrid, c: Coordinate) -> bool {
    match g.tile_at(c) {
        Some(t) => t.revealed,
        None => false,
    }
}

/// Grid invariant: every visible tile is a revealed tile.
pub open spec fn visible_implies_revealed(g: TileGrid) -> bool {
    forall|c: Coordinate| match #[trigger] g.tile_at(c) {
        Some(t) => t.visible ==> t.revealed,
        None => true,
    }
}

/// The tile after a player recompute: `visible` becomes exactly `in_fov`,
/// and `revealed` is set permanently once the tile enters a field of view.
pub open spec fn player_view_update(t: Option<MapTile>, in_fov: bool) -> Option<MapTile> {
    match t {
        Some(t) => Some(MapTile { visible: in_fov, revealed: t.revealed || in_fov, ..t }),
        None => None,
    }
}

/// Visibility depends only on the static part of the grid: two grids that
/// agree on bounds and opacity yield the same visible sets.
proof fn lemma_visible_from_static(g1: TileGrid, g2: TileGrid, origin: Coordinate, range: usize)
    requires
        same_static(g1, g2),
    ensures
        forall|t: Coordinate| #[trigger] visible_from(g1, origin, range, t)
            == visible_from(g2, origin, range, t),
{
    assert forall|c: Coordinate| #[trigger] g1.spec_opaque(c) == g2.spec_opaque(c) by {
        assert(tile_static_eq(g1.tile_at(c), g2.tile_at(c)));
    }
    assert forall|t: Coordinate| #[trigger] visible_from(g1, origin, range, t)
        == visible_from(g2, origin, range, t) by {
        assert(los_clear(g1, origin, t) == los_clear(g2, origin, t)) by {
            if los_clear(g1, origin, t) {
                assert forall|k: int| 1 <= k < cheb_dist(origin, t)
                    implies !g2.spec_opaque(#[trigger] ray_point(origin, t, k)) by {
                    assert(!g1.spec_opaque(ray_point(origin, t, k)));
                }
            }
            if los_clear(g2, origin, t) {
                assert forall|k: int| 1 <= k < cheb_dist(origin, t)
                    implies !g1.spec_opaque(#[trigger] ray_point(origin, t, k)) by {
                    assert(!g2.spec_opaque(ray_point(origin, t, k)));
                }
            }
        }
    }
}

/// One entity as the visibility engine sees it: where it stands, its vision
/// state, and whether it is the distinguished player.
pub struct Viewer {
    pub coordinate: Coordinate,
    pub viewshed: Viewshed,
    pub is_player: bool,
}

/// Recomputes one entity's vision if its viewshed is dirty; entities with a
/// clean viewshed are skipped entirely.
///
/// For a dirty entity the viewshed receives exactly the visible set from its
/// coordinate and range, and `dirty` is cleared. Only a player's recompute
/// touches the grid: `visible` on the player's floor becomes exactly the new
/// field of view, and every tile in it is permanently revealed.
#[verifier::loop_isolation(false)]
pub fn recompute_viewer(grid: &mut TileGrid, viewer: &mut Viewer)
    requires
        old(grid).wf(),
        old(grid).spec_in_bounds(old(viewer).coordinate),
    ensures
        final(grid).wf(),
        same_static(*old(grid), *final(grid)),
        forall|c: Coordinate| revealed_at(*old(grid), c) ==> #[trigger] revealed_at(
            *final(grid),
            c,
        ),
        visible_implies_revealed(*old(grid)) ==> visible_implies_revealed(*final(grid)),
        !old(viewer).viewshed.dirty ==> *final(grid) == *old(grid) && *final(viewer) == *old(
            viewer,
        ),
        old(viewer).viewshed.dirty ==> {
            &&& final(viewer).coordinate == old(viewer).coordinate
            &&& final(viewer).is_player == old(viewer).is_player
            &&& final(viewer).viewshed.range == old(viewer).viewshed.range
            &&& !final(viewer).viewshed.dirty
            &&& forall|t: Coordinate| final(viewer).viewshed.visible_tiles@.contains(t)
                <==> visible_from(
                    *old(grid),
                    old(viewer).coordinate,
                    old(viewer).viewshed.range,
                    t,
                )
        },
        (old(viewer).viewshed.dirty && !old(viewer).is_player) ==> *final(grid) == *old(grid),
        (old(viewer).viewshed.dirty && old(viewer).is_player) ==> forall|c: Coordinate|
            #[trigger] final(grid).tile_at(c) == (
            if c.z == old(viewer).coordinate.z {
                player_view_update(
                    old(grid).tile_at(c),
                    visible_from(
                        *old(grid),
                        old(viewer).coordinate,
                        old(viewer).viewshed.range,
                        c,
                    ),
                )
            } else {
                old(grid).tile_at(c)
            }
        ),
{
    if !viewer.viewshed.dirty {
        return ;
    }
    let ghost g0 = *grid;
    let ghost z = viewer.coordinate.z;
    let ghost range = viewer.viewshed.range;
    let ghost origin = viewer.coordinate;
    if viewer.is_player {
        grid.reset_visibility(viewer.coordinate.z);
        proof {
            assert forall|c: Coordinate| #[trigger] tile_static_eq(
                g0.tile_at(c),
                grid.tile_at(c),
            ) by {}
        }
    }
    let ghost g_fov = *grid;
    let fov = field_of_view(grid, viewer.coordinate, viewer.viewshed.range);
    proof {
        lemma_visible_from_static(g0, g_fov, origin, range as usize);
    }
    viewer.viewshed.visible_tiles = fov;
    if viewer.is_player {
        let mut i: usize = 0;
        while i < viewer.viewshed.visible_tiles.len()
            invariant
                grid.wf(),
                grid.map_size == g0.map_size,
                i <= viewer.viewshed.visible_tiles@.len(),
                forall|c: Coordinate| #[trigger] grid.tile_at(c) == (
                    if c.z == z && (exists|j: int|
                        0 <= j < i && viewer.viewshed.visible_tiles@[j] == c) {
                        player_view_update(g0.tile_at(c), true)
                    } else {
                        if c.z == z {
                            with_visible(g0.tile_at(c), false)
                        } else {
                            g0.tile_at(c)
                        }
                    }
                ),
            decreases viewer.viewshed.visible_tiles@.len() - i,
        {
            let c = viewer.viewshed.visible_tiles[i];
            grid.set_tile_visibility(c, true);
            grid.set_tile_revealed(c, true);
            i = i + 1;
            proof {
                assert forall|d: Coordinate| #[trigger] grid.tile_at(d) == (
                    if d.z == z && (exists|j: int|
                        0 <= j < i && viewer.viewshed.visible_tiles@[j] == d) {
                        player_view_update(g0.tile_at(d), true)
                    } else {
                        if d.z == z {
                            with_visible(g0.tile_at(d), false)
                        } else {
                            g0.tile_at(d)
                        }
                    }
                ) by {
                    if d == c {
                        assert(viewer.viewshed.visible_tiles@[i - 1] == d);
                    }
                }
            }
        }
        proof {
            assert forall|c: Coordinate| #[trigger] grid.tile_at(c) == (
                if c.z == z {
                    player_view_update(g0.tile_at(c), visible_from(g0, origin, range as usize, c))
                } else {
                    g0.tile_at(c)
                }
            ) by {
                if c.z == z {
                    if visible_from(g0, origin, range as usize, c) {
                        assert(viewer.viewshed.visible_tiles@.contains(c));
                    } else {
                        if viewer.viewshed.visible_tiles@.contains(c) {
                            assert(visible_from(g0, origin, range as usize, c));
                        }
                    }
                }
            }
        }
    }
    viewer.viewshed.dirty = false;
    proof {
        assert forall|c: Coordinate| #[trigger] tile_static_eq(g0.tile_at(c), grid.tile_at(c)) by {}
        assert forall|c: Coordinate| revealed_at(g0, c) implies #[trigger] revealed_at(
            *grid,
            c,
        ) by {}
        if visible_implies_revealed(g0) {
            assert forall|c: Coordinate| match #[trigger] grid.tile_at(c) {
                Some(t) => t.visible ==> t.revealed,
                None => true,
            } by {
                assert(match g0.tile_at(c) {
                    Some(t) => t.visible ==> t.revealed,
                    None => true,
                });
            }
        }
    }
}

/// The lazy visibility engine, run once per tick over all vision-bearing
/// entities.
pub struct VisibilitySystem {}

impl VisibilitySystem {
    /// Recomputes every entity whose viewshed is dirty, in order; clean
    /// entities are skipped entirely. A dirty entity's viewshed receives
    /// exactly the set of coordinates visible from its position, and its
    /// `dirty` flag is cleared. Dirty players additionally write the
    /// `visible` and `revealed` flags back into the shared grid; `revealed`
    /// is monotone — no recompute ever clears it.
    #[verifier::loop_isolation(false)]
    pub fn run(grid: &mut TileGrid, viewers: &mut Vec<Viewer>)
        requires
            old(grid).wf(),
            forall|i: int| 0 <= i < old(viewers)@.len() ==> old(grid).spec_in_bounds(
                (#[trigger] old(viewers)@[i]).coordinate,
            ),
        ensures
            final(grid).wf(),
            same_static(*old(grid), *final(grid)),
            forall|c: Coordinate| revealed_at(*old(grid), c) ==> #[trigger] revealed_at(
                *final(grid),
                c,
            ),
            visible_implies_revealed(*old(grid)) ==> visible_implies_revealed(*final(grid)),
            final(viewers)@.len() == old(viewers)@.len(),
            forall|i: int| 0 <= i < old(viewers)@.len()
                && !(#[trigger] old(viewers)@[i]).viewshed.dirty
                ==> final(viewers)@[i] == old(viewers)@[i],
            forall|i: int| 0 <= i < old(viewers)@.len()
                && (#[trigger] old(viewers)@[i]).viewshed.dirty ==> {
                &&& final(viewers)@[i].coordinate == old(viewers)@[i].coordinate
                &&& final(viewers)@[i].is_player == old(viewers)@[i].is_player
                &&& final(viewers)@[i].viewshed.range == old(viewers)@[i].viewshed.range
                &&& !final(viewers)@[i].viewshed.dirty
                &&& forall|t: Coordinate| final(viewers)@[i].viewshed.visible_tiles@.contains(t)
                    <==> visible_from(
                        *old(grid),
                        old(viewers)@[i].coordinate,
                        old(viewers)@[i].viewshed.range,
                        t,
                    )
            },
            forall|i: int, t: Coordinate| 0 <= i < old(viewers)@.len()
                && old(viewers)@[i].viewshed.dirty && old(viewers)@[i].is_player
                && #[trigger] visible_from(
                    *old(grid),
                    old(viewers)@[i].coordinate,
                    old(viewers)@[i].viewshed.range,
                    t,
                ) && old(grid).tile_at(t) is Some ==> revealed_at(*final(grid), t),
    {
        let ghost g0 = *grid;
        let ghost vs0 = viewers@;
        let mut idx: usize = 0;
        while idx < viewers.len()
            invariant
                grid.wf(),
                same_static(g0, *grid),
                viewers@.len() == vs0.len(),
                idx <= vs0.len(),
                forall|c: Coordinate| revealed_at(g0, c) ==> #[trigger] revealed_at(*grid, c),
                visible_implies_revealed(g0) ==> visible_implies_revealed(*grid),
                forall|i: int| idx <= i < vs0.len() ==> viewers@[i] == vs0[i],
                forall|i: int| 0 <= i < idx && !(#[trigger] vs0[i]).viewshed.dirty
                    ==> viewers@[i] == vs0[i],
                forall|i: int| 0 <= i < idx && (#[trigger] vs0[i]).viewshed.dirty ==> {
                    &&& viewers@[i].coordinate == vs0[i].coordinate
                    &&& viewers@[i].is_player == vs0[i].is_player
                    &&& viewers@[i].viewshed.range == vs0[i].viewshed.range
                    &&& !viewers@[i].viewshed.dirty
                    &&& forall|t: Coordinate| viewers@[i].viewshed.visible_tiles@.contains(t)
                        <==> visible_from(g0, vs0[i].coordinate, vs0[i].viewshed.range, t)
                },
                forall|i: int, t: Coordinate| 0 <= i < idx
                    && vs0[i].viewshed.dirty && vs0[i].is_player
                    && #[trigger] visible_from(g0, vs0[i].coordinate, vs0[i].viewshed.range, t)
                    && g0.tile_at(t) is Some ==> revealed_at(*grid, t),
            decreases vs0.len() - idx,
        {
            let ghost g_pre = *grid;
            let ghost v_pre = viewers@;
            proof {
                assert(viewers@[idx as int] == vs0[idx as int]);
                assert(g0.spec_in_bounds(vs0[idx as int].coordinate));
                assert(grid.spec_in_bounds(vs0[idx as int].coordinate));
            }
            let viewer = &mut viewers[idx];
            recompute_viewer(grid, viewer);
            proof {
                lemma_visible_from_static(
                    g0,
                    g_pre,
                    vs0[idx as int].coordinate,
                    vs0[idx as int].viewshed.range,
                );
                assert forall|c: Coordinate| #[trigger] tile_static_eq(
                    g0.tile_at(c),
                    grid.tile_at(c),
                ) by {
                    assert(tile_static_eq(g0.tile_at(c), g_pre.tile_at(c)));
                    assert(tile_static_eq(g_pre.tile_at(c), grid.tile_at(c)));
                }
                assert forall|c: Coordinate| revealed_at(g0, c) implies #[trigger] revealed_at(
                    *grid,
                    c,
                ) by {
                    assert(revealed_at(g_pre, c));
                }
                assert forall|i: int, t: Coordinate| 0 <= i < idx + 1
                    && vs0[i].viewshed.dirty && vs0[i].is_player
                    && #[trigger] visible_from(g0, vs0[i].coordinate, vs0[i].viewshed.range, t)
                    && g0.tile_at(t) is Some implies revealed_at(*grid, t) by {
                    if i < idx {
                        assert(revealed_at(g_pre, t));
                    } else {
                        assert(tile_static_eq(g0.tile_at(t), g_pre.tile_at(t)));
                        assert(visible_from(g_pre, vs0[i].coordinate, vs0[i].viewshed.range, t));
                        assert(t.z == vs0[i].coordinate.z);
                    }
                }
            }
            idx = idx + 1;
        }
    }
}

} // verus!
