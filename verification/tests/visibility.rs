use rogue_core::coordinate::Coordinate;
use rogue_core::entity_components::Viewshed;
use rogue_core::tile_grid::make_wall_tile;
use rogue_core::tile_grid::TileGrid;
use rogue_core::visibility_system::cheb_dist_exec;
use rogue_core::visibility_system::field_of_view;
use rogue_core::visibility_system::Viewer;
use rogue_core::visibility_system::VisibilitySystem;

#[test]
fn chebyshev_distance_values() {
    let a = Coordinate::new(10, 10, 0);
    assert_eq!(cheb_dist_exec(a, Coordinate::new(10, 10, 0)), 0);
    assert_eq!(cheb_dist_exec(a, Coordinate::new(13, 11, 0)), 3);
    assert_eq!(cheb_dist_exec(a, Coordinate::new(7, 2, 0)), 8);
    assert_eq!(cheb_dist_exec(a, Coordinate::new(28, 28, 0)), 18);
}

#[test]
fn fov_stays_within_range_and_bounds() {
    let grid = TileGrid::new(Coordinate::new(40, 40, 1));
    let origin = Coordinate::new(3, 3, 0);
    let fov = field_of_view(&grid, origin, 18);
    assert!(!fov.is_empty());
    for c in &fov {
        assert!(c.x < 40 && c.y < 40);
        assert_eq!(c.z, 0);
        assert!(cheb_dist_exec(origin, *c) <= 18);
    }
}

#[test]
fn wall_casts_a_shadow_straight_south() {
    let mut grid = TileGrid::new(Coordinate::new(40, 40, 1));
    grid.set_tile(Coordinate::new(10, 13, 0), make_wall_tile());
    let origin = Coordinate::new(10, 10, 0);
    let fov = field_of_view(&grid, origin, 18);
    let sees = |x: usize, y: usize| fov.contains(&Coordinate::new(x, y, 0));
    // the wall itself is seen, but nothing straight south beyond it
    assert!(sees(10, 13));
    for y in 14..29usize {
        assert!(!sees(10, y));
    }
    // unobstructed diagonals stay visible out to the full range
    assert!(sees(28, 28));
    assert!(sees(11, 11));
    assert!(sees(9, 9));
    // an open tile next to the shadow column is still visible
    assert!(sees(10, 12));
}

#[test]
fn player_recompute_writes_visible_and_revealed() {
    let mut grid = TileGrid::new(Coordinate::new(20, 20, 1));
    let mut viewers = vec![Viewer {
        coordinate: Coordinate::new(5, 5, 0),
        viewshed: Viewshed::new(3),
        is_player: true,
    }];
    VisibilitySystem::run(&mut grid, &mut viewers);
    assert!(!viewers[0].viewshed.dirty);
    assert!(!viewers[0].viewshed.visible_tiles.is_empty());
    for c in viewers[0].viewshed.visible_tiles.iter() {
        let t = grid.get(*c).unwrap();
        assert!(t.visible && t.revealed);
    }
    let far = grid.get(Coordinate::new(15, 15, 0)).unwrap();
    assert!(!far.visible && !far.revealed);
}

#[test]
fn revealed_is_monotone_across_recomputes() {
    let mut grid = TileGrid::new(Coordinate::new(30, 30, 1));
    let mut viewers = vec![Viewer {
        coordinate: Coordinate::new(5, 5, 0),
        viewshed: Viewshed::new(4),
        is_player: true,
    }];
    VisibilitySystem::run(&mut grid, &mut viewers);
    let mut revealed_before: Vec<Coordinate> = Vec::new();
    for x in 0..30usize {
        for y in 0..30usize {
            let c = Coordinate::new(x, y, 0);
            if grid.get(c).unwrap().revealed {
                revealed_before.push(c);
            }
        }
    }
    assert!(!revealed_before.is_empty());
    // move far away and recompute: old tiles lose visibility, never memory
    viewers[0].coordinate = Coordinate::new(20, 20, 0);
    viewers[0].viewshed.dirty = true;
    VisibilitySystem::run(&mut grid, &mut viewers);
    for c in &revealed_before {
        assert!(grid.get(*c).unwrap().revealed);
    }
    let old_spot = grid.get(Coordinate::new(5, 5, 0)).unwrap();
    assert!(!old_spot.visible && old_spot.revealed);
}

#[test]
fn clean_viewsheds_are_skipped() {
    let mut grid = TileGrid::new(Coordinate::new(20, 20, 1));
    let mut viewshed = Viewshed::new(3);
    viewshed.dirty = false;
    let mut viewers = vec![Viewer {
        coordinate: Coordinate::new(5, 5, 0),
        viewshed,
        is_player: true,
    }];
    VisibilitySystem::run(&mut grid, &mut viewers);
    assert!(viewers[0].viewshed.visible_tiles.is_empty());
    let t = grid.get(Coordinate::new(5, 5, 0)).unwrap();
    assert!(!t.visible && !t.revealed);
}

#[test]
fn non_player_viewers_never_mutate_the_grid() {
    let mut grid = TileGrid::new(Coordinate::new(20, 20, 1));
    let mut viewers = vec![Viewer {
        coordinate: Coordinate::new(5, 5, 0),
        viewshed: Viewshed::new(3),
        is_player: false,
    }];
    VisibilitySystem::run(&mut grid, &mut viewers);
    assert!(!viewers[0].viewshed.dirty);
    assert!(!viewers[0].viewshed.visible_tiles.is_empty());
    for x in 0..20usize {
        for y in 0..20usize {
            let t = grid.get(Coordinate::new(x, y, 0)).unwrap();
            assert!(!t.visible && !t.revealed);
        }
    }
}
