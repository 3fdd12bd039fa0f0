use rogue_core::coordinate::Coordinate;
use rogue_core::map_tile::MapTile;
use rogue_core::map_tile::RenderState;
use rogue_core::map_tile::TileColor;
use rogue_core::tile_grid::idx_to_cartisian;
use rogue_core::tile_grid::make_floor_tile;
use rogue_core::tile_grid::make_wall_tile;
use rogue_core::tile_grid::TileGrid;

fn grey(v: u8) -> TileColor {
    TileColor { r: v, g: v, b: v }
}

#[test]
fn get_rejects_out_of_range_x() {
    let grid = TileGrid::empty(Coordinate::new(150, 100, 2));
    assert!(grid.get(Coordinate::new(150, 0, 0)).is_none());
}

#[test]
fn get_rejects_out_of_range_y_and_z() {
    let grid = TileGrid::empty(Coordinate::new(150, 100, 2));
    assert!(grid.get(Coordinate::new(0, 100, 0)).is_none());
    assert!(grid.get(Coordinate::new(0, 0, 2)).is_none());
}

#[test]
fn get_returns_what_set_tile_wrote() {
    let mut grid = TileGrid::empty(Coordinate::new(10, 10, 1));
    let tile = MapTile::new(64, grey(200), grey(0), true, false, false, false);
    grid.set_tile(Coordinate::new(3, 4, 0), tile);
    let back = grid.get(Coordinate::new(3, 4, 0)).unwrap();
    assert_eq!(back, tile);
    assert!(grid.get(Coordinate::new(4, 3, 0)).is_none());
}

#[test]
fn set_tile_out_of_range_is_a_no_op() {
    let mut grid = TileGrid::empty(Coordinate::new(10, 10, 1));
    let tile = make_floor_tile();
    grid.set_tile(Coordinate::new(10, 0, 0), tile);
    for x in 0..10usize {
        for y in 0..10usize {
            assert!(grid.get(Coordinate::new(x, y, 0)).is_none());
        }
    }
}

#[test]
fn flag_setters_update_only_their_flag() {
    let mut grid = TileGrid::empty(Coordinate::new(10, 10, 1));
    grid.set_tile(Coordinate::new(2, 2, 0), make_floor_tile());
    grid.set_tile_visibility(Coordinate::new(2, 2, 0), true);
    let t = grid.get(Coordinate::new(2, 2, 0)).unwrap();
    assert!(t.visible && !t.revealed && t.passable && !t.opaque);
    grid.set_tile_revealed(Coordinate::new(2, 2, 0), true);
    let t = grid.get(Coordinate::new(2, 2, 0)).unwrap();
    assert!(t.visible && t.revealed);
}

#[test]
fn flag_setters_on_unallocated_cells_are_no_ops() {
    let mut grid = TileGrid::empty(Coordinate::new(10, 10, 1));
    grid.set_tile_visibility(Coordinate::new(5, 5, 0), true);
    grid.set_tile_revealed(Coordinate::new(5, 5, 0), true);
    assert!(grid.get(Coordinate::new(5, 5, 0)).is_none());
}

#[test]
fn reset_visibility_covers_the_full_extent() {
    let mut grid = TileGrid::new(Coordinate::new(5, 5, 1));
    grid.set_tile_visibility(Coordinate::new(4, 4, 0), true);
    grid.set_tile_revealed(Coordinate::new(4, 4, 0), true);
    grid.reset_visibility(0);
    let t = grid.get(Coordinate::new(4, 4, 0)).unwrap();
    assert!(!t.visible);
    assert!(t.revealed);
}

#[test]
fn boundary_map_walls_and_floors() {
    let grid = TileGrid::new(Coordinate::new(10, 8, 2));
    for z in 0..2usize {
        let edge = grid.get(Coordinate::new(0, 3, z)).unwrap();
        assert!(!edge.passable && edge.opaque);
        let edge = grid.get(Coordinate::new(9, 3, z)).unwrap();
        assert!(!edge.passable && edge.opaque);
        let edge = grid.get(Coordinate::new(4, 0, z)).unwrap();
        assert!(!edge.passable && edge.opaque);
        let edge = grid.get(Coordinate::new(4, 7, z)).unwrap();
        assert!(!edge.passable && edge.opaque);
        let inner = grid.get(Coordinate::new(4, 3, z)).unwrap();
        assert!(inner.passable && !inner.opaque);
    }
}

#[test]
fn dimensions_reports_map_size() {
    let grid = TileGrid::empty(Coordinate::new(150, 100, 2));
    assert_eq!(grid.dimensions(), Coordinate::new(150, 100, 2));
}

#[test]
fn idx_to_cartisian_splits_row_major_index() {
    let map_size = Coordinate::new(150, 100, 2);
    let c = idx_to_cartisian(0, map_size);
    assert_eq!(c, Coordinate::new(0, 0, 0));
    let c = idx_to_cartisian(151, map_size);
    assert_eq!(c, Coordinate::new(1, 1, 0));
    let c = idx_to_cartisian(149, map_size);
    assert_eq!(c, Coordinate::new(149, 0, 0));
}

#[test]
fn render_state_policy() {
    let hidden = MapTile::new(46, grey(76), grey(0), true, false, false, false);
    assert_eq!(hidden.render_state(), RenderState::Hidden);
    let hidden_visible = MapTile::new(46, grey(76), grey(0), true, false, true, false);
    assert_eq!(hidden_visible.render_state(), RenderState::Hidden);
    let dimmed = MapTile::new(46, grey(76), grey(0), true, false, false, true);
    assert_eq!(dimmed.render_state(), RenderState::Dimmed);
    let full = MapTile::new(46, grey(76), grey(0), true, false, true, true);
    assert_eq!(full.render_state(), RenderState::Full);
}

#[test]
fn wall_and_floor_tiles_have_expected_properties() {
    let wall = make_wall_tile();
    assert!(!wall.passable && wall.opaque && !wall.visible && !wall.revealed);
    assert_eq!(wall.glyph, 35);
    let floor = make_floor_tile();
    assert!(floor.passable && !floor.opaque && !floor.visible && !floor.revealed);
    assert_eq!(floor.glyph, 46);
}
