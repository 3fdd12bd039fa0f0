use rogue_core::coordinate::Coordinate;
use rogue_core::entity_components::Viewshed;
use rogue_core::movement::try_move;
use rogue_core::tile_grid::TileGrid;

#[test]
fn moving_into_a_wall_changes_nothing() {
    let grid = TileGrid::new(Coordinate::new(10, 10, 1));
    let mut coordinate = Coordinate::new(1, 1, 0);
    let mut viewshed = Viewshed::new(8);
    viewshed.dirty = false;
    try_move(&grid, &mut coordinate, &mut viewshed, -1, 0);
    assert_eq!(coordinate, Coordinate::new(1, 1, 0));
    assert!(!viewshed.dirty);
}

#[test]
fn moving_onto_floor_updates_position_and_marks_dirty() {
    let grid = TileGrid::new(Coordinate::new(10, 10, 1));
    let mut coordinate = Coordinate::new(1, 1, 0);
    let mut viewshed = Viewshed::new(8);
    viewshed.dirty = false;
    try_move(&grid, &mut coordinate, &mut viewshed, 1, 1);
    assert_eq!(coordinate, Coordinate::new(2, 2, 0));
    assert!(viewshed.dirty);
}

#[test]
fn moving_below_zero_is_rejected() {
    let grid = TileGrid::new(Coordinate::new(10, 10, 1));
    let mut coordinate = Coordinate::new(1, 1, 0);
    let mut viewshed = Viewshed::new(8);
    viewshed.dirty = false;
    try_move(&grid, &mut coordinate, &mut viewshed, -2, 0);
    assert_eq!(coordinate, Coordinate::new(1, 1, 0));
    assert!(!viewshed.dirty);
}

#[test]
fn moving_onto_an_unallocated_cell_is_rejected() {
    let grid = TileGrid::empty(Coordinate::new(10, 10, 1));
    let mut coordinate = Coordinate::new(1, 1, 0);
    let mut viewshed = Viewshed::new(8);
    viewshed.dirty = false;
    try_move(&grid, &mut coordinate, &mut viewshed, 1, 0);
    assert_eq!(coordinate, Coordinate::new(1, 1, 0));
    assert!(!viewshed.dirty);
}

#[test]
fn moving_out_of_the_grid_is_rejected() {
    let grid = TileGrid::new(Coordinate::new(10, 10, 1));
    let mut coordinate = Coordinate::new(8, 8, 0);
    let mut viewshed = Viewshed::new(8);
    viewshed.dirty = false;
    try_move(&grid, &mut coordinate, &mut viewshed, 1, 1);
    // (9, 9) is a border wall: rejected
    assert_eq!(coordinate, Coordinate::new(8, 8, 0));
    assert!(!viewshed.dirty);
}
