use rogue_core::coordinate::Coordinate;
use rogue_core::rectangle::Rectangle;

#[test]
fn center_is_the_floored_midpoint() {
    let room = Rectangle::new(Coordinate::new(2, 4, 0), Coordinate::new(7, 9, 0));
    assert_eq!(room.center(), Coordinate::new(4, 6, 0));
    let room = Rectangle::new(Coordinate::new(2, 2, 1), Coordinate::new(4, 6, 1));
    assert_eq!(room.center(), Coordinate::new(3, 4, 1));
}

#[test]
fn intersect_is_inclusive_on_edges() {
    let a = Rectangle::new(Coordinate::new(1, 1, 0), Coordinate::new(5, 5, 0));
    let touching = Rectangle::new(Coordinate::new(5, 5, 0), Coordinate::new(8, 8, 0));
    assert!(a.intersect(&touching));
    assert!(touching.intersect(&a));
    let apart = Rectangle::new(Coordinate::new(6, 6, 0), Coordinate::new(9, 9, 0));
    assert!(!a.intersect(&apart));
    assert!(!apart.intersect(&a));
    let overlapping = Rectangle::new(Coordinate::new(3, 3, 0), Coordinate::new(4, 4, 0));
    assert!(a.intersect(&overlapping));
}

#[test]
fn viewshed_starts_dirty_and_empty() {
    let v = rogue_core::entity_components::Viewshed::new(18);
    assert!(v.dirty);
    assert_eq!(v.range, 18);
    assert!(v.visible_tiles.is_empty());
}
