use rogue_core::coordinate::Coordinate;
use rogue_core::dungeon::ConfigError;
use rogue_core::random_source::RandomSource;
use rogue_core::tile_grid::TileGrid;

#[test]
fn twenty_rooms_on_standard_grid_yield_at_least_one() {
    let map_size = Coordinate::new(150, 100, 2);
    let mut random = RandomSource::from_seed(42);
    let (_grid, rooms) =
        TileGrid::rooms_and_corridors_map(20, 5, 10, map_size, &mut random).unwrap();
    assert!(rooms.len() >= 1);
    assert!(rooms.len() <= 20);
    let player_start = rooms[0].center();
    assert_eq!(player_start, rooms[0].center());
    assert_eq!(player_start.z, 0);
    assert!(player_start.x < 150 && player_start.y < 100);
}

#[test]
fn rooms_never_overlap() {
    let map_size = Coordinate::new(150, 100, 2);
    let mut random = RandomSource::from_seed(7);
    let (_grid, rooms) =
        TileGrid::rooms_and_corridors_map(20, 5, 10, map_size, &mut random).unwrap();
    for i in 0..rooms.len() {
        for j in 0..rooms.len() {
            if i != j {
                assert!(!rooms[i].intersect(&rooms[j]));
            }
        }
    }
}

#[test]
fn room_sizes_lie_in_requested_range() {
    let map_size = Coordinate::new(150, 100, 2);
    let mut random = RandomSource::from_seed(11);
    let (_grid, rooms) =
        TileGrid::rooms_and_corridors_map(20, 5, 10, map_size, &mut random).unwrap();
    for room in &rooms {
        let w = room.corner_two.x - room.corner_one.x;
        let h = room.corner_two.y - room.corner_one.y;
        assert!((5..=10).contains(&w));
        assert!((5..=10).contains(&h));
        assert!(room.corner_one.x >= 1 && room.corner_two.x + 2 <= 150);
        assert!(room.corner_one.y >= 1 && room.corner_two.y + 2 <= 100);
        assert_eq!(room.corner_one.z, 0);
    }
}

#[test]
fn room_interiors_and_corridors_are_passable() {
    let map_size = Coordinate::new(150, 100, 2);
    let mut random = RandomSource::from_seed(3);
    let (grid, rooms) =
        TileGrid::rooms_and_corridors_map(20, 5, 10, map_size, &mut random).unwrap();
    let passable = |x: usize, y: usize| -> bool {
        match grid.get(Coordinate::new(x, y, 0)) {
            Some(t) => t.passable,
            None => false,
        }
    };
    for room in &rooms {
        for x in room.corner_one.x + 1..=room.corner_two.x {
            for y in room.corner_one.y + 1..=room.corner_two.y {
                assert!(passable(x, y));
            }
        }
    }
    for k in 1..rooms.len() {
        let from = rooms[k].center();
        let to = rooms[k - 1].center();
        let (xa, xb) = (from.x.min(to.x), from.x.max(to.x));
        for x in xa..=xb {
            assert!(passable(x, from.y));
        }
        let (ya, yb) = (from.y.min(to.y), from.y.max(to.y));
        for y in ya..=yb {
            assert!(passable(to.x, y));
        }
    }
}

#[test]
fn passable_tiles_are_enclosed_after_wall_derivation() {
    let map_size = Coordinate::new(150, 100, 2);
    let mut random = RandomSource::from_seed(9);
    let (grid, _rooms) =
        TileGrid::rooms_and_corridors_map(20, 5, 10, map_size, &mut random).unwrap();
    for x in 0..150usize {
        for y in 0..100usize {
            let here = grid.get(Coordinate::new(x, y, 0));
            let is_passable = matches!(here, Some(t) if t.passable);
            if !is_passable {
                continue;
            }
            for dx in -1i64..=1 {
                for dy in -1i64..=1 {
                    if dx == 0 && dy == 0 {
                        continue;
                    }
                    let nx = x as i64 + dx;
                    let ny = y as i64 + dy;
                    if nx < 0 || ny < 0 || nx >= 150 || ny >= 100 {
                        continue;
                    }
                    let neighbor = grid.get(Coordinate::new(nx as usize, ny as usize, 0));
                    match neighbor {
                        Some(t) => {
                            if !t.passable {
                                assert!(t.opaque);
                            }
                        }
                        None => panic!("passable tile with an unallocated neighbor"),
                    }
                }
            }
        }
    }
}

#[test]
fn generation_is_deterministic_for_a_seed() {
    let map_size = Coordinate::new(150, 100, 2);
    let mut random_one = RandomSource::from_seed(12345);
    let mut random_two = RandomSource::from_seed(12345);
    let (_g1, rooms_one) =
        TileGrid::rooms_and_corridors_map(20, 5, 10, map_size, &mut random_one).unwrap();
    let (_g2, rooms_two) =
        TileGrid::rooms_and_corridors_map(20, 5, 10, map_size, &mut random_two).unwrap();
    assert_eq!(rooms_one.len(), rooms_two.len());
    for (a, b) in rooms_one.iter().zip(rooms_two.iter()) {
        assert_eq!(a.corner_one, b.corner_one);
        assert_eq!(a.corner_two, b.corner_two);
    }
}

#[test]
fn empty_size_range_is_rejected() {
    let map_size = Coordinate::new(150, 100, 2);
    let mut random = RandomSource::from_seed(1);
    let r = TileGrid::rooms_and_corridors_map(5, 10, 5, map_size, &mut random);
    match r {
        Err(e) => assert_eq!(e, ConfigError::InvalidSizeRange),
        Ok(_) => panic!("expected a configuration error"),
    }
}

#[test]
fn zero_min_size_is_rejected() {
    let map_size = Coordinate::new(150, 100, 2);
    let mut random = RandomSource::from_seed(1);
    let r = TileGrid::rooms_and_corridors_map(5, 0, 10, map_size, &mut random);
    match r {
        Err(e) => assert_eq!(e, ConfigError::InvalidSizeRange),
        Ok(_) => panic!("expected a configuration error"),
    }
}

#[test]
fn too_small_grid_is_rejected() {
    let map_size = Coordinate::new(12, 100, 2);
    let mut random = RandomSource::from_seed(1);
    let r = TileGrid::rooms_and_corridors_map(5, 5, 10, map_size, &mut random);
    match r {
        Err(e) => assert_eq!(e, ConfigError::GridTooSmall),
        Ok(_) => panic!("expected a configuration error"),
    }
}

#[test]
fn flat_grid_is_rejected() {
    let map_size = Coordinate::new(150, 100, 0);
    let mut random = RandomSource::from_seed(1);
    let r = TileGrid::rooms_and_corridors_map(5, 5, 10, map_size, &mut random);
    match r {
        Err(e) => assert_eq!(e, ConfigError::GridTooSmall),
        Ok(_) => panic!("expected a configuration error"),
    }
}

#[test]
fn other_floors_stay_unallocated() {
    let map_size = Coordinate::new(150, 100, 2);
    let mut random = RandomSource::from_seed(21);
    let (grid, _rooms) =
        TileGrid::rooms_and_corridors_map(20, 5, 10, map_size, &mut random).unwrap();
    for x in 0..150usize {
        for y in 0..100usize {
            assert!(grid.get(Coordinate::new(x, y, 1)).is_none());
        }
    }
}
