use dungeon_gen::map::base::{Grid, Point, Room, Tile};

#[test]
fn idx_xy_simple() {
    // The test map.
    // *  0  1  2  3  4
    // 0  0  1  2  3  4
    // 1  5  6  7  8  9
    // 2 10 11 12 13 14
    let map = Grid::empty(5, 3);

    // Test some random point.
    assert_eq!(map.idx_xy(5), Point::new(0, 1));
    assert_eq!(map.idx_xy(2), Point::new(2, 0));
    assert_eq!(map.idx_xy(14), Point::new(4, 2));
    assert_eq!(map.idx_xy(7), Point::new(2, 1));
    assert_eq!(map.idx_xy(3), Point::new(3, 0));
}

#[test]
fn idx_xy_inv() {
    let map = Grid::empty(5, 3);

    for x in 0..5usize {
        for y in 0..3usize {
            let idx = map.xy_idx(x, y);
            assert_eq!(map.idx_xy(idx), Point::new(x as i32, y as i32));
        }
    }
    for idx in 0..15usize {
        let p = map.idx_xy(idx);
        assert_eq!(map.xy_idx(p.x as usize, p.y as usize), idx);
    }
}

#[test]
fn index_of_2_1_on_width_5_is_7() {
    let map = Grid::empty(5, 3);

    assert_eq!(map.xy_idx(2, 1), 7);
    assert_eq!(map.idx_xy(7), Point::new(2, 1));
}

#[test]
fn tile_access_out_of_bounds_fails() {
    let mut map = Grid::all(5, 3, Tile::Wall);

    assert_eq!(map.tile_at(5, 0), None);
    assert_eq!(map.tile_at(0, 3), None);
    assert_eq!(map.tile_at(-1, 0), None);
    assert_eq!(map.tile_at(0, -1), None);
    assert_eq!(map.tile_at(0, 0), Some(Tile::Wall));
    assert_eq!(map.tile_at(4, 2), Some(Tile::Wall));

    let before = map.tiles().clone();
    assert!(!map.set_tile_at(5, 0, Tile::Floor));
    assert!(!map.set_tile_at(-1, -1, Tile::Floor));
    assert_eq!(map.tiles(), &before);

    assert!(map.set_tile_at(1, 1, Tile::Floor));
    assert_eq!(map.at(1, 1), Tile::Floor);
}

#[test]
fn add_room_carves_and_rejects_overlap() {
    // The scenario: a 5 by 3 wall grid takes a 2 by 1 room at (1, 1),
    // then refuses a second room fully inside the first.
    let mut map = Grid::all(5, 3, Tile::Wall);

    assert!(map.add_room(Room { x: 1, y: 1, width: 2, height: 1 }));
    assert_eq!(map.at(1, 1), Tile::Floor);
    assert_eq!(map.at(2, 1), Tile::Floor);

    let before = map.tiles().clone();
    assert!(!map.add_room(Room { x: 1, y: 1, width: 1, height: 1 }));
    assert_eq!(map.tiles(), &before);
    assert_eq!(map.rooms.len(), 1);
}

#[test]
fn room_acceptance_is_exclusive() {
    let mut map = Grid::all(10, 10, Tile::Wall);
    let first = Room { x: 2, y: 2, width: 4, height: 4 };
    let second = Room { x: 3, y: 3, width: 4, height: 4 };
    assert!(first.intersect(&second));

    let a = map.add_room(first);
    let b = map.add_room(second);
    assert!(a);
    assert!(!b);
}

#[test]
fn add_room_keeps_safety_margin() {
    let mut map = Grid::all(8, 8, Tile::Wall);

    // Rooms touching the outer border are refused...
    assert!(!map.add_room(Room { x: 0, y: 2, width: 2, height: 2 }));
    assert!(!map.add_room(Room { x: 2, y: 0, width: 2, height: 2 }));
    assert!(!map.add_room(Room { x: 6, y: 2, width: 2, height: 2 }));
    assert!(!map.add_room(Room { x: 2, y: 6, width: 2, height: 2 }));
    // ... while the same rooms one tile further in are accepted.
    assert!(map.add_room(Room { x: 1, y: 2, width: 2, height: 2 }));

    for room in &map.rooms {
        assert!(room.x >= 1 && room.x + room.width <= 8 - 1);
        assert!(room.y >= 1 && room.y + room.height <= 8 - 1);
    }
    // The border itself stays wall.
    for x in 0..8 {
        assert_eq!(map.at(x, 0), Tile::Wall);
        assert_eq!(map.at(x, 7), Tile::Wall);
        assert_eq!(map.at(0, x), Tile::Wall);
        assert_eq!(map.at(7, x), Tile::Wall);
    }
}

#[test]
fn intersect_is_open_interior() {
    let a = Room { x: 1, y: 1, width: 2, height: 2 };
    let touching = Room { x: 3, y: 1, width: 2, height: 2 };
    let apart = Room { x: 5, y: 5, width: 2, height: 2 };
    let overlapping = Room { x: 2, y: 2, width: 2, height: 2 };

    assert!(!a.intersect(&touching));
    assert!(!touching.intersect(&a));
    assert!(!a.intersect(&apart));
    assert!(a.intersect(&overlapping));
    assert!(overlapping.intersect(&a));
}

#[test]
fn is_passable_only_floor() {
    assert!(Tile::Floor.is_passable());
    assert!(!Tile::Wall.is_passable());
}

#[test]
fn is_opaque_is_wallness() {
    let mut map = Grid::all(3, 1, Tile::Wall);
    assert!(map.set_tile_at(1, 0, Tile::Floor));

    assert!(map.is_opaque(0));
    assert!(!map.is_opaque(1));
    assert!(map.is_opaque(2));
}

#[test]
fn draw_renders_one_glyph_per_tile() {
    let mut map = Grid::all(2, 2, Tile::Wall);
    assert!(map.set_tile_at(1, 0, Tile::Floor));

    assert_eq!(map.draw(), vec![b'#', b' ', b'#', b'#']);
}

#[test]
fn available_exits_of_open_center() {
    let map = Grid::empty(3, 3);

    // The center cell sees all eight neighbors: cardinals first at unit
    // cost, then diagonals at cost "the square root of two", both in
    // hundredths.
    assert_eq!(
        map.get_available_exits(4),
        vec![
            (5, 100),
            (7, 100),
            (3, 100),
            (1, 100),
            (8, 142),
            (2, 142),
            (6, 142),
            (0, 142)
        ]
    );
}

#[test]
fn available_exits_respect_walls_and_borders() {
    let mut map = Grid::empty(3, 3);
    assert!(map.set_tile_at(1, 0, Tile::Wall));

    // The corner cell has three neighbors on the map; one of them is a
    // wall now.
    assert_eq!(map.get_available_exits(0), vec![(3, 100), (4, 142)]);

    let walls = Grid::all(3, 3, Tile::Wall);
    assert_eq!(walls.get_available_exits(4), vec![]);
}

#[test]
fn accessors_report_fields() {
    let map = Grid::all(4, 6, Tile::Wall);

    assert_eq!(map.get_width(), 4);
    assert_eq!(map.get_height(), 6);
    assert_eq!(map.tiles().len(), 24);
    assert!(map.tiles().iter().all(|t| *t == Tile::Wall));
    assert!(map.rooms.is_empty());
}
