use dungeon_gen::map::gen::make_ugly_map;
use dungeon_gen::map::gen::rnc::{make_map, Config, ConfigError};
use dungeon_gen::map::{draw_map, empty_map, new_map, xy_idx, TileType, MAP_HEIGHT, MAP_WIDTH};
use dungeon_gen::map::Tile;

#[test]
fn flat_xy_idx_formula() {
    assert_eq!(xy_idx(0, 0), 0);
    assert_eq!(xy_idx(2, 1), MAP_WIDTH + 2);
    assert_eq!(xy_idx(MAP_WIDTH - 1, MAP_HEIGHT - 1), MAP_WIDTH * MAP_HEIGHT - 1);
}

#[test]
fn empty_map_is_all_floor() {
    let map = empty_map();

    assert_eq!(map.len(), MAP_WIDTH * MAP_HEIGHT);
    assert!(map.iter().all(|t| *t == TileType::Floor));
}

#[test]
fn new_map_walls_the_border() {
    let map = new_map();

    assert_eq!(map.len(), MAP_WIDTH * MAP_HEIGHT);
    for x in 0..MAP_WIDTH {
        assert_eq!(map[xy_idx(x, 0)], TileType::Wall);
        assert_eq!(map[xy_idx(x, MAP_HEIGHT - 1)], TileType::Wall);
    }
    for y in 0..MAP_HEIGHT {
        assert_eq!(map[xy_idx(0, y)], TileType::Wall);
        assert_eq!(map[xy_idx(MAP_WIDTH - 1, y)], TileType::Wall);
    }
}

#[test]
fn draw_map_renders_glyphs() {
    let mut map = empty_map();
    map[xy_idx(1, 0)] = TileType::Wall;

    let glyphs = draw_map(&map);
    assert_eq!(glyphs.len(), map.len());
    assert_eq!(glyphs[0], b' ');
    assert_eq!(glyphs[1], b'#');
    assert_eq!(glyphs[2], b' ');
}

#[test]
fn ugly_map_walls_the_border() {
    let map = make_ugly_map(20, 12);

    assert_eq!(map.get_width(), 20);
    assert_eq!(map.get_height(), 12);
    for x in 0..20 {
        assert_eq!(map.at(x, 0), Tile::Wall);
        assert_eq!(map.at(x, 11), Tile::Wall);
    }
    for y in 0..12 {
        assert_eq!(map.at(0, y), Tile::Wall);
        assert_eq!(map.at(19, y), Tile::Wall);
    }
}

#[test]
fn new_map_scatters_at_most_400_walls() {
    let map = new_map();

    let mut walls = 0;
    for x in 1..(MAP_WIDTH - 1) {
        for y in 1..(MAP_HEIGHT - 1) {
            if map[xy_idx(x, y)] == TileType::Wall {
                walls += 1;
            }
        }
    }
    assert!(walls <= 400);
}

#[test]
fn ugly_map_scatters_at_most_400_walls() {
    let map = make_ugly_map(50, 30);

    let mut walls = 0;
    for x in 1..49 {
        for y in 1..29 {
            if map.at(x, y) == Tile::Wall {
                walls += 1;
            }
        }
    }
    assert!(walls <= 400);
}

#[test]
fn config_default_values() {
    let conf = Config::default();

    assert_eq!(conf.map_width, 100);
    assert_eq!(conf.map_height, 100);
    assert_eq!(conf.room_chance, 1);
    assert_eq!(conf.turn_chance, 1);
    assert_eq!(conf.min_room_size, 4);
    assert_eq!(conf.max_room_size, 10);
    assert_eq!(conf.iterations, 1000);
}

#[test]
fn config_rejects_bad_dimensions() {
    assert_eq!(
        Config::new(2, 100, 1, 1, 4, 10, 1000),
        Err(ConfigError::BadDimensions)
    );
    assert_eq!(
        Config::new(100, 0, 1, 1, 4, 10, 1000),
        Err(ConfigError::BadDimensions)
    );
}

#[test]
fn config_rejects_bad_room_sizes() {
    assert_eq!(
        Config::new(100, 100, 1, 1, 10, 10, 1000),
        Err(ConfigError::BadRoomSizes)
    );
    assert_eq!(
        Config::new(100, 100, 1, 1, 0, 10, 1000),
        Err(ConfigError::BadRoomSizes)
    );
    assert_eq!(
        Config::new(100, 100, 1, 1, 12, 4, 1000),
        Err(ConfigError::BadRoomSizes)
    );
}

#[test]
fn config_accepts_good_values() {
    let conf = Config::new(40, 30, 5, 10, 3, 7, 200).unwrap();

    assert_eq!(conf.map_width, 40);
    assert_eq!(conf.map_height, 30);
    assert_eq!(conf.room_chance, 5);
    assert_eq!(conf.turn_chance, 10);
    assert_eq!(conf.min_room_size, 3);
    assert_eq!(conf.max_room_size, 7);
    assert_eq!(conf.iterations, 200);
}

#[test]
fn make_map_terminates_and_returns_valid_grid() {
    // Whether the run completes or ends early, the result is a grid of
    // the configured size whose rooms all sit inside the safety
    // interior, do not overlap, and number at most the iteration cap.
    let conf = Config::new(40, 30, 30, 20, 3, 7, 500).unwrap();
    // On a map at least four wide and four tall the corridor can always
    // advance, so the run must complete.
    let map = match make_map(conf) {
        Ok(map) => map,
        Err(_) => panic!("a 40 by 30 run cannot get stuck"),
    };

    assert_eq!(map.get_width(), 40);
    assert_eq!(map.get_height(), 30);
    assert!(map.rooms.len() <= 500);
    for room in &map.rooms {
        assert!(room.x >= 1 && room.x + room.width <= 40 - 1);
        assert!(room.y >= 1 && room.y + room.height <= 30 - 1);
    }
    for i in 0..map.rooms.len() {
        for j in (i + 1)..map.rooms.len() {
            assert!(!map.rooms[i].intersect(&map.rooms[j]));
        }
    }
    // The outer border is never carved.
    for x in 0..40 {
        assert_eq!(map.at(x, 0), Tile::Wall);
        assert_eq!(map.at(x, 29), Tile::Wall);
    }
    for y in 0..30 {
        assert_eq!(map.at(0, y), Tile::Wall);
        assert_eq!(map.at(39, y), Tile::Wall);
    }
    // At least one corridor tile was carved inside the interior.
    let mut floors = 0;
    for x in 1..39 {
        for y in 1..29 {
            if map.at(x, y) == Tile::Floor {
                floors += 1;
            }
        }
    }
    assert!(floors > 0);
}

#[test]
fn make_map_zero_iterations_is_all_wall() {
    let conf = Config::new(10, 10, 1, 1, 4, 6, 0).unwrap();

    match make_map(conf) {
        Ok(map) => {
            assert_eq!(map.get_width(), 10);
            assert_eq!(map.get_height(), 10);
            assert!(map.rooms.is_empty());
            assert!(map.tiles().iter().all(|t| *t == Tile::Wall));
        }
        Err(_) => panic!("a run of zero steps cannot get stuck"),
    }
}

#[test]
fn make_map_smallest_grid() {
    // The smallest accepted map has a one-cell interior: the corridor
    // can never advance, so the run ends early with a partial result.
    let conf = Config::new(3, 3, 0, 0, 1, 2, 10).unwrap();

    match make_map(conf) {
        Ok(_) => panic!("a one-cell interior cannot finish a run"),
        Err(partial) => {
            assert_eq!(partial.get_width(), 3);
            assert_eq!(partial.get_height(), 3);
            assert_eq!(partial.at(1, 1), Tile::Floor);
        }
    }
}
