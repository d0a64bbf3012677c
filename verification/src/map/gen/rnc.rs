use vstd::prelude::*;
use vstd::pervasive::unreached;
use crate::map::base::{lemma_idx_in_range, lemma_idx_injective, Grid, Room, Tile};
use crate::map::gen::on_rim;
use crate::rng::rand_range_u64;
use crate::utils::dir::{Advance, Dir};
use crate::utils::rect::Rect;

verus! {

/// Configuration of the rooms and corridors generator. The spawn and
/// turn chances are percentages; the room side lengths are drawn from
/// the half-open range between the two sizes.
#[derive(PartialEq, Eq, Structural, Copy, Clone, Debug)]
pub struct Config {
    pub map_width: usize,
    pub map_height: usize,
    pub room_chance: u32,
    pub turn_chance: u32,
    pub min_room_size: u32,
    pub max_room_size: u32,
    pub iterations: u32,
}

/// Why a configuration was rejected.
#[derive(PartialEq, Eq, Structural, Copy, Clone, Debug)]
pub enum ConfigError {
    /// The map would be too small to hold an interior, or too large for
    /// its tile buffer.
    BadDimensions,
    /// The room size range is empty, starts at zero, or does not fit
    /// the coordinate range.
    BadRoomSizes,
}

/// Whether the map dimensions admit a safety interior and an in-range
/// starting cell, and the tile buffer fits in memory.
pub open spec fn good_dimensions(map_width: usize, map_height: usize) -> bool {
    &&& 3 <= map_width
    &&& 3 <= map_height
    &&& map_width <= i32::MAX
    &&& map_height <= i32::MAX
    &&& map_width * map_height <= usize::MAX
}

/// Whether the room size range is non-empty, starts above zero and fits
/// the coordinate range.
pub open spec fn good_room_sizes(min_room_size: u32, max_room_size: u32) -> bool {
    &&& 1 <= min_room_size
    &&& min_room_size < max_room_size
    &&& max_room_size <= i32::MAX
}

impl Config {
    /// A valid configuration: the generator accepts exactly these.
    pub open spec fn wf(self) -> bool {
        &&& good_dimensions(self.map_width, self.map_height)
        &&& good_room_sizes(self.min_room_size, self.max_room_size)
    }

    /// Builds a configuration, rejecting one whose map could not hold a
    /// corridor or whose room size range is unusable.
    pub fn new(
        map_width: usize,
        map_height: usize,
        room_chance: u32,
        turn_chance: u32,
        min_room_size: u32,
        max_room_size: u32,
        iterations: u32,
    ) -> (r: Result<Config, ConfigError>)
        ensures
            !good_dimensions(map_width, map_height) ==> r == Err::<Config, ConfigError>(
                ConfigError::BadDimensions,
            ),
            good_dimensions(map_width, map_height) && !good_room_sizes(
                min_room_size,
                max_room_size,
            ) ==> r == Err::<Config, ConfigError>(ConfigError::BadRoomSizes),
            good_dimensions(map_width, map_height) && good_room_sizes(
                min_room_size,
                max_room_size,
            ) ==> r == Ok::<Config, ConfigError>(
                Config {
                    map_width,
                    map_height,
                    room_chance,
                    turn_chance,
                    min_room_size,
                    max_room_size,
                    iterations,
                },
            ),
            r is Ok ==> r->Ok_0.wf(),
    {
        if !(3 <= map_width && 3 <= map_height && map_width <= i32::MAX as usize && map_height
            <= i32::MAX as usize && map_width.checked_mul(map_height).is_some()) {
            return Err(ConfigError::BadDimensions);
        }
        if !(1 <= min_room_size && min_room_size < max_room_size && max_room_size
            <= i32::MAX as u32) {
            return Err(ConfigError::BadRoomSizes);
        }
        Ok(
            Config {
                map_width,
                map_height,
                room_chance,
                turn_chance,
                min_room_size,
                max_room_size,
                iterations,
            },
        )
    }
}

impl Default for Config {
    /// The stock configuration: a hundred-cell square, one percent
    /// spawn and turn chances, rooms of side four to nine, a thousand
    /// carving steps.
    fn default() -> (r: Self)
        ensures
            r == (Config {
                map_width: 100usize,
                map_height: 100usize,
                room_chance: 1u32,
                turn_chance: 1u32,
                min_room_size: 4u32,
                max_room_size: 10u32,
                iterations: 1000u32,
            }),
            r.wf(),
    {
        Config {
            map_width: 100,
            map_height: 100,
            room_chance: 1,
            turn_chance: 1,
            min_room_size: 4,
            max_room_size: 10,
            iterations: 1000,
        }
    }
}

/// What every map handed back by the generator satisfies, complete or
/// partial: well formed, of the configured dimensions, every accepted
/// room inside the safety interior and free of overlap, and no more
/// rooms than carving steps.
pub open spec fn gen_ok(m: Grid, conf: Config) -> bool {
    &&& m.wf()
    &&& m.rooms_ok()
    &&& m.width == conf.map_width
    &&& m.height == conf.map_height
    &&& m.rooms@.len() <= conf.iterations
    &&& rim_is_wall(m)
}

/// The map's outer border is uncarved: neither the corridor cursor nor
/// an accepted room ever reaches it.
pub open spec fn rim_is_wall(m: Grid) -> bool {
    forall|x: int, y: int|
        m.on_map(x, y) && on_rim(m.width as int, m.height as int, x, y) ==> #[trigger] m.tile_spec(
            x,
            y,
        ) == Tile::Wall
}

/// Some corridor tile has been carved: the grid holds at least one
/// floor cell inside the safety interior.
pub open spec fn has_carved_floor(m: Grid) -> bool {
    exists|x: int, y: int|
        1 <= x < m.width - 1 && 1 <= y < m.height - 1 && #[trigger] m.tile_spec(x, y)
            == Tile::Floor
}

/// The cell one step from `(x, y)` in direction `d`.
pub open spec fn step_of(x: int, y: int, d: Dir) -> (int, int) {
    match d {
        Dir::East => (x + 1, y),
        Dir::West => (x - 1, y),
        Dir::South => (x, y + 1),
        Dir::North => (x, y - 1),
    }
}

/// Whether one step from `(x, y)` in direction `d` stays inside the
/// safety interior of a map with the configured dimensions.
pub open spec fn step_ok(conf: Config, x: int, y: int, d: Dir) -> bool {
    1 <= step_of(x, y, d).0 < conf.map_width - 1 && 1 <= step_of(x, y, d).1 < conf.map_height - 1
}

/// Create new simple map with rooms and corridors (Moria style).
/// A full run of `iterations` carving steps yields the map as `Ok`; a
/// corridor that cannot advance after three turn retries ends the run
/// early, yielding the map carved so far as `Err`. Getting stuck takes
/// a map only three cells wide or tall: with both dimensions at least
/// four the run always completes, and a run of zero steps returns the
/// untouched wall grid.
pub fn make_map(conf: Config) -> (r: Result<Grid, Grid>)
    requires
        conf.wf(),
    ensures
        match r {
            Ok(m) => gen_ok(m, conf) && (conf.iterations > 0 ==> has_carved_floor(m)),
            Err(m) => gen_ok(m, conf) && has_carved_floor(m),
        },
        conf.iterations == 0 ==> r is Ok,
        conf.iterations == 0 ==> (forall|i: int|
            0 <= i < r->Ok_0.tiles@.len() ==> r->Ok_0.tiles@[i] == Tile::Wall),
        conf.map_width >= 4 && conf.map_height >= 4 ==> r is Ok,
{
    // Start with map filled with walls
    let mut res = Grid::all(conf.map_width, conf.map_height, Tile::Wall);
    proof {
        assert forall|x: int, y: int|
            res.on_map(x, y) && on_rim(res.width as int, res.height as int, x, y) implies #[trigger] res.tile_spec(
            x,
            y,
        ) == Tile::Wall by {
            lemma_idx_in_range(res, x, y);
        }
    }

    // Corridor starting state (random/arbitrary).
    let mut cur_dir = Dir::South;
    let mut cur_x: i32 = rand_range_u64(1, (conf.map_width - 1) as u64) as i32;
    let mut cur_y: i32 = rand_range_u64(1, (conf.map_height - 1) as u64) as i32;

    // Start creating rooms and corridors!
    let mut it: u32 = 0;
    while it < conf.iterations
        invariant
            conf.wf(),
            res.wf(),
            res.rooms_ok(),
            res.width == conf.map_width,
            res.height == conf.map_height,
            res.rooms@.len() <= it,
            it <= conf.iterations,
            1 <= cur_x < conf.map_width - 1,
            1 <= cur_y < conf.map_height - 1,
            it > 0 ==> has_carved_floor(res),
            rim_is_wall(res),
            conf.iterations == 0 ==> (forall|i: int|
                0 <= i < res.tiles@.len() ==> res.tiles@[i] == Tile::Wall),
        decreases conf.iterations - it,
    {
        // Carve corridor.
        let ghost pre_carve = res;
        let _ = res.set_tile_at(cur_x, cur_y, Tile::Floor);
        proof {
            lemma_idx_in_range(pre_carve, cur_x as int, cur_y as int);
            assert(res.tile_spec(cur_x as int, cur_y as int) == Tile::Floor);
            assert forall|x: int, y: int|
                res.on_map(x, y) && on_rim(res.width as int, res.height as int, x, y) implies #[trigger] res.tile_spec(
                x,
                y,
            ) == Tile::Wall by {
                lemma_idx_in_range(pre_carve, x, y);
                if pre_carve.idx_of(x, y) == pre_carve.idx_of(cur_x as int, cur_y as int) {
                    lemma_idx_injective(pre_carve, x, y, cur_x as int, cur_y as int);
                }
                assert(pre_carve.tile_spec(x, y) == Tile::Wall);
            }
        }

        // Generate room if chances are right.
        if rand_range_u64(0, 100) < conf.room_chance as u64 {
            // Build room with corridor pointing at center.
            let new_room = {
                // Choose random room parameters.
                let width = rand_range_u64(
                    conf.min_room_size as u64,
                    conf.max_room_size as u64,
                ) as i32;
                let height = rand_range_u64(
                    conf.min_room_size as u64,
                    conf.max_room_size as u64,
                ) as i32;

                Room { x: cur_x - width / 2, y: cur_y - height / 2, width, height }
            };

            // Try to add room to map (ignore failure and continue).
            let ghost pre_add = res;
            let _ = res.add_room(new_room);
            proof {
                // Rooms are carved to floor, so the corridor cell stays floor.
                assert(pre_add.on_map(cur_x as int, cur_y as int));
                assert(res.tile_spec(cur_x as int, cur_y as int) == Tile::Floor);
                // An accepted room lies inside the safety interior, so
                // the border is untouched.
                assert forall|x: int, y: int|
                    res.on_map(x, y) && on_rim(res.width as int, res.height as int, x, y) implies #[trigger] res.tile_spec(
                    x,
                    y,
                ) == Tile::Wall by {
                    assert(pre_add.on_map(x, y));
                    assert(pre_add.tile_spec(x, y) == Tile::Wall);
                }
            }
        } else if rand_range_u64(0, 100) < conf.turn_chance as u64 {
            // Change corridor generation direction if chances are right.
            cur_dir = cur_dir.cycle();
        }

        // Advance corridor in current direction, checking that the new
        // position is valid.
        let ghost d0 = cur_dir;
        let mut tries: u32 = 0;
        while tries < 4
            invariant_except_break
                tries <= 3,
                cur_dir == (if tries == 0 {
                    d0
                } else if tries == 1 {
                    d0.cycle_spec()
                } else if tries == 2 {
                    d0.cycle_spec().cycle_spec()
                } else {
                    d0.cycle_spec().cycle_spec().cycle_spec()
                }),
                tries >= 1 ==> !step_ok(conf, cur_x as int, cur_y as int, d0),
                tries >= 2 ==> !step_ok(conf, cur_x as int, cur_y as int, d0.cycle_spec()),
                tries >= 3 ==> !step_ok(
                    conf,
                    cur_x as int,
                    cur_y as int,
                    d0.cycle_spec().cycle_spec(),
                ),
            invariant
                conf.wf(),
                res.wf(),
                res.rooms_ok(),
                res.width == conf.map_width,
                res.height == conf.map_height,
                res.rooms@.len() <= it + 1,
                it < conf.iterations,
                1 <= cur_x < conf.map_width - 1,
                1 <= cur_y < conf.map_height - 1,
                tries <= 4,
                has_carved_floor(res),
                rim_is_wall(res),
            decreases 4 - tries,
        {
            // Stop generation prematurely on too many attempts.
            if tries == 3 {
                proof {
                    // Three consecutive compass directions always hold
                    // both senses of one axis, and on a map at least
                    // four wide and four tall one sense of each axis
                    // advances from any interior cell: the cap cannot
                    // be exhausted there.
                    if conf.map_width >= 4 && conf.map_height >= 4 {
                        assert(false);
                    }
                }
                return Err(res);
            }

            // Speculate new position; it is discarded if not valid.
            let (new_x, new_y) = (cur_x, cur_y).advance(cur_dir, 1);

            // Change direction and retry if touching the boundary walls
            // (the map's outer frame).
            let interior = match res.trim_outer_frame(1) {
                Some(interior) => interior,
                None => unreached(),
            };
            let corridor_oob = !interior.contains_point(new_x, new_y);
            if corridor_oob {
                proof {
                    assert(!step_ok(conf, cur_x as int, cur_y as int, cur_dir));
                }
                cur_dir = cur_dir.cycle();
                tries += 1;
                continue;
            }

            // No problem with the new corridor position... perform the
            // advancement.
            cur_x = new_x;
            cur_y = new_y;
            break;
        }
        it += 1;
    }

    // All fine
    Ok(res)
}

} // verus!
