pub mod base;
pub mod gen;

pub use base::Grid;
pub use base::Point;
pub use base::Room;
pub use base::Tile;

use vstd::prelude::*;
use vstd::arithmetic::div_mod::{
    lemma_fundamental_div_mod_converse_div, lemma_fundamental_div_mod_converse_mod,
};
use crate::rng::rand_range_u64;

verus! {

pub const MAP_WIDTH: usize = 80;

pub const MAP_HEIGHT: usize = 50;

#[derive(PartialEq, Eq, Structural, Copy, Clone, Debug)]
pub enum TileType {
    Wall,
    Floor,
}

/// The glyph a tile type is drawn with: a space for floor, a number
/// sign for wall.
pub open spec fn tile_glyph(t: TileType) -> u8 {
    match t {
        TileType::Floor => 32u8,
        TileType::Wall => 35u8,
    }
}

/// Whether `(x, y)` lies on the outer border of the fixed-size map.
pub open spec fn on_border(x: int, y: int) -> bool {
    x == 0 || x == MAP_WIDTH - 1 || y == 0 || y == MAP_HEIGHT - 1
}

/// The tile of the cell at `(x, y)` of a row-major fixed-size map.
pub open spec fn tile_at_xy(map: Seq<TileType>, x: int, y: int) -> TileType {
    map[y * MAP_WIDTH + x]
}

/// The number of cells off the outer border, among the first `n` of a
/// row-major fixed-size map, that hold a wall.
pub open spec fn off_border_wall_count(map: Seq<TileType>, n: int) -> int
    decreases n,
{
    if n <= 0 {
        0
    } else {
        off_border_wall_count(map, n - 1) + if !on_border(
            (n - 1) % (MAP_WIDTH as int),
            (n - 1) / (MAP_WIDTH as int),
        ) && map[n - 1] == TileType::Wall {
            1int
        } else {
            0int
        }
    }
}

/// A count of cells is never negative.
proof fn lemma_off_border_wall_count_nonneg(map: Seq<TileType>, n: int)
    ensures
        off_border_wall_count(map, n) >= 0,
    decreases n,
{
    if n > 0 {
        lemma_off_border_wall_count_nonneg(map, n - 1);
    }
}

/// A buffer holding no wall at all holds no wall off the border.
proof fn lemma_off_border_wall_count_zero(map: Seq<TileType>, n: int)
    requires
        forall|i: int| 0 <= i < map.len() ==> map[i] == TileType::Floor,
        n <= map.len(),
    ensures
        off_border_wall_count(map, n) == 0,
    decreases n,
{
    if n > 0 {
        lemma_off_border_wall_count_zero(map, n - 1);
    }
}

/// Writing one wall tile adds at most one wall off the border, and none
/// at all when the written cell lies on the border.
proof fn lemma_off_border_wall_count_update(a: Seq<TileType>, b: Seq<TileType>, j: int, n: int)
    requires
        b == a.update(j, TileType::Wall),
        0 <= j < a.len(),
        n <= a.len(),
    ensures
        off_border_wall_count(b, n) <= off_border_wall_count(a, n) + 1,
        on_border(j % (MAP_WIDTH as int), j / (MAP_WIDTH as int)) ==> off_border_wall_count(b, n)
            <= off_border_wall_count(a, n),
        n <= j ==> off_border_wall_count(b, n) == off_border_wall_count(a, n),
    decreases n,
{
    if n > 0 {
        lemma_off_border_wall_count_update(a, b, j, n - 1);
        if n - 1 != j {
            assert(b[n - 1] == a[n - 1]);
        }
    }
}

/// Go from cartesian coordinates to map tile index
pub fn xy_idx(x: usize, y: usize) -> (r: usize)
    requires
        x < MAP_WIDTH,
        y < MAP_HEIGHT,
    ensures
        r == y * MAP_WIDTH + x,
        r < MAP_WIDTH * MAP_HEIGHT,
{
    y * MAP_WIDTH + x
}

/// Generate empty map
pub fn empty_map() -> (r: Vec<TileType>)
    ensures
        r@.len() == MAP_WIDTH * MAP_HEIGHT,
        forall|i: int| 0 <= i < r@.len() ==> r@[i] == TileType::Floor,
{
    vec![TileType::Floor; MAP_WIDTH * MAP_HEIGHT]
}

/// Generate random map: a wall all along the border and some scattered
/// walls inside — at most 400 of them.
pub fn new_map() -> (r: Vec<TileType>)
    ensures
        r@.len() == MAP_WIDTH * MAP_HEIGHT,
        forall|x: int, y: int|
            0 <= x < MAP_WIDTH && 0 <= y < MAP_HEIGHT && on_border(x, y) ==> #[trigger] tile_at_xy(
                r@,
                x,
                y,
            ) == TileType::Wall,
        off_border_wall_count(r@, r@.len() as int) <= 400,
{
    let mut result = empty_map();
    proof {
        lemma_off_border_wall_count_zero(result@, result@.len() as int);
    }

    // Border walls
    let mut i: usize = 0;
    while i < MAP_WIDTH
        invariant
            result@.len() == MAP_WIDTH * MAP_HEIGHT,
            i <= MAP_WIDTH,
            forall|x: int|
                0 <= x < i ==> #[trigger] tile_at_xy(result@, x, 0) == TileType::Wall && tile_at_xy(
                    result@,
                    x,
                    MAP_HEIGHT - 1,
                ) == TileType::Wall,
            off_border_wall_count(result@, result@.len() as int) == 0,
        decreases MAP_WIDTH - i,
    {
        let ghost pre = result@;
        let a = xy_idx(i, 0);
        result.set(a, TileType::Wall);
        let ghost mid = result@;
        let b = xy_idx(i, MAP_HEIGHT - 1);
        result.set(b, TileType::Wall);
        proof {
            lemma_fundamental_div_mod_converse_mod(a as int, MAP_WIDTH as int, 0, i as int);
            lemma_fundamental_div_mod_converse_div(a as int, MAP_WIDTH as int, 0, i as int);
            lemma_fundamental_div_mod_converse_mod(
                b as int,
                MAP_WIDTH as int,
                MAP_HEIGHT - 1,
                i as int,
            );
            lemma_fundamental_div_mod_converse_div(
                b as int,
                MAP_WIDTH as int,
                MAP_HEIGHT - 1,
                i as int,
            );
            lemma_off_border_wall_count_nonneg(result@, result@.len() as int);
            lemma_off_border_wall_count_update(pre, mid, a as int, pre.len() as int);
            lemma_off_border_wall_count_update(mid, result@, b as int, mid.len() as int);
            assert forall|x: int|
                0 <= x < i + 1 implies #[trigger] tile_at_xy(result@, x, 0) == TileType::Wall
                && tile_at_xy(result@, x, MAP_HEIGHT - 1) == TileType::Wall by {
                if x < i {
                    assert(tile_at_xy(pre, x, 0) == TileType::Wall);
                    assert(tile_at_xy(pre, x, MAP_HEIGHT - 1) == TileType::Wall);
                }
            }
        }
        i += 1;
    }
    let mut i: usize = 0;
    while i < MAP_HEIGHT
        invariant
            result@.len() == MAP_WIDTH * MAP_HEIGHT,
            i <= MAP_HEIGHT,
            forall|x: int|
                0 <= x < MAP_WIDTH ==> #[trigger] tile_at_xy(result@, x, 0) == TileType::Wall
                    && tile_at_xy(result@, x, MAP_HEIGHT - 1) == TileType::Wall,
            forall|y: int|
                0 <= y < i ==> #[trigger] tile_at_xy(result@, 0, y) == TileType::Wall && tile_at_xy(
                    result@,
                    MAP_WIDTH - 1,
                    y,
                ) == TileType::Wall,
            off_border_wall_count(result@, result@.len() as int) == 0,
        decreases MAP_HEIGHT - i,
    {
        let ghost pre = result@;
        let a = xy_idx(0, i);
        result.set(a, TileType::Wall);
        let ghost mid = result@;
        let b = xy_idx(MAP_WIDTH - 1, i);
        result.set(b, TileType::Wall);
        proof {
            lemma_fundamental_div_mod_converse_mod(a as int, MAP_WIDTH as int, i as int, 0);
            lemma_fundamental_div_mod_converse_div(a as int, MAP_WIDTH as int, i as int, 0);
            lemma_fundamental_div_mod_converse_mod(
                b as int,
                MAP_WIDTH as int,
                i as int,
                MAP_WIDTH - 1,
            );
            lemma_fundamental_div_mod_converse_div(
                b as int,
                MAP_WIDTH as int,
                i as int,
                MAP_WIDTH - 1,
            );
            lemma_off_border_wall_count_nonneg(result@, result@.len() as int);
            lemma_off_border_wall_count_update(pre, mid, a as int, pre.len() as int);
            lemma_off_border_wall_count_update(mid, result@, b as int, mid.len() as int);
            assert forall|x: int|
                0 <= x < MAP_WIDTH implies #[trigger] tile_at_xy(result@, x, 0) == TileType::Wall
                && tile_at_xy(result@, x, MAP_HEIGHT - 1) == TileType::Wall by {
                assert(tile_at_xy(pre, x, 0) == TileType::Wall);
                assert(tile_at_xy(pre, x, MAP_HEIGHT - 1) == TileType::Wall);
            }
            assert forall|y: int|
                0 <= y < i + 1 implies #[trigger] tile_at_xy(result@, 0, y) == TileType::Wall
                && tile_at_xy(result@, MAP_WIDTH - 1, y) == TileType::Wall by {
                if y < i {
                    assert(tile_at_xy(pre, 0, y) == TileType::Wall);
                    assert(tile_at_xy(pre, MAP_WIDTH - 1, y) == TileType::Wall);
                }
            }
        }
        i += 1;
    }

    proof {
        assert forall|x: int, y: int|
            0 <= x < MAP_WIDTH && 0 <= y < MAP_HEIGHT && on_border(x, y) implies #[trigger] tile_at_xy(
            result@,
            x,
            y,
        ) == TileType::Wall by {
            if y == 0 {
                assert(tile_at_xy(result@, x, 0) == TileType::Wall);
            } else if y == MAP_HEIGHT - 1 {
                assert(tile_at_xy(result@, x, MAP_HEIGHT - 1) == TileType::Wall);
            } else if x == 0 {
                assert(tile_at_xy(result@, 0, y) == TileType::Wall);
            } else {
                assert(tile_at_xy(result@, MAP_WIDTH - 1, y) == TileType::Wall);
            }
        }
    }

    // Generate some random walls
    let mut t: usize = 0;
    while t < 400
        invariant
            result@.len() == MAP_WIDTH * MAP_HEIGHT,
            forall|x: int, y: int|
                0 <= x < MAP_WIDTH && 0 <= y < MAP_HEIGHT && on_border(x, y) ==> #[trigger] tile_at_xy(
                    result@,
                    x,
                    y,
                ) == TileType::Wall,
            t <= 400,
            off_border_wall_count(result@, result@.len() as int) <= t,
        decreases 400 - t,
    {
        let x = rand_range_u64(1, (MAP_WIDTH - 1) as u64 + 1) as usize;
        let y = rand_range_u64(1, (MAP_HEIGHT - 1) as u64 + 1) as usize;

        let ghost pre = result@;
        let a = xy_idx(x, y);
        result.set(a, TileType::Wall);
        proof {
            lemma_off_border_wall_count_update(pre, result@, a as int, pre.len() as int);
            assert forall|px: int, py: int|
                0 <= px < MAP_WIDTH && 0 <= py < MAP_HEIGHT && on_border(px, py) implies #[trigger] tile_at_xy(
                result@,
                px,
                py,
            ) == TileType::Wall by {
                assert(tile_at_xy(pre, px, py) == TileType::Wall);
            }
        }
        t += 1;
    }

    result
}

/// Draw the map: one glyph for each tile, row-major.
pub fn draw_map(map: &[TileType]) -> (r: Vec<u8>)
    ensures
        r@.len() == map@.len(),
        forall|i: int| 0 <= i < r@.len() ==> r@[i] == tile_glyph(map@[i]),
{
    let mut glyphs: Vec<u8> = Vec::new();
    let mut i: usize = 0;
    while i < map.len()
        invariant
            i <= map@.len(),
            glyphs@.len() == i,
            forall|k: int| 0 <= k < i ==> glyphs@[k] == tile_glyph(map@[k]),
        decreases map@.len() - i,
    {
        let g: u8 = match map[i] {
            TileType::Floor => 32,
            TileType::Wall => 35,
        };
        glyphs.push(g);
        i += 1;
    }
    glyphs
}

} // verus!
