pub mod rnc;

use vstd::prelude::*;
use crate::map::base::{lemma_idx_in_range, lemma_index_roundtrip_xy, Grid, Tile};
use crate::rng::rand_range_u64;

verus! {

/// Whether `(x, y)` lies on the outer border of a map with the given
/// dimensions.
pub open spec fn on_rim(width: int, height: int, x: int, y: int) -> bool {
    x == 0 || x == width - 1 || y == 0 || y == height - 1
}

/// The number of cells off the outer border, among the first `n` of
/// the map's tile buffer, that hold a wall.
pub open spec fn interior_wall_count(m: Grid, n: int) -> int
    decreases n,
{
    if n <= 0 {
        0
    } else {
        interior_wall_count(m, n - 1) + if !on_rim(
            m.width as int,
            m.height as int,
            m.x_of(n - 1),
            m.y_of(n - 1),
        ) && m.tiles@[n - 1] == Tile::Wall {
            1int
        } else {
            0int
        }
    }
}

/// A count of cells is never negative.
proof fn lemma_interior_wall_count_nonneg(m: Grid, n: int)
    ensures
        interior_wall_count(m, n) >= 0,
    decreases n,
{
    if n > 0 {
        lemma_interior_wall_count_nonneg(m, n - 1);
    }
}

/// A buffer holding no wall at all holds no wall off the border.
proof fn lemma_interior_wall_count_zero(m: Grid, n: int)
    requires
        forall|i: int| 0 <= i < m.tiles@.len() ==> m.tiles@[i] == Tile::Floor,
        n <= m.tiles@.len(),
    ensures
        interior_wall_count(m, n) == 0,
    decreases n,
{
    if n > 0 {
        lemma_interior_wall_count_zero(m, n - 1);
    }
}

/// Writing one wall tile adds at most one wall off the border, and none
/// at all when the written cell lies on the border.
proof fn lemma_interior_wall_count_update(a: Grid, b: Grid, j: int, n: int)
    requires
        a.width == b.width,
        a.height == b.height,
        b.tiles@ == a.tiles@.update(j, Tile::Wall),
        0 <= j < a.tiles@.len(),
        n <= a.tiles@.len(),
    ensures
        interior_wall_count(b, n) <= interior_wall_count(a, n) + 1,
        on_rim(a.width as int, a.height as int, a.x_of(j), a.y_of(j)) ==> interior_wall_count(b, n)
            <= interior_wall_count(a, n),
        n <= j ==> interior_wall_count(b, n) == interior_wall_count(a, n),
    decreases n,
{
    if n > 0 {
        lemma_interior_wall_count_update(a, b, j, n - 1);
        if n - 1 != j {
            assert(b.tiles@[n - 1] == a.tiles@[n - 1]);
        }
    }
}

/// Generate random ugly map: a wall all along the border and some
/// scattered walls inside — at most 400 of them.
pub fn make_ugly_map(width: usize, height: usize) -> (r: Grid)
    requires
        2 <= width,
        2 <= height,
        width * height <= usize::MAX,
        width <= i32::MAX,
        height <= i32::MAX,
    ensures
        r.wf(),
        r.width == width,
        r.height == height,
        r.rooms@.len() == 0,
        forall|x: int, y: int|
            r.on_map(x, y) && on_rim(width as int, height as int, x, y) ==> #[trigger] r.tile_spec(
                x,
                y,
            ) == Tile::Wall,
        interior_wall_count(r, r.tiles@.len() as int) <= 400,
{
    let mut res = Grid::empty(width, height);
    proof {
        lemma_interior_wall_count_zero(res, res.tiles@.len() as int);
    }

    // Border walls
    let mut i: usize = 0;
    while i < width
        invariant
            res.wf(),
            res.width == width,
            res.height == height,
            res.rooms@.len() == 0,
            2 <= width <= i32::MAX,
            2 <= height <= i32::MAX,
            i <= width,
            forall|x: int|
                0 <= x < i ==> #[trigger] res.tile_spec(x, 0) == Tile::Wall && res.tile_spec(
                    x,
                    height - 1,
                ) == Tile::Wall,
            interior_wall_count(res, res.tiles@.len() as int) == 0,
        decreases width - i,
    {
        let ghost pre = res;
        let _ = res.set_tile_at(i as i32, 0, Tile::Wall);
        let ghost mid = res;
        let _ = res.set_tile_at(i as i32, (height - 1) as i32, Tile::Wall);
        proof {
            lemma_index_roundtrip_xy(pre, i as int, 0);
            lemma_index_roundtrip_xy(mid, i as int, height - 1);
            lemma_idx_in_range(pre, i as int, 0);
            lemma_idx_in_range(mid, i as int, height - 1);
            lemma_interior_wall_count_nonneg(res, res.tiles@.len() as int);
            lemma_interior_wall_count_update(
                pre,
                mid,
                pre.idx_of(i as int, 0),
                pre.tiles@.len() as int,
            );
            lemma_interior_wall_count_update(
                mid,
                res,
                mid.idx_of(i as int, height - 1),
                mid.tiles@.len() as int,
            );
            assert forall|x: int| 0 <= x < i + 1 implies #[trigger] res.tile_spec(x, 0)
                == Tile::Wall && res.tile_spec(x, height - 1) == Tile::Wall by {
                lemma_idx_in_range(pre, x, 0);
                lemma_idx_in_range(pre, x, height - 1);
                lemma_idx_in_range(pre, i as int, 0);
                lemma_idx_in_range(pre, i as int, height - 1);
                if x < i {
                    assert(pre.tile_spec(x, 0) == Tile::Wall);
                    assert(pre.tile_spec(x, height - 1) == Tile::Wall);
                }
            }
        }
        i += 1;
    }
    let mut i: usize = 0;
    while i < height
        invariant
            res.wf(),
            res.width == width,
            res.height == height,
            res.rooms@.len() == 0,
            2 <= width <= i32::MAX,
            2 <= height <= i32::MAX,
            i <= height,
            forall|x: int|
                0 <= x < width ==> #[trigger] res.tile_spec(x, 0) == Tile::Wall && res.tile_spec(
                    x,
                    height - 1,
                ) == Tile::Wall,
            forall|y: int|
                0 <= y < i ==> #[trigger] res.tile_spec(0, y) == Tile::Wall && res.tile_spec(
                    width - 1,
                    y,
                ) == Tile::Wall,
            interior_wall_count(res, res.tiles@.len() as int) == 0,
        decreases height - i,
    {
        let ghost pre = res;
        let _ = res.set_tile_at(0, i as i32, Tile::Wall);
        let ghost mid = res;
        let _ = res.set_tile_at((width - 1) as i32, i as i32, Tile::Wall);
        proof {
            lemma_index_roundtrip_xy(pre, 0, i as int);
            lemma_index_roundtrip_xy(mid, width - 1, i as int);
            lemma_idx_in_range(pre, 0, i as int);
            lemma_idx_in_range(mid, width - 1, i as int);
            lemma_interior_wall_count_nonneg(res, res.tiles@.len() as int);
            lemma_interior_wall_count_update(
                pre,
                mid,
                pre.idx_of(0, i as int),
                pre.tiles@.len() as int,
            );
            lemma_interior_wall_count_update(
                mid,
                res,
                mid.idx_of(width - 1, i as int),
                mid.tiles@.len() as int,
            );
            assert forall|x: int| 0 <= x < width implies #[trigger] res.tile_spec(x, 0)
                == Tile::Wall && res.tile_spec(x, height - 1) == Tile::Wall by {
                lemma_idx_in_range(pre, x, 0);
                lemma_idx_in_range(pre, x, height - 1);
                lemma_idx_in_range(pre, 0, i as int);
                lemma_idx_in_range(pre, width - 1, i as int);
                assert(pre.tile_spec(x, 0) == Tile::Wall);
                assert(pre.tile_spec(x, height - 1) == Tile::Wall);
            }
            assert forall|y: int| 0 <= y < i + 1 implies #[trigger] res.tile_spec(0, y)
                == Tile::Wall && res.tile_spec(width - 1, y) == Tile::Wall by {
                lemma_idx_in_range(pre, 0, y);
                lemma_idx_in_range(pre, width - 1, y);
                lemma_idx_in_range(pre, 0, i as int);
                lemma_idx_in_range(pre, width - 1, i as int);
                if y < i {
                    assert(pre.tile_spec(0, y) == Tile::Wall);
                    assert(pre.tile_spec(width - 1, y) == Tile::Wall);
                }
            }
        }
        i += 1;
    }

    proof {
        assert forall|x: int, y: int|
            res.on_map(x, y) && on_rim(width as int, height as int, x, y) implies #[trigger] res.tile_spec(
            x,
            y,
        ) == Tile::Wall by {
            if y == 0 {
                assert(res.tile_spec(x, 0) == Tile::Wall);
            } else if y == height - 1 {
                assert(res.tile_spec(x, height - 1) == Tile::Wall);
            } else if x == 0 {
                assert(res.tile_spec(0, y) == Tile::Wall);
            } else {
                assert(res.tile_spec(width - 1, y) == Tile::Wall);
            }
        }
    }

    // Generate some random walls
    let mut t: usize = 0;
    while t < 400
        invariant
            res.wf(),
            res.width == width,
            res.height == height,
            res.rooms@.len() == 0,
            2 <= width <= i32::MAX,
            2 <= height <= i32::MAX,
            forall|x: int, y: int|
                res.on_map(x, y) && on_rim(width as int, height as int, x, y) ==> #[trigger] res.tile_spec(
                    x,
                    y,
                ) == Tile::Wall,
            t <= 400,
            interior_wall_count(res, res.tiles@.len() as int) <= t,
        decreases 400 - t,
    {
        let x = rand_range_u64(1, (width - 1) as u64 + 1) as i32;
        let y = rand_range_u64(1, (height - 1) as u64 + 1) as i32;

        let ghost pre = res;
        let _ = res.set_tile_at(x, y, Tile::Wall);
        proof {
            lemma_idx_in_range(pre, x as int, y as int);
            lemma_interior_wall_count_update(
                pre,
                res,
                pre.idx_of(x as int, y as int),
                pre.tiles@.len() as int,
            );
            assert forall|px: int, py: int|
                res.on_map(px, py) && on_rim(width as int, height as int, px, py) implies #[trigger] res.tile_spec(
                px,
                py,
            ) == Tile::Wall by {
                lemma_idx_in_range(pre, px, py);
                lemma_idx_in_range(pre, x as int, y as int);
                assert(pre.tile_spec(px, py) == Tile::Wall);
            }
        }
        t += 1;
    }

    res
}

} // verus!
