use vstd::prelude::*;
use vstd::pervasive::VecAdditionalExecFns;
use vstd::arithmetic::div_mod::{
    lemma_fundamental_div_mod_converse_div, lemma_fundamental_div_mod_converse_mod,
};
use crate::utils::rect::{Rect, SimpleRect};

verus! {

/// A map tile
#[derive(PartialEq, Eq, Structural, Copy, Clone, Debug)]
pub enum Tile {
    Wall,
    Floor,
}

impl Tile {
    pub fn is_passable(self) -> (r: bool)
        ensures
            r == (self == Tile::Floor),
    {
        self == Tile::Floor
    }
}

/// A point of the map plane.
#[derive(PartialEq, Eq, Structural, Copy, Clone, Debug)]
pub struct Point {
    pub x: i32,
    pub y: i32,
}

impl Point {
    pub fn new(x: i32, y: i32) -> (r: Point)
        ensures
            r == (Point { x, y }),
    {
        Point { x, y }
    }
}

/// A map room
#[derive(PartialEq, Eq, Structural, Copy, Clone, Debug)]
pub struct Room {
    pub x: i32,
    pub y: i32,
    pub width: i32,
    pub height: i32,
}

impl Room {
    /// Two rooms intersect when their open interiors overlap on both
    /// axes; rooms that merely touch along an edge do not intersect.
    pub open spec fn intersects(self, other: Room) -> bool {
        (self.y < other.y + other.height && other.y < self.y + self.height) && (self.x < other.x
            + other.width && other.x < self.x + self.width)
    }

    /// Whether the room covers the cell at `(x, y)`.
    pub open spec fn covers(self, x: int, y: int) -> bool {
        self.x <= x < self.x + self.width && self.y <= y < self.y + self.height
    }

    pub fn intersect(&self, other: &Room) -> (r: bool)
        ensures
            r == self.intersects(*other),
    {
        let bottom: i64 = self.y as i64 + self.height as i64;
        let right: i64 = self.x as i64 + self.width as i64;
        let other_bot: i64 = other.y as i64 + other.height as i64;
        let other_right: i64 = other.x as i64 + other.width as i64;

        ((self.y as i64) < other_bot && (other.y as i64) < bottom) && ((self.x as i64)
            < other_right && (other.x as i64) < right)
    }
}

/// Rooms intersect symmetrically: whichever of the two is asked about
/// the other, the answer is the same.
pub proof fn lemma_intersect_symmetric(a: Room, b: Room)
    ensures
        a.intersects(b) == b.intersects(a),
{
}

/// The eight Moore neighborhood offsets, in the order they are probed.
pub open spec fn neighbor_offsets() -> Seq<(int, int)> {
    seq![
        (1int, 0int),
        (0int, 1int),
        (-1int, 0int),
        (0int, -1int),
        (1int, 1int),
        (1int, -1int),
        (-1int, 1int),
        (-1int, -1int),
    ]
}

/// The cost of a step to the neighbor at the given offset, in
/// hundredths: 100 for an axis-aligned step, 142 for a diagonal one.
pub open spec fn offset_cost(off: (int, int)) -> u32 {
    if off.0 == 0 || off.1 == 0 {
        100u32
    } else {
        142u32
    }
}

/// The glyph a tile is drawn with: a space for floor, a number sign for
/// wall.
pub open spec fn glyph_of(t: Tile) -> u8 {
    match t {
        Tile::Floor => 32u8,
        Tile::Wall => 35u8,
    }
}

/// The map
pub struct Grid {
    pub width: usize,
    pub height: usize,
    pub tiles: Vec<Tile>,
    pub rooms: Vec<Room>,
}

impl Grid {
    /// The tile buffer holds exactly one tile for every cell, and both
    /// dimensions fit the signed 32-bit coordinate range.
    pub open spec fn wf(self) -> bool {
        &&& self.width * self.height == self.tiles@.len()
        &&& self.width <= i32::MAX
        &&& self.height <= i32::MAX
    }

    /// The row-major index of the cell at `(x, y)`.
    pub open spec fn idx_of(self, x: int, y: int) -> int {
        y * self.width + x
    }

    /// The column of the cell with the given row-major index.
    pub open spec fn x_of(self, idx: int) -> int {
        idx % (self.width as int)
    }

    /// The row of the cell with the given row-major index.
    pub open spec fn y_of(self, idx: int) -> int {
        idx / (self.width as int)
    }

    /// Whether `(x, y)` lies on the map.
    pub open spec fn on_map(self, x: int, y: int) -> bool {
        0 <= x < self.width && 0 <= y < self.height
    }

    /// The tile of the cell at `(x, y)`.
    pub open spec fn tile_spec(self, x: int, y: int) -> Tile {
        self.tiles@[self.idx_of(x, y)]
    }

    /// The room lies inside the safety interior: the map with a one-tile
    /// margin trimmed from every side.
    pub open spec fn room_in_interior(self, room: Room) -> bool {
        &&& 2 <= self.width && 2 <= self.height
        &&& 1 <= room.x && room.x + room.width <= self.width - 1
        &&& 1 <= room.y && room.y + room.height <= self.height - 1
    }

    /// Every accepted room lies inside the safety interior, and no two
    /// accepted rooms intersect.
    pub open spec fn rooms_ok(self) -> bool {
        &&& forall|i: int|
            0 <= i < self.rooms@.len() ==> self.room_in_interior(#[trigger] self.rooms@[i])
        &&& forall|i: int, j: int|
            0 <= i < j < self.rooms@.len() ==> !(#[trigger] self.rooms@[i].intersects(
                self.rooms@[j],
            ))
    }

    /// The map accepts a room exactly when the room lies inside the
    /// safety interior and meets no previously accepted room.
    pub open spec fn accepts(self, room: Room) -> bool {
        &&& self.room_in_interior(room)
        &&& forall|i: int| 0 <= i < self.rooms@.len() ==> !(#[trigger] self.rooms@[i].intersects(room))
    }

    /// New map made entrirely from specified tile
    pub fn all(width: usize, height: usize, tile: Tile) -> (r: Self)
        requires
            0 < width,
            0 < height,
            width * height <= usize::MAX,
            width <= i32::MAX,
            height <= i32::MAX,
        ensures
            r.wf(),
            r.width == width,
            r.height == height,
            r.rooms@.len() == 0,
            forall|i: int| 0 <= i < r.tiles@.len() ==> r.tiles@[i] == tile,
    {
        Grid { width, height, tiles: vec![tile; width * height], rooms: vec![] }
    }

    /// New map made entrirely from floor tiles
    pub fn empty(width: usize, height: usize) -> (r: Self)
        requires
            0 < width,
            0 < height,
            width * height <= usize::MAX,
            width <= i32::MAX,
            height <= i32::MAX,
        ensures
            r.wf(),
            r.width == width,
            r.height == height,
            r.rooms@.len() == 0,
            forall|i: int| 0 <= i < r.tiles@.len() ==> r.tiles@[i] == Tile::Floor,
    {
        Self::all(width, height, Tile::Floor)
    }

    /// Get the map width
    pub fn get_width(&self) -> (r: usize)
        ensures
            r == self.width,
    {
        self.width
    }

    /// Get the map height
    pub fn get_height(&self) -> (r: usize)
        ensures
            r == self.height,
    {
        self.height
    }

    /// Get a view of the internal tile storage
    pub fn tiles(&self) -> (r: &Vec<Tile>)
        ensures
            r@ == self.tiles@,
    {
        &self.tiles
    }

    /// Go from cartesian coordinates to map tile index
    pub fn xy_idx(&self, x: usize, y: usize) -> (r: usize)
        requires
            self.wf(),
            x < self.width,
            y < self.height,
        ensures
            r == self.idx_of(x as int, y as int),
            r < self.tiles@.len(),
    {
        let n = self.tiles.len();
        proof {
            assert(y * self.width + x < self.height * self.width) by (nonlinear_arith)
                requires
                    x < self.width,
                    y < self.height,
            ;
            assert(self.height * self.width == self.width * self.height) by (nonlinear_arith);
            assert(y * self.width + x < n);
        }
        y * self.width + x
    }

    /// Go from map idx to map cartesian coordinates
    pub fn idx_xy(&self, idx: usize) -> (r: Point)
        requires
            self.wf(),
            0 < self.width,
            idx < self.tiles@.len(),
        ensures
            r.x == self.x_of(idx as int),
            r.y == self.y_of(idx as int),
            self.on_map(r.x as int, r.y as int),
    {
        proof {
            assert(idx / self.width < self.height && idx % self.width < self.width)
                by (nonlinear_arith)
                requires
                    0 < self.width,
                    idx < self.width * self.height,
            ;
        }
        Point { x: (idx % self.width) as i32, y: (idx / self.width) as i32 }
    }

    /// Get tile at specified position
    pub fn at(&self, x: i32, y: i32) -> (r: Tile)
        requires
            self.wf(),
            self.on_map(x as int, y as int),
        ensures
            r == self.tiles@[self.idx_of(x as int, y as int)],
    {
        let idx = self.xy_idx(x as usize, y as usize);
        self.tiles[idx]
    }

    /// Bounds-checked tile lookup: coordinates off the map yield no tile
    /// rather than wrapping or clamping.
    pub fn tile_at(&self, x: i32, y: i32) -> (r: Option<Tile>)
        requires
            self.wf(),
        ensures
            self.on_map(x as int, y as int) ==> r == Some(
                self.tiles@[self.idx_of(x as int, y as int)],
            ),
            !self.on_map(x as int, y as int) ==> r is None,
    {
        if x >= 0 && y >= 0 && (x as usize) < self.width && (y as usize) < self.height {
            Some(self.at(x, y))
        } else {
            None
        }
    }

    /// Bounds-checked tile write: reports whether the write happened;
    /// coordinates off the map leave the map unchanged.
    pub fn set_tile_at(&mut self, x: i32, y: i32, tile: Tile) -> (ok: bool)
        requires
            old(self).wf(),
        ensures
            final(self).wf(),
            final(self).width == old(self).width,
            final(self).height == old(self).height,
            final(self).rooms@ == old(self).rooms@,
            ok == old(self).on_map(x as int, y as int),
            ok ==> final(self).tiles@ == old(self).tiles@.update(
                old(self).idx_of(x as int, y as int),
                tile,
            ),
            !ok ==> final(self).tiles@ == old(self).tiles@,
    {
        if x >= 0 && y >= 0 && (x as usize) < self.width && (y as usize) < self.height {
            let idx = self.xy_idx(x as usize, y as usize);
            self.tiles.set(idx, tile);
            true
        } else {
            false
        }
    }

    /// Tries to add rectangular room to map. Returns success as boolean.
    /// The room is accepted, carved to floor and recorded exactly when
    /// it lies inside the safety interior and meets no room accepted
    /// before it; a rejected room leaves the map unchanged.
    pub fn add_room(&mut self, new_room: Room) -> (ok: bool)
        requires
            old(self).wf(),
            old(self).rooms_ok(),
        ensures
            final(self).wf(),
            final(self).rooms_ok(),
            final(self).width == old(self).width,
            final(self).height == old(self).height,
            final(self).tiles@.len() == old(self).tiles@.len(),
            ok == old(self).accepts(new_room),
            !ok ==> *final(self) == *old(self),
            ok ==> final(self).rooms@ == old(self).rooms@.push(new_room),
            ok ==> forall|px: int, py: int|
                old(self).on_map(px, py) ==> final(self).tiles@[old(self).idx_of(px, py)] == (
                if new_room.covers(px, py) {
                    Tile::Floor
                } else {
                    old(self).tiles@[old(self).idx_of(px, py)]
                }),
    {
        // Cannot add room if it does not respect map bounds.
        let interior = match self.trim_outer_frame(1) {
            Some(interior) => interior,
            None => {
                return false;
            },
        };
        if !interior.contains_rect(&SimpleRect::from(new_room.get_corners())) {
            return false;
        }

        // Cannot add room if it intersects with already existing rooms.
        let mut i: usize = 0;
        while i < self.rooms.len()
            invariant
                *self == *old(self),
                old(self).wf(),
                old(self).rooms_ok(),
                i <= self.rooms@.len(),
                forall|k: int| 0 <= k < i ==> !(#[trigger] self.rooms@[k].intersects(new_room)),
            decreases self.rooms@.len() - i,
        {
            if self.rooms[i].intersect(&new_room) {
                return false;
            }
            i += 1;
        }

        let ghost m0 = *self;
        assert(m0.accepts(new_room));

        // Carve room into map.
        let mut y: i32 = 0;
        while y < new_room.height
            invariant
                m0 == *old(self),
                m0.accepts(new_room),
                m0.wf(),
                self.wf(),
                self.width == m0.width,
                self.height == m0.height,
                self.rooms@ == m0.rooms@,
                self.tiles@.len() == m0.tiles@.len(),
                0 <= y,
                y <= new_room.height || y == 0,
                forall|px: int, py: int|
                    m0.on_map(px, py) ==> self.tiles@[m0.idx_of(px, py)] == (if new_room.covers(
                        px,
                        py,
                    ) && py < new_room.y + y {
                        Tile::Floor
                    } else {
                        m0.tiles@[m0.idx_of(px, py)]
                    }),
            decreases new_room.height - y,
        {
            let mut x: i32 = 0;
            while x < new_room.width
                invariant
                    m0 == *old(self),
                    m0.accepts(new_room),
                    m0.wf(),
                    self.wf(),
                    self.width == m0.width,
                    self.height == m0.height,
                    self.rooms@ == m0.rooms@,
                    self.tiles@.len() == m0.tiles@.len(),
                    0 <= y < new_room.height,
                    0 <= x,
                    x <= new_room.width || x == 0,
                    forall|px: int, py: int|
                        m0.on_map(px, py) ==> self.tiles@[m0.idx_of(px, py)] == (
                        if new_room.covers(px, py) && (py < new_room.y + y || (py == new_room.y + y
                            && px < new_room.x + x)) {
                            Tile::Floor
                        } else {
                            m0.tiles@[m0.idx_of(px, py)]
                        }),
                decreases new_room.width - x,
            {
                let sx = new_room.x + x;
                let sy = new_room.y + y;
                let ghost pre = *self;
                let carved = self.set_tile_at(sx, sy, Tile::Floor);
                proof {
                    assert(pre.on_map(sx as int, sy as int));
                    assert(carved);
                    assert forall|px: int, py: int| m0.on_map(px, py) implies self.tiles@[m0.idx_of(
                        px,
                        py,
                    )] == (if new_room.covers(px, py) && (py < new_room.y + y || (py == new_room.y
                        + y && px < new_room.x + x + 1)) {
                        Tile::Floor
                    } else {
                        m0.tiles@[m0.idx_of(px, py)]
                    }) by {
                        lemma_idx_in_range(m0, px, py);
                        lemma_idx_in_range(m0, sx as int, sy as int);
                        if px != sx as int || py != sy as int {
                            if m0.idx_of(px, py) == m0.idx_of(sx as int, sy as int) {
                                lemma_idx_injective(m0, px, py, sx as int, sy as int);
                            }
                        }
                    }
                }
                x += 1;
            }
            y += 1;
        }

        // Keep track of room structure.
        let ghost before_push = *self;
        self.rooms.push(new_room);

        proof {
            assert forall|a: int| 0 <= a < self.rooms@.len() implies self.room_in_interior(
                #[trigger] self.rooms@[a],
            ) by {
                if a < m0.rooms@.len() {
                    assert(self.rooms@[a] == m0.rooms@[a]);
                }
            }
            assert forall|a: int, b: int| 0 <= a < b < self.rooms@.len() implies !(
            #[trigger] self.rooms@[a].intersects(self.rooms@[b])) by {
                if b < m0.rooms@.len() {
                    assert(self.rooms@[a] == m0.rooms@[a]);
                    assert(self.rooms@[b] == m0.rooms@[b]);
                } else {
                    assert(self.rooms@[a] == m0.rooms@[a]);
                    assert(self.rooms@[b] == new_room);
                }
            }
        }

        // All is fine.
        true
    }

    /// Whether the tile with the given index blocks sight.
    pub fn is_opaque(&self, idx: usize) -> (r: bool)
        requires
            idx < self.tiles@.len(),
        ensures
            r == (self.tiles@[idx as int] != Tile::Floor),
    {
        !self.tiles[idx].is_passable()
    }

    /// Whether the neighbor of `(x, y)` at the given offset can be
    /// walked to: it lies on the map and is passable.
    pub open spec fn exit_ok(self, x: int, y: int, off: (int, int)) -> bool {
        self.on_map(x + off.0, y + off.1) && self.tiles@[self.idx_of(x + off.0, y + off.1)]
            == Tile::Floor
    }

    /// The walkable exits of the cell at `(x, y)` among the first `n`
    /// neighborhood offsets, each exit with its tile index and its step
    /// cost.
    pub open spec fn exits_upto(self, x: int, y: int, n: int) -> Seq<(usize, u32)>
        decreases n,
    {
        if n <= 0 {
            Seq::empty()
        } else {
            let off = neighbor_offsets()[n - 1];
            let prev = self.exits_upto(x, y, n - 1);
            if self.exit_ok(x, y, off) {
                prev.push((self.idx_of(x + off.0, y + off.1) as usize, offset_cost(off)))
            } else {
                prev
            }
        }
    }

    /// The walkable neighbors of the tile with the given index: every
    /// passable one of the eight surrounding cells, with its tile index
    /// and its step cost in hundredths (an axis-aligned step costs 100,
    /// a diagonal one 142).
    pub fn get_available_exits(&self, idx: usize) -> (r: Vec<(usize, u32)>)
        requires
            self.wf(),
            0 < self.width,
            idx < self.tiles@.len(),
        ensures
            r@ == self.exits_upto(self.x_of(idx as int), self.y_of(idx as int), 8),
    {
        let Point { x, y } = self.idx_xy(idx);

        let mut r: Vec<(usize, u32)> = Vec::new();
        let mut k: usize = 0;
        while k < 8
            invariant
                self.wf(),
                0 < self.width,
                self.on_map(x as int, y as int),
                k <= 8,
                r@ == self.exits_upto(x as int, y as int, k as int),
            decreases 8 - k,
        {
            let (dx, dy): (i32, i32) = match k {
                // Cardinals.
                0 => (1, 0),
                1 => (0, 1),
                2 => (-1, 0),
                3 => (0, -1),
                // Diagonals.
                4 => (1, 1),
                5 => (1, -1),
                6 => (-1, 1),
                _ => (-1, -1),
            };
            proof {
                assert((dx as int, dy as int) == neighbor_offsets()[k as int]);
            }
            let nx = x + dx;
            let ny = y + dy;
            // Diagonals cost sqrt(2) (in hundredths) to walk through.
            let cost: u32 = if dx == 0 || dy == 0 {
                100
            } else {
                142
            };
            match self.tile_at(nx, ny) {
                Some(t) => if t.is_passable() {
                    let nidx = self.xy_idx(nx as usize, ny as usize);
                    r.push((nidx, cost));
                },
                None => {},
            }
            k += 1;
        }
        r
    }

    /// Render the map: one glyph for each tile, row-major.
    pub fn draw(&self) -> (r: Vec<u8>)
        ensures
            r@.len() == self.tiles@.len(),
            forall|i: int| 0 <= i < r@.len() ==> r@[i] == glyph_of(self.tiles@[i]),
    {
        let mut glyphs: Vec<u8> = Vec::new();
        let mut i: usize = 0;
        while i < self.tiles.len()
            invariant
                i <= self.tiles@.len(),
                glyphs@.len() == i,
                forall|k: int| 0 <= k < i ==> glyphs@[k] == glyph_of(self.tiles@[k]),
            decreases self.tiles@.len() - i,
        {
            let g: u8 = match self.tiles[i] {
                Tile::Floor => 32,
                Tile::Wall => 35,
            };
            glyphs.push(g);
            i += 1;
        }
        glyphs
    }
}

/// On a well-formed map the index of a cell on the map is in range for
/// the tile buffer.
pub proof fn lemma_idx_in_range(m: Grid, x: int, y: int)
    requires
        m.wf(),
        m.on_map(x, y),
    ensures
        0 <= m.idx_of(x, y) < m.tiles@.len(),
{
    assert(0 <= y * m.width + x < m.width * m.height) by (nonlinear_arith)
        requires
            0 <= x < m.width,
            0 <= y < m.height,
    ;
}

/// On a well-formed map the index of the cell at valid coordinates maps
/// back to the same coordinates.
pub proof fn lemma_index_roundtrip_xy(m: Grid, x: int, y: int)
    requires
        m.wf(),
        m.on_map(x, y),
    ensures
        m.x_of(m.idx_of(x, y)) == x,
        m.y_of(m.idx_of(x, y)) == y,
{
    lemma_fundamental_div_mod_converse_div(y * m.width + x, m.width as int, y, x);
    lemma_fundamental_div_mod_converse_mod(y * m.width + x, m.width as int, y, x);
}

/// On a well-formed map every in-range index names a cell on the map,
/// and the coordinates of that cell map back to the same index.
pub proof fn lemma_index_roundtrip_idx(m: Grid, idx: int)
    requires
        m.wf(),
        0 < m.width,
        0 <= idx < m.tiles@.len(),
    ensures
        m.on_map(m.x_of(idx), m.y_of(idx)),
        m.idx_of(m.x_of(idx), m.y_of(idx)) == idx,
{
    assert(idx / (m.width as int) < m.height && 0 <= idx % (m.width as int) < m.width
        && idx == (idx / (m.width as int)) * (m.width as int) + idx % (m.width as int)
        && 0 <= idx / (m.width as int)) by (nonlinear_arith)
        requires
            0 < m.width,
            0 <= idx < m.width * m.height,
    ;
}

/// No accepted room of a well-kept map has a cell on or next to the
/// map's outer boundary: a one-tile margin is preserved all around.
pub proof fn lemma_room_safety_margin(m: Grid, i: int)
    requires
        m.rooms_ok(),
        0 <= i < m.rooms@.len(),
    ensures
        1 <= m.rooms@[i].x,
        m.rooms@[i].x + m.rooms@[i].width <= m.width - 1,
        1 <= m.rooms@[i].y,
        m.rooms@[i].y + m.rooms@[i].height <= m.height - 1,
        forall|px: int, py: int|
            m.rooms@[i].covers(px, py) ==> 1 <= px < m.width - 1 && 1 <= py < m.height - 1,
{
}

/// Acceptance of intersecting rooms is exclusive: once a map has
/// accepted a room, it refuses every room that intersects it.
pub proof fn lemma_room_acceptance_exclusive(m: Grid, after: Grid, r1: Room, r2: Room)
    requires
        m.accepts(r1),
        after.rooms@ == m.rooms@.push(r1),
        r1.intersects(r2),
    ensures
        !after.accepts(r2),
{
    assert(after.rooms@[m.rooms@.len() as int] == r1);
}

/// Distinct cells of a well-formed map have distinct row-major indices.
pub proof fn lemma_idx_injective(m: Grid, x1: int, y1: int, x2: int, y2: int)
    requires
        m.wf(),
        m.on_map(x1, y1),
        m.on_map(x2, y2),
        m.idx_of(x1, y1) == m.idx_of(x2, y2),
    ensures
        x1 == x2,
        y1 == y2,
{
    lemma_index_roundtrip_xy(m, x1, y1);
    lemma_index_roundtrip_xy(m, x2, y2);
}

} // verus!
