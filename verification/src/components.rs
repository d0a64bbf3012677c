use vstd::prelude::*;
use crate::map::base::Point;

verus! {

/// An entity's field of view: its range in tiles, and the set of tiles
/// currently visible from its position. The visible set is recomputed
/// from scratch each tick, never patched.
pub struct Viewshed {
    pub visible_tiles: Vec<Point>,
    pub range: i32,
}

impl Viewshed {
    pub fn new(range: i32) -> (r: Self)
        ensures
            r.range == range,
            r.visible_tiles@.len() == 0,
    {
        Viewshed { visible_tiles: Vec::new(), range }
    }
}

} // verus!
