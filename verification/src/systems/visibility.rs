use vstd::prelude::*;
use crate::components::Viewshed;
use crate::map::base::{Grid, Point};

verus! {

/// The points of the first `n` entries of a field-of-view result that
/// lie on the map, in their original order.
pub open spec fn retained_upto(m: Grid, fov: Seq<Point>, n: int) -> Seq<Point>
    decreases n,
{
    if n <= 0 {
        Seq::empty()
    } else {
        let prev = retained_upto(m, fov, n - 1);
        if m.on_map(fov[n - 1].x as int, fov[n - 1].y as int) {
            prev.push(fov[n - 1])
        } else {
            prev
        }
    }
}

/// The in-bounds part of a field-of-view result: what a viewshed holds
/// after an update.
pub open spec fn retained(m: Grid, fov: Seq<Point>) -> Seq<Point> {
    retained_upto(m, fov, fov.len() as int)
}

/// Every point a viewshed retains lies on the map.
pub proof fn lemma_retained_on_map(m: Grid, fov: Seq<Point>, n: int)
    requires
        n <= fov.len(),
    ensures
        forall|k: int|
            0 <= k < retained_upto(m, fov, n).len() ==> m.on_map(
                #[trigger] retained_upto(m, fov, n)[k].x as int,
                retained_upto(m, fov, n)[k].y as int,
            ),
    decreases n,
{
    if n > 0 {
        lemma_retained_on_map(m, fov, n - 1);
        let prev = retained_upto(m, fov, n - 1);
        let cur = retained_upto(m, fov, n);
        assert forall|k: int| 0 <= k < cur.len() implies m.on_map(
            #[trigger] cur[k].x as int,
            cur[k].y as int,
        ) by {
            if m.on_map(fov[n - 1].x as int, fov[n - 1].y as int) {
                if k < prev.len() {
                    assert(cur[k] == prev[k]);
                    assert(m.on_map(prev[k].x as int, prev[k].y as int));
                } else {
                    assert(cur[k] == fov[n - 1]);
                }
            } else {
                assert(cur[k] == prev[k]);
                assert(m.on_map(prev[k].x as int, prev[k].y as int));
            }
        }
    }
}

/// Every on-map point of a field-of-view result is retained.
pub proof fn lemma_retained_complete(m: Grid, fov: Seq<Point>, n: int, k: int)
    requires
        0 <= k < n <= fov.len(),
        m.on_map(fov[k].x as int, fov[k].y as int),
    ensures
        retained_upto(m, fov, n).contains(fov[k]),
    decreases n,
{
    if k == n - 1 {
        let prev = retained_upto(m, fov, n - 1);
        assert(prev.push(fov[k])[prev.len() as int] == fov[k]);
    } else {
        lemma_retained_complete(m, fov, n - 1, k);
        let prev = retained_upto(m, fov, n - 1);
        let j = choose|j: int| 0 <= j < prev.len() && prev[j] == fov[k];
        if m.on_map(fov[n - 1].x as int, fov[n - 1].y as int) {
            assert(prev.push(fov[n - 1])[j] == fov[k]);
        }
    }
}

/// Updates a viewshed using position and game map info: the visible set
/// becomes the field-of-view result handed in, post-filtered to the
/// points that lie on the map (the field-of-view algorithm may
/// overshoot past the map borders).
pub fn update_viewshed(viewshed: &mut Viewshed, map: &Grid, fov: Vec<Point>)
    requires
        map.wf(),
    ensures
        final(viewshed).range == old(viewshed).range,
        final(viewshed).visible_tiles@ == retained(*map, fov@),
        forall|k: int|
            0 <= k < final(viewshed).visible_tiles@.len() ==> map.on_map(
                #[trigger] final(viewshed).visible_tiles@[k].x as int,
                final(viewshed).visible_tiles@[k].y as int,
            ),
{
    let mut kept: Vec<Point> = Vec::new();
    let mut i: usize = 0;
    while i < fov.len()
        invariant
            map.wf(),
            i <= fov@.len(),
            kept@ == retained_upto(*map, fov@, i as int),
        decreases fov@.len() - i,
    {
        let p = fov[i];
        if p.x >= 0 && p.y >= 0 && (p.x as usize) < map.get_width() && (p.y as usize)
            < map.get_height() {
            kept.push(p);
        }
        i += 1;
    }
    proof {
        lemma_retained_on_map(*map, fov@, fov@.len() as int);
    }
    viewshed.visible_tiles = kept;
}

} // verus!
