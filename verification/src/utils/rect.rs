use vstd::prelude::*;
use crate::map::base::{Grid, Room};

verus! {

/// A rectangle described by its four corners.
#[derive(PartialEq, Eq, Structural, Debug, Clone, Copy)]
pub struct SimpleRect {
    pub x: i32,
    pub y: i32,
    pub w: i32,
    pub h: i32,
}

impl From<(i32, i32, i32, i32)> for SimpleRect {
    fn from(t: (i32, i32, i32, i32)) -> (r: Self) {
        Self { x: t.0, y: t.1, w: t.2, h: t.3 }
    }
}

impl vstd::std_specs::convert::FromSpecImpl<(i32, i32, i32, i32)> for SimpleRect {
    open spec fn obeys_from_spec() -> bool {
        true
    }

    open spec fn from_spec(t: (i32, i32, i32, i32)) -> Self {
        SimpleRect { x: t.0, y: t.1, w: t.2, h: t.3 }
    }
}

/// A useful trait for rectangle-like things.
pub trait Rect: Sized {
    /// Whether the corner accessor reports the true corners; a shape
    /// whose stored dimensions may not fit the corner type refuses the
    /// oversized ones here.
    spec fn rect_wf(&self) -> bool;

    /// The corners as unbounded integers, in this order: x and y of the
    /// top left corner followed by width and height.
    spec fn corners_spec(&self) -> (int, int, int, int);

    /// In this order: x and y of top left corner fallowed by width and height.
    fn get_corners(&self) -> (r: (i32, i32, i32, i32))
        requires
            self.rect_wf(),
        ensures
            r.0 == self.corners_spec().0,
            r.1 == self.corners_spec().1,
            r.2 == self.corners_spec().2,
            r.3 == self.corners_spec().3,
    ;

    /// Trim outer border of rectangle.
    fn trim_outer_frame(&self, amount: i32) -> (r: Option<SimpleRect>)
        requires
            self.rect_wf(),
            i32::MIN <= self.corners_spec().0 + amount <= i32::MAX,
            i32::MIN <= self.corners_spec().1 + amount <= i32::MAX,
            i32::MIN <= self.corners_spec().2 - 2 * amount <= i32::MAX,
            i32::MIN <= self.corners_spec().3 - 2 * amount <= i32::MAX,
        ensures
            ({
                let (x, y, w, h) = self.corners_spec();
                if w - 2 * amount < 0 || h - 2 * amount < 0 {
                    r is None
                } else {
                    r == Some(
                        SimpleRect {
                            x: (x + amount) as i32,
                            y: (y + amount) as i32,
                            w: (w - 2 * amount) as i32,
                            h: (h - 2 * amount) as i32,
                        },
                    )
                }
            }),
    {
        let (x, y, w, h) = self.get_corners();

        let x = x + amount;
        let y = y + amount;
        let w: i64 = w as i64 - 2 * (amount as i64);
        let h: i64 = h as i64 - 2 * (amount as i64);

        // No rectangles taking up negative space are created...
        if w < 0 || h < 0 {
            None
        } else {
            Some(SimpleRect { x, y, w: w as i32, h: h as i32 })
        }
    }

    /// Wrap the rectangle in an outer frame of `thickness` thickness:
    /// the inverse growth of `trim_outer_frame`, so both sides gain the
    /// thickness on each edge.
    fn add_outer_frame(&self, thickness: i32) -> (r: SimpleRect)
        requires
            self.rect_wf(),
            i32::MIN <= self.corners_spec().0 - thickness <= i32::MAX,
            i32::MIN <= self.corners_spec().1 - thickness <= i32::MAX,
            i32::MIN <= self.corners_spec().2 + 2 * thickness <= i32::MAX,
            i32::MIN <= self.corners_spec().3 + 2 * thickness <= i32::MAX,
        ensures
            ({
                let (x, y, w, h) = self.corners_spec();
                r == SimpleRect {
                    x: (x - thickness) as i32,
                    y: (y - thickness) as i32,
                    w: (w + 2 * thickness) as i32,
                    h: (h + 2 * thickness) as i32,
                }
            }),
    {
        let (x, y, w, h) = self.get_corners();

        let x = x - thickness;
        let y = y - thickness;
        let w: i64 = w as i64 + 2 * (thickness as i64);
        let h: i64 = h as i64 + 2 * (thickness as i64);

        SimpleRect { x, y, w: w as i32, h: h as i32 }
    }

    /// Checks if rect contains a given point.
    fn contains_point(&self, x: i32, y: i32) -> (r: bool)
        requires
            self.rect_wf(),
        ensures
            ({
                let (rx, ry, rw, rh) = self.corners_spec();
                r == (x >= rx && x < rx + rw && y >= ry && y < ry + rh)
            }),
    {
        let (rx, ry, rw, rh) = self.get_corners();

        x >= rx && (x as i64) < rx as i64 + rw as i64 && y >= ry && (y as i64) < ry as i64
            + rh as i64
    }

    /// Checks if rect contains a given second rect.
    fn contains_rect(&self, inner_rect: &SimpleRect) -> (r: bool)
        requires
            self.rect_wf(),
        ensures
            ({
                let (ox, oy, ow, oh) = self.corners_spec();
                r == (inner_rect.x >= ox && inner_rect.x + inner_rect.w <= ox + ow && inner_rect.y
                    >= oy && inner_rect.y + inner_rect.h <= oy + oh)
            }),
    {
        let (ox, oy, ow, oh) = self.get_corners();
        let (ix, iy, iw, ih) = (inner_rect.x, inner_rect.y, inner_rect.w, inner_rect.h);

        ix >= ox && ix as i64 + iw as i64 <= ox as i64 + ow as i64 && iy >= oy && iy as i64
            + ih as i64 <= oy as i64 + oh as i64
    }
}

/// Adding an outer frame and then trimming by the same amount restores
/// the rectangle: `add_outer_frame` is the inverse growth of
/// `trim_outer_frame`. For any corners taking up no negative space, the
/// framed corners trim back to the originals, and the trim succeeds.
pub proof fn lemma_add_trim_inverse(x: int, y: int, w: int, h: int, thickness: int)
    requires
        0 <= w,
        0 <= h,
    ensures
        ({
            let (fx, fy, fw, fh) = (x - thickness, y - thickness, w + 2 * thickness, h + 2
                * thickness);
            &&& !(fw - 2 * thickness < 0 || fh - 2 * thickness < 0)
            &&& fx + thickness == x
            &&& fy + thickness == y
            &&& fw - 2 * thickness == w
            &&& fh - 2 * thickness == h
        }),
{
}

/// SimpleRect is obviously a Rect.
impl Rect for SimpleRect {
    open spec fn rect_wf(&self) -> bool {
        true
    }

    open spec fn corners_spec(&self) -> (int, int, int, int) {
        (self.x as int, self.y as int, self.w as int, self.h as int)
    }

    fn get_corners(&self) -> (r: (i32, i32, i32, i32)) {
        (self.x, self.y, self.w, self.h)
    }
}

/// Utility impl for Grid.
impl Rect for Grid {
    open spec fn rect_wf(&self) -> bool {
        self.width <= i32::MAX && self.height <= i32::MAX
    }

    open spec fn corners_spec(&self) -> (int, int, int, int) {
        (0, 0, self.width as int, self.height as int)
    }

    fn get_corners(&self) -> (r: (i32, i32, i32, i32)) {
        (0, 0, self.width as i32, self.height as i32)
    }
}

/// Utility impl for Room.
impl Rect for Room {
    open spec fn rect_wf(&self) -> bool {
        true
    }

    open spec fn corners_spec(&self) -> (int, int, int, int) {
        (self.x as int, self.y as int, self.width as int, self.height as int)
    }

    fn get_corners(&self) -> (r: (i32, i32, i32, i32)) {
        (self.x, self.y, self.width, self.height)
    }
}

} // verus!
