use vstd::prelude::*;

verus! {

/// An axis-aligned rectangle used as a room footprint.
#[derive(Clone, Copy, Debug, PartialEq, Eq, Structural)]
pub struct Rect {
    pub x1: i32,
    pub y1: i32,
    pub x2: i32,
    pub y2: i32,
}

/// Two rectangles overlap when their extents touch or cross on both axes.
pub open spec fn rects_intersect(a: Rect, b: Rect) -> bool {
    a.x1 <= b.x2 && a.x2 >= b.x1 && a.y1 <= b.y2 && a.y2 >= b.y1
}

/// The midpoint of a rectangle, rounded down on both axes.
pub open spec fn center_of(r: Rect) -> (int, int) {
    ((r.x1 + r.x2) / 2, (r.y1 + r.y2) / 2)
}

/// Floor of half of a value.
fn half_floor(s: i64) -> (r: i32)
    requires
        2 * i32::MIN <= s <= 2 * i32::MAX,
    ensures
        r as int == s as int / 2,
{
    if s >= 0 {
        (s / 2) as i32
    } else {
        let q = (-s + 1) / 2;
        assert(s as int / 2 == -q) by (nonlinear_arith)
            requires q == (-s + 1) / 2, s < 0;
        (-q) as i32
    }
}

impl Rect {
    /// A rectangle with top-left corner `(x, y)`, `w` wide and `h` high.
    pub fn new(x: i32, y: i32, w: i32, h: i32) -> (r: Rect)
        requires
            i32::MIN <= x + w <= i32::MAX,
            i32::MIN <= y + h <= i32::MAX,
        ensures
            r == (Rect { x1: x, y1: y, x2: (x + w) as i32, y2: (y + h) as i32 }),
    {
        Rect { x1: x, y1: y, x2: x + w, y2: y + h }
    }

    /// Whether this rectangle overlaps `other`.
    pub fn intersect(&self, other: &Rect) -> (r: bool)
        ensures
            r == rects_intersect(*self, *other),
    {
        self.x1 <= other.x2 && self.x2 >= other.x1 && self.y1 <= other.y2 && self.y2 >= other.y1
    }

    /// The midpoint of the rectangle, rounded down.
    pub fn center(&self) -> (r: (i32, i32))
        ensures
            r.0 as int == center_of(*self).0,
            r.1 as int == center_of(*self).1,
    {
        (
            half_floor(self.x1 as i64 + self.x2 as i64),
            half_floor(self.y1 as i64 + self.y2 as i64),
        )
    }
}

/// Overlap does not depend on which rectangle is asked first.
pub proof fn lemma_intersect_symmetric(a: Rect, b: Rect)
    ensures
        rects_intersect(a, b) == rects_intersect(b, a),
{
}

} // verus!
