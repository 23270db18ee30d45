//! Axis-aligned rectangles and the overlap test that collision detection
//! uses. Overlap is strict: rectangles that merely share an edge or a corner
//! do not overlap, so a zero-area contact never counts as a hit.

use vstd::prelude::*;

verus! {

/// An axis-aligned rectangle in sub-pixel units. `x`, `y` is the top-left
/// corner; the rectangle spans `[x, x + w)` by `[y, y + h)`.
#[derive(Debug, Clone, Copy, PartialEq, Eq, Structural)]
pub struct Rect {
    pub x: i64,
    pub y: i64,
    pub w: i64,
    pub h: i64,
}

/// Strict overlap: the interiors intersect. Touching edges do not count.
pub open spec fn rects_overlap(a: Rect, b: Rect) -> bool {
    a.x < b.x + b.w && b.x < a.x + a.w && a.y < b.y + b.h && b.y < a.y + a.h
}

impl Rect {
    /// True exactly when the interiors of the two rectangles intersect.
    pub fn overlaps(&self, other: &Rect) -> (r: bool)
        ensures
            r == rects_overlap(*self, *other),
    {
        let ax: i128 = self.x as i128;
        let ay: i128 = self.y as i128;
        let bx: i128 = other.x as i128;
        let by: i128 = other.y as i128;
        ax < bx + other.w as i128 && bx < ax + self.w as i128 && ay < by + other.h as i128
            && by < ay + self.h as i128
    }
}

} // verus!
