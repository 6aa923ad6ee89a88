//! Axis-aligned placements inside a fixed canvas.

use vstd::prelude::*;

verus! {

/// An axis-aligned placement `{x, y, width, height}` in canvas coordinates.
/// Immutable once allocated; a packer never moves or resizes it.
#[derive(Clone, Copy, Debug, PartialEq, Eq, Structural)]
pub struct Rect {
    pub x: u32,
    pub y: u32,
    pub width: u32,
    pub height: u32,
}

/// The rectangle has positive area and lies fully inside a
/// `canvas_width` by `canvas_height` canvas.
pub open spec fn rect_in_canvas(r: Rect, canvas_width: int, canvas_height: int) -> bool {
    &&& r.width >= 1
    &&& r.height >= 1
    &&& r.x + r.width <= canvas_width
    &&& r.y + r.height <= canvas_height
}

/// The two rectangles share no pixel: they are separated along at
/// least one axis.
pub open spec fn rects_disjoint(a: Rect, b: Rect) -> bool {
    ||| a.x + a.width <= b.x
    ||| b.x + b.width <= a.x
    ||| a.y + a.height <= b.y
    ||| b.y + b.height <= a.y
}

/// The point `(px, py)` lies inside `r`.
pub open spec fn rect_contains(r: Rect, px: int, py: int) -> bool {
    &&& r.x <= px < r.x + r.width
    &&& r.y <= py < r.y + r.height
}

/// Disjoint rectangles have no point in common.
pub proof fn lemma_disjoint_no_common_point(a: Rect, b: Rect, px: int, py: int)
    requires
        rects_disjoint(a, b),
        rect_contains(a, px, py),
    ensures
        !rect_contains(b, px, py),
{
}

} // verus!
