//! The covering-polygon vertex record emitted by every expansion.

use vstd::prelude::*;
use crate::shading::Falloff;
use crate::vec2::Vec2;

verus! {

/// One emitted vertex of a covering polygon.
///
/// `offset` is expressed in the primitive's frame: `x` counts the frame's
/// axis direction, `y` its left normal. For nodes and curve boxes the frame
/// is the world axes, so `base + offset` is the vertex position outright;
/// for edges the frame axis is the segment's unit direction, and the host
/// resolves `base + offset.x * dir + offset.y * normal` when assembling the
/// draw batch. `delta` is the shading offset from the primitive's spine
/// carried to the shading model, in the same frame.
#[derive(Clone, Copy, Debug, PartialEq, Eq, Structural)]
pub struct Vertex {
    pub base: Vec2,
    pub offset: Vec2,
    pub delta: Vec2,
    pub attrs: Falloff,
}

/// Twice the signed area spanned by two offsets: the 2D cross product.
pub open spec fn cross2(ax: int, ay: int, bx: int, by: int) -> int {
    ax * by - ay * bx
}

/// The point `(px, py)` lies strictly inside the triangle with the corners
/// `a`, `b`, `c` (given in counter-clockwise order): it sits strictly on the
/// inner side of each directed edge.
pub open spec fn strictly_inside_triangle(
    ax: int, ay: int, bx: int, by: int, cx: int, cy: int, px: int, py: int,
) -> bool {
    &&& cross2(bx - ax, by - ay, px - ax, py - ay) > 0
    &&& cross2(cx - bx, cy - by, px - bx, py - by) > 0
    &&& cross2(ax - cx, ay - cy, px - cx, py - cy) > 0
}

/// The point `(px, py)` lies in the closed triangle with the corners `a`,
/// `b`, `c` (given in counter-clockwise order): boundary points count.
pub open spec fn inside_triangle(
    ax: int, ay: int, bx: int, by: int, cx: int, cy: int, px: int, py: int,
) -> bool {
    &&& cross2(bx - ax, by - ay, px - ax, py - ay) >= 0
    &&& cross2(cx - bx, cy - by, px - bx, py - by) >= 0
    &&& cross2(ax - cx, ay - cy, px - cx, py - cy) >= 0
}

} // verus!
