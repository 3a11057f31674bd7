//! Node expansion: one point record becomes a covering triangle.

use vstd::prelude::*;
use crate::color::Rgba;
use crate::fixed::{MAX_FX, ONE};
use crate::shading::Falloff;
use crate::vec2::Vec2;
use crate::vertex::{Vertex, cross2, strictly_inside_triangle};
use vstd::arithmetic::div_mod::{lemma_fundamental_div_mod, lemma_mod_bound};
use vstd::arithmetic::mul::lemma_mul_inequality;

verus! {

/// `ceil(sqrt(3) * ONE)`: the smallest fixed-point scalar at least the
/// square root of three, so triangles sized with it never undershoot.
pub const SQRT3_CEIL: i64 = 113512;

/// A point primitive: a radially symmetric glowing disc.
#[derive(Clone, Copy, Debug, PartialEq, Eq, Structural)]
pub struct Node {
    pub position: Vec2,
    pub inner_color: Rgba,
    pub falloff: u32,
    pub falloff_color: Rgba,
    pub falloff_radius: i64,
    pub inner_radius: i64,
}

impl Node {
    pub open spec fn wf(self) -> bool {
        &&& self.position.wf()
        &&& self.attrs_spec().wf()
    }

    /// The falloff attributes of this node, as the shading model takes them.
    pub open spec fn attrs_spec(self) -> Falloff {
        Falloff {
            inner_color: self.inner_color,
            falloff: self.falloff,
            falloff_color: self.falloff_color,
            falloff_radius: self.falloff_radius,
            inner_radius: self.inner_radius,
        }
    }

    /// The radius of the disc this node can shade: inner plus falloff band.
    pub open spec fn full_radius_spec(self) -> int {
        self.inner_radius + self.falloff_radius
    }

    pub fn attrs(&self) -> (f: Falloff)
        ensures
            f == self.attrs_spec(),
    {
        Falloff {
            inner_color: self.inner_color,
            falloff: self.falloff,
            falloff_color: self.falloff_color,
            falloff_radius: self.falloff_radius,
            inner_radius: self.inner_radius,
        }
    }
}

/// Half the width of the covering triangle's base for a triangle height
/// parameter `h`: `h * sqrt(3)`, rounded up.
pub open spec fn node_halfwidth_spec(h: int) -> int {
    (h * SQRT3_CEIL + (ONE - 1)) / (ONE as int)
}

/// The covering triangle of a node: an equilateral triangle around the
/// disc of the node's full radius, padded by one fixed-point ulp so the
/// containment is strict. Corners at angles 90, 210 and 330 degrees, at
/// twice the padded radius from the center; each vertex carries the node's
/// attributes unchanged and a `delta` equal to its offset from the center.
pub open spec fn expand_node_spec(n: Node) -> Seq<Vertex> {
    let h = n.full_radius_spec() + 1;
    let w = node_halfwidth_spec(h);
    seq![
        (Vertex {
            base: n.position,
            offset: Vec2 { x: 0, y: (2 * h) as i64 },
            delta: Vec2 { x: 0, y: (2 * h) as i64 },
            attrs: n.attrs_spec(),
        }),
        (Vertex {
            base: n.position,
            offset: Vec2 { x: (-w) as i64, y: (-h) as i64 },
            delta: Vec2 { x: (-w) as i64, y: (-h) as i64 },
            attrs: n.attrs_spec(),
        }),
        (Vertex {
            base: n.position,
            offset: Vec2 { x: w as i64, y: (-h) as i64 },
            delta: Vec2 { x: w as i64, y: (-h) as i64 },
            attrs: n.attrs_spec(),
        }),
    ]
}

/// Expand one node into its covering triangle.
pub fn expand_node(n: &Node) -> (vs: Vec<Vertex>)
    requires
        n.wf(),
    ensures
        vs@ == expand_node_spec(*n),
        vs@.len() == 3,
{
    let h = n.inner_radius + n.falloff_radius + 1;
    proof {
        lemma_halfwidth_bounds(h as int);
    }
    let w = (h * SQRT3_CEIL + (ONE - 1)) / ONE;
    let attrs = n.attrs();
    let mut vs: Vec<Vertex> = Vec::new();
    vs.push(Vertex {
        base: n.position,
        offset: Vec2 { x: 0, y: 2 * h },
        delta: Vec2 { x: 0, y: 2 * h },
        attrs,
    });
    vs.push(Vertex {
        base: n.position,
        offset: Vec2 { x: -w, y: -h },
        delta: Vec2 { x: -w, y: -h },
        attrs,
    });
    vs.push(Vertex {
        base: n.position,
        offset: Vec2 { x: w, y: -h },
        delta: Vec2 { x: w, y: -h },
        attrs,
    });
    proof {
        assert(vs@ =~= expand_node_spec(*n));
    }
    vs
}

/// The halfwidth of a positive height is positive, bounded, and wide enough:
/// its square is at least three times the squared height.
pub proof fn lemma_halfwidth_bounds(h: int)
    requires
        1 <= h <= 2 * MAX_FX + 1,
    ensures
        2 <= node_halfwidth_spec(h) <= 2 * h,
        node_halfwidth_spec(h) * node_halfwidth_spec(h) >= 3 * h * h,
{
    let c = SQRT3_CEIL as int;
    let s = ONE as int;
    let num = h * c + (s - 1);
    let w = num / s;
    lemma_fundamental_div_mod(num, s);
    lemma_mod_bound(num, s);
    // w * s >= h * c, from the division identity and the remainder bound.
    assert(w * s >= h * c) by (nonlinear_arith)
        requires
            num == s * w + (num % s),
            0 <= num % s < s,
            num == h * c + (s - 1),
    ;
    lemma_mul_inequality(1, h, c);
    assert(1 * c == c && c * h == h * c) by (nonlinear_arith);
    assert(w >= 2) by (nonlinear_arith)
        requires
            w * s >= h * c,
            h * c >= c,
            c == 113512,
            s == 65536,
    ;
    assert(num < (2 * h + 1) * s) by (nonlinear_arith)
        requires
            num == h * c + (s - 1),
            h >= 1,
            c == 113512,
            s == 65536,
    ;
    assert(w <= 2 * h) by (nonlinear_arith)
        requires
            num == s * w + (num % s),
            0 <= num % s,
            num < (2 * h + 1) * s,
            s > 0,
    ;
    // w^2 >= 3 h^2, since (w*s)^2 >= (h*c)^2 >= 3 * (h*s)^2.
    assert(w * w >= 3 * h * h) by (nonlinear_arith)
        requires
            w * s >= h * c,
            h >= 1,
            w >= 2,
            c == 113512,
            s == 65536,
    ;
}

/// Squares of products split into products of squares.
proof fn lemma_prod_square(a: int, x: int)
    by (nonlinear_arith)
    ensures
        (a * x) * (a * x) == (a * a) * (x * x),
{
}

/// Mixed products regroup.
proof fn lemma_prod_mixed(a: int, x: int, b: int, y: int)
    by (nonlinear_arith)
    ensures
        (a * x) * (b * y) == (a * b) * (x * y),
{
}

/// Binomial products distribute.
proof fn lemma_distrib4(p: int, q: int, x: int, y: int)
    by (nonlinear_arith)
    ensures
        (p + q) * (x + y) == p * x + p * y + q * x + q * y,
{
}

/// The two-square identity behind the Cauchy-Schwarz bound in the plane.
proof fn lemma_two_square_identity(a: int, b: int, x: int, y: int)
    ensures
        (a * x + b * y) * (a * x + b * y) + (a * y - b * x) * (a * y - b * x)
            == (a * a + b * b) * (x * x + y * y),
{
    let p = a * x;
    let q = b * y;
    let m = a * y;
    let t = b * x;
    assert((p + q) * (p + q) == p * p + 2 * (p * q) + q * q) by (nonlinear_arith);
    assert((m - t) * (m - t) == m * m - 2 * (m * t) + t * t) by (nonlinear_arith);
    lemma_prod_square(a, x);
    lemma_prod_square(b, y);
    lemma_prod_square(a, y);
    lemma_prod_square(b, x);
    lemma_prod_mixed(a, x, b, y);
    lemma_prod_mixed(a, y, b, x);
    assert(x * y == y * x) by (nonlinear_arith);
    lemma_distrib4(a * a, b * b, x * x, y * y);
}

/// Cauchy-Schwarz style bound used for the slanted triangle edges: a point
/// of the disc of radius `r` stays strictly below the edge's line.
proof fn lemma_edge_halfplane(h: int, w: int, r: int, dx: int, dy: int)
    requires
        r >= 0,
        h == r + 1,
        w >= 2,
        w * w >= 3 * h * h,
        dx * dx + dy * dy <= r * r,
    ensures
        3 * h * dx + w * dy < 2 * h * w,
{
    let a = 3 * h;
    let s = a * dx + w * dy;
    let d = a * dy - w * dx;
    lemma_two_square_identity(a, w, dx, dy);
    assert(d * d >= 0) by (nonlinear_arith);
    assert(s * s <= (a * a + w * w) * (dx * dx + dy * dy));
    assert((a * a + w * w) * (dx * dx + dy * dy) <= (a * a + w * w) * (r * r))
        by (nonlinear_arith)
        requires
            dx * dx + dy * dy <= r * r,
    ;
    assert((a * a + w * w) * (r * r) <= 4 * (w * w) * (r * r)) by (nonlinear_arith)
        requires
            a == 3 * h,
            w * w >= 3 * h * h,
            r * r >= 0,
    ;
    if s >= 2 * h * w {
        assert(s * s >= (2 * h * w) * (2 * h * w)) by (nonlinear_arith)
            requires
                s >= 2 * h * w,
                h >= 1,
                w >= 2,
        ;
        assert(h * h <= r * r) by (nonlinear_arith)
            requires
                (2 * h * w) * (2 * h * w) <= 4 * (w * w) * (r * r),
                w >= 2,
                r >= 0,
                h >= 1,
        ;
        assert(h * h > r * r) by (nonlinear_arith)
            requires
                h == r + 1,
                r >= 0,
        ;
        assert(false);
    }
}

/// The covering triangle strictly contains the whole disc the node can
/// shade: every offset `(dx, dy)` within the node's full radius of the
/// center lies strictly inside the triangle of offsets the expansion emits.
pub proof fn lemma_node_covering(n: Node, dx: int, dy: int)
    requires
        n.wf(),
        dx * dx + dy * dy <= n.full_radius_spec() * n.full_radius_spec(),
    ensures
        ({
            let vs = expand_node_spec(n);
            strictly_inside_triangle(
                vs[0].offset.x as int, vs[0].offset.y as int,
                vs[1].offset.x as int, vs[1].offset.y as int,
                vs[2].offset.x as int, vs[2].offset.y as int,
                dx, dy,
            )
        }),
{
    let r = n.full_radius_spec();
    let h = r + 1;
    let w = node_halfwidth_spec(h);
    lemma_halfwidth_bounds(h);
    // The disc bounds each coordinate by the radius.
    assert(-r <= dy <= r && -r <= dx <= r) by (nonlinear_arith)
        requires
            dx * dx + dy * dy <= r * r,
            r >= 0,
    ;
    // Bottom edge, from (-w, -h) to (w, -h): strictly above the line y == -h.
    assert(cross2(2 * w, 0, dx + w, dy + h) == (2 * w) * (dy + h) - 0 * (dx + w));
    assert((2 * w) * (dy + h) - 0 * (dx + w) > 0) by (nonlinear_arith)
        requires
            w >= 2,
            dy + h > 0,
    ;
    // Right edge, from (w, -h) to (0, 2h).
    lemma_edge_halfplane(h, w, r, dx, dy);
    assert(cross2(0 - w, 2 * h - (-h), dx - w, dy - (-h))
        == (0 - w) * (dy - (-h)) - (2 * h - (-h)) * (dx - w));
    assert((0 - w) * (dy - (-h)) - (2 * h - (-h)) * (dx - w)
        == 2 * h * w - (3 * h * dx + w * dy)) by (nonlinear_arith);
    // Left edge, from (0, 2h) to (-w, -h).
    assert((-dx) * (-dx) == dx * dx) by (nonlinear_arith);
    lemma_edge_halfplane(h, w, r, -dx, dy);
    assert(cross2(-w - 0, -h - 2 * h, dx - 0, dy - 2 * h)
        == (-w - 0) * (dy - 2 * h) - (-h - 2 * h) * (dx - 0));
    assert((-w - 0) * (dy - 2 * h) - (-h - 2 * h) * (dx - 0)
        == 2 * h * w - (3 * h * (-dx) + w * dy)) by (nonlinear_arith);
}

} // verus!
