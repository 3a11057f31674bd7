//! Edge expansion: a straight glowing stroke between two endpoint records
//! becomes a covering quad (flat caps) or a quad plus two triangular caps
//! (round caps).
//!
//! Offsets are expressed in the segment's frame: `x` runs along the unit
//! direction from the first endpoint to the second, `y` along its left
//! normal. A zero-length segment leaves the frame undefined, so both
//! variants fall back to the node expansion of the first endpoint.

use vstd::prelude::*;
use crate::node::{Node, expand_node, expand_node_spec};
use crate::vec2::Vec2;
use crate::vertex::{Vertex, cross2, inside_triangle};

verus! {

/// The four corners of the covering strip between the endpoints, in
/// triangle-strip order: both sides of the first endpoint, then both sides
/// of the second. Every corner sits exactly the full radius of its own
/// endpoint aside the spine, with no extension along it, and carries that
/// endpoint's attributes and its own offset as the shading delta.
pub open spec fn edge_strip_spec(a: Node, b: Node) -> Seq<Vertex> {
    let ra = a.full_radius_spec();
    let rb = b.full_radius_spec();
    seq![
        (Vertex {
            base: a.position,
            offset: Vec2 { x: 0, y: (-ra) as i64 },
            delta: Vec2 { x: 0, y: (-ra) as i64 },
            attrs: a.attrs_spec(),
        }),
        (Vertex {
            base: a.position,
            offset: Vec2 { x: 0, y: ra as i64 },
            delta: Vec2 { x: 0, y: ra as i64 },
            attrs: a.attrs_spec(),
        }),
        (Vertex {
            base: b.position,
            offset: Vec2 { x: 0, y: (-rb) as i64 },
            delta: Vec2 { x: 0, y: (-rb) as i64 },
            attrs: b.attrs_spec(),
        }),
        (Vertex {
            base: b.position,
            offset: Vec2 { x: 0, y: rb as i64 },
            delta: Vec2 { x: 0, y: rb as i64 },
            attrs: b.attrs_spec(),
        }),
    ]
}

/// The triangular cap that wraps an endpoint of full radius `r`: corners at
/// twice the radius behind and to both sides, `sign` selecting whether the
/// cap opens against the frame axis (`-1`, first endpoint) or along it
/// (`1`, second endpoint). Deltas equal the offsets: in the cap the spine
/// point is the endpoint itself.
pub open spec fn edge_cap_spec(e: Node, sign: int) -> Seq<Vertex> {
    let r = e.full_radius_spec();
    seq![
        (Vertex {
            base: e.position,
            offset: Vec2 { x: 0, y: (-2 * r) as i64 },
            delta: Vec2 { x: 0, y: (-2 * r) as i64 },
            attrs: e.attrs_spec(),
        }),
        (Vertex {
            base: e.position,
            offset: Vec2 { x: (sign * 2 * r) as i64, y: 0 },
            delta: Vec2 { x: (sign * 2 * r) as i64, y: 0 },
            attrs: e.attrs_spec(),
        }),
        (Vertex {
            base: e.position,
            offset: Vec2 { x: 0, y: (2 * r) as i64 },
            delta: Vec2 { x: 0, y: (2 * r) as i64 },
            attrs: e.attrs_spec(),
        }),
    ]
}

/// Flat-cap edge expansion: the covering quad alone, cut off perpendicular
/// to the segment at both endpoints. A zero-length segment falls back to
/// the node expansion of the first endpoint.
pub open spec fn expand_edge_flat_spec(a: Node, b: Node) -> Seq<Vertex> {
    if a.position == b.position {
        expand_node_spec(a)
    } else {
        edge_strip_spec(a, b)
    }
}

/// Round-cap edge expansion: four triangles, twelve vertices. The first
/// and last are the caps wrapping each endpoint; the middle two triangles
/// are built of exactly the flat strip's corners. A zero-length segment
/// falls back to the node expansion of the first endpoint.
pub open spec fn expand_edge_round_spec(a: Node, b: Node) -> Seq<Vertex> {
    if a.position == b.position {
        expand_node_spec(a)
    } else {
        let s = edge_strip_spec(a, b);
        edge_cap_spec(a, -1) + seq![s[0], s[1], s[2]] + seq![s[1], s[2], s[3]] + edge_cap_spec(b, 1)
    }
}

/// Expand one edge with flat caps.
pub fn expand_edge_flat(a: &Node, b: &Node) -> (vs: Vec<Vertex>)
    requires
        a.wf(),
        b.wf(),
    ensures
        vs@ == expand_edge_flat_spec(*a, *b),
{
    if a.position == b.position {
        expand_node(a)
    } else {
        let ra = a.inner_radius + a.falloff_radius;
        let rb = b.inner_radius + b.falloff_radius;
        let mut vs: Vec<Vertex> = Vec::new();
        vs.push(Vertex {
            base: a.position,
            offset: Vec2 { x: 0, y: -ra },
            delta: Vec2 { x: 0, y: -ra },
            attrs: a.attrs(),
        });
        vs.push(Vertex {
            base: a.position,
            offset: Vec2 { x: 0, y: ra },
            delta: Vec2 { x: 0, y: ra },
            attrs: a.attrs(),
        });
        vs.push(Vertex {
            base: b.position,
            offset: Vec2 { x: 0, y: -rb },
            delta: Vec2 { x: 0, y: -rb },
            attrs: b.attrs(),
        });
        vs.push(Vertex {
            base: b.position,
            offset: Vec2 { x: 0, y: rb },
            delta: Vec2 { x: 0, y: rb },
            attrs: b.attrs(),
        });
        proof {
            assert(vs@ =~= expand_edge_flat_spec(*a, *b));
        }
        vs
    }
}

/// Expand one edge with round caps.
pub fn expand_edge_round(a: &Node, b: &Node) -> (vs: Vec<Vertex>)
    requires
        a.wf(),
        b.wf(),
    ensures
        vs@ == expand_edge_round_spec(*a, *b),
{
    if a.position == b.position {
        expand_node(a)
    } else {
        let ra = a.inner_radius + a.falloff_radius;
        let rb = b.inner_radius + b.falloff_radius;
        let strip = expand_edge_flat(a, b);
        let mut vs: Vec<Vertex> = Vec::new();
        // Cap wrapping the first endpoint.
        vs.push(Vertex {
            base: a.position,
            offset: Vec2 { x: 0, y: -2 * ra },
            delta: Vec2 { x: 0, y: -2 * ra },
            attrs: a.attrs(),
        });
        vs.push(Vertex {
            base: a.position,
            offset: Vec2 { x: -2 * ra, y: 0 },
            delta: Vec2 { x: -2 * ra, y: 0 },
            attrs: a.attrs(),
        });
        vs.push(Vertex {
            base: a.position,
            offset: Vec2 { x: 0, y: 2 * ra },
            delta: Vec2 { x: 0, y: 2 * ra },
            attrs: a.attrs(),
        });
        // The strip, as two triangles over the flat quad's corners.
        vs.push(strip[0]);
        vs.push(strip[1]);
        vs.push(strip[2]);
        vs.push(strip[1]);
        vs.push(strip[2]);
        vs.push(strip[3]);
        // Cap wrapping the second endpoint.
        vs.push(Vertex {
            base: b.position,
            offset: Vec2 { x: 0, y: -2 * rb },
            delta: Vec2 { x: 0, y: -2 * rb },
            attrs: b.attrs(),
        });
        vs.push(Vertex {
            base: b.position,
            offset: Vec2 { x: 2 * rb, y: 0 },
            delta: Vec2 { x: 2 * rb, y: 0 },
            attrs: b.attrs(),
        });
        vs.push(Vertex {
            base: b.position,
            offset: Vec2 { x: 0, y: 2 * rb },
            delta: Vec2 { x: 0, y: 2 * rb },
            attrs: b.attrs(),
        });
        proof {
            assert(vs@ =~= expand_edge_round_spec(*a, *b));
        }
        vs
    }
}

/// The flat quad's long sides run parallel to the segment, offset by
/// exactly the full radius of each endpoint: every strip corner has no
/// displacement along the frame axis and sits plus or minus the full radius
/// of its own endpoint aside it, with the shading delta equal to that
/// offset. With equal radii at both ends the long sides' corner offsets
/// coincide, so each long side is exactly the segment translated sideways.
pub proof fn lemma_flat_edge_offsets(a: Node, b: Node)
    requires
        a.wf(),
        b.wf(),
        a.position != b.position,
    ensures
        ({
            let q = expand_edge_flat_spec(a, b);
            &&& q.len() == 4
            &&& q[0].offset.x == 0 && q[1].offset.x == 0
            &&& q[2].offset.x == 0 && q[3].offset.x == 0
            &&& q[0].delta == q[0].offset && q[1].delta == q[1].offset
            &&& q[2].delta == q[2].offset && q[3].delta == q[3].offset
            &&& q[0].offset.y == -a.full_radius_spec() && q[1].offset.y == a.full_radius_spec()
            &&& q[2].offset.y == -b.full_radius_spec() && q[3].offset.y == b.full_radius_spec()
            &&& q[0].base == a.position && q[1].base == a.position
            &&& q[2].base == b.position && q[3].base == b.position
            &&& q[0].attrs == a.attrs_spec() && q[1].attrs == a.attrs_spec()
            &&& q[2].attrs == b.attrs_spec() && q[3].attrs == b.attrs_spec()
            &&& a.full_radius_spec() == b.full_radius_spec()
                ==> q[2].offset == q[0].offset && q[3].offset == q[1].offset
        }),
{
}

/// The round expansion covers the same strip as the flat expansion: its two
/// middle triangles are built of exactly the flat quad's four corners.
pub proof fn lemma_round_covers_flat_strip(a: Node, b: Node)
    requires
        a.wf(),
        b.wf(),
        a.position != b.position,
    ensures
        ({
            let r = expand_edge_round_spec(a, b);
            let q = expand_edge_flat_spec(a, b);
            &&& r.len() == 12
            &&& r[3] == q[0] && r[4] == q[1] && r[5] == q[2]
            &&& r[6] == q[1] && r[7] == q[2] && r[8] == q[3]
        }),
{
}

/// Chained flat-cap segments share their boundary exactly: where two edges
/// meet in a common endpoint record, the trailing corner pair of the first
/// quad equals the leading corner pair of the second, vertex for vertex.
/// In a collinear chain the two quads' frames agree, so the shared quad
/// sides coincide absolutely: no gap and no overlap.
pub proof fn lemma_flat_chain_seam(a: Node, b: Node, c: Node)
    requires
        a.wf(),
        b.wf(),
        c.wf(),
        a.position != b.position,
        b.position != c.position,
    ensures
        expand_edge_flat_spec(a, b)[2] == expand_edge_flat_spec(b, c)[0],
        expand_edge_flat_spec(a, b)[3] == expand_edge_flat_spec(b, c)[1],
{
}

/// Each round cap covers the half disc of its endpoint's full radius that
/// lies beyond the endpoint: every offset `(dx, dy)` within the full radius
/// and on the outward side (`sign * dx >= 0`) lies in the closed cap
/// triangle. Any disc offset also stays within the strip's perpendicular
/// band, so the half toward the other endpoint falls to the strip.
pub proof fn lemma_cap_covering(e: Node, sign: int, dx: int, dy: int)
    requires
        e.wf(),
        sign == 1 || sign == -1,
        dx * dx + dy * dy <= e.full_radius_spec() * e.full_radius_spec(),
        sign * dx >= 0,
    ensures
        ({
            let cap = edge_cap_spec(e, sign);
            sign == -1 ==> inside_triangle(
                cap[0].offset.x as int, cap[0].offset.y as int,
                cap[2].offset.x as int, cap[2].offset.y as int,
                cap[1].offset.x as int, cap[1].offset.y as int,
                dx, dy,
            )
        }),
        ({
            let cap = edge_cap_spec(e, sign);
            sign == 1 ==> inside_triangle(
                cap[0].offset.x as int, cap[0].offset.y as int,
                cap[1].offset.x as int, cap[1].offset.y as int,
                cap[2].offset.x as int, cap[2].offset.y as int,
                dx, dy,
            )
        }),
        -e.full_radius_spec() <= dy <= e.full_radius_spec(),
{
    let r = e.full_radius_spec();
    assert(-r <= dx <= r && -r <= dy <= r) by (nonlinear_arith)
        requires
            dx * dx + dy * dy <= r * r,
            r >= 0,
    ;
    // Diagonal bounds: |dy - dx| and |dy + dx| stay within 2r, since their
    // squares are at most twice the squared radius.
    assert((dy - dx) * (dy - dx) + (dy + dx) * (dy + dx) == 2 * (dx * dx + dy * dy))
        by (nonlinear_arith);
    assert((dy - dx) * (dy - dx) >= 0) by (nonlinear_arith);
    assert((dy + dx) * (dy + dx) >= 0) by (nonlinear_arith);
    assert(-(2 * r) <= dy - dx <= 2 * r) by (nonlinear_arith)
        requires
            (dy - dx) * (dy - dx) <= 2 * (r * r),
            r >= 0,
    ;
    assert(-(2 * r) <= dy + dx <= 2 * r) by (nonlinear_arith)
        requires
            (dy + dx) * (dy + dx) <= 2 * (r * r),
            r >= 0,
    ;
    if sign == -1 {
        assert(dx <= 0) by (nonlinear_arith)
            requires
                sign == -1,
                sign * dx >= 0,
        ;
        // Counter-clockwise corners: (0, -2r), (0, 2r), (-2r, 0).
        assert(cross2(0, 4 * r, dx, dy + 2 * r) == 0 * (dy + 2 * r) - (4 * r) * dx);
        assert(0 * (dy + 2 * r) - (4 * r) * dx >= 0) by (nonlinear_arith)
            requires
                r >= 0,
                dx <= 0,
        ;
        assert(cross2(-2 * r - 0, 0 - 2 * r, dx - 0, dy - 2 * r)
            == (-2 * r - 0) * (dy - 2 * r) - (0 - 2 * r) * (dx - 0));
        assert((-2 * r - 0) * (dy - 2 * r) - (0 - 2 * r) * (dx - 0) >= 0) by (nonlinear_arith)
            requires
                r >= 0,
                dy - dx <= 2 * r,
        ;
        assert(cross2(0 - (-2 * r), -2 * r - 0, dx - (-2 * r), dy - 0)
            == (0 - (-2 * r)) * dy - (-2 * r - 0) * (dx - (-2 * r)));
        assert((0 - (-2 * r)) * dy - (-2 * r - 0) * (dx - (-2 * r)) >= 0) by (nonlinear_arith)
            requires
                r >= 0,
                dy + dx >= -(2 * r),
        ;
    } else {
        assert(dx >= 0) by (nonlinear_arith)
            requires
                sign == 1,
                sign * dx >= 0,
        ;
        // Counter-clockwise corners: (0, -2r), (2r, 0), (0, 2r).
        assert(cross2(2 * r - 0, 0 - (-2 * r), dx - 0, dy - (-2 * r))
            == (2 * r) * (dy + 2 * r) - (2 * r) * dx);
        assert((2 * r) * (dy + 2 * r) - (2 * r) * dx >= 0) by (nonlinear_arith)
            requires
                r >= 0,
                dy - dx >= -(2 * r),
        ;
        assert(cross2(0 - 2 * r, 2 * r - 0, dx - 2 * r, dy - 0)
            == (0 - 2 * r) * dy - (2 * r) * (dx - 2 * r));
        assert((0 - 2 * r) * dy - (2 * r) * (dx - 2 * r) >= 0) by (nonlinear_arith)
            requires
                r >= 0,
                dy + dx <= 2 * r,
        ;
        assert(cross2(0 - 0, -2 * r - 2 * r, dx - 0, dy - 2 * r)
            == 0 * (dy - 2 * r) - (-4 * r) * dx);
        assert(0 * (dy - 2 * r) - (-4 * r) * dx >= 0) by (nonlinear_arith)
            requires
                r >= 0,
                dx >= 0,
        ;
    }
}

} // verus!
