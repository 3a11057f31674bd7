use glow2d::color::Rgba;
use glow2d::edge::{expand_edge_flat, expand_edge_round};
use glow2d::fixed::ONE;
use glow2d::node::{expand_node, Node};
use glow2d::pipeline::{expand_edges_flat, expand_edges_round, expand_nodes, PipelineKind};
use glow2d::vec2::Vec2;
use glow2d::vertex::Vertex;

fn rgba(r: i64, g: i64, b: i64, a: i64) -> Rgba {
    Rgba { r, g, b, a }
}

fn node_at(x: i64, y: i64, inner_radius: i64, falloff_radius: i64) -> Node {
    Node {
        position: Vec2 { x, y },
        inner_color: rgba(ONE, 0, 0, ONE),
        falloff: 2,
        falloff_color: rgba(0, 0, 0, 0),
        falloff_radius,
        inner_radius,
    }
}

fn cross(ax: i64, ay: i64, bx: i64, by: i64) -> i64 {
    ax * by - ay * bx
}

// Is the point strictly inside the counter-clockwise triangle a, b, c?
fn strictly_inside(t: &[Vertex], px: i64, py: i64) -> bool {
    let (ax, ay) = (t[0].offset.x, t[0].offset.y);
    let (bx, by) = (t[1].offset.x, t[1].offset.y);
    let (cx, cy) = (t[2].offset.x, t[2].offset.y);
    cross(bx - ax, by - ay, px - ax, py - ay) > 0
        && cross(cx - bx, cy - by, px - bx, py - by) > 0
        && cross(ax - cx, ay - cy, px - cx, py - cy) > 0
}

#[test]
fn node_triangle_shape() {
    let n = node_at(5 * ONE, -3 * ONE, ONE, ONE);
    let vs = expand_node(&n);
    assert_eq!(vs.len(), 3);
    let h = 2 * ONE + 1;
    for v in vs.iter() {
        assert_eq!(v.base, Vec2 { x: 5 * ONE, y: -3 * ONE });
        assert_eq!(v.delta, v.offset);
        assert_eq!(v.attrs.inner_radius, ONE);
        assert_eq!(v.attrs.falloff_radius, ONE);
        assert_eq!(v.attrs.inner_color, rgba(ONE, 0, 0, ONE));
    }
    assert_eq!(vs[0].offset, Vec2 { x: 0, y: 2 * h });
    assert_eq!(vs[1].offset.y, -h);
    assert_eq!(vs[2].offset.y, -h);
    assert_eq!(vs[1].offset.x, -vs[2].offset.x);
    // Wide enough for the covering guarantee.
    let w = vs[2].offset.x;
    assert!(w * w >= 3 * h * h);
}

// The covering triangle strictly contains the full-radius circle: check the
// four axis-extreme points of the circle and a diagonal one.
#[test]
fn node_triangle_contains_circle_points() {
    let n = node_at(0, 0, ONE, ONE);
    let vs = expand_node(&n);
    let r = 2 * ONE;
    // 46341/65536 is just above sqrt(1/2), so (d, d) with d = r * 46340 /
    // 65536 lies just inside the circle.
    let d = ((r as i128 * 46340) / 65536) as i64;
    for (px, py) in [(r, 0), (-r, 0), (0, r), (0, -r), (d, d), (-d, d), (d, -d), (-d, -d)] {
        assert!(strictly_inside(&vs, px, py));
    }
    // Points well outside the triangle are not inside.
    assert!(!strictly_inside(&vs, 0, 5 * r));
    assert!(!strictly_inside(&vs, 5 * r, -5 * r));
}

// A node with both radii zero expands to a polygon of at most a few square
// ulps of area: far below any visible pixel, and no crash.
#[test]
fn degenerate_node_tiny_area() {
    let n = node_at(0, 0, 0, 0);
    let vs = expand_node(&n);
    assert_eq!(vs.len(), 3);
    assert_eq!(vs[0].offset, Vec2 { x: 0, y: 2 });
    assert_eq!(vs[1].offset, Vec2 { x: -2, y: -1 });
    assert_eq!(vs[2].offset, Vec2 { x: 2, y: -1 });
    let twice_area = cross(
        vs[1].offset.x - vs[0].offset.x,
        vs[1].offset.y - vs[0].offset.y,
        vs[2].offset.x - vs[0].offset.x,
        vs[2].offset.y - vs[0].offset.y,
    )
    .abs();
    assert_eq!(twice_area, 12);
    // In real units the area is 6 / ONE^2, far below f32 machine epsilon.
    assert!((twice_area as f64) / 2.0 / (ONE as f64) / (ONE as f64) < 1.0e-7);
}

// The flat quad's long edges run parallel to the segment: every corner is
// offset purely perpendicular, by exactly the full radius of its endpoint.
#[test]
fn flat_edge_quad_offsets() {
    let a = node_at(0, 0, ONE / 2, ONE / 4);
    let b = node_at(10 * ONE, 0, ONE, ONE);
    let ra = ONE / 2 + ONE / 4;
    let rb = 2 * ONE;
    let q = expand_edge_flat(&a, &b);
    assert_eq!(q.len(), 4);
    for v in q.iter() {
        assert_eq!(v.offset.x, 0);
        assert_eq!(v.delta, v.offset);
    }
    assert_eq!(q[0].offset.y, -ra);
    assert_eq!(q[1].offset.y, ra);
    assert_eq!(q[2].offset.y, -rb);
    assert_eq!(q[3].offset.y, rb);
    assert_eq!(q[0].base, a.position);
    assert_eq!(q[2].base, b.position);
    // With equal radii the long edges carry identical offsets at both ends:
    // each long edge is the segment itself translated sideways.
    let b_eq = node_at(10 * ONE, 0, ONE / 2, ONE / 4);
    let q_eq = expand_edge_flat(&a, &b_eq);
    assert_eq!(q_eq[0].offset, q_eq[2].offset);
    assert_eq!(q_eq[1].offset, q_eq[3].offset);
}

// The round expansion is the flat strip plus two caps: its middle triangles
// are built of exactly the flat quad's corners, and the caps reach twice
// the full radius beyond each endpoint.
#[test]
fn round_edge_covers_flat_strip_plus_caps() {
    let a = node_at(0, 0, ONE, 0);
    let b = node_at(4 * ONE, 3 * ONE, ONE / 2, ONE / 2);
    let q = expand_edge_flat(&a, &b);
    let r = expand_edge_round(&a, &b);
    assert_eq!(r.len(), 12);
    assert_eq!(r[3], q[0]);
    assert_eq!(r[4], q[1]);
    assert_eq!(r[5], q[2]);
    assert_eq!(r[6], q[1]);
    assert_eq!(r[7], q[2]);
    assert_eq!(r[8], q[3]);
    // Cap at the first endpoint opens against the frame axis.
    assert_eq!(r[0].offset, Vec2 { x: 0, y: -2 * ONE });
    assert_eq!(r[1].offset, Vec2 { x: -2 * ONE, y: 0 });
    assert_eq!(r[2].offset, Vec2 { x: 0, y: 2 * ONE });
    // Cap at the second endpoint opens along it.
    assert_eq!(r[9].offset, Vec2 { x: 0, y: -2 * ONE });
    assert_eq!(r[10].offset, Vec2 { x: 2 * ONE, y: 0 });
    assert_eq!(r[11].offset, Vec2 { x: 0, y: 2 * ONE });
    for v in [&r[0], &r[1], &r[2]] {
        assert_eq!(v.base, a.position);
        assert_eq!(v.delta, v.offset);
    }
}

// Two chained flat-capped segments sharing an endpoint record produce the
// same boundary pair, vertex for vertex: no gap and no overlap.
#[test]
fn flat_chain_seamless() {
    let a = node_at(0, 0, ONE, 0);
    let b = node_at(5 * ONE, 0, ONE / 2, ONE / 2);
    let c = node_at(9 * ONE, 0, ONE / 4, 0);
    let first = expand_edge_flat(&a, &b);
    let second = expand_edge_flat(&b, &c);
    assert_eq!(first[2], second[0]);
    assert_eq!(first[3], second[1]);
}

// A zero-length edge falls back to the node expansion of its first
// endpoint.
#[test]
fn degenerate_edge_is_node() {
    let a = node_at(ONE, ONE, ONE, ONE);
    let b = node_at(ONE, ONE, ONE / 2, 0);
    let flat = expand_edge_flat(&a, &b);
    let round = expand_edge_round(&a, &b);
    let tri = expand_node(&a);
    assert_eq!(flat.len(), 3);
    assert_eq!(flat, tri);
    assert_eq!(round, tri);
}

#[test]
fn node_batch_concatenates() {
    let n0 = node_at(0, 0, ONE, 0);
    let n1 = node_at(3 * ONE, 0, 0, ONE);
    let batch = vec![n0, n1];
    let vs = expand_nodes(&batch);
    assert_eq!(vs.len(), 6);
    let t0 = expand_node(&n0);
    let t1 = expand_node(&n1);
    assert_eq!(&vs[0..3], &t0[..]);
    assert_eq!(&vs[3..6], &t1[..]);
}

// An unpaired trailing endpoint makes no primitive, as in a line-list draw.
#[test]
fn edge_batch_pairs_and_drops_tail() {
    let a = node_at(0, 0, ONE, 0);
    let b = node_at(5 * ONE, 0, ONE, 0);
    let c = node_at(9 * ONE, 0, ONE, 0);
    let batch = vec![a, b, c];
    let flat = expand_edges_flat(&batch);
    assert_eq!(flat.len(), 4);
    assert_eq!(&flat[..], &expand_edge_flat(&a, &b)[..]);
    let round = expand_edges_round(&batch);
    assert_eq!(round.len(), 12);
    assert_eq!(&round[..], &expand_edge_round(&a, &b)[..]);
}

#[test]
fn pipeline_kind_arities() {
    assert_eq!(PipelineKind::Nodes.points_per_primitive(), 1);
    assert_eq!(PipelineKind::RoundEdges.points_per_primitive(), 2);
    assert_eq!(PipelineKind::FlatEdges.points_per_primitive(), 2);
    assert_eq!(PipelineKind::RoundQBeziers.points_per_primitive(), 1);
    assert_eq!(PipelineKind::FlatQBeziers.points_per_primitive(), 1);
    assert_eq!(PipelineKind::Nodes.vertices_per_primitive(), 3);
    assert_eq!(PipelineKind::RoundEdges.vertices_per_primitive(), 12);
    assert_eq!(PipelineKind::FlatEdges.vertices_per_primitive(), 4);
    assert_eq!(PipelineKind::RoundQBeziers.vertices_per_primitive(), 4);
    assert_eq!(PipelineKind::FlatQBeziers.vertices_per_primitive(), 4);
}
