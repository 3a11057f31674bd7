use glow2d::color::Rgba;
use glow2d::fixed::ONE;
use glow2d::pipeline::expand_qbeziers;
use glow2d::qbezier::{expand_qbezier, qbez_dist_at, qbez_nearest, qbez_num, shade_qbezier, shade_qbezier_flat, QBezier};
use glow2d::shading::{lerp_falloff, shade_at_length};
use glow2d::vec2::Vec2;

fn rgba(r: i64, g: i64, b: i64, a: i64) -> Rgba {
    Rgba { r, g, b, a }
}

fn curve(p0: (i64, i64), p1: (i64, i64), p2: (i64, i64)) -> QBezier {
    QBezier {
        position0: Vec2 { x: p0.0, y: p0.1 },
        position1: Vec2 { x: p1.0, y: p1.1 },
        position2: Vec2 { x: p2.0, y: p2.1 },
        inner_color0: rgba(ONE, 0, 0, ONE),
        inner_color1: rgba(0, 0, ONE, ONE),
        falloff_color0: rgba(ONE, 0, 0, 0),
        falloff_color1: rgba(0, 0, ONE, 0),
        falloff0: 2,
        falloff1: 2,
        falloff_radius0: 0,
        falloff_radius1: 0,
        inner_radius0: ONE,
        inner_radius1: ONE,
    }
}

#[test]
fn curve_evaluation_hits_endpoints() {
    // At parameter 0 the curve sits on the start control point, at ONE on
    // the end, both scaled by ONE squared.
    let s2 = ONE * ONE;
    assert_eq!(qbez_num(3 * ONE, 7 * ONE, 11 * ONE, 0), 3 * ONE * s2);
    assert_eq!(qbez_num(3 * ONE, 7 * ONE, 11 * ONE, ONE), 11 * ONE * s2);
    // At the middle parameter the weights are exactly 1/4, 1/2, 1/4.
    let mid = qbez_num(0, 0, 4 * ONE, ONE / 2);
    assert_eq!(mid, ONE * s2);
}

#[test]
fn covering_box_pads_control_points() {
    let q = curve((0, 0), (ONE, 0), (2 * ONE, 0));
    let vs = expand_qbezier(&q);
    assert_eq!(vs.len(), 4);
    let h = ONE + 1;
    assert_eq!(vs[0].base, Vec2 { x: -h, y: -h });
    assert_eq!(vs[1].base, Vec2 { x: 2 * ONE + h, y: -h });
    assert_eq!(vs[2].base, Vec2 { x: -h, y: h });
    assert_eq!(vs[3].base, Vec2 { x: 2 * ONE + h, y: h });
    for v in vs.iter() {
        assert_eq!(v.offset, Vec2 { x: 0, y: 0 });
        assert_eq!(v.delta, Vec2 { x: 0, y: 0 });
    }
    assert_eq!(vs[0].attrs.inner_color, rgba(ONE, 0, 0, ONE));
    assert_eq!(vs[3].attrs.inner_color, rgba(0, 0, ONE, ONE));
}

#[test]
fn curve_distance_on_straight_spine() {
    let q = curve((0, 0), (ONE, 0), (2 * ONE, 0));
    // On the curve at its start: distance zero.
    assert_eq!(qbez_dist_at(Vec2 { x: 0, y: 0 }, &q, 0), 0);
    // One unit above the start.
    assert_eq!(qbez_dist_at(Vec2 { x: 0, y: ONE }, &q, 0), ONE);
    let (d, t) = qbez_nearest(Vec2 { x: 0, y: ONE }, &q, 16);
    assert_eq!((d, t), (ONE, 0));
    // Above the middle of the straight spine.
    let (d_mid, _) = qbez_nearest(Vec2 { x: ONE, y: ONE / 2 }, &q, 16);
    assert_eq!(d_mid, ONE / 2);
}

#[test]
fn curve_shading_at_start_is_inner_color() {
    let q = curve((0, 0), (ONE, 0), (2 * ONE, 0));
    let c = shade_qbezier(Vec2 { x: 0, y: 0 }, &q, 16);
    assert_eq!(c, rgba(ONE, 0, 0, ONE));
    // Far away from the corridor everything is transparent.
    let far = shade_qbezier(Vec2 { x: 0, y: 20 * ONE }, &q, 16);
    assert_eq!(far.a, 0);
}

#[test]
fn bent_curve_midpoint_is_exact() {
    // Control points bend the curve upward; at the middle parameter the
    // curve passes exactly through (1, 1).
    let q = curve((0, 0), (ONE, 2 * ONE), (2 * ONE, 0));
    assert_eq!(qbez_num(0, ONE, 2 * ONE, ONE / 2), ONE * ONE * ONE);
    assert_eq!(qbez_num(0, 2 * ONE, 0, ONE / 2), ONE * ONE * ONE);
    assert_eq!(qbez_dist_at(Vec2 { x: ONE, y: 0 }, &q, ONE / 2), ONE);
    let (d, t) = qbez_nearest(Vec2 { x: ONE, y: ONE }, &q, 16);
    assert_eq!((d, t), (0, ONE / 2));
}

// Flat caps cut the glow off perpendicular to the endpoint tangents: a
// point beyond the start of an opaque straight curve is fully transparent
// under flat caps, while round caps wrap the glow around the endpoint.
#[test]
fn flat_curve_cuts_beyond_endpoints() {
    let mut q = curve((0, 0), (ONE, 0), (2 * ONE, 0));
    q.falloff_color0 = rgba(ONE, 0, 0, ONE);
    q.falloff_color1 = rgba(0, 0, ONE, ONE);
    q.falloff_radius0 = ONE;
    q.falloff_radius1 = ONE;
    // Half a unit beyond the start, on the tangent line.
    let before = Vec2 { x: -ONE / 2, y: 0 };
    assert_eq!(shade_qbezier_flat(before, &q, 16), rgba(0, 0, 0, 0));
    assert_eq!(shade_qbezier(before, &q, 16).a, ONE);
    // Half a unit beyond the end.
    let after = Vec2 { x: 2 * ONE + ONE / 2, y: 0 };
    assert_eq!(shade_qbezier_flat(after, &q, 16), rgba(0, 0, 0, 0));
    assert_eq!(shade_qbezier(after, &q, 16).a, ONE);
    // Between the cut lines the two cap styles agree.
    let inside = Vec2 { x: ONE, y: ONE / 2 };
    assert_eq!(shade_qbezier_flat(inside, &q, 16), shade_qbezier(inside, &q, 16));
    // Exactly on the start endpoint: not beyond, so still shaded.
    let at_start = Vec2 { x: 0, y: 0 };
    assert_eq!(shade_qbezier_flat(at_start, &q, 16), shade_qbezier(at_start, &q, 16));
}

// A curve whose control point is the chord midpoint traces the straight
// chord: inside the corridor its flat-cap shading equals the flat-cap edge
// shading of the same segment (perpendicular spine distance, attributes
// blended at the same axis parameter), and beyond an endpoint both are
// transparent.
#[test]
fn degenerate_straight_curve_matches_flat_edge() {
    let mut q = curve((0, 0), (ONE, 0), (2 * ONE, 0));
    q.falloff_color0 = rgba(ONE, 0, 0, ONE);
    q.falloff_color1 = rgba(0, 0, ONE, ONE);
    q.falloff_radius0 = ONE;
    q.falloff_radius1 = ONE;
    let a0 = q.attrs0();
    let a1 = q.attrs1();
    // Above the chord midpoint at perpendicular distance 1/2: the nearest
    // sample parameter is 1/2, as for the segment's own midpoint.
    let p = Vec2 { x: ONE, y: ONE / 2 };
    let by_curve = shade_qbezier_flat(p, &q, 16);
    let by_edge = shade_at_length(ONE / 2, &lerp_falloff(&a0, &a1, ONE / 2));
    assert_eq!(by_curve, by_edge);
    // Beyond the start endpoint the flat edge covers nothing, and the
    // flat curve shades nothing.
    let before = Vec2 { x: -ONE, y: 0 };
    assert_eq!(shade_qbezier_flat(before, &q, 16).a, 0);
}

#[test]
fn qbezier_batch_concatenates() {
    let q0 = curve((0, 0), (ONE, 0), (2 * ONE, 0));
    let q1 = curve((0, 0), (0, ONE), (0, 2 * ONE));
    let batch = vec![q0, q1];
    let vs = expand_qbeziers(&batch);
    assert_eq!(vs.len(), 8);
    assert_eq!(&vs[0..4], &expand_qbezier(&q0)[..]);
    assert_eq!(&vs[4..8], &expand_qbezier(&q1)[..]);
}
