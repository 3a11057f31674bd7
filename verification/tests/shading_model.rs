use glow2d::color::Rgba;
use glow2d::fixed::{fx_div, fx_mul, fx_pow, isqrt, ONE};
use glow2d::shading::{lerp_falloff, shade, shade_at_length, Falloff};
use glow2d::vec2::Vec2;

fn falloff(
    inner_color: Rgba,
    falloff_color: Rgba,
    inner_radius: i64,
    falloff_radius: i64,
    falloff: u32,
) -> Falloff {
    Falloff { inner_color, falloff, falloff_color, falloff_radius, inner_radius }
}

fn rgba(r: i64, g: i64, b: i64, a: i64) -> Rgba {
    Rgba { r, g, b, a }
}

#[test]
fn fixed_ops_exact_values() {
    assert_eq!(fx_mul(ONE, ONE), ONE);
    assert_eq!(fx_mul(ONE / 2, ONE / 2), ONE / 4);
    assert_eq!(fx_mul(3 * ONE, 2 * ONE), 6 * ONE);
    assert_eq!(fx_div(ONE, 2 * ONE), ONE / 2);
    assert_eq!(fx_div(3 * ONE, ONE), 3 * ONE);
    assert_eq!(fx_pow(ONE / 2, 2), ONE / 4);
    assert_eq!(fx_pow(ONE, 7), ONE);
    assert_eq!(fx_pow(ONE / 4, 1), ONE / 4);
    assert_eq!(isqrt(0), 0);
    assert_eq!(isqrt(4), 2);
    assert_eq!(isqrt(8), 2);
    assert_eq!(isqrt((ONE as i64) * (ONE as i64)), ONE);
}

#[test]
fn shade_length_from_delta() {
    // A 3-4-5 triangle in fixed point: |(3, 4)| == 5.
    let f = falloff(rgba(ONE, 0, 0, ONE), rgba(0, 0, 0, 0), 10 * ONE, ONE, 1);
    let by_delta = shade(Vec2 { x: 3 * ONE, y: 4 * ONE }, &f);
    let by_length = shade_at_length(5 * ONE, &f);
    assert_eq!(by_delta, by_length);
}

// Sampling the model exactly at the inner radius yields exactly the falloff
// color, whatever the colors and exponent: the two branches agree at the
// boundary.
#[test]
fn boundary_continuity() {
    let cases = [
        falloff(rgba(ONE, 0, 0, ONE), rgba(0, ONE, 0, ONE / 2), ONE, ONE, 2),
        falloff(rgba(ONE, ONE, 0, ONE), rgba(ONE / 4, 0, ONE, ONE), 3 * ONE, 0, 1),
        falloff(rgba(0, 0, 0, 0), rgba(ONE, ONE, ONE, ONE), ONE / 2, 5 * ONE, 7),
    ];
    for f in cases {
        let c = shade_at_length(f.inner_radius, &f);
        assert_eq!(c, f.falloff_color);
    }
}

// Past the inner radius, alpha never increases with distance, and it is
// exactly zero from the outer rim of the falloff band on.
#[test]
fn alpha_monotone_and_vanishing() {
    let f = falloff(rgba(ONE, 0, 0, ONE), rgba(ONE, ONE, ONE, ONE), ONE, 2 * ONE, 3);
    let mut last = shade_at_length(f.inner_radius, &f).a;
    let mut l = f.inner_radius;
    while l <= 4 * ONE {
        let a = shade_at_length(l, &f).a;
        assert!(a <= last);
        last = a;
        l += ONE / 16;
    }
    assert_eq!(shade_at_length(3 * ONE, &f).a, 0);
    assert_eq!(shade_at_length(10 * ONE, &f).a, 0);
}

// Scenario: a red node of inner radius 1, falloff radius 1, exponent 2 and a
// fully transparent falloff color.
#[test]
fn red_node_scenario() {
    let f = falloff(rgba(ONE, 0, 0, ONE), rgba(0, 0, 0, 0), ONE, ONE, 2);
    assert_eq!(shade_at_length(0, &f), rgba(ONE, 0, 0, ONE));
    assert_eq!(shade_at_length(ONE, &f), rgba(0, 0, 0, 0));
    // At length 1.5, the attenuation factor is exactly 3/4, applied to the
    // falloff color's alpha.
    let c = shade_at_length(ONE + ONE / 2, &f);
    assert_eq!((c.r, c.g, c.b), (0, 0, 0));
    assert_eq!(c.a, 0);
    let f_opaque = falloff(rgba(ONE, 0, 0, ONE), rgba(0, 0, 0, ONE), ONE, ONE, 2);
    assert_eq!(shade_at_length(ONE + ONE / 2, &f_opaque).a, 3 * ONE / 4);
    assert_eq!(shade_at_length(2 * ONE, &f_opaque).a, 0);
}

// Scenario: flat-capped edge from a red endpoint to a blue one, both of
// inner radius 1/2; at the midpoint, perpendicular distance exactly 1/2
// yields the falloff colors blended half and half.
#[test]
fn edge_midpoint_blend_scenario() {
    let half = ONE / 2;
    let a = falloff(rgba(ONE, 0, 0, ONE), rgba(ONE, 0, 0, ONE), half, 0, 2);
    let b = falloff(rgba(0, 0, ONE, ONE), rgba(0, 0, ONE, ONE), half, 0, 2);
    let mid = lerp_falloff(&a, &b, half);
    assert_eq!(mid.inner_radius, half);
    assert_eq!(mid.falloff_color, rgba(half, 0, half, ONE));
    let c = shade_at_length(half, &mid);
    assert_eq!(c, rgba(half, 0, half, ONE));
}

// Blending weights 0 and ONE return the endpoints' own attributes.
#[test]
fn lerp_falloff_endpoints() {
    let a = falloff(rgba(ONE, 0, 0, ONE), rgba(0, ONE, 0, ONE), ONE, 2 * ONE, 2);
    let b = falloff(rgba(0, 0, ONE, ONE), rgba(ONE, ONE, 0, ONE / 2), 3 * ONE, ONE, 5);
    assert_eq!(lerp_falloff(&a, &b, 0), a);
    assert_eq!(lerp_falloff(&a, &b, ONE), b);
}

// A zero inner radius takes the outer branch immediately; a zero falloff
// radius gives no falloff band at all.
#[test]
fn zero_radius_guards() {
    let no_inner = falloff(rgba(ONE, 0, 0, ONE), rgba(0, ONE, 0, ONE), 0, ONE, 1);
    let at_center = shade_at_length(0, &no_inner);
    // Outer branch at distance zero: full falloff-color alpha.
    assert_eq!(at_center, rgba(0, ONE, 0, ONE));
    let no_band = falloff(rgba(ONE, 0, 0, ONE), rgba(0, ONE, 0, ONE), ONE, 0, 1);
    // Immediately past the inner radius the output is fully transparent.
    assert_eq!(shade_at_length(ONE + 1, &no_band).a, 0);
    // A node with both radii zero is fully transparent everywhere.
    let degenerate = falloff(rgba(ONE, 0, 0, ONE), rgba(0, ONE, 0, ONE), 0, 0, 1);
    assert_eq!(shade_at_length(0, &degenerate).a, 0);
    assert_eq!(shade_at_length(5 * ONE, &degenerate).a, 0);
}
