//! The falloff shading model: a pure per-pixel color function.
//!
//! Given the offset `delta` from the nearest spine point to the shaded
//! location and the falloff attributes interpolated for that location, it
//! returns an RGBA color: a blend of the inner and falloff colors inside the
//! inner radius, and the falloff color with attenuated alpha across the
//! falloff band outside it.

use vstd::prelude::*;
use crate::color::{Rgba, lerp_rgba, lerp_rgba_spec, lemma_lerp_rgba_wf, lemma_lerp_rgba_ends};
use crate::fixed::{MAX_FX, ONE, fx_div, fx_div_spec, fx_mul, fx_mul_spec, fx_pow, fx_pow_spec, lemma_floor_div_sum, lemma_fx_div_monotone, lemma_fx_div_one_bounds, lemma_fx_div_self, lemma_fx_mul_monotone, lemma_fx_mul_one, lemma_fx_mul_upper, lemma_fx_pow_ge_one, lemma_fx_pow_monotone, lemma_fx_pow_range};
use crate::vec2::Vec2;

verus! {

/// The falloff attributes attached to a primitive (or interpolated along
/// one): solid `inner_color` out to `inner_radius`, then `falloff_color`
/// fading to transparent across `falloff_radius` more units, with the decay
/// shaped by the exponent `falloff`: a low exponent concentrates brightness
/// near the inner radius, a high one spreads it across the band.
///
/// The exponent is a whole number of at least one: the fixed-point model
/// computes powers exactly, and no exact form exists for a fractional
/// exponent. A host working in fractional exponents rounds to the nearest
/// whole value when it builds these records.
#[derive(Clone, Copy, Debug, PartialEq, Eq, Structural)]
pub struct Falloff {
    pub inner_color: Rgba,
    pub falloff: u32,
    pub falloff_color: Rgba,
    pub falloff_radius: i64,
    pub inner_radius: i64,
}

impl Falloff {
    /// Colors in range, radii non-negative and bounded, exponent strictly
    /// positive.
    pub open spec fn wf(self) -> bool {
        &&& self.inner_color.wf()
        &&& self.falloff_color.wf()
        &&& 0 <= self.inner_radius <= MAX_FX
        &&& 0 <= self.falloff_radius <= MAX_FX
        &&& self.falloff >= 1
    }

    /// The radius beyond which nothing is shaded.
    pub open spec fn full_radius(self) -> int {
        self.inner_radius + self.falloff_radius
    }
}

/// The attenuation factor applied to the falloff color's alpha at distance
/// `length` from the spine, for `length` past the inner radius: the fixed
/// point form of `max(0, 1 - ((length - inner_radius)/falloff_radius)^falloff)`.
/// A zero falloff radius gives no falloff band at all.
pub open spec fn alpha_factor_spec(length: int, f: Falloff) -> int {
    if f.falloff_radius <= 0 {
        0
    } else {
        let t = fx_div_spec(length - f.inner_radius, f.falloff_radius as int);
        let p = fx_pow_spec(t, f.falloff as nat);
        if p >= ONE {
            0
        } else {
            ONE - p
        }
    }
}

/// The shading model at a given spine distance `length`: inside a positive
/// inner radius, a linear blend from `inner_color` to `falloff_color` by
/// `length / inner_radius`; outside it (or whenever the inner radius is
/// zero), the falloff color's RGB with its alpha scaled by the attenuation
/// factor.
pub open spec fn shade_at_length_spec(length: int, f: Falloff) -> Rgba {
    if 0 < f.inner_radius && length <= f.inner_radius {
        lerp_rgba_spec(f.inner_color, f.falloff_color, fx_div_spec(length, f.inner_radius as int))
    } else {
        Rgba {
            r: f.falloff_color.r,
            g: f.falloff_color.g,
            b: f.falloff_color.b,
            a: fx_mul_spec(f.falloff_color.a as int, alpha_factor_spec(length, f)) as i64,
        }
    }
}

/// The shading model as a function of the offset from the spine.
pub open spec fn shade_spec(delta: Vec2, f: Falloff) -> Rgba {
    shade_at_length_spec(delta.len_spec(), f)
}

/// Evaluate the shading model at a spine distance.
pub fn shade_at_length(length: i64, f: &Falloff) -> (c: Rgba)
    requires
        f.wf(),
        0 <= length <= 4 * MAX_FX,
    ensures
        c == shade_at_length_spec(length as int, *f),
        c.wf(),
{
    if 0 < f.inner_radius && length <= f.inner_radius {
        let travel = fx_div(length, f.inner_radius);
        proof {
            lemma_fx_div_one_bounds(length as int, f.inner_radius as int);
            lemma_lerp_rgba_wf(f.inner_color, f.falloff_color, travel as int);
        }
        lerp_rgba(&f.inner_color, &f.falloff_color, travel)
    } else {
        let factor: i64 = if f.falloff_radius <= 0 {
            0
        } else {
            let t = fx_div(length - f.inner_radius, f.falloff_radius);
            if t >= ONE {
                proof {
                    lemma_fx_pow_ge_one(t as int, f.falloff as nat);
                }
                0
            } else {
                let p = fx_pow(t, f.falloff);
                proof {
                    if f.falloff >= 1 {
                        lemma_fx_pow_range(t as int, (f.falloff - 1) as nat);
                        lemma_fx_mul_monotone(t as int, t as int, fx_pow_spec(t as int, (f.falloff - 1) as nat), ONE as int);
                        lemma_fx_mul_one(t as int);
                    }
                }
                ONE - p
            }
        };
        proof {
            lemma_fx_mul_upper(f.falloff_color.a as int, factor as int);
        }
        let alpha = fx_mul(f.falloff_color.a, factor);
        Rgba { r: f.falloff_color.r, g: f.falloff_color.g, b: f.falloff_color.b, a: alpha }
    }
}

/// Evaluate the shading model at an offset from the spine.
pub fn shade(delta: Vec2, f: &Falloff) -> (c: Rgba)
    requires
        f.wf(),
        delta.wf(),
    ensures
        c == shade_spec(delta, *f),
        c.wf(),
{
    let length = delta.len();
    shade_at_length(length, f)
}

/// A linear blend of two non-negative fixed-point scalars at weight `t`:
/// the same flooring form as a color-channel blend.
pub open spec fn lerp_scalar_spec(v0: int, v1: int, t: int) -> int {
    fx_mul_spec(v0, ONE - t) + fx_mul_spec(v1, t)
}

/// A blend of scalars bounded by `bound` stays within `[0, bound]`.
pub proof fn lemma_lerp_scalar_bounds(v0: int, v1: int, t: int, bound: int)
    requires
        0 <= v0 <= bound,
        0 <= v1 <= bound,
        0 <= t <= ONE,
    ensures
        0 <= lerp_scalar_spec(v0, v1, t) <= bound,
{
    lemma_fx_mul_monotone(v0, bound, ONE - t, ONE - t);
    lemma_fx_mul_monotone(v1, bound, t, t);
    lemma_floor_div_sum(bound * (ONE - t), bound * t, ONE as int);
    assert(bound * (ONE - t) + bound * t == bound * ONE) by (nonlinear_arith);
    lemma_fx_mul_one(bound);
    assert(bound * (ONE - t) == (ONE - t) * bound && bound * t == t * bound
        && bound * ONE == ONE * bound) by (nonlinear_arith);
}

/// Blend two non-negative bounded scalars.
pub fn lerp_scalar(v0: i64, v1: i64, t: i64) -> (r: i64)
    requires
        0 <= v0 <= MAX_FX,
        0 <= v1 <= MAX_FX,
        0 <= t <= ONE,
    ensures
        r == lerp_scalar_spec(v0 as int, v1 as int, t as int),
        0 <= r <= MAX_FX,
{
    proof {
        lemma_lerp_scalar_bounds(v0 as int, v1 as int, t as int, MAX_FX as int);
    }
    fx_mul(v0, ONE - t) + fx_mul(v1, t)
}

/// Falloff attributes interpolated along a stroke at weight `t`: colors and
/// radii blend linearly; the whole-number falloff exponent admits no
/// fractional blend, so the nearer endpoint's exponent is taken (the first
/// endpoint's up to the midpoint).
pub open spec fn lerp_falloff_spec(f0: Falloff, f1: Falloff, t: int) -> Falloff {
    Falloff {
        inner_color: lerp_rgba_spec(f0.inner_color, f1.inner_color, t),
        falloff: if 2 * t <= ONE { f0.falloff } else { f1.falloff },
        falloff_color: lerp_rgba_spec(f0.falloff_color, f1.falloff_color, t),
        falloff_radius: lerp_scalar_spec(f0.falloff_radius as int, f1.falloff_radius as int, t) as i64,
        inner_radius: lerp_scalar_spec(f0.inner_radius as int, f1.inner_radius as int, t) as i64,
    }
}

/// A blend of well-formed attribute sets is well-formed.
pub proof fn lemma_lerp_falloff_wf(f0: Falloff, f1: Falloff, t: int)
    requires
        f0.wf(),
        f1.wf(),
        0 <= t <= ONE,
    ensures
        lerp_falloff_spec(f0, f1, t).wf(),
{
    lemma_lerp_rgba_wf(f0.inner_color, f1.inner_color, t);
    lemma_lerp_rgba_wf(f0.falloff_color, f1.falloff_color, t);
    lemma_lerp_scalar_bounds(f0.falloff_radius as int, f1.falloff_radius as int, t, MAX_FX as int);
    lemma_lerp_scalar_bounds(f0.inner_radius as int, f1.inner_radius as int, t, MAX_FX as int);
}

/// Interpolate falloff attributes along a stroke.
pub fn lerp_falloff(f0: &Falloff, f1: &Falloff, t: i64) -> (f: Falloff)
    requires
        f0.wf(),
        f1.wf(),
        0 <= t <= ONE,
    ensures
        f == lerp_falloff_spec(*f0, *f1, t as int),
        f.wf(),
{
    proof {
        lemma_lerp_falloff_wf(*f0, *f1, t as int);
    }
    Falloff {
        inner_color: lerp_rgba(&f0.inner_color, &f1.inner_color, t),
        falloff: if 2 * t <= ONE { f0.falloff } else { f1.falloff },
        falloff_color: lerp_rgba(&f0.falloff_color, &f1.falloff_color, t),
        falloff_radius: lerp_scalar(f0.falloff_radius, f1.falloff_radius, t),
        inner_radius: lerp_scalar(f0.inner_radius, f1.inner_radius, t),
    }
}

/// Continuity at the inner boundary: at distance exactly `inner_radius`, the
/// inner-branch blend has travelled all the way to the falloff color, the
/// same color the outer branch starts from.
pub proof fn lemma_shade_boundary(f: Falloff)
    requires
        f.wf(),
        0 < f.inner_radius,
    ensures
        shade_at_length_spec(f.inner_radius as int, f) == f.falloff_color,
{
    lemma_fx_div_self(f.inner_radius as int);
    lemma_lerp_rgba_ends(f.inner_color, f.falloff_color);
}

/// Past the inner radius, alpha never increases as the spine distance grows.
pub proof fn lemma_alpha_monotone(f: Falloff, l1: int, l2: int)
    requires
        f.wf(),
        f.inner_radius <= l1 <= l2,
    ensures
        shade_at_length_spec(l2, f).a <= shade_at_length_spec(l1, f).a,
{
    lemma_alpha_factor_bounds(f, l1);
    lemma_alpha_factor_bounds(f, l2);
    if 0 < f.inner_radius && l1 <= f.inner_radius {
        // l1 sits exactly on the boundary: the inner branch yields the
        // falloff color itself there.
        lemma_shade_boundary(f);
        if l2 <= f.inner_radius {
            assert(l1 == l2);
        } else {
            lemma_fx_mul_upper(f.falloff_color.a as int, alpha_factor_spec(l2, f));
            assert(shade_at_length_spec(l2, f).a <= f.falloff_color.a);
        }
    } else {
        // Both lengths use the outer branch.
        if f.falloff_radius <= 0 {
        } else {
            let t1 = fx_div_spec(l1 - f.inner_radius, f.falloff_radius as int);
            let t2 = fx_div_spec(l2 - f.inner_radius, f.falloff_radius as int);
            lemma_fx_div_monotone(l1 - f.inner_radius, l2 - f.inner_radius, f.falloff_radius as int);
            lemma_fx_pow_monotone(t1, t2, f.falloff as nat);
            assert(alpha_factor_spec(l2, f) <= alpha_factor_spec(l1, f));
            lemma_fx_mul_monotone(
                f.falloff_color.a as int,
                f.falloff_color.a as int,
                alpha_factor_spec(l2, f),
                alpha_factor_spec(l1, f),
            );
            lemma_fx_mul_upper(f.falloff_color.a as int, alpha_factor_spec(l1, f));
            lemma_fx_mul_upper(f.falloff_color.a as int, alpha_factor_spec(l2, f));
            assert(shade_at_length_spec(l1, f).a == fx_mul_spec(f.falloff_color.a as int, alpha_factor_spec(l1, f)));
            assert(shade_at_length_spec(l2, f).a == fx_mul_spec(f.falloff_color.a as int, alpha_factor_spec(l2, f)));
        }
    }
}

/// The attenuation factor always lies in `[0, ONE]`.
pub proof fn lemma_alpha_factor_bounds(f: Falloff, l: int)
    requires
        f.wf(),
        f.inner_radius <= l,
    ensures
        0 <= alpha_factor_spec(l, f) <= ONE,
{
    if f.falloff_radius <= 0 {
    } else {
        let t = fx_div_spec(l - f.inner_radius, f.falloff_radius as int);
        lemma_fx_div_monotone(0, l - f.inner_radius, f.falloff_radius as int);
        lemma_fx_pow_monotone(0, t, f.falloff as nat);
    }
}

/// At the outer rim of the falloff band (and anywhere beyond it) the output
/// is fully transparent.
pub proof fn lemma_alpha_vanishes(f: Falloff, l: int)
    requires
        f.wf(),
        l >= f.full_radius(),
        f.inner_radius == 0 || l > f.inner_radius,
    ensures
        shade_at_length_spec(l, f).a == 0,
{
    if f.falloff_radius <= 0 {
        assert(fx_mul_spec(f.falloff_color.a as int, 0) == 0);
    } else {
        let t = fx_div_spec(l - f.inner_radius, f.falloff_radius as int);
        lemma_fx_div_one_bounds(l - f.inner_radius, f.falloff_radius as int);
        lemma_fx_pow_ge_one(t, f.falloff as nat);
        assert(fx_mul_spec(f.falloff_color.a as int, 0) == 0);
    }
}

} // verus!
