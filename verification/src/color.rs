//! RGBA colors in fixed point and exact linear blending.

use vstd::prelude::*;
use crate::fixed::{ONE, fx_mul, fx_mul_spec, lemma_fx_mul_monotone, lemma_fx_mul_one, lemma_floor_div_sum};
use vstd::arithmetic::mul::lemma_mul_inequality;

verus! {

/// An RGBA color; each channel is a fixed-point scalar in `[0, ONE]`
/// (`ONE` standing for full intensity).
#[derive(Clone, Copy, Debug, PartialEq, Eq, Structural)]
pub struct Rgba {
    pub r: i64,
    pub g: i64,
    pub b: i64,
    pub a: i64,
}

/// One channel of a linear blend: `c0` weighted by `ONE - t` plus `c1`
/// weighted by `t`, each product floored to the fixed-point scale.
pub open spec fn lerp_channel_spec(c0: int, c1: int, t: int) -> int {
    fx_mul_spec(c0, ONE - t) + fx_mul_spec(c1, t)
}

/// A channel blend of in-range channels stays in range.
pub proof fn lemma_lerp_channel_bounds(c0: int, c1: int, t: int)
    requires
        0 <= c0 <= ONE,
        0 <= c1 <= ONE,
        0 <= t <= ONE,
    ensures
        0 <= lerp_channel_spec(c0, c1, t) <= ONE,
{
    lemma_fx_mul_monotone(c0, ONE as int, ONE - t, ONE - t);
    lemma_fx_mul_monotone(c1, ONE as int, t, t);
    lemma_floor_div_sum((ONE as int) * (ONE - t), (ONE as int) * t, ONE as int);
    lemma_mul_inequality(0, ONE - t, ONE as int);
    assert((ONE as int) * (ONE - t) + (ONE as int) * t == (ONE as int) * (ONE as int))
        by (nonlinear_arith);
    lemma_fx_mul_one(ONE as int);
    assert((ONE as int) * (ONE - t) == (ONE - t) * (ONE as int)) by (nonlinear_arith);
    assert((ONE as int) * t == t * (ONE as int)) by (nonlinear_arith);
}

/// Blending at weight `0` returns the first channel; at `ONE`, the second.
pub proof fn lemma_lerp_channel_ends(c0: int, c1: int)
    ensures
        lerp_channel_spec(c0, c1, 0) == c0,
        lerp_channel_spec(c0, c1, ONE as int) == c1,
{
    lemma_fx_mul_one(c0);
    lemma_fx_mul_one(c1);
}

impl Rgba {
    /// Every channel lies in `[0, ONE]`.
    pub open spec fn wf(self) -> bool {
        0 <= self.r <= ONE && 0 <= self.g <= ONE && 0 <= self.b <= ONE && 0 <= self.a <= ONE
    }

    pub fn new(r: i64, g: i64, b: i64, a: i64) -> (c: Rgba)
        ensures
            c == (Rgba { r, g, b, a }),
    {
        Rgba { r, g, b, a }
    }
}

/// Componentwise linear blend of two colors at weight `t`.
pub open spec fn lerp_rgba_spec(c0: Rgba, c1: Rgba, t: int) -> Rgba {
    Rgba {
        r: lerp_channel_spec(c0.r as int, c1.r as int, t) as i64,
        g: lerp_channel_spec(c0.g as int, c1.g as int, t) as i64,
        b: lerp_channel_spec(c0.b as int, c1.b as int, t) as i64,
        a: lerp_channel_spec(c0.a as int, c1.a as int, t) as i64,
    }
}

/// A blend of well-formed colors is well-formed.
pub proof fn lemma_lerp_rgba_wf(c0: Rgba, c1: Rgba, t: int)
    requires
        c0.wf(),
        c1.wf(),
        0 <= t <= ONE,
    ensures
        lerp_rgba_spec(c0, c1, t).wf(),
{
    lemma_lerp_channel_bounds(c0.r as int, c1.r as int, t);
    lemma_lerp_channel_bounds(c0.g as int, c1.g as int, t);
    lemma_lerp_channel_bounds(c0.b as int, c1.b as int, t);
    lemma_lerp_channel_bounds(c0.a as int, c1.a as int, t);
}

/// Blending at weight `0` returns the first color; at `ONE`, the second.
pub proof fn lemma_lerp_rgba_ends(c0: Rgba, c1: Rgba)
    ensures
        lerp_rgba_spec(c0, c1, 0) == c0,
        lerp_rgba_spec(c0, c1, ONE as int) == c1,
{
    lemma_lerp_channel_ends(c0.r as int, c1.r as int);
    lemma_lerp_channel_ends(c0.g as int, c1.g as int);
    lemma_lerp_channel_ends(c0.b as int, c1.b as int);
    lemma_lerp_channel_ends(c0.a as int, c1.a as int);
}

/// One channel of a linear blend, executable.
pub fn lerp_channel(c0: i64, c1: i64, t: i64) -> (r: i64)
    requires
        0 <= c0 <= ONE,
        0 <= c1 <= ONE,
        0 <= t <= ONE,
    ensures
        r == lerp_channel_spec(c0 as int, c1 as int, t as int),
        0 <= r <= ONE,
{
    proof {
        lemma_lerp_channel_bounds(c0 as int, c1 as int, t as int);
    }
    fx_mul(c0, ONE - t) + fx_mul(c1, t)
}

/// Componentwise linear blend of two colors, executable.
pub fn lerp_rgba(c0: &Rgba, c1: &Rgba, t: i64) -> (c: Rgba)
    requires
        c0.wf(),
        c1.wf(),
        0 <= t <= ONE,
    ensures
        c == lerp_rgba_spec(*c0, *c1, t as int),
        c.wf(),
{
    Rgba {
        r: lerp_channel(c0.r, c1.r, t),
        g: lerp_channel(c0.g, c1.g, t),
        b: lerp_channel(c0.b, c1.b, t),
        a: lerp_channel(c0.a, c1.a, t),
    }
}

} // verus!
