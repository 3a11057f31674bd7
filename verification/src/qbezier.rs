//! Quadratic-curve expansion and per-pixel spine distance.
//!
//! A quadratic glowing stroke is given by three control points and a
//! falloff attribute set for each endpoint. The curve lies in the convex
//! hull of its control points, so the padded bounding box of the three
//! points covers the whole swept corridor; the expansion emits that box.
//! The spine distance the shading model consumes is the distance from the
//! shaded point to the curve, approximated by the nearest of a row of
//! curve samples. Round caps let the glow wrap the endpoints; flat caps
//! cut it off perpendicular to the endpoint tangents, for chaining.

use vstd::prelude::*;
use crate::color::Rgba;
use crate::fixed::{MAX_FX, ONE, isqrt, sqrt_floor};
use crate::shading::{Falloff, lerp_falloff, lerp_falloff_spec, shade_at_length, shade_at_length_spec};
use crate::vec2::Vec2;
use crate::vertex::Vertex;
use vstd::arithmetic::div_mod::{lemma_div_is_ordered, lemma_div_multiples_vanish, lemma_div_pos_is_pos};
use vstd::arithmetic::mul::lemma_mul_inequality;

verus! {

/// A quadratic curve primitive: control points `position0` (start),
/// `position1` (control), `position2` (end), with falloff attributes
/// subscripted 0 and 1 for the start and end. The control point carries no
/// attributes of its own.
#[derive(Clone, Copy, Debug, PartialEq, Eq, Structural)]
pub struct QBezier {
    pub position0: Vec2,
    pub position1: Vec2,
    pub position2: Vec2,
    pub inner_color0: Rgba,
    pub inner_color1: Rgba,
    pub falloff_color0: Rgba,
    pub falloff_color1: Rgba,
    pub falloff0: u32,
    pub falloff1: u32,
    pub falloff_radius0: i64,
    pub falloff_radius1: i64,
    pub inner_radius0: i64,
    pub inner_radius1: i64,
}

impl QBezier {
    pub open spec fn wf(self) -> bool {
        &&& self.position0.wf()
        &&& self.position1.wf()
        &&& self.position2.wf()
        &&& self.attrs0_spec().wf()
        &&& self.attrs1_spec().wf()
    }

    /// The start endpoint's falloff attributes.
    pub open spec fn attrs0_spec(self) -> Falloff {
        Falloff {
            inner_color: self.inner_color0,
            falloff: self.falloff0,
            falloff_color: self.falloff_color0,
            falloff_radius: self.falloff_radius0,
            inner_radius: self.inner_radius0,
        }
    }

    /// The end endpoint's falloff attributes.
    pub open spec fn attrs1_spec(self) -> Falloff {
        Falloff {
            inner_color: self.inner_color1,
            falloff: self.falloff1,
            falloff_color: self.falloff_color1,
            falloff_radius: self.falloff_radius1,
            inner_radius: self.inner_radius1,
        }
    }

    /// The larger of the two endpoints' full radii: no point of the stroke
    /// shades beyond this distance from the spine.
    pub open spec fn max_full_radius_spec(self) -> int {
        let r0 = self.inner_radius0 + self.falloff_radius0;
        let r1 = self.inner_radius1 + self.falloff_radius1;
        if r0 >= r1 { r0 } else { r1 }
    }

    pub fn attrs0(&self) -> (f: Falloff)
        ensures
            f == self.attrs0_spec(),
    {
        Falloff {
            inner_color: self.inner_color0,
            falloff: self.falloff0,
            falloff_color: self.falloff_color0,
            falloff_radius: self.falloff_radius0,
            inner_radius: self.inner_radius0,
        }
    }

    pub fn attrs1(&self) -> (f: Falloff)
        ensures
            f == self.attrs1_spec(),
    {
        Falloff {
            inner_color: self.inner_color1,
            falloff: self.falloff1,
            falloff_color: self.falloff_color1,
            falloff_radius: self.falloff_radius1,
            inner_radius: self.inner_radius1,
        }
    }
}

/// One coordinate of the curve at parameter `t / ONE`, scaled by `ONE`
/// squared: the Bernstein combination `(ONE-t)^2 p0 + 2 t (ONE-t) p1 + t^2 p2`,
/// exact in integers.
pub open spec fn qbez_num_spec(p0: int, p1: int, p2: int, t: int) -> int {
    (ONE - t) * ((ONE - t) * p0) + 2 * (t * ((ONE - t) * p1)) + t * (t * p2)
}

/// The smaller of two values.
pub open spec fn min2(a: int, b: int) -> int {
    if a <= b { a } else { b }
}

/// The larger of two values.
pub open spec fn max2(a: int, b: int) -> int {
    if a >= b { a } else { b }
}

/// The padding of the covering box: the larger full radius plus one ulp,
/// so containment is strict.
pub open spec fn qbez_pad_spec(q: QBezier) -> int {
    q.max_full_radius_spec() + 1
}

/// The covering box of a curve: the bounding box of the three control
/// points, padded by `qbez_pad_spec`, in triangle-strip corner order. The
/// corners on the low-y side carry the start attributes, the others the end
/// attributes; curve shading measures its spine distance per pixel, so the
/// corner deltas are zero.
pub open spec fn expand_qbezier_spec(q: QBezier) -> Seq<Vertex> {
    let h = qbez_pad_spec(q);
    let lox = min2(q.position0.x as int, min2(q.position1.x as int, q.position2.x as int)) - h;
    let hix = max2(q.position0.x as int, max2(q.position1.x as int, q.position2.x as int)) + h;
    let loy = min2(q.position0.y as int, min2(q.position1.y as int, q.position2.y as int)) - h;
    let hiy = max2(q.position0.y as int, max2(q.position1.y as int, q.position2.y as int)) + h;
    seq![
        (Vertex {
            base: Vec2 { x: lox as i64, y: loy as i64 },
            offset: Vec2 { x: 0, y: 0 },
            delta: Vec2 { x: 0, y: 0 },
            attrs: q.attrs0_spec(),
        }),
        (Vertex {
            base: Vec2 { x: hix as i64, y: loy as i64 },
            offset: Vec2 { x: 0, y: 0 },
            delta: Vec2 { x: 0, y: 0 },
            attrs: q.attrs0_spec(),
        }),
        (Vertex {
            base: Vec2 { x: lox as i64, y: hiy as i64 },
            offset: Vec2 { x: 0, y: 0 },
            delta: Vec2 { x: 0, y: 0 },
            attrs: q.attrs1_spec(),
        }),
        (Vertex {
            base: Vec2 { x: hix as i64, y: hiy as i64 },
            offset: Vec2 { x: 0, y: 0 },
            delta: Vec2 { x: 0, y: 0 },
            attrs: q.attrs1_spec(),
        }),
    ]
}

/// The smaller of two fixed-point scalars.
fn min2_fx(a: i64, b: i64) -> (r: i64)
    ensures
        r == min2(a as int, b as int),
{
    if a <= b { a } else { b }
}

/// The larger of two fixed-point scalars.
fn max2_fx(a: i64, b: i64) -> (r: i64)
    ensures
        r == max2(a as int, b as int),
{
    if a >= b { a } else { b }
}

/// Expand one curve into its covering box.
pub fn expand_qbezier(q: &QBezier) -> (vs: Vec<Vertex>)
    requires
        q.wf(),
    ensures
        vs@ == expand_qbezier_spec(*q),
        vs@.len() == 4,
{
    let r0 = q.inner_radius0 + q.falloff_radius0;
    let r1 = q.inner_radius1 + q.falloff_radius1;
    let h = max2_fx(r0, r1) + 1;
    let lox = min2_fx(q.position0.x, min2_fx(q.position1.x, q.position2.x)) - h;
    let hix = max2_fx(q.position0.x, max2_fx(q.position1.x, q.position2.x)) + h;
    let loy = min2_fx(q.position0.y, min2_fx(q.position1.y, q.position2.y)) - h;
    let hiy = max2_fx(q.position0.y, max2_fx(q.position1.y, q.position2.y)) + h;
    let a0 = q.attrs0();
    let a1 = q.attrs1();
    let mut vs: Vec<Vertex> = Vec::new();
    vs.push(Vertex {
        base: Vec2 { x: lox, y: loy },
        offset: Vec2 { x: 0, y: 0 },
        delta: Vec2 { x: 0, y: 0 },
        attrs: a0,
    });
    vs.push(Vertex {
        base: Vec2 { x: hix, y: loy },
        offset: Vec2 { x: 0, y: 0 },
        delta: Vec2 { x: 0, y: 0 },
        attrs: a0,
    });
    vs.push(Vertex {
        base: Vec2 { x: lox, y: hiy },
        offset: Vec2 { x: 0, y: 0 },
        delta: Vec2 { x: 0, y: 0 },
        attrs: a1,
    });
    vs.push(Vertex {
        base: Vec2 { x: hix, y: hiy },
        offset: Vec2 { x: 0, y: 0 },
        delta: Vec2 { x: 0, y: 0 },
        attrs: a1,
    });
    proof {
        assert(vs@ =~= expand_qbezier_spec(*q));
    }
    vs
}

/// The Bernstein weights at any parameter in `[0, ONE]` are non-negative
/// and sum to `ONE` squared, so the combination stays between the least and
/// greatest control coordinate, scaled by `ONE` squared.
pub proof fn lemma_qbez_num_bounds(p0: int, p1: int, p2: int, t: int, lo: int, hi: int)
    requires
        0 <= t <= ONE,
        lo <= p0 <= hi,
        lo <= p1 <= hi,
        lo <= p2 <= hi,
    ensures
        (ONE as int) * ((ONE as int) * lo) <= qbez_num_spec(p0, p1, p2, t),
        qbez_num_spec(p0, p1, p2, t) <= (ONE as int) * ((ONE as int) * hi),
{
    let s = ONE as int;
    let u = s - t;
    assert(u * (u * p0) >= (u * u) * lo && u * (u * p0) <= (u * u) * hi) by (nonlinear_arith)
        requires
            u >= 0,
            lo <= p0 <= hi,
    ;
    assert(t * (u * p1) >= (t * u) * lo && t * (u * p1) <= (t * u) * hi) by (nonlinear_arith)
        requires
            t >= 0,
            u >= 0,
            lo <= p1 <= hi,
    ;
    assert(t * (t * p2) >= (t * t) * lo && t * (t * p2) <= (t * t) * hi) by (nonlinear_arith)
        requires
            t >= 0,
            lo <= p2 <= hi,
    ;
    assert(u * u + 2 * (t * u) + t * t == s * s) by (nonlinear_arith)
        requires u == s - t,
    ;
    assert((u * u) * lo + 2 * ((t * u) * lo) + (t * t) * lo == (s * s) * lo) by (nonlinear_arith)
        requires u * u + 2 * (t * u) + t * t == s * s,
    ;
    assert((u * u) * hi + 2 * ((t * u) * hi) + (t * t) * hi == (s * s) * hi) by (nonlinear_arith)
        requires u * u + 2 * (t * u) + t * t == s * s,
    ;
    assert((s * s) * lo == s * (s * lo) && (s * s) * hi == s * (s * hi)) by (nonlinear_arith);
}

/// Evaluate one coordinate of the curve at parameter `t / ONE`, exactly,
/// at the scale of `ONE` squared.
pub fn qbez_num(p0: i64, p1: i64, p2: i64, t: i64) -> (r: i64)
    requires
        -MAX_FX <= p0 <= MAX_FX,
        -MAX_FX <= p1 <= MAX_FX,
        -MAX_FX <= p2 <= MAX_FX,
        0 <= t <= ONE,
    ensures
        r == qbez_num_spec(p0 as int, p1 as int, p2 as int, t as int),
{
    let u = ONE - t;
    proof {
        lemma_qbez_term_bounds(u as int, p0 as int);
        lemma_qbez_term_bounds(u as int, p1 as int);
        lemma_qbez_term_bounds(t as int, p2 as int);
        assert(-(0x100000000int * MAX_FX) <= t * (u * p1) <= 0x100000000int * MAX_FX)
            by (nonlinear_arith)
            requires
                0 <= t <= ONE,
                -(0x10000int * MAX_FX) <= u * p1 <= 0x10000int * MAX_FX,
                ONE == 0x10000int,
        ;
        assert(-(0x100000000int * MAX_FX) <= u * (u * p0) <= 0x100000000int * MAX_FX)
            by (nonlinear_arith)
            requires
                0 <= u <= ONE,
                -(0x10000int * MAX_FX) <= u * p0 <= 0x10000int * MAX_FX,
                ONE == 0x10000int,
        ;
        assert(-(0x100000000int * MAX_FX) <= t * (t * p2) <= 0x100000000int * MAX_FX)
            by (nonlinear_arith)
            requires
                0 <= t <= ONE,
                -(0x10000int * MAX_FX) <= t * p2 <= 0x10000int * MAX_FX,
                ONE == 0x10000int,
        ;
    }
    u * (u * p0) + 2 * (t * (u * p1)) + t * (t * p2)
}

/// A product of a weight in `[0, ONE]` with a bounded coordinate stays
/// within `ONE` times the coordinate bound.
proof fn lemma_qbez_term_bounds(w: int, p: int)
    requires
        0 <= w <= ONE,
        -MAX_FX <= p <= MAX_FX,
    ensures
        -(0x10000int * MAX_FX) <= w * p <= 0x10000int * MAX_FX,
{
    assert(-(0x10000int * MAX_FX) <= w * p <= 0x10000int * MAX_FX) by (nonlinear_arith)
        requires
            0 <= w <= 0x10000int,
            -MAX_FX <= p <= MAX_FX,
    ;
}

/// The magnitude of a value.
pub open spec fn abs_int(v: int) -> int {
    if v < 0 { -v } else { v }
}

/// The parameter of sample `i` of `n`: `i / n` in fixed point, floored.
pub open spec fn sample_t_spec(i: int, n: int) -> int {
    (i * ONE) / n
}

/// The distance from a point to the curve point at parameter `t / ONE`:
/// both coordinate offsets are floored back to the fixed-point scale, and
/// the Euclidean norm is floored once more.
pub open spec fn qbez_dist_at_spec(p: Vec2, q: QBezier, t: int) -> int {
    let s2 = (ONE as int) * (ONE as int);
    let nx = qbez_num_spec(q.position0.x as int, q.position1.x as int, q.position2.x as int, t);
    let ny = qbez_num_spec(q.position0.y as int, q.position1.y as int, q.position2.y as int, t);
    let dx = abs_int(p.x * s2 - nx) / s2;
    let dy = abs_int(p.y * s2 - ny) / s2;
    sqrt_floor((dx * dx + dy * dy) as nat) as int
}

/// Distance from a point to one curve sample.
pub fn qbez_dist_at(p: Vec2, q: &QBezier, t: i64) -> (d: i64)
    requires
        p.wf(),
        q.wf(),
        0 <= t <= ONE,
    ensures
        d == qbez_dist_at_spec(p, *q, t as int),
        0 <= d <= 3 * MAX_FX,
{
    let s2: i64 = ONE * ONE;
    let nx = qbez_num(q.position0.x, q.position1.x, q.position2.x, t);
    let ny = qbez_num(q.position0.y, q.position1.y, q.position2.y, t);
    proof {
        lemma_qbez_num_bounds(
            q.position0.x as int, q.position1.x as int, q.position2.x as int, t as int,
            -MAX_FX as int, MAX_FX as int);
        lemma_qbez_num_bounds(
            q.position0.y as int, q.position1.y as int, q.position2.y as int, t as int,
            -MAX_FX as int, MAX_FX as int);
    }
    let mut ax = p.x * s2 - nx;
    if ax < 0 {
        ax = -ax;
    }
    let mut ay = p.y * s2 - ny;
    if ay < 0 {
        ay = -ay;
    }
    let dx = ax / s2;
    let dy = ay / s2;
    proof {
        lemma_div_pos_is_pos(ax as int, s2 as int);
        lemma_div_pos_is_pos(ay as int, s2 as int);
        lemma_div_is_ordered(ax as int, 2 * MAX_FX * (s2 as int), s2 as int);
        lemma_div_is_ordered(ay as int, 2 * MAX_FX * (s2 as int), s2 as int);
        lemma_div_multiples_vanish(2 * MAX_FX as int, s2 as int);
        assert((s2 as int) * (2 * MAX_FX) == 2 * MAX_FX * (s2 as int)) by (nonlinear_arith);
        assert(dx * dx + dy * dy <= 8 * (MAX_FX * MAX_FX)) by (nonlinear_arith)
            requires
                0 <= dx <= 2 * MAX_FX,
                0 <= dy <= 2 * MAX_FX,
        ;
    }
    let d = isqrt(dx * dx + dy * dy);
    proof {
        if d > 3 * MAX_FX {
            assert(d * d > 8 * (MAX_FX * MAX_FX)) by (nonlinear_arith)
                requires
                    d > 3 * MAX_FX,
                    MAX_FX == 0x10000000int,
            ;
        }
    }
    d
}

/// The nearest of `samples + 1` evenly spaced curve samples: the returned
/// pair holds the least sampled spine distance and the parameter at which
/// it was attained.
pub fn qbez_nearest(p: Vec2, q: &QBezier, samples: u32) -> (r: (i64, i64))
    requires
        p.wf(),
        q.wf(),
        1 <= samples <= 4096,
    ensures
        0 <= r.1 <= ONE,
        0 <= r.0 <= 3 * MAX_FX,
        exists|i: int|
            0 <= i <= samples && r.1 == sample_t_spec(i, samples as int)
                && r.0 == qbez_dist_at_spec(p, *q, r.1 as int),
        forall|i: int|
            0 <= i <= samples ==> r.0 <= qbez_dist_at_spec(p, *q, sample_t_spec(i, samples as int)),
{
    proof {
        lemma_div_multiples_vanish(0, samples as int);
        assert((samples as int) * 0 == 0) by (nonlinear_arith);
        assert(sample_t_spec(0, samples as int) == 0);
    }
    let mut best_d = qbez_dist_at(p, q, 0);
    let mut best_t: i64 = 0;
    let mut i: u32 = 1;
    while i <= samples
        invariant
            p.wf(),
            q.wf(),
            1 <= samples <= 4096,
            1 <= i <= samples + 1,
            0 <= best_t <= ONE,
            0 <= best_d <= 3 * MAX_FX,
            exists|j: int|
                0 <= j < i && best_t == sample_t_spec(j, samples as int)
                    && best_d == qbez_dist_at_spec(p, *q, best_t as int),
            forall|j: int|
                0 <= j < i ==> best_d <= qbez_dist_at_spec(p, *q, sample_t_spec(j, samples as int)),
        decreases samples + 1 - i,
    {
        let t = (i as i64) * ONE / (samples as i64);
        proof {
            lemma_div_pos_is_pos((i as int) * ONE, samples as int);
            lemma_mul_inequality(i as int, samples as int, ONE as int);
            lemma_div_is_ordered((i as int) * ONE, (samples as int) * ONE, samples as int);
            lemma_div_multiples_vanish(ONE as int, samples as int);
            assert((samples as int) * ONE == ONE * (samples as int)) by (nonlinear_arith);
            assert(t == sample_t_spec(i as int, samples as int));
        }
        let d = qbez_dist_at(p, q, t);
        if d < best_d {
            best_d = d;
            best_t = t;
        }
        i = i + 1;
    }
    (best_d, best_t)
}

/// Shade a point of a curved stroke: take the nearest of the evenly spaced
/// curve samples, interpolate the endpoint attributes at its parameter,
/// and apply the shading model at the sampled spine distance.
pub fn shade_qbezier(p: Vec2, q: &QBezier, samples: u32) -> (c: Rgba)
    requires
        p.wf(),
        q.wf(),
        1 <= samples <= 4096,
    ensures
        exists|i: int|
            #![trigger sample_t_spec(i, samples as int)]
            0 <= i <= samples && ({
                let t = sample_t_spec(i, samples as int);
                &&& c == shade_at_length_spec(
                    qbez_dist_at_spec(p, *q, t),
                    lerp_falloff_spec(q.attrs0_spec(), q.attrs1_spec(), t),
                )
                &&& forall|j: int|
                    0 <= j <= samples ==> qbez_dist_at_spec(p, *q, t)
                        <= qbez_dist_at_spec(p, *q, sample_t_spec(j, samples as int))
            }),
{
    let (d, t) = qbez_nearest(p, q, samples);
    let a0 = q.attrs0();
    let a1 = q.attrs1();
    let f = lerp_falloff(&a0, &a1, t);
    let c = shade_at_length(d, &f);
    proof {
        let i = choose|i: int|
            0 <= i <= samples && t == sample_t_spec(i, samples as int)
                && d == qbez_dist_at_spec(p, *q, t as int);
        assert(0 <= i <= samples && ({
            let tt = sample_t_spec(i, samples as int);
            &&& c == shade_at_length_spec(
                qbez_dist_at_spec(p, *q, tt),
                lerp_falloff_spec(q.attrs0_spec(), q.attrs1_spec(), tt),
            )
            &&& forall|j: int|
                0 <= j <= samples ==> qbez_dist_at_spec(p, *q, tt)
                    <= qbez_dist_at_spec(p, *q, sample_t_spec(j, samples as int))
        }));
    }
    c
}

/// A product of two differences of in-range coordinates stays well inside
/// the machine range.
proof fn lemma_dot_term_bounds(a: int, b: int)
    requires
        -2 * MAX_FX <= a <= 2 * MAX_FX,
        -2 * MAX_FX <= b <= 2 * MAX_FX,
    ensures
        -(4 * MAX_FX) * MAX_FX <= a * b <= (4 * MAX_FX) * MAX_FX,
{
    assert(-(4 * MAX_FX) * MAX_FX <= a * b <= (4 * MAX_FX) * MAX_FX) by (nonlinear_arith)
        requires
            -2 * MAX_FX <= a <= 2 * MAX_FX,
            -2 * MAX_FX <= b <= 2 * MAX_FX,
    ;
}

/// The point lies beyond the start endpoint's cut line: its offset from
/// `position0` points against the start tangent `position1 - position0`.
/// With a zero start tangent the cut line is undefined and nothing is cut.
pub open spec fn beyond_start_spec(p: Vec2, q: QBezier) -> bool {
    (p.x - q.position0.x) * (q.position1.x - q.position0.x)
        + (p.y - q.position0.y) * (q.position1.y - q.position0.y) < 0
}

/// The point lies beyond the end endpoint's cut line: its offset from
/// `position2` points along the end tangent `position2 - position1`.
/// With a zero end tangent the cut line is undefined and nothing is cut.
pub open spec fn beyond_end_spec(p: Vec2, q: QBezier) -> bool {
    (p.x - q.position2.x) * (q.position2.x - q.position1.x)
        + (p.y - q.position2.y) * (q.position2.y - q.position1.y) > 0
}

/// Flat-cap curve shading: the glow is cut off perpendicular to the
/// endpoint tangents, so chained curve segments meet without wrapping.
/// Beyond either endpoint's cut line the output is fully transparent;
/// everywhere else it is the round-cap shading of `shade_qbezier`.
pub fn shade_qbezier_flat(p: Vec2, q: &QBezier, samples: u32) -> (c: Rgba)
    requires
        p.wf(),
        q.wf(),
        1 <= samples <= 4096,
    ensures
        beyond_start_spec(p, *q) || beyond_end_spec(p, *q) ==> c == (Rgba {
            r: 0,
            g: 0,
            b: 0,
            a: 0,
        }),
        !(beyond_start_spec(p, *q) || beyond_end_spec(p, *q)) ==> exists|i: int|
            #![trigger sample_t_spec(i, samples as int)]
            0 <= i <= samples && ({
                let t = sample_t_spec(i, samples as int);
                &&& c == shade_at_length_spec(
                    qbez_dist_at_spec(p, *q, t),
                    lerp_falloff_spec(q.attrs0_spec(), q.attrs1_spec(), t),
                )
                &&& forall|j: int|
                    0 <= j <= samples ==> qbez_dist_at_spec(p, *q, t)
                        <= qbez_dist_at_spec(p, *q, sample_t_spec(j, samples as int))
            }),
{
    proof {
        lemma_dot_term_bounds(p.x - q.position0.x, q.position1.x - q.position0.x);
        lemma_dot_term_bounds(p.y - q.position0.y, q.position1.y - q.position0.y);
        lemma_dot_term_bounds(p.x - q.position2.x, q.position2.x - q.position1.x);
        lemma_dot_term_bounds(p.y - q.position2.y, q.position2.y - q.position1.y);
    }
    let dot_start = (p.x - q.position0.x) * (q.position1.x - q.position0.x)
        + (p.y - q.position0.y) * (q.position1.y - q.position0.y);
    let dot_end = (p.x - q.position2.x) * (q.position2.x - q.position1.x)
        + (p.y - q.position2.y) * (q.position2.y - q.position1.y);
    if dot_start < 0 || dot_end > 0 {
        Rgba { r: 0, g: 0, b: 0, a: 0 }
    } else {
        shade_qbezier(p, q, samples)
    }
}

/// The covering box strictly contains the curve's whole swept corridor:
/// any point within the stroke's largest full radius of any curve point
/// lies strictly inside the box. Coordinates are compared at the scale of
/// `ONE` squared, where the curve point is exact.
pub proof fn lemma_qbezier_covering(q: QBezier, t: int, px: int, py: int)
    requires
        q.wf(),
        0 <= t <= ONE,
        ({
            let s2 = (ONE as int) * (ONE as int);
            let nx = qbez_num_spec(q.position0.x as int, q.position1.x as int, q.position2.x as int, t);
            let ny = qbez_num_spec(q.position0.y as int, q.position1.y as int, q.position2.y as int, t);
            let r = q.max_full_radius_spec();
            (px * s2 - nx) * (px * s2 - nx) + (py * s2 - ny) * (py * s2 - ny) <= (r * s2) * (r * s2)
        }),
    ensures
        ({
            let vs = expand_qbezier_spec(q);
            vs[0].base.x < px < vs[3].base.x && vs[0].base.y < py < vs[3].base.y
        }),
{
    let s = ONE as int;
    let s2 = s * s;
    let r = q.max_full_radius_spec();
    let h = qbez_pad_spec(q);
    let nx = qbez_num_spec(q.position0.x as int, q.position1.x as int, q.position2.x as int, t);
    let ny = qbez_num_spec(q.position0.y as int, q.position1.y as int, q.position2.y as int, t);
    let dx = px * s2 - nx;
    let dy = py * s2 - ny;
    let lox = min2(q.position0.x as int, min2(q.position1.x as int, q.position2.x as int));
    let hix = max2(q.position0.x as int, max2(q.position1.x as int, q.position2.x as int));
    let loy = min2(q.position0.y as int, min2(q.position1.y as int, q.position2.y as int));
    let hiy = max2(q.position0.y as int, max2(q.position1.y as int, q.position2.y as int));
    lemma_qbez_num_bounds(
        q.position0.x as int, q.position1.x as int, q.position2.x as int, t, lox, hix);
    lemma_qbez_num_bounds(
        q.position0.y as int, q.position1.y as int, q.position2.y as int, t, loy, hiy);
    // Each squared offset is bounded by the squared radius envelope.
    assert(dy * dy >= 0 && dx * dx >= 0) by (nonlinear_arith);
    assert(-(r * s2) <= dx <= r * s2) by (nonlinear_arith)
        requires
            dx * dx <= (r * s2) * (r * s2),
            r >= 0,
            s2 > 0,
    ;
    assert(-(r * s2) <= dy <= r * s2) by (nonlinear_arith)
        requires
            dy * dy <= (r * s2) * (r * s2),
            r >= 0,
            s2 > 0,
    ;
    // Place the point strictly inside the box, coordinate by coordinate.
    assert(s * (s * lox) == lox * s2 && s * (s * hix) == hix * s2
        && s * (s * loy) == loy * s2 && s * (s * hiy) == hiy * s2) by (nonlinear_arith)
        requires s2 == s * s,
    ;
    assert((lox - h) * s2 < px * s2) by (nonlinear_arith)
        requires
            px * s2 >= lox * s2 - r * s2,
            h > r,
            s2 > 0,
    ;
    assert(px * s2 < (hix + h) * s2) by (nonlinear_arith)
        requires
            px * s2 <= hix * s2 + r * s2,
            h > r,
            s2 > 0,
    ;
    assert((loy - h) * s2 < py * s2) by (nonlinear_arith)
        requires
            py * s2 >= loy * s2 - r * s2,
            h > r,
            s2 > 0,
    ;
    assert(py * s2 < (hiy + h) * s2) by (nonlinear_arith)
        requires
            py * s2 <= hiy * s2 + r * s2,
            h > r,
            s2 > 0,
    ;
    assert(lox - h < px && px < hix + h) by (nonlinear_arith)
        requires
            (lox - h) * s2 < px * s2,
            px * s2 < (hix + h) * s2,
            s2 > 0,
    ;
    assert(loy - h < py && py < hiy + h) by (nonlinear_arith)
        requires
            (loy - h) * s2 < py * s2,
            py * s2 < (hiy + h) * s2,
            s2 > 0,
    ;
}

} // verus!
