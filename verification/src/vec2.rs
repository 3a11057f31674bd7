//! 2D points and offsets in fixed-point coordinates.

use vstd::prelude::*;
use crate::fixed::{MAX_FX, isqrt, sqrt_floor};
use vstd::arithmetic::mul::lemma_mul_inequality;

verus! {

/// A 2D point or offset; both components are fixed-point scalars.
#[derive(Clone, Copy, Debug, PartialEq, Eq, Structural)]
pub struct Vec2 {
    pub x: i64,
    pub y: i64,
}

impl Vec2 {
    /// Both components stay inside the admitted coordinate range.
    pub open spec fn wf(self) -> bool {
        -MAX_FX <= self.x <= MAX_FX && -MAX_FX <= self.y <= MAX_FX
    }

    /// Squared Euclidean norm, exact.
    pub open spec fn norm_sq_spec(self) -> int {
        self.x * self.x + self.y * self.y
    }

    /// Fixed-point length: the floor of the Euclidean norm.
    pub open spec fn len_spec(self) -> int {
        sqrt_floor(self.norm_sq_spec() as nat) as int
    }

    pub fn new(x: i64, y: i64) -> (v: Vec2)
        ensures
            v.x == x && v.y == y,
    {
        Vec2 { x, y }
    }

    /// Componentwise sum.
    pub fn add(self, other: Vec2) -> (v: Vec2)
        requires
            self.wf(),
            other.wf(),
        ensures
            v.x == self.x + other.x,
            v.y == self.y + other.y,
    {
        Vec2 { x: self.x + other.x, y: self.y + other.y }
    }

    /// Componentwise difference.
    pub fn sub(self, other: Vec2) -> (v: Vec2)
        requires
            self.wf(),
            other.wf(),
        ensures
            v.x == self.x - other.x,
            v.y == self.y - other.y,
    {
        Vec2 { x: self.x - other.x, y: self.y - other.y }
    }

    /// Squared norm, exact in `i64`.
    pub fn norm_sq(self) -> (r: i64)
        requires
            self.wf(),
        ensures
            r == self.norm_sq_spec(),
            0 <= r <= 2 * MAX_FX * MAX_FX,
    {
        proof {
            lemma_square_bounds(self.x as int);
            lemma_square_bounds(self.y as int);
        }
        self.x * self.x + self.y * self.y
    }

    /// Length of the offset: floor of the Euclidean norm, in the same
    /// fixed-point scale as the components.
    pub fn len(self) -> (r: i64)
        requires
            self.wf(),
        ensures
            r == self.len_spec(),
            0 <= r <= 2 * MAX_FX,
            r * r <= self.norm_sq_spec() < (r + 1) * (r + 1),
    {
        let n = self.norm_sq();
        let r = isqrt(n);
        proof {
            if r > 2 * MAX_FX {
                lemma_mul_inequality(2 * MAX_FX + 1, r as int, r as int);
                assert((2 * MAX_FX + 1) * (2 * MAX_FX + 1) > 2 * MAX_FX * MAX_FX)
                    by (nonlinear_arith)
                    requires MAX_FX == 0x10000000int;
                assert((2 * MAX_FX + 1) * r >= (2 * MAX_FX + 1) * (2 * MAX_FX + 1))
                    by (nonlinear_arith)
                    requires r >= 2 * MAX_FX + 1 && MAX_FX == 0x10000000int;
            }
        }
        r
    }
}

/// A square of a value bounded in magnitude is bounded and non-negative.
proof fn lemma_square_bounds(a: int)
    requires
        -MAX_FX <= a <= MAX_FX,
    ensures
        0 <= a * a <= MAX_FX * MAX_FX,
{
    assert(0 <= a * a <= MAX_FX * MAX_FX) by (nonlinear_arith)
        requires -MAX_FX <= a <= MAX_FX;
}

} // verus!
