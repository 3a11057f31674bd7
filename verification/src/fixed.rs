//! Fixed-point scalar arithmetic.
//!
//! Every real-valued quantity of the library (coordinates, radii, color
//! channels, blend factors) is stored as an `i64` holding `value * ONE`.
//! The operations here floor after rescaling, so each one is an exact,
//! fully specified function of its integer inputs.

use vstd::prelude::*;
use vstd::arithmetic::div_mod::{lemma_div_is_ordered, lemma_div_multiples_vanish, lemma_div_pos_is_pos, lemma_fundamental_div_mod, lemma_mod_bound};
use vstd::arithmetic::mul::{lemma_mul_inequality, lemma_mul_nonnegative};

verus! {

/// Fixed-point scale: a scalar `s` stands for the real number `s / ONE`.
pub const ONE: i64 = 65536;

/// Largest magnitude admitted for coordinates and radii (4096.0 in real
/// units). Keeping inputs inside this bound keeps every intermediate product
/// of the fixed-point routines inside `i64`.
pub const MAX_FX: i64 = 268435456;

/// Product of two fixed-point scalars, floored back to the scale.
pub open spec fn fx_mul_spec(a: int, b: int) -> int {
    (a * b) / (ONE as int)
}

/// Quotient of two fixed-point scalars, floored.
pub open spec fn fx_div_spec(a: int, b: int) -> int {
    (a * (ONE as int)) / b
}

/// `t` raised to the whole-number power `e` in fixed point, flooring after
/// every multiplication, exactly as the executable loop does.
pub open spec fn fx_pow_spec(t: int, e: nat) -> int
    decreases e,
{
    if e == 0 {
        ONE as int
    } else {
        fx_mul_spec(t, fx_pow_spec(t, (e - 1) as nat))
    }
}

/// Floor of the square root of `n`.
pub open spec fn sqrt_floor(n: nat) -> nat
    decreases n,
{
    if n == 0 {
        0
    } else {
        let r = sqrt_floor((n - 1) as nat);
        if (r + 1) * (r + 1) <= n {
            r + 1
        } else {
            r
        }
    }
}

/// `sqrt_floor(n)` really is the floor of the square root: it brackets `n`
/// between consecutive squares.
pub proof fn lemma_sqrt_floor_props(n: nat)
    ensures
        sqrt_floor(n) * sqrt_floor(n) <= n,
        n < (sqrt_floor(n) + 1) * (sqrt_floor(n) + 1),
    decreases n,
{
    if n == 0 {
        let s = sqrt_floor(n);
        assert(s * s <= n && n < (s + 1) * (s + 1)) by (nonlinear_arith)
            requires s == 0 && n == 0;
    } else {
        lemma_sqrt_floor_props((n - 1) as nat);
        let r = sqrt_floor((n - 1) as nat);
        if (r + 1) * (r + 1) <= n {
            assert(sqrt_floor(n) == r + 1);
            assert(n == (r + 1) * (r + 1));
            assert((r + 1) * (r + 1) < (r + 2) * (r + 2)) by (nonlinear_arith)
                requires r >= 0;
        } else {
            assert(sqrt_floor(n) == r);
        }
    }
}

/// Any value bracketed between consecutive squares is the floor square root.
pub proof fn lemma_sqrt_floor_unique(n: nat, r: nat)
    requires
        r * r <= n,
        n < (r + 1) * (r + 1),
    ensures
        r == sqrt_floor(n),
{
    let s = sqrt_floor(n);
    lemma_sqrt_floor_props(n);
    if r < s {
        assert((r + 1) * (r + 1) <= s * s) by (nonlinear_arith)
            requires r + 1 <= s;
    }
    if s < r {
        assert((s + 1) * (s + 1) <= r * r) by (nonlinear_arith)
            requires s + 1 <= r;
    }
}

/// Fixed-point multiplication of non-negative scalars.
pub fn fx_mul(a: i64, b: i64) -> (r: i64)
    requires
        0 <= a <= MAX_FX,
        0 <= b <= MAX_FX,
    ensures
        r == fx_mul_spec(a as int, b as int),
        0 <= r,
{
    proof {
        lemma_mul_nonnegative(a as int, b as int);
        assert(a * b <= MAX_FX * MAX_FX) by (nonlinear_arith)
            requires 0 <= a <= MAX_FX && 0 <= b <= MAX_FX;
        lemma_div_pos_is_pos(a as int * b as int, ONE as int);
    }
    (a * b) / ONE
}

/// Fixed-point division of a non-negative scalar by a positive one. The
/// numerator may run somewhat past `MAX_FX`, so that diagonal lengths of
/// in-range offsets still divide.
pub fn fx_div(a: i64, b: i64) -> (r: i64)
    requires
        0 <= a <= 4 * MAX_FX,
        0 < b <= MAX_FX,
    ensures
        r == fx_div_spec(a as int, b as int),
        0 <= r,
{
    proof {
        lemma_mul_nonnegative(a as int, ONE as int);
        lemma_div_pos_is_pos(a as int * ONE as int, b as int);
    }
    (a * ONE) / b
}

/// Flooring two shares of a sum separately never exceeds flooring the sum.
pub proof fn lemma_floor_div_sum(x: int, y: int, d: int)
    requires
        0 <= x,
        0 <= y,
        0 < d,
    ensures
        x / d + y / d <= (x + y) / d,
{
    lemma_fundamental_div_mod(x, d);
    lemma_fundamental_div_mod(y, d);
    lemma_mod_bound(x, d);
    lemma_mod_bound(y, d);
    let q = x / d + y / d;
    assert(x + y >= d * q) by (nonlinear_arith)
        requires
            x == d * (x / d) + (x % d),
            y == d * (y / d) + (y % d),
            x % d >= 0,
            y % d >= 0,
            q == x / d + y / d,
    ;
    lemma_div_is_ordered(d * q, x + y, d);
    lemma_div_multiples_vanish(q, d);
}

/// Products of non-negative factors bounded pairwise stay ordered.
pub proof fn lemma_fx_mul_monotone(a1: int, a2: int, b1: int, b2: int)
    requires
        0 <= a1 <= a2,
        0 <= b1 <= b2,
    ensures
        0 <= fx_mul_spec(a1, b1) <= fx_mul_spec(a2, b2),
{
    lemma_mul_nonnegative(a1, b1);
    assert(a1 * b1 <= a2 * b2) by (nonlinear_arith)
        requires 0 <= a1 <= a2 && 0 <= b1 <= b2;
    lemma_div_pos_is_pos(a1 * b1, ONE as int);
    lemma_div_is_ordered(a1 * b1, a2 * b2, ONE as int);
}

/// Multiplying by `ONE` is the identity.
pub proof fn lemma_fx_mul_one(a: int)
    ensures
        fx_mul_spec(a, ONE as int) == a,
        fx_mul_spec(ONE as int, a) == a,
{
    lemma_div_multiples_vanish(a, ONE as int);
    assert(a * (ONE as int) == (ONE as int) * a) by (nonlinear_arith);
}

/// A product of factors at most `ONE` is at most either factor.
pub proof fn lemma_fx_mul_upper(a: int, b: int)
    requires
        0 <= a,
        0 <= b <= ONE,
    ensures
        0 <= fx_mul_spec(a, b) <= a,
{
    lemma_mul_nonnegative(a, b);
    lemma_div_pos_is_pos(a * b, ONE as int);
    lemma_mul_inequality(b, ONE as int, a);
    assert(b * a == a * b && (ONE as int) * a == a * (ONE as int)) by (nonlinear_arith);
    lemma_div_is_ordered(a * b, a * (ONE as int), ONE as int);
    lemma_div_multiples_vanish(a, ONE as int);
}

/// Fixed division is monotone in the numerator.
pub proof fn lemma_fx_div_monotone(a1: int, a2: int, d: int)
    requires
        0 <= a1 <= a2,
        0 < d,
    ensures
        0 <= fx_div_spec(a1, d) <= fx_div_spec(a2, d),
{
    lemma_mul_inequality(a1, a2, ONE as int);
    lemma_mul_nonnegative(a1, ONE as int);
    lemma_div_pos_is_pos(a1 * (ONE as int), d);
    lemma_div_is_ordered(a1 * (ONE as int), a2 * (ONE as int), d);
}

/// Dividing a positive scalar by itself yields exactly `ONE`.
pub proof fn lemma_fx_div_self(d: int)
    requires
        0 < d,
    ensures
        fx_div_spec(d, d) == ONE as int,
{
    lemma_div_multiples_vanish(ONE as int, d);
}

/// A numerator at most the denominator divides to at most `ONE`; one at least
/// the denominator divides to at least `ONE`.
pub proof fn lemma_fx_div_one_bounds(a: int, d: int)
    requires
        0 <= a,
        0 < d,
    ensures
        a <= d ==> fx_div_spec(a, d) <= ONE as int,
        a >= d ==> fx_div_spec(a, d) >= ONE as int,
{
    lemma_fx_div_self(d);
    if a <= d {
        lemma_fx_div_monotone(a, d, d);
    }
    if a >= d {
        lemma_fx_div_monotone(d, a, d);
    }
}

/// A fixed power of a base in `[0, ONE]` stays in `[0, ONE]`.
pub proof fn lemma_fx_pow_range(t: int, e: nat)
    requires
        0 <= t <= ONE,
    ensures
        0 <= fx_pow_spec(t, e) <= ONE as int,
    decreases e,
{
    if e == 0 {
    } else {
        lemma_fx_pow_range(t, (e - 1) as nat);
        lemma_fx_mul_monotone(t, ONE as int, fx_pow_spec(t, (e - 1) as nat), ONE as int);
        lemma_fx_mul_one(ONE as int);
    }
}

/// `ONE` raised to any power is `ONE`.
pub proof fn lemma_fx_pow_one_base(e: nat)
    ensures
        fx_pow_spec(ONE as int, e) == ONE as int,
    decreases e,
{
    if e == 0 {
    } else {
        lemma_fx_pow_one_base((e - 1) as nat);
        lemma_fx_mul_one(ONE as int);
    }
}

/// Fixed powers are monotone in the base (for non-negative bases).
pub proof fn lemma_fx_pow_monotone(t1: int, t2: int, e: nat)
    requires
        0 <= t1 <= t2,
    ensures
        0 <= fx_pow_spec(t1, e) <= fx_pow_spec(t2, e),
    decreases e,
{
    if e == 0 {
    } else {
        lemma_fx_pow_monotone(t1, t2, (e - 1) as nat);
        lemma_fx_mul_monotone(t1, t2, fx_pow_spec(t1, (e - 1) as nat), fx_pow_spec(t2, (e - 1) as nat));
    }
}

/// A base of at least `ONE` keeps every fixed power at least `ONE`.
pub proof fn lemma_fx_pow_ge_one(t: int, e: nat)
    requires
        t >= ONE,
    ensures
        fx_pow_spec(t, e) >= ONE as int,
    decreases e,
{
    if e == 0 {
    } else {
        lemma_fx_pow_ge_one(t, (e - 1) as nat);
        lemma_fx_pow_one_base((e - 1) as nat);
        lemma_fx_pow_monotone(ONE as int, t, (e - 1) as nat);
        lemma_fx_mul_monotone(ONE as int, t, ONE as int, fx_pow_spec(t, (e - 1) as nat));
        lemma_fx_mul_one(ONE as int);
    }
}

/// `t^e` in fixed point for a base in `[0, ONE]`.
pub fn fx_pow(t: i64, e: u32) -> (r: i64)
    requires
        0 <= t <= ONE,
    ensures
        r == fx_pow_spec(t as int, e as nat),
        0 <= r <= ONE,
{
    let mut acc: i64 = ONE;
    let mut i: u32 = 0;
    while i < e
        invariant
            0 <= t <= ONE,
            i <= e,
            acc == fx_pow_spec(t as int, i as nat),
            0 <= acc <= ONE,
        decreases e - i,
    {
        proof {
            lemma_fx_pow_range(t as int, (i + 1) as nat);
        }
        acc = fx_mul(t, acc);
        i = i + 1;
    }
    proof {
        lemma_fx_pow_range(t as int, e as nat);
    }
    acc
}

/// Integer square root: the floor of the square root of any non-negative `i64`.
pub fn isqrt(n: i64) -> (r: i64)
    requires
        0 <= n,
    ensures
        0 <= r,
        r * r <= n < (r + 1) * (r + 1),
        r as nat == sqrt_floor(n as nat),
{
    let mut lo: i64 = 0;
    let mut hi: i64 = 3037000499;
    proof {
        assert((3037000499int + 1) * (3037000499int + 1) > i64::MAX);
    }
    while lo < hi
        invariant
            0 <= lo <= hi <= 3037000499,
            lo * lo <= n,
            n < (hi + 1) * (hi + 1),
        decreases hi - lo,
    {
        let mid = lo + (hi - lo + 1) / 2;
        proof {
            assert(lo < mid <= hi);
            assert(mid * mid <= 3037000499int * 3037000499int) by (nonlinear_arith)
                requires 0 <= mid <= 3037000499int;
        }
        if mid * mid <= n {
            lo = mid;
        } else {
            hi = mid - 1;
        }
    }
    proof {
        lemma_sqrt_floor_unique(n as nat, lo as nat);
    }
    lo
}

} // verus!
