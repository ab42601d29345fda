//! Fixed-point scalars and small integer vectors.
//!
//! One world unit is `SCALE` (1000) fixed-point steps, so `1500` reads as
//! 1.5 units.  Elasticities, friction factors and volumes use the same
//! thousandth scale; durations are microseconds.  Every quantity lives inside
//! an explicit limit so that all arithmetic can be carried out exactly in
//! `i128` and clamped back.

use vstd::prelude::*;

verus! {

/// Fixed-point steps per world unit.
pub const SCALE: i64 = 1000;

/// Microseconds per second; durations are measured in microseconds.
pub const MICROS_PER_SECOND: i64 = 1_000_000;

/// Largest magnitude a position coordinate may take.
pub const POS_LIMIT: i64 = 1_000_000_000_000;

/// Largest magnitude a velocity component may take.
pub const VEL_LIMIT: i64 = 1_000_000_000;

/// Largest width, height or radius of a shape.
pub const DIM_LIMIT: i64 = 1_000_000_000;

/// Largest weight of an entity.
pub const WEIGHT_LIMIT: i64 = 1_000_000_000;

/// An elasticity of `SCALE` restores the full relative velocity.
pub const ELASTICITY_LIMIT: i64 = 1000;

/// Fixed distance an overlapping non-static object is pushed out by, along
/// the axis of least penetration.
pub const SEPARATION_STEP: i64 = 50;

/// Clamping a value into `[lo, hi]`.
pub open spec fn clamp_spec(x: int, lo: int, hi: int) -> int {
    if x < lo {
        lo
    } else if x > hi {
        hi
    } else {
        x
    }
}

/// Quotient of `a` and `b` rounded toward zero, the usual machine convention.
/// (The spec-level `/` rounds toward negative infinity for positive `b`.)
pub open spec fn div_trunc(a: int, b: int) -> int {
    if a >= 0 {
        a / b
    } else {
        -((-a) / b)
    }
}

/// Intermediate products stay below this, far inside `i128`.
pub const PRODUCT_LIMIT: i128 = 0x10_0000_0000_0000_0000_0000_0000;

/// The product of two bounded values is bounded by the product of the bounds.
pub proof fn lemma_mul_bounds(a: int, b: int, al: int, bl: int)
    by (nonlinear_arith)
    requires
        -al <= a <= al,
        -bl <= b <= bl,
    ensures
        -(al * bl) <= a * b <= al * bl,
{
}

/// Truncating division on wide intermediates.
pub fn div_trunc_i128(a: i128, b: i128) -> (q: i128)
    requires
        0 < b,
        -PRODUCT_LIMIT <= a <= PRODUCT_LIMIT,
    ensures
        q == div_trunc(a as int, b as int),
{
    if a >= 0 {
        let q: u128 = (a as u128) / (b as u128);
        q as i128
    } else {
        let m: u128 = ((-a) as u128) / (b as u128);
        assert(m <= (-a) as u128) by {
            assert((-a) as u128 / (b as u128) <= (-a) as u128);
        }
        -(m as i128)
    }
}

/// Clamp a wide intermediate into `[lo, hi]`.
pub fn clamp_i128(x: i128, lo: i64, hi: i64) -> (r: i64)
    requires
        lo <= hi,
    ensures
        r == clamp_spec(x as int, lo as int, hi as int),
{
    if x < lo as i128 {
        lo
    } else if x > hi as i128 {
        hi
    } else {
        x as i64
    }
}

/// A truncating quotient is bounded by `k` when the numerator is bounded by
/// `k` times the divisor.
pub proof fn lemma_div_trunc_bound(n: int, d: int, k: int)
    requires
        d > 0,
        0 <= k,
        -(d * k) <= n <= d * k,
    ensures
        -k <= div_trunc(n, d) <= k,
{
    if n >= 0 {
        assert(0 <= n / d <= k) by (nonlinear_arith)
            requires
                d > 0,
                0 <= k,
                0 <= n <= d * k,
        ;
    } else {
        assert(0 <= (-n) / d <= k) by (nonlinear_arith)
            requires
                d > 0,
                0 <= k,
                0 <= -n <= d * k,
        ;
    }
}

/// The integer square root: the largest integer whose square is at most `n`.
pub open spec fn sqrt_floor(n: nat) -> nat
    decreases n,
{
    if n == 0 {
        0
    } else {
        let s = sqrt_floor((n - 1) as nat);
        if (s + 1) * (s + 1) <= n {
            s + 1
        } else {
            s
        }
    }
}

/// `sqrt_floor` is squeezed between the squares around it.
pub proof fn lemma_sqrt_floor(n: nat)
    ensures
        sqrt_floor(n) * sqrt_floor(n) <= n,
        n < (sqrt_floor(n) + 1) * (sqrt_floor(n) + 1),
    decreases n,
{
    if n == 0 {
        assert(sqrt_floor(0) == 0);
        assert(n < (sqrt_floor(n) + 1) * (sqrt_floor(n) + 1)) by (nonlinear_arith)
            requires
                n == 0,
                sqrt_floor(n) == 0,
        ;
    } else {
        lemma_sqrt_floor((n - 1) as nat);
        let s = sqrt_floor((n - 1) as nat);
        if (s + 1) * (s + 1) <= n {
            assert(sqrt_floor(n) == s + 1);
            assert((s + 2) * (s + 2) > n) by (nonlinear_arith)
                requires
                    (n - 1) < (s + 1) * (s + 1),
            ;
            assert(n < (sqrt_floor(n) + 1) * (sqrt_floor(n) + 1));
        } else {
            assert(sqrt_floor(n) == s);
            assert(sqrt_floor(n) * sqrt_floor(n) <= n);
            assert(n < (sqrt_floor(n) + 1) * (sqrt_floor(n) + 1));
        }
    }
}

/// Any integer squeezed the same way is the square root.
pub proof fn lemma_sqrt_floor_unique(n: nat, r: nat)
    requires
        r * r <= n,
        n < (r + 1) * (r + 1),
    ensures
        r == sqrt_floor(n),
{
    lemma_sqrt_floor(n);
    let s = sqrt_floor(n);
    if r < s {
        assert((r + 1) * (r + 1) <= s * s) by (nonlinear_arith)
            requires
                r + 1 <= s,
        ;
    } else if r > s {
        assert((s + 1) * (s + 1) <= r * r) by (nonlinear_arith)
            requires
                s + 1 <= r,
        ;
    }
}

/// A value whose square is at most `n` is at most the square root of `n`.
pub proof fn lemma_sqrt_floor_bounds(n: nat, x: nat)
    requires
        x * x <= n,
    ensures
        x <= sqrt_floor(n),
{
    lemma_sqrt_floor(n);
    let s = sqrt_floor(n);
    if x > s {
        assert((s + 1) * (s + 1) <= x * x) by (nonlinear_arith)
            requires
                s + 1 <= x,
        ;
    }
}

/// The integer square root, by bisection.
pub fn isqrt_u128(n: u128) -> (r: u128)
    requires
        n < 0x1_0000_0000_0000_0000,
    ensures
        r == sqrt_floor(n as nat),
        r * r <= n,
        n < (r + 1) * (r + 1),
{
    let mut lo: u128 = 0;
    let mut hi: u128 = 0x1_0000_0000;
    proof {
        assert((0x1_0000_0000 as u128) * (0x1_0000_0000 as u128) == 0x1_0000_0000_0000_0000)
            by (nonlinear_arith);
    }
    while lo + 1 < hi
        invariant
            lo < hi <= 0x1_0000_0000,
            lo * lo <= n,
            n < hi * hi,
        decreases hi - lo,
    {
        let mid: u128 = lo + (hi - lo) / 2;
        proof {
            lemma_mul_bounds(mid as int, mid as int, 0x1_0000_0000, 0x1_0000_0000);
        }
        if mid * mid <= n {
            lo = mid;
        } else {
            hi = mid;
        }
    }
    proof {
        lemma_sqrt_floor_unique(n as nat, lo as nat);
    }
    lo
}

/// A two-dimensional fixed-point vector (velocity, gravity, planar position).
#[derive(Clone, Copy, PartialEq, Eq, Structural, Debug)]
pub struct Vec2 {
    pub x: i64,
    pub y: i64,
}

impl Vec2 {
    pub fn new(x: i64, y: i64) -> (v: Vec2)
        ensures
            v.x == x,
            v.y == y,
    {
        Vec2 { x, y }
    }

    /// Both components within `[-limit, limit]`.
    pub open spec fn bounded(self, limit: int) -> bool {
        &&& -limit <= self.x <= limit
        &&& -limit <= self.y <= limit
    }
}

/// A three-dimensional fixed-point vector; `z` is the depth layer.
#[derive(Clone, Copy, PartialEq, Eq, Structural, Debug)]
pub struct Vec3 {
    pub x: i64,
    pub y: i64,
    pub z: i64,
}

impl Vec3 {
    pub fn new(x: i64, y: i64, z: i64) -> (v: Vec3)
        ensures
            v.x == x,
            v.y == y,
            v.z == z,
    {
        Vec3 { x, y, z }
    }

    /// All three components within `[-limit, limit]`.
    pub open spec fn bounded(self, limit: int) -> bool {
        &&& -limit <= self.x <= limit
        &&& -limit <= self.y <= limit
        &&& -limit <= self.z <= limit
    }
}

} // verus!
