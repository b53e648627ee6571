//! Fixed-point scalar arithmetic: every coordinate, length and trigonometric
//! value in this crate is an `i64` holding the real value times [`SCALE`].
//! This module provides the shared numeric helpers: an integer square root,
//! division that truncates toward zero, clamping, and the lemmas about them.

use vstd::prelude::*;

verus! {

/// Number of fixed-point subunits in one world unit.
pub const SCALE: i64 = 1000;

/// Largest magnitude allowed for a level-geometry coordinate (fixed-point),
/// chosen so that all squared-distance products stay within `i128`.
pub const WORLD_LIMIT: i64 = 262144;

/// Largest magnitude allowed for a camera position coordinate. The camera may
/// drift slightly past the level bounds, so this is wider than [`WORLD_LIMIT`].
pub const EYE_LIMIT: i64 = 524288;

/// Largest magnitude allowed for a component of the camera's look direction.
pub const DIR_LIMIT: i64 = 4096;

/// Largest per-frame planar movement step (fixed-point world units).
pub const SPEED_LIMIT: i64 = 4096;

/// Cap on the total distance collision resolution may push the camera in one
/// frame (step length times number of segments), keeping positions in range.
pub const DRIFT_LIMIT: i64 = 262144;

/// Minimum planar (horizontal) length of the look direction; rotations that
/// would leave the camera looking closer to vertical than this are rejected,
/// which plays the role of the epsilon-snapping of a yaw/pitch representation.
pub const MIN_PLANAR: i64 = 10;

/// Magnitude of an integer.
pub open spec fn mag(x: int) -> int {
    if x < 0 {
        -x
    } else {
        x
    }
}

/// Floor of the square root, by primitive recursion. [`lemma_sqrt_floor`]
/// gives the defining bounds; [`isqrt`] computes it.
pub open spec fn sqrt_floor(n: nat) -> nat
    decreases n,
{
    if n == 0 {
        0
    } else {
        let r = sqrt_floor((n - 1) as nat);
        if (r + 1) * (r + 1) <= n {
            r + 1
        } else {
            r
        }
    }
}

/// `sqrt_floor(n)` is the unique `r` with `r * r <= n < (r + 1) * (r + 1)`.
pub proof fn lemma_sqrt_floor(n: nat)
    ensures
        sqrt_floor(n) * sqrt_floor(n) <= n,
        n < (sqrt_floor(n) + 1) * (sqrt_floor(n) + 1),
    decreases n,
{
    if n > 0 {
        lemma_sqrt_floor((n - 1) as nat);
        let r = sqrt_floor((n - 1) as nat);
        if (r + 1) * (r + 1) <= n {
            assert(sqrt_floor(n) == r + 1);
            assert(n < (r + 2) * (r + 2)) by (nonlinear_arith)
                requires
                    n <= (r + 1) * (r + 1),
            ;
        } else {
            assert(sqrt_floor(n) == r);
        }
    } else {
        assert(sqrt_floor(n) == 0);
        assert(n < (sqrt_floor(n) + 1) * (sqrt_floor(n) + 1)) by (nonlinear_arith)
            requires
                n == 0,
                sqrt_floor(n) == 0,
        ;
    }
}

/// Any `r` within the defining bounds is `sqrt_floor(n)`.
pub proof fn lemma_sqrt_floor_is(n: nat, r: nat)
    requires
        r * r <= n,
        n < (r + 1) * (r + 1),
    ensures
        r == sqrt_floor(n),
{
    lemma_sqrt_floor(n);
    let s = sqrt_floor(n);
    if r < s {
        assert(false) by (nonlinear_arith)
            requires
                r < s,
                s * s <= n,
                n < (r + 1) * (r + 1),
        ;
    }
    if s < r {
        assert(false) by (nonlinear_arith)
            requires
                s < r,
                r * r <= n,
                n < (s + 1) * (s + 1),
        ;
    }
}

/// The square root floor does not exceed any `m` whose square bounds `n`.
pub proof fn lemma_sqrt_floor_le(n: nat, m: nat)
    requires
        n <= m * m,
    ensures
        sqrt_floor(n) <= m,
{
    lemma_sqrt_floor(n);
    let s = sqrt_floor(n);
    if m < s {
        assert(false) by (nonlinear_arith)
            requires
                m < s,
                s * s <= n,
                n <= m * m,
        ;
    }
}

/// The square root floor is at least any `m` whose square is bounded by `n`.
pub proof fn lemma_sqrt_floor_ge(n: nat, m: nat)
    requires
        m * m <= n,
    ensures
        m <= sqrt_floor(n),
{
    lemma_sqrt_floor(n);
    let s = sqrt_floor(n);
    if s < m {
        assert(false) by (nonlinear_arith)
            requires
                s < m,
                m * m <= n,
                n < (s + 1) * (s + 1),
        ;
    }
}

/// Integer square root by binary search.
pub fn isqrt(n: u128) -> (r: u64)
    ensures
        r == sqrt_floor(n as nat),
        r * r <= n < (r + 1) * (r + 1),
{
    let mut lo: u128 = 0;
    let mut hi: u128 = 0x1_0000_0000_0000_0000;
    assert(n < hi * hi) by (nonlinear_arith)
        requires
            hi == 0x1_0000_0000_0000_0000u128,
            n <= u128::MAX,
    ;
    while lo + 1 < hi
        invariant
            lo < hi <= 0x1_0000_0000_0000_0000,
            lo * lo <= n,
            n < hi * hi,
        decreases hi - lo,
    {
        let mid: u128 = lo + (hi - lo) / 2;
        assert(mid * mid <= u128::MAX) by (nonlinear_arith)
            requires
                mid < 0x1_0000_0000_0000_0000u128,
        ;
        if mid * mid <= n {
            lo = mid;
        } else {
            hi = mid;
        }
    }
    proof {
        lemma_sqrt_floor_is(n as nat, lo as nat);
    }
    lo as u64
}

/// Magnitude bounds on the factors carry over to the product.
pub proof fn lemma_mul_mag(x: int, y: int, a: int, b: int)
    requires
        mag(x) <= a,
        mag(y) <= b,
    ensures
        mag(x * y) <= a * b,
{
    assert(-(a * b) <= x * y <= a * b) by (nonlinear_arith)
        requires
            -a <= x <= a,
            -b <= y <= b,
    ;
}

/// A square is never negative.
pub proof fn lemma_square_nonneg(x: int)
    ensures
        x * x >= 0,
{
    assert(x * x >= 0) by (nonlinear_arith);
}

/// Signed division truncating toward zero (Rust's native rounding), defined
/// for a positive divisor.
pub open spec fn div_tz_spec(a: int, b: int) -> int {
    if a >= 0 {
        a / b
    } else {
        -((-a) / b)
    }
}

/// Quotient of a multiple is exact.
pub proof fn lemma_div_tz_exact(a: int, b: int)
    requires
        b > 0,
    ensures
        div_tz_spec(a * b, b) == a,
{
    if a >= 0 {
        assert((a * b) / b == a) by (nonlinear_arith)
            requires
                b > 0,
        ;
    } else {
        assert(-(a * b) == (-a) * b) by (nonlinear_arith);
        assert(((-a) * b) / b == -a) by (nonlinear_arith)
            requires
                b > 0,
        ;
    }
}

/// A magnitude bound on the dividend carries over to the quotient.
pub proof fn lemma_div_tz_mag(a: int, b: int, c: int)
    requires
        b > 0,
        0 <= c,
        mag(a) <= b * c,
    ensures
        mag(div_tz_spec(a, b)) <= c,
{
    if a >= 0 {
        assert(a / b <= c) by (nonlinear_arith)
            requires
                b > 0,
                0 <= a <= b * c,
        ;
        assert(a / b >= 0) by (nonlinear_arith)
            requires
                b > 0,
                a >= 0,
        ;
    } else {
        assert((-a) / b <= c) by (nonlinear_arith)
            requires
                b > 0,
                0 <= -a <= b * c,
        ;
        assert((-a) / b >= 0) by (nonlinear_arith)
            requires
                b > 0,
                -a >= 0,
        ;
    }
}

/// Executable truncating division on `i128`, mirroring [`div_tz_spec`].
pub fn div_tz(a: i128, b: i128) -> (q: i128)
    requires
        b > 0,
        a != i128::MIN,
    ensures
        q == div_tz_spec(a as int, b as int),
{
    if a >= 0 {
        let q: u128 = (a as u128) / (b as u128);
        proof {
            assert((a as u128) / (b as u128) <= a as u128) by (nonlinear_arith)
                requires
                    b as u128 > 0,
            ;
        }
        q as i128
    } else {
        let m: i128 = -a;
        let q: u128 = (m as u128) / (b as u128);
        proof {
            assert((m as u128) / (b as u128) <= m as u128) by (nonlinear_arith)
                requires
                    b as u128 > 0,
            ;
        }
        -(q as i128)
    }
}

/// The quotient of the truncating division times the divisor misses the
/// dividend by less than the divisor.
pub proof fn lemma_div_tz_remainder(a: int, b: int)
    requires
        b > 0,
    ensures
        mag(a - div_tz_spec(a, b) * b) < b,
{
    if a >= 0 {
        vstd::arithmetic::div_mod::lemma_remainder(a, b);
        assert(a / b * b == div_tz_spec(a, b) * b);
    } else {
        vstd::arithmetic::div_mod::lemma_remainder(-a, b);
        assert(a - (-((-a) / b)) * b == -((-a) - (-a) / b * b)) by (nonlinear_arith);
    }
}

/// Clamp a value into the symmetric interval `[-limit, limit]`.
pub open spec fn clamp_spec(v: int, limit: int) -> int {
    if v > limit {
        limit
    } else if v < -limit {
        -limit
    } else {
        v
    }
}

/// Executable clamp, mirroring [`clamp_spec`].
pub fn clamp_i64(v: i64, limit: i64) -> (r: i64)
    requires
        limit >= 0,
    ensures
        r == clamp_spec(v as int, limit as int),
        mag(r as int) <= limit,
{
    if v > limit {
        limit
    } else if v < -limit {
        -limit
    } else {
        v
    }
}

/// Executable magnitude on `i64`.
pub fn abs_i64(x: i64) -> (r: i64)
    requires
        x != i64::MIN,
    ensures
        r == mag(x as int),
{
    if x < 0 {
        -x
    } else {
        x
    }
}

} // verus!
