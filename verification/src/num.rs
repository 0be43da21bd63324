//! Integer helpers for the fixed-point geometry: absolute value, integer
//! square root, angle wrapping and a rational sine approximation.

use vstd::prelude::*;
use crate::{ONE, PI_FX, TWO_PI_FX, HALF_PI_FX};

verus! {

/// Absolute value of a mathematical integer.
pub open spec fn iabs(x: int) -> int {
    if x >= 0 { x } else { -x }
}

/// Floor of the square root of `n` (0 for negative arguments).
pub open spec fn isqrt_spec(n: int) -> int
    decreases n,
{
    if n <= 0 {
        0
    } else if (isqrt_spec(n - 1) + 1) * (isqrt_spec(n - 1) + 1) <= n {
        isqrt_spec(n - 1) + 1
    } else {
        isqrt_spec(n - 1)
    }
}

pub proof fn lemma_isqrt_bounds(n: int)
    requires
        n >= 0,
    ensures
        0 <= isqrt_spec(n),
        isqrt_spec(n) * isqrt_spec(n) <= n,
        n < (isqrt_spec(n) + 1) * (isqrt_spec(n) + 1),
    decreases n,
{
    if n > 0 {
        lemma_isqrt_bounds(n - 1);
        let r: int = isqrt_spec(n - 1);
        assert((r + 2) * (r + 2) == (r + 1) * (r + 1) + 2 * r + 3) by (nonlinear_arith);
    }
}

pub proof fn lemma_isqrt_unique(n: int, r: int)
    requires
        n >= 0,
        r >= 0,
        r * r <= n,
        n < (r + 1) * (r + 1),
    ensures
        r == isqrt_spec(n),
{
    lemma_isqrt_bounds(n);
    let s: int = isqrt_spec(n);
    if r < s {
        assert((r + 1) * (r + 1) <= s * s) by (nonlinear_arith)
            requires
                0 <= r + 1 <= s,
        ;
    }
    if s < r {
        assert((s + 1) * (s + 1) <= r * r) by (nonlinear_arith)
            requires
                0 <= s + 1 <= r,
        ;
    }
}

/// Integer square root by bisection.
pub fn isqrt(n: i64) -> (r: i64)
    requires
        0 <= n <= 1_000_000_000_000_000_000,
    ensures
        r == isqrt_spec(n as int),
        0 <= r <= 1_000_000_000,
        r * r <= n,
        n < (r + 1) * (r + 1),
{
    let mut lo: i64 = 0;
    let mut hi: i64 = 1_000_000_001;
    proof {
        assert(1_000_000_001i64 * 1_000_000_001i64 > 1_000_000_000_000_000_000i64) by (nonlinear_arith);
    }
    while lo + 1 < hi
        invariant
            0 <= lo < hi <= 1_000_000_001,
            lo * lo <= n,
            n < hi * hi,
            n <= 1_000_000_000_000_000_000,
        decreases hi - lo,
    {
        let mid: i64 = lo + (hi - lo) / 2;
        proof {
            assert(mid * mid <= 1_000_000_000_000_000_000) by (nonlinear_arith)
                requires
                    0 <= mid <= 1_000_000_000,
            ;
        }
        if mid * mid <= n {
            lo = mid;
        } else {
            hi = mid;
        }
    }
    proof {
        lemma_isqrt_unique(n as int, lo as int);
    }
    lo
}

/// Normalizes an angle in micro-radians into `[-PI_FX, PI_FX]` by shifting
/// whole turns.
pub open spec fn wrap_spec(h: int) -> int
    decreases iabs(h),
{
    if h > PI_FX {
        wrap_spec(h - TWO_PI_FX)
    } else if h < -PI_FX {
        wrap_spec(h + TWO_PI_FX)
    } else {
        h
    }
}

/// Adds a rotation of any size to a normalized heading and renormalizes
/// by whole turns. The bound on `a` only keeps the sum inside `i64`.
pub fn wrap_add(h: i64, a: i64) -> (r: i64)
    requires
        -PI_FX <= h <= PI_FX,
        -9_000_000_000_000_000_000 <= a <= 9_000_000_000_000_000_000,
    ensures
        r == wrap_spec(h + a),
        -PI_FX <= r <= PI_FX,
{
    let mut t: i64 = h + a;
    while t > PI_FX
        invariant
            wrap_spec(t as int) == wrap_spec(h + a),
        decreases iabs(t as int),
    {
        proof {
            assert(wrap_spec(t as int) == wrap_spec(t - TWO_PI_FX));
        }
        t = t - TWO_PI_FX;
    }
    while t < -PI_FX
        invariant
            t <= PI_FX,
            wrap_spec(t as int) == wrap_spec(h + a),
        decreases iabs(t as int),
    {
        proof {
            assert(wrap_spec(t as int) == wrap_spec(t + TWO_PI_FX));
        }
        t = t + TWO_PI_FX;
    }
    t
}

/// Rational approximation of `ONE * sin(a / ONE)` for `a` in `[0, PI_FX]`,
/// exact at 0, `PI_FX / 2` and `PI_FX`.
pub open spec fn sin_bh_spec(a: int) -> int {
    let t: int = a * (PI_FX - a);
    (16 * t * ONE) / (5 * PI_FX * PI_FX - 4 * t)
}

pub proof fn lemma_sin_bounds(a: int)
    requires
        0 <= a <= PI_FX,
    ensures
        0 <= sin_bh_spec(a) <= ONE,
        0 <= a * (PI_FX - a),
        4 * (a * (PI_FX - a)) <= PI_FX * PI_FX,
{
    let t: int = a * (PI_FX - a);
    assert(t >= 0) by (nonlinear_arith)
        requires
            0 <= a <= PI_FX,
            t == a * (PI_FX - a),
    ;
    assert(4 * t <= PI_FX * PI_FX) by (nonlinear_arith)
        requires
            t == a * (PI_FX - a),
    ;
    let den: int = 5 * (PI_FX * PI_FX) - 4 * t;
    let num: int = 16 * t * ONE;
    assert(num <= ONE * den);
    vstd::arithmetic::div_mod::lemma_fundamental_div_mod(num, den);
    let q: int = num / den;
    assert(q <= ONE) by (nonlinear_arith)
        requires
            num == den * q + (num % den),
            0 <= num % den,
            num <= ONE * den,
            den > 0,
    ;
    assert(q >= 0) by (nonlinear_arith)
        requires
            num == den * q + (num % den),
            num % den < den,
            num >= 0,
            den > 0,
    ;
}

/// Computes `sin_bh_spec` in fixed point.
pub fn sin_bh(a: i64) -> (r: i64)
    requires
        0 <= a <= PI_FX,
    ensures
        r == sin_bh_spec(a as int),
        0 <= r <= ONE,
{
    proof {
        lemma_sin_bounds(a as int);
        assert(a * (PI_FX - a) <= PI_FX * PI_FX) by (nonlinear_arith)
            requires
                0 <= a <= PI_FX,
        ;
    }
    let t: i64 = a * (PI_FX - a);
    let num: u128 = 16u128 * (t as u128) * (ONE as u128);
    let den: u128 = 5u128 * (PI_FX as u128) * (PI_FX as u128) - 4u128 * (t as u128);
    let q: u128 = num / den;
    proof {
        assert(q == sin_bh_spec(a as int));
    }
    q as i64
}

/// The unit direction vector of a heading `h` in `[-PI_FX, PI_FX]`, as a
/// fixed-point `(cos, sin)` pair of magnitude `ONE` (up to rounding).
pub open spec fn dir_spec(h: int) -> (int, int) {
    let a: int = iabs(h);
    let s0: int = sin_bh_spec(a);
    let m: int = ONE * ONE - s0 * s0;
    let c: int = if a <= HALF_PI_FX { isqrt_spec(m) } else { -isqrt_spec(m) };
    let s: int = if h >= 0 { s0 } else { -s0 };
    (c, s)
}

/// Rotation magnitude invariance: for every normalized heading, the derived
/// direction vector has squared length `ONE * ONE` up to rounding, so the
/// direction stays a unit vector no matter how often the head has rotated.
pub proof fn lemma_dir_norm(h: int)
    requires
        -PI_FX <= h <= PI_FX,
    ensures
        iabs(dir_spec(h).0) <= ONE,
        iabs(dir_spec(h).1) <= ONE,
        dir_spec(h).0 * dir_spec(h).0 + dir_spec(h).1 * dir_spec(h).1 <= ONE * ONE,
        dir_spec(h).0 * dir_spec(h).0 + dir_spec(h).1 * dir_spec(h).1 > ONE * ONE - 2 * ONE - 1,
{
    let a: int = iabs(h);
    lemma_sin_bounds(a);
    let s0: int = sin_bh_spec(a);
    assert(s0 * s0 <= ONE * ONE) by (nonlinear_arith)
        requires
            0 <= s0 <= ONE,
    ;
    assert(s0 * s0 >= 0) by (nonlinear_arith);
    let m: int = ONE * ONE - s0 * s0;
    lemma_isqrt_bounds(m);
    let c0: int = isqrt_spec(m);
    assert(c0 <= ONE) by (nonlinear_arith)
        requires
            c0 >= 0,
            c0 * c0 <= ONE * ONE,
    ;
    assert(m < c0 * c0 + 2 * c0 + 1) by (nonlinear_arith)
        requires
            m < (c0 + 1) * (c0 + 1),
    ;
    assert((-c0) * (-c0) == c0 * c0) by (nonlinear_arith);
    assert((-s0) * (-s0) == s0 * s0) by (nonlinear_arith);
}

/// Computes `dir_spec` in fixed point.
pub fn dir_of(h: i64) -> (d: (i64, i64))
    requires
        -PI_FX <= h <= PI_FX,
    ensures
        d.0 == dir_spec(h as int).0,
        d.1 == dir_spec(h as int).1,
        iabs(d.0 as int) <= ONE,
        iabs(d.1 as int) <= ONE,
        d.0 * d.0 + d.1 * d.1 <= ONE * ONE,
        d.0 * d.0 + d.1 * d.1 > ONE * ONE - 2 * ONE - 1,
{
    proof {
        lemma_dir_norm(h as int);
    }
    let a: i64 = if h >= 0 { h } else { -h };
    let s0: i64 = sin_bh(a);
    proof {
        assert(s0 * s0 <= ONE * ONE) by (nonlinear_arith)
            requires
                0 <= s0 <= ONE,
        ;
    }
    let m: i64 = ONE * ONE - s0 * s0;
    let c0: i64 = isqrt(m);
    let c: i64 = if a <= HALF_PI_FX { c0 } else { -c0 };
    let s: i64 = if h >= 0 { s0 } else { -s0 };
    (c, s)
}

} // verus!
