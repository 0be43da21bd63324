//! Plane geometry in fixed point: positions, squared distances, and the
//! follow-the-leader clamp that keeps a trailing unit within `FOLLOW_DIST`
//! of the unit ahead of it.

use vstd::prelude::*;
use vstd::arithmetic::div_mod::lemma_fundamental_div_mod;
use crate::{COORD_MAX, FOLLOW_DIST};
use crate::num::{iabs, isqrt, isqrt_spec, lemma_isqrt_bounds};

verus! {

/// A point of the world plane, in micro-units.
#[derive(Clone, Copy, PartialEq, Eq, Structural, Debug)]
pub struct Vec2i {
    pub x: i64,
    pub y: i64,
}

/// The point as a pair of mathematical integers.
pub open spec fn pos2(p: Vec2i) -> (int, int) {
    (p.x as int, p.y as int)
}

/// Both coordinates within the working range of the simulation.
pub open spec fn in_bounds_spec(p: Vec2i) -> bool {
    iabs(p.x as int) <= COORD_MAX && iabs(p.y as int) <= COORD_MAX
}

/// Squared distance between two points.
pub open spec fn dist_sq_spec(p: Vec2i, q: Vec2i) -> int {
    let dx: int = p.x - q.x;
    let dy: int = p.y - q.y;
    dx * dx + dy * dy
}

/// Computes the squared distance between two in-range points.
pub fn dist_sq(p: Vec2i, q: Vec2i) -> (d: i64)
    requires
        in_bounds_spec(p),
        in_bounds_spec(q),
    ensures
        d == dist_sq_spec(p, q),
        0 <= d <= 80_000_000_000_000_000,
{
    let dx: i64 = p.x - q.x;
    let dy: i64 = p.y - q.y;
    proof {
        assert(dx * dx <= 40_000_000_000_000_000 && dx * dx >= 0) by (nonlinear_arith)
            requires
                -200_000_000 <= dx <= 200_000_000,
        ;
        assert(dy * dy <= 40_000_000_000_000_000 && dy * dy >= 0) by (nonlinear_arith)
            requires
                -200_000_000 <= dy <= 200_000_000,
        ;
    }
    dx * dx + dy * dy
}

/// Bounds on a floor-scaled magnitude: `a * s / d` stays between 0 and `a`.
pub proof fn lemma_div_scale_bounds(a: int, s: int, d: int)
    requires
        0 <= a,
        0 <= s <= d,
        1 <= d,
    ensures
        0 <= a * s / d <= a,
{
    let q: int = a * s / d;
    let r: int = (a * s) % d;
    lemma_fundamental_div_mod(a * s, d);
    assert(a * s >= 0) by (nonlinear_arith)
        requires
            a >= 0,
            s >= 0,
    ;
    assert(a * s <= a * d) by (nonlinear_arith)
        requires
            a >= 0,
            s <= d,
    ;
    assert(q >= 0) by (nonlinear_arith)
        requires
            a * s == d * q + r,
            a * s >= 0,
            0 <= r < d,
            d >= 1,
    ;
    assert(q <= a) by (nonlinear_arith)
        requires
            a * s == d * q + r,
            a * s <= a * d,
            0 <= r < d,
            d >= 1,
    ;
}

/// Core of the follow clamp, on magnitudes: moving each component of a
/// vector of length about `d` in by the floor-scaled share of `d - f`
/// leaves a remainder vector whose squared length lies between `f * f`
/// and `(f + 3) * (f + 3)`.
proof fn lemma_clamp_core(f: int, ax: int, ay: int, d: int, qx: int, qy: int)
    requires
        1 <= f,
        0 <= ax,
        0 <= ay,
        d * d <= ax * ax + ay * ay,
        ax * ax + ay * ay < (d + 1) * (d + 1),
        d >= f + 1,
        qx == ax * (d - f) / d,
        qy == ay * (d - f) / d,
    ensures
        0 <= qx <= ax,
        0 <= qy <= ay,
        f * f <= (ax - qx) * (ax - qx) + (ay - qy) * (ay - qy),
        (ax - qx) * (ax - qx) + (ay - qy) * (ay - qy) <= (f + 3) * (f + 3),
{
    let s: int = d - f;
    let n: int = ax * ax + ay * ay;
    lemma_div_scale_bounds(ax, s, d);
    lemma_div_scale_bounds(ay, s, d);
    let rx: int = (ax * s) % d;
    let ry: int = (ay * s) % d;
    lemma_fundamental_div_mod(ax * s, d);
    lemma_fundamental_div_mod(ay * s, d);
    let gx: int = ax - qx;
    let gy: int = ay - qy;
    // per-component bounds on the remaining gap, scaled by d
    assert(gx * d >= ax * f) by (nonlinear_arith)
        requires
            gx == ax - qx,
            ax * s == d * qx + rx,
            0 <= rx < d,
            s == d - f,
            ax >= 0,
    ;
    assert(gx * d <= ax * f + d) by (nonlinear_arith)
        requires
            gx == ax - qx,
            ax * s == d * qx + rx,
            0 <= rx < d,
            s == d - f,
    ;
    assert(gy * d >= ay * f) by (nonlinear_arith)
        requires
            gy == ay - qy,
            ay * s == d * qy + ry,
            0 <= ry < d,
            s == d - f,
            ay >= 0,
    ;
    assert(gy * d <= ay * f + d) by (nonlinear_arith)
        requires
            gy == ay - qy,
            ay * s == d * qy + ry,
            0 <= ry < d,
            s == d - f,
    ;
    // components are no longer than the whole
    assert(ax <= d && ay <= d) by (nonlinear_arith)
        requires
            ax >= 0,
            ay >= 0,
            d >= 0,
            ax * ax + ay * ay < (d + 1) * (d + 1),
    ;
    assert(n <= d * d + 2 * d) by (nonlinear_arith)
        requires
            n < (d + 1) * (d + 1),
    ;
    let gsq: int = gx * gx + gy * gy;
    // lower bound: the gap, scaled by d, dominates (ax*f, ay*f)
    assert(gsq * (d * d) >= (f * f) * n) by (nonlinear_arith)
        requires
            gx * d >= ax * f,
            gy * d >= ay * f,
            ax * f >= 0,
            ay * f >= 0,
            gsq == gx * gx + gy * gy,
            n == ax * ax + ay * ay,
    ;
    assert(gsq * (d * d) >= (f * f) * (d * d)) by (nonlinear_arith)
        requires
            gsq * (d * d) >= (f * f) * n,
            n >= d * d,
            f * f >= 0,
    ;
    assert(gsq >= f * f) by (nonlinear_arith)
        requires
            gsq * (d * d) >= (f * f) * (d * d),
            d >= 1,
    ;
    // upper bound
    assert(gx * d >= 0 && gy * d >= 0) by (nonlinear_arith)
        requires
            gx * d >= ax * f,
            gy * d >= ay * f,
            ax >= 0,
            ay >= 0,
            f >= 0,
    ;
    assert((gx * d) * (gx * d) <= (ax * f + d) * (ax * f + d)) by (nonlinear_arith)
        requires
            0 <= gx * d,
            gx * d <= ax * f + d,
    ;
    assert((gy * d) * (gy * d) <= (ay * f + d) * (ay * f + d)) by (nonlinear_arith)
        requires
            0 <= gy * d,
            gy * d <= ay * f + d,
    ;
    assert((ax * f + d) * (ax * f + d) == (f * f) * (ax * ax) + (2 * f) * (d * ax) + d * d)
        by (nonlinear_arith);
    assert((ay * f + d) * (ay * f + d) == (f * f) * (ay * ay) + (2 * f) * (d * ay) + d * d)
        by (nonlinear_arith);
    assert((f * f) * n == (f * f) * (ax * ax) + (f * f) * (ay * ay)) by (nonlinear_arith)
        requires
            n == ax * ax + ay * ay,
    ;
    assert((2 * f) * (d * (ax + ay)) == (2 * f) * (d * ax) + (2 * f) * (d * ay)) by (nonlinear_arith);
    assert(gsq * (d * d) == (gx * d) * (gx * d) + (gy * d) * (gy * d)) by (nonlinear_arith)
        requires
            gsq == gx * gx + gy * gy,
    ;
    assert(gsq * (d * d) <= (f * f) * n + (2 * f) * (d * (ax + ay)) + 2 * (d * d));
    assert(d * (ax + ay) <= 2 * (d * d)) by (nonlinear_arith)
        requires
            ax <= d,
            ay <= d,
            d >= 0,
    ;
    assert((f * f) * n <= (f * f) * (d * d + 2 * d)) by (nonlinear_arith)
        requires
            n <= d * d + 2 * d,
            f * f >= 0,
    ;
    assert((f * f) * (d * d + 2 * d) + (2 * f) * (2 * (d * d)) + 2 * (d * d) <= ((f + 3) * (f + 3)) * (d * d))
        by (nonlinear_arith)
        requires
            1 <= f <= d,
    ;
    assert(gsq * (d * d) <= ((f + 3) * (f + 3)) * (d * d)) by (nonlinear_arith)
        requires
            gsq * (d * d) <= (f * f) * n + (2 * f) * (d * (ax + ay)) + 2 * (d * d),
            d * (ax + ay) <= 2 * (d * d),
            (f * f) * n <= (f * f) * (d * d + 2 * d),
            (f * f) * (d * d + 2 * d) + (2 * f) * (2 * (d * d)) + 2 * (d * d) <= ((f + 3) * (f + 3)) * (d * d),
            f >= 0,
            d >= 1,
    ;
    assert(gsq <= (f + 3) * (f + 3)) by (nonlinear_arith)
        requires
            gsq * (d * d) <= ((f + 3) * (f + 3)) * (d * d),
            d >= 1,
    ;
}

/// Where a trailing unit at `p` ends up when its leader stands at `t`:
/// unchanged while the leader is within `FOLLOW_DIST` (up to rounding),
/// otherwise moved straight toward the leader by the excess distance.
pub open spec fn follow_step_pp(p: (int, int), t: (int, int)) -> (int, int) {
    let dx: int = t.0 - p.0;
    let dy: int = t.1 - p.1;
    let n: int = dx * dx + dy * dy;
    if n <= FOLLOW_DIST * FOLLOW_DIST {
        p
    } else {
        let d: int = isqrt_spec(n);
        if d <= FOLLOW_DIST {
            p
        } else {
            let s: int = d - FOLLOW_DIST;
            let mx: int = if dx >= 0 { dx * s / d } else { -((-dx) * s / d) };
            let my: int = if dy >= 0 { dy * s / d } else { -((-dy) * s / d) };
            (p.0 + mx, p.1 + my)
        }
    }
}

/// Follow clamp law: when the leader `t` is within the follow distance of
/// the trailing unit `p` (up to one micro-unit of rounding), the unit does
/// not move; when it is farther out, the unit moves straight toward the
/// leader and comes to rest at distance `FOLLOW_DIST` from it, up to three
/// micro-units of rounding.
pub proof fn lemma_follow_clamp(p: (int, int), t: (int, int))
    ensures
        ({
            let dx: int = t.0 - p.0;
            let dy: int = t.1 - p.1;
            dx * dx + dy * dy < (FOLLOW_DIST + 1) * (FOLLOW_DIST + 1)
        }) ==> follow_step_pp(p, t) == p,
        ({
            let dx: int = t.0 - p.0;
            let dy: int = t.1 - p.1;
            dx * dx + dy * dy >= (FOLLOW_DIST + 1) * (FOLLOW_DIST + 1)
        }) ==> ({
            let r: (int, int) = follow_step_pp(p, t);
            let gx: int = t.0 - r.0;
            let gy: int = t.1 - r.1;
            FOLLOW_DIST * FOLLOW_DIST <= gx * gx + gy * gy
                <= (FOLLOW_DIST + 3) * (FOLLOW_DIST + 3)
        }),
{
    let dx: int = t.0 - p.0;
    let dy: int = t.1 - p.1;
    let n: int = dx * dx + dy * dy;
    assert(n >= 0) by (nonlinear_arith)
        requires
            n == dx * dx + dy * dy,
    ;
    if n <= FOLLOW_DIST * FOLLOW_DIST {
        assert(n < (FOLLOW_DIST + 1) * (FOLLOW_DIST + 1));
    } else {
        lemma_isqrt_bounds(n);
        let d: int = isqrt_spec(n);
        if n < (FOLLOW_DIST + 1) * (FOLLOW_DIST + 1) {
            // the root of n is exactly FOLLOW_DIST, so nothing moves
            crate::num::lemma_isqrt_unique(n, FOLLOW_DIST as int);
        } else {
            assert(d + 1 > FOLLOW_DIST + 1) by (nonlinear_arith)
                requires
                    n < (d + 1) * (d + 1),
                    n >= (FOLLOW_DIST + 1) * (FOLLOW_DIST + 1),
                    d >= 0,
            ;
            let s: int = d - FOLLOW_DIST;
            let ax: int = iabs(dx);
            let ay: int = iabs(dy);
            assert(ax * ax == dx * dx && ay * ay == dy * dy) by (nonlinear_arith)
                requires
                    ax == iabs(dx),
                    ay == iabs(dy),
                    (dx >= 0 ==> ax == dx) && (dx < 0 ==> ax == -dx),
                    (dy >= 0 ==> ay == dy) && (dy < 0 ==> ay == -dy),
            ;
            let qx: int = ax * s / d;
            let qy: int = ay * s / d;
            lemma_clamp_core(FOLLOW_DIST as int, ax, ay, d, qx, qy);
            let r: (int, int) = follow_step_pp(p, t);
            assert(t.0 - r.0 == if dx >= 0 { ax - qx } else { -(ax - qx) });
            assert(t.1 - r.1 == if dy >= 0 { ay - qy } else { -(ay - qy) });
            assert((-(ax - qx)) * (-(ax - qx)) == (ax - qx) * (ax - qx)) by (nonlinear_arith);
            assert((-(ay - qy)) * (-(ay - qy)) == (ay - qy) * (ay - qy)) by (nonlinear_arith);
        }
    }
}

/// Applies the follow clamp to in-range points.
pub fn follow_toward(p: Vec2i, t: Vec2i) -> (r: Vec2i)
    requires
        in_bounds_spec(p),
        in_bounds_spec(t),
    ensures
        pos2(r) == follow_step_pp(pos2(p), pos2(t)),
        (p.x <= t.x ==> p.x <= r.x <= t.x) && (t.x <= p.x ==> t.x <= r.x <= p.x),
        (p.y <= t.y ==> p.y <= r.y <= t.y) && (t.y <= p.y ==> t.y <= r.y <= p.y),
        in_bounds_spec(r),
{
    let dx: i64 = t.x - p.x;
    let dy: i64 = t.y - p.y;
    proof {
        assert(dx * dx <= 40_000_000_000_000_000 && dx * dx >= 0) by (nonlinear_arith)
            requires
                -200_000_000 <= dx <= 200_000_000,
        ;
        assert(dy * dy <= 40_000_000_000_000_000 && dy * dy >= 0) by (nonlinear_arith)
            requires
                -200_000_000 <= dy <= 200_000_000,
        ;
    }
    let n: i64 = dx * dx + dy * dy;
    if n <= FOLLOW_DIST * FOLLOW_DIST {
        return p;
    }
    let d: i64 = isqrt(n);
    if d <= FOLLOW_DIST {
        return p;
    }
    let s: i64 = d - FOLLOW_DIST;
    let ax: i64 = if dx >= 0 { dx } else { -dx };
    let ay: i64 = if dy >= 0 { dy } else { -dy };
    proof {
        assert(ax * s <= 4_000_000_000_000_000_000 && ax * s >= 0) by (nonlinear_arith)
            requires
                0 <= ax <= 200_000_000,
                0 <= s <= 1_000_000_000,
        ;
        assert(ay * s <= 4_000_000_000_000_000_000 && ay * s >= 0) by (nonlinear_arith)
            requires
                0 <= ay <= 200_000_000,
                0 <= s <= 1_000_000_000,
        ;
        lemma_div_scale_bounds(ax as int, s as int, d as int);
        lemma_div_scale_bounds(ay as int, s as int, d as int);
    }
    let qx: i64 = ax * s / d;
    let qy: i64 = ay * s / d;
    let mx: i64 = if dx >= 0 { qx } else { -qx };
    let my: i64 = if dy >= 0 { qy } else { -qy };
    Vec2i { x: p.x + mx, y: p.y + my }
}

} // verus!
