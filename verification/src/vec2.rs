//! Integer 2D vectors and the two vector operations the collision
//! engine is built on: rescaling a vector to a target length (used to
//! normalize directions and to push the ball out of a penetration) and
//! reflecting a vector across a normal.
//!
//! Both operations are pinned exactly by spec functions.  Rescaling
//! cannot hit the target length exactly on integers; its contract also
//! gives a tight band for the resulting squared length.  Reflection is
//! exact and provably preserves the squared length, scaled by the
//! squared length of the normal.

use vstd::prelude::*;

use crate::num::isqrt;
use crate::num::lemma_div_bounds;
use crate::VEL_UNIT;

verus! {

/// A two-dimensional vector with integer coordinates.  Positions,
/// offsets and (fixed-point) directions all use this type.
#[derive(Clone, Copy, PartialEq, Eq, Structural, Debug)]
pub struct Vec2i {
    pub x: i64,
    pub y: i64,
}

impl Vec2i {
    /// Squared Euclidean length.
    pub open spec fn norm_sq(self) -> int {
        self.x * self.x + self.y * self.y
    }

    /// Dot product.
    pub open spec fn dot(self, other: Vec2i) -> int {
        self.x * other.x + self.y * other.y
    }

    pub open spec fn is_zero(self) -> bool {
        self.x == 0 && self.y == 0
    }
}

/// The largest squared length `with_len` accepts.
pub const NORM_SQ_LIMIT: i64 = 2_000_000_000_000_000_000;

/// The largest target length `with_len` accepts.
pub const LEN_TARGET_LIMIT: i64 = 2_097_152;

/// `v` has length `t`, up to the tolerance that integer rescaling
/// guarantees: the squared length lies within `[t*t - 4*t - 1, (t+1)*(t+1)]`,
/// i.e. the length differs from `t` by at most a few units.
pub open spec fn has_len(v: Vec2i, t: int) -> bool {
    t * t - 4 * t - 1 <= v.norm_sq() <= (t + 1) * (t + 1)
}

/// A unit direction vector in the `VEL_UNIT` fixed-point scale.
pub open spec fn is_unit(v: Vec2i) -> bool {
    has_len(v, VEL_UNIT as int)
}

/// Comparing non-negative integers by their squares.
proof fn lemma_sq_cmp(x: int, y: int)
    by (nonlinear_arith)
    requires
        0 <= x,
        0 <= y,
        x * x < y * y,
    ensures
        x < y,
{
}

/// Upper bound of the rescaled squared length: if `qa`, `qb` are the
/// floor-scaled components of a vector of length just under `d + 1`,
/// and the target `t` is at most `d`, the rescaled squared length is at
/// most `(t+1)^2`.
proof fn lemma_scale_upper(a: int, b: int, t: int, d: int, qa: int, qb: int)
    requires
        0 <= a,
        0 <= b,
        1 <= t,
        t <= d,
        a * a + b * b < (d + 1) * (d + 1),
        0 <= qa,
        0 <= qb,
        d * qa <= a * t,
        d * qb <= b * t,
    ensures
        qa * qa + qb * qb <= (t + 1) * (t + 1),
{
    assert((d * d) * (qa * qa) <= (a * a) * (t * t)) by (nonlinear_arith)
        requires
            1 <= d,
            0 <= qa,
            0 <= a,
            0 <= t,
            d * qa <= a * t,
    ;
    assert((d * d) * (qb * qb) <= (b * b) * (t * t)) by (nonlinear_arith)
        requires
            1 <= d,
            0 <= qb,
            0 <= b,
            0 <= t,
            d * qb <= b * t,
    ;
    assert((d * d) * (qa * qa + qb * qb) <= (a * a + b * b) * (t * t)) by (nonlinear_arith)
        requires
            (d * d) * (qa * qa) <= (a * a) * (t * t),
            (d * d) * (qb * qb) <= (b * b) * (t * t),
    ;
    assert((a * a + b * b) * (t * t) <= (d * d + 2 * d) * (t * t)) by (nonlinear_arith)
        requires
            a * a + b * b < (d + 1) * (d + 1),
            0 <= t,
    ;
    assert((d * d + 2 * d) * (t * t) < (t * t + 2 * t + 2) * (d * d)) by (nonlinear_arith)
        requires
            1 <= t,
            t <= d,
    ;
    assert(qa * qa + qb * qb < t * t + 2 * t + 2) by (nonlinear_arith)
        requires
            1 <= d,
            (d * d) * (qa * qa + qb * qb) < (t * t + 2 * t + 2) * (d * d),
    ;
    assert(qa * qa + qb * qb <= (t + 1) * (t + 1)) by (nonlinear_arith)
        requires
            qa * qa + qb * qb < t * t + 2 * t + 2,
    ;
}

/// Lower bound of the rescaled squared length: at least `t*t - 4*t - 1`.
proof fn lemma_scale_lower(a: int, b: int, t: int, d: int, qa: int, qb: int)
    requires
        0 <= a,
        0 <= b,
        1 <= t,
        1 <= d,
        d * d <= a * a + b * b,
        a * t < d * (qa + 1),
        b * t < d * (qb + 1),
        0 <= qa <= t,
        0 <= qb <= t,
    ensures
        t * t - 4 * t - 1 <= qa * qa + qb * qb,
{
    assert((a * a) * (t * t) < (d * d) * ((qa + 1) * (qa + 1))) by (nonlinear_arith)
        requires
            0 <= a,
            0 <= t,
            1 <= d,
            0 <= qa,
            a * t < d * (qa + 1),
    ;
    assert((b * b) * (t * t) < (d * d) * ((qb + 1) * (qb + 1))) by (nonlinear_arith)
        requires
            0 <= b,
            0 <= t,
            1 <= d,
            0 <= qb,
            b * t < d * (qb + 1),
    ;
    assert((d * d) * (t * t) <= (a * a + b * b) * (t * t)) by (nonlinear_arith)
        requires
            d * d <= a * a + b * b,
            0 <= t,
    ;
    assert((a * a + b * b) * (t * t) < (d * d) * ((qa + 1) * (qa + 1) + (qb + 1) * (qb + 1)))
        by (nonlinear_arith)
        requires
            (a * a) * (t * t) < (d * d) * ((qa + 1) * (qa + 1)),
            (b * b) * (t * t) < (d * d) * ((qb + 1) * (qb + 1)),
    ;
    assert(t * t < (qa + 1) * (qa + 1) + (qb + 1) * (qb + 1)) by (nonlinear_arith)
        requires
            1 <= d,
            (d * d) * (t * t) < (d * d) * ((qa + 1) * (qa + 1) + (qb + 1) * (qb + 1)),
    ;
    assert(t * t - 4 * t - 1 <= qa * qa + qb * qb) by (nonlinear_arith)
        requires
            t * t < (qa + 1) * (qa + 1) + (qb + 1) * (qb + 1),
            0 <= qa <= t,
            0 <= qb <= t,
    ;
}

/// The exact value `with_len` computes for one component: the
/// component is scaled by `t` over the length of `v`, both first
/// magnified by `2^21` so that the rounding of the square root is
/// negligible, and the quotient rounds towards zero.
pub open spec fn rescale_coord(vc: int, vx: int, vy: int, t: int) -> int {
    let d = crate::num::isqrt_spec(4398046511104 * (vx * vx + vy * vy));
    let q = (vstd::math::abs(vc) * 2097152 * t) / d;
    if vc < 0 {
        -q
    } else {
        q
    }
}

/// The x component of `v` rescaled to length `t`.
pub open spec fn rescale_x(v: Vec2i, t: int) -> int {
    rescale_coord(v.x as int, v.x as int, v.y as int, t)
}

/// The y component of `v` rescaled to length `t`.
pub open spec fn rescale_y(v: Vec2i, t: int) -> int {
    rescale_coord(v.y as int, v.x as int, v.y as int, t)
}

/// Rescale `v` to length `t` (up to the `has_len` tolerance), keeping
/// the direction: each component keeps its sign and the components are
/// scaled by the same factor, rounded towards zero.
///
/// This is the integer counterpart of normalizing a vector and
/// multiplying it by `t`.  The result is pinned exactly by
/// `rescale_x` / `rescale_y`; the remaining clauses are the bounds
/// callers reason with.
pub fn with_len(v: Vec2i, t: i64) -> (w: Vec2i)
    requires
        1 <= t <= LEN_TARGET_LIMIT,
        1 <= v.norm_sq() <= NORM_SQ_LIMIT,
    ensures
        w.x == rescale_x(v, t as int),
        w.y == rescale_y(v, t as int),
        has_len(w, t as int),
        -t <= w.x <= t,
        -t <= w.y <= t,
        v.x >= 0 ==> w.x >= 0,
        v.x <= 0 ==> w.x <= 0,
        v.y >= 0 ==> w.y >= 0,
        v.y <= 0 ==> w.y <= 0,
{
    proof {
        assert(-2000000000 <= v.x <= 2000000000 && -2000000000 <= v.y <= 2000000000)
            by (nonlinear_arith)
            requires
                v.x * v.x + v.y * v.y <= 2000000000000000000,
        ;
    }
    let ax: i64 = if v.x < 0 {
        -v.x
    } else {
        v.x
    };
    let ay: i64 = if v.y < 0 {
        -v.y
    } else {
        v.y
    };
    // Scale by 2^21 before taking the square root, so that the rounding
    // of the square root is negligible next to the target length.
    let axs: u128 = (ax as u128) * 2097152;
    let ays: u128 = (ay as u128) * 2097152;
    proof {
        assert(axs * axs + ays * ays == 4398046511104 * v.norm_sq()
            && axs * axs + ays * ays < 0x40000000000000000000000000000000) by (nonlinear_arith)
            requires
                axs == ax * 2097152,
                ays == ay * 2097152,
                ax == v.x || ax == -v.x,
                ay == v.y || ay == -v.y,
                -2000000000 <= v.x <= 2000000000,
                -2000000000 <= v.y <= 2000000000,
                v.norm_sq() == v.x * v.x + v.y * v.y,
        ;
    }
    let ns: u128 = axs * axs + ays * ays;
    let d: u128 = isqrt(ns);
    proof {
        // ns >= 2^42 because v.norm_sq() >= 1, so d >= 2^21 >= t.
        assert(ns >= 4398046511104) by (nonlinear_arith)
            requires
                ns == 4398046511104 * v.norm_sq(),
                v.norm_sq() >= 1,
        ;
        assert(2097152 * 2097152 <= ns);
        lemma_sq_cmp(2097152, d + 1);
        // each scaled component is at most d.
        assert(axs * axs <= ns && ays * ays <= ns) by (nonlinear_arith)
            requires
                ns == axs * axs + ays * ays,
        ;
        lemma_sq_cmp(axs as int, d + 1);
        lemma_sq_cmp(ays as int, d + 1);
        // the products fed to the division stay far below the u128 range.
        assert(axs * t <= 8796093022208000000000 && ays * t <= 8796093022208000000000)
            by (nonlinear_arith)
            requires
                0 <= axs <= 4194304000000000,
                0 <= ays <= 4194304000000000,
                0 <= t <= 2097152,
        ;
        lemma_div_bounds(axs * t, d as int);
        lemma_div_bounds(ays * t, d as int);
    }
    let qx: u128 = axs * (t as u128) / d;
    let qy: u128 = ays * (t as u128) / d;
    proof {
        assert(d * qx <= axs * t);
        assert(axs * t < d * qx + d);
        assert(d * qy <= ays * t);
        assert(ays * t < d * qy + d);
        // q <= t since the scaled component is at most d.
        assert(axs * t <= d * t && ays * t <= d * t) by (nonlinear_arith)
            requires
                axs <= d,
                ays <= d,
                0 <= t,
        ;
        assert(qx <= t && qy <= t) by (nonlinear_arith)
            requires
                d * qx <= d * t,
                d * qy <= d * t,
                0 < d,
        ;
        assert(axs * t < d * (qx + 1) && ays * t < d * (qy + 1)) by (nonlinear_arith)
            requires
                axs * t < d * qx + d,
                ays * t < d * qy + d,
        ;
        lemma_scale_upper(axs as int, ays as int, t as int, d as int, qx as int, qy as int);
        lemma_scale_lower(axs as int, ays as int, t as int, d as int, qx as int, qy as int);
        // a zero component stays zero.
        assert(axs == 0 ==> axs * t == 0) by (nonlinear_arith);
        assert(ays == 0 ==> ays * t == 0) by (nonlinear_arith);
        assert(axs * t == 0 ==> qx == 0) by (nonlinear_arith)
            requires
                d * qx <= axs * t,
                0 <= qx,
                1 <= d,
        ;
        assert(ays * t == 0 ==> qy == 0) by (nonlinear_arith)
            requires
                d * qy <= ays * t,
                0 <= qy,
                1 <= d,
        ;
    }
    let qxi: i64 = qx as i64;
    let qyi: i64 = qy as i64;
    let wx: i64 = if v.x < 0 {
        -qxi
    } else {
        qxi
    };
    let wy: i64 = if v.y < 0 {
        -qyi
    } else {
        qyi
    };
    proof {
        assert(wx * wx == qxi * qxi && wy * wy == qyi * qyi) by (nonlinear_arith)
            requires
                wx == qxi || wx == -qxi,
                wy == qyi || wy == -qyi,
        ;
        // the result is exactly the spec-level rescaling.
        assert(d == crate::num::isqrt_spec(4398046511104 * (v.x * v.x + v.y * v.y)));
        assert(axs * t == vstd::math::abs(v.x as int) * 2097152 * t);
        assert(ays * t == vstd::math::abs(v.y as int) * 2097152 * t);
        assert(wx == rescale_coord(v.x as int, v.x as int, v.y as int, t as int));
        assert(wy == rescale_coord(v.y as int, v.x as int, v.y as int, t as int));
    }
    Vec2i { x: wx, y: wy }
}

/// A vector whose squared length is bounded has bounded components.
pub proof fn lemma_norm_sq_component_bounds(v: Vec2i, c: int)
    requires
        0 <= c,
        v.norm_sq() <= c * c,
    ensures
        -c <= v.x <= c,
        -c <= v.y <= c,
{
    assert(-c <= v.x <= c && -c <= v.y <= c) by (nonlinear_arith)
        requires
            0 <= c,
            v.x * v.x + v.y * v.y <= c * c,
    ;
}

/// The x component of the reflection, over plain integer components:
/// `v - 2 * (v . n) * n / (n . n)`, scaled by `n . n` so that it stays
/// an integer.
pub open spec fn reflect_xi(vx: int, vy: int, nx: int, ny: int) -> int {
    vx * (nx * nx + ny * ny) - 2 * (vx * nx + vy * ny) * nx
}

/// The y component of the reflection, over plain integer components.
pub open spec fn reflect_yi(vx: int, vy: int, nx: int, ny: int) -> int {
    vy * (nx * nx + ny * ny) - 2 * (vx * nx + vy * ny) * ny
}

/// The x component of `v` reflected across the normal `n`.
pub open spec fn reflect_x(v: Vec2i, n: Vec2i) -> int {
    reflect_xi(v.x as int, v.y as int, n.x as int, n.y as int)
}

/// The y component of `v` reflected across the normal `n`.
pub open spec fn reflect_y(v: Vec2i, n: Vec2i) -> int {
    reflect_yi(v.x as int, v.y as int, n.x as int, n.y as int)
}

/// Reflection preserves the squared length exactly, scaled by the
/// squared length of the normal:
/// `|reflect(v, n)|^2 == |n|^4 * |v|^2`.
pub proof fn lemma_reflect_norm_sq(v: Vec2i, n: Vec2i)
    ensures
        reflect_x(v, n) * reflect_x(v, n) + reflect_y(v, n) * reflect_y(v, n) == n.norm_sq()
            * n.norm_sq() * v.norm_sq(),
{
    let vx = v.x as int;
    let vy = v.y as int;
    let nx = n.x as int;
    let ny = n.y as int;
    let s = n.norm_sq();
    let dd = v.dot(n);
    let px = vx * s;
    let py = vy * s;
    let qx = dd * nx;
    let qy = dd * ny;
    let wx = reflect_x(v, n);
    let wy = reflect_y(v, n);
    assert(wx == vx * s - 2 * dd * nx && wy == vy * s - 2 * dd * ny);
    assert(wx == px - 2 * qx) by (nonlinear_arith)
        requires
            wx == vx * s - 2 * dd * nx,
            px == vx * s,
            qx == dd * nx,
    ;
    assert(wy == py - 2 * qy) by (nonlinear_arith)
        requires
            wy == vy * s - 2 * dd * ny,
            py == vy * s,
            qy == dd * ny,
    ;
    assert(wx * wx == px * px - 4 * (px * qx) + 4 * (qx * qx)) by (nonlinear_arith)
        requires
            wx == px - 2 * qx,
    ;
    assert(wy * wy == py * py - 4 * (py * qy) + 4 * (qy * qy)) by (nonlinear_arith)
        requires
            wy == py - 2 * qy,
    ;
    assert(px * px == (vx * vx) * (s * s)) by (nonlinear_arith)
        requires
            px == vx * s,
    ;
    assert(py * py == (vy * vy) * (s * s)) by (nonlinear_arith)
        requires
            py == vy * s,
    ;
    assert(px * qx == (vx * nx) * (s * dd)) by (nonlinear_arith)
        requires
            px == vx * s,
            qx == dd * nx,
    ;
    assert(py * qy == (vy * ny) * (s * dd)) by (nonlinear_arith)
        requires
            py == vy * s,
            qy == dd * ny,
    ;
    assert(qx * qx == (dd * dd) * (nx * nx)) by (nonlinear_arith)
        requires
            qx == dd * nx,
    ;
    assert(qy * qy == (dd * dd) * (ny * ny)) by (nonlinear_arith)
        requires
            qy == dd * ny,
    ;
    assert((vx * nx) * (s * dd) + (vy * ny) * (s * dd) == (s * dd) * dd) by (nonlinear_arith)
        requires
            dd == vx * nx + vy * ny,
    ;
    assert((dd * dd) * (nx * nx) + (dd * dd) * (ny * ny) == (dd * dd) * s) by (nonlinear_arith)
        requires
            s == nx * nx + ny * ny,
    ;
    assert((s * dd) * dd == (dd * dd) * s) by (nonlinear_arith);
    assert((vx * vx) * (s * s) + (vy * vy) * (s * s) == (s * s) * (vx * vx + vy * vy))
        by (nonlinear_arith);
    assert(wx * wx + wy * wy == (s * s) * (vx * vx + vy * vy));
    assert((s * s) * (vx * vx + vy * vy) == s * s * v.norm_sq());
}

/// Reflect `v` across the normal `n`.  The result is the reflection of
/// `v` scaled by `n.norm_sq()`; callers rescale it back to unit length
/// with `with_len`.
pub fn reflect(v: Vec2i, n: Vec2i) -> (w: Vec2i)
    requires
        -1048576 <= v.x <= 1048576,
        -1048576 <= v.y <= 1048576,
        -1048576 <= n.x <= 1048576,
        -1048576 <= n.y <= 1048576,
    ensures
        w.x == reflect_x(v, n),
        w.y == reflect_y(v, n),
        w.norm_sq() == n.norm_sq() * n.norm_sq() * v.norm_sq(),
{
    proof {
        assert(0 <= n.x * n.x <= 1099511627776 && 0 <= n.y * n.y <= 1099511627776
            && -1099511627776 <= v.x * n.x <= 1099511627776 && -1099511627776 <= v.y * n.y
            <= 1099511627776) by (nonlinear_arith)
            requires
                -1048576 <= v.x <= 1048576,
                -1048576 <= v.y <= 1048576,
                -1048576 <= n.x <= 1048576,
                -1048576 <= n.y <= 1048576,
        ;
    }
    let s: i64 = n.x * n.x + n.y * n.y;
    let dd: i64 = v.x * n.x + v.y * n.y;
    proof {
        assert(-2305843009213693952 <= v.x * s <= 2305843009213693952 && -2305843009213693952
            <= v.y * s <= 2305843009213693952) by (nonlinear_arith)
            requires
                -1048576 <= v.x <= 1048576,
                -1048576 <= v.y <= 1048576,
                0 <= s <= 2199023255552,
        ;
        assert(-4611686018427387904 <= (2 * dd) * n.x <= 4611686018427387904
            && -4611686018427387904 <= (2 * dd) * n.y <= 4611686018427387904)
            by (nonlinear_arith)
            requires
                -1048576 <= n.x <= 1048576,
                -1048576 <= n.y <= 1048576,
                -2199023255552 <= dd <= 2199023255552,
        ;
    }
    let wx: i64 = v.x * s - (2 * dd) * n.x;
    let wy: i64 = v.y * s - (2 * dd) * n.y;
    proof {
        lemma_reflect_norm_sq(v, n);
    }
    Vec2i { x: wx, y: wy }
}

} // verus!
