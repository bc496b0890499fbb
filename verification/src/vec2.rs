//! Two-dimensional fixed-point vectors and the wrap-aware geometry of the
//! toroidal world.
//!
//! A component is an `i64` count of milli-units. Wrapping is applied per
//! axis: a delta larger than half the world is replaced by the shorter way
//! around, so distances never exceed half the world size per axis.

use vstd::prelude::*;
use crate::math::{
    lemma_scaled_mag_bound, spec_sqrt_ceil, spec_tdiv, sqrt_ceil, tdiv,
};

verus! {

/// Largest component magnitude the executable vector helpers accept; all
/// quantities of the engine stay far below it.
pub const COORD_LIMIT: i64 = 2_000_000_000;

/// Largest scale target (`max_speed`, `max_force`) the executable vector
/// helpers accept.
pub const TARGET_LIMIT: i64 = 100_000_000;

#[derive(Clone, Copy, PartialEq, Eq, Structural, Debug)]
pub struct Vec2i {
    pub x: i64,
    pub y: i64,
}

impl Vec2i {
    /// Squared magnitude, as a mathematical integer.
    pub open spec fn mag_sq(self) -> int {
        self.x * self.x + self.y * self.y
    }

    pub open spec fn in_box(self, bound: int) -> bool {
        -bound <= self.x <= bound && -bound <= self.y <= bound
    }

    pub fn zero() -> (r: Vec2i)
        ensures
            r.x == 0 && r.y == 0,
    {
        Vec2i { x: 0, y: 0 }
    }

    /// Squared magnitude of a bounded vector.
    pub fn magnitude_squared(&self) -> (r: i64)
        requires
            self.in_box(COORD_LIMIT as int),
        ensures
            r == self.mag_sq(),
            r >= 0,
    {
        proof {
            lemma_square_range(self.x as int, COORD_LIMIT as int);
            lemma_square_range(self.y as int, COORD_LIMIT as int);
        }
        self.x * self.x + self.y * self.y
    }
}

/// `0 <= x * x <= b * b` whenever `|x| <= b`.
pub proof fn lemma_square_range(x: int, b: int)
    requires
        -b <= x <= b,
    ensures
        0 <= x * x <= b * b,
{
    assert(0 <= x * x <= b * b) by (nonlinear_arith)
        requires
            -b <= x <= b,
    ;
}

/// `|x * m| <= bx * bm` whenever `|x| <= bx` and `0 <= m <= bm`.
pub proof fn lemma_mul_bounds(x: int, bx: int, m: int, bm: int)
    requires
        -bx <= x <= bx,
        0 <= m <= bm,
    ensures
        -(bx * bm) <= x * m <= bx * bm,
{
    assert(-(bx * bm) <= x * m <= bx * bm) by (nonlinear_arith)
        requires
            -bx <= x <= bx,
            0 <= m <= bm,
    ;
}

/// `|x| <= m` whenever `x * x <= m * m` and `m >= 0`.
pub proof fn lemma_component_bound(x: int, m: int)
    requires
        x * x <= m * m,
        m >= 0,
    ensures
        -m <= x <= m,
{
    assert(-m <= x <= m) by (nonlinear_arith)
        requires
            x * x <= m * m,
            m >= 0,
    ;
}

/// The wrap-aware delta along one axis: the signed difference `a - b`,
/// shifted by a whole world if the other way around is shorter.
pub open spec fn spec_wrap_delta(a: int, b: int, w: int) -> int {
    let d = a - b;
    if d > w / 2 {
        d - w
    } else if d < -(w / 2) {
        d + w
    } else {
        d
    }
}

/// Wrap-aware squared distance between two points.
pub open spec fn spec_wrapped_distance_sq(p1: Vec2i, p2: Vec2i, w: int) -> int {
    let dx = spec_wrap_delta(p1.x as int, p2.x as int, w);
    let dy = spec_wrap_delta(p1.y as int, p2.y as int, w);
    dx * dx + dy * dy
}

/// The wrapped delta is the shorter of the direct distance and the distance
/// the other way around the world, and never exceeds half the world (plus
/// one milli-unit when the world side is odd).
pub proof fn lemma_wrap_delta_shortest(a: int, b: int, w: int)
    requires
        w > 0,
        -(w / 2) <= a <= w / 2,
        -(w / 2) <= b <= w / 2,
    ensures
        abs(spec_wrap_delta(a, b, w)) == min_int(abs(a - b), w - abs(a - b)),
        abs(spec_wrap_delta(a, b, w)) <= w / 2 + 1,
{
}

pub open spec fn abs(x: int) -> int {
    if x >= 0 {
        x
    } else {
        -x
    }
}

pub open spec fn min_int(a: int, b: int) -> int {
    if a <= b {
        a
    } else {
        b
    }
}

/// Wrap-aware delta along one axis.
pub fn wrap_delta(a: i64, b: i64, w: i64) -> (r: i64)
    requires
        0 < w <= crate::MAX_WORLD,
        -(w / 2) <= a <= w / 2,
        -(w / 2) <= b <= w / 2,
    ensures
        r == spec_wrap_delta(a as int, b as int, w as int),
        -(w / 2) - 1 <= r <= w / 2 + 1,
{
    let half = w / 2;
    let d = a - b;
    if d > half {
        d - w
    } else if d < -half {
        d + w
    } else {
        d
    }
}

/// Wrap-aware squared distance between two in-world points.
pub fn wrapped_distance_squared(p1: Vec2i, p2: Vec2i, w: i64) -> (r: i64)
    requires
        0 < w <= crate::MAX_WORLD,
        p1.in_box(w / 2),
        p2.in_box(w / 2),
    ensures
        r == spec_wrapped_distance_sq(p1, p2, w as int),
        0 <= r <= 2 * ((w / 2 + 1) * (w / 2 + 1)),
{
    let dx = wrap_delta(p1.x, p2.x, w);
    let dy = wrap_delta(p1.y, p2.y, w);
    proof {
        lemma_square_range(dx as int, w / 2 + 1);
        lemma_square_range(dy as int, w / 2 + 1);
        lemma_square_range(w / 2 + 1, 50_000_001);
    }
    dx * dx + dy * dy
}

/// The nearest toroidal image of `other` as seen from `origin`: `other`
/// shifted by a whole world along each axis on which the direct delta is
/// longer than half the world.
pub open spec fn spec_wrap_target(origin: Vec2i, other: Vec2i, w: int) -> Vec2i {
    Vec2i {
        x: (other.x + spec_axis_shift(origin.x as int, other.x as int, w)) as i64,
        y: (other.y + spec_axis_shift(origin.y as int, other.y as int, w)) as i64,
    }
}

pub open spec fn spec_axis_shift(from: int, to: int, w: int) -> int {
    let d = from - to;
    if d > w / 2 {
        w
    } else if d < -(w / 2) {
        -w
    } else {
        0
    }
}

pub fn wrap_target(origin: Vec2i, other: Vec2i, w: i64) -> (r: Vec2i)
    requires
        0 < w <= crate::MAX_WORLD,
        origin.in_box(w / 2),
        other.in_box(w / 2),
    ensures
        r == spec_wrap_target(origin, other, w as int),
        r.in_box(w / 2 + w),
{
    let half = w / 2;
    let dx = origin.x - other.x;
    let dy = origin.y - other.y;
    let sx: i64 = if dx > half {
        w
    } else if dx < -half {
        -w
    } else {
        0
    };
    let sy: i64 = if dy > half {
        w
    } else if dy < -half {
        -w
    } else {
        0
    };
    Vec2i { x: other.x + sx, y: other.y + sy }
}

/// The vector `v` scaled by `m / sqrt_ceil(v.mag_sq())`, the shared form of
/// "normalise and stretch to magnitude `m`". With a ceiling square root and
/// truncating division the result's magnitude never exceeds `m`.
pub open spec fn spec_scale_to(v: Vec2i, m: int) -> Vec2i {
    let s = spec_sqrt_ceil(v.mag_sq());
    Vec2i { x: spec_tdiv(v.x * m, s) as i64, y: spec_tdiv(v.y * m, s) as i64 }
}

/// Scale a non-zero vector to magnitude at most `m`.
pub fn scale_to_magnitude(v: Vec2i, m: i64) -> (r: Vec2i)
    requires
        v.in_box(COORD_LIMIT as int),
        v.mag_sq() > 0,
        0 <= m <= TARGET_LIMIT,
    ensures
        r == spec_scale_to(v, m as int),
        r.mag_sq() <= m * m,
        r.in_box(m as int),
{
    let msq = v.magnitude_squared();
    let s = sqrt_ceil(msq);
    proof {
        lemma_square_range(v.x as int, COORD_LIMIT as int);
        lemma_square_range(v.y as int, COORD_LIMIT as int);
        lemma_mul_bounds(v.x as int, COORD_LIMIT as int, m as int, TARGET_LIMIT as int);
        lemma_mul_bounds(v.y as int, COORD_LIMIT as int, m as int, TARGET_LIMIT as int);
        lemma_scaled_mag_bound(v.x as int, v.y as int, m as int, s as int);
        let qx = spec_tdiv(v.x as int * m, s as int);
        let qy = spec_tdiv(v.y as int * m, s as int);
        assert(qx * qx >= 0 && qy * qy >= 0) by (nonlinear_arith);
        lemma_component_bound(qx, m as int);
        lemma_component_bound(qy, m as int);
    }
    let rx = tdiv(v.x * m, s);
    let ry = tdiv(v.y * m, s);
    Vec2i { x: rx, y: ry }
}

/// `v` unchanged if its magnitude is at most `m`, else `v` scaled down to
/// magnitude `m`: the steering-force clamp.
pub open spec fn spec_limit(v: Vec2i, m: int) -> Vec2i {
    if v.mag_sq() > m * m {
        spec_scale_to(v, m)
    } else {
        v
    }
}

/// Clamp a vector's magnitude to at most `m`.
pub fn limit_magnitude(v: Vec2i, m: i64) -> (r: Vec2i)
    requires
        v.in_box(COORD_LIMIT as int),
        0 <= m <= TARGET_LIMIT,
    ensures
        r == spec_limit(v, m as int),
        r.mag_sq() <= m * m,
        r.in_box(m as int),
{
    let msq = v.magnitude_squared();
    proof {
        lemma_square_range(m as int, TARGET_LIMIT as int);
    }
    if msq > m * m {
        scale_to_magnitude(v, m)
    } else {
        proof {
            lemma_square_range(v.x as int, COORD_LIMIT as int);
            lemma_square_range(v.y as int, COORD_LIMIT as int);
            lemma_component_bound(v.x as int, m as int);
            lemma_component_bound(v.y as int, m as int);
        }
        v
    }
}

} // verus!
