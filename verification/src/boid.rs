//! A single flocking agent: position, velocity, the previous state kept for
//! render interpolation, and the integration steps of one tick.

use vstd::prelude::*;
use crate::math::spec_tdiv;
use crate::params::{FORCE_LIMIT, SPEED_LIMIT};
use crate::random::random_range_i64;
use crate::vec2::{
    limit_magnitude, scale_to_magnitude, spec_limit, spec_scale_to, Vec2i, COORD_LIMIT,
};

verus! {

/// Largest combined-force component one tick can apply: three rules, each
/// clamped to `FORCE_LIMIT`, weighted by at most ten.
pub const ACCEL_LIMIT: i64 = 400_000_000;

/// The box that always contains the previous-position field: wrapping may
/// mirror it up to a whole world outside the domain, so it can sit well
/// outside the world itself, but never outside this bound.
pub open spec fn prev_limit() -> int {
    crate::MAX_WORLD / 2 + crate::MAX_WORLD + SPEED_LIMIT + ACCEL_LIMIT
}

/// Wrapping one axis at the world edge: positions past either boundary are
/// carried to the opposite one.
pub open spec fn spec_wrap_axis(x: int, w: int) -> int {
    if x > w / 2 {
        -(w / 2)
    } else if x < -(w / 2) {
        w / 2
    } else {
        x
    }
}

/// Normalising a draw of magnitude at least one world unit to two world
/// units lands within half a percent of the target: the ceiling square
/// root and the truncating divisions each lose less than one milli-unit
/// per component, so the squared speed stays above `3_984_000`.
proof fn lemma_heading_speed_floor(v: Vec2i)
    requires
        v.in_box(2_000_000),
        v.mag_sq() >= 1_000_000,
    ensures
        spec_scale_to(v, 2000).mag_sq() >= 3_984_000,
{
    let msq = v.mag_sq();
    let s = crate::math::spec_sqrt_ceil(msq);
    crate::math::lemma_sqrt_ceil_bounds(msq);
    assert(s >= 1000) by (nonlinear_arith)
        requires
            s >= 1,
            s * s >= 1_000_000,
    ;
    let ax = crate::vec2::abs(v.x as int);
    let ay = crate::vec2::abs(v.y as int);
    let qx = spec_tdiv(v.x as int * 2000, s);
    let qy = spec_tdiv(v.y as int * 2000, s);
    let qa = lemma_abs_scaled_quotient(v.x as int, s);
    let qb = lemma_abs_scaled_quotient(v.y as int, s);
    assert(qa == crate::vec2::abs(qx) && qa * s > ax * 2000 - s && qa >= 0);
    assert(qb == crate::vec2::abs(qy) && qb * s > ay * 2000 - s && qb >= 0);
    // Per component: (|q| * s)^2 >= A^2 - 2*A*s with A the scaled magnitude.
    assert(qa * qa * (s * s) >= (ax * 2000) * (ax * 2000) - 2 * ((ax * 2000) * s))
        by (nonlinear_arith)
        requires
            qa >= 0,
            s > 0,
            ax >= 0,
            qa * s > ax * 2000 - s,
    ;
    assert(qb * qb * (s * s) >= (ay * 2000) * (ay * 2000) - 2 * ((ay * 2000) * s))
        by (nonlinear_arith)
        requires
            qb >= 0,
            s > 0,
            ay >= 0,
            qb * s > ay * 2000 - s,
    ;
    // The scaled squared magnitude is 4_000_000 * msq, and |x| + |y| < 2s.
    assert((ax * 2000) * (ax * 2000) + (ay * 2000) * (ay * 2000) == 4_000_000 * msq)
        by (nonlinear_arith)
        requires
            ax == crate::vec2::abs(v.x as int),
            ay == crate::vec2::abs(v.y as int),
            msq == v.x * v.x + v.y * v.y,
    ;
    assert(ax * ax == v.x * v.x && ay * ay == v.y * v.y) by (nonlinear_arith)
        requires
            ax == crate::vec2::abs(v.x as int),
            ay == crate::vec2::abs(v.y as int),
    ;
    assert(ax + ay < 2 * s) by (nonlinear_arith)
        requires
            ax >= 0,
            ay >= 0,
            ax * ax + ay * ay <= s * s,
            s >= 1,
    ;
    assert(2 * ((ax * 2000) * s) + 2 * ((ay * 2000) * s) <= 8000 * (s * s))
        by (nonlinear_arith)
        requires
            ax + ay < 2 * s,
            ax >= 0,
            ay >= 0,
            s > 0,
    ;
    // msq sits strictly above (s - 1)^2, so 4e6 * msq covers the deficit.
    assert(4_000_000 * msq >= 4_000_000 * (s * s) - 8_000_000 * s + 8_000_000)
        by (nonlinear_arith)
        requires
            msq >= (s - 1) * (s - 1) + 1,
    ;
    assert((qa * qa + qb * qb) * (s * s) >= 3_984_000 * (s * s)) by (nonlinear_arith)
        requires
            qa * qa * (s * s) + qb * qb * (s * s) >= 4_000_000 * msq - 8000 * (s * s),
            4_000_000 * msq >= 4_000_000 * (s * s) - 8_000_000 * s + 8_000_000,
            s >= 1000,
    ;
    assert(qa * qa + qb * qb >= 3_984_000) by (nonlinear_arith)
        requires
            (qa * qa + qb * qb) * (s * s) >= 3_984_000 * (s * s),
            s * s > 0,
    ;
    assert(qx * qx == qa * qa && qy * qy == qb * qb) by (nonlinear_arith)
        requires
            qa == crate::vec2::abs(qx),
            qb == crate::vec2::abs(qy),
    ;
    // The components fit i64, so the spec casts are the identity.
    crate::vec2::lemma_square_range(v.x as int, 2_000_000);
    crate::vec2::lemma_square_range(v.y as int, 2_000_000);
    crate::math::lemma_scaled_mag_bound(v.x as int, v.y as int, 2000, s);
    crate::vec2::lemma_component_bound(qx, 2000);
    crate::vec2::lemma_component_bound(qy, 2000);
}

/// The truncating quotient of `x * 2000` by `s` has the absolute value
/// `|x| * 2000 / s`, and that quotient times `s` overshoots
/// `|x| * 2000 - s`.
proof fn lemma_abs_scaled_quotient(x: int, s: int) -> (q: int)
    requires
        s > 0,
    ensures
        q == crate::vec2::abs(spec_tdiv(x * 2000, s)),
        q >= 0,
        q * s > crate::vec2::abs(x) * 2000 - s,
{
    let ab = crate::vec2::abs(x);
    let a = ab * 2000;
    vstd::arithmetic::mul::lemma_mul_nonnegative(ab, 2000);
    vstd::arithmetic::div_mod::lemma_fundamental_div_mod(a, s);
    vstd::arithmetic::div_mod::lemma_mod_bound(a, s);
    vstd::arithmetic::div_mod::lemma_div_pos_is_pos(a, s);
    let u = a / s;
    assert(u * s > a - s) by (nonlinear_arith)
        requires
            a == s * u + a % s,
            0 <= a % s < s,
    ;
    if x >= 0 {
        assert(x * 2000 == a);
        assert(x * 2000 >= 0);
        assert(spec_tdiv(x * 2000, s) == u);
        u
    } else {
        assert(x * 2000 == -a) by (nonlinear_arith)
            requires
                ab == -x,
                a == ab * 2000,
        ;
        assert(spec_tdiv(x * 2000, s) == -((a) / s));
        assert(crate::vec2::abs(spec_tdiv(x * 2000, s)) == u);
        u
    }
}

#[derive(Clone, Copy)]
pub struct Boid {
    pub position: Vec2i,
    pub velocity: Vec2i,
    pub acceleration: Vec2i,
    pub prev_position: Vec2i,
    pub prev_velocity: Vec2i,
    pub max_speed: i64,
    pub max_force: i64,
}

impl Boid {
    /// The bounds every agent of a well-formed flock satisfies between
    /// ticks.
    pub open spec fn wf(self, w: int) -> bool {
        &&& self.position.in_box(w / 2)
        &&& self.prev_position.in_box(prev_limit())
        &&& self.velocity.in_box(SPEED_LIMIT as int)
        &&& self.prev_velocity.in_box(SPEED_LIMIT as int)
        &&& self.acceleration.in_box(ACCEL_LIMIT as int)
        &&& 0 < self.max_speed <= SPEED_LIMIT
        &&& 0 <= self.max_force <= FORCE_LIMIT
    }

    /// A new agent at `(x, y)` with the given not-yet-normalised velocity
    /// draw: the direction of `(vx, vy)` at two world units per tick
    /// (within half a percent), or `(2, 0)` units when the draw is the
    /// zero vector. The draw is scaled up a thousandfold before
    /// normalising so that even the smallest nonzero draw keeps its
    /// direction and lands at full speed.
    pub fn new_with_heading(x: i64, y: i64, vx: i64, vy: i64) -> (r: Boid)
        requires
            -(crate::MAX_WORLD / 2) <= x <= crate::MAX_WORLD / 2,
            -(crate::MAX_WORLD / 2) <= y <= crate::MAX_WORLD / 2,
            -1000 <= vx <= 1000,
            -1000 <= vy <= 1000,
        ensures
            r.position == (Vec2i { x, y }),
            r.prev_position == r.position,
            r.prev_velocity == r.velocity,
            3_900_000 <= r.velocity.mag_sq() <= 2000 * 2000,
            r.velocity.in_box(2000),
            r.acceleration.x == 0 && r.acceleration.y == 0,
            r.max_speed == 4000,
            r.max_force == 100,
    {
        let velocity: Vec2i = if vx == 0 && vy == 0 {
            Vec2i { x: 2000, y: 0 }
        } else {
            let scaled = Vec2i { x: vx * 1000, y: vy * 1000 };
            proof {
                crate::vec2::lemma_square_range(vx as int * 1000, 1_000_000);
                crate::vec2::lemma_square_range(vy as int * 1000, 1_000_000);
                if vx != 0 {
                    assert(scaled.x * scaled.x >= 1_000_000) by (nonlinear_arith)
                        requires
                            scaled.x == vx * 1000,
                            vx != 0,
                            -1000 <= vx <= 1000,
                    ;
                } else {
                    assert(scaled.y * scaled.y >= 1_000_000) by (nonlinear_arith)
                        requires
                            scaled.y == vy * 1000,
                            vy != 0,
                            -1000 <= vy <= 1000,
                    ;
                }
                lemma_heading_speed_floor(scaled);
            }
            scale_to_magnitude(scaled, 2000)
        };
        let position = Vec2i { x, y };
        Boid {
            position,
            velocity,
            acceleration: Vec2i { x: 0, y: 0 },
            prev_position: position,
            prev_velocity: velocity,
            max_speed: 4000,
            max_force: 100,
        }
    }

    /// A new agent at `(x, y)` with a random heading.
    pub fn new(x: i64, y: i64) -> (r: Boid)
        requires
            -(crate::MAX_WORLD / 2) <= x <= crate::MAX_WORLD / 2,
            -(crate::MAX_WORLD / 2) <= y <= crate::MAX_WORLD / 2,
        ensures
            r.position == (Vec2i { x, y }),
            r.prev_position == r.position,
            r.prev_velocity == r.velocity,
            3_900_000 <= r.velocity.mag_sq() <= 2000 * 2000,
            r.velocity.in_box(2000),
            r.acceleration.x == 0 && r.acceleration.y == 0,
            r.max_speed == 4000,
            r.max_force == 100,
    {
        let vx = random_range_i64(-1000, 1000);
        let vy = random_range_i64(-1000, 1000);
        Boid::new_with_heading(x, y, vx, vy)
    }

    /// Accumulate a steering force into the acceleration.
    pub fn apply_force(&mut self, force: Vec2i)
        requires
            old(self).acceleration.in_box(ACCEL_LIMIT as int),
            force.in_box(ACCEL_LIMIT as int),
        ensures
            final(self).acceleration.x == old(self).acceleration.x + force.x,
            final(self).acceleration.y == old(self).acceleration.y + force.y,
            final(self).position == old(self).position,
            final(self).velocity == old(self).velocity,
            final(self).prev_position == old(self).prev_position,
            final(self).prev_velocity == old(self).prev_velocity,
            final(self).max_speed == old(self).max_speed,
            final(self).max_force == old(self).max_force,
    {
        self.acceleration = Vec2i {
            x: self.acceleration.x + force.x,
            y: self.acceleration.y + force.y,
        };
    }

    /// One integration step: fold the acceleration into the velocity, clamp
    /// the speed, advance the position, and reset the acceleration.
    pub fn update(&mut self)
        requires
            old(self).velocity.in_box(SPEED_LIMIT + ACCEL_LIMIT),
            old(self).acceleration.in_box(ACCEL_LIMIT as int),
            old(self).position.in_box(crate::MAX_WORLD as int),
            0 < old(self).max_speed <= SPEED_LIMIT,
        ensures
            final(self).velocity == spec_limit(
                Vec2i {
                    x: (old(self).velocity.x + old(self).acceleration.x) as i64,
                    y: (old(self).velocity.y + old(self).acceleration.y) as i64,
                },
                old(self).max_speed as int,
            ),
            final(self).velocity.mag_sq() <= old(self).max_speed * old(self).max_speed,
            final(self).velocity.in_box(old(self).max_speed as int),
            final(self).position.x == old(self).position.x + final(self).velocity.x,
            final(self).position.y == old(self).position.y + final(self).velocity.y,
            final(self).acceleration.x == 0 && final(self).acceleration.y == 0,
            final(self).prev_position == old(self).prev_position,
            final(self).prev_velocity == old(self).prev_velocity,
            final(self).max_speed == old(self).max_speed,
            final(self).max_force == old(self).max_force,
    {
        let blended = Vec2i {
            x: self.velocity.x + self.acceleration.x,
            y: self.velocity.y + self.acceleration.y,
        };
        let clamped = limit_magnitude(blended, self.max_speed);
        self.velocity = clamped;
        self.position = Vec2i {
            x: self.position.x + clamped.x,
            y: self.position.y + clamped.y,
        };
        self.acceleration = Vec2i { x: 0, y: 0 };
    }

    /// Carry a position past either world edge to the opposite edge,
    /// translating the previous position by the same shift so that
    /// interpolation stays continuous across the seam.
    pub fn wrap_edges(&mut self, world_size: i64)
        requires
            0 < world_size <= crate::MAX_WORLD,
            old(self).position.in_box(crate::MAX_WORLD + SPEED_LIMIT + ACCEL_LIMIT),
            old(self).prev_position.in_box(1_000_000_000),
        ensures
            final(self).position.x == spec_wrap_axis(old(self).position.x as int, world_size as int),
            final(self).position.y == spec_wrap_axis(old(self).position.y as int, world_size as int),
            final(self).prev_position.x == old(self).prev_position.x + (final(self).position.x
                - old(self).position.x),
            final(self).prev_position.y == old(self).prev_position.y + (final(self).position.y
                - old(self).position.y),
            final(self).position.in_box(world_size as int / 2),
            final(self).velocity == old(self).velocity,
            final(self).prev_velocity == old(self).prev_velocity,
            final(self).acceleration == old(self).acceleration,
            final(self).max_speed == old(self).max_speed,
            final(self).max_force == old(self).max_force,
    {
        let half = world_size / 2;
        if self.position.x > half {
            let shift = -half - self.position.x;
            self.position = Vec2i { x: -half, y: self.position.y };
            self.prev_position = Vec2i {
                x: self.prev_position.x + shift,
                y: self.prev_position.y,
            };
        } else if self.position.x < -half {
            let shift = half - self.position.x;
            self.position = Vec2i { x: half, y: self.position.y };
            self.prev_position = Vec2i {
                x: self.prev_position.x + shift,
                y: self.prev_position.y,
            };
        }
        if self.position.y > half {
            let shift = -half - self.position.y;
            self.position = Vec2i { x: self.position.x, y: -half };
            self.prev_position = Vec2i {
                x: self.prev_position.x,
                y: self.prev_position.y + shift,
            };
        } else if self.position.y < -half {
            let shift = half - self.position.y;
            self.position = Vec2i { x: self.position.x, y: half };
            self.prev_position = Vec2i {
                x: self.prev_position.x,
                y: self.prev_position.y + shift,
            };
        }
    }

    /// Snapshot the current state into the previous-state fields; done once
    /// per tick before integration.
    pub fn store_previous_state(&mut self)
        ensures
            final(self).prev_position == old(self).position,
            final(self).prev_velocity == old(self).velocity,
            final(self).position == old(self).position,
            final(self).velocity == old(self).velocity,
            final(self).acceleration == old(self).acceleration,
            final(self).max_speed == old(self).max_speed,
            final(self).max_force == old(self).max_force,
    {
        self.prev_position = self.position;
        self.prev_velocity = self.velocity;
    }

    /// Blend the previous and current positions by `alpha` thousandths.
    pub fn get_interpolated_position(&self, alpha: i64) -> (r: Vec2i)
        requires
            0 <= alpha <= 1000,
            self.position.in_box(1_000_000_000),
            self.prev_position.in_box(1_000_000_000),
        ensures
            r == spec_lerp(self.prev_position, self.position, alpha as int),
    {
        lerp(self.prev_position, self.position, alpha)
    }

    /// Blend the previous and current velocities by `alpha` thousandths.
    pub fn get_interpolated_velocity(&self, alpha: i64) -> (r: Vec2i)
        requires
            0 <= alpha <= 1000,
            self.velocity.in_box(1_000_000_000),
            self.prev_velocity.in_box(1_000_000_000),
        ensures
            r == spec_lerp(self.prev_velocity, self.velocity, alpha as int),
    {
        lerp(self.prev_velocity, self.velocity, alpha)
    }
}

/// Linear interpolation from `a` to `b` by `alpha` thousandths, truncating
/// toward `a`.
pub open spec fn spec_lerp(a: Vec2i, b: Vec2i, alpha: int) -> Vec2i {
    Vec2i {
        x: (a.x + spec_tdiv((b.x - a.x) * alpha, 1000)) as i64,
        y: (a.y + spec_tdiv((b.y - a.y) * alpha, 1000)) as i64,
    }
}

/// Componentwise linear interpolation by `alpha` thousandths.
pub fn lerp(a: Vec2i, b: Vec2i, alpha: i64) -> (r: Vec2i)
    requires
        0 <= alpha <= 1000,
        a.in_box(1_000_000_000),
        b.in_box(1_000_000_000),
    ensures
        r == spec_lerp(a, b, alpha as int),
{
    proof {
        crate::vec2::lemma_mul_bounds((b.x - a.x) as int, 2_000_000_000, alpha as int, 1000);
        crate::vec2::lemma_mul_bounds((b.y - a.y) as int, 2_000_000_000, alpha as int, 1000);
    }
    let dx = crate::math::tdiv((b.x - a.x) * alpha, 1000);
    let dy = crate::math::tdiv((b.y - a.y) * alpha, 1000);
    Vec2i { x: a.x + dx, y: a.y + dy }
}

/// The separation sum over the first `k` listed neighbors: for each within
/// the radius and at positive wrapped distance, an inverse-distance-
/// weighted wrapped delta pointing away from it.
pub open spec fn spec_sep_accum(
    boids: Seq<Boid>,
    idxs: Seq<usize>,
    k: int,
    self_pos: Vec2i,
    r_sq: int,
    w: int,
) -> (int, int, int)
    decreases k,
{
    if k <= 0 {
        (0int, 0int, 0int)
    } else {
        let prev = spec_sep_accum(boids, idxs, k - 1, self_pos, r_sq, w);
        let other = boids[idxs[k - 1] as int].position;
        let d_sq = crate::vec2::spec_wrapped_distance_sq(self_pos, other, w);
        if 0 < d_sq && d_sq < r_sq {
            let wdx = crate::vec2::spec_wrap_delta(self_pos.x as int, other.x as int, w);
            let wdy = crate::vec2::spec_wrap_delta(self_pos.y as int, other.y as int, w);
            (
                prev.0 + spec_tdiv(wdx * crate::forces::ACC_SCALE, d_sq),
                prev.1 + spec_tdiv(wdy * crate::forces::ACC_SCALE, d_sq),
                prev.2 + 1,
            )
        } else {
            prev
        }
    }
}

/// The alignment sum over the first `k` listed neighbors: the velocities
/// of those within the radius at positive wrapped distance.
pub open spec fn spec_ali_accum(
    boids: Seq<Boid>,
    idxs: Seq<usize>,
    k: int,
    self_pos: Vec2i,
    r_sq: int,
    w: int,
) -> (int, int, int)
    decreases k,
{
    if k <= 0 {
        (0int, 0int, 0int)
    } else {
        let prev = spec_ali_accum(boids, idxs, k - 1, self_pos, r_sq, w);
        let other = boids[idxs[k - 1] as int];
        let d_sq = crate::vec2::spec_wrapped_distance_sq(self_pos, other.position, w);
        if 0 < d_sq && d_sq < r_sq {
            (prev.0 + other.velocity.x, prev.1 + other.velocity.y, prev.2 + 1)
        } else {
            prev
        }
    }
}

/// The cohesion sum over the first `k` listed neighbors: the nearest
/// toroidal images of those within the radius at positive wrapped
/// distance.
pub open spec fn spec_coh_accum(
    boids: Seq<Boid>,
    idxs: Seq<usize>,
    k: int,
    self_pos: Vec2i,
    r_sq: int,
    w: int,
) -> (int, int, int)
    decreases k,
{
    if k <= 0 {
        (0int, 0int, 0int)
    } else {
        let prev = spec_coh_accum(boids, idxs, k - 1, self_pos, r_sq, w);
        let other = boids[idxs[k - 1] as int].position;
        let d_sq = crate::vec2::spec_wrapped_distance_sq(self_pos, other, w);
        if 0 < d_sq && d_sq < r_sq {
            let target = crate::vec2::spec_wrap_target(self_pos, other, w);
            (prev.0 + target.x, prev.1 + target.y, prev.2 + 1)
        } else {
            prev
        }
    }
}

/// The index list `0, 1, ..., n - 1`: what the whole-flock rule variants
/// range over.
pub open spec fn all_indices(n: int) -> Seq<usize> {
    Seq::new(n as nat, |i: int| i as usize)
}

/// What the rule methods assume of their inputs.
pub open spec fn rule_inputs_ok(
    b: Boid,
    boids: Seq<Boid>,
    idxs: Seq<usize>,
    radius: int,
    w: int,
) -> bool {
    &&& 0 < w <= crate::MAX_WORLD
    &&& b.position.in_box(w / 2)
    &&& b.velocity.in_box(SPEED_LIMIT as int)
    &&& 0 < b.max_speed <= SPEED_LIMIT
    &&& 0 <= b.max_force <= FORCE_LIMIT
    &&& 0 < radius <= crate::params::RADIUS_LIMIT
    &&& boids.len() <= crate::params::MAX_AGENTS
    &&& idxs.len() <= boids.len()
    &&& forall|m: int| 0 <= m < idxs.len() ==> (#[trigger] idxs[m]) < boids.len()
    &&& forall|j: int|
        0 <= j < boids.len() ==> (#[trigger] boids[j]).position.in_box(w / 2)
            && boids[j].velocity.in_box(SPEED_LIMIT as int)
}

impl Boid {
    /// The separation steering force away from the listed neighbors within
    /// the perception radius, wrap-aware and clamped to the maximum force.
    pub fn separation(
        &self,
        boids: &Vec<Boid>,
        neighbor_indices: &Vec<usize>,
        perception_radius: i64,
        world_size: i64,
    ) -> (r: Vec2i)
        requires
            rule_inputs_ok(*self, boids@, neighbor_indices@, perception_radius as int,
                world_size as int),
        ensures
            r == ({
                let a = spec_sep_accum(boids@, neighbor_indices@, neighbor_indices@.len() as int,
                    self.position, perception_radius * perception_radius, world_size as int);
                crate::forces::spec_average_steer(a.0, a.1, a.2, self.velocity,
                    self.max_speed as int, self.max_force as int)
            }),
            r.in_box(self.max_force as int),
    {
        let w = world_size;
        proof {
            crate::vec2::lemma_square_range(perception_radius as int,
                crate::params::RADIUS_LIMIT as int);
        }
        let r_sq = perception_radius * perception_radius;
        let n = neighbor_indices.len();
        let mut ax: i64 = 0;
        let mut ay: i64 = 0;
        let mut count: i64 = 0;
        let mut m: usize = 0;
        while m < n
            invariant
                m <= n,
                n == neighbor_indices@.len(),
                rule_inputs_ok(*self, boids@, neighbor_indices@, perception_radius as int,
                    w as int),
                0 < w <= crate::MAX_WORLD,
                r_sq == perception_radius * perception_radius,
                ({
                    let a = spec_sep_accum(boids@, neighbor_indices@, m as int, self.position,
                        r_sq as int, w as int);
                    &&& ax == a.0 && ay == a.1 && count == a.2
                    &&& 0 <= a.2 <= m
                    &&& -(a.2 * crate::forces::ACC_SCALE) <= a.0 <= a.2 * crate::forces::ACC_SCALE
                    &&& -(a.2 * crate::forces::ACC_SCALE) <= a.1 <= a.2 * crate::forces::ACC_SCALE
                }),
            decreases n - m,
        {
            let j = neighbor_indices[m];
            let other = boids[j].position;
            let d_sq = crate::vec2::wrapped_distance_squared(self.position, other, w);
            if d_sq > 0 && d_sq < r_sq {
                let wdx = crate::vec2::wrap_delta(self.position.x, other.x, w);
                let wdy = crate::vec2::wrap_delta(self.position.y, other.y, w);
                proof {
                    crate::vec2::lemma_square_range(wdx as int, w / 2 + 1);
                    crate::vec2::lemma_square_range(wdy as int, w / 2 + 1);
                    crate::vec2::lemma_square_range(w / 2 + 1, 50_000_001);
                    assert(d_sq as int == wdx * wdx + wdy * wdy);
                    crate::math::lemma_inverse_weight_bound(wdx as int,
                        crate::forces::ACC_SCALE as int, d_sq as int);
                    crate::math::lemma_inverse_weight_bound(wdy as int,
                        crate::forces::ACC_SCALE as int, d_sq as int);
                    crate::vec2::lemma_mul_bounds(wdx as int, 50_000_001,
                        crate::forces::ACC_SCALE as int, crate::forces::ACC_SCALE as int);
                    crate::vec2::lemma_mul_bounds(wdy as int, 50_000_001,
                        crate::forces::ACC_SCALE as int, crate::forces::ACC_SCALE as int);
                }
                ax = ax + crate::math::tdiv(wdx * crate::forces::ACC_SCALE, d_sq);
                ay = ay + crate::math::tdiv(wdy * crate::forces::ACC_SCALE, d_sq);
                count = count + 1;
            }
            m = m + 1;
        }
        crate::forces::average_steer(ax, ay, count, self.velocity, self.max_speed, self.max_force)
    }

    /// The alignment steering force toward the average heading of the
    /// listed neighbors within the perception radius.
    pub fn alignment(
        &self,
        boids: &Vec<Boid>,
        neighbor_indices: &Vec<usize>,
        perception_radius: i64,
        world_size: i64,
    ) -> (r: Vec2i)
        requires
            rule_inputs_ok(*self, boids@, neighbor_indices@, perception_radius as int,
                world_size as int),
        ensures
            r == ({
                let a = spec_ali_accum(boids@, neighbor_indices@, neighbor_indices@.len() as int,
                    self.position, perception_radius * perception_radius, world_size as int);
                crate::forces::spec_average_steer(a.0, a.1, a.2, self.velocity,
                    self.max_speed as int, self.max_force as int)
            }),
            r.in_box(self.max_force as int),
    {
        let w = world_size;
        proof {
            crate::vec2::lemma_square_range(perception_radius as int,
                crate::params::RADIUS_LIMIT as int);
        }
        let r_sq = perception_radius * perception_radius;
        let n = neighbor_indices.len();
        let mut ax: i64 = 0;
        let mut ay: i64 = 0;
        let mut count: i64 = 0;
        let mut m: usize = 0;
        while m < n
            invariant
                m <= n,
                n == neighbor_indices@.len(),
                rule_inputs_ok(*self, boids@, neighbor_indices@, perception_radius as int,
                    w as int),
                0 < w <= crate::MAX_WORLD,
                r_sq == perception_radius * perception_radius,
                ({
                    let a = spec_ali_accum(boids@, neighbor_indices@, m as int, self.position,
                        r_sq as int, w as int);
                    &&& ax == a.0 && ay == a.1 && count == a.2
                    &&& 0 <= a.2 <= m
                    &&& -(a.2 * SPEED_LIMIT) <= a.0 <= a.2 * SPEED_LIMIT
                    &&& -(a.2 * SPEED_LIMIT) <= a.1 <= a.2 * SPEED_LIMIT
                }),
            decreases n - m,
        {
            let j = neighbor_indices[m];
            let other = boids[j];
            let d_sq = crate::vec2::wrapped_distance_squared(self.position, other.position, w);
            if d_sq > 0 && d_sq < r_sq {
                ax = ax + other.velocity.x;
                ay = ay + other.velocity.y;
                count = count + 1;
            }
            m = m + 1;
        }
        crate::forces::average_steer(ax, ay, count, self.velocity, self.max_speed, self.max_force)
    }

    /// The cohesion steering force toward the average position (nearest
    /// toroidal image) of the listed neighbors within the perception
    /// radius.
    pub fn cohesion(
        &self,
        boids: &Vec<Boid>,
        neighbor_indices: &Vec<usize>,
        perception_radius: i64,
        world_size: i64,
    ) -> (r: Vec2i)
        requires
            rule_inputs_ok(*self, boids@, neighbor_indices@, perception_radius as int,
                world_size as int),
        ensures
            r == ({
                let a = spec_coh_accum(boids@, neighbor_indices@, neighbor_indices@.len() as int,
                    self.position, perception_radius * perception_radius, world_size as int);
                crate::forces::spec_cohesion_steer(a.0, a.1, a.2, self.position, self.velocity,
                    self.max_speed as int, self.max_force as int)
            }),
            r.in_box(self.max_force as int),
    {
        let w = world_size;
        proof {
            crate::vec2::lemma_square_range(perception_radius as int,
                crate::params::RADIUS_LIMIT as int);
        }
        let r_sq = perception_radius * perception_radius;
        let n = neighbor_indices.len();
        let mut ax: i64 = 0;
        let mut ay: i64 = 0;
        let mut count: i64 = 0;
        let mut m: usize = 0;
        while m < n
            invariant
                m <= n,
                n == neighbor_indices@.len(),
                rule_inputs_ok(*self, boids@, neighbor_indices@, perception_radius as int,
                    w as int),
                0 < w <= crate::MAX_WORLD,
                r_sq == perception_radius * perception_radius,
                ({
                    let a = spec_coh_accum(boids@, neighbor_indices@, m as int, self.position,
                        r_sq as int, w as int);
                    &&& ax == a.0 && ay == a.1 && count == a.2
                    &&& 0 <= a.2 <= m
                    &&& -(a.2 * crate::forces::TARGET_SPAN) <= a.0 <= a.2
                        * crate::forces::TARGET_SPAN
                    &&& -(a.2 * crate::forces::TARGET_SPAN) <= a.1 <= a.2
                        * crate::forces::TARGET_SPAN
                }),
            decreases n - m,
        {
            let j = neighbor_indices[m];
            let other = boids[j].position;
            let d_sq = crate::vec2::wrapped_distance_squared(self.position, other, w);
            if d_sq > 0 && d_sq < r_sq {
                let target = crate::vec2::wrap_target(self.position, other, w);
                ax = ax + target.x;
                ay = ay + target.y;
                count = count + 1;
            }
            m = m + 1;
        }
        crate::forces::cohesion_steer(ax, ay, count, self.position, self.velocity, self.max_speed,
            self.max_force)
    }

    /// Separation against the whole flock, without a spatial index.
    pub fn separation_original(&self, boids: &Vec<Boid>, perception_radius: i64, world_size: i64) -> (r:
        Vec2i)
        requires
            rule_inputs_ok(*self, boids@, all_indices(boids@.len() as int), perception_radius as int,
                world_size as int),
        ensures
            r == ({
                let a = spec_sep_accum(boids@, all_indices(boids@.len() as int),
                    boids@.len() as int, self.position, perception_radius * perception_radius,
                    world_size as int);
                crate::forces::spec_average_steer(a.0, a.1, a.2, self.velocity,
                    self.max_speed as int, self.max_force as int)
            }),
            r.in_box(self.max_force as int),
    {
        let idxs = identity_indices(boids.len());
        self.separation(boids, &idxs, perception_radius, world_size)
    }

    /// Alignment against the whole flock, without a spatial index.
    pub fn alignment_original(&self, boids: &Vec<Boid>, perception_radius: i64, world_size: i64) -> (r:
        Vec2i)
        requires
            rule_inputs_ok(*self, boids@, all_indices(boids@.len() as int), perception_radius as int,
                world_size as int),
        ensures
            r == ({
                let a = spec_ali_accum(boids@, all_indices(boids@.len() as int),
                    boids@.len() as int, self.position, perception_radius * perception_radius,
                    world_size as int);
                crate::forces::spec_average_steer(a.0, a.1, a.2, self.velocity,
                    self.max_speed as int, self.max_force as int)
            }),
            r.in_box(self.max_force as int),
    {
        let idxs = identity_indices(boids.len());
        self.alignment(boids, &idxs, perception_radius, world_size)
    }

    /// Cohesion against the whole flock, without a spatial index.
    pub fn cohesion_original(&self, boids: &Vec<Boid>, perception_radius: i64, world_size: i64) -> (r:
        Vec2i)
        requires
            rule_inputs_ok(*self, boids@, all_indices(boids@.len() as int), perception_radius as int,
                world_size as int),
        ensures
            r == ({
                let a = spec_coh_accum(boids@, all_indices(boids@.len() as int),
                    boids@.len() as int, self.position, perception_radius * perception_radius,
                    world_size as int);
                crate::forces::spec_cohesion_steer(a.0, a.1, a.2, self.position, self.velocity,
                    self.max_speed as int, self.max_force as int)
            }),
            r.in_box(self.max_force as int),
    {
        let idxs = identity_indices(boids.len());
        self.cohesion(boids, &idxs, perception_radius, world_size)
    }
}

/// The index list `0, 1, ..., n - 1`.
fn identity_indices(n: usize) -> (r: Vec<usize>)
    ensures
        r@ == all_indices(n as int),
{
    let mut r: Vec<usize> = Vec::new();
    let mut i: usize = 0;
    while i < n
        invariant
            i <= n,
            r@.len() == i,
            forall|j: int| 0 <= j < i ==> #[trigger] r@[j] == j as usize,
        decreases n - i,
    {
        r.push(i);
        i = i + 1;
    }
    proof {
        assert(r@ =~= all_indices(n as int));
    }
    r
}

} // verus!
