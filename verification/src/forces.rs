//! The Reynolds steering rules evaluated against a frozen snapshot.
//!
//! One pass over a neighbor list classifies each candidate into the
//! separation, alignment and cohesion rules by squared-distance threshold,
//! accumulates each rule's raw sum, and then turns every sum into a
//! steering force — `desired velocity - current velocity`, clamped to the
//! agent's maximum force. The whole computation is a pure function of its
//! arguments, which is what makes the two-phase scheduler deterministic.

use vstd::prelude::*;
use crate::boid::ACCEL_LIMIT;
use crate::math::{spec_tdiv, tdiv};
use crate::params::{SimulationParams, FORCE_LIMIT, MAX_AGENTS, RADIUS_LIMIT, SPEED_LIMIT,
    WEIGHT_LIMIT};
use crate::spatial_grid::{spec_process_cell, spec_process_to, NeighborEntry, SpatialGrid};
use crate::vec2::{
    lemma_mul_bounds, lemma_square_range, limit_magnitude, scale_to_magnitude, spec_limit,
    spec_scale_to, spec_wrap_delta, spec_wrap_target, spec_wrapped_distance_sq, wrap_delta,
    wrap_target, Vec2i, COORD_LIMIT,
};

verus! {

/// Fixed-point scale of the separation rule's inverse-distance weights.
pub const ACC_SCALE: i64 = 1_000_000;

/// Bound on one cohesion target component: a world position shifted by at
/// most one whole world.
pub const TARGET_SPAN: i64 = 300_000_000;

/// The raw rule sums gathered in one pass over a neighbor list.
pub struct ForceAccum {
    pub sep_x: i64,
    pub sep_y: i64,
    pub sep_count: i64,
    pub ali_x: i64,
    pub ali_y: i64,
    pub ali_count: i64,
    pub coh_x: i64,
    pub coh_y: i64,
    pub coh_count: i64,
}

/// The mathematical counterpart of `ForceAccum`.
pub struct SpecAccum {
    pub sep_x: int,
    pub sep_y: int,
    pub sep_count: int,
    pub ali_x: int,
    pub ali_y: int,
    pub ali_count: int,
    pub coh_x: int,
    pub coh_y: int,
    pub coh_count: int,
}

impl SpecAccum {
    pub open spec fn zero() -> SpecAccum {
        SpecAccum {
            sep_x: 0,
            sep_y: 0,
            sep_count: 0,
            ali_x: 0,
            ali_y: 0,
            ali_count: 0,
            coh_x: 0,
            coh_y: 0,
            coh_count: 0,
        }
    }
}

/// The rule sums after the first `k` neighbors.
///
/// A neighbor within the separation radius and at positive distance adds an
/// inverse-distance-weighted wrapped delta; one within the alignment radius
/// adds its velocity; one within the cohesion radius adds the nearest
/// toroidal image of its position.
pub open spec fn spec_accumulate(
    neighbors: Seq<NeighborEntry>,
    k: int,
    self_pos: Vec2i,
    positions: Seq<Vec2i>,
    velocities: Seq<Vec2i>,
    sep_r_sq: int,
    ali_r_sq: int,
    coh_r_sq: int,
    w: int,
) -> SpecAccum
    decreases k,
{
    if k <= 0 {
        SpecAccum::zero()
    } else {
        let a = spec_accumulate(neighbors, k - 1, self_pos, positions, velocities, sep_r_sq,
            ali_r_sq, coh_r_sq, w);
        let e = neighbors[k - 1];
        let d_sq = e.distance_squared as int;
        let idx = e.index as int;
        let other_pos = positions[idx];
        let wdx = spec_wrap_delta(self_pos.x as int, other_pos.x as int, w);
        let wdy = spec_wrap_delta(self_pos.y as int, other_pos.y as int, w);
        let target = spec_wrap_target(self_pos, other_pos, w);
        SpecAccum {
            sep_x: if d_sq < sep_r_sq && d_sq > 0 {
                a.sep_x + spec_tdiv(wdx * ACC_SCALE, d_sq)
            } else {
                a.sep_x
            },
            sep_y: if d_sq < sep_r_sq && d_sq > 0 {
                a.sep_y + spec_tdiv(wdy * ACC_SCALE, d_sq)
            } else {
                a.sep_y
            },
            sep_count: if d_sq < sep_r_sq && d_sq > 0 {
                a.sep_count + 1
            } else {
                a.sep_count
            },
            ali_x: if d_sq < ali_r_sq {
                a.ali_x + velocities[idx].x
            } else {
                a.ali_x
            },
            ali_y: if d_sq < ali_r_sq {
                a.ali_y + velocities[idx].y
            } else {
                a.ali_y
            },
            ali_count: if d_sq < ali_r_sq {
                a.ali_count + 1
            } else {
                a.ali_count
            },
            coh_x: if d_sq < coh_r_sq {
                a.coh_x + target.x
            } else {
                a.coh_x
            },
            coh_y: if d_sq < coh_r_sq {
                a.coh_y + target.y
            } else {
                a.coh_y
            },
            coh_count: if d_sq < coh_r_sq {
                a.coh_count + 1
            } else {
                a.coh_count
            },
        }
    }
}

/// Reynolds steering from an accumulated direction: nothing for a zero
/// vector, else the vector stretched to full speed, minus the current
/// velocity, clamped to the maximum force.
pub open spec fn spec_steer(avg: Vec2i, vel: Vec2i, ms: int, mf: int) -> Vec2i {
    if avg.mag_sq() == 0 {
        Vec2i { x: 0, y: 0 }
    } else {
        let desired = spec_scale_to(avg, ms);
        spec_limit(Vec2i { x: (desired.x - vel.x) as i64, y: (desired.y - vel.y) as i64 }, mf)
    }
}

/// The separation (or alignment) force from a rule sum: the average of the
/// accumulated vectors, steered toward and clamped; zero without
/// neighbors.
pub open spec fn spec_average_steer(
    acc_x: int,
    acc_y: int,
    count: int,
    vel: Vec2i,
    ms: int,
    mf: int,
) -> Vec2i {
    if count <= 0 {
        Vec2i { x: 0, y: 0 }
    } else {
        spec_steer(
            Vec2i { x: spec_tdiv(acc_x, count) as i64, y: spec_tdiv(acc_y, count) as i64 },
            vel,
            ms,
            mf,
        )
    }
}

/// The cohesion force: steer toward the average of the accumulated target
/// points; zero without neighbors.
pub open spec fn spec_cohesion_steer(
    acc_x: int,
    acc_y: int,
    count: int,
    self_pos: Vec2i,
    vel: Vec2i,
    ms: int,
    mf: int,
) -> Vec2i {
    if count <= 0 {
        Vec2i { x: 0, y: 0 }
    } else {
        let tx = spec_tdiv(acc_x, count);
        let ty = spec_tdiv(acc_y, count);
        spec_steer(
            Vec2i { x: (tx - self_pos.x) as i64, y: (ty - self_pos.y) as i64 },
            vel,
            ms,
            mf,
        )
    }
}

/// The three rule forces weighted and summed; each weight is in
/// milli-units, so the sum is scaled back down by a thousand.
pub open spec fn spec_combine(sep: Vec2i, ali: Vec2i, coh: Vec2i, ws: int, wa: int, wc: int) -> Vec2i {
    Vec2i {
        x: spec_tdiv(sep.x * ws + ali.x * wa + coh.x * wc, 1000) as i64,
        y: spec_tdiv(sep.y * ws + ali.y * wa + coh.y * wc, 1000) as i64,
    }
}

/// The combined steering force of one agent against a frozen snapshot: the
/// grid is queried at the agent's position, the rule sums are gathered in
/// one pass, and the three clamped steering forces are weighted together.
pub open spec fn spec_agent_force(
    i: int,
    grid: SpatialGrid,
    positions: Seq<Vec2i>,
    velocities: Seq<Vec2i>,
    ms: int,
    mf: int,
    params: SimulationParams,
) -> Vec2i {
    let w = params.world_size as int;
    let neighbors = grid.spec_query(i, positions[i], positions, w);
    let a = spec_accumulate(neighbors, neighbors.len() as int, positions[i], positions, velocities,
        params.separation_radius * params.separation_radius,
        params.alignment_radius * params.alignment_radius,
        params.cohesion_radius * params.cohesion_radius, w);
    let sep = spec_average_steer(a.sep_x, a.sep_y, a.sep_count, velocities[i], ms, mf);
    let ali = spec_average_steer(a.ali_x, a.ali_y, a.ali_count, velocities[i], ms, mf);
    let coh = spec_cohesion_steer(a.coh_x, a.coh_y, a.coh_count, positions[i], velocities[i], ms,
        mf);
    spec_combine(sep, ali, coh, params.separation_weight as int, params.alignment_weight as int,
        params.cohesion_weight as int)
}

/// What the query contract guarantees of every reported entry.
pub open spec fn entry_valid(
    e: NeighborEntry,
    self_index: int,
    pos: Vec2i,
    positions: Seq<Vec2i>,
    w: int,
) -> bool {
    &&& e.index != self_index
    &&& (e.index as int) < positions.len()
    &&& e.distance_squared == spec_wrapped_distance_sq(pos, positions[e.index as int], w) as i64
}

/// Every entry of a processed bucket prefix is valid.
pub proof fn lemma_process_to_valid(
    bucket: Seq<usize>,
    k: int,
    self_index: int,
    pos: Vec2i,
    positions: Seq<Vec2i>,
    w: int,
)
    requires
        k <= bucket.len(),
    ensures
        forall|m: int|
            0 <= m < spec_process_to(bucket, k, self_index, pos, positions, w).len()
                ==> entry_valid(#[trigger] spec_process_to(bucket, k, self_index, pos, positions,
                w)[m], self_index, pos, positions, w),
        spec_process_to(bucket, k, self_index, pos, positions, w).len() <= if k >= 0 {
            k
        } else {
            0
        },
    decreases k,
{
    if k > 0 {
        lemma_process_to_valid(bucket, k - 1, self_index, pos, positions, w);
    }
}

/// Validity of every entry survives concatenation.
pub proof fn lemma_add_valid(
    a: Seq<NeighborEntry>,
    b: Seq<NeighborEntry>,
    self_index: int,
    pos: Vec2i,
    positions: Seq<Vec2i>,
    w: int,
)
    requires
        forall|m: int|
            0 <= m < a.len() ==> entry_valid(#[trigger] a[m], self_index, pos, positions, w),
        forall|m: int|
            0 <= m < b.len() ==> entry_valid(#[trigger] b[m], self_index, pos, positions, w),
    ensures
        forall|m: int|
            0 <= m < (a + b).len() ==> entry_valid(#[trigger] (a + b)[m], self_index, pos,
                positions, w),
{
    assert forall|m: int| 0 <= m < (a + b).len() implies entry_valid(#[trigger] (a + b)[m],
        self_index, pos, positions, w) by {
        if m < a.len() {
            assert((a + b)[m] == a[m]);
        } else {
            assert((a + b)[m] == b[m - a.len()]);
        }
    }
}

/// Every entry a query reports is valid, and a query reports at most nine
/// bucketfuls.
pub proof fn lemma_query_valid(
    g: SpatialGrid,
    self_index: int,
    pos: Vec2i,
    positions: Seq<Vec2i>,
    w: int,
)
    requires
        g.inv(),
    ensures
        forall|m: int|
            0 <= m < g.spec_query(self_index, pos, positions, w).len() ==> entry_valid(
                #[trigger] g.spec_query(self_index, pos, positions, w)[m], self_index, pos,
                positions, w),
        g.spec_query(self_index, pos, positions, w).len() <= 9 * MAX_AGENTS,
{
    let gs = g.grid_size as int;
    let cs = g.cell_size as int;
    let cx = crate::spatial_grid::spec_grid_coord(pos.x as int, w, cs, gs);
    let cy = crate::spatial_grid::spec_grid_coord(pos.y as int, w, cs, gs);
    let n = g.grid@.len() as int;
    crate::spatial_grid::lemma_counts_basic(g.buckets(), n);
    assert forall|x: int, y: int| true implies 0 <= #[trigger] crate::spatial_grid::spec_scan_cell(
        x, y, gs) < n by {
        vstd::arithmetic::div_mod::lemma_mod_bound(x, gs);
        vstd::arithmetic::div_mod::lemma_mod_bound(y, gs);
        crate::spatial_grid::lemma_row_major_in_range(x % gs, y % gs, gs);
    }
    assert forall|x: int, y: int| true implies (#[trigger] g.scan_at(x, y, self_index, pos,
        positions, w)).len() <= MAX_AGENTS && (forall|m: int|
        0 <= m < g.scan_at(x, y, self_index, pos, positions, w).len() ==> entry_valid(
            #[trigger] g.scan_at(x, y, self_index, pos, positions, w)[m], self_index, pos,
            positions, w)) by {
        let c = crate::spatial_grid::spec_scan_cell(x, y, gs);
        vstd::arithmetic::div_mod::lemma_mod_bound(x, gs);
        vstd::arithmetic::div_mod::lemma_mod_bound(y, gs);
        crate::spatial_grid::lemma_row_major_in_range(x % gs, y % gs, gs);
        let bucket = g.buckets()[c];
        lemma_process_to_valid(bucket, bucket.len() as int, self_index, pos, positions, w);
    }
    let center = crate::spatial_grid::spec_scan_cell(cx, cy, gs);
    let center_bucket = g.buckets()[center];
    lemma_process_to_valid(center_bucket, center_bucket.len() as int, self_index, pos, positions,
        w);
    let ce = spec_process_cell(center_bucket, self_index, pos, positions, w);
    let dense = center_bucket.len() > 0 && center_bucket.len() > 2 * g.avg_cell_population;
    if dense {
        let s1 = g.scan_at(cx + 1, cy, self_index, pos, positions, w);
        let s2 = g.scan_at(cx + gs - 1, cy, self_index, pos, positions, w);
        let s3 = g.scan_at(cx, cy + 1, self_index, pos, positions, w);
        let s4 = g.scan_at(cx, cy + gs - 1, self_index, pos, positions, w);
        lemma_add_valid(ce, s1, self_index, pos, positions, w);
        lemma_add_valid(ce + s1, s2, self_index, pos, positions, w);
        lemma_add_valid(ce + s1 + s2, s3, self_index, pos, positions, w);
        lemma_add_valid(ce + s1 + s2 + s3, s4, self_index, pos, positions, w);
    } else {
        let s1 = g.scan_at(cx + gs - 1, cy + gs - 1, self_index, pos, positions, w);
        let s2 = g.scan_at(cx, cy + gs - 1, self_index, pos, positions, w);
        let s3 = g.scan_at(cx + 1, cy + gs - 1, self_index, pos, positions, w);
        let s4 = g.scan_at(cx + gs - 1, cy, self_index, pos, positions, w);
        let s5 = g.scan_at(cx + 1, cy, self_index, pos, positions, w);
        let s6 = g.scan_at(cx + gs - 1, cy + 1, self_index, pos, positions, w);
        let s7 = g.scan_at(cx, cy + 1, self_index, pos, positions, w);
        let s8 = g.scan_at(cx + 1, cy + 1, self_index, pos, positions, w);
        lemma_add_valid(ce, s1, self_index, pos, positions, w);
        lemma_add_valid(ce + s1, s2, self_index, pos, positions, w);
        lemma_add_valid(ce + s1 + s2, s3, self_index, pos, positions, w);
        lemma_add_valid(ce + s1 + s2 + s3, s4, self_index, pos, positions, w);
        lemma_add_valid(ce + s1 + s2 + s3 + s4, s5, self_index, pos, positions, w);
        lemma_add_valid(ce + s1 + s2 + s3 + s4 + s5, s6, self_index, pos, positions, w);
        lemma_add_valid(ce + s1 + s2 + s3 + s4 + s5 + s6, s7, self_index, pos, positions, w);
        lemma_add_valid(ce + s1 + s2 + s3 + s4 + s5 + s6 + s7, s8, self_index, pos, positions, w);
    }
}

/// A truncated quotient shrinks with its numerator's bound: if
/// `|a| <= m * b` then `|a / b| <= m`.
pub proof fn lemma_tdiv_bound(a: int, b: int, m: int)
    requires
        b > 0,
        m >= 0,
        -(m * b) <= a <= m * b,
    ensures
        -m <= spec_tdiv(a, b) <= m,
{
    vstd::arithmetic::mul::lemma_mul_is_commutative(m, b);
    if a >= 0 {
        vstd::arithmetic::div_mod::lemma_div_pos_is_pos(a, b);
        vstd::arithmetic::div_mod::lemma_div_is_ordered(a, m * b, b);
        vstd::arithmetic::div_mod::lemma_div_multiples_vanish(m, b);
    } else {
        vstd::arithmetic::div_mod::lemma_div_pos_is_pos(-a, b);
        vstd::arithmetic::div_mod::lemma_div_is_ordered(-a, m * b, b);
        vstd::arithmetic::div_mod::lemma_div_multiples_vanish(m, b);
    }
}

/// Steering from an accumulated direction.
fn steer_toward(avg: Vec2i, vel: Vec2i, ms: i64, mf: i64) -> (r: Vec2i)
    requires
        avg.in_box(COORD_LIMIT as int),
        vel.in_box(SPEED_LIMIT as int),
        0 < ms <= SPEED_LIMIT,
        0 <= mf <= FORCE_LIMIT,
    ensures
        r == spec_steer(avg, vel, ms as int, mf as int),
        r.mag_sq() <= mf * mf,
        r.in_box(mf as int),
{
    let msq = avg.magnitude_squared();
    if msq == 0 {
        Vec2i { x: 0, y: 0 }
    } else {
        let desired = scale_to_magnitude(avg, ms);
        let steer = Vec2i { x: desired.x - vel.x, y: desired.y - vel.y };
        limit_magnitude(steer, mf)
    }
}

/// The combined steering force of one agent, evaluated against the frozen
/// position and velocity snapshot through the spatial grid.
pub fn compute_agent_force(
    i: usize,
    grid: &SpatialGrid,
    positions: &Vec<Vec2i>,
    velocities: &Vec<Vec2i>,
    max_speed: i64,
    max_force: i64,
    params: &SimulationParams,
) -> (r: Vec2i)
    requires
        grid.inv(),
        params.valid(),
        i < positions@.len(),
        positions@.len() == velocities@.len(),
        positions@.len() <= MAX_AGENTS,
        forall|j: int|
            0 <= j < positions@.len() ==> (#[trigger] positions@[j]).in_box(
                params.world_size as int / 2),
        forall|j: int|
            0 <= j < velocities@.len() ==> (#[trigger] velocities@[j]).in_box(SPEED_LIMIT as int),
        0 < max_speed <= SPEED_LIMIT,
        0 <= max_force <= FORCE_LIMIT,
    ensures
        r == spec_agent_force(i as int, *grid, positions@, velocities@, max_speed as int,
            max_force as int, *params),
        r.in_box(ACCEL_LIMIT as int),
{
    let w = params.world_size;
    let neighbors = grid.get_nearby_with_distances(i, positions[i], positions, w);
    proof {
        lemma_query_valid(*grid, i as int, positions@[i as int], positions@, w as int);
    }
    let acc = accumulate_neighbors(&neighbors, positions[i], positions, velocities, params);
    let vel = velocities[i];
    let sep = average_steer(acc.sep_x, acc.sep_y, acc.sep_count, vel, max_speed, max_force);
    let ali = average_steer(acc.ali_x, acc.ali_y, acc.ali_count, vel, max_speed, max_force);
    let coh = cohesion_steer(acc.coh_x, acc.coh_y, acc.coh_count, positions[i], vel, max_speed,
        max_force);
    combine_forces(sep, ali, coh, params.separation_weight, params.alignment_weight,
        params.cohesion_weight)
}

/// One pass over the neighbor list, classifying each entry into the three
/// rules.
fn accumulate_neighbors(
    neighbors: &Vec<NeighborEntry>,
    self_pos: Vec2i,
    positions: &Vec<Vec2i>,
    velocities: &Vec<Vec2i>,
    params: &SimulationParams,
) -> (r: ForceAccum)
    requires
        params.valid(),
        neighbors@.len() <= 9 * MAX_AGENTS,
        positions@.len() == velocities@.len(),
        self_pos.in_box(params.world_size as int / 2),
        forall|j: int|
            0 <= j < positions@.len() ==> (#[trigger] positions@[j]).in_box(
                params.world_size as int / 2),
        forall|j: int|
            0 <= j < velocities@.len() ==> (#[trigger] velocities@[j]).in_box(SPEED_LIMIT as int),
        forall|m: int|
            0 <= m < neighbors@.len() ==> (#[trigger] neighbors@[m]).index < positions@.len()
                && neighbors@[m].distance_squared == spec_wrapped_distance_sq(self_pos,
                positions@[neighbors@[m].index as int], params.world_size as int) as i64,
    ensures
        ({
            let a = spec_accumulate(neighbors@, neighbors@.len() as int, self_pos, positions@,
                velocities@, params.separation_radius * params.separation_radius,
                params.alignment_radius * params.alignment_radius,
                params.cohesion_radius * params.cohesion_radius, params.world_size as int);
            &&& r.sep_x == a.sep_x && r.sep_y == a.sep_y && r.sep_count == a.sep_count
            &&& r.ali_x == a.ali_x && r.ali_y == a.ali_y && r.ali_count == a.ali_count
            &&& r.coh_x == a.coh_x && r.coh_y == a.coh_y && r.coh_count == a.coh_count
            &&& 0 <= a.sep_count <= neighbors@.len() && 0 <= a.ali_count <= neighbors@.len()
                && 0 <= a.coh_count <= neighbors@.len()
            &&& -(a.sep_count * ACC_SCALE) <= a.sep_x <= a.sep_count * ACC_SCALE
            &&& -(a.sep_count * ACC_SCALE) <= a.sep_y <= a.sep_count * ACC_SCALE
            &&& -(a.ali_count * SPEED_LIMIT) <= a.ali_x <= a.ali_count * SPEED_LIMIT
            &&& -(a.ali_count * SPEED_LIMIT) <= a.ali_y <= a.ali_count * SPEED_LIMIT
            &&& -(a.coh_count * TARGET_SPAN) <= a.coh_x <= a.coh_count * TARGET_SPAN
            &&& -(a.coh_count * TARGET_SPAN) <= a.coh_y <= a.coh_count * TARGET_SPAN
        }),
{
    let w = params.world_size;
    let sep_r_sq = square_radius(params.separation_radius);
    let ali_r_sq = square_radius(params.alignment_radius);
    let coh_r_sq = square_radius(params.cohesion_radius);
    let mut acc = ForceAccum {
        sep_x: 0,
        sep_y: 0,
        sep_count: 0,
        ali_x: 0,
        ali_y: 0,
        ali_count: 0,
        coh_x: 0,
        coh_y: 0,
        coh_count: 0,
    };
    let n = neighbors.len();
    let mut k: usize = 0;
    while k < n
        invariant
            k <= n,
            n == neighbors@.len(),
            n <= 9 * MAX_AGENTS,
            params.valid(),
            sep_r_sq == params.separation_radius * params.separation_radius,
            ali_r_sq == params.alignment_radius * params.alignment_radius,
            coh_r_sq == params.cohesion_radius * params.cohesion_radius,
            w == params.world_size,
            positions@.len() == velocities@.len(),
            self_pos.in_box(params.world_size as int / 2),
            forall|j: int|
                0 <= j < positions@.len() ==> (#[trigger] positions@[j]).in_box(
                    params.world_size as int / 2),
            forall|j: int|
                0 <= j < velocities@.len() ==> (#[trigger] velocities@[j]).in_box(
                    SPEED_LIMIT as int),
            forall|m: int|
                0 <= m < neighbors@.len() ==> (#[trigger] neighbors@[m]).index < positions@.len()
                    && neighbors@[m].distance_squared == spec_wrapped_distance_sq(self_pos,
                    positions@[neighbors@[m].index as int], params.world_size as int) as i64,
            ({
                let a = spec_accumulate(neighbors@, k as int, self_pos, positions@, velocities@,
                    sep_r_sq as int, ali_r_sq as int, coh_r_sq as int, w as int);
                &&& acc.sep_x == a.sep_x && acc.sep_y == a.sep_y && acc.sep_count == a.sep_count
                &&& acc.ali_x == a.ali_x && acc.ali_y == a.ali_y && acc.ali_count == a.ali_count
                &&& acc.coh_x == a.coh_x && acc.coh_y == a.coh_y && acc.coh_count == a.coh_count
                &&& 0 <= a.sep_count <= k && 0 <= a.ali_count <= k && 0 <= a.coh_count <= k
                &&& -(a.sep_count * ACC_SCALE) <= a.sep_x <= a.sep_count * ACC_SCALE
                &&& -(a.sep_count * ACC_SCALE) <= a.sep_y <= a.sep_count * ACC_SCALE
                &&& -(a.ali_count * SPEED_LIMIT) <= a.ali_x <= a.ali_count * SPEED_LIMIT
                &&& -(a.ali_count * SPEED_LIMIT) <= a.ali_y <= a.ali_count * SPEED_LIMIT
                &&& -(a.coh_count * TARGET_SPAN) <= a.coh_x <= a.coh_count * TARGET_SPAN
                &&& -(a.coh_count * TARGET_SPAN) <= a.coh_y <= a.coh_count * TARGET_SPAN
            }),
        decreases n - k,
    {
        let e = neighbors[k];
        let d_sq = e.distance_squared;
        let other_pos = positions[e.index];
        if d_sq < sep_r_sq && d_sq > 0 {
            let wdx = wrap_delta(self_pos.x, other_pos.x, w);
            let wdy = wrap_delta(self_pos.y, other_pos.y, w);
            proof {
                lemma_square_range(wdx as int, w / 2 + 1);
                lemma_square_range(wdy as int, w / 2 + 1);
                lemma_square_range(w / 2 + 1, 50_000_001);
                assert(d_sq as int == wdx * wdx + wdy * wdy);
                crate::math::lemma_inverse_weight_bound(wdx as int, ACC_SCALE as int, d_sq as int);
                crate::math::lemma_inverse_weight_bound(wdy as int, ACC_SCALE as int, d_sq as int);
                lemma_mul_bounds(wdx as int, 50_000_001, ACC_SCALE as int, ACC_SCALE as int);
                lemma_mul_bounds(wdy as int, 50_000_001, ACC_SCALE as int, ACC_SCALE as int);
            }
            acc.sep_x = acc.sep_x + tdiv(wdx * ACC_SCALE, d_sq);
            acc.sep_y = acc.sep_y + tdiv(wdy * ACC_SCALE, d_sq);
            acc.sep_count = acc.sep_count + 1;
        }
        if d_sq < ali_r_sq {
            let other_vel = velocities[e.index];
            acc.ali_x = acc.ali_x + other_vel.x;
            acc.ali_y = acc.ali_y + other_vel.y;
            acc.ali_count = acc.ali_count + 1;
        }
        if d_sq < coh_r_sq {
            let target = wrap_target(self_pos, other_pos, w);
            acc.coh_x = acc.coh_x + target.x;
            acc.coh_y = acc.coh_y + target.y;
            acc.coh_count = acc.coh_count + 1;
        }
        k = k + 1;
    }
    acc
}

/// A perception radius squared, in range by the parameter bounds.
fn square_radius(r: i64) -> (rsq: i64)
    requires
        0 < r <= RADIUS_LIMIT,
    ensures
        rsq == r * r,
{
    proof {
        lemma_square_range(r as int, RADIUS_LIMIT as int);
    }
    r * r
}

/// The average of a rule sum, steered toward.
#[verifier::rlimit(50)]
pub(crate) fn average_steer(acc_x: i64, acc_y: i64, count: i64, vel: Vec2i, ms: i64, mf: i64) -> (r: Vec2i)
    requires
        0 <= count <= 9 * MAX_AGENTS,
        -(count * ACC_SCALE * 100) <= acc_x <= count * ACC_SCALE * 100,
        -(count * ACC_SCALE * 100) <= acc_y <= count * ACC_SCALE * 100,
        vel.in_box(SPEED_LIMIT as int),
        0 < ms <= SPEED_LIMIT,
        0 <= mf <= FORCE_LIMIT,
    ensures
        r == spec_average_steer(acc_x as int, acc_y as int, count as int, vel, ms as int,
            mf as int),
        r.in_box(mf as int),
{
    if count <= 0 {
        proof {
            lemma_square_range(mf as int, FORCE_LIMIT as int);
        }
        Vec2i { x: 0, y: 0 }
    } else {
        proof {
            lemma_square_range(mf as int, FORCE_LIMIT as int);
            lemma_tdiv_bound(acc_x as int, count as int, ACC_SCALE as int * 100);
            lemma_tdiv_bound(acc_y as int, count as int, ACC_SCALE as int * 100);
        }
        let ax = tdiv(acc_x, count);
        let ay = tdiv(acc_y, count);
        steer_toward(Vec2i { x: ax, y: ay }, vel, ms, mf)
    }
}

/// The average target point of the cohesion sum, steered toward.
#[verifier::rlimit(50)]
pub(crate) fn cohesion_steer(
    acc_x: i64,
    acc_y: i64,
    count: i64,
    self_pos: Vec2i,
    vel: Vec2i,
    ms: i64,
    mf: i64,
) -> (r: Vec2i)
    requires
        0 <= count <= 9 * MAX_AGENTS,
        -(count * TARGET_SPAN) <= acc_x <= count * TARGET_SPAN,
        -(count * TARGET_SPAN) <= acc_y <= count * TARGET_SPAN,
        self_pos.in_box(crate::MAX_WORLD as int),
        vel.in_box(SPEED_LIMIT as int),
        0 < ms <= SPEED_LIMIT,
        0 <= mf <= FORCE_LIMIT,
    ensures
        r == spec_cohesion_steer(acc_x as int, acc_y as int, count as int, self_pos, vel,
            ms as int, mf as int),
        r.in_box(mf as int),
{
    if count <= 0 {
        proof {
            lemma_square_range(mf as int, FORCE_LIMIT as int);
        }
        Vec2i { x: 0, y: 0 }
    } else {
        proof {
            lemma_square_range(mf as int, FORCE_LIMIT as int);
            lemma_tdiv_bound(acc_x as int, count as int, TARGET_SPAN as int);
            lemma_tdiv_bound(acc_y as int, count as int, TARGET_SPAN as int);
        }
        let tx = tdiv(acc_x, count);
        let ty = tdiv(acc_y, count);
        steer_toward(Vec2i { x: tx - self_pos.x, y: ty - self_pos.y }, vel, ms, mf)
    }
}

/// The weighted sum of the three rule forces.
pub(crate) fn combine_forces(sep: Vec2i, ali: Vec2i, coh: Vec2i, ws: i64, wa: i64, wc: i64) -> (r: Vec2i)
    requires
        sep.in_box(FORCE_LIMIT as int),
        ali.in_box(FORCE_LIMIT as int),
        coh.in_box(FORCE_LIMIT as int),
        0 <= ws <= WEIGHT_LIMIT,
        0 <= wa <= WEIGHT_LIMIT,
        0 <= wc <= WEIGHT_LIMIT,
    ensures
        r == spec_combine(sep, ali, coh, ws as int, wa as int, wc as int),
        r.in_box(ACCEL_LIMIT as int),
{
    proof {
        lemma_mul_bounds(sep.x as int, FORCE_LIMIT as int, ws as int, WEIGHT_LIMIT as int);
        lemma_mul_bounds(sep.y as int, FORCE_LIMIT as int, ws as int, WEIGHT_LIMIT as int);
        lemma_mul_bounds(ali.x as int, FORCE_LIMIT as int, wa as int, WEIGHT_LIMIT as int);
        lemma_mul_bounds(ali.y as int, FORCE_LIMIT as int, wa as int, WEIGHT_LIMIT as int);
        lemma_mul_bounds(coh.x as int, FORCE_LIMIT as int, wc as int, WEIGHT_LIMIT as int);
        lemma_mul_bounds(coh.y as int, FORCE_LIMIT as int, wc as int, WEIGHT_LIMIT as int);
        lemma_tdiv_bound(sep.x as int * ws + ali.x as int * wa + coh.x as int * wc, 1000,
            ACCEL_LIMIT as int);
        lemma_tdiv_bound(sep.y as int * ws + ali.y as int * wa + coh.y as int * wc, 1000,
            ACCEL_LIMIT as int);
    }
    let x = tdiv(sep.x * ws + ali.x * wa + coh.x * wc, 1000);
    let y = tdiv(sep.y * ws + ali.y * wa + coh.y * wc, 1000);
    Vec2i { x, y }
}

} // verus!
