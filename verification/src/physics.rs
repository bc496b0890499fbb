//! The two-phase tick: rebuild the spatial grid from the frozen positions,
//! evaluate every agent's steering force against that snapshot (phase one,
//! read-only and therefore safe to split across workers), then integrate
//! and wrap every agent in its own slot (phase two).
//!
//! Phase one writes each force into an agent-indexed slot, never appends,
//! so neither the processing order nor the chunking can change the result:
//! the sequential, chunked and parallel drivers all satisfy the same exact
//! contract, and `lemma_phase1_deterministic` states that any two force
//! buffers meeting it are equal.

use vstd::prelude::*;
use rayon::iter::IndexedParallelIterator;
use rayon::iter::IntoParallelIterator;
use rayon::iter::ParallelIterator;
use crate::boid::{spec_wrap_axis, Boid, ACCEL_LIMIT};
use crate::forces::{compute_agent_force, spec_agent_force};
use crate::params::{SimulationParams, MAX_AGENTS};
use crate::spatial_grid::{spec_cell_index, SpatialGrid, MAX_GRID};
use crate::vec2::{spec_limit, Vec2i};

verus! {

/// Cell-size drift past which the grid is rebuilt from scratch, in
/// milli-units (five world units).
pub const CELL_SIZE_TOLERANCE: i64 = 5_000;

/// The position snapshot of a flock.
pub open spec fn positions_of(boids: Seq<Boid>) -> Seq<Vec2i> {
    Seq::new(boids.len(), |i: int| boids[i].position)
}

/// The velocity snapshot of a flock.
pub open spec fn velocities_of(boids: Seq<Boid>) -> Seq<Vec2i> {
    Seq::new(boids.len(), |i: int| boids[i].velocity)
}

/// The buckets of a grid rebuilt from scratch: every index below `k`
/// inserted, in order, into the cell of its position.
pub open spec fn spec_rebuild(positions: Seq<Vec2i>, k: int, w: int, cs: int, gs: int) -> Seq<
    Seq<usize>,
>
    decreases k,
{
    if k <= 0 {
        Seq::new((gs * gs) as nat, |c: int| Seq::<usize>::empty())
    } else {
        let g = spec_rebuild(positions, k - 1, w, cs, gs);
        let c = spec_cell_index(positions[k - 1], w, cs, gs);
        g.update(c, g[c].push((k - 1) as usize))
    }
}

/// The average population of an occupied cell, zero when none is occupied.
pub open spec fn spec_avg_of(buckets: Seq<Seq<usize>>) -> int {
    let total_cells = buckets.len() as int;
    let occupied = total_cells - crate::spatial_grid::count_empty_to(buckets, total_cells);
    if occupied > 0 {
        crate::spatial_grid::total_count_to(buckets, total_cells) / occupied
    } else {
        0
    }
}

/// One agent's whole tick: previous state stored, the force folded into
/// the acceleration, the velocity advanced and clamped to the maximum
/// speed, the position advanced and wrapped at the world edges with the
/// previous position mirrored across the seam, and the acceleration
/// cleared.
pub open spec fn spec_boid_tick(b: Boid, f: Vec2i, w: int) -> Boid {
    let accel = Vec2i {
        x: (b.acceleration.x + f.x) as i64,
        y: (b.acceleration.y + f.y) as i64,
    };
    let v1 = Vec2i { x: (b.velocity.x + accel.x) as i64, y: (b.velocity.y + accel.y) as i64 };
    let v2 = spec_limit(v1, b.max_speed as int);
    let p1 = Vec2i { x: (b.position.x + v2.x) as i64, y: (b.position.y + v2.y) as i64 };
    let p2 = Vec2i {
        x: spec_wrap_axis(p1.x as int, w) as i64,
        y: spec_wrap_axis(p1.y as int, w) as i64,
    };
    Boid {
        position: p2,
        velocity: v2,
        acceleration: Vec2i { x: 0, y: 0 },
        prev_position: Vec2i {
            x: (b.position.x + (p2.x - p1.x)) as i64,
            y: (b.position.y + (p2.y - p1.y)) as i64,
        },
        prev_velocity: b.velocity,
        max_speed: b.max_speed,
        max_force: b.max_force,
    }
}

/// What phase one promises of a force buffer: one slot per agent, each
/// holding exactly that agent's steering force against the frozen
/// snapshot.
pub open spec fn phase1_post(
    r: Seq<Vec2i>,
    grid: SpatialGrid,
    boids: Seq<Boid>,
    params: SimulationParams,
) -> bool {
    &&& r.len() == boids.len()
    &&& forall|i: int|
        0 <= i < boids.len() ==> #[trigger] r[i] == spec_agent_force(i, grid, positions_of(boids),
            velocities_of(boids), boids[i].max_speed as int, boids[i].max_force as int, params)
    &&& forall|i: int| 0 <= i < boids.len() ==> (#[trigger] r[i]).in_box(ACCEL_LIMIT as int)
}

/// What every agent of a well-formed flock satisfies between ticks.
pub open spec fn flock_wf(boids: Seq<Boid>, w: int) -> bool {
    forall|i: int|
        0 <= i < boids.len() ==> (#[trigger] boids[i]).wf(w) && boids[i].acceleration.x == 0
            && boids[i].acceleration.y == 0
}

/// Determinism of phase one: any two force buffers that satisfy its
/// contract against the same frozen snapshot are equal, slot for slot —
/// processing order, chunk boundaries and worker count cannot show in the
/// result.
pub proof fn lemma_phase1_deterministic(
    r1: Seq<Vec2i>,
    r2: Seq<Vec2i>,
    grid: SpatialGrid,
    boids: Seq<Boid>,
    params: SimulationParams,
)
    requires
        phase1_post(r1, grid, boids, params),
        phase1_post(r2, grid, boids, params),
    ensures
        r1 == r2,
{
    assert(r1 =~= r2);
}

/// Copy out the frozen position snapshot for the tick.
pub(crate) fn extract_positions(boids: &Vec<Boid>) -> (r: Vec<Vec2i>)
    ensures
        r@ == positions_of(boids@),
{
    let n = boids.len();
    let mut r: Vec<Vec2i> = Vec::new();
    let mut i: usize = 0;
    while i < n
        invariant
            i <= n,
            n == boids@.len(),
            r@.len() == i,
            forall|j: int| 0 <= j < i ==> #[trigger] r@[j] == boids@[j].position,
        decreases n - i,
    {
        r.push(boids[i].position);
        i = i + 1;
    }
    proof {
        assert(r@ =~= positions_of(boids@));
    }
    r
}

/// Copy out the frozen velocity snapshot for the tick.
pub(crate) fn extract_velocities(boids: &Vec<Boid>) -> (r: Vec<Vec2i>)
    ensures
        r@ == velocities_of(boids@),
{
    let n = boids.len();
    let mut r: Vec<Vec2i> = Vec::new();
    let mut i: usize = 0;
    while i < n
        invariant
            i <= n,
            n == boids@.len(),
            r@.len() == i,
            forall|j: int| 0 <= j < i ==> #[trigger] r@[j] == boids@[j].velocity,
        decreases n - i,
    {
        r.push(boids[i].velocity);
        i = i + 1;
    }
    proof {
        assert(r@ =~= velocities_of(boids@));
    }
    r
}

/// Empty the grid and reinsert every agent at its frozen position, then
/// refresh the occupancy statistics. This is the tick's synchronization
/// barrier: no query runs against a partially rebuilt grid.
pub fn rebuild_grid(grid: &mut SpatialGrid, positions: &Vec<Vec2i>, world_size: i64)
    requires
        old(grid).inv(),
        0 < world_size <= crate::MAX_WORLD,
        positions@.len() <= MAX_AGENTS,
        forall|j: int|
            0 <= j < positions@.len() ==> (#[trigger] positions@[j]).in_box(
                world_size as int / 2),
    ensures
        final(grid).inv(),
        final(grid).cell_size == old(grid).cell_size,
        final(grid).grid_size == old(grid).grid_size,
        final(grid).buckets() == spec_rebuild(positions@, positions@.len() as int,
            world_size as int, old(grid).cell_size as int, old(grid).grid_size as int),
        final(grid).avg_cell_population == spec_avg_of(final(grid).buckets()),
        final(grid).population() == positions@.len(),
{
    grid.clear();
    proof {
        assert(grid.buckets() =~~= spec_rebuild(positions@, 0, world_size as int,
            grid.cell_size as int, grid.grid_size as int));
    }
    let n = positions.len();
    let mut i: usize = 0;
    while i < n
        invariant
            i <= n,
            n == positions@.len(),
            n <= MAX_AGENTS,
            grid.inv(),
            0 < world_size <= crate::MAX_WORLD,
            grid.cell_size == old(grid).cell_size,
            grid.grid_size == old(grid).grid_size,
            grid.buckets() == spec_rebuild(positions@, i as int, world_size as int,
                grid.cell_size as int, grid.grid_size as int),
            grid.population() == i,
            forall|j: int|
                0 <= j < positions@.len() ==> (#[trigger] positions@[j]).in_box(
                    world_size as int / 2),
        decreases n - i,
    {
        grid.insert(i, positions[i], world_size);
        i = i + 1;
    }
    grid.update_statistics();
}

/// Phase one, sequential: evaluate every agent's force against the frozen
/// snapshot, into its own slot.
pub fn phase1_sequential(
    grid: &SpatialGrid,
    boids: &Vec<Boid>,
    positions: &Vec<Vec2i>,
    velocities: &Vec<Vec2i>,
    params: &SimulationParams,
) -> (r: Vec<Vec2i>)
    requires
        grid.inv(),
        params.valid(),
        positions@ == positions_of(boids@),
        velocities@ == velocities_of(boids@),
        boids@.len() <= MAX_AGENTS,
        flock_wf(boids@, params.world_size as int),
    ensures
        phase1_post(r@, *grid, boids@, *params),
{
    let n = boids.len();
    let mut r: Vec<Vec2i> = Vec::new();
    let mut i: usize = 0;
    while i < n
        invariant
            i <= n,
            n == boids@.len(),
            n <= MAX_AGENTS,
            grid.inv(),
            params.valid(),
            positions@ == positions_of(boids@),
            velocities@ == velocities_of(boids@),
            flock_wf(boids@, params.world_size as int),
            r@.len() == i,
            forall|j: int|
                0 <= j < i ==> #[trigger] r@[j] == spec_agent_force(j, *grid,
                    positions_of(boids@), velocities_of(boids@), boids@[j].max_speed as int,
                    boids@[j].max_force as int, *params),
            forall|j: int| 0 <= j < i ==> (#[trigger] r@[j]).in_box(ACCEL_LIMIT as int),
        decreases n - i,
    {
        let f = compute_agent_force(i, grid, positions, velocities, boids[i].max_speed,
            boids[i].max_force, params);
        r.push(f);
        i = i + 1;
    }
    r
}

/// Phase one, split into contiguous chunks of at most `chunk_size` agents,
/// the way a worker pool would carve it: the contract is the same as the
/// sequential driver's, so the chunking cannot change the result.
pub fn phase1_chunked(
    grid: &SpatialGrid,
    boids: &Vec<Boid>,
    positions: &Vec<Vec2i>,
    velocities: &Vec<Vec2i>,
    params: &SimulationParams,
    chunk_size: usize,
) -> (r: Vec<Vec2i>)
    requires
        grid.inv(),
        params.valid(),
        positions@ == positions_of(boids@),
        velocities@ == velocities_of(boids@),
        boids@.len() <= MAX_AGENTS,
        flock_wf(boids@, params.world_size as int),
        chunk_size >= 1,
    ensures
        phase1_post(r@, *grid, boids@, *params),
{
    let n = boids.len();
    let mut r: Vec<Vec2i> = Vec::new();
    let mut start: usize = 0;
    while start < n
        invariant
            start <= n,
            n == boids@.len(),
            n <= MAX_AGENTS,
            grid.inv(),
            params.valid(),
            positions@ == positions_of(boids@),
            velocities@ == velocities_of(boids@),
            flock_wf(boids@, params.world_size as int),
            chunk_size >= 1,
            r@.len() == start,
            forall|j: int|
                0 <= j < start ==> #[trigger] r@[j] == spec_agent_force(j, *grid,
                    positions_of(boids@), velocities_of(boids@), boids@[j].max_speed as int,
                    boids@[j].max_force as int, *params),
            forall|j: int| 0 <= j < start ==> (#[trigger] r@[j]).in_box(ACCEL_LIMIT as int),
        decreases n - start,
    {
        let chunk_end = if n - start < chunk_size {
            n
        } else {
            start + chunk_size
        };
        let mut i: usize = start;
        while i < chunk_end
            invariant
                start <= i <= chunk_end <= n,
                n == boids@.len(),
                n <= MAX_AGENTS,
                grid.inv(),
                params.valid(),
                positions@ == positions_of(boids@),
                velocities@ == velocities_of(boids@),
                flock_wf(boids@, params.world_size as int),
                r@.len() == i,
                forall|j: int|
                    0 <= j < i ==> #[trigger] r@[j] == spec_agent_force(j, *grid,
                        positions_of(boids@), velocities_of(boids@), boids@[j].max_speed as int,
                        boids@[j].max_force as int, *params),
                forall|j: int| 0 <= j < i ==> (#[trigger] r@[j]).in_box(ACCEL_LIMIT as int),
            decreases chunk_end - i,
        {
            let f = compute_agent_force(i, grid, positions, velocities, boids[i].max_speed,
                boids[i].max_force, params);
            r.push(f);
            i = i + 1;
        }
        start = chunk_end;
    }
    r
}

/// Phase one fanned out over a worker pool.
///
/// Relies on rayon's indexed parallel iterators: `into_par_iter` over a
/// range splits the indices across workers, `map` applies the closure to
/// each index, and `collect_into_vec` assembles the images in index
/// order, so the buffer equals the sequential evaluation slot for slot.
/// The closure only calls the verified per-agent evaluator.
#[verifier::external_body]
pub fn phase1_parallel(
    grid: &SpatialGrid,
    boids: &Vec<Boid>,
    positions: &Vec<Vec2i>,
    velocities: &Vec<Vec2i>,
    params: &SimulationParams,
) -> (r: Vec<Vec2i>)
    requires
        grid.inv(),
        params.valid(),
        positions@ == positions_of(boids@),
        velocities@ == velocities_of(boids@),
        boids@.len() <= MAX_AGENTS,
        flock_wf(boids@, params.world_size as int),
    ensures
        phase1_post(r@, *grid, boids@, *params),
{
    let mut r = Vec::new();
    (0..boids.len())
        .into_par_iter()
        .map(|i| {
            compute_agent_force(i, grid, positions, velocities, boids[i].max_speed,
                boids[i].max_force, params)
        })
        .collect_into_vec(&mut r);
    r
}

/// Phase two: apply each agent's stored force, integrate, and wrap. Each
/// agent reads and writes only its own slot.
pub fn phase2_apply(boids: &mut Vec<Boid>, forces: &Vec<Vec2i>, world_size: i64)
    requires
        0 < world_size <= crate::MAX_WORLD,
        forces@.len() == old(boids)@.len(),
        flock_wf(old(boids)@, world_size as int),
        forall|i: int|
            0 <= i < forces@.len() ==> (#[trigger] forces@[i]).in_box(ACCEL_LIMIT as int),
    ensures
        final(boids)@.len() == old(boids)@.len(),
        forall|i: int|
            0 <= i < old(boids)@.len() ==> #[trigger] final(boids)@[i] == spec_boid_tick(
                old(boids)@[i], forces@[i], world_size as int),
        flock_wf(final(boids)@, world_size as int),
        forall|i: int|
            0 <= i < final(boids)@.len() ==> (#[trigger] final(boids)@[i]).velocity.mag_sq()
                <= final(boids)@[i].max_speed * final(boids)@[i].max_speed,
        forall|i: int|
            0 <= i < final(boids)@.len() ==> (#[trigger] final(boids)@[i]).position.in_box(
                world_size as int / 2),
{
    let n = boids.len();
    let mut i: usize = 0;
    while i < n
        invariant
            i <= n,
            n == boids@.len(),
            n == old(boids)@.len(),
            n == forces@.len(),
            0 < world_size <= crate::MAX_WORLD,
            flock_wf(old(boids)@, world_size as int),
            forall|j: int|
                0 <= j < forces@.len() ==> (#[trigger] forces@[j]).in_box(ACCEL_LIMIT as int),
            forall|j: int| i <= j < n ==> #[trigger] boids@[j] == old(boids)@[j],
            forall|j: int|
                0 <= j < i ==> #[trigger] boids@[j] == spec_boid_tick(old(boids)@[j], forces@[j],
                    world_size as int),
            forall|j: int|
                0 <= j < i ==> (#[trigger] boids@[j]).wf(world_size as int)
                    && boids@[j].acceleration.x == 0 && boids@[j].acceleration.y == 0
                    && boids@[j].velocity.mag_sq() <= boids@[j].max_speed * boids@[j].max_speed
                    && boids@[j].position.in_box(world_size as int / 2),
        decreases n - i,
    {
        let mut b = boids[i];
        b.store_previous_state();
        b.apply_force(forces[i]);
        b.update();
        b.wrap_edges(world_size);
        boids[i] = b;
        i = i + 1;
    }
}


/// The cell size the current parameters call for: the largest perception
/// radius scaled by the cell-size factor, floored so that the grid side
/// stays within `MAX_GRID`.
pub open spec fn spec_required_cell_size(params: SimulationParams) -> int {
    let mr1 = if params.separation_radius > params.alignment_radius {
        params.separation_radius as int
    } else {
        params.alignment_radius as int
    };
    let mr = if mr1 > params.cohesion_radius {
        mr1
    } else {
        params.cohesion_radius as int
    };
    let raw = mr * params.cell_size_factor / 1000;
    let floor_cs = (params.world_size + MAX_GRID - 1) / (MAX_GRID as int);
    if raw > floor_cs {
        raw
    } else {
        floor_cs
    }
}

/// A ceiling quotient is bounded once the divisor clears the matching
/// floor: with `cs >= ceil(w / mg)`, `ceil(w / cs) <= mg`.
pub proof fn lemma_ceil_div_bounded(w: int, cs: int, mg: int)
    requires
        w >= 1,
        mg >= 1,
        cs >= 1,
        cs >= (w + mg - 1) / mg,
    ensures
        (w + cs - 1) / cs <= mg,
{
    let mc = (w + mg - 1) / mg;
    vstd::arithmetic::div_mod::lemma_fundamental_div_mod(w + mg - 1, mg);
    vstd::arithmetic::div_mod::lemma_mod_bound(w + mg - 1, mg);
    assert(mg * mc >= w);
    let q = (w + cs - 1) / cs;
    vstd::arithmetic::div_mod::lemma_fundamental_div_mod(w + cs - 1, cs);
    vstd::arithmetic::div_mod::lemma_mod_bound(w + cs - 1, cs);
    if q >= mg + 1 {
        vstd::arithmetic::mul::lemma_mul_inequality(mg + 1, q, cs);
        assert((mg + 1) * cs <= q * cs);
        assert(cs * q >= mg * cs + cs) by (nonlinear_arith)
            requires
                (mg + 1) * cs <= q * cs,
        ;
        assert(w - 1 >= mg * cs);
        vstd::arithmetic::mul::lemma_mul_inequality(mc, cs, mg);
        assert(mc * mg <= cs * mg);
        assert(mg * cs >= mg * mc) by (nonlinear_arith)
            requires
                mc * mg <= cs * mg,
        ;
        assert(false);
    }
}

/// The cell size the current parameters call for.
pub fn compute_cell_size(params: &SimulationParams) -> (r: i64)
    requires
        params.valid(),
    ensures
        r == spec_required_cell_size(*params),
        1 <= r <= crate::MAX_WORLD,
        (params.world_size + r - 1) / (r as int) <= MAX_GRID,
{
    let mr1 = if params.separation_radius > params.alignment_radius {
        params.separation_radius
    } else {
        params.alignment_radius
    };
    let mr = if mr1 > params.cohesion_radius {
        mr1
    } else {
        params.cohesion_radius
    };
    proof {
        crate::vec2::lemma_mul_bounds(mr as int, crate::params::RADIUS_LIMIT as int,
            params.cell_size_factor as int, crate::params::FACTOR_LIMIT as int);
    }
    let raw = ((mr as u64 * params.cell_size_factor as u64) / 1000) as i64;
    let floor_cs = ((params.world_size as u64 + MAX_GRID as u64 - 1) / (MAX_GRID as u64)) as i64;
    proof {
        vstd::arithmetic::div_mod::lemma_div_pos_is_pos(mr * params.cell_size_factor, 1000);
        vstd::arithmetic::div_mod::lemma_div_is_ordered(mr * params.cell_size_factor,
            crate::params::RADIUS_LIMIT as int * crate::params::FACTOR_LIMIT as int, 1000);
        vstd::arithmetic::div_mod::lemma_fundamental_div_mod(
            params.world_size + MAX_GRID - 1, MAX_GRID as int);
        vstd::arithmetic::div_mod::lemma_div_is_ordered(params.world_size + MAX_GRID - 1,
            crate::MAX_WORLD + MAX_GRID - 1, MAX_GRID as int);
    }
    let r = if raw > floor_cs {
        raw
    } else {
        floor_cs
    };
    proof {
        lemma_ceil_div_bounded(params.world_size as int, r as int, MAX_GRID as int);
    }
    r
}

/// What a frame keeps fixed across any tick: the parameters, the clock,
/// the last interpolation alpha, and the population size.
pub open spec fn tick_frame_rel(m0: crate::sim::Model, m1: crate::sim::Model) -> bool {
    &&& m1.params == m0.params
    &&& m1.clock == m0.clock
    &&& m1.interpolation_alpha == m0.interpolation_alpha
    &&& m1.boids@.len() == m0.boids@.len()
}

/// Every agent ends a tick with its speed clamped to its maximum and its
/// position inside the world.
pub open spec fn tick_bounds_rel(m0: crate::sim::Model, m1: crate::sim::Model) -> bool {
    &&& forall|i: int|
        0 <= i < m1.boids@.len() ==> (#[trigger] m1.boids@[i]).velocity.mag_sq()
            <= m1.boids@[i].max_speed * m1.boids@[i].max_speed
    &&& forall|i: int|
        0 <= i < m1.boids@.len() ==> (#[trigger] m1.boids@[i]).position.in_box(
            m0.params.world_size as int / 2)
}

/// What one spatial-grid tick does, in full: the grid's cell size follows
/// the parameters once drift passes the tolerance, the grid holds exactly
/// the rebuilt buckets of the frozen positions, and every agent is the
/// tick image of its old self under its snapshot force.
pub open spec fn grid_tick_rel(m0: crate::sim::Model, m1: crate::sim::Model) -> bool {
    &&& tick_frame_rel(m0, m1)
    &&& ({
        let req = spec_required_cell_size(m0.params);
        let drifted = crate::vec2::abs(m0.spatial_grid.cell_size - req) > CELL_SIZE_TOLERANCE;
        let w = m0.params.world_size as int;
        &&& (drifted ==> m1.spatial_grid.cell_size == req && m1.spatial_grid.grid_size == (w + req
            - 1) / req)
        &&& (!drifted ==> m1.spatial_grid.cell_size == m0.spatial_grid.cell_size
            && m1.spatial_grid.grid_size == m0.spatial_grid.grid_size)
    })
    &&& m1.spatial_grid.buckets() == spec_rebuild(positions_of(m0.boids@), m0.boids@.len() as int,
        m0.params.world_size as int, m1.spatial_grid.cell_size as int,
        m1.spatial_grid.grid_size as int)
    &&& m1.spatial_grid.avg_cell_population == spec_avg_of(m1.spatial_grid.buckets())
    &&& forall|i: int|
        0 <= i < m0.boids@.len() ==> #[trigger] m1.boids@[i] == spec_boid_tick(m0.boids@[i],
            spec_agent_force(i, m1.spatial_grid, positions_of(m0.boids@), velocities_of(
            m0.boids@), m0.boids@[i].max_speed as int, m0.boids@[i].max_force as int, m0.params),
            m0.params.world_size as int)
    &&& tick_bounds_rel(m0, m1)
}

/// One full tick through the spatial grid: refresh the grid's cell size if
/// the parameters have drifted past the tolerance, rebuild it from the
/// frozen positions, evaluate every steering force against that snapshot
/// (in parallel when enabled — the contract is the same either way), and
/// integrate and wrap every agent.
pub fn update_boids_with_spatial_grid(model: &mut crate::sim::Model)
    requires
        old(model).inv(),
    ensures
        final(model).inv(),
        grid_tick_rel(*old(model), *final(model)),
{
    let required = compute_cell_size(&model.params);
    let current = model.spatial_grid.cell_size;
    let drift = if current > required {
        current - required
    } else {
        required - current
    };
    if drift > CELL_SIZE_TOLERANCE {
        model.spatial_grid = SpatialGrid::new(required, model.params.world_size);
    }
    let positions = extract_positions(&model.boids);
    let velocities = extract_velocities(&model.boids);
    rebuild_grid(&mut model.spatial_grid, &positions, model.params.world_size);
    let forces = if model.params.enable_parallel {
        phase1_parallel(&model.spatial_grid, &model.boids, &positions, &velocities, &model.params)
    } else {
        phase1_sequential(&model.spatial_grid, &model.boids, &positions, &velocities,
            &model.params)
    };
    phase2_apply(&mut model.boids, &forces, model.params.world_size);
}


/// The combined steering force of one agent evaluated against the whole
/// flock, without a spatial index.
pub open spec fn spec_brute_force(i: int, boids: Seq<Boid>, params: SimulationParams) -> Vec2i {
    let b = boids[i];
    let idxs = crate::boid::all_indices(boids.len() as int);
    let w = params.world_size as int;
    let sep_a = crate::boid::spec_sep_accum(boids, idxs, boids.len() as int, b.position,
        params.separation_radius * params.separation_radius, w);
    let ali_a = crate::boid::spec_ali_accum(boids, idxs, boids.len() as int, b.position,
        params.alignment_radius * params.alignment_radius, w);
    let coh_a = crate::boid::spec_coh_accum(boids, idxs, boids.len() as int, b.position,
        params.cohesion_radius * params.cohesion_radius, w);
    let sep = crate::forces::spec_average_steer(sep_a.0, sep_a.1, sep_a.2, b.velocity,
        b.max_speed as int, b.max_force as int);
    let ali = crate::forces::spec_average_steer(ali_a.0, ali_a.1, ali_a.2, b.velocity,
        b.max_speed as int, b.max_force as int);
    let coh = crate::forces::spec_cohesion_steer(coh_a.0, coh_a.1, coh_a.2, b.position,
        b.velocity, b.max_speed as int, b.max_force as int);
    crate::forces::spec_combine(sep, ali, coh, params.separation_weight as int,
        params.alignment_weight as int, params.cohesion_weight as int)
}

/// What one brute-force tick does: the grid is untouched, and every agent
/// is the tick image of its old self under its whole-flock force.
pub open spec fn brute_tick_rel(m0: crate::sim::Model, m1: crate::sim::Model) -> bool {
    &&& tick_frame_rel(m0, m1)
    &&& m1.spatial_grid == m0.spatial_grid
    &&& forall|i: int|
        0 <= i < m0.boids@.len() ==> #[trigger] m1.boids@[i] == spec_boid_tick(m0.boids@[i],
            spec_brute_force(i, m0.boids@, m0.params), m0.params.world_size as int)
    &&& tick_bounds_rel(m0, m1)
}

/// Copy the flock for use as this tick's frozen snapshot.
fn copy_boids(boids: &Vec<Boid>) -> (r: Vec<Boid>)
    ensures
        r@ == boids@,
{
    let n = boids.len();
    let mut r: Vec<Boid> = Vec::new();
    let mut i: usize = 0;
    while i < n
        invariant
            i <= n,
            n == boids@.len(),
            r@.len() == i,
            forall|j: int| 0 <= j < i ==> #[trigger] r@[j] == boids@[j],
        decreases n - i,
    {
        r.push(boids[i]);
        i = i + 1;
    }
    proof {
        assert(r@ =~= boids@);
    }
    r
}

/// One full tick against the whole flock, pairwise: every agent's three
/// rules are evaluated against a frozen copy of the flock, then each agent
/// integrates and wraps.
pub fn update_boids_without_spatial_grid(model: &mut crate::sim::Model)
    requires
        old(model).inv(),
    ensures
        final(model).inv(),
        brute_tick_rel(*old(model), *final(model)),
{
    let snapshot = copy_boids(&model.boids);
    let w = model.params.world_size;
    let n = model.boids.len();
    let mut i: usize = 0;
    while i < n
        invariant
            i <= n,
            n == model.boids@.len(),
            n == old(model).boids@.len(),
            snapshot@ == old(model).boids@,
            model.params == old(model).params,
            model.spatial_grid == old(model).spatial_grid,
            model.clock == old(model).clock,
            model.interpolation_alpha == old(model).interpolation_alpha,
            old(model).inv(),
            w == model.params.world_size,
            forall|j: int| i <= j < n ==> #[trigger] model.boids@[j] == old(model).boids@[j],
            forall|j: int|
                0 <= j < i ==> #[trigger] model.boids@[j] == spec_boid_tick(old(model).boids@[j],
                    spec_brute_force(j, old(model).boids@, old(model).params), w as int),
            forall|j: int|
                0 <= j < i ==> (#[trigger] model.boids@[j]).wf(w as int)
                    && model.boids@[j].acceleration.x == 0 && model.boids@[j].acceleration.y == 0
                    && model.boids@[j].velocity.mag_sq() <= model.boids@[j].max_speed
                    * model.boids@[j].max_speed && model.boids@[j].position.in_box(w as int / 2),
        decreases n - i,
    {
        let b = snapshot[i];
        let sep = b.separation_original(&snapshot, model.params.separation_radius, w);
        let ali = b.alignment_original(&snapshot, model.params.alignment_radius, w);
        let coh = b.cohesion_original(&snapshot, model.params.cohesion_radius, w);
        let f = crate::forces::combine_forces(sep, ali, coh, model.params.separation_weight,
            model.params.alignment_weight, model.params.cohesion_weight);
        let mut nb = model.boids[i];
        nb.store_previous_state();
        nb.apply_force(f);
        nb.update();
        nb.wrap_edges(w);
        model.boids[i] = nb;
        i = i + 1;
    }
}

/// One simulation tick, through the spatial grid or pairwise against the
/// whole flock, as the parameters select.
pub fn update_boids(model: &mut crate::sim::Model)
    requires
        old(model).inv(),
    ensures
        final(model).inv(),
        old(model).params.enable_spatial_grid ==> grid_tick_rel(*old(model), *final(model)),
        !old(model).params.enable_spatial_grid ==> brute_tick_rel(*old(model), *final(model)),
        tick_frame_rel(*old(model), *final(model)),
        tick_bounds_rel(*old(model), *final(model)),
{
    if model.params.enable_spatial_grid {
        update_boids_with_spatial_grid(model);
    } else {
        update_boids_without_spatial_grid(model);
    }
}

/// Bring the flock to the configured population: keep the prefix that
/// survives, pop what is past it, push fresh randomly placed agents for
/// what is missing, and set every agent's speed limit from the
/// parameters.
pub fn reset_boids(model: &mut crate::sim::Model)
    requires
        old(model).inv(),
    ensures
        final(model).inv(),
        final(model).params == old(model).params,
        final(model).spatial_grid == old(model).spatial_grid,
        final(model).clock == old(model).clock,
        final(model).interpolation_alpha == old(model).interpolation_alpha,
        final(model).boids@.len() == old(model).params.num_boids,
        forall|i: int|
            0 <= i < old(model).boids@.len() && i < old(model).params.num_boids
                ==> #[trigger] final(model).boids@[i] == (Boid {
                max_speed: old(model).params.max_speed,
                ..old(model).boids@[i]
            }),
        forall|i: int|
            0 <= i < final(model).boids@.len() ==> (#[trigger] final(model).boids@[i]).max_speed
                == old(model).params.max_speed,
{
    let target = model.params.num_boids;
    proof {
        assert(model.boids@ =~= old(model).boids@.subrange(0, model.boids@.len() as int));
    }
    while model.boids.len() > target
        invariant
            model.boids@.len() <= old(model).boids@.len(),
            target <= model.boids@.len() || model.boids@.len() == old(model).boids@.len(),
            model.boids@ == old(model).boids@.subrange(0, model.boids@.len() as int),
            model.params == old(model).params,
            model.spatial_grid == old(model).spatial_grid,
            model.clock == old(model).clock,
            model.interpolation_alpha == old(model).interpolation_alpha,
            old(model).inv(),
            target == model.params.num_boids,
        decreases model.boids@.len(),
    {
        model.boids.pop();
        proof {
            assert(model.boids@ =~= old(model).boids@.subrange(0, model.boids@.len() as int));
        }
    }
    proof {
        assert forall|j: int|
            0 <= j < model.boids@.len() && j < old(model).boids@.len() implies
            #[trigger] model.boids@[j] == old(model).boids@[j] by {
            assert(model.boids@ == old(model).boids@.subrange(0, model.boids@.len() as int));
        }
        assert(flock_wf(model.boids@, model.params.world_size as int)) by {
            assert forall|j: int|
                0 <= j < model.boids@.len() implies (#[trigger] model.boids@[j]).wf(
                model.params.world_size as int) && model.boids@[j].acceleration.x == 0
                && model.boids@[j].acceleration.y == 0 by {
                assert(model.boids@[j] == old(model).boids@[j]);
            }
        }
    }
    let half = model.params.world_size / 2;
    while model.boids.len() < target
        invariant
            model.boids@.len() <= target,
            model.boids@.len() >= old(model).boids@.len() || target <= model.boids@.len(),
            target <= MAX_AGENTS,
            half == model.params.world_size / 2,
            1 <= half,
            model.params == old(model).params,
            model.spatial_grid == old(model).spatial_grid,
            model.clock == old(model).clock,
            model.interpolation_alpha == old(model).interpolation_alpha,
            old(model).inv(),
            target == model.params.num_boids,
            forall|j: int|
                0 <= j < model.boids@.len() && j < old(model).boids@.len()
                    ==> #[trigger] model.boids@[j] == old(model).boids@[j],
            flock_wf(model.boids@, model.params.world_size as int),
        decreases target - model.boids@.len(),
    {
        let x = crate::random::random_range_i64(-half, half);
        let y = crate::random::random_range_i64(-half, half);
        let b = Boid::new(x, y);
        model.boids.push(b);
    }
    let n = model.boids.len();
    let ms = model.params.max_speed;
    let mut i: usize = 0;
    while i < n
        invariant
            i <= n,
            n == model.boids@.len(),
            n == target,
            ms == model.params.max_speed,
            model.params == old(model).params,
            model.spatial_grid == old(model).spatial_grid,
            model.clock == old(model).clock,
            model.interpolation_alpha == old(model).interpolation_alpha,
            old(model).inv(),
            target == model.params.num_boids,
            flock_wf(model.boids@, model.params.world_size as int),
            forall|j: int|
                i <= j < n && j < old(model).boids@.len() ==> #[trigger] model.boids@[j]
                    == old(model).boids@[j],
            forall|j: int|
                0 <= j < i && j < old(model).boids@.len() ==> #[trigger] model.boids@[j] == (Boid {
                    max_speed: old(model).params.max_speed,
                    ..old(model).boids@[j]
                }),
            forall|j: int| 0 <= j < i ==> (#[trigger] model.boids@[j]).max_speed == ms,
        decreases n - i,
    {
        let mut b = model.boids[i];
        b.max_speed = ms;
        model.boids[i] = b;
        i = i + 1;
    }
}

} // verus!
