//! The simulation state: the agent store, the tunable parameters, the
//! spatial grid and the fixed-step clock, advanced frame by frame, with
//! the periodic density-driven retuning of the grid's cell size.

use vstd::prelude::*;
use crate::boid::Boid;
use crate::clock::PhysicsClock;
use crate::params::{SimulationParams, MAX_AGENTS};
use crate::physics::{
    compute_cell_size, flock_wf, positions_of, spec_required_cell_size, update_boids,
};
use crate::spatial_grid::SpatialGrid;
use crate::vec2::Vec2i;

verus! {

/// The whole simulation state.
pub struct Model {
    pub boids: Vec<Boid>,
    pub params: SimulationParams,
    pub spatial_grid: SpatialGrid,
    pub clock: PhysicsClock,
    /// Interpolation alpha of the last frame, in thousandths.
    pub interpolation_alpha: i64,
}

impl Model {
    pub open spec fn inv(self) -> bool {
        &&& self.params.valid()
        &&& self.boids@.len() <= MAX_AGENTS
        &&& flock_wf(self.boids@, self.params.world_size as int)
        &&& self.spatial_grid.inv()
        &&& self.clock.inv()
        &&& 0 <= self.interpolation_alpha <= 1000
    }

    /// A fresh simulation: an empty grid sized from the parameters, a
    /// clock running at the configured physics rate in microseconds, and a
    /// randomly placed population.
    pub fn new(params: SimulationParams) -> (r: Model)
        requires
            params.valid(),
        ensures
            r.inv(),
            r.params == params,
            r.boids@.len() == params.num_boids,
            r.spatial_grid.cell_size == spec_required_cell_size(params),
            r.clock.step_size == 1_000_000 as int / (params.fixed_physics_fps as int),
            r.clock.accumulator == 0,
            r.interpolation_alpha == 0,
            forall|i: int|
                0 <= i < r.boids@.len() ==> (#[trigger] r.boids@[i]).max_speed
                    == params.max_speed,
    {
        let cell_size = compute_cell_size(&params);
        let spatial_grid = SpatialGrid::new(cell_size, params.world_size);
        proof {
            vstd::arithmetic::div_mod::lemma_div_is_ordered_by_denominator(1_000_000,
                params.fixed_physics_fps as int, 1000);
            vstd::arithmetic::div_mod::lemma_div_is_ordered(1_000_000, crate::clock::MAX_TIME as int,
                params.fixed_physics_fps as int);
            vstd::arithmetic::div_mod::lemma_div_basics(crate::clock::MAX_TIME as int);
        }
        let step = 1_000_000u64 / (params.fixed_physics_fps as u64);
        let clock = PhysicsClock::new(step);
        let mut model = Model {
            boids: Vec::new(),
            params,
            spatial_grid,
            clock,
            interpolation_alpha: 0,
        };
        crate::physics::reset_boids(&mut model);
        model
    }

    /// One frame: pour the elapsed time into the accumulator, run one full
    /// tick per whole step it holds — a stalled frame catches up with
    /// several full ticks, never a shortcut — and refresh the
    /// interpolation alpha from what remains. Returns how many ticks ran.
    /// A paused simulation consumes nothing.
    pub fn advance_frame(&mut self, elapsed: u64) -> (ticks: u64)
        requires
            old(self).inv(),
            old(self).clock.accumulator + elapsed <= crate::clock::MAX_TIME,
        ensures
            final(self).inv(),
            final(self).params == old(self).params,
            old(self).params.pause_simulation ==> *final(self) == *old(self) && ticks == 0,
            !old(self).params.pause_simulation ==> ({
                let total = old(self).clock.accumulator + elapsed;
                let step = old(self).clock.step_size as int;
                &&& final(self).clock.step_size == old(self).clock.step_size
                &&& ticks == old(self).clock.spec_pending_steps(elapsed as int)
                &&& ticks == total / step
                &&& final(self).clock.accumulator == total % step
                &&& final(self).boids@.len() == old(self).boids@.len()
                &&& (old(self).params.enable_interpolation ==> final(self).interpolation_alpha
                    == crate::clock::spec_min_int(final(self).clock.accumulator as int * 1000
                    / step, 1000))
                &&& (!old(self).params.enable_interpolation ==> final(self).interpolation_alpha
                    == 1000)
            }),
            0 <= final(self).interpolation_alpha <= 1000,
    {
        if self.params.pause_simulation {
            return 0;
        }
        self.clock.add_elapsed(elapsed);
        let ghost total = old(self).clock.accumulator + elapsed;
        let mut ticks: u64 = 0;
        while self.clock.accumulator >= self.clock.step_size
            invariant
                self.inv(),
                self.params == old(self).params,
                !self.params.pause_simulation,
                self.clock.step_size == old(self).clock.step_size,
                self.boids@.len() == old(self).boids@.len(),
                ticks * self.clock.step_size + self.clock.accumulator == total,
                ticks <= total,
                total <= crate::clock::MAX_TIME,
            decreases self.clock.accumulator,
        {
            update_boids(self);
            self.clock.consume_step();
            proof {
                let s = self.clock.step_size as int;
                let t = ticks as int;
                assert((t + 1) * s == t * s + s) by (nonlinear_arith);
                vstd::arithmetic::mul::lemma_mul_inequality(1, s, t + 1);
                vstd::arithmetic::mul::lemma_mul_is_commutative(t + 1, s);
            }
            ticks = ticks + 1;
        }
        proof {
            vstd::arithmetic::div_mod::lemma_fundamental_div_mod_converse(total as int,
                self.clock.step_size as int, ticks as int, self.clock.accumulator as int);
        }
        self.interpolation_alpha = self.clock.alpha_milli(self.params.enable_interpolation);
        ticks
    }

    /// Resize the world: the parameter is updated, the grid is rebuilt
    /// empty at the size the new parameters call for, and every agent past
    /// the new bounds is wrapped back in.
    pub fn set_world_size(&mut self, new_world: i64)
        requires
            old(self).inv(),
            2 <= new_world <= crate::MAX_WORLD,
        ensures
            final(self).inv(),
            final(self).params == (SimulationParams {
                world_size: new_world,
                ..old(self).params
            }),
            final(self).boids@.len() == old(self).boids@.len(),
            final(self).clock == old(self).clock,
            final(self).interpolation_alpha == old(self).interpolation_alpha,
            final(self).spatial_grid.cell_size == spec_required_cell_size(final(self).params),
            final(self).spatial_grid.population() == 0,
            forall|i: int|
                0 <= i < final(self).boids@.len() ==> (#[trigger] final(self).boids@[i]).position.in_box(
                    new_world as int / 2),
            forall|i: int|
                0 <= i < final(self).boids@.len() ==> (#[trigger] final(self).boids@[i]).velocity
                    == old(self).boids@[i].velocity && final(self).boids@[i].max_speed == old(
                    self).boids@[i].max_speed && final(self).boids@[i].max_force
                    == old(self).boids@[i].max_force && final(self).boids@[i].prev_position
                    == final(self).boids@[i].position,
    {
        self.params.world_size = new_world;
        let cs = compute_cell_size(&self.params);
        self.spatial_grid = SpatialGrid::new(cs, new_world);
        let n = self.boids.len();
        let mut i: usize = 0;
        while i < n
            invariant
                i <= n,
                n == self.boids@.len(),
                n == old(self).boids@.len(),
                n <= MAX_AGENTS,
                self.params == (SimulationParams { world_size: new_world, ..old(self).params }),
                2 <= new_world <= crate::MAX_WORLD,
                self.spatial_grid.inv(),
                self.spatial_grid.cell_size == spec_required_cell_size(self.params),
                self.spatial_grid.population() == 0,
                self.clock == old(self).clock,
                self.interpolation_alpha == old(self).interpolation_alpha,
                old(self).inv(),
                forall|j: int| i <= j < n ==> #[trigger] self.boids@[j] == old(self).boids@[j],
                forall|j: int|
                    0 <= j < i ==> (#[trigger] self.boids@[j]).wf(new_world as int)
                        && self.boids@[j].acceleration.x == 0 && self.boids@[j].acceleration.y
                        == 0 && self.boids@[j].velocity == old(self).boids@[j].velocity
                        && self.boids@[j].max_speed == old(self).boids@[j].max_speed
                        && self.boids@[j].max_force == old(self).boids@[j].max_force
                        && self.boids@[j].prev_position == self.boids@[j].position,
            decreases n - i,
        {
            let mut b = self.boids[i];
            b.wrap_edges(new_world);
            b.store_previous_state();
            self.boids[i] = b;
            i = i + 1;
        }
    }

    /// Push the configured speed limit onto every agent, after the
    /// parameter changed.
    pub fn apply_max_speed(&mut self)
        requires
            old(self).inv(),
        ensures
            final(self).inv(),
            final(self).params == old(self).params,
            final(self).spatial_grid == old(self).spatial_grid,
            final(self).clock == old(self).clock,
            final(self).interpolation_alpha == old(self).interpolation_alpha,
            final(self).boids@.len() == old(self).boids@.len(),
            forall|i: int|
                0 <= i < final(self).boids@.len() ==> #[trigger] final(self).boids@[i] == (Boid {
                    max_speed: old(self).params.max_speed,
                    ..old(self).boids@[i]
                }),
    {
        let n = self.boids.len();
        let ms = self.params.max_speed;
        let mut i: usize = 0;
        while i < n
            invariant
                i <= n,
                n == self.boids@.len(),
                n == old(self).boids@.len(),
                ms == self.params.max_speed,
                self.params == old(self).params,
                self.spatial_grid == old(self).spatial_grid,
                self.clock == old(self).clock,
                self.interpolation_alpha == old(self).interpolation_alpha,
                old(self).inv(),
                forall|j: int| i <= j < n ==> #[trigger] self.boids@[j] == old(self).boids@[j],
                forall|j: int|
                    0 <= j < i ==> #[trigger] self.boids@[j] == (Boid {
                        max_speed: old(self).params.max_speed,
                        ..old(self).boids@[j]
                    }),
            decreases n - i,
        {
            let mut b = self.boids[i];
            b.max_speed = ms;
            self.boids[i] = b;
            i = i + 1;
        }
    }

    /// Recompute the fixed step from the configured physics rate, after
    /// the parameter changed; unconsumed time carries over.
    pub fn refresh_step_size(&mut self)
        requires
            old(self).inv(),
        ensures
            final(self).inv(),
            final(self).params == old(self).params,
            final(self).boids@ == old(self).boids@,
            final(self).spatial_grid == old(self).spatial_grid,
            final(self).interpolation_alpha == old(self).interpolation_alpha,
            final(self).clock.step_size == 1_000_000 as int / (
            old(self).params.fixed_physics_fps as int),
            final(self).clock.accumulator == old(self).clock.accumulator,
    {
        proof {
            vstd::arithmetic::div_mod::lemma_div_is_ordered_by_denominator(1_000_000,
                self.params.fixed_physics_fps as int, 1000);
            vstd::arithmetic::div_mod::lemma_div_is_ordered(1_000_000,
                crate::clock::MAX_TIME as int, self.params.fixed_physics_fps as int);
            vstd::arithmetic::div_mod::lemma_div_basics(crate::clock::MAX_TIME as int);
        }
        self.clock.step_size = 1_000_000u64 / (self.params.fixed_physics_fps as u64);
    }
}

/// The total neighbor count over the sampled agents: every `stride`-th
/// agent from `i` on contributes the size of its grid query.
pub open spec fn spec_sample_total(
    grid: SpatialGrid,
    positions: Seq<Vec2i>,
    w: int,
    i: int,
    stride: int,
    n: int,
) -> int
    decreases n + stride - i when stride >= 1 && i >= 0
{
    if i >= n || stride < 1 || i < 0 {
        0
    } else {
        grid.spec_query(i, positions[i], positions, w).len() + spec_sample_total(grid, positions,
            w, i + stride, stride, n)
    }
}

/// How many agents the strided sample visits: every `stride`-th index
/// from `i` up to `n`.
pub open spec fn spec_sample_count(i: int, stride: int, n: int) -> int
    decreases n + stride - i when stride >= 1 && i >= 0
{
    if i >= n || stride < 1 || i < 0 {
        0
    } else {
        1 + spec_sample_count(i + stride, stride, n)
    }
}

/// The retuned cell size for a sampled average neighbor count: shrink by a
/// tenth when the average runs past one and a half times the target, grow
/// by a tenth when it falls below half the target, and clamp into the
/// bounds the grid accepts.
pub open spec fn spec_adaptive_cell_size(avg_milli: int, current: int, floor_cs: int) -> int {
    let scaled = if avg_milli > 22_500 {
        current * 9 / 10
    } else if avg_milli < 7_500 {
        current * 11 / 10
    } else {
        current
    };
    let raised = if scaled > floor_cs {
        scaled
    } else {
        floor_cs
    };
    if raised > crate::MAX_WORLD {
        crate::MAX_WORLD as int
    } else {
        raised
    }
}

/// The retuned cell size for a sampled average neighbor count, clamped so
/// that a grid of that cell size can be built.
pub fn compute_adaptive_cell_size(avg_milli: i64, current: i64, params: &SimulationParams) -> (r:
    i64)
    requires
        params.valid(),
        0 < current <= crate::MAX_WORLD,
        0 <= avg_milli,
    ensures
        r == spec_adaptive_cell_size(avg_milli as int, current as int,
            spec_required_cell_size(*params)),
        r >= spec_required_cell_size(*params),
        1 <= r <= crate::MAX_WORLD,
        (params.world_size + r - 1) / (r as int) <= crate::spatial_grid::MAX_GRID,
{
    let floor_cs = compute_cell_size(params);
    let scaled: i64 = if avg_milli > 22_500 {
        ((current as u64) * 9 / 10) as i64
    } else if avg_milli < 7_500 {
        ((current as u64) * 11 / 10) as i64
    } else {
        current
    };
    let raised = if scaled > floor_cs {
        scaled
    } else {
        floor_cs
    };
    let r = if raised > crate::MAX_WORLD {
        crate::MAX_WORLD
    } else {
        raised
    };
    proof {
        vstd::arithmetic::div_mod::lemma_div_pos_is_pos(current as int * 9, 10);
        vstd::arithmetic::div_mod::lemma_div_pos_is_pos(current as int * 11, 10);
        vstd::arithmetic::div_mod::lemma_div_is_ordered(current as int * 9,
            crate::MAX_WORLD as int * 10, 10);
        vstd::arithmetic::div_mod::lemma_div_is_ordered(current as int * 11,
            crate::MAX_WORLD as int * 11, 10);
        crate::physics::lemma_ceil_div_bounded(params.world_size as int, r as int,
            crate::spatial_grid::MAX_GRID as int);
    }
    r
}

/// Sample up to a hundred evenly strided agents, average their neighbor
/// counts over the agents actually visited, and retune the grid's cell
/// size. An average inside the healthy band leaves the size alone and the
/// grid untouched, which is what keeps the boundary from thrashing; when
/// the retune (or the floor the parameters impose) changes the size at
/// all, the grid is rebuilt empty at the new size, so a crowding spike
/// always takes effect on the next invocation. A zero population leaves
/// everything unchanged.
pub fn update_adaptive_cell_size(model: &mut Model)
    requires
        old(model).inv(),
    ensures
        final(model).inv(),
        final(model).params == old(model).params,
        final(model).boids@ == old(model).boids@,
        final(model).clock == old(model).clock,
        final(model).interpolation_alpha == old(model).interpolation_alpha,
        old(model).boids@.len() == 0 ==> *final(model) == *old(model),
        old(model).boids@.len() > 0 ==> ({
            let n = old(model).boids@.len() as int;
            let sample_size = if n < 100 {
                n
            } else {
                100int
            };
            let stride = if n / sample_size >= 1 {
                n / sample_size
            } else {
                1int
            };
            let total = spec_sample_total(old(model).spatial_grid, positions_of(
                old(model).boids@), old(model).params.world_size as int, 0, stride, n);
            let sampled = spec_sample_count(0, stride, n);
            let avg_milli = total * 1000 / sampled;
            let fresh = spec_adaptive_cell_size(avg_milli,
                old(model).spatial_grid.cell_size as int, spec_required_cell_size(
                old(model).params));
            let w = old(model).params.world_size as int;
            &&& (fresh != old(model).spatial_grid.cell_size ==> final(model).spatial_grid.cell_size
                == fresh && final(model).spatial_grid.population() == 0
                && final(model).spatial_grid.grid_size == (w + fresh - 1) / fresh)
            &&& (fresh == old(model).spatial_grid.cell_size ==> final(model).spatial_grid
                == old(model).spatial_grid)
            &&& final(model).spatial_grid.cell_size >= spec_required_cell_size(old(model).params)
        }),
{
    let n = model.boids.len();
    if n == 0 {
        return;
    }
    let sample_size: usize = if n < 100 {
        n
    } else {
        100
    };
    let stride_raw = n / sample_size;
    let stride: usize = if stride_raw >= 1 {
        stride_raw
    } else {
        1
    };
    let positions = crate::physics::extract_positions(&model.boids);
    let w = model.params.world_size;
    let (total, sampled) = sample_neighbor_total(&model.spatial_grid, &positions, w, stride, n);
    let avg_milli = ((total * 1000) / sampled) as i64;
    let fresh = compute_adaptive_cell_size(avg_milli, model.spatial_grid.cell_size,
        &model.params);
    if fresh != model.spatial_grid.cell_size {
        model.spatial_grid = SpatialGrid::new(fresh, model.params.world_size);
    }
}

/// The total neighbor count over every `stride`-th agent, together with
/// how many agents were visited.
fn sample_neighbor_total(
    grid: &SpatialGrid,
    positions: &Vec<Vec2i>,
    world_size: i64,
    stride: usize,
    n: usize,
) -> (r: (u64, u64))
    requires
        grid.inv(),
        0 < world_size <= crate::MAX_WORLD,
        1 <= stride <= n,
        n == positions@.len(),
        n <= MAX_AGENTS,
        forall|j: int|
            0 <= j < positions@.len() ==> (#[trigger] positions@[j]).in_box(
                world_size as int / 2),
    ensures
        r.0 == spec_sample_total(*grid, positions@, world_size as int, 0, stride as int, n as int),
        r.1 == spec_sample_count(0, stride as int, n as int),
        1 <= r.1 <= 2 * MAX_AGENTS,
        r.0 <= 18_000_000_000_000,
{
    let mut total: u64 = 0;
    let mut i: usize = 0;
    let mut sampled: u64 = 0;
    while i < n
        invariant
            grid.inv(),
            0 < world_size <= crate::MAX_WORLD,
            stride >= 1,
            n == positions@.len(),
            n <= MAX_AGENTS,
            forall|j: int|
                0 <= j < positions@.len() ==> (#[trigger] positions@[j]).in_box(
                    world_size as int / 2),
            i <= n + stride,
            stride <= n,
            sampled <= i,
            i > 0 ==> sampled >= 1,
            total <= sampled * 9_000_000,
            spec_sample_total(*grid, positions@, world_size as int, 0, stride as int, n as int)
                == total + spec_sample_total(*grid, positions@, world_size as int, i as int,
                stride as int, n as int),
            spec_sample_count(0, stride as int, n as int) == sampled + spec_sample_count(
                i as int, stride as int, n as int),
        decreases n + stride - i,
    {
        let q = grid.get_nearby_with_distances(i, positions[i], positions, world_size);
        proof {
            crate::forces::lemma_query_valid(*grid, i as int, positions@[i as int], positions@,
                world_size as int);
        }
        total = total + q.len() as u64;
        sampled = sampled + 1;
        i = i + stride;
    }
    proof {
        assert(spec_sample_total(*grid, positions@, world_size as int, i as int, stride as int,
            n as int) == 0);
        assert(spec_sample_count(i as int, stride as int, n as int) == 0);
    }
    (total, sampled)
}

} // verus!
