//! Adjustable simulation parameters, change detection between frames, and
//! the engine's validity bounds.
//!
//! Weights, radii, speeds and sizes are carried in milli-units (one
//! thousandth of a world unit), so a weight of `1500` denotes 1.5 and a
//! radius of `50_000` denotes 50 world units.

use vstd::prelude::*;

verus! {

/// Largest population the engine accepts.
pub const MAX_AGENTS: usize = 1_000_000;

/// Largest speed bound, in milli-units per tick.
pub const SPEED_LIMIT: i64 = 10_000_000;

/// Largest steering-force bound, in milli-units per tick squared.
pub const FORCE_LIMIT: i64 = 10_000_000;

/// Largest rule weight, in milli-units (10.0).
pub const WEIGHT_LIMIT: i64 = 10_000;

/// Largest perception radius, in milli-units.
pub const RADIUS_LIMIT: i64 = 10_000_000;

/// Largest cell-size factor, in milli-units (2.0).
pub const FACTOR_LIMIT: i64 = 2_000;

/// A snapshot of parameter values used for change detection.
pub struct ParamSnapshot {
    pub num_boids: usize,
    pub separation_weight: i64,
    pub alignment_weight: i64,
    pub cohesion_weight: i64,
    pub separation_radius: i64,
    pub alignment_radius: i64,
    pub cohesion_radius: i64,
    pub max_speed: i64,
    pub world_size: i64,
    pub show_debug: bool,
    pub enable_squared_distance: bool,
    pub enable_frustum_culling: bool,
    pub adaptive_cell_sizing: bool,
    pub fixed_physics_fps: i64,
    pub target_render_fps: i64,
    pub enable_interpolation: bool,
}

/// Parameters for the simulation, re-read every tick by the engine.
pub struct SimulationParams {
    pub num_boids: usize,
    pub separation_weight: i64,
    pub alignment_weight: i64,
    pub cohesion_weight: i64,
    pub separation_radius: i64,
    pub alignment_radius: i64,
    pub cohesion_radius: i64,
    pub max_speed: i64,
    pub world_size: i64,
    pub show_debug: bool,
    pub pause_simulation: bool,
    pub enable_parallel: bool,
    pub enable_spatial_grid: bool,
    pub cell_size_factor: i64,
    pub enable_squared_distance: bool,
    pub enable_frustum_culling: bool,
    pub adaptive_cell_sizing: bool,
    pub fixed_physics_fps: i64,
    pub target_render_fps: i64,
    pub enable_interpolation: bool,
    pub previous_values: Option<ParamSnapshot>,
}

impl SimulationParams {
    /// The bounds under which every arithmetic step of the engine stays in
    /// range.
    pub open spec fn valid(self) -> bool {
        &&& self.num_boids <= MAX_AGENTS
        &&& 0 < self.separation_radius <= RADIUS_LIMIT
        &&& 0 < self.alignment_radius <= RADIUS_LIMIT
        &&& 0 < self.cohesion_radius <= RADIUS_LIMIT
        &&& 0 < self.max_speed <= SPEED_LIMIT
        &&& 0 <= self.separation_weight <= WEIGHT_LIMIT
        &&& 0 <= self.alignment_weight <= WEIGHT_LIMIT
        &&& 0 <= self.cohesion_weight <= WEIGHT_LIMIT
        &&& 2 <= self.world_size <= crate::MAX_WORLD
        &&& 0 < self.cell_size_factor <= FACTOR_LIMIT
        &&& 0 < self.fixed_physics_fps <= 1000
        &&& 0 <= self.target_render_fps <= 1000
    }

    /// The values the spec fields of a snapshot of `self` must hold.
    pub open spec fn snapshot_of(self) -> ParamSnapshot {
        ParamSnapshot {
            num_boids: self.num_boids,
            separation_weight: self.separation_weight,
            alignment_weight: self.alignment_weight,
            cohesion_weight: self.cohesion_weight,
            separation_radius: self.separation_radius,
            alignment_radius: self.alignment_radius,
            cohesion_radius: self.cohesion_radius,
            max_speed: self.max_speed,
            world_size: self.world_size,
            show_debug: self.show_debug,
            enable_squared_distance: self.enable_squared_distance,
            enable_frustum_culling: self.enable_frustum_culling,
            adaptive_cell_sizing: self.adaptive_cell_sizing,
            fixed_physics_fps: self.fixed_physics_fps,
            target_render_fps: self.target_render_fps,
            enable_interpolation: self.enable_interpolation,
        }
    }

    /// Record the current values for change detection on the next frame.
    pub fn take_snapshot(&mut self)
        ensures
            *final(self) == (SimulationParams {
                previous_values: Some(old(self).snapshot_of()),
                ..*old(self)
            }),
    {
        self.previous_values = Some(ParamSnapshot {
            num_boids: self.num_boids,
            separation_weight: self.separation_weight,
            alignment_weight: self.alignment_weight,
            cohesion_weight: self.cohesion_weight,
            separation_radius: self.separation_radius,
            alignment_radius: self.alignment_radius,
            cohesion_radius: self.cohesion_radius,
            max_speed: self.max_speed,
            world_size: self.world_size,
            show_debug: self.show_debug,
            enable_squared_distance: self.enable_squared_distance,
            enable_frustum_culling: self.enable_frustum_culling,
            adaptive_cell_sizing: self.adaptive_cell_sizing,
            fixed_physics_fps: self.fixed_physics_fps,
            target_render_fps: self.target_render_fps,
            enable_interpolation: self.enable_interpolation,
        });
    }

    /// Whether the population size differs from the last snapshot.
    pub open spec fn spec_boids_changed(self, p: ParamSnapshot) -> bool {
        self.num_boids != p.num_boids
    }

    /// Whether a physics parameter differs from the last snapshot.
    pub open spec fn spec_physics_changed(self, p: ParamSnapshot) -> bool {
        ||| self.separation_weight != p.separation_weight
        ||| self.alignment_weight != p.alignment_weight
        ||| self.cohesion_weight != p.cohesion_weight
        ||| self.separation_radius != p.separation_radius
        ||| self.alignment_radius != p.alignment_radius
        ||| self.cohesion_radius != p.cohesion_radius
        ||| self.max_speed != p.max_speed
        ||| self.enable_squared_distance != p.enable_squared_distance
        ||| self.adaptive_cell_sizing != p.adaptive_cell_sizing
    }

    /// Whether a rendering parameter differs from the last snapshot.
    pub open spec fn spec_rendering_changed(self, p: ParamSnapshot) -> bool {
        ||| self.show_debug != p.show_debug
        ||| self.enable_frustum_culling != p.enable_frustum_culling
        ||| self.fixed_physics_fps != p.fixed_physics_fps
        ||| self.target_render_fps != p.target_render_fps
        ||| self.enable_interpolation != p.enable_interpolation
    }

    /// Compare against the last snapshot.
    ///
    /// Returns `(boids_changed, physics_changed, rendering_changed,
    /// world_size_changed)`; everything counts as changed when no snapshot
    /// was ever taken.
    pub fn detect_changes(&self) -> (r: (bool, bool, bool, bool))
        ensures
            self.previous_values is None ==> r == (true, true, true, true),
            self.previous_values matches Some(p) ==> r == (
                self.spec_boids_changed(p),
                self.spec_physics_changed(p),
                self.spec_rendering_changed(p),
                self.world_size != p.world_size,
            ),
    {
        match &self.previous_values {
            Some(prev) => {
                let boids_changed = self.num_boids != prev.num_boids;
                let physics_changed = self.separation_weight != prev.separation_weight
                    || self.alignment_weight != prev.alignment_weight
                    || self.cohesion_weight != prev.cohesion_weight
                    || self.separation_radius != prev.separation_radius
                    || self.alignment_radius != prev.alignment_radius
                    || self.cohesion_radius != prev.cohesion_radius
                    || self.max_speed != prev.max_speed
                    || self.enable_squared_distance != prev.enable_squared_distance
                    || self.adaptive_cell_sizing != prev.adaptive_cell_sizing;
                let rendering_changed = self.show_debug != prev.show_debug
                    || self.enable_frustum_culling != prev.enable_frustum_culling
                    || self.fixed_physics_fps != prev.fixed_physics_fps
                    || self.target_render_fps != prev.target_render_fps
                    || self.enable_interpolation != prev.enable_interpolation;
                let world_size_changed = self.world_size != prev.world_size;
                (boids_changed, physics_changed, rendering_changed, world_size_changed)
            },
            None => (true, true, true, true),
        }
    }

    /// Population slider bounds.
    pub fn get_num_boids_range() -> (r: (usize, usize))
        ensures
            r == (10usize, 200_000usize),
    {
        (10, 200_000)
    }

    /// Speed slider bounds, milli-units per tick.
    pub fn get_max_speed_range() -> (r: (i64, i64))
        ensures
            r == (1_000i64, 10_000i64),
    {
        (1_000, 10_000)
    }

    /// Rule-weight slider bounds, milli-units.
    pub fn get_weight_range() -> (r: (i64, i64))
        ensures
            r == (0i64, 3_000i64),
    {
        (0, 3_000)
    }

    /// Perception-radius slider bounds, milli-units.
    pub fn get_radius_range() -> (r: (i64, i64))
        ensures
            r == (5_000i64, 200_000i64),
    {
        (5_000, 200_000)
    }

    /// World-size slider bounds, milli-units.
    pub fn get_world_size_range() -> (r: (i64, i64))
        ensures
            r == (1_000_000i64, 50_000_000i64),
    {
        (1_000_000, 50_000_000)
    }

    /// Cell-size factor slider bounds, milli-units.
    pub fn get_cell_size_factor_range() -> (r: (i64, i64))
        ensures
            r == (10i64, 2_000i64),
    {
        (10, 2_000)
    }

    /// Physics-rate slider bounds, ticks per second.
    pub fn get_physics_fps_range() -> (r: (i64, i64))
        ensures
            r == (30i64, 240i64),
    {
        (30, 240)
    }

    /// Render-rate slider bounds, frames per second (0 means unlimited).
    pub fn get_render_fps_range() -> (r: (i64, i64))
        ensures
            r == (0i64, 240i64),
    {
        (0, 240)
    }
}

impl Default for SimulationParams {
    /// The default parameter set: 500 boids in a 5000-unit world at 30
    /// physics ticks per second.
    fn default() -> (r: SimulationParams)
        ensures
            r.valid(),
            r.num_boids == 500,
            r.separation_weight == 1_500 && r.alignment_weight == 1_000 && r.cohesion_weight
                == 1_000,
            r.separation_radius == 50_000 && r.alignment_radius == 200_000 && r.cohesion_radius
                == 150_000,
            r.max_speed == 50_000,
            r.world_size == crate::WORLD_SIZE,
            !r.show_debug && !r.pause_simulation,
            r.enable_parallel && r.enable_spatial_grid,
            r.cell_size_factor == 100,
            r.enable_squared_distance && r.enable_frustum_culling && r.adaptive_cell_sizing,
            r.fixed_physics_fps == 30,
            r.target_render_fps == 0,
            r.enable_interpolation,
            r.previous_values is None,
    {
        SimulationParams {
            num_boids: 500,
            separation_weight: 1_500,
            alignment_weight: 1_000,
            cohesion_weight: 1_000,
            separation_radius: 50_000,
            alignment_radius: 200_000,
            cohesion_radius: 150_000,
            max_speed: 50_000,
            world_size: crate::WORLD_SIZE,
            show_debug: false,
            pause_simulation: false,
            enable_parallel: true,
            enable_spatial_grid: true,
            cell_size_factor: 100,
            enable_squared_distance: true,
            enable_frustum_culling: true,
            adaptive_cell_sizing: true,
            fixed_physics_fps: 30,
            target_render_fps: 0,
            enable_interpolation: true,
            previous_values: None,
        }
    }
}

} // verus!
