use boids::boid::Boid;
use boids::clock::PhysicsClock;
use boids::params::SimulationParams;
use boids::sim::{compute_adaptive_cell_size, update_adaptive_cell_size, Model};
use boids::spatial_grid::SpatialGrid;
use boids::vec2::Vec2i;

const WORLD: i64 = 5_000_000;

fn small_model(n: usize, step: u64) -> Model {
    let mut params = SimulationParams::default();
    params.num_boids = n;
    params.max_speed = 4_000;
    let mut boids = Vec::new();
    for i in 0..n {
        let x = (i as i64 - (n as i64) / 2) * 40_000;
        boids.push(Boid::new_with_heading(x, 0, 500, -500));
    }
    Model {
        boids,
        params,
        spatial_grid: SpatialGrid::new(20_000, WORLD),
        clock: PhysicsClock::new(step),
        interpolation_alpha: 0,
    }
}

#[test]
fn fixed_step_scenario_ticks_once_per_whole_step() {
    // Step = 1/30 s, frames of 1/60, 1/60 and 1/30 s, in a time unit where
    // those are exact (1/600000 s): no tick after the first frame, exactly
    // one after the second, exactly one more after the third, and alpha in
    // range after each.
    let mut model = small_model(6, 20_000);
    let t1 = model.advance_frame(10_000);
    assert_eq!(t1, 0);
    assert!(0 <= model.interpolation_alpha && model.interpolation_alpha <= 1000);
    let t2 = model.advance_frame(10_000);
    assert_eq!(t2, 1);
    assert!(0 <= model.interpolation_alpha && model.interpolation_alpha <= 1000);
    let t3 = model.advance_frame(20_000);
    assert_eq!(t3, 1);
    assert!(0 <= model.interpolation_alpha && model.interpolation_alpha <= 1000);
    assert_eq!(model.clock.accumulator, 0);
}

#[test]
fn a_stalled_frame_catches_up_with_whole_ticks() {
    let mut model = small_model(6, 20_000);
    let ticks = model.advance_frame(75_000);
    assert_eq!(ticks, 3);
    assert_eq!(model.clock.accumulator, 15_000);
    // 15000/20000 of a step remains: alpha is 750 thousandths.
    assert_eq!(model.interpolation_alpha, 750);
}

#[test]
fn paused_simulation_consumes_no_time() {
    let mut model = small_model(6, 20_000);
    model.params.pause_simulation = true;
    let before = model.boids[0].position;
    let ticks = model.advance_frame(100_000);
    assert_eq!(ticks, 0);
    assert_eq!(model.clock.accumulator, 0);
    assert_eq!(model.boids[0].position, before);
}

#[test]
fn disabled_interpolation_uses_the_sentinel_alpha() {
    let mut model = small_model(6, 20_000);
    model.params.enable_interpolation = false;
    model.advance_frame(30_000);
    assert_eq!(model.interpolation_alpha, 1000);
}

#[test]
fn model_new_populates_and_sizes_from_params() {
    let mut params = SimulationParams::default();
    params.num_boids = 40;
    let model = Model::new(params);
    assert_eq!(model.boids.len(), 40);
    // Default: max radius 200 units, factor 0.1 => 20-unit cells.
    assert_eq!(model.spatial_grid.cell_size, 20_000);
    // 30 ticks per second in microseconds.
    assert_eq!(model.clock.step_size, 33_333);
    for b in model.boids.iter() {
        assert!(-WORLD / 2 <= b.position.x && b.position.x <= WORLD / 2);
        assert!(-WORLD / 2 <= b.position.y && b.position.y <= WORLD / 2);
        assert_eq!(b.max_speed, params_default_max_speed());
    }
}

fn params_default_max_speed() -> i64 {
    SimulationParams::default().max_speed
}

#[test]
fn adaptive_sizing_shrinks_by_a_tenth_when_crowded() {
    // An average of 45 neighbors is three times the target of 15: the next
    // retune shrinks the cell size by exactly ten percent.
    let params = SimulationParams::default();
    let r = compute_adaptive_cell_size(45_000, 30_000, &params);
    assert_eq!(r, 27_000);
}

#[test]
fn adaptive_sizing_clamps_to_the_radius_floor() {
    // Default floor: 200-unit radius at factor 0.1 gives 20-unit cells. A
    // ten percent shrink of 21 units would land below it, so the size
    // clamps to the floor instead.
    let params = SimulationParams::default();
    let r = compute_adaptive_cell_size(45_000, 21_000, &params);
    assert_eq!(r, 20_000);
}

#[test]
fn adaptive_sizing_grows_when_sparse() {
    let params = SimulationParams::default();
    let r = compute_adaptive_cell_size(5_000, 30_000, &params);
    assert_eq!(r, 33_000);
}

#[test]
fn adaptive_sizing_keeps_a_healthy_average() {
    let params = SimulationParams::default();
    let r = compute_adaptive_cell_size(15_000, 30_000, &params);
    assert_eq!(r, 30_000);
}

fn clustered_model(cluster: usize, spread: usize, cell_size: i64) -> Model {
    // `cluster` coincident agents at the origin plus `spread` agents far
    // apart from everyone, with the grid rebuilt so queries see them.
    let n = cluster + spread;
    let mut params = SimulationParams::default();
    params.num_boids = n;
    params.max_speed = 4_000;
    let mut boids = Vec::new();
    for _ in 0..cluster {
        boids.push(Boid::new_with_heading(0, 0, 500, -500));
    }
    for k in 0..spread {
        let x = -2_400_000 + (k as i64) * 40_000;
        boids.push(Boid::new_with_heading(x, 2_000_000, 500, -500));
    }
    let mut model = Model {
        boids,
        params,
        spatial_grid: SpatialGrid::new(cell_size, WORLD),
        clock: PhysicsClock::new(33_333),
        interpolation_alpha: 0,
    };
    let positions: Vec<Vec2i> = model.boids.iter().map(|b| b.position).collect();
    boids::physics::rebuild_grid(&mut model.spatial_grid, &positions, WORLD);
    model
}

#[test]
fn adaptive_update_grows_and_rebuilds_when_sparse() {
    // Spread-out agents report no neighbors: the mean falls below half the
    // target, the cells grow by a tenth, and the grid is rebuilt at the
    // new size.
    let mut model = small_model(12, 20_000);
    boids::physics::update_boids(&mut model);
    assert_eq!(model.spatial_grid.cell_size, 20_000);
    update_adaptive_cell_size(&mut model);
    assert_eq!(model.spatial_grid.cell_size, 22_000);
    let (occupied, _, _, _) = model.spatial_grid.get_statistics();
    assert_eq!(occupied, 0);
}

#[test]
fn adaptive_update_shrinks_and_rebuilds_when_crowded() {
    // Thirty coincident agents average 29 neighbors, nearly twice the
    // crowding threshold: the ten percent decrease takes effect and the
    // grid is rebuilt at the smaller size.
    let mut model = clustered_model(30, 0, 30_000);
    update_adaptive_cell_size(&mut model);
    assert_eq!(model.spatial_grid.cell_size, 27_000);
    let (occupied, _, _, _) = model.spatial_grid.get_statistics();
    assert_eq!(occupied, 0);
}

#[test]
fn adaptive_update_holds_at_the_floor_when_crowded() {
    // The same crowding at the floor: the decrease would land below the
    // radius floor, so the size clamps there and, being unchanged, the
    // grid is left as it stands.
    let mut model = clustered_model(30, 0, 20_000);
    update_adaptive_cell_size(&mut model);
    assert_eq!(model.spatial_grid.cell_size, 20_000);
    let (occupied, _, _, _) = model.spatial_grid.get_statistics();
    assert_eq!(occupied, 1);
}

#[test]
fn adaptive_update_recovers_a_size_below_the_floor() {
    // Sixteen coincident agents average exactly the target, so the retune
    // itself asks for no step; but the size sits below the radius floor
    // (the radii grew since the grid was built), so the clamp lifts it to
    // the floor and rebuilds.
    let mut model = clustered_model(16, 0, 19_000);
    update_adaptive_cell_size(&mut model);
    assert_eq!(model.spatial_grid.cell_size, 20_000);
}

#[test]
fn sampling_mean_divides_by_the_agents_actually_visited() {
    // 150 agents: a stride of one visits all of them, so the mean divides
    // by 150, not by the nominal sample cap of 100. A cluster of 29 gives
    // a total of 812 neighbor sightings: mean 5.4, below half the target,
    // so the cells grow -- dividing by the cap instead would read 8.1 and
    // leave the grid alone.
    let mut model = clustered_model(29, 121, 20_000);
    update_adaptive_cell_size(&mut model);
    assert_eq!(model.spatial_grid.cell_size, 22_000);
}

#[test]
fn adaptive_update_ignores_an_empty_population() {
    let mut model = small_model(0, 20_000);
    let before = model.spatial_grid.cell_size;
    update_adaptive_cell_size(&mut model);
    assert_eq!(model.spatial_grid.cell_size, before);
}

#[test]
fn world_resize_wraps_agents_into_the_new_bounds() {
    let mut model = small_model(12, 20_000);
    // Agents sit up to 240 world units from the origin; shrink the world
    // to 300 units so some land outside the new half-world of 150.
    model.set_world_size(300_000);
    assert_eq!(model.params.world_size, 300_000);
    for b in model.boids.iter() {
        assert!(-150_000 <= b.position.x && b.position.x <= 150_000);
        assert_eq!(b.prev_position, b.position);
    }
    // The grid was rebuilt empty at the size the parameters call for.
    let (occupied, _, _, _) = model.spatial_grid.get_statistics();
    assert_eq!(occupied, 0);
}

#[test]
fn apply_max_speed_touches_only_the_speed_limit() {
    let mut model = small_model(5, 20_000);
    model.params.max_speed = 9_000;
    let before_pos = model.boids[2].position;
    model.apply_max_speed();
    for b in model.boids.iter() {
        assert_eq!(b.max_speed, 9_000);
    }
    assert_eq!(model.boids[2].position, before_pos);
}

#[test]
fn refresh_step_size_follows_the_physics_rate() {
    let mut model = small_model(5, 20_000);
    model.params.fixed_physics_fps = 60;
    model.refresh_step_size();
    assert_eq!(model.clock.step_size, 16_666);
}
