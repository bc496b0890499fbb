use boids::boid::Boid;
use boids::clock::PhysicsClock;
use boids::params::SimulationParams;
use boids::physics::{
    phase1_chunked, phase1_parallel, phase1_sequential, rebuild_grid, reset_boids, update_boids,
};
use boids::sim::Model;
use boids::spatial_grid::SpatialGrid;
use boids::vec2::Vec2i;

const WORLD: i64 = 5_000_000;

fn test_params(n: usize) -> SimulationParams {
    let mut p = SimulationParams::default();
    p.num_boids = n;
    p.max_speed = 4_000;
    p
}

fn lattice_boid(i: usize) -> Boid {
    let x = ((i % 50) as i64 - 25) * 90_000;
    let y = ((i / 50) as i64 - 20) * 90_000;
    let vx = ((i * 37) % 2000) as i64 - 1000;
    let vy = ((i * 53) % 2000) as i64 - 1000;
    Boid::new_with_heading(x, y, vx, vy)
}

fn lattice_model(n: usize) -> Model {
    let params = test_params(n);
    let mut boids = Vec::new();
    for i in 0..n {
        boids.push(lattice_boid(i));
    }
    let spatial_grid = SpatialGrid::new(20_000, WORLD);
    Model {
        boids,
        params,
        spatial_grid,
        clock: PhysicsClock::new(33_333),
        interpolation_alpha: 0,
    }
}

fn snapshots(boids: &Vec<Boid>) -> (Vec<Vec2i>, Vec<Vec2i>) {
    let mut ps = Vec::new();
    let mut vs = Vec::new();
    for b in boids.iter() {
        ps.push(b.position);
        vs.push(b.velocity);
    }
    (ps, vs)
}

#[test]
fn sequential_and_parallel_phase_one_agree_exactly() {
    // The same frozen snapshot must give identical per-agent forces under
    // sequential, chunked and parallel evaluation, for a range of
    // population sizes. Fixed-point arithmetic makes the match exact,
    // stronger than a within-tolerance comparison.
    for &n in &[1usize, 2, 100, 2000] {
        let model = lattice_model(n);
        let (positions, velocities) = snapshots(&model.boids);
        let mut grid = model.spatial_grid;
        rebuild_grid(&mut grid, &positions, WORLD);
        let sequential = phase1_sequential(&grid, &model.boids, &positions, &velocities,
            &model.params);
        let chunked = phase1_chunked(&grid, &model.boids, &positions, &velocities, &model.params,
            7);
        let parallel = phase1_parallel(&grid, &model.boids, &positions, &velocities,
            &model.params);
        assert_eq!(sequential, chunked);
        assert_eq!(sequential, parallel);
    }
}

#[test]
fn velocity_is_clamped_after_every_tick() {
    let mut model = lattice_model(200);
    for _ in 0..3 {
        update_boids(&mut model);
        for b in model.boids.iter() {
            let ms = b.max_speed;
            assert!(b.velocity.x * b.velocity.x + b.velocity.y * b.velocity.y <= ms * ms);
        }
    }
}

#[test]
fn positions_stay_inside_the_world_after_every_tick() {
    let mut model = lattice_model(200);
    for _ in 0..5 {
        update_boids(&mut model);
        for b in model.boids.iter() {
            assert!(-WORLD / 2 <= b.position.x && b.position.x <= WORLD / 2);
            assert!(-WORLD / 2 <= b.position.y && b.position.y <= WORLD / 2);
        }
    }
}

#[test]
fn grid_and_brute_force_paths_both_run_clamped() {
    let mut with_grid = lattice_model(60);
    let mut without = lattice_model(60);
    without.params.enable_spatial_grid = false;
    update_boids(&mut with_grid);
    update_boids(&mut without);
    for m in [&with_grid, &without] {
        for b in m.boids.iter() {
            let ms = b.max_speed;
            assert!(b.velocity.x * b.velocity.x + b.velocity.y * b.velocity.y <= ms * ms);
            assert!(-WORLD / 2 <= b.position.x && b.position.x <= WORLD / 2);
        }
    }
}

#[test]
fn tick_stores_previous_state_for_interpolation() {
    let mut model = lattice_model(10);
    let before: Vec<(Vec2i, Vec2i)> = model.boids.iter().map(|b| (b.position, b.velocity))
        .collect();
    update_boids(&mut model);
    for (i, b) in model.boids.iter().enumerate() {
        assert_eq!(b.prev_velocity, before[i].1);
        // Unless the agent wrapped, the previous position is the old one.
        if b.position.x.abs() < WORLD / 2 && b.position.y.abs() < WORLD / 2 {
            assert_eq!(b.prev_position, before[i].0);
        }
    }
}

#[test]
fn reset_boids_resizes_and_applies_max_speed() {
    let mut model = lattice_model(10);
    model.params.num_boids = 25;
    model.params.max_speed = 7_000;
    reset_boids(&mut model);
    assert_eq!(model.boids.len(), 25);
    for b in model.boids.iter() {
        assert_eq!(b.max_speed, 7_000);
        assert!(-WORLD / 2 <= b.position.x && b.position.x <= WORLD / 2);
        assert!(-WORLD / 2 <= b.position.y && b.position.y <= WORLD / 2);
    }
    // The surviving prefix keeps its positions.
    assert_eq!(model.boids[3].position, lattice_boid(3).position);
    model.params.num_boids = 4;
    reset_boids(&mut model);
    assert_eq!(model.boids.len(), 4);
}

#[test]
fn separation_scenario_pushes_away_within_max_force() {
    // Two agents at (0,0) and (5,0) with velocities (1,0) and (-1,0), all
    // radii 10, weights 1.0, max speed 4, max force 0.1 (milli-units
    // throughout): agent 0's separation force points toward -x and its
    // magnitude stays within the force clamp. The fixed-point pipeline
    // gives exactly (-100, 0).
    let a0 = {
        let mut b = Boid::new_with_heading(0, 0, 0, 0);
        b.velocity = Vec2i { x: 1_000, y: 0 };
        b
    };
    let a1 = {
        let mut b = Boid::new_with_heading(5_000, 0, 0, 0);
        b.velocity = Vec2i { x: -1_000, y: 0 };
        b
    };
    let boids = vec![a0, a1];
    let sep = boids[0].separation_original(&boids, 10_000, WORLD);
    assert!(sep.x < 0);
    assert_eq!(sep.y, 0);
    assert!(sep.x * sep.x + sep.y * sep.y <= 100 * 100);
    assert_eq!(sep, Vec2i { x: -100, y: 0 });
}

#[test]
fn alignment_averages_neighbor_headings() {
    let mut a0 = Boid::new_with_heading(0, 0, 0, 0);
    a0.velocity = Vec2i { x: 0, y: 0 };
    let mut a1 = Boid::new_with_heading(3_000, 0, 0, 0);
    a1.velocity = Vec2i { x: 2_000, y: 0 };
    let boids = vec![a0, a1];
    let ali = boids[0].alignment_original(&boids, 10_000, WORLD);
    // Desired velocity is the neighbor's heading at full speed (+x), the
    // current velocity is zero, so the clamped steering points toward +x.
    assert!(ali.x > 0);
    assert_eq!(ali.y, 0);
    assert!(ali.x <= 100);
}

#[test]
fn cohesion_steers_toward_neighbor_cluster() {
    let mut a0 = Boid::new_with_heading(0, 0, 0, 0);
    a0.velocity = Vec2i { x: 0, y: 0 };
    let mut a1 = Boid::new_with_heading(4_000, 0, 0, 0);
    a1.velocity = Vec2i { x: 0, y: 0 };
    let boids = vec![a0, a1];
    let coh = boids[0].cohesion_original(&boids, 10_000, WORLD);
    assert!(coh.x > 0);
    assert_eq!(coh.y, 0);
}

#[test]
fn rules_ignore_neighbors_outside_the_radius() {
    let mut a0 = Boid::new_with_heading(0, 0, 0, 0);
    a0.velocity = Vec2i { x: 0, y: 0 };
    let a1 = Boid::new_with_heading(50_000, 0, 0, 0);
    let boids = vec![a0, a1];
    let sep = boids[0].separation_original(&boids, 10_000, WORLD);
    let ali = boids[0].alignment_original(&boids, 10_000, WORLD);
    let coh = boids[0].cohesion_original(&boids, 10_000, WORLD);
    assert_eq!(sep, Vec2i { x: 0, y: 0 });
    assert_eq!(ali, Vec2i { x: 0, y: 0 });
    assert_eq!(coh, Vec2i { x: 0, y: 0 });
}

#[test]
fn indexed_and_whole_flock_rules_agree_on_full_lists() {
    let mut boids = Vec::new();
    for i in 0..20 {
        boids.push(lattice_boid(i));
    }
    let idxs: Vec<usize> = (0..20).collect();
    let via_list = boids[0].separation(&boids, &idxs, 50_000, WORLD);
    let via_all = boids[0].separation_original(&boids, 50_000, WORLD);
    assert_eq!(via_list, via_all);
}

#[test]
fn parallel_and_sequential_ticks_agree_on_every_agent() {
    // Whole ticks, not just phase one: with the parallel scheduler on and
    // off, the same starting state ends in exactly the same state.
    let mut parallel = lattice_model(300);
    let mut sequential = lattice_model(300);
    parallel.params.enable_parallel = true;
    sequential.params.enable_parallel = false;
    for _ in 0..3 {
        update_boids(&mut parallel);
        update_boids(&mut sequential);
    }
    for (a, b) in parallel.boids.iter().zip(sequential.boids.iter()) {
        assert_eq!(a.position, b.position);
        assert_eq!(a.velocity, b.velocity);
        assert_eq!(a.prev_position, b.prev_position);
        assert_eq!(a.prev_velocity, b.prev_velocity);
    }
}
