use boids::boid::{lerp, Boid};
use boids::clock::PhysicsClock;
use boids::math::{isqrt, isqrt_i64, sqrt_ceil, tdiv};
use boids::params::SimulationParams;
use boids::vec2::{limit_magnitude, scale_to_magnitude, Vec2i};

const WORLD: i64 = 5_000_000;

#[test]
fn isqrt_brackets_perfect_squares() {
    assert_eq!(isqrt(0), 0);
    assert_eq!(isqrt(1), 1);
    assert_eq!(isqrt(3), 1);
    assert_eq!(isqrt(4), 2);
    assert_eq!(isqrt(15), 3);
    assert_eq!(isqrt(16), 4);
    assert_eq!(isqrt(1_000_000), 1_000);
    assert_eq!(isqrt(u64::MAX), 0xFFFF_FFFF);
    assert_eq!(isqrt_i64(i64::MAX), 3_037_000_499);
}

#[test]
fn sqrt_ceil_rounds_up_between_squares() {
    assert_eq!(sqrt_ceil(0), 0);
    assert_eq!(sqrt_ceil(1), 1);
    assert_eq!(sqrt_ceil(2), 2);
    assert_eq!(sqrt_ceil(4), 2);
    assert_eq!(sqrt_ceil(5), 3);
    assert_eq!(sqrt_ceil(25_000_000), 5_000);
}

#[test]
fn tdiv_truncates_toward_zero() {
    assert_eq!(tdiv(7, 2), 3);
    assert_eq!(tdiv(-7, 2), -3);
    assert_eq!(tdiv(0, 5), 0);
    assert_eq!(tdiv(-1, 1000), 0);
}

#[test]
fn limit_magnitude_leaves_short_vectors_alone() {
    let v = Vec2i { x: 30, y: 40 };
    assert_eq!(limit_magnitude(v, 100), v);
}

#[test]
fn limit_magnitude_clamps_long_vectors() {
    let v = Vec2i { x: 3_000, y: 4_000 };
    let r = limit_magnitude(v, 100);
    // |v| = 5000, scaled by 100/5000: exactly (60, 80).
    assert_eq!(r, Vec2i { x: 60, y: 80 });
    assert!(r.x * r.x + r.y * r.y <= 100 * 100);
}

#[test]
fn scale_to_magnitude_never_overshoots() {
    let v = Vec2i { x: 1, y: 1 };
    let r = scale_to_magnitude(v, 4_000);
    assert!(r.x * r.x + r.y * r.y <= 4_000 * 4_000);
    assert!(r.x > 0 && r.y > 0);
}

#[test]
fn boid_update_clamps_speed_exactly() {
    let mut b = Boid::new_with_heading(0, 0, 0, 0);
    b.velocity = Vec2i { x: 3_000, y: 0 };
    b.apply_force(Vec2i { x: 3_000, y: 0 });
    b.update();
    // 6000 exceeds the 4000 limit: clamped to exactly (4000, 0).
    assert_eq!(b.velocity, Vec2i { x: 4_000, y: 0 });
    assert_eq!(b.position, Vec2i { x: 4_000, y: 0 });
    assert_eq!(b.acceleration, Vec2i { x: 0, y: 0 });
}

#[test]
fn boid_update_keeps_slow_velocity_unchanged() {
    let mut b = Boid::new_with_heading(100, 200, 0, 0);
    b.velocity = Vec2i { x: 10, y: -20 };
    b.update();
    assert_eq!(b.velocity, Vec2i { x: 10, y: -20 });
    assert_eq!(b.position, Vec2i { x: 110, y: 180 });
}

#[test]
fn wrap_edges_carries_positions_to_the_opposite_side() {
    let mut b = Boid::new_with_heading(0, 0, 0, 0);
    b.position = Vec2i { x: WORLD / 2 + 5_000, y: -(WORLD / 2) - 7_000 };
    b.prev_position = Vec2i { x: WORLD / 2 - 1_000, y: -(WORLD / 2) + 1_000 };
    b.wrap_edges(WORLD);
    assert_eq!(b.position, Vec2i { x: -(WORLD / 2), y: WORLD / 2 });
    // The previous position is translated by the same shift, keeping the
    // interpolation segment continuous across the seam.
    assert_eq!(b.prev_position.x, WORLD / 2 - 1_000 + (-(WORLD / 2) - (WORLD / 2 + 5_000)));
    assert_eq!(b.prev_position.y, -(WORLD / 2) + 1_000 + (WORLD / 2 - (-(WORLD / 2) - 7_000)));
}

#[test]
fn wrap_edges_leaves_interior_positions_alone() {
    let mut b = Boid::new_with_heading(1_000, -2_000, 0, 0);
    b.wrap_edges(WORLD);
    assert_eq!(b.position, Vec2i { x: 1_000, y: -2_000 });
}

#[test]
fn zero_heading_draw_defaults_to_two_units_forward() {
    let b = Boid::new_with_heading(0, 0, 0, 0);
    assert_eq!(b.velocity, Vec2i { x: 2_000, y: 0 });
    assert_eq!(b.max_speed, 4_000);
    assert_eq!(b.max_force, 100);
    assert_eq!(b.prev_position, b.position);
}

#[test]
fn random_boid_speed_is_close_to_two_units() {
    for _ in 0..50 {
        let b = Boid::new(0, 0);
        let sq = b.velocity.x * b.velocity.x + b.velocity.y * b.velocity.y;
        assert!(sq <= 2_000 * 2_000);
        assert!(sq >= 3_900_000);
    }
}

#[test]
fn tiny_heading_draw_still_reaches_full_speed() {
    // The smallest diagonal draw keeps its direction and lands within half
    // a percent of two units, thanks to the scaled-up normalisation.
    let b = Boid::new_with_heading(0, 0, 1, 1);
    assert_eq!(b.velocity.x, b.velocity.y);
    assert!(b.velocity.x > 0);
    let sq = b.velocity.x * b.velocity.x + b.velocity.y * b.velocity.y;
    assert!(sq >= 3_900_000);
    assert!(sq <= 4_000_000);
}

#[test]
fn interpolation_blends_between_previous_and_current() {
    let a = Vec2i { x: 0, y: 100 };
    let b = Vec2i { x: 1_000, y: 300 };
    assert_eq!(lerp(a, b, 0), a);
    assert_eq!(lerp(a, b, 1000), b);
    assert_eq!(lerp(a, b, 500), Vec2i { x: 500, y: 200 });
    let mut bd = Boid::new_with_heading(0, 0, 0, 0);
    bd.prev_position = a;
    bd.position = b;
    assert_eq!(bd.get_interpolated_position(250), Vec2i { x: 250, y: 150 });
}

#[test]
fn clock_accumulates_and_drains_whole_steps() {
    let mut c = PhysicsClock::new(20_000);
    assert!(!c.has_pending_step());
    c.add_elapsed(10_000);
    assert!(!c.has_pending_step());
    c.add_elapsed(10_000);
    assert!(c.has_pending_step());
    c.consume_step();
    assert_eq!(c.accumulator, 0);
}

#[test]
fn clock_alpha_is_the_step_fraction_in_thousandths() {
    let mut c = PhysicsClock::new(20_000);
    c.add_elapsed(5_000);
    assert_eq!(c.alpha_milli(true), 250);
    assert_eq!(c.alpha_milli(false), 1000);
}

#[test]
fn params_default_matches_the_documented_setup() {
    let p = SimulationParams::default();
    assert_eq!(p.num_boids, 500);
    assert_eq!(p.separation_weight, 1_500);
    assert_eq!(p.alignment_weight, 1_000);
    assert_eq!(p.cohesion_weight, 1_000);
    assert_eq!(p.separation_radius, 50_000);
    assert_eq!(p.alignment_radius, 200_000);
    assert_eq!(p.cohesion_radius, 150_000);
    assert_eq!(p.max_speed, 50_000);
    assert_eq!(p.world_size, 5_000_000);
    assert_eq!(p.cell_size_factor, 100);
    assert_eq!(p.fixed_physics_fps, 30);
    assert!(p.enable_parallel && p.enable_spatial_grid && p.enable_interpolation);
    assert!(!p.show_debug && !p.pause_simulation);
}

#[test]
fn detect_changes_reports_everything_before_a_snapshot() {
    let p = SimulationParams::default();
    assert_eq!(p.detect_changes(), (true, true, true, true));
}

#[test]
fn detect_changes_is_quiet_right_after_a_snapshot() {
    let mut p = SimulationParams::default();
    p.take_snapshot();
    assert_eq!(p.detect_changes(), (false, false, false, false));
}

#[test]
fn detect_changes_classifies_each_kind_of_change() {
    let mut p = SimulationParams::default();
    p.take_snapshot();
    p.num_boids = 600;
    p.max_speed = 60_000;
    p.show_debug = true;
    p.world_size = 6_000_000;
    assert_eq!(p.detect_changes(), (true, true, true, true));
    p.take_snapshot();
    p.cohesion_radius = 140_000;
    assert_eq!(p.detect_changes(), (false, true, false, false));
}

#[test]
fn slider_ranges_match_the_documented_bounds() {
    assert_eq!(SimulationParams::get_num_boids_range(), (10, 200_000));
    assert_eq!(SimulationParams::get_max_speed_range(), (1_000, 10_000));
    assert_eq!(SimulationParams::get_weight_range(), (0, 3_000));
    assert_eq!(SimulationParams::get_radius_range(), (5_000, 200_000));
    assert_eq!(SimulationParams::get_world_size_range(), (1_000_000, 50_000_000));
    assert_eq!(SimulationParams::get_cell_size_factor_range(), (10, 2_000));
    assert_eq!(SimulationParams::get_physics_fps_range(), (30, 240));
    assert_eq!(SimulationParams::get_render_fps_range(), (0, 240));
}
