use boids::spatial_grid::SpatialGrid;
use boids::vec2::{wrap_delta, wrapped_distance_squared, Vec2i};

const WORLD: i64 = 5_000_000;

fn empty_grid() -> SpatialGrid {
    SpatialGrid::new(20_000, WORLD)
}

#[test]
fn new_grid_has_ceiling_side_and_no_population() {
    let g = SpatialGrid::new(20_000, WORLD);
    assert_eq!(g.grid_size, 250);
    assert_eq!(g.grid.len(), 250 * 250);
    let (occupied, total, percent, max_pop) = g.get_statistics();
    assert_eq!(occupied, 0);
    assert_eq!(total, 250 * 250);
    assert_eq!(percent, 0);
    assert_eq!(max_pop, 0);
}

#[test]
fn new_grid_rounds_cell_count_up() {
    let g = SpatialGrid::new(30_000, 100_000);
    // ceil(100000 / 30000) = 4
    assert_eq!(g.grid_size, 4);
}

#[test]
fn insert_updates_statistics() {
    let mut g = empty_grid();
    let p = Vec2i { x: 0, y: 0 };
    g.insert(0, p, WORLD);
    g.insert(1, p, WORLD);
    g.insert(2, Vec2i { x: 2_000_000, y: 2_000_000 }, WORLD);
    let (occupied, total, _percent, max_pop) = g.get_statistics();
    assert_eq!(occupied, 2);
    assert_eq!(total, 250 * 250);
    assert_eq!(max_pop, 2);
}

#[test]
fn reflexive_containment_query_returns_inserted_agent() {
    // Insert an agent at p, then query p's neighborhood from another
    // index: the agent must come back, at squared distance zero.
    let mut g = empty_grid();
    let p = Vec2i { x: 123_000, y: -456_000 };
    let mut positions = Vec::new();
    for _ in 0..8 {
        positions.push(Vec2i { x: 0, y: 0 });
    }
    positions[7] = p;
    g.insert(7, p, WORLD);
    let q = g.get_nearby_with_distances(0, p, &positions, WORLD);
    assert!(q.iter().any(|e| e.index == 7 && e.distance_squared == 0));
}

#[test]
fn query_skips_the_querying_index() {
    let mut g = empty_grid();
    let p = Vec2i { x: 0, y: 0 };
    let positions = vec![p, p];
    g.insert(0, p, WORLD);
    g.insert(1, p, WORLD);
    let q = g.get_nearby_with_distances(0, p, &positions, WORLD);
    assert!(q.iter().all(|e| e.index != 0));
    assert!(q.iter().any(|e| e.index == 1 && e.distance_squared == 0));
}

#[test]
fn query_finds_neighbor_across_the_seam() {
    // Two agents hugging opposite edges share a toroidal neighborhood.
    let mut g = empty_grid();
    let a = Vec2i { x: -WORLD / 2 + 1_000, y: 0 };
    let b = Vec2i { x: WORLD / 2 - 1_000, y: 0 };
    let positions = vec![a, b];
    g.insert(0, a, WORLD);
    g.insert(1, b, WORLD);
    let q = g.get_nearby_with_distances(0, a, &positions, WORLD);
    assert!(q.iter().any(|e| e.index == 1 && e.distance_squared == 4_000_000));
}

#[test]
fn clear_resets_statistics_to_zero() {
    let mut g = empty_grid();
    for i in 0..10usize {
        g.insert(i, Vec2i { x: (i as i64) * 100_000, y: 0 }, WORLD);
    }
    let (occupied_before, _, _, _) = g.get_statistics();
    assert!(occupied_before > 0);
    g.clear();
    let (occupied, total, percent, max_pop) = g.get_statistics();
    assert_eq!(occupied, 0);
    assert_eq!(total, 250 * 250);
    assert_eq!(percent, 0);
    assert_eq!(max_pop, 0);
    // Clearing an already clear grid reports the same zeros.
    g.clear();
    let (occupied2, _, _, max_pop2) = g.get_statistics();
    assert_eq!(occupied2, 0);
    assert_eq!(max_pop2, 0);
}

#[test]
fn update_statistics_computes_average_of_occupied_cells() {
    let mut g = empty_grid();
    let p = Vec2i { x: 0, y: 0 };
    // Three agents in one cell, one in another: average 4 / 2 = 2.
    g.insert(0, p, WORLD);
    g.insert(1, p, WORLD);
    g.insert(2, p, WORLD);
    g.insert(3, Vec2i { x: 2_000_000, y: 0 }, WORLD);
    g.update_statistics();
    assert_eq!(g.avg_cell_population, 2);
}

#[test]
fn cell_index_is_row_major_and_clamped() {
    let g = SpatialGrid::new(1_000_000, WORLD);
    assert_eq!(g.grid_size, 5);
    // Center of the world falls in the middle cell.
    let c = g.pos_to_cell_index(Vec2i { x: 0, y: 0 }, WORLD);
    assert_eq!(c, 2 * 5 + 2);
    // The far corner clamps into the last cell.
    let c2 = g.pos_to_cell_index(Vec2i { x: WORLD / 2, y: WORLD / 2 }, WORLD);
    assert_eq!(c2, 4 * 5 + 4);
}

#[test]
fn cell_coords_wrap_modulo_grid_size() {
    let g = SpatialGrid::new(1_000_000, WORLD);
    assert_eq!(g.cell_coords_to_index(5, 0), 0);
    assert_eq!(g.cell_coords_to_index(6, 5), 1);
}

#[test]
fn wrapped_distance_prefers_the_short_way_around() {
    let a = Vec2i { x: -WORLD / 2 + 1_000, y: 0 };
    let b = Vec2i { x: WORLD / 2 - 1_000, y: 0 };
    // Around the seam the gap is 2 units (2000 milli), not world - 2.
    assert_eq!(wrapped_distance_squared(a, b, WORLD), 4_000_000);
    assert_eq!(wrapped_distance_squared(b, a, WORLD), 4_000_000);
}

#[test]
fn wrapped_distance_is_direct_within_half_world() {
    let a = Vec2i { x: 0, y: 0 };
    let b = Vec2i { x: 3_000, y: 4_000 };
    assert_eq!(wrapped_distance_squared(a, b, WORLD), 25_000_000);
}

#[test]
fn wrap_delta_keeps_sign_toward_nearest_image() {
    // Direct delta 4_998_000 exceeds half the world, so the wrapped delta
    // goes the other way around.
    assert_eq!(wrap_delta(-2_499_000, 2_499_000, WORLD), 2_000);
    assert_eq!(wrap_delta(2_499_000, -2_499_000, WORLD), -2_000);
    assert_eq!(wrap_delta(1_000, 4_000, WORLD), -3_000);
}

#[test]
fn crowded_center_cell_narrows_the_scan_to_the_cross() {
    // With 20-unit cells, put ten agents in the cell at the origin, one in
    // the diagonally adjacent cell, one in the orthogonally adjacent cell,
    // and ten more spread far apart so the average occupied-cell
    // population stays low. The origin cell is then crowded past twice the
    // average, and a query there examines only the five-cell cross: the
    // orthogonal neighbor is reported, the diagonal one is not.
    let mut g = empty_grid();
    let mut positions = Vec::new();
    let center = Vec2i { x: 10_000, y: 10_000 };
    for _ in 0..10 {
        positions.push(center);
    }
    let diagonal = Vec2i { x: 30_000, y: 30_000 };
    positions.push(diagonal); // index 10
    let orthogonal = Vec2i { x: 30_000, y: 10_000 };
    positions.push(orthogonal); // index 11
    for i in 0..10i64 {
        positions.push(Vec2i { x: -2_000_000 + i * 300_000, y: -2_000_000 });
    }
    for (i, p) in positions.iter().enumerate() {
        g.insert(i, *p, WORLD);
    }
    g.update_statistics();
    let q = g.get_nearby_with_distances(0, center, &positions, WORLD);
    assert!(q.iter().any(|e| e.index == 11));
    assert!(q.iter().all(|e| e.index != 10));
    assert!(q.iter().any(|e| e.index == 1 && e.distance_squared == 0));
}

#[test]
fn uncrowded_center_cell_scans_the_full_ring() {
    // The same layout without the crowding: the diagonal neighbor is
    // reported too.
    let mut g = empty_grid();
    let center = Vec2i { x: 10_000, y: 10_000 };
    let diagonal = Vec2i { x: 30_000, y: 30_000 };
    let positions = vec![center, diagonal];
    g.insert(0, center, WORLD);
    g.insert(1, diagonal, WORLD);
    g.update_statistics();
    let q = g.get_nearby_with_distances(0, center, &positions, WORLD);
    assert!(q.iter().any(|e| e.index == 1));
}
