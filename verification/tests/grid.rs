use fluidsim::constants::SimulationParams;
use fluidsim::fixed::{Vec2Fx, FX_ONE};
use fluidsim::search::{find_cell_start, grid_coord, hash, neighbours, SpatialGrid};

fn params_cell(cell: i64) -> SimulationParams {
    let mut p = SimulationParams::default();
    p.influence_radius = cell;
    p.cell_size = cell;
    p.radius = 0;
    p
}

fn at(x: i64, y: i64) -> Vec2Fx {
    Vec2Fx { x, y }
}

#[test]
fn grid_coord_floors_by_cell_size() {
    let p = params_cell(2 * FX_ONE);
    assert_eq!(grid_coord(at(0, 0), &p), (0, 0));
    assert_eq!(grid_coord(at(2 * FX_ONE - 1, 2 * FX_ONE), &p), (0, 1));
    assert_eq!(grid_coord(at(9 * FX_ONE, 5 * FX_ONE), &p), (4, 2));
}

#[test]
fn hash_is_row_major() {
    let p = params_cell(2 * FX_ONE);
    let world = at(10 * FX_ONE, 6 * FX_ONE);
    // 5 cells per row
    assert_eq!(hash((0, 0), world, &p), 0);
    assert_eq!(hash((4, 0), world, &p), 4);
    assert_eq!(hash((0, 1), world, &p), 5);
    assert_eq!(hash((3, 2), world, &p), 13);
}

#[test]
fn neighbours_is_the_three_by_three_block() {
    let offs = neighbours();
    assert_eq!(offs.len(), 9);
    for dx in -1i32..=1 {
        for dy in -1i32..=1 {
            assert!(offs.iter().any(|&o| o == (dx, dy)));
        }
    }
}

#[test]
fn find_cell_start_records_runs() {
    // ids sorted: 0 0 2 2 2 5
    let cells: Vec<(u32, usize)> = vec![(0, 3), (0, 1), (2, 0), (2, 4), (2, 5), (5, 2)];
    let mut lookups: Vec<(usize, usize)> = vec![(0, 0); 6];
    find_cell_start(&mut lookups, &cells);
    assert_eq!(lookups[0], (0, 2));
    assert_eq!(lookups[1], (0, 0));
    assert_eq!(lookups[2], (2, 3));
    assert_eq!(lookups[3], (0, 0));
    assert_eq!(lookups[4], (0, 0));
    assert_eq!(lookups[5], (5, 1));
}

#[test]
fn build_sorts_pairs_and_indexes_them() {
    let p = params_cell(2 * FX_ONE);
    let world = at(8 * FX_ONE, 8 * FX_ONE);
    // cells: (3,3), (0,0), (1,0) -> ids 15, 0, 1 in a 4x4 grid
    let preds = vec![
        at(7 * FX_ONE, 7 * FX_ONE),
        at(FX_ONE, FX_ONE),
        at(3 * FX_ONE, FX_ONE),
    ];
    let g = SpatialGrid::build(&preds, &p, world);
    assert_eq!(g.grid_width, 4);
    assert_eq!(g.grid_height, 4);
    assert_eq!(g.cells, vec![(0u32, 1usize), (1, 2), (15, 0)]);
    assert_eq!(g.lookups.len(), 16);
    assert_eq!(g.lookups[0], (0, 1));
    assert_eq!(g.lookups[1], (1, 1));
    assert_eq!(g.lookups[15], (2, 1));
    assert_eq!(g.lookups[7], (0, 0));
}

fn dist_sq(a: Vec2Fx, b: Vec2Fx) -> i128 {
    let dx = (a.x - b.x) as i128;
    let dy = (a.y - b.y) as i128;
    dx * dx + dy * dy
}

/// Brute-force cross-check: within the influence radius, the grid
/// enumeration finds exactly the same particle set as an exhaustive scan.
#[test]
fn grid_enumeration_matches_exhaustive_scan() {
    let h = 2 * FX_ONE;
    let p = params_cell(h);
    let world = at(20 * FX_ONE, 20 * FX_ONE);
    // a deterministic scatter of particles inside the world
    let mut preds: Vec<Vec2Fx> = Vec::new();
    let mut seed: u64 = 0x2545_f491_4f6c_dd1d;
    for _ in 0..40 {
        seed = seed.wrapping_mul(6364136223846793005).wrapping_add(1442695040888963407);
        let x = ((seed >> 16) % (20 * FX_ONE as u64)) as i64;
        seed = seed.wrapping_mul(6364136223846793005).wrapping_add(1442695040888963407);
        let y = ((seed >> 16) % (20 * FX_ONE as u64)) as i64;
        preds.push(at(x, y));
    }
    let g = SpatialGrid::build(&preds, &p, world);
    let hh = (h as i128) * (h as i128);
    for i in 0..preds.len() {
        let listed = g.neighbours_of(&preds, i, &p);
        // no index twice
        let mut seen = vec![false; preds.len()];
        for &j in listed.iter() {
            assert!(!seen[j], "index enumerated twice");
            seen[j] = true;
        }
        // every within-radius particle is enumerated, and everything
        // enumerated sits in the 3x3 cell block around i
        let ci = grid_coord(preds[i], &p);
        for j in 0..preds.len() {
            let within = dist_sq(preds[i], preds[j]) <= hh;
            if within {
                assert!(seen[j], "grid scan missed a within-radius particle");
            }
            if seen[j] {
                let cj = grid_coord(preds[j], &p);
                let ddx = (cj.0 as i64 - ci.0 as i64).abs();
                let ddy = (cj.1 as i64 - ci.1 as i64).abs();
                assert!(ddx <= 1 && ddy <= 1, "enumerated particle outside the 3x3 block");
            }
        }
    }
}

#[test]
fn validate_accepts_the_defaults() {
    let p = SimulationParams::default();
    let world = at(1800 * FX_ONE, 1000 * FX_ONE);
    assert!(p.validate(world));
}

#[test]
fn validate_rejects_cell_smaller_than_radius() {
    let mut p = SimulationParams::default();
    p.cell_size = p.influence_radius - 1;
    assert!(!p.validate(at(1800 * FX_ONE, 1000 * FX_ONE)));
}

#[test]
fn validate_rejects_nonpositive_influence_radius() {
    let mut p = SimulationParams::default();
    p.influence_radius = 0;
    assert!(!p.validate(at(1800 * FX_ONE, 1000 * FX_ONE)));
}

#[test]
fn validate_rejects_world_too_small() {
    let p = SimulationParams::default();
    // smaller than one grid cell
    assert!(!p.validate(at(FX_ONE, FX_ONE)));
    // too small to hold a particle
    let mut q = SimulationParams::default();
    q.cell_size = FX_ONE;
    q.influence_radius = FX_ONE;
    assert!(!q.validate(at(9 * FX_ONE, 9 * FX_ONE)));
}

#[test]
fn validate_rejects_bad_damping() {
    let mut p = SimulationParams::default();
    p.damping = FX_ONE + 1;
    assert!(!p.validate(at(1800 * FX_ONE, 1000 * FX_ONE)));
    p.damping = -1;
    assert!(!p.validate(at(1800 * FX_ONE, 1000 * FX_ONE)));
}
