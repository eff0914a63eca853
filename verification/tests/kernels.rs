use fluidsim::constants::SimulationParams;
use fluidsim::fixed::{Vec2Fx, FX_ONE};
use fluidsim::kernels::{poly_kernel, spiky_kernel_gradient};
use fluidsim::physics::{
    calculate_density, calculate_gravity_force, calculate_pressure, calculate_pressure_force,
};

fn params_h(h: i64) -> SimulationParams {
    let mut p = SimulationParams::default();
    p.influence_radius = h;
    p.cell_size = h;
    p
}

fn at(x: i64, y: i64) -> Vec2Fx {
    Vec2Fx { x, y }
}

fn unit_x() -> Vec2Fx {
    Vec2Fx { x: FX_ONE, y: 0 }
}

#[test]
fn poly_kernel_value_at_zero_distance() {
    // h = 2 world units: 4 / (pi * h^8) * (h^2)^3 in fixed point
    let p = params_h(2 * FX_ONE);
    let v = poly_kernel(at(300, 400), at(300, 400), &p);
    assert_eq!(v, 20860);
}

#[test]
fn poly_kernel_value_at_one_world_unit() {
    let p = params_h(2 * FX_ONE);
    let v = poly_kernel(at(FX_ONE, 0), at(0, 0), &p);
    assert_eq!(v, 8800);
}

#[test]
fn poly_kernel_zero_beyond_support() {
    let p = params_h(2 * FX_ONE);
    // distance 3 world units > h = 2
    assert_eq!(poly_kernel(at(3 * FX_ONE, 0), at(0, 0), &p), 0);
    // distance just past h (h along x, one step along y)
    assert_eq!(poly_kernel(at(2 * FX_ONE, 1), at(0, 0), &p), 0);
}

#[test]
fn poly_kernel_decreases_with_distance() {
    let p = params_h(2 * FX_ONE);
    let mut last = i64::MAX;
    let steps = [0i64, 13000, 40000, 65536, 90000, 120000, 131072];
    for &d in steps.iter() {
        let v = poly_kernel(at(d, 0), at(0, 0), &p);
        assert!(v <= last, "kernel grew between distances");
        assert!(v >= 0);
        last = v;
    }
    // strictly smaller across a full world unit
    let near = poly_kernel(at(0, 0), at(0, 0), &p);
    let far = poly_kernel(at(FX_ONE, 0), at(0, 0), &p);
    assert!(far < near);
}

#[test]
fn spiky_gradient_zero_at_support_radius() {
    let h = 2 * FX_ONE;
    let p = params_h(h);
    // distance exactly h along the x axis
    let g = spiky_kernel_gradient(at(h, 0), at(0, 0), &p, unit_x());
    assert_eq!(g.x, 0);
    assert_eq!(g.y, 0);
    // and beyond
    let g2 = spiky_kernel_gradient(at(h + FX_ONE, 0), at(0, 0), &p, unit_x());
    assert_eq!(g2.x, 0);
    assert_eq!(g2.y, 0);
}

#[test]
fn spiky_gradient_coincident_uses_fallback_direction() {
    let p = params_h(2 * FX_ONE);
    let g = spiky_kernel_gradient(at(7, 9), at(7, 9), &p, unit_x());
    // the fixed coefficient times h^2, along the fallback direction
    assert_eq!(g.x, -26075);
    assert_eq!(g.y, 0);
}

#[test]
fn spiky_gradient_coincident_magnitude_deterministic() {
    // same magnitude whatever the fallback direction
    let p = params_h(2 * FX_ONE);
    let gx = spiky_kernel_gradient(at(0, 0), at(0, 0), &p, unit_x());
    let gy = spiky_kernel_gradient(at(0, 0), at(0, 0), &p, Vec2Fx { x: 0, y: FX_ONE });
    let mx = (gx.x as i128) * (gx.x as i128) + (gx.y as i128) * (gx.y as i128);
    let my = (gy.x as i128) * (gy.x as i128) + (gy.y as i128) * (gy.y as i128);
    assert_eq!(mx, my);
    assert!(mx > 0);
}

#[test]
fn spiky_gradient_points_from_other_toward_negative() {
    // the coefficient is negative: for a particle right of the other, the
    // kernel vector points left (the force pass subtracts it)
    let p = params_h(2 * FX_ONE);
    let g = spiky_kernel_gradient(at(FX_ONE, 0), at(0, 0), &p, unit_x());
    assert_eq!(g.x, -6517);
    assert_eq!(g.y, 0);
}

#[test]
fn pressure_sign_follows_density_against_rest() {
    let mut p = SimulationParams::default();
    p.gas_constant = 1000 * FX_ONE;
    p.rest_density = 30;
    assert_eq!(calculate_pressure(100, &p), 70000);
    assert_eq!(calculate_pressure(10, &p), -20000);
    assert_eq!(calculate_pressure(30, &p), 0);
}

#[test]
fn density_contribution_scales_with_mass() {
    let mut p = params_h(2 * FX_ONE);
    p.mass = FX_ONE;
    let one = calculate_density(at(0, 0), at(0, 0), &p);
    assert_eq!(one, 20860);
    p.mass = 2 * FX_ONE;
    let two = calculate_density(at(0, 0), at(0, 0), &p);
    assert_eq!(two, 2 * one);
}

#[test]
fn gravity_force_is_density_times_gravity() {
    let mut p = SimulationParams::default();
    p.gravity = Vec2Fx { x: 0, y: 2 * FX_ONE };
    let f = calculate_gravity_force(300, &p);
    assert_eq!(f.x, 0);
    assert_eq!(f.y, 600);
}

#[test]
fn pressure_force_zero_for_depleted_neighbor() {
    let p = params_h(2 * FX_ONE);
    let f = calculate_pressure_force(at(FX_ONE, 0), at(0, 0), 1000, 1000, 0, &p, unit_x());
    assert_eq!(f.x, 0);
    assert_eq!(f.y, 0);
}

#[test]
fn pressure_force_repels_at_positive_pressure() {
    let mut p = params_h(2 * FX_ONE);
    p.mass = FX_ONE;
    // both particles at equal positive pressure: the kernel points toward
    // the neighbor, so the accumulator's subtraction pushes them apart
    let f = calculate_pressure_force(at(FX_ONE, 0), at(0, 0), 50000, 50000, 30000, &p, unit_x());
    assert!(f.x < 0);
    assert_eq!(f.y, 0);
}
