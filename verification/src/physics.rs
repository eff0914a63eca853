//! Physics formulas: density contribution, equation of state, pressure
//! force and gravity force, built on the kernel functions.
//!
//! The pressure force deliberately uses the asymmetric form: only the
//! *neighbor's* density stands in the denominator, so a pair's two forces
//! are not action-reaction symmetric.  Symmetrized variants are a separate
//! physics choice, not a repair to make here.

use vstd::prelude::*;
use crate::fixed::{
    Vec2Fx, FX_ONE, tdiv, sat64, fx_mul, mul_div, lemma_mul_bounds, lemma_tdiv_bounds, wide_div,
    sat_to_i64,
};
use crate::constants::{SimulationParams, MAX_RADIUS};
use crate::kernels::{
    poly_kernel, poly_kernel_val, spiky_kernel_gradient, spiky_component, dist_sq_raw,
};

verus! {

/// The linear equation of state: `gas_constant * (density - rest_density)`.
/// Negative (attractive) when the local density is below the rest density.
pub open spec fn pressure_eos(density: int, gas_constant: int, rest_density: int) -> int {
    fx_mul(gas_constant, density - rest_density)
}

/// One neighbor's density contribution:
/// `mass * density_kernel(pos, pos_other)`.
pub open spec fn density_contrib(p: Vec2Fx, q: Vec2Fx, h: int, mass: int) -> int {
    fx_mul(mass, poly_kernel_val(dist_sq_raw(p, q), h))
}

/// The scalar factor of the pressure force:
/// `mass * (pressure + pressure_other) / (2 * density_other)`.
pub open spec fn pressure_force_scale(p_i: int, p_j: int, rho_j: int, mass: int) -> int {
    sat64(tdiv(mass * (p_i + p_j), 2 * rho_j))
}

/// One component of the pressure force: the scalar factor times the
/// matching component of the pressure-gradient kernel.
pub open spec fn pressure_force_component(s: int, gc: int) -> int {
    sat64(tdiv(s * gc, FX_ONE as int))
}

/// One component of the gravity force: `density * gravity`.
pub open spec fn gravity_component(density: int, g: int) -> int {
    fx_mul(density, g)
}

/// Derive a particle's pressure from its density by the linear equation of
/// state.  The result can be negative when the density is below rest.
pub fn calculate_pressure(density: i64, params: &SimulationParams) -> (r: i64)
    requires
        density >= 0,
        params.rest_density >= 0,
    ensures
        r as int == pressure_eos(
            density as int,
            params.gas_constant as int,
            params.rest_density as int,
        ),
{
    let diff = density - params.rest_density;
    mul_div(params.gas_constant, diff, FX_ONE)
}

/// One neighbor's density contribution, never negative.
pub fn calculate_density(pos: Vec2Fx, pos_other: Vec2Fx, params: &SimulationParams) -> (r: i64)
    requires
        pos.spec_bounded(),
        pos_other.spec_bounded(),
        1 <= params.influence_radius <= MAX_RADIUS,
        params.mass >= 0,
    ensures
        r as int == density_contrib(
            pos,
            pos_other,
            params.influence_radius as int,
            params.mass as int,
        ),
        r >= 0,
{
    let k = poly_kernel(pos, pos_other, params);
    proof {
        crate::fixed::lemma_mul_le(params.mass as int, i64::MAX as int, k as int, i64::MAX as int);
        lemma_tdiv_bounds(params.mass as int * k as int, FX_ONE as int);
    }
    mul_div(params.mass, k, FX_ONE)
}

/// The gravity force on a particle: `density * gravity_vector`.
pub fn calculate_gravity_force(density: i64, params: &SimulationParams) -> (r: Vec2Fx)
    ensures
        r.x as int == gravity_component(density as int, params.gravity.x as int),
        r.y as int == gravity_component(density as int, params.gravity.y as int),
{
    Vec2Fx {
        x: mul_div(density, params.gravity.x, FX_ONE),
        y: mul_div(density, params.gravity.y, FX_ONE),
    }
}

/// The pressure force a neighbor exerts:
/// `mass * ((pressure + pressure_other) / (2 * density_other))` times the
/// pressure-gradient kernel.
///
/// A neighbor whose density has rounded to zero or below contributes
/// nothing (the quotient is undefined there); this fail-soft branch keeps
/// the pipeline free of division by zero.  `fallback_dir` is handed to the
/// gradient kernel for the coincident-pair case.
pub fn calculate_pressure_force(
    pos: Vec2Fx,
    pos_other: Vec2Fx,
    pressure: i64,
    pressure_other: i64,
    density_other: i64,
    params: &SimulationParams,
    fallback_dir: Vec2Fx,
) -> (r: Vec2Fx)
    requires
        pos.spec_bounded(),
        pos_other.spec_bounded(),
        1 <= params.influence_radius <= MAX_RADIUS,
        params.mass >= 0,
    ensures
        density_other <= 0 ==> r == Vec2Fx::spec_zero(),
        density_other > 0 ==> {
            let s = pressure_force_scale(
                pressure as int,
                pressure_other as int,
                density_other as int,
                params.mass as int,
            );
            &&& r.x as int == pressure_force_component(
                s,
                spiky_component(
                    pos.x - pos_other.x,
                    dist_sq_raw(pos, pos_other),
                    params.influence_radius as int,
                    fallback_dir.x as int,
                ),
            )
            &&& r.y as int == pressure_force_component(
                s,
                spiky_component(
                    pos.y - pos_other.y,
                    dist_sq_raw(pos, pos_other),
                    params.influence_radius as int,
                    fallback_dir.y as int,
                ),
            )
        },
{
    if density_other <= 0 {
        return Vec2Fx { x: 0, y: 0 };
    }
    let grad = spiky_kernel_gradient(pos, pos_other, params, fallback_dir);
    let psum = (pressure as i128) + (pressure_other as i128);
    proof {
        lemma_mul_bounds(
            params.mass as int,
            psum as int,
            0x7fff_ffff_ffff_ffff,
            0x1_0000_0000_0000_0000,
        );
    }
    let num = (params.mass as i128) * psum;
    let den = 2 * (density_other as i128);
    let s = sat_to_i64(wide_div(num, den));
    Vec2Fx { x: mul_div(s, grad.x, FX_ONE), y: mul_div(s, grad.y, FX_ONE) }
}

} // verus!
