//! Simulation parameters and their validation.
//!
//! Every scalar is fixed-point (`fixed::FX_ONE` steps per world unit).  A
//! parameter set is checked eagerly with [`SimulationParams::validate`]:
//! the per-tick entry points require a valid parameter set and refuse to
//! run on a misconfigured one, rather than produce silently wrong physics.

use vstd::prelude::*;
use crate::fixed::{Vec2Fx, FX_ONE};

verus! {

/// Number of particles the default caller spawns.
pub const NO_PARTICLES: usize = 2000;

/// Default cap on a particle's speed.
pub const MAX_VEL: i64 = 5000 * FX_ONE;

/// Default world width, in world units.
pub const WIDTH: i64 = 1800;

/// Default world height, in world units.
pub const HEIGHT: i64 = 1000;

/// Default particle radius used for wall collisions.
pub const RADIUS: i64 = 5 * FX_ONE;

/// Default particle mass.
pub const MASS: i64 = FX_ONE;

/// Default rest density (0.0018 world units, rounded to fixed point).
pub const REST_DENSITY: i64 = 118;

/// Default gravity, vertical component.
pub const GRAVITY_Y: i64 = 80000 * FX_ONE;

/// Default stiffness of the pressure response.
pub const GAS_CONSTANT: i64 = 75000000 * FX_ONE;

/// Default kernel support radius.
pub const INFLUENCE_RADIUS: i64 = 40 * FX_ONE;

/// Default grid cell size (equal to the influence radius).
pub const CELL_SIZE: i64 = 40 * FX_ONE;

/// Default velocity damping factor on a wall bounce (0.8, in fixed point).
pub const DAMPING: i64 = 52429;

/// Default radius of the pointer interaction.
pub const MOUSE_INFLUENCE_RADIUS: i64 = 70 * FX_ONE;

/// Default magnitude of the pointer interaction.
pub const MOUSE_FORCE_STRENGTH: i64 = 2000 * FX_ONE;

/// Largest world extent the engine accepts, in fixed-point steps.
pub const MAX_WORLD: i64 = 0x2000_0000_0000;

/// Largest kernel support radius the engine accepts, in fixed-point steps.
/// Keeps the eighth power of the radius inside the wide intermediate range.
pub const MAX_RADIUS: i64 = 0x400_0000;

/// Largest number of grid cells the engine will allocate.
pub const MAX_CELLS: i64 = 0x100_0000;

/// The tunable constants of the simulation, owned by the caller and passed
/// by reference each tick.
pub struct SimulationParams {
    /// Cap on a particle's speed.
    pub max_vel: i64,
    /// Particle radius used for wall collisions.
    pub radius: i64,
    /// Particle mass.
    pub mass: i64,
    /// Density at which the pressure response is zero.
    pub rest_density: i64,
    /// Gravity vector, applied as a force proportional to density.
    pub gravity: Vec2Fx,
    /// Stiffness of the pressure response (equation of state).
    pub gas_constant: i64,
    /// Kernel support radius: pairs farther apart contribute nothing.
    pub influence_radius: i64,
    /// Side of a grid cell; must be at least the influence radius.
    pub cell_size: i64,
    /// Velocity damping factor on a wall bounce, in `[0, FX_ONE]`.
    pub damping: i64,
    /// Radius of the pointer interaction.
    pub mouse_influence_radius: i64,
    /// Magnitude of the pointer interaction.
    pub mouse_force: i64,
}

impl SimulationParams {
    /// A parameter set the engine can run with, for a given world size:
    /// a positive kernel radius no larger than the cell size, a damping
    /// factor in `[0, 1]`, non-negative physical constants, and a world
    /// large enough to hold a particle and at least one grid cell, small
    /// enough that the grid fits in memory.
    pub open spec fn spec_valid(self, world: Vec2Fx) -> bool {
        &&& 0 < self.influence_radius <= MAX_RADIUS
        &&& self.influence_radius <= self.cell_size
        &&& 0 <= self.radius
        &&& 0 <= self.mass
        &&& 0 <= self.max_vel
        &&& 0 <= self.rest_density
        &&& 0 <= self.gas_constant
        &&& 0 <= self.damping <= FX_ONE
        &&& 0 < self.mouse_influence_radius
        &&& 2 * self.radius < world.x
        &&& 2 * self.radius < world.y
        &&& self.cell_size <= world.x
        &&& self.cell_size <= world.y
        &&& world.x <= MAX_WORLD
        &&& world.y <= MAX_WORLD
        &&& (world.x / self.cell_size) * (world.y / self.cell_size) <= MAX_CELLS
    }

    /// Check a parameter set eagerly, before the first tick.
    pub fn validate(&self, world: Vec2Fx) -> (r: bool)
        ensures
            r == self.spec_valid(world),
    {
        if !(0 < self.influence_radius && self.influence_radius <= MAX_RADIUS
            && self.influence_radius <= self.cell_size) {
            return false;
        }
        if !(0 <= self.radius && 0 <= self.mass && 0 <= self.max_vel && 0 <= self.rest_density
            && 0 <= self.gas_constant) {
            return false;
        }
        if !(0 <= self.damping && self.damping <= FX_ONE && 0 < self.mouse_influence_radius) {
            return false;
        }
        if !(0 < world.x && 0 < world.y && world.x <= MAX_WORLD && world.y <= MAX_WORLD) {
            return false;
        }
        if !(self.radius <= 0x1000_0000_0000 && 2 * self.radius < world.x && 2 * self.radius
            < world.y) {
            return false;
        }
        if !(self.cell_size <= world.x && self.cell_size <= world.y) {
            return false;
        }
        let grid_w = crate::fixed::div_pos(world.x, self.cell_size);
        let grid_h = crate::fixed::div_pos(world.y, self.cell_size);
        proof {
            crate::fixed::lemma_i64_mul_fits(grid_w as int, grid_h as int);
        }
        (grid_w as i128) * (grid_h as i128) <= MAX_CELLS as i128
    }
}

impl Default for SimulationParams {
    /// The default tuning: the values the interactive caller starts from.
    fn default() -> (r: Self)
        ensures
            r.max_vel == MAX_VEL,
            r.radius == RADIUS,
            r.mass == MASS,
            r.rest_density == REST_DENSITY,
            r.gravity == (Vec2Fx { x: 0, y: GRAVITY_Y }),
            r.gas_constant == GAS_CONSTANT,
            r.influence_radius == INFLUENCE_RADIUS,
            r.cell_size == CELL_SIZE,
            r.damping == DAMPING,
            r.mouse_influence_radius == MOUSE_INFLUENCE_RADIUS,
            r.mouse_force == MOUSE_FORCE_STRENGTH,
    {
        SimulationParams {
            max_vel: MAX_VEL,
            radius: RADIUS,
            mass: MASS,
            rest_density: REST_DENSITY,
            gravity: Vec2Fx { x: 0, y: GRAVITY_Y },
            gas_constant: GAS_CONSTANT,
            influence_radius: INFLUENCE_RADIUS,
            cell_size: CELL_SIZE,
            damping: DAMPING,
            mouse_influence_radius: MOUSE_INFLUENCE_RADIUS,
            mouse_force: MOUSE_FORCE_STRENGTH,
        }
    }
}

} // verus!
