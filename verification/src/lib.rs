//! A smoothed-particle-hydrodynamics (SPH) fluid engine over fixed-point
//! arithmetic.
//!
//! The engine keeps a fixed ensemble of particles (position, velocity,
//! density, pressure, force), rebuilds a spatial-hash neighbor index every
//! tick, evaluates kernel-weighted density and pressure forces over that
//! index, and integrates the particles forward in time with wall-boundary
//! reflection and an optional pointer interaction.
//!
//! All scalars are fixed-point: an `i64` counting `fixed::FX_ONE` steps per
//! world unit.  Callers that work in floating point convert at the boundary.

pub mod constants;
pub mod fixed;
pub mod kernels;
pub mod laws;
pub mod physics;
pub mod search;
pub mod simulation;

pub use fixed::Vec2Fx;
