//! The particle store and the per-tick update pipeline.
//!
//! [`Particles`] is a structure of arrays, one slot per particle; the six
//! arrays are index-aligned (see [`Particles::wf`]).  A tick is two calls:
//! [`Particles::update`] rebuilds the spatial index from the predicted
//! positions and runs the density/pressure and force passes, then
//! [`Particles::integrate`] moves every particle, applying the pointer
//! interaction, the speed clamp and the wall bounce.
//!
//! The density and force passes are data-parallel in principle: every
//! write is to the particle's own slot, and a pass reads only state the
//! previous pass finished.  They are computed here sequentially, which is
//! the same function of the inputs.

use vstd::prelude::*;
use crate::fixed::{
    Vec2Fx, FX_ONE, tdiv, sat64, sat64s, is_sqrt, sqrt_floor, lemma_sqrt_floor, mul_div,
    lemma_mul_bounds, lemma_tdiv_bounds, wide_div, wide_mul, sat_to_i64, sat_to_i64_sym, sat_add,
    isqrt_u128, lemma_square_bound,
};
use crate::constants::SimulationParams;

verus! {

/// Half-width of the integer box the direction sampler draws from.
pub const DIR_SAMPLE_RANGE: i64 = 1024;

/// Slack allowed around unit length for a sampled direction, in fixed-point
/// steps (about half a percent of `FX_ONE`).
pub const DIR_UNIT_SLACK: i64 = 330;

/// The vector has length one, up to the sampler's slack.
pub open spec fn near_unit(v: Vec2Fx) -> bool {
    &&& (FX_ONE - DIR_UNIT_SLACK) * (FX_ONE - DIR_UNIT_SLACK) <= v.spec_len_sq()
    &&& v.spec_len_sq() <= (FX_ONE + DIR_UNIT_SLACK) * (FX_ONE + DIR_UNIT_SLACK)
    &&& -FX_ONE - DIR_UNIT_SLACK <= v.x <= FX_ONE + DIR_UNIT_SLACK
    &&& -FX_ONE - DIR_UNIT_SLACK <= v.y <= FX_ONE + DIR_UNIT_SLACK
}

/// Relies on `rand::Rng::gen_range` over `0..n`: a value drawn uniformly
/// from `[0, n)`.
#[verifier::external_body]
fn random_below(n: u64) -> (r: u64)
    requires
        n > 0,
    ensures
        r < n,
{
    rand::Rng::gen_range(&mut rand::thread_rng(), 0..n)
}

/// A unit direction at a (near-)uniformly random angle: rejection-sampled
/// from the disk and normalized in fixed point.  The deliberate
/// symmetry-breaker for coincident particles.
pub fn random_unit_dir() -> (r: Vec2Fx)
    ensures
        near_unit(r),
{
    let mut attempts: u8 = 0;
    while attempts < 16
        invariant
            attempts <= 16,
        decreases 16 - attempts,
    {
        let ux = random_below((2 * DIR_SAMPLE_RANGE + 1) as u64);
        let uy = random_below((2 * DIR_SAMPLE_RANGE + 1) as u64);
        let dx = ux as i64 - DIR_SAMPLE_RANGE;
        let dy = uy as i64 - DIR_SAMPLE_RANGE;
        proof {
            lemma_mul_bounds(dx as int, dx as int, DIR_SAMPLE_RANGE as int, DIR_SAMPLE_RANGE as int);
            lemma_mul_bounds(dy as int, dy as int, DIR_SAMPLE_RANGE as int, DIR_SAMPLE_RANGE as int);
        }
        let len2 = dx * dx + dy * dy;
        // accept only the ring where normalization keeps the length close
        // to one: at least half the sampling radius, at most all of it
        if len2 >= 512 * 512 && len2 <= DIR_SAMPLE_RANGE * DIR_SAMPLE_RANGE {
            let lw = isqrt_u128(len2 as u128);
            proof {
                assert(lw >= 1 && lw <= 2048) by (nonlinear_arith)
                    requires
                        is_sqrt(len2 as int, lw as int),
                        4 <= len2 <= 0x200000,
                ;
            }
            let l = lw as i64;
            proof {
                lemma_mul_bounds(dx as int, FX_ONE as int, DIR_SAMPLE_RANGE as int, FX_ONE as int);
                lemma_mul_bounds(dy as int, FX_ONE as int, DIR_SAMPLE_RANGE as int, FX_ONE as int);
                crate::fixed::lemma_tdiv_bounds(dx as int * FX_ONE as int, l as int);
                crate::fixed::lemma_tdiv_bounds(dy as int * FX_ONE as int, l as int);
            }
            let rx = mul_div(dx, FX_ONE, l);
            let ry = mul_div(dy, FX_ONE, l);
            let cand = Vec2Fx { x: rx, y: ry };
            proof {
                lemma_square_bound(rx as int);
                lemma_square_bound(ry as int);
            }
            let m2 = (rx as i128) * (rx as i128) + (ry as i128) * (ry as i128);
            let lo = ((FX_ONE - DIR_UNIT_SLACK) as i128) * ((FX_ONE - DIR_UNIT_SLACK) as i128);
            let hi = ((FX_ONE + DIR_UNIT_SLACK) as i128) * ((FX_ONE + DIR_UNIT_SLACK) as i128);
            if lo <= m2 && m2 <= hi && -FX_ONE - DIR_UNIT_SLACK <= rx && rx <= FX_ONE
                + DIR_UNIT_SLACK && -FX_ONE - DIR_UNIT_SLACK <= ry && ry <= FX_ONE
                + DIR_UNIT_SLACK {
                return cand;
            }
        }
        attempts = attempts + 1;
    }
    proof {
        assert((FX_ONE - DIR_UNIT_SLACK) * (FX_ONE - DIR_UNIT_SLACK) <= FX_ONE * FX_ONE + 0 * 0
            <= (FX_ONE + DIR_UNIT_SLACK) * (FX_ONE + DIR_UNIT_SLACK)) by (nonlinear_arith);
    }
    Vec2Fx { x: FX_ONE, y: 0 }
}

/// The pointer interaction mode for a tick: nothing, a push away from the
/// pointer, or a pull toward it, each with a strength.
#[derive(Clone, Copy)]
pub enum IOInteraction {
    /// No pointer interaction this tick.
    Idle,
    /// Push particles away from the pointer, strongest at the pointer.
    Repel(i64),
    /// Pull particles toward the pointer, strongest at the radius edge.
    Attract(i64),
}

/// One raw component of the velocity perturbation a pointer applies.  `d`
/// is the component of the direction the force acts along (away from the
/// pointer for repel, toward it for attract), `dist2` the raw squared
/// distance, `radius` the pointer-influence radius.  The falloff factor is
/// `1 - dist/radius` for repel and `dist/radius` for attract — the
/// asymmetry is intentional, it changes the pulled cluster's shape.
///
/// The floored square root can leave the normalized direction slightly
/// longer than one at raw-step distances, so [`pointer_delta`] caps the
/// two-component kick at the strength afterwards.
pub open spec fn pointer_component(
    d: int,
    dist2: int,
    strength: int,
    radius: int,
    attract: bool,
) -> int {
    let dist = sqrt_floor(dist2);
    if 1 <= dist && dist < radius {
        let dir = tdiv(d * FX_ONE, dist);
        let factor = if attract {
            tdiv(dist * FX_ONE, radius)
        } else {
            FX_ONE - tdiv(dist * FX_ONE, radius)
        };
        sat64s(tdiv(tdiv(dir * strength, FX_ONE as int) * factor, FX_ONE as int))
    } else {
        0
    }
}

/// The magnitude cap of a pointer strength: its absolute value, held to
/// the scalar range.
pub open spec fn mag_cap(s: int) -> int {
    if s >= 0 {
        s
    } else if -s > i64::MAX {
        i64::MAX as int
    } else {
        -s
    }
}

/// The velocity perturbation a pointer applies to a particle, both
/// components, as a function of the interaction mode: the raw kick, its
/// magnitude capped at the strength.
pub open spec fn pointer_delta(
    io: IOInteraction,
    particle_pos: Vec2Fx,
    io_pos: Vec2Fx,
    radius: int,
) -> (int, int) {
    match io {
        IOInteraction::Idle => (0, 0),
        IOInteraction::Repel(strength) => {
            let d2 = crate::kernels::dist_sq_raw(particle_pos, io_pos);
            crate::fixed::cap_magnitude(
                pointer_component(particle_pos.x - io_pos.x, d2, strength as int, radius, false),
                pointer_component(particle_pos.y - io_pos.y, d2, strength as int, radius, false),
                mag_cap(strength as int),
            )
        },
        IOInteraction::Attract(strength) => {
            let d2 = crate::kernels::dist_sq_raw(particle_pos, io_pos);
            crate::fixed::cap_magnitude(
                pointer_component(io_pos.x - particle_pos.x, d2, strength as int, radius, true),
                pointer_component(io_pos.y - particle_pos.y, d2, strength as int, radius, true),
                mag_cap(strength as int),
            )
        },
    }
}

/// The cap never exceeds the strength in magnitude.
pub proof fn lemma_mag_cap_sq(s: int)
    requires
        i64::MIN <= s <= i64::MAX,
    ensures
        0 <= mag_cap(s) <= i64::MAX,
        mag_cap(s) * mag_cap(s) <= s * s,
{
    assert(mag_cap(s) * mag_cap(s) <= s * s) by (nonlinear_arith)
        requires
            0 <= mag_cap(s),
            mag_cap(s) == s || mag_cap(s) == -s || (mag_cap(s) < -s && s < 0),
    ;
}

impl IOInteraction {
    /// The velocity perturbation this interaction applies to a particle at
    /// `particle_pos`, for a pointer at `io_pos`.  Zero outside the window
    /// `(0, mouse_influence_radius)` around the pointer, and never stronger
    /// than the interaction's strength: the kick's magnitude is capped.
    pub fn delta_vel(&self, particle_pos: Vec2Fx, io_pos: Vec2Fx, params: &SimulationParams) -> (r:
        Vec2Fx)
        requires
            particle_pos.spec_bounded(),
            io_pos.spec_bounded(),
            params.mouse_influence_radius >= 1,
        ensures
            (r.x as int, r.y as int) == pointer_delta(
                *self,
                particle_pos,
                io_pos,
                params.mouse_influence_radius as int,
            ),
            *self matches IOInteraction::Repel(strength) ==> (r.x as int) * (r.x as int) + (r.y
                as int) * (r.y as int) <= (strength as int) * (strength as int),
            *self matches IOInteraction::Attract(strength) ==> (r.x as int) * (r.x as int) + (r.y
                as int) * (r.y as int) <= (strength as int) * (strength as int),
    {
        match self {
            IOInteraction::Idle => Vec2Fx { x: 0, y: 0 },
            IOInteraction::Repel(strength) => {
                let r = pointer_force(
                    particle_pos,
                    io_pos,
                    *strength,
                    params.mouse_influence_radius,
                    false,
                );
                proof {
                    lemma_mag_cap_sq(*strength as int);
                }
                r
            },
            IOInteraction::Attract(strength) => {
                let r = pointer_force(io_pos, particle_pos, *strength, params.mouse_influence_radius, true);
                proof {
                    crate::kernels::lemma_dist_sq_symm(io_pos, particle_pos);
                    lemma_mag_cap_sq(*strength as int);
                }
                r
            },
        }
    }
}

/// Compute both components of the pointer perturbation.  `from` minus `to`
/// is the direction the force acts along.
fn pointer_force(from: Vec2Fx, to: Vec2Fx, strength: i64, radius: i64, attract: bool) -> (r:
    Vec2Fx)
    requires
        from.spec_bounded(),
        to.spec_bounded(),
        radius >= 1,
    ensures
        (r.x as int, r.y as int) == crate::fixed::cap_magnitude(
            pointer_component(
                from.x - to.x,
                crate::kernels::dist_sq_raw(from, to),
                strength as int,
                radius as int,
                attract,
            ),
            pointer_component(
                from.y - to.y,
                crate::kernels::dist_sq_raw(from, to),
                strength as int,
                radius as int,
                attract,
            ),
            mag_cap(strength as int),
        ),
        (r.x as int) * (r.x as int) + (r.y as int) * (r.y as int) <= mag_cap(strength as int)
            * mag_cap(strength as int),
{
    let cap = if strength >= 0 {
        strength
    } else if strength == i64::MIN {
        i64::MAX
    } else {
        -strength
    };
    let d2 = crate::kernels::dist_sq_exec(from, to);
    let ghost dxi = from.x - to.x;
    let ghost dyi = from.y - to.y;
    proof {
        lemma_mul_bounds(dxi, dxi, 0x4000_0000_0000, 0x4000_0000_0000);
        lemma_mul_bounds(dyi, dyi, 0x4000_0000_0000, 0x4000_0000_0000);
    }
    let dist_w = isqrt_u128(d2 as u128);
    proof {
        lemma_sqrt_floor(d2 as int, dist_w as int);
        assert(dist_w as int <= 0x8000_0000_0000) by (nonlinear_arith)
            requires
                (dist_w as int) * (dist_w as int) <= d2 as int,
                d2 as int <= 0x2000_0000_0000_0000_0000_0000,
                dist_w as int >= 0,
        ;
    }
    let dist = dist_w as i64;
    if 1 <= dist && dist < radius {
        let dx = (from.x as i128) - (to.x as i128);
        let dy = (from.y as i128) - (to.y as i128);
        proof {
            // a component difference never exceeds the distance
            assert(-(dist as int) <= dx as int <= dist as int && -(dist as int) <= dy as int
                <= dist as int) by (nonlinear_arith)
                requires
                    (dx as int) * (dx as int) + (dy as int) * (dy as int) == d2 as int,
                    (d2 as int) < ((dist as int) + 1) * ((dist as int) + 1),
                    dist as int >= 1,
            ;
            lemma_mul_bounds(dx as int, FX_ONE as int, dist as int, FX_ONE as int);
            lemma_mul_bounds(dy as int, FX_ONE as int, dist as int, FX_ONE as int);
            crate::fixed::lemma_tdiv_magnitude(
                dx as int * FX_ONE as int,
                dist as int,
                FX_ONE as int,
            );
            crate::fixed::lemma_tdiv_magnitude(
                dy as int * FX_ONE as int,
                dist as int,
                FX_ONE as int,
            );
            crate::fixed::lemma_tdiv_upper(
                dist as int * FX_ONE as int,
                radius as int,
                FX_ONE as int,
            );
        }
        let dir_x = wide_div(dx * (FX_ONE as i128), dist as i128);
        let dir_y = wide_div(dy * (FX_ONE as i128), dist as i128);
        let dist_scaled = wide_div((dist as i128) * (FX_ONE as i128), radius as i128);
        let factor = if attract {
            dist_scaled
        } else {
            (FX_ONE as i128) - dist_scaled
        };
        proof {
            lemma_mul_bounds(dir_x as int, strength as int, FX_ONE as int, 0x8000_0000_0000_0000);
            lemma_mul_bounds(dir_y as int, strength as int, FX_ONE as int, 0x8000_0000_0000_0000);
            crate::fixed::lemma_tdiv_magnitude(
                dir_x as int * strength as int,
                FX_ONE as int,
                0x8000_0000_0000_0000,
            );
            crate::fixed::lemma_tdiv_magnitude(
                dir_y as int * strength as int,
                FX_ONE as int,
                0x8000_0000_0000_0000,
            );
        }
        let tx = wide_div(dir_x * (strength as i128), FX_ONE as i128);
        let ty = wide_div(dir_y * (strength as i128), FX_ONE as i128);
        proof {
            lemma_mul_bounds(tx as int, factor as int, 0x8000_0000_0000_0000, FX_ONE as int);
            lemma_mul_bounds(ty as int, factor as int, 0x8000_0000_0000_0000, FX_ONE as int);
        }
        let vx = wide_div(tx * factor, FX_ONE as i128);
        let vy = wide_div(ty * factor, FX_ONE as i128);
        let raw_x = sat_to_i64_sym(vx);
        let raw_y = sat_to_i64_sym(vy);
        let capped = crate::fixed::cap_magnitude_exec(raw_x, raw_y, cap);
        Vec2Fx { x: capped.0, y: capped.1 }
    } else {
        proof {
            lemma_mag_cap_sq(strength as int);
            assert(crate::fixed::cap_magnitude(0, 0, mag_cap(strength as int)) == (0int, 0int))
                by (nonlinear_arith)
                requires
                    mag_cap(strength as int) >= 0,
            ;
        }
        Vec2Fx { x: 0, y: 0 }
    }
}

/// The position lies inside the world rectangle.
pub open spec fn in_world(v: Vec2Fx, world: Vec2Fx) -> bool {
    &&& 0 <= v.x <= world.x
    &&& 0 <= v.y <= world.y
}

/// One particle's full state, as a value (used to spawn).
#[derive(Clone, Copy, PartialEq, Eq, Structural, Debug)]
pub struct Particle {
    /// Current position.
    pub pos: Vec2Fx,
    /// Position extrapolated one tick ahead; basis of the neighbor search.
    pub predicted_pos: Vec2Fx,
    /// Current velocity.
    pub vel: Vec2Fx,
    /// Kernel-weighted local density.
    pub density: i64,
    /// Pressure from the equation of state.
    pub pressure: i64,
    /// Net force accumulated this tick.
    pub force: Vec2Fx,
}

/// The particle ensemble, as a structure of arrays: one slot per particle,
/// all six arrays index-aligned and of the same length.  The ensemble is
/// populated by `spawn` during setup and has a fixed size afterwards.
pub struct Particles {
    /// Current positions.
    pub pos: Vec<Vec2Fx>,
    /// Predicted positions (basis of the neighbor search).
    pub predicted_pos: Vec<Vec2Fx>,
    /// Velocities.
    pub vel: Vec<Vec2Fx>,
    /// Densities.
    pub density: Vec<i64>,
    /// Pressures.
    pub pressure: Vec<i64>,
    /// Net forces.
    pub force: Vec<Vec2Fx>,
}

/// Reflect one axis off the walls: when the position (give or take the
/// particle radius) has crossed a boundary, clamp it to the boundary and
/// reverse the velocity component, damped.
pub open spec fn resolve_axis(p: int, v: int, lo: int, hi: int, damping: int) -> (int, int) {
    if p >= hi {
        (hi, crate::fixed::fx_mul(-v, damping))
    } else if p <= lo {
        (lo, crate::fixed::fx_mul(-v, damping))
    } else {
        (p, v)
    }
}

/// The acceleration from a net force at a local density:
/// `force / density`, or zero when the density has rounded to zero or
/// below (a particle with no neighbors in radius must not divide by zero).
pub open spec fn accel_component(f: int, rho: int) -> int {
    if rho > 0 {
        sat64(tdiv(f * FX_ONE, rho))
    } else {
        0
    }
}

/// Clamp a velocity to the maximum speed, preserving its direction.  The
/// clamped speed provably never exceeds the maximum (the scaling divides
/// by one past the floored root, see [`crate::fixed::cap_magnitude`]).
pub open spec fn clamp_velocity(vx: int, vy: int, max: int) -> (int, int) {
    crate::fixed::cap_magnitude(vx, vy, max)
}

/// One particle's integration step: acceleration from force and density,
/// pointer perturbation, speed clamp, explicit-Euler move, wall bounce.
/// Returns `(pos_x, pos_y, vel_x, vel_y)` after the step.
pub open spec fn integrate_step(
    p: Vec2Fx,
    v: Vec2Fx,
    f: Vec2Fx,
    rho: int,
    world: Vec2Fx,
    mouse: Vec2Fx,
    io: IOInteraction,
    params: SimulationParams,
    dt: int,
) -> (int, int, int, int) {
    let vx1 = sat64s(v.x + tdiv(accel_component(f.x as int, rho) * dt, FX_ONE as int));
    let vy1 = sat64s(v.y + tdiv(accel_component(f.y as int, rho) * dt, FX_ONE as int));
    let dv = pointer_delta(io, p, mouse, params.mouse_influence_radius as int);
    let vx2 = sat64s(vx1 + dv.0);
    let vy2 = sat64s(vy1 + dv.1);
    let cl = clamp_velocity(vx2, vy2, params.max_vel as int);
    let px1 = sat64(p.x + tdiv(cl.0 * dt, FX_ONE as int));
    let py1 = sat64(p.y + tdiv(cl.1 * dt, FX_ONE as int));
    let rx = resolve_axis(
        px1,
        cl.0,
        params.radius as int,
        world.x - params.radius,
        params.damping as int,
    );
    let ry = resolve_axis(
        py1,
        cl.1,
        params.radius as int,
        world.y - params.radius,
        params.damping as int,
    );
    (rx.0, ry.0, rx.1, ry.1)
}

/// One particle's prediction step: extrapolate the position one tick ahead
/// and resolve it (and the velocity) against the walls.  Returns
/// `(predicted_x, predicted_y, vel_x, vel_y)`.
pub open spec fn predict_step(p: Vec2Fx, v: Vec2Fx, world: Vec2Fx, params: SimulationParams, dt: int) -> (
    int,
    int,
    int,
    int,
) {
    let px1 = sat64(p.x + tdiv(v.x * dt, FX_ONE as int));
    let py1 = sat64(p.y + tdiv(v.y * dt, FX_ONE as int));
    let rx = resolve_axis(
        px1,
        v.x as int,
        params.radius as int,
        world.x - params.radius,
        params.damping as int,
    );
    let ry = resolve_axis(
        py1,
        v.y as int,
        params.radius as int,
        world.y - params.radius,
        params.damping as int,
    );
    (rx.0, ry.0, rx.1, ry.1)
}

/// `s` is a neighbor enumeration for particle `i`: no index twice, all in
/// range, and an index is listed exactly when its (clamped) grid cell is
/// adjacent to `i`'s.
pub open spec fn is_neighbour_enum(
    s: Seq<usize>,
    preds: Seq<Vec2Fx>,
    i: int,
    params: SimulationParams,
    world: Vec2Fx,
) -> bool {
    let cs = params.cell_size as int;
    let gw = crate::search::coord_of(world.x as int, cs);
    let gh = crate::search::coord_of(world.y as int, cs);
    &&& s.no_duplicates()
    &&& (forall|k: int| 0 <= k < s.len() ==> (#[trigger] s[k]) < preds.len())
    &&& (forall|j: int| #![trigger preds[j]]
        0 <= j < preds.len() ==> (s.contains(j as usize) <==> crate::search::adjacent(
            crate::search::clamp_coord(preds[j].x as int, cs, gw),
            crate::search::clamp_coord(preds[j].y as int, cs, gh),
            crate::search::clamp_coord(preds[i].x as int, cs, gw),
            crate::search::clamp_coord(preds[i].y as int, cs, gh),
        )))
}

/// The saturating sum of density contributions along an enumeration order.
pub open spec fn density_sum(
    preds: Seq<Vec2Fx>,
    s: Seq<usize>,
    i: int,
    params: SimulationParams,
) -> int
    decreases s.len(),
{
    if s.len() == 0 {
        0
    } else {
        sat64(
            density_sum(preds, s.drop_last(), i, params) + crate::physics::density_contrib(
                preds[i],
                preds[s.last() as int],
                params.influence_radius as int,
                params.mass as int,
            ),
        )
    }
}

/// The density pass wrote `d` for particle `i`: the kernel-weighted sum of
/// its grid neighbors' contributions, in some enumeration order.
pub open spec fn density_post(
    preds: Seq<Vec2Fx>,
    i: int,
    d: int,
    params: SimulationParams,
    world: Vec2Fx,
) -> bool {
    exists|s: Seq<usize>|
        is_neighbour_enum(s, preds, i, params, world) && d == #[trigger] density_sum(
            preds,
            s,
            i,
            params,
        )
}

/// The saturating accumulation of pressure-force contributions along an
/// enumeration order: each neighbor's force is subtracted (the gradient
/// kernel points from the neighbor toward this particle); the particle
/// itself and neighbors with non-positive density contribute nothing.
/// `fbs` holds, per enumeration entry, the fallback direction the gradient
/// kernel falls back to for a coincident pair; for every non-coincident
/// pair the entry is ignored (see [`lemma_force_sum_fallback_irrelevant`]).
pub open spec fn force_sum(
    preds: Seq<Vec2Fx>,
    s: Seq<usize>,
    i: int,
    pressures: Seq<i64>,
    densities: Seq<i64>,
    params: SimulationParams,
    fbs: Seq<Vec2Fx>,
) -> (int, int)
    decreases s.len(),
{
    if s.len() == 0 {
        (0, 0)
    } else {
        let rest = force_sum(preds, s.drop_last(), i, pressures, densities, params, fbs.drop_last());
        let j = s.last() as int;
        if j == i || densities[j] <= 0 {
            rest
        } else {
            let fb = fbs.last();
            let sc = crate::physics::pressure_force_scale(
                pressures[i] as int,
                pressures[j] as int,
                densities[j] as int,
                params.mass as int,
            );
            let h = params.influence_radius as int;
            let d2 = crate::kernels::dist_sq_raw(preds[i], preds[j]);
            let gx = crate::kernels::spiky_component(
                preds[i].x - preds[j].x,
                d2,
                h,
                fb.x as int,
            );
            let gy = crate::kernels::spiky_component(preds[i].y - preds[j].y, d2, h, fb.y as int);
            (
                sat64(rest.0 - crate::physics::pressure_force_component(sc, gx)),
                sat64(rest.1 - crate::physics::pressure_force_component(sc, gy)),
            )
        }
    }
}

/// A sequence of unit-x fallback directions, the canonical choice when no
/// pair is coincident and the fallbacks are irrelevant.
pub open spec fn unit_x_seq(n: int) -> Seq<Vec2Fx> {
    Seq::new(n as nat, |k: int| Vec2Fx { x: FX_ONE, y: 0 })
}

/// When no pair of particles is coincident, the fallback directions never
/// enter the accumulated force: any two choices give the same sums.
pub proof fn lemma_force_sum_fallback_irrelevant(
    preds: Seq<Vec2Fx>,
    s: Seq<usize>,
    i: int,
    pressures: Seq<i64>,
    densities: Seq<i64>,
    params: SimulationParams,
    fbs1: Seq<Vec2Fx>,
    fbs2: Seq<Vec2Fx>,
)
    requires
        0 <= i < preds.len(),
        forall|k: int| 0 <= k < s.len() ==> (#[trigger] s[k]) < preds.len(),
        no_coincident(preds),
    ensures
        force_sum(preds, s, i, pressures, densities, params, fbs1) == force_sum(
            preds,
            s,
            i,
            pressures,
            densities,
            params,
            fbs2,
        ),
    decreases s.len(),
{
    if s.len() > 0 {
        assert(forall|k: int|
            0 <= k < s.drop_last().len() ==> (#[trigger] s.drop_last()[k]) < preds.len());
        lemma_force_sum_fallback_irrelevant(
            preds,
            s.drop_last(),
            i,
            pressures,
            densities,
            params,
            fbs1.drop_last(),
            fbs2.drop_last(),
        );
        let j = s.last() as int;
        if j != i && densities[j] > 0 {
            if i < j {
                assert(crate::kernels::dist_sq_raw(preds[i], preds[j])
                    >= crate::kernels::COINCIDENT_EPS_SQ);
            } else {
                assert(crate::kernels::dist_sq_raw(preds[j], preds[i])
                    >= crate::kernels::COINCIDENT_EPS_SQ);
                crate::kernels::lemma_dist_sq_symm(preds[j], preds[i]);
            }
        }
    }
}

/// No two particles sit within the coincidence threshold of each other, so
/// no gradient evaluation falls back to a random direction.
pub open spec fn no_coincident(preds: Seq<Vec2Fx>) -> bool {
    forall|a: int, b: int|
        0 <= a < b < preds.len() ==> crate::kernels::dist_sq_raw(
            #[trigger] preds[a],
            #[trigger] preds[b],
        ) >= crate::kernels::COINCIDENT_EPS_SQ
}

/// The force pass wrote `f` for particle `i`: the accumulated pressure
/// forces of its grid neighbors plus the gravity force, in some
/// enumeration order, with the canonical fallback directions (which a tick
/// without coincident pairs never reads).
pub open spec fn force_post(
    preds: Seq<Vec2Fx>,
    pressures: Seq<i64>,
    densities: Seq<i64>,
    i: int,
    f: Vec2Fx,
    params: SimulationParams,
    world: Vec2Fx,
) -> bool {
    exists|s: Seq<usize>|
        is_neighbour_enum(s, preds, i, params, world) && {
            let acc = #[trigger] force_sum(
                preds,
                s,
                i,
                pressures,
                densities,
                params,
                unit_x_seq(s.len() as int),
            );
            &&& f.x as int == sat64(
                acc.0 + crate::physics::gravity_component(
                    densities[i] as int,
                    params.gravity.x as int,
                ),
            )
            &&& f.y as int == sat64(
                acc.1 + crate::physics::gravity_component(
                    densities[i] as int,
                    params.gravity.y as int,
                ),
            )
        }
}

/// The force pass wrote `f` for particle `i`, whatever the tick's random
/// fallback directions were: for some enumeration order and some near-unit
/// fallback direction per entry, `f` is the accumulated pressure forces of
/// `i`'s grid neighbors plus the gravity force.  This clause holds on every
/// tick, coincident pairs included.
pub open spec fn force_post_any(
    preds: Seq<Vec2Fx>,
    pressures: Seq<i64>,
    densities: Seq<i64>,
    i: int,
    f: Vec2Fx,
    params: SimulationParams,
    world: Vec2Fx,
) -> bool {
    exists|s: Seq<usize>, fbs: Seq<Vec2Fx>|
        is_neighbour_enum(s, preds, i, params, world) && fbs.len() == s.len() && (forall|k: int|
            0 <= k < fbs.len() ==> near_unit(#[trigger] fbs[k])) && {
            let acc = #[trigger] force_sum(preds, s, i, pressures, densities, params, fbs);
            &&& f.x as int == sat64(
                acc.0 + crate::physics::gravity_component(
                    densities[i] as int,
                    params.gravity.x as int,
                ),
            )
            &&& f.y as int == sat64(
                acc.1 + crate::physics::gravity_component(
                    densities[i] as int,
                    params.gravity.y as int,
                ),
            )
        }
}

/// `-v * damping`, the reflected and damped velocity component.
fn reflect_component(v: i64, damping: i64) -> (r: i64)
    ensures
        r as int == crate::fixed::fx_mul(-(v as int), damping as int),
{
    let neg = -(v as i128);
    proof {
        lemma_mul_bounds(neg as int, damping as int, 0x8000_0000_0000_0000, 0x8000_0000_0000_0000);
    }
    sat_to_i64(wide_div(neg * (damping as i128), FX_ONE as i128))
}

impl Particles {
    /// The six arrays are index-aligned: same length each.
    pub open spec fn wf(self) -> bool {
        &&& self.predicted_pos@.len() == self.pos@.len()
        &&& self.vel@.len() == self.pos@.len()
        &&& self.density@.len() == self.pos@.len()
        &&& self.pressure@.len() == self.pos@.len()
        &&& self.force@.len() == self.pos@.len()
    }

    /// An empty ensemble, ready for spawning.
    pub fn new() -> (r: Particles)
        ensures
            r.wf(),
            r.pos@.len() == 0,
    {
        Particles {
            pos: Vec::new(),
            predicted_pos: Vec::new(),
            vel: Vec::new(),
            density: Vec::new(),
            pressure: Vec::new(),
            force: Vec::new(),
        }
    }

    /// The number of particles.
    pub fn len(&self) -> (n: usize)
        ensures
            n as int == self.pos@.len(),
    {
        self.pos.len()
    }

    /// Add one particle to the ensemble (setup only; the ensemble size is
    /// fixed during simulation).
    pub fn spawn(&mut self, particle: Particle)
        requires
            old(self).wf(),
        ensures
            final(self).wf(),
            final(self).pos@ == old(self).pos@.push(particle.pos),
            final(self).predicted_pos@ == old(self).predicted_pos@.push(particle.predicted_pos),
            final(self).vel@ == old(self).vel@.push(particle.vel),
            final(self).density@ == old(self).density@.push(particle.density),
            final(self).pressure@ == old(self).pressure@.push(particle.pressure),
            final(self).force@ == old(self).force@.push(particle.force),
    {
        self.pos.push(particle.pos);
        self.predicted_pos.push(particle.predicted_pos);
        self.vel.push(particle.vel);
        self.density.push(particle.density);
        self.pressure.push(particle.pressure);
        self.force.push(particle.force);
    }

    /// Resolve wall collisions for one position/velocity pair: each axis
    /// independently, reflecting the velocity with damping and clamping the
    /// position to the boundary minus the particle radius.  A corner can
    /// reflect both axes in one tick.
    pub fn boundaries(
        world_size: Vec2Fx,
        pos: &mut Vec2Fx,
        vel: &mut Vec2Fx,
        params: &SimulationParams,
    )
        requires
            0 <= params.radius,
            2 * params.radius < world_size.x,
            2 * params.radius < world_size.y,
        ensures
            (final(pos).x as int, final(vel).x as int) == resolve_axis(
                old(pos).x as int,
                old(vel).x as int,
                params.radius as int,
                world_size.x - params.radius,
                params.damping as int,
            ),
            (final(pos).y as int, final(vel).y as int) == resolve_axis(
                old(pos).y as int,
                old(vel).y as int,
                params.radius as int,
                world_size.y - params.radius,
                params.damping as int,
            ),
            params.radius <= final(pos).x <= world_size.x - params.radius,
            params.radius <= final(pos).y <= world_size.y - params.radius,
    {
        let hi_x = world_size.x - params.radius;
        let hi_y = world_size.y - params.radius;
        if pos.x >= hi_x {
            vel.x = reflect_component(vel.x, params.damping);
            pos.x = hi_x;
        } else if pos.x <= params.radius {
            vel.x = reflect_component(vel.x, params.damping);
            pos.x = params.radius;
        }
        if pos.y >= hi_y {
            vel.y = reflect_component(vel.y, params.damping);
            pos.y = hi_y;
        } else if pos.y <= params.radius {
            vel.y = reflect_component(vel.y, params.damping);
            pos.y = params.radius;
        }
    }

    /// Integrate every particle one step of `dt`: velocity from the
    /// accumulated force (zero acceleration where the density has rounded
    /// to zero), pointer perturbation, speed clamp, position update, wall
    /// bounce.  Positions stay inside the world.
    pub fn integrate(
        &mut self,
        world_size: Vec2Fx,
        mouse_pos: Vec2Fx,
        interaction: IOInteraction,
        params: &SimulationParams,
        dt: i64,
    )
        requires
            old(self).wf(),
            params.spec_valid(world_size),
            mouse_pos.spec_bounded(),
            forall|i: int|
                0 <= i < old(self).pos@.len() ==> in_world(#[trigger] old(self).pos@[i], world_size),
        ensures
            final(self).wf(),
            final(self).pos@.len() == old(self).pos@.len(),
            final(self).predicted_pos@ == old(self).predicted_pos@,
            final(self).density@ == old(self).density@,
            final(self).pressure@ == old(self).pressure@,
            final(self).force@ == old(self).force@,
            forall|i: int|
                0 <= i < old(self).pos@.len() ==> {
                    let st = integrate_step(
                        old(self).pos@[i],
                        old(self).vel@[i],
                        old(self).force@[i],
                        old(self).density@[i] as int,
                        world_size,
                        mouse_pos,
                        interaction,
                        *params,
                        dt as int,
                    );
                    &&& (#[trigger] final(self).pos@[i]).x as int == st.0
                    &&& final(self).pos@[i].y as int == st.1
                    &&& final(self).vel@[i].x as int == st.2
                    &&& final(self).vel@[i].y as int == st.3
                },
            forall|i: int|
                0 <= i < final(self).pos@.len() ==> in_world(
                    #[trigger] final(self).pos@[i],
                    world_size,
                ),
    {
        let n = self.pos.len();
        let mut i: usize = 0;
        while i < n
            invariant
                old(self).wf(),
                self.wf(),
                n == old(self).pos@.len(),
                self.pos@.len() == n,
                i <= n,
                params.spec_valid(world_size),
                mouse_pos.spec_bounded(),
                self.predicted_pos@ == old(self).predicted_pos@,
                self.density@ == old(self).density@,
                self.pressure@ == old(self).pressure@,
                self.force@ == old(self).force@,
                forall|k: int|
                    0 <= k < old(self).pos@.len() ==> in_world(
                        #[trigger] old(self).pos@[k],
                        world_size,
                    ),
                forall|k: int|
                    i <= k < n ==> (#[trigger] self.pos@[k]) == old(self).pos@[k]
                        && self.vel@[k] == old(self).vel@[k],
                forall|k: int|
                    0 <= k < i ==> {
                        let st = integrate_step(
                            old(self).pos@[k],
                            old(self).vel@[k],
                            old(self).force@[k],
                            old(self).density@[k] as int,
                            world_size,
                            mouse_pos,
                            interaction,
                            *params,
                            dt as int,
                        );
                        &&& (#[trigger] self.pos@[k]).x as int == st.0
                        &&& self.pos@[k].y as int == st.1
                        &&& self.vel@[k].x as int == st.2
                        &&& self.vel@[k].y as int == st.3
                        &&& in_world(self.pos@[k], world_size)
                    },
            decreases n - i,
        {
            let p = self.pos[i];
            let v = self.vel[i];
            let f = self.force[i];
            let rho = self.density[i];
            // acceleration, fail-soft at non-positive density
            let ax = if rho > 0 {
                sat_to_i64(wide_div(wide_mul(f.x, FX_ONE), rho as i128))
            } else {
                0
            };
            let ay = if rho > 0 {
                sat_to_i64(wide_div(wide_mul(f.y, FX_ONE), rho as i128))
            } else {
                0
            };
            let vx1 = sat_to_i64_sym((v.x as i128) + wide_div(wide_mul(ax, dt), FX_ONE as i128));
            let vy1 = sat_to_i64_sym((v.y as i128) + wide_div(wide_mul(ay, dt), FX_ONE as i128));
            let dv = interaction.delta_vel(p, mouse_pos, params);
            let vx2 = sat_to_i64_sym((vx1 as i128) + (dv.x as i128));
            let vy2 = sat_to_i64_sym((vy1 as i128) + (dv.y as i128));
            let (vx3, vy3) = crate::fixed::cap_magnitude_exec(vx2, vy2, params.max_vel);
            let px1 = sat_to_i64((p.x as i128) + wide_div(wide_mul(vx3, dt), FX_ONE as i128));
            let py1 = sat_to_i64((p.y as i128) + wide_div(wide_mul(vy3, dt), FX_ONE as i128));
            let mut np = Vec2Fx { x: px1, y: py1 };
            let mut nv = Vec2Fx { x: vx3, y: vy3 };
            Particles::boundaries(world_size, &mut np, &mut nv, params);
            let ghost prev_pos = self.pos@;
            let ghost prev_vel = self.vel@;
            self.pos.set(i, np);
            self.vel.set(i, nv);
            proof {
                assert(self.pos@ == prev_pos.update(i as int, np));
                assert(self.vel@ == prev_vel.update(i as int, nv));
                assert forall|k: int| i + 1 <= k < n implies (#[trigger] self.pos@[k]) == old(
                    self,
                ).pos@[k] && self.vel@[k] == old(self).vel@[k] by {
                    assert(self.pos@[k] == prev_pos[k]);
                    assert(self.vel@[k] == prev_vel[k]);
                    assert(prev_pos[k] == old(self).pos@[k]);
                    assert(prev_vel[k] == old(self).vel@[k]);
                }
            }
            i = i + 1;
        }
    }

    /// One full update pass: predict and clamp every position, rebuild the
    /// spatial index, then compute every particle's density and pressure
    /// and every particle's net force over its grid neighbors.  Positions
    /// are left unchanged; [`Particles::integrate`] moves them.
    ///
    /// Densities are never negative.  On every tick each force is the
    /// accumulated pressure forces of the particle's grid neighbors plus
    /// gravity, for some near-unit fallback direction per pair (the random
    /// push-apart of a coincident pair); when no two predicted positions
    /// coincide the fallbacks are never read and the forces are the
    /// deterministic sums.
    pub fn update(&mut self, dt: i64, world_size: Vec2Fx, params: &SimulationParams)
        requires
            old(self).wf(),
            params.spec_valid(world_size),
            forall|i: int|
                0 <= i < old(self).pos@.len() ==> in_world(#[trigger] old(self).pos@[i], world_size),
        ensures
            final(self).wf(),
            final(self).pos@ == old(self).pos@,
            final(self).predicted_pos@.len() == old(self).pos@.len(),
            forall|i: int|
                0 <= i < old(self).pos@.len() ==> {
                    let st = predict_step(
                        old(self).pos@[i],
                        old(self).vel@[i],
                        world_size,
                        *params,
                        dt as int,
                    );
                    &&& (#[trigger] final(self).predicted_pos@[i]).x as int == st.0
                    &&& final(self).predicted_pos@[i].y as int == st.1
                    &&& final(self).vel@[i].x as int == st.2
                    &&& final(self).vel@[i].y as int == st.3
                    &&& params.radius <= final(self).predicted_pos@[i].x <= world_size.x
                        - params.radius
                    &&& params.radius <= final(self).predicted_pos@[i].y <= world_size.y
                        - params.radius
                },
            forall|i: int|
                0 <= i < old(self).pos@.len() ==> (#[trigger] final(self).density@[i]) >= 0,
            forall|i: int|
                0 <= i < old(self).pos@.len() ==> density_post(
                    final(self).predicted_pos@,
                    i,
                    (#[trigger] final(self).density@[i]) as int,
                    *params,
                    world_size,
                ),
            forall|i: int|
                0 <= i < old(self).pos@.len() ==> (#[trigger] final(self).pressure@[i]) as int
                    == crate::physics::pressure_eos(
                    final(self).density@[i] as int,
                    params.gas_constant as int,
                    params.rest_density as int,
                ),
            forall|i: int|
                0 <= i < old(self).pos@.len() ==> force_post_any(
                    final(self).predicted_pos@,
                    final(self).pressure@,
                    final(self).density@,
                    i,
                    #[trigger] final(self).force@[i],
                    *params,
                    world_size,
                ),
            no_coincident(final(self).predicted_pos@) ==> forall|i: int|
                0 <= i < old(self).pos@.len() ==> force_post(
                    final(self).predicted_pos@,
                    final(self).pressure@,
                    final(self).density@,
                    i,
                    #[trigger] final(self).force@[i],
                    *params,
                    world_size,
                ),
    {
        let n = self.pos.len();

        // predict & clamp: extrapolate each position one tick ahead and
        // resolve it against the walls (this also reflects the velocity)
        let mut i: usize = 0;
        while i < n
            invariant
                old(self).wf(),
                self.wf(),
                n == old(self).pos@.len(),
                i <= n,
                params.spec_valid(world_size),
                self.pos@ == old(self).pos@,
                self.density@ == old(self).density@,
                self.pressure@ == old(self).pressure@,
                self.force@ == old(self).force@,
                forall|k: int|
                    0 <= k < old(self).pos@.len() ==> in_world(
                        #[trigger] old(self).pos@[k],
                        world_size,
                    ),
                forall|k: int|
                    i <= k < n ==> (#[trigger] self.vel@[k]) == old(self).vel@[k],
                forall|k: int|
                    0 <= k < i ==> {
                        let st = predict_step(
                            old(self).pos@[k],
                            old(self).vel@[k],
                            world_size,
                            *params,
                            dt as int,
                        );
                        &&& (#[trigger] self.predicted_pos@[k]).x as int == st.0
                        &&& self.predicted_pos@[k].y as int == st.1
                        &&& self.vel@[k].x as int == st.2
                        &&& self.vel@[k].y as int == st.3
                        &&& params.radius <= self.predicted_pos@[k].x <= world_size.x
                            - params.radius
                        &&& params.radius <= self.predicted_pos@[k].y <= world_size.y
                            - params.radius
                    },
            decreases n - i,
        {
            let p = self.pos[i];
            let v = self.vel[i];
            let px = sat_to_i64((p.x as i128) + wide_div(wide_mul(v.x, dt), FX_ONE as i128));
            let py = sat_to_i64((p.y as i128) + wide_div(wide_mul(v.y, dt), FX_ONE as i128));
            let mut pp = Vec2Fx { x: px, y: py };
            let mut nv = v;
            Particles::boundaries(world_size, &mut pp, &mut nv, params);
            let ghost prev_vel = self.vel@;
            self.predicted_pos.set(i, pp);
            self.vel.set(i, nv);
            proof {
                assert forall|k: int| i + 1 <= k < n implies (#[trigger] self.vel@[k]) == old(
                    self,
                ).vel@[k] by {
                    assert(self.vel@[k] == prev_vel[k]);
                }
            }
            i = i + 1;
        }

        let ghost preds = self.predicted_pos@;
        let ghost vels = self.vel@;
        proof {
            assert forall|j: int|
                0 <= j < preds.len() implies 0 <= (#[trigger] preds[j]).x <= world_size.x && 0
                <= preds[j].y <= world_size.y by {
                assert(params.radius <= preds[j].x <= world_size.x - params.radius);
            }
        }
        let grid = crate::search::SpatialGrid::build(&self.predicted_pos, params, world_size);
        let ghost cs = params.cell_size as int;
        let ghost gw = crate::search::coord_of(world_size.x as int, cs);
        let ghost gh = crate::search::coord_of(world_size.y as int, cs);

        // density & pressure pass
        let mut i: usize = 0;
        while i < n
            invariant
                old(self).wf(),
                self.wf(),
                n == old(self).pos@.len(),
                i <= n,
                params.spec_valid(world_size),
                self.pos@ == old(self).pos@,
                self.force@ == old(self).force@,
                self.predicted_pos@ == preds,
                self.vel@ == vels,
                preds.len() == n,
                cs == params.cell_size as int,
                gw == crate::search::coord_of(world_size.x as int, cs),
                gh == crate::search::coord_of(world_size.y as int, cs),
                grid.grid_width as int == gw,
                grid.grid_height as int == gh,
                grid.wf(crate::search::grid_ids(preds, cs, gw, gh)),
                forall|j: int|
                    0 <= j < preds.len() ==> 0 <= (#[trigger] preds[j]).x <= world_size.x && 0
                        <= preds[j].y <= world_size.y,
                forall|k: int|
                    0 <= k < i ==> {
                        &&& (#[trigger] self.density@[k]) >= 0
                        &&& density_post(preds, k, self.density@[k] as int, *params, world_size)
                        &&& self.pressure@[k] as int == crate::physics::pressure_eos(
                            self.density@[k] as int,
                            params.gas_constant as int,
                            params.rest_density as int,
                        )
                    },
            decreases n - i,
        {
            let neigh = grid.neighbours_of(&self.predicted_pos, i, params);
            let d = accumulate_density(&self.predicted_pos, &neigh, i, params);
            let pr = crate::physics::calculate_pressure(d, params);
            let ghost prev_density = self.density@;
            let ghost prev_pressure = self.pressure@;
            self.density.set(i, d);
            self.pressure.set(i, pr);
            proof {
                assert(is_neighbour_enum(neigh@, preds, i as int, *params, world_size));
                assert(density_post(preds, i as int, d as int, *params, world_size));
                assert forall|k: int|
                    0 <= k < i implies {
                    &&& (#[trigger] self.density@[k]) >= 0
                    &&& density_post(preds, k, self.density@[k] as int, *params, world_size)
                    &&& self.pressure@[k] as int == crate::physics::pressure_eos(
                        self.density@[k] as int,
                        params.gas_constant as int,
                        params.rest_density as int,
                    )
                } by {
                    assert(self.density@[k] == prev_density[k]);
                    assert(self.pressure@[k] == prev_pressure[k]);
                }
            }
            i = i + 1;
        }

        let ghost densities = self.density@;
        let ghost pressures = self.pressure@;

        // force pass
        let mut i: usize = 0;
        while i < n
            invariant
                old(self).wf(),
                self.wf(),
                n == old(self).pos@.len(),
                i <= n,
                params.spec_valid(world_size),
                self.pos@ == old(self).pos@,
                self.predicted_pos@ == preds,
                self.vel@ == vels,
                self.density@ == densities,
                self.pressure@ == pressures,
                preds.len() == n,
                densities.len() == n,
                pressures.len() == n,
                cs == params.cell_size as int,
                gw == crate::search::coord_of(world_size.x as int, cs),
                gh == crate::search::coord_of(world_size.y as int, cs),
                grid.grid_width as int == gw,
                grid.grid_height as int == gh,
                grid.wf(crate::search::grid_ids(preds, cs, gw, gh)),
                forall|j: int|
                    0 <= j < preds.len() ==> 0 <= (#[trigger] preds[j]).x <= world_size.x && 0
                        <= preds[j].y <= world_size.y,
                forall|k: int|
                    0 <= k < i ==> force_post_any(
                        preds,
                        pressures,
                        densities,
                        k,
                        #[trigger] self.force@[k],
                        *params,
                        world_size,
                    ),
                forall|k: int|
                    0 <= k < i && no_coincident(preds) ==> force_post(
                        preds,
                        pressures,
                        densities,
                        k,
                        #[trigger] self.force@[k],
                        *params,
                        world_size,
                    ),
            decreases n - i,
        {
            let neigh = grid.neighbours_of(&self.predicted_pos, i, params);
            let (acc, fbs) = accumulate_force(
                &self.predicted_pos,
                &neigh,
                i,
                &self.pressure,
                &self.density,
                params,
            );
            let g = crate::physics::calculate_gravity_force(self.density[i], params);
            let f = Vec2Fx { x: sat_add(acc.x, g.x), y: sat_add(acc.y, g.y) };
            let ghost prev_force = self.force@;
            self.force.set(i, f);
            proof {
                assert(is_neighbour_enum(neigh@, preds, i as int, *params, world_size));
                assert(force_post_any(preds, pressures, densities, i as int, f, *params, world_size)) by {
                    assert(fbs@.len() == neigh@.len());
                }
                if no_coincident(preds) {
                    assert(force_post(preds, pressures, densities, i as int, f, *params, world_size));
                }
                assert forall|k: int|
                    0 <= k < i implies force_post_any(
                    preds,
                    pressures,
                    densities,
                    k,
                    #[trigger] self.force@[k],
                    *params,
                    world_size,
                ) && (no_coincident(preds) ==> force_post(
                    preds,
                    pressures,
                    densities,
                    k,
                    self.force@[k],
                    *params,
                    world_size,
                )) by {
                    assert(self.force@[k] == prev_force[k]);
                }
            }
            i = i + 1;
        }
    }
}

/// Accumulate the density contributions of an enumerated neighbor list,
/// saturating, left to right.
fn accumulate_density(
    preds: &Vec<Vec2Fx>,
    neigh: &Vec<usize>,
    i: usize,
    params: &SimulationParams,
) -> (d: i64)
    requires
        i < preds@.len(),
        forall|k: int| 0 <= k < neigh@.len() ==> (#[trigger] neigh@[k]) < preds@.len(),
        forall|j: int| 0 <= j < preds@.len() ==> (#[trigger] preds@[j]).spec_bounded(),
        1 <= params.influence_radius <= crate::constants::MAX_RADIUS,
        params.mass >= 0,
    ensures
        d >= 0,
        d as int == density_sum(preds@, neigh@, i as int, *params),
{
    let m = neigh.len();
    let mut d: i64 = 0;
    let mut k: usize = 0;
    while k < m
        invariant
            m == neigh@.len(),
            k <= m,
            i < preds@.len(),
            forall|kk: int| 0 <= kk < neigh@.len() ==> (#[trigger] neigh@[kk]) < preds@.len(),
            forall|j: int| 0 <= j < preds@.len() ==> (#[trigger] preds@[j]).spec_bounded(),
            1 <= params.influence_radius <= crate::constants::MAX_RADIUS,
            params.mass >= 0,
            d >= 0,
            d as int == density_sum(preds@, neigh@.take(k as int), i as int, *params),
        decreases m - k,
    {
        let j = neigh[k];
        let c = crate::physics::calculate_density(preds[i], preds[j], params);
        proof {
            assert(neigh@.take(k as int + 1).drop_last() =~= neigh@.take(k as int));
            assert(neigh@.take(k as int + 1).last() == neigh@[k as int]);
        }
        d = sat_add(d, c);
        k = k + 1;
    }
    proof {
        assert(neigh@.take(m as int) =~= neigh@);
    }
    d
}

/// Accumulate the pressure-force contributions of an enumerated neighbor
/// list, saturating, left to right; the particle itself is skipped.  A
/// coincident pair is pushed along a fresh random direction; the returned
/// ghost sequence holds the near-unit fallback direction used per entry,
/// and when no pair coincides the result is the deterministic sum.
fn accumulate_force(
    preds: &Vec<Vec2Fx>,
    neigh: &Vec<usize>,
    i: usize,
    pressures: &Vec<i64>,
    densities: &Vec<i64>,
    params: &SimulationParams,
) -> (r: (Vec2Fx, Ghost<Seq<Vec2Fx>>))
    requires
        i < preds@.len(),
        pressures@.len() == preds@.len(),
        densities@.len() == preds@.len(),
        forall|k: int| 0 <= k < neigh@.len() ==> (#[trigger] neigh@[k]) < preds@.len(),
        forall|j: int| 0 <= j < preds@.len() ==> (#[trigger] preds@[j]).spec_bounded(),
        1 <= params.influence_radius <= crate::constants::MAX_RADIUS,
        params.mass >= 0,
    ensures
        r.1@.len() == neigh@.len(),
        forall|k: int| 0 <= k < r.1@.len() ==> near_unit(#[trigger] r.1@[k]),
        (r.0.x as int, r.0.y as int) == force_sum(
            preds@,
            neigh@,
            i as int,
            pressures@,
            densities@,
            *params,
            r.1@,
        ),
        no_coincident(preds@) ==> (r.0.x as int, r.0.y as int) == force_sum(
            preds@,
            neigh@,
            i as int,
            pressures@,
            densities@,
            *params,
            unit_x_seq(neigh@.len() as int),
        ),
{
    let m = neigh.len();
    let mut fx: i64 = 0;
    let mut fy: i64 = 0;
    let ghost mut fbs: Seq<Vec2Fx> = Seq::empty();
    let mut k: usize = 0;
    proof {
        assert(near_unit(Vec2Fx { x: FX_ONE, y: 0 })) by (nonlinear_arith)
            requires
                FX_ONE == 65536,
                DIR_UNIT_SLACK == 330,
        ;
    }
    while k < m
        invariant
            m == neigh@.len(),
            k <= m,
            i < preds@.len(),
            pressures@.len() == preds@.len(),
            densities@.len() == preds@.len(),
            forall|kk: int| 0 <= kk < neigh@.len() ==> (#[trigger] neigh@[kk]) < preds@.len(),
            forall|j: int| 0 <= j < preds@.len() ==> (#[trigger] preds@[j]).spec_bounded(),
            1 <= params.influence_radius <= crate::constants::MAX_RADIUS,
            params.mass >= 0,
            near_unit(Vec2Fx { x: FX_ONE, y: 0 }),
            fbs.len() == k,
            forall|kk: int| 0 <= kk < fbs.len() ==> near_unit(#[trigger] fbs[kk]),
            (fx as int, fy as int) == force_sum(
                preds@,
                neigh@.take(k as int),
                i as int,
                pressures@,
                densities@,
                *params,
                fbs,
            ),
        decreases m - k,
    {
        let j = neigh[k];
        proof {
            assert(neigh@.take(k as int + 1).drop_last() =~= neigh@.take(k as int));
            assert(neigh@.take(k as int + 1).last() == neigh@[k as int]);
        }
        if j != i {
            let d2 = crate::kernels::dist_sq_exec(preds[i], preds[j]);
            // a coincident pair is pushed apart along a random direction
            let fb = if d2 < crate::kernels::COINCIDENT_EPS_SQ as i128 {
                random_unit_dir()
            } else {
                Vec2Fx { x: FX_ONE, y: 0 }
            };
            let pf = crate::physics::calculate_pressure_force(
                preds[i],
                preds[j],
                pressures[i],
                pressures[j],
                densities[j],
                params,
                fb,
            );
            proof {
                let prev = fbs;
                fbs = fbs.push(fb);
                assert(fbs.drop_last() =~= prev);
                assert(fbs.last() == fb);
            }
            fx = crate::fixed::sat_sub(fx, pf.x);
            fy = crate::fixed::sat_sub(fy, pf.y);
        } else {
            proof {
                let prev = fbs;
                fbs = fbs.push(Vec2Fx { x: FX_ONE, y: 0 });
                assert(fbs.drop_last() =~= prev);
            }
        }
        k = k + 1;
    }
    proof {
        assert(neigh@.take(m as int) =~= neigh@);
        if no_coincident(preds@) {
            lemma_force_sum_fallback_irrelevant(
                preds@,
                neigh@,
                i as int,
                pressures@,
                densities@,
                *params,
                fbs,
                unit_x_seq(neigh@.len() as int),
            );
        }
    }
    (Vec2Fx { x: fx, y: fy }, Ghost(fbs))
}

} // verus!
