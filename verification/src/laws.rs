//! General properties of the engine, stated and proved once.
//!
//! Each law here relates the contracts of several functions: the kernels'
//! support and monotonicity, the completeness of the grid enumeration for
//! within-radius pairs, and the stationarity of an isolated, force-free
//! particle over one tick.

use vstd::prelude::*;
use crate::fixed::{
    Vec2Fx, FX_ONE, tdiv, sat64, sat64s, is_sqrt, sqrt_floor, lemma_sqrt_floor, lemma_tdiv_bounds,
    lemma_tdiv_ordered, lemma_mul_le,
};
use crate::constants::{SimulationParams, MAX_RADIUS};
use crate::kernels::{
    poly_kernel_val, poly_cube, spiky_component, spiky_mag, dist_sq_raw, lemma_poly_kernel_nonneg,
    lemma_dist_sq_symm, COINCIDENT_EPS_SQ, SPIKY_C, PI_DEN, PI_NUM, h5_fx,
};
use crate::search::{coord_of, lemma_within_radius_adjacent};
use crate::simulation::{
    is_neighbour_enum, force_sum, force_post, force_post_any, integrate_step, pointer_delta, resolve_axis,
    clamp_velocity, accel_component, IOInteraction,
};
use crate::physics::gravity_component;

verus! {

/// The density kernel vanishes on every pair farther apart than the
/// influence radius.
pub proof fn lemma_poly_kernel_zero_outside(d2: int, h: int)
    requires
        d2 > h * h,
    ensures
        poly_kernel_val(d2, h) == 0,
{
}

/// The density kernel never increases with the squared distance: closer
/// pairs contribute at least as much.  (The real-valued kernel decreases
/// strictly on `[0, h]`; in fixed point the truncating divisions can give
/// two nearby distances the same value, so the fixed-point statement is
/// the non-strict one.)
pub proof fn lemma_poly_kernel_monotone(d2a: int, d2b: int, h: int)
    requires
        0 <= d2a <= d2b,
        1 <= h <= MAX_RADIUS,
    ensures
        poly_kernel_val(d2a, h) >= poly_kernel_val(d2b, h),
{
    if d2b > h * h {
        lemma_poly_kernel_nonneg(d2a, h);
    } else {
        crate::kernels::lemma_h_powers(h);
        let fx = FX_ONE as int;
        let da = tdiv(h * h - d2a, fx);
        let db = tdiv(h * h - d2b, fx);
        lemma_tdiv_ordered(h * h - d2b, h * h - d2a, fx);
        lemma_tdiv_bounds(h * h - d2b, fx);
        crate::kernels::lemma_poly_cube_bounds(d2a, h);
        crate::kernels::lemma_poly_cube_bounds(d2b, h);
        assert(db * db <= da * da && 0 <= db * db) by (nonlinear_arith)
            requires
                0 <= db <= da,
        ;
        lemma_tdiv_ordered(db * db, da * da, fx);
        let sa = tdiv(da * da, fx);
        let sb = tdiv(db * db, fx);
        lemma_tdiv_bounds(db * db, fx);
        assert(sb * db <= sa * da && 0 <= sb * db) by (nonlinear_arith)
            requires
                0 <= sb <= sa,
                0 <= db <= da,
        ;
        lemma_tdiv_ordered(sb * db, sa * da, fx);
        let ca = poly_cube(d2a, h);
        let cb = poly_cube(d2b, h);
        assert(0 <= cb <= ca);
        let m = (crate::kernels::POLY_C * PI_DEN * FX_ONE) as int;
        assert(m == 29622272) by (nonlinear_arith)
            requires
                crate::kernels::POLY_C == 4,
                PI_DEN == 113,
                FX_ONE == 65536,
                m == crate::kernels::POLY_C * PI_DEN * FX_ONE,
        ;
        assert(m * cb <= m * ca && 0 <= m * cb) by (nonlinear_arith)
            requires
                0 <= cb <= ca,
                m == 29622272,
        ;
        lemma_tdiv_ordered(m * cb, m * ca, PI_NUM * crate::kernels::h8_fx(h));
        lemma_mul_le(PI_NUM as int, PI_NUM as int, crate::kernels::h8_fx(h), crate::kernels::h8_fx(h));
    }
}

/// The pressure-gradient kernel is the zero vector at the support radius
/// and beyond: a pair at distance exactly `h`, or farther, exerts no
/// pressure force.
pub proof fn lemma_spiky_zero_at_support(d: int, d2: int, h: int, fb: int)
    requires
        1 <= h <= MAX_RADIUS,
        d2 >= h * h,
        d2 >= COINCIDENT_EPS_SQ,
    ensures
        spiky_component(d, d2, h, fb) == 0,
{
    lemma_mul_le(h, MAX_RADIUS as int, h, MAX_RADIUS as int);
    if d2 <= h * h {
        assert(d2 == h * h);
        assert(is_sqrt(d2, h)) by (nonlinear_arith)
            requires
                d2 == h * h,
                h >= 1,
        ;
        lemma_sqrt_floor(d2, h);
        assert(spiky_mag(h, h) == tdiv(SPIKY_C * PI_DEN * FX_ONE * tdiv(0, FX_ONE as int), PI_NUM
            * h5_fx(h)));
        crate::kernels::lemma_h_powers(h);
        assert(tdiv(0int, FX_ONE as int) == 0) by (nonlinear_arith);
        assert(SPIKY_C * PI_DEN * FX_ONE * 0int == 0) by (nonlinear_arith);
        assert(tdiv(0int, PI_NUM * h5_fx(h)) == 0) by (nonlinear_arith)
            requires
                PI_NUM * h5_fx(h) >= 1,
        ;
        assert(spiky_mag(h, h) == 0);
        let r_hat = tdiv(d * FX_ONE, h + 1);
        assert(0int * r_hat == 0) by (nonlinear_arith);
        assert(tdiv(0int, FX_ONE as int) == 0) by (nonlinear_arith);
    }
}

/// For coincident particles the pressure-gradient kernel is the fallback
/// direction scaled by a factor of the influence radius alone: the
/// magnitude is deterministic even though the direction is random.
pub proof fn lemma_spiky_coincident_scale(d: int, d2: int, h: int, fb: int)
    requires
        0 <= d2 < COINCIDENT_EPS_SQ,
    ensures
        spiky_component(d, d2, h, fb) == sat64(tdiv(spiky_mag(0, h) * fb, FX_ONE as int)),
{
}

/// Completeness of the grid enumeration: for a valid parameter set (so
/// `cell_size >= influence_radius`), every particle within the influence
/// radius of particle `i` appears in `i`'s neighbor enumeration.  Together
/// with the enumeration's own contract (each listed index is grid-adjacent,
/// none is listed twice) this says the 3x3 grid scan finds exactly the
/// same set of within-radius particles as an exhaustive scan would.
pub proof fn lemma_grid_enumeration_covers_radius(
    s: Seq<usize>,
    preds: Seq<Vec2Fx>,
    i: int,
    j: int,
    params: SimulationParams,
    world: Vec2Fx,
)
    requires
        params.spec_valid(world),
        is_neighbour_enum(s, preds, i, params, world),
        0 <= i < preds.len(),
        0 <= j < preds.len(),
        forall|k: int|
            0 <= k < preds.len() ==> 0 <= (#[trigger] preds[k]).x <= world.x && 0 <= preds[k].y
                <= world.y,
        dist_sq_raw(preds[i], preds[j]) <= params.influence_radius * params.influence_radius,
    ensures
        s.contains(j as usize),
{
    let cs = params.cell_size as int;
    let gw = coord_of(world.x as int, cs);
    let gh = coord_of(world.y as int, cs);
    vstd::arithmetic::div_mod::lemma_div_by_self(cs);
    vstd::arithmetic::div_mod::lemma_div_is_ordered(cs, world.x as int, cs);
    vstd::arithmetic::div_mod::lemma_div_is_ordered(cs, world.y as int, cs);
    lemma_dist_sq_symm(preds[i], preds[j]);
    lemma_within_radius_adjacent(
        preds[j],
        preds[i],
        params.influence_radius as int,
        cs,
        gw,
        gh,
    );
    assert(preds[j] == preds[j]);
}

/// The pressure-gradient kernel's magnitude factor is never positive: the
/// kernel vector points from this particle toward the other one.
pub proof fn lemma_spiky_mag_nonpos(r_len: int, h: int)
    requires
        0 <= r_len,
        1 <= h <= MAX_RADIUS,
    ensures
        spiky_mag(r_len, h) <= 0,
{
    let hmr = h - r_len;
    let fx = FX_ONE as int;
    assert(hmr * hmr >= 0) by (nonlinear_arith);
    lemma_tdiv_bounds(hmr * hmr, fx);
    let sq = tdiv(hmr * hmr, fx);
    assert(SPIKY_C * PI_DEN * FX_ONE * sq <= 0) by (nonlinear_arith)
        requires
            sq >= 0,
            SPIKY_C * PI_DEN * FX_ONE < 0,
    ;
    crate::kernels::lemma_h_powers(h);
    lemma_mul_le(PI_NUM as int, PI_NUM as int, h5_fx(h), h5_fx(h));
    lemma_tdiv_bounds(SPIKY_C * PI_DEN * FX_ONE * sq, PI_NUM * h5_fx(h));
}

/// The sign of one pressure-gradient component follows the sign of the
/// component difference, reversed (the magnitude factor is non-positive),
/// for a non-coincident pair; a zero difference gives a zero component.
pub proof fn lemma_spiky_component_sign(d: int, d2: int, h: int, fb: int)
    requires
        1 <= h <= MAX_RADIUS,
        d2 >= COINCIDENT_EPS_SQ,
        0 <= d2,
    ensures
        d >= 0 ==> spiky_component(d, d2, h, fb) <= 0,
        d <= 0 ==> spiky_component(d, d2, h, fb) >= 0,
        d == 0 ==> spiky_component(d, d2, h, fb) == 0,
{
    if d2 <= h * h {
        crate::fixed::lemma_sqrt_exists(d2);
        let r_len = sqrt_floor(d2);
        let fx = FX_ONE as int;
        lemma_tdiv_bounds(d * fx, r_len + 1);
        let r_hat = tdiv(d * fx, r_len + 1);
        assert(d >= 0 ==> d * fx >= 0) by (nonlinear_arith)
            requires
                fx >= 1,
        ;
        assert(d <= 0 ==> d * fx <= 0) by (nonlinear_arith)
            requires
                fx >= 1,
        ;
        lemma_spiky_mag_nonpos(r_len, h);
        let mag = spiky_mag(r_len, h);
        assert(d >= 0 ==> mag * r_hat <= 0) by (nonlinear_arith)
            requires
                mag <= 0,
                d >= 0 ==> r_hat >= 0,
        ;
        assert(d <= 0 ==> mag * r_hat >= 0) by (nonlinear_arith)
            requires
                mag <= 0,
                d <= 0 ==> r_hat <= 0,
        ;
        lemma_tdiv_bounds(mag * r_hat, fx);
        if d == 0 {
            assert(0int * fx == 0) by (nonlinear_arith);
            assert(tdiv(0, r_len + 1) == 0) by (nonlinear_arith)
                requires
                    r_len + 1 >= 1,
            ;
            assert(mag * 0int == 0) by (nonlinear_arith);
            assert(tdiv(0, fx) == 0) by (nonlinear_arith)
                requires
                    fx >= 1,
            ;
        }
    }
}

/// Over any enumeration of a two-particle ensemble whose particles share a
/// row and a pressure, the accumulated pressure force on particle `i` runs
/// along the row: away from the other particle when the shared pressure is
/// non-negative, toward it when non-positive, with no cross-row component.
proof fn lemma_pair_force_sum_sign(
    preds: Seq<Vec2Fx>,
    s: Seq<usize>,
    i: int,
    o: int,
    pressures: Seq<i64>,
    densities: Seq<i64>,
    params: SimulationParams,
    fbs: Seq<Vec2Fx>,
)
    requires
        preds.len() == 2,
        pressures.len() == 2,
        densities.len() == 2,
        0 <= i < 2,
        o == 1 - i,
        forall|k: int| 0 <= k < s.len() ==> (#[trigger] s[k]) < 2,
        preds[i].y == preds[o].y,
        dist_sq_raw(preds[i], preds[o]) >= COINCIDENT_EPS_SQ,
        pressures[i] == pressures[o],
        params.mass >= 0,
        1 <= params.influence_radius <= MAX_RADIUS,
    ensures
        ({
            let acc = force_sum(preds, s, i, pressures, densities, params, fbs);
            &&& acc.1 == 0
            &&& ((pressures[i] >= 0 && preds[i].x >= preds[o].x) ==> acc.0 >= 0)
            &&& ((pressures[i] >= 0 && preds[i].x <= preds[o].x) ==> acc.0 <= 0)
            &&& ((pressures[i] <= 0 && preds[i].x >= preds[o].x) ==> acc.0 <= 0)
            &&& ((pressures[i] <= 0 && preds[i].x <= preds[o].x) ==> acc.0 >= 0)
        }),
    decreases s.len(),
{
    let fx = FX_ONE as int;
    if s.len() > 0 {
        assert(forall|k: int|
            0 <= k < s.drop_last().len() ==> (#[trigger] s.drop_last()[k]) < 2);
        lemma_pair_force_sum_sign(
            preds,
            s.drop_last(),
            i,
            o,
            pressures,
            densities,
            params,
            fbs.drop_last(),
        );
        let j = s.last() as int;
        assert(j == i || j == o);
        if j == o && densities[o] > 0 {
            let p = pressures[i] as int;
            let num = params.mass as int * (pressures[i] as int + pressures[o] as int);
            assert(p >= 0 ==> num >= 0) by (nonlinear_arith)
                requires
                    params.mass >= 0,
                    num == params.mass as int * (pressures[i] as int + pressures[o] as int),
                    pressures[i] == pressures[o],
                    p == pressures[i] as int,
            ;
            assert(p <= 0 ==> num <= 0) by (nonlinear_arith)
                requires
                    params.mass >= 0,
                    num == params.mass as int * (pressures[i] as int + pressures[o] as int),
                    pressures[i] == pressures[o],
                    p == pressures[i] as int,
            ;
            lemma_tdiv_bounds(num, 2 * densities[o] as int);
            let sc = crate::physics::pressure_force_scale(
                pressures[i] as int,
                pressures[o] as int,
                densities[o] as int,
                params.mass as int,
            );
            let d2 = dist_sq_raw(preds[i], preds[o]);
            let dx = preds[i].x - preds[o].x;
            assert(d2 >= 0) by (nonlinear_arith)
                requires
                    d2 == dx * dx + (preds[i].y - preds[o].y) * (preds[i].y - preds[o].y),
            ;
            let h = params.influence_radius as int;
            lemma_spiky_component_sign(dx, d2, h, fbs.last().x as int);
            lemma_spiky_component_sign(preds[i].y - preds[o].y, d2, h, fbs.last().y as int);
            let gx = spiky_component(dx, d2, h, fbs.last().x as int);
            let gy = spiky_component(0, d2, h, fbs.last().y as int);
            assert(gy == 0);
            // the x term's sign: sc and gx have opposite-or-zero signs
            // exactly when the pressure and the offset agree
            assert(p >= 0 && dx >= 0 ==> sc * gx <= 0) by (nonlinear_arith)
                requires
                    p >= 0 ==> sc >= 0,
                    dx >= 0 ==> gx <= 0,
            ;
            assert(p >= 0 && dx <= 0 ==> sc * gx >= 0) by (nonlinear_arith)
                requires
                    p >= 0 ==> sc >= 0,
                    dx <= 0 ==> gx >= 0,
            ;
            assert(p <= 0 && dx >= 0 ==> sc * gx >= 0) by (nonlinear_arith)
                requires
                    p <= 0 ==> sc <= 0,
                    dx >= 0 ==> gx <= 0,
            ;
            assert(p <= 0 && dx <= 0 ==> sc * gx <= 0) by (nonlinear_arith)
                requires
                    p <= 0 ==> sc <= 0,
                    dx <= 0 ==> gx >= 0,
            ;
            lemma_tdiv_bounds(sc * gx, fx);
            // the y term vanishes
            assert(sc * 0int == 0) by (nonlinear_arith);
            assert(tdiv(0, fx) == 0) by (nonlinear_arith)
                requires
                    fx >= 1,
            ;
        }
    }
}

/// The provable core of the two-particle pressure response.  For a
/// symmetric pair — same row, equal pressures — each particle's net force
/// under zero gravity points away from the other when the shared pressure
/// is non-negative (the sign the equation of state gives to
/// `density - rest_density`) and toward it when non-positive, with no
/// cross-row component.  The strict version (the separation strictly grows
/// or shrinks) is not a fixed-point theorem: a small enough pressure
/// truncates to a zero force.
pub proof fn lemma_pair_force_sign(
    preds: Seq<Vec2Fx>,
    pressures: Seq<i64>,
    densities: Seq<i64>,
    f: Vec2Fx,
    params: SimulationParams,
    world: Vec2Fx,
    i: int,
)
    requires
        preds.len() == 2,
        pressures.len() == 2,
        densities.len() == 2,
        0 <= i < 2,
        preds[0].y == preds[1].y,
        dist_sq_raw(preds[0], preds[1]) >= COINCIDENT_EPS_SQ,
        pressures[0] == pressures[1],
        params.mass >= 0,
        1 <= params.influence_radius <= MAX_RADIUS,
        params.gravity.x == 0,
        params.gravity.y == 0,
        force_post_any(preds, pressures, densities, i, f, params, world),
    ensures
        f.y == 0,
        ((pressures[0] >= 0 && preds[i].x >= preds[1 - i].x) ==> f.x >= 0),
        ((pressures[0] >= 0 && preds[i].x <= preds[1 - i].x) ==> f.x <= 0),
        ((pressures[0] <= 0 && preds[i].x >= preds[1 - i].x) ==> f.x <= 0),
        ((pressures[0] <= 0 && preds[i].x <= preds[1 - i].x) ==> f.x >= 0),
{
    let o = 1 - i;
    let fx = FX_ONE as int;
    let (s, fbs) = choose|s: Seq<usize>, fbs: Seq<Vec2Fx>|
        is_neighbour_enum(s, preds, i, params, world) && fbs.len() == s.len() && (forall|k: int|
            0 <= k < fbs.len() ==> crate::simulation::near_unit(#[trigger] fbs[k])) && {
            let acc = #[trigger] force_sum(preds, s, i, pressures, densities, params, fbs);
            &&& f.x as int == sat64(
                acc.0 + gravity_component(densities[i] as int, params.gravity.x as int),
            )
            &&& f.y as int == sat64(
                acc.1 + gravity_component(densities[i] as int, params.gravity.y as int),
            )
        };
    if i == 1 {
        lemma_dist_sq_symm(preds[0], preds[1]);
    }
    lemma_pair_force_sum_sign(preds, s, i, o, pressures, densities, params, fbs);
    let rho = densities[i] as int;
    assert(rho * 0 == 0) by (nonlinear_arith);
    vstd::arithmetic::div_mod::lemma_div_of0(fx);
    assert(gravity_component(rho, 0) == 0);
}

/// From rest and with no pointer interaction, the integration step never
/// moves a particle against its net force: a non-negative force component
/// along the row gives a non-negative displacement, a non-positive one a
/// non-positive displacement.  With [`lemma_pair_force_sign`] this is the
/// two-particle pressure response, stated over the contracts: the pair
/// never approaches under a non-negative shared pressure and never recedes
/// under a non-positive one.
pub proof fn lemma_force_sign_displacement(
    p: Vec2Fx,
    f: Vec2Fx,
    rho: int,
    world: Vec2Fx,
    mouse: Vec2Fx,
    params: SimulationParams,
    dt: int,
)
    requires
        params.spec_valid(world),
        dt >= 0,
        params.radius < p.x < world.x - params.radius,
    ensures
        ({
            let st = integrate_step(
                p,
                Vec2Fx { x: 0, y: 0 },
                f,
                rho,
                world,
                mouse,
                IOInteraction::Idle,
                params,
                dt,
            );
            &&& (f.x >= 0 ==> st.0 >= p.x)
            &&& (f.x <= 0 ==> st.0 <= p.x)
        }),
{
    let fx = FX_ONE as int;
    let ax = accel_component(f.x as int, rho);
    if rho > 0 {
        assert(f.x >= 0 ==> f.x as int * fx >= 0) by (nonlinear_arith)
            requires
                fx >= 1,
        ;
        assert(f.x <= 0 ==> f.x as int * fx <= 0) by (nonlinear_arith)
            requires
                fx >= 1,
        ;
        lemma_tdiv_bounds(f.x as int * fx, rho);
    }
    assert(f.x >= 0 ==> ax >= 0);
    assert(f.x <= 0 ==> ax <= 0);
    assert(ax >= 0 ==> ax * dt >= 0) by (nonlinear_arith)
        requires
            dt >= 0,
    ;
    assert(ax <= 0 ==> ax * dt <= 0) by (nonlinear_arith)
        requires
            dt >= 0,
    ;
    lemma_tdiv_bounds(ax * dt, fx);
    let vx1 = sat64s(0 + tdiv(ax * dt, fx));
    let ay = accel_component(f.y as int, rho);
    let vy1 = sat64s(0 + tdiv(ay * dt, fx));
    let vx2 = sat64s(vx1 + 0);
    let vy2 = sat64s(vy1 + 0);
    let len2 = vx2 * vx2 + vy2 * vy2;
    assert(len2 >= 0) by (nonlinear_arith)
        requires
            len2 == vx2 * vx2 + vy2 * vy2,
    ;
    crate::fixed::lemma_sqrt_exists(len2);
    let maxv = params.max_vel as int;
    let cl = clamp_velocity(vx2, vy2, maxv);
    if len2 > maxv * maxv {
        let l1 = crate::fixed::sqrt_floor(len2) + 1;
        assert(vx2 >= 0 ==> vx2 * maxv >= 0) by (nonlinear_arith)
            requires
                maxv >= 0,
        ;
        assert(vx2 <= 0 ==> vx2 * maxv <= 0) by (nonlinear_arith)
            requires
                maxv >= 0,
        ;
        lemma_tdiv_bounds(vx2 * maxv, l1);
    }
    assert(f.x >= 0 ==> cl.0 >= 0);
    assert(f.x <= 0 ==> cl.0 <= 0);
    assert(cl.0 >= 0 ==> cl.0 * dt >= 0) by (nonlinear_arith)
        requires
            dt >= 0,
    ;
    assert(cl.0 <= 0 ==> cl.0 * dt <= 0) by (nonlinear_arith)
        requires
            dt >= 0,
    ;
    lemma_tdiv_bounds(cl.0 * dt, fx);
    let px1 = sat64(p.x + tdiv(cl.0 * dt, fx));
    assert(f.x >= 0 ==> px1 >= p.x);
    assert(f.x <= 0 ==> px1 <= p.x);
}

/// The speed clamp never leaves a velocity over the maximum: the clamped
/// squared speed is at most the squared maximum, for every input velocity.
pub proof fn lemma_speed_clamp_bound(vx: int, vy: int, max: int)
    requires
        max >= 0,
    ensures
        ({
            let c = clamp_velocity(vx, vy, max);
            c.0 * c.0 + c.1 * c.1 <= max * max
        }),
{
    crate::fixed::lemma_cap_magnitude_bound(vx, vy, max);
}

/// An accumulation that only ever meets the particle itself adds nothing.
proof fn lemma_force_sum_self_only(
    preds: Seq<Vec2Fx>,
    s: Seq<usize>,
    pressures: Seq<i64>,
    densities: Seq<i64>,
    params: SimulationParams,
    fbs: Seq<Vec2Fx>,
)
    requires
        forall|k: int| 0 <= k < s.len() ==> (#[trigger] s[k]) == 0usize,
    ensures
        force_sum(preds, s, 0, pressures, densities, params, fbs) == (0int, 0int),
    decreases s.len(),
{
    if s.len() > 0 {
        assert(forall|k: int|
            0 <= k < s.drop_last().len() ==> (#[trigger] s.drop_last()[k]) == 0usize);
        lemma_force_sum_self_only(preds, s.drop_last(), pressures, densities, params, fbs.drop_last());
        assert(s.last() == 0usize);
    }
}

/// An isolated particle in equilibrium stays put.  With a single particle
/// in the ensemble, zero gravity and no pointer interaction, the force
/// pass computes a zero net force (the particle's only grid neighbor is
/// itself, which the pressure sum skips), and a particle with zero
/// velocity strictly inside the walls then keeps its position and velocity
/// through the integration step.
pub proof fn lemma_single_particle_stationary(
    p: Vec2Fx,
    preds: Seq<Vec2Fx>,
    densities: Seq<i64>,
    pressures: Seq<i64>,
    f: Vec2Fx,
    params: SimulationParams,
    world: Vec2Fx,
    mouse: Vec2Fx,
    dt: int,
)
    requires
        params.spec_valid(world),
        params.gravity.x == 0,
        params.gravity.y == 0,
        preds.len() == 1,
        densities.len() == 1,
        pressures.len() == 1,
        force_post(preds, pressures, densities, 0, f, params, world),
        params.radius < p.x < world.x - params.radius,
        params.radius < p.y < world.y - params.radius,
    ensures
        f == (Vec2Fx { x: 0, y: 0 }),
        integrate_step(
            p,
            Vec2Fx { x: 0, y: 0 },
            f,
            densities[0] as int,
            world,
            mouse,
            IOInteraction::Idle,
            params,
            dt,
        ) == (p.x as int, p.y as int, 0int, 0int),
{
    let fx = FX_ONE as int;
    let s = choose|s: Seq<usize>|
        is_neighbour_enum(s, preds, 0, params, world) && {
            let acc = #[trigger] force_sum(
                preds,
                s,
                0,
                pressures,
                densities,
                params,
                crate::simulation::unit_x_seq(s.len() as int),
            );
            &&& f.x as int == sat64(
                acc.0 + gravity_component(densities[0] as int, params.gravity.x as int),
            )
            &&& f.y as int == sat64(
                acc.1 + gravity_component(densities[0] as int, params.gravity.y as int),
            )
        };
    assert(forall|k: int| 0 <= k < s.len() ==> (#[trigger] s[k]) == 0usize);
    lemma_force_sum_self_only(
        preds,
        s,
        pressures,
        densities,
        params,
        crate::simulation::unit_x_seq(s.len() as int),
    );
    let rho = densities[0] as int;
    assert(rho * 0 == 0) by (nonlinear_arith);
    vstd::arithmetic::div_mod::lemma_div_of0(fx);
    assert(gravity_component(rho, 0) == 0);
    assert(f.x as int == 0 && f.y as int == 0);
    assert(f == (Vec2Fx { x: 0, y: 0 }));

    // the integration step moves nothing
    if rho > 0 {
        assert(f.x as int * fx == 0) by (nonlinear_arith)
            requires
                f.x as int == 0,
        ;
        vstd::arithmetic::div_mod::lemma_div_of0(rho);
    }
    assert(accel_component(f.x as int, rho) == 0);
    assert(accel_component(f.y as int, rho) == 0);
    assert(0int * dt == 0) by (nonlinear_arith);
    assert(tdiv(0, fx) == 0);
    assert(sat64s(0int + 0) == 0);
    assert(pointer_delta(IOInteraction::Idle, p, mouse, params.mouse_influence_radius as int) == (
    0int,
    0int,
    ));
    let maxv = params.max_vel as int;
    assert(0int * 0 == 0 && maxv * maxv >= 0) by (nonlinear_arith)
        requires
            maxv >= 0,
    ;
    assert(clamp_velocity(0, 0, maxv) == (0int, 0int));
    assert(sat64(p.x + tdiv(0int * dt, fx)) == p.x);
    assert(resolve_axis(
        p.x as int,
        0,
        params.radius as int,
        world.x - params.radius,
        params.damping as int,
    ) == (p.x as int, 0int));
    assert(resolve_axis(
        p.y as int,
        0,
        params.radius as int,
        world.y - params.radius,
        params.damping as int,
    ) == (p.y as int, 0int));
}

} // verus!
