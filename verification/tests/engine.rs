use fluidsim::constants::SimulationParams;
use fluidsim::fixed::{Vec2Fx, FX_ONE};
use fluidsim::simulation::{random_unit_dir, IOInteraction, Particle, Particles};

fn at(x: i64, y: i64) -> Vec2Fx {
    Vec2Fx { x, y }
}

fn still_particle(pos: Vec2Fx) -> Particle {
    Particle {
        pos,
        predicted_pos: pos,
        vel: at(0, 0),
        density: 0,
        pressure: 0,
        force: at(0, 0),
    }
}

fn quiet_params(h: i64) -> SimulationParams {
    let mut p = SimulationParams::default();
    p.influence_radius = h;
    p.cell_size = h;
    p.mass = FX_ONE;
    p.gravity = at(0, 0);
    p.gas_constant = 10 * FX_ONE;
    p.rest_density = 0;
    p
}

#[test]
fn spawn_grows_all_arrays_in_step() {
    let mut ps = Particles::new();
    assert_eq!(ps.len(), 0);
    ps.spawn(still_particle(at(FX_ONE, FX_ONE)));
    ps.spawn(still_particle(at(2 * FX_ONE, FX_ONE)));
    assert_eq!(ps.len(), 2);
    assert_eq!(ps.pos.len(), 2);
    assert_eq!(ps.predicted_pos.len(), 2);
    assert_eq!(ps.vel.len(), 2);
    assert_eq!(ps.density.len(), 2);
    assert_eq!(ps.pressure.len(), 2);
    assert_eq!(ps.force.len(), 2);
    assert_eq!(ps.pos[1], at(2 * FX_ONE, FX_ONE));
}

/// After the density pass every density is non-negative, and at least the
/// particle's own kernel contribution.
#[test]
fn densities_never_negative_after_update() {
    let params = quiet_params(2 * FX_ONE);
    let world = at(40 * FX_ONE, 40 * FX_ONE);
    assert!(params.validate(world));
    let mut ps = Particles::new();
    let mut seed: u64 = 0x9e37_79b9_7f4a_7c15;
    for _ in 0..30 {
        seed = seed.wrapping_mul(6364136223846793005).wrapping_add(1442695040888963407);
        let x = (6 * FX_ONE + ((seed >> 16) % (28 * FX_ONE as u64)) as i64) as i64;
        seed = seed.wrapping_mul(6364136223846793005).wrapping_add(1442695040888963407);
        let y = (6 * FX_ONE + ((seed >> 16) % (28 * FX_ONE as u64)) as i64) as i64;
        ps.spawn(still_particle(at(x, y)));
    }
    ps.update(655, world, &params);
    let self_contribution = 20860;
    for i in 0..ps.len() {
        assert!(ps.density[i] >= self_contribution);
        assert!(ps.density[i] >= 0);
    }
}

/// Wall-boundary resolution: a particle just past the right wall with an
/// outward velocity ends the tick clamped to the wall, its velocity
/// reflected and damped.
#[test]
fn wall_bounce_clamps_and_reflects() {
    let params = SimulationParams::default();
    let world = at(100 * FX_ONE, 100 * FX_ONE);
    let hi = world.x - params.radius;
    let mut ps = Particles::new();
    let mut p = still_particle(at(hi + 655, 50 * FX_ONE));
    p.vel = at(10 * FX_ONE, 0);
    p.density = FX_ONE;
    ps.spawn(p);
    ps.integrate(world, at(0, 0), IOInteraction::Idle, &params, 655);
    assert_eq!(ps.pos[0].x, hi);
    assert_eq!(ps.pos[0].y, 50 * FX_ONE);
    // -velocity * damping: 10 * 52429 fixed-point steps, exactly
    assert_eq!(ps.vel[0].x, -524290);
    assert_eq!(ps.vel[0].y, 0);
}

/// A corner hit reflects both axes in the same tick, independently.
#[test]
fn corner_bounce_reflects_both_axes() {
    let params = SimulationParams::default();
    let world = at(100 * FX_ONE, 100 * FX_ONE);
    let hi_x = world.x - params.radius;
    let hi_y = world.y - params.radius;
    let mut ps = Particles::new();
    let mut p = still_particle(at(hi_x + 100, hi_y + 100));
    p.vel = at(10 * FX_ONE, 10 * FX_ONE);
    p.density = FX_ONE;
    ps.spawn(p);
    ps.integrate(world, at(0, 0), IOInteraction::Idle, &params, 655);
    assert_eq!(ps.pos[0], at(hi_x, hi_y));
    assert_eq!(ps.vel[0], at(-524290, -524290));
}

/// A tick touches every particle but never changes the ensemble size, and
/// the update pass leaves the positions alone.
#[test]
fn update_keeps_size_and_positions() {
    let params = quiet_params(2 * FX_ONE);
    let world = at(40 * FX_ONE, 40 * FX_ONE);
    let mut ps = Particles::new();
    for i in 0..5i64 {
        ps.spawn(still_particle(at((8 + 4 * i) * FX_ONE, 20 * FX_ONE)));
    }
    let before: Vec<Vec2Fx> = ps.pos.clone();
    ps.update(655, world, &params);
    assert_eq!(ps.len(), 5);
    assert_eq!(ps.pos, before);
    assert_eq!(ps.density.len(), 5);
    assert_eq!(ps.force.len(), 5);
}

/// A single particle with zero velocity under zero gravity feels zero net
/// force and does not move over a tick.
#[test]
fn lone_particle_stays_put() {
    let params = quiet_params(2 * FX_ONE);
    let world = at(100 * FX_ONE, 100 * FX_ONE);
    assert!(params.validate(world));
    let mut ps = Particles::new();
    ps.spawn(still_particle(at(50 * FX_ONE, 50 * FX_ONE)));
    ps.update(655, world, &params);
    assert_eq!(ps.force[0], at(0, 0));
    assert!(ps.density[0] > 0);
    ps.integrate(world, at(0, 0), IOInteraction::Idle, &params, 655);
    assert_eq!(ps.pos[0], at(50 * FX_ONE, 50 * FX_ONE));
    assert_eq!(ps.vel[0], at(0, 0));
}

/// Two particles at half the influence radius: the separation grows when
/// the local density exceeds the rest density (repulsive pressure) and
/// shrinks when it is below it (attractive pressure).
#[test]
fn pair_separation_follows_pressure_sign() {
    let world = at(100 * FX_ONE, 100 * FX_ONE);
    let run = |rest_density: i64| -> (i64, i64) {
        let mut params = quiet_params(2 * FX_ONE);
        params.rest_density = rest_density;
        assert!(params.validate(world));
        let mut ps = Particles::new();
        ps.spawn(still_particle(at(50 * FX_ONE, 50 * FX_ONE)));
        ps.spawn(still_particle(at(51 * FX_ONE, 50 * FX_ONE)));
        let before = ps.pos[1].x - ps.pos[0].x;
        ps.update(655, world, &params);
        ps.integrate(world, at(0, 0), IOInteraction::Idle, &params, 655);
        (before, ps.pos[1].x - ps.pos[0].x)
    };
    // rest density below the local density: repulsion
    let (before, after) = run(0);
    assert!(after > before, "dense pair failed to repel");
    // rest density above the local density: attraction
    let (before, after) = run(60000);
    assert!(after < before, "sparse pair failed to attract");
}

/// Pointer repel at half the pointer radius: the velocity gains exactly
/// half the strength, directed away from the pointer.
#[test]
fn pointer_repel_at_half_radius() {
    let mut params = SimulationParams::default();
    params.mouse_influence_radius = 4096;
    let io_pos = at(10 * FX_ONE, 9 * FX_ONE);
    let particle = at(10 * FX_ONE + 2048, 9 * FX_ONE);
    let repel = IOInteraction::Repel(5000);
    let dv = repel.delta_vel(particle, io_pos, &params);
    assert_eq!(dv.x, 2500);
    assert_eq!(dv.y, 0);
}

#[test]
fn pointer_attract_pulls_toward_pointer() {
    let mut params = SimulationParams::default();
    params.mouse_influence_radius = 4096;
    let io_pos = at(10 * FX_ONE, 9 * FX_ONE);
    let particle = at(10 * FX_ONE + 2048, 9 * FX_ONE);
    let attract = IOInteraction::Attract(5000);
    let dv = attract.delta_vel(particle, io_pos, &params);
    assert_eq!(dv.x, -2500);
    assert_eq!(dv.y, 0);
}

/// The pointer kick's magnitude never exceeds the strength, even one raw
/// step away from the pointer where the floored square root leaves the
/// direction over-long before the cap.
#[test]
fn pointer_kick_capped_at_strength() {
    let mut params = SimulationParams::default();
    params.mouse_influence_radius = FX_ONE;
    let io_pos = at(10 * FX_ONE, 9 * FX_ONE);
    let particle = at(10 * FX_ONE + 1, 9 * FX_ONE + 1);
    let strength: i64 = FX_ONE;
    let dv = IOInteraction::Repel(strength).delta_vel(particle, io_pos, &params);
    let m2 = (dv.x as i128) * (dv.x as i128) + (dv.y as i128) * (dv.y as i128);
    assert!(m2 <= (strength as i128) * (strength as i128));
    // the uncapped kick at this distance would be (65535, 65535)
    assert_eq!((dv.x, dv.y), (46340, 46340));
}

#[test]
fn pointer_idle_and_out_of_range_do_nothing() {
    let mut params = SimulationParams::default();
    params.mouse_influence_radius = 4096;
    let io_pos = at(10 * FX_ONE, 9 * FX_ONE);
    let particle = at(10 * FX_ONE + 2048, 9 * FX_ONE);
    let dv = IOInteraction::Idle.delta_vel(particle, io_pos, &params);
    assert_eq!((dv.x, dv.y), (0, 0));
    let far = at(10 * FX_ONE + 5000, 9 * FX_ONE);
    let dv = IOInteraction::Repel(5000).delta_vel(far, io_pos, &params);
    assert_eq!((dv.x, dv.y), (0, 0));
}

/// The speed clamp rescales an over-limit velocity to the maximum.
#[test]
fn velocity_clamped_to_max() {
    let mut params = SimulationParams::default();
    params.max_vel = 100 * FX_ONE;
    let world = at(3000 * FX_ONE, 3000 * FX_ONE);
    let mut ps = Particles::new();
    let mut p = still_particle(at(1500 * FX_ONE, 1500 * FX_ONE));
    p.vel = at(10000 * FX_ONE, 0);
    p.density = FX_ONE;
    ps.spawn(p);
    ps.integrate(world, at(0, 0), IOInteraction::Idle, &params, 655);
    // scaled by max / (floor-sqrt + 1): one raw step under the maximum
    assert_eq!(ps.vel[0].x, 100 * FX_ONE - 1);
    assert_eq!(ps.vel[0].y, 0);
    let vx = ps.vel[0].x as i128;
    let vy = ps.vel[0].y as i128;
    let m = (100 * FX_ONE) as i128;
    assert!(vx * vx + vy * vy <= m * m);
}

/// The speed clamp never leaves the speed over the maximum, even at raw
/// step scales where the floored square root is coarse.
#[test]
fn velocity_clamp_bounds_tiny_magnitudes() {
    let mut params = SimulationParams::default();
    params.max_vel = 1;
    let world = at(100 * FX_ONE, 100 * FX_ONE);
    let mut ps = Particles::new();
    let mut p = still_particle(at(50 * FX_ONE, 50 * FX_ONE));
    p.vel = at(1, 1);
    p.density = FX_ONE;
    ps.spawn(p);
    ps.integrate(world, at(0, 0), IOInteraction::Idle, &params, 655);
    let vx = ps.vel[0].x as i128;
    let vy = ps.vel[0].y as i128;
    assert!(vx * vx + vy * vy <= 1);
}

/// The update pass recomputes the predicted position from the velocity.
#[test]
fn update_predicts_one_tick_ahead() {
    let params = quiet_params(2 * FX_ONE);
    let world = at(100 * FX_ONE, 100 * FX_ONE);
    let mut ps = Particles::new();
    let mut p = still_particle(at(50 * FX_ONE, 50 * FX_ONE));
    p.vel = at(100 * FX_ONE, -50 * FX_ONE);
    ps.spawn(p);
    ps.update(655, world, &params);
    // pos + vel * dt: 100 * 655 and -50 * 655 fixed-point steps
    assert_eq!(ps.predicted_pos[0].x, 50 * FX_ONE + 65500);
    assert_eq!(ps.predicted_pos[0].y, 50 * FX_ONE - 32750);
    assert_eq!(ps.pos[0], at(50 * FX_ONE, 50 * FX_ONE));
}

/// The random fallback direction always has length one, up to the
/// sampler's slack.
#[test]
fn random_direction_is_near_unit() {
    let lo = ((FX_ONE - 330) as i128) * ((FX_ONE - 330) as i128);
    let hi = ((FX_ONE + 330) as i128) * ((FX_ONE + 330) as i128);
    for _ in 0..200 {
        let d = random_unit_dir();
        let m = (d.x as i128) * (d.x as i128) + (d.y as i128) * (d.y as i128);
        assert!(lo <= m && m <= hi);
    }
}

/// Two coincident particles are pushed apart by the randomized direction.
#[test]
fn coincident_pair_separates() {
    let params = quiet_params(2 * FX_ONE);
    let world = at(100 * FX_ONE, 100 * FX_ONE);
    let mut ps = Particles::new();
    ps.spawn(still_particle(at(50 * FX_ONE, 50 * FX_ONE)));
    ps.spawn(still_particle(at(50 * FX_ONE, 50 * FX_ONE)));
    let mut separated = false;
    for _ in 0..10 {
        ps.update(655, world, &params);
        ps.integrate(world, at(0, 0), IOInteraction::Idle, &params, 655);
        let dx = (ps.pos[0].x - ps.pos[1].x) as i128;
        let dy = (ps.pos[0].y - ps.pos[1].y) as i128;
        if dx * dx + dy * dy > 0 {
            separated = true;
            break;
        }
    }
    assert!(separated, "coincident pair stayed locked together");
}
