//! Smoothing-kernel functions.
//!
//! Two pure functions of two positions and an influence radius `h`:
//!
//! * the density kernel (poly-style): `4 / (pi * h^8) * (h^2 - r^2)^3` for
//!   `r <= h`, zero beyond the support radius;
//! * the pressure-gradient kernel (spiky-gradient-style):
//!   `-10 / (pi * h^5) * (h - r)^2 * r_hat` for `0 <= r <= h`, zero beyond,
//!   where `r_hat` points from the other particle toward this one.
//!
//! The normalization constants 4 and -10 are the fixed 2D choices used
//! consistently by both kernels.  `pi` enters as the rational 355/113.
//! When two particles coincide the gradient direction is undefined; the
//! caller passes a fallback direction (normally a random unit vector, see
//! [`crate::simulation`]) so that coincident particles are pushed apart
//! instead of deadlocking.
//!
//! All arithmetic is fixed-point: wide intermediates, truncating division,
//! saturation on the final scalar.  Both kernels work from the squared
//! distance, so the common out-of-range path takes no square root.

use vstd::prelude::*;
use crate::fixed::{
    Vec2Fx, FX_ONE, tdiv, sat64, sqrt_floor, is_sqrt, lemma_sqrt_floor, lemma_tdiv_bounds,
    lemma_tdiv_upper, lemma_mul_le, lemma_mul_bounds, lemma_square_bound, wide_div, wide_mul,
    sat_to_i64, isqrt_u128,
};
use crate::constants::{SimulationParams, MAX_RADIUS};

verus! {

/// Numerator of the rational approximation of `pi`.
pub const PI_NUM: i64 = 355;

/// Denominator of the rational approximation of `pi`.
pub const PI_DEN: i64 = 113;

/// 2D normalization constant of the density kernel.
pub const POLY_C: i64 = 4;

/// 2D normalization constant of the pressure-gradient kernel (negative:
/// the kernel vector points from this particle toward the other one).
pub const SPIKY_C: i64 = -10;

/// Squared distance (raw scale) below which two particles count as
/// coincident and the gradient direction is taken from the fallback.
pub const COINCIDENT_EPS_SQ: i64 = 4;

/// The squared distance of two positions, at raw scale (`FX_ONE` squared
/// steps per squared world unit), exact.
pub open spec fn dist_sq_raw(p: Vec2Fx, q: Vec2Fx) -> int {
    (p.x - q.x) * (p.x - q.x) + (p.y - q.y) * (p.y - q.y)
}

/// `h^2` in fixed point.
pub open spec fn h2_fx(h: int) -> int {
    tdiv(h * h, FX_ONE as int)
}

/// `h^4` in fixed point.
pub open spec fn h4_fx(h: int) -> int {
    tdiv(h2_fx(h) * h2_fx(h), FX_ONE as int)
}

/// `h^8` in fixed point, floored at one step so it can stand as a divisor
/// (for radii under one world unit the true power rounds to zero).
pub open spec fn h8_fx(h: int) -> int {
    let v = tdiv(h4_fx(h) * h4_fx(h), FX_ONE as int);
    if v >= 1 {
        v
    } else {
        1
    }
}

/// `h^5` in fixed point, floored at one step so it can stand as a divisor.
pub open spec fn h5_fx(h: int) -> int {
    let v = tdiv(h4_fx(h) * h, FX_ONE as int);
    if v >= 1 {
        v
    } else {
        1
    }
}

/// The density-kernel value for squared distance `d2` (raw scale) and
/// influence radius `h`: `4 / (pi * h^8) * (h^2 - r^2)^3` in fixed point,
/// zero outside the support radius.
pub open spec fn poly_kernel_val(d2: int, h: int) -> int {
    if d2 <= h * h {
        sat64(tdiv(POLY_C * PI_DEN * FX_ONE * poly_cube(d2, h), PI_NUM * h8_fx(h)))
    } else {
        0
    }
}

/// `(h^2 - r^2)^3` in fixed point, for `d2 = r^2` at raw scale.
pub open spec fn poly_cube(d2: int, h: int) -> int {
    let diff = tdiv(h * h - d2, FX_ONE as int);
    tdiv(tdiv(diff * diff, FX_ONE as int) * diff, FX_ONE as int)
}

/// The magnitude factor of the pressure-gradient kernel at distance
/// `r_len` (fixed point): `-10 / (pi * h^5) * (h - r)^2`.  Zero or negative.
pub open spec fn spiky_mag(r_len: int, h: int) -> int {
    let hmr = h - r_len;
    tdiv(SPIKY_C * PI_DEN * FX_ONE * tdiv(hmr * hmr, FX_ONE as int), PI_NUM * h5_fx(h))
}

/// One component of the pressure-gradient kernel, as a function of the
/// component difference `d` (this minus other), the squared distance `d2`
/// (raw scale), the influence radius and the fallback direction component.
/// The direction is normalized by one past the floored square root, so it
/// is never longer than unit despite the truncation.
pub open spec fn spiky_component(d: int, d2: int, h: int, fb: int) -> int {
    if d2 < COINCIDENT_EPS_SQ {
        sat64(tdiv(spiky_mag(0, h) * fb, FX_ONE as int))
    } else if d2 <= h * h {
        let r_len = sqrt_floor(d2);
        let r_hat = tdiv(d * FX_ONE, r_len + 1);
        sat64(tdiv(spiky_mag(r_len, h) * r_hat, FX_ONE as int))
    } else {
        0
    }
}

/// The squared distance does not depend on the order of the two positions.
pub proof fn lemma_dist_sq_symm(p: Vec2Fx, q: Vec2Fx)
    ensures
        dist_sq_raw(p, q) == dist_sq_raw(q, p),
{
    assert((p.x - q.x) * (p.x - q.x) == (q.x - p.x) * (q.x - p.x)) by (nonlinear_arith);
    assert((p.y - q.y) * (p.y - q.y) == (q.y - p.y) * (q.y - p.y)) by (nonlinear_arith);
}

/// Bounds on the fixed-point powers of an admissible influence radius.
pub proof fn lemma_h_powers(h: int)
    requires
        1 <= h <= MAX_RADIUS,
    ensures
        0 <= h2_fx(h) <= 0x10_0000_0000,
        0 <= h4_fx(h) <= 0x100_0000_0000_0000,
        1 <= h8_fx(h) <= 0x1_0000_0000_0000_0000_0000_0000,
        1 <= h5_fx(h) <= 0x4_0000_0000_0000_0000,
{
    lemma_mul_le(h, MAX_RADIUS as int, h, MAX_RADIUS as int);
    lemma_tdiv_upper(h * h, FX_ONE as int, 0x10_0000_0000);
    lemma_mul_le(h2_fx(h), 0x10_0000_0000, h2_fx(h), 0x10_0000_0000);
    lemma_tdiv_upper(h2_fx(h) * h2_fx(h), FX_ONE as int, 0x100_0000_0000_0000);
    lemma_mul_le(h4_fx(h), 0x100_0000_0000_0000, h4_fx(h), 0x100_0000_0000_0000);
    lemma_tdiv_upper(h4_fx(h) * h4_fx(h), FX_ONE as int, 0x1_0000_0000_0000_0000_0000_0000);
    lemma_mul_le(h4_fx(h), 0x100_0000_0000_0000, h, MAX_RADIUS as int);
    lemma_tdiv_upper(h4_fx(h) * h, FX_ONE as int, 0x4_0000_0000_0000_0000);
}

/// Bounds on the cube factor of the density kernel.
pub proof fn lemma_poly_cube_bounds(d2: int, h: int)
    requires
        0 <= d2 <= h * h,
        1 <= h <= MAX_RADIUS,
    ensures
        0 <= poly_cube(d2, h) <= 0x1000_0000_0000_0000_0000,
{
    lemma_mul_le(h, MAX_RADIUS as int, h, MAX_RADIUS as int);
    let diff = tdiv(h * h - d2, FX_ONE as int);
    lemma_tdiv_upper(h * h - d2, FX_ONE as int, 0x10_0000_0000);
    lemma_mul_le(diff, 0x10_0000_0000, diff, 0x10_0000_0000);
    let sq = tdiv(diff * diff, FX_ONE as int);
    lemma_tdiv_upper(diff * diff, FX_ONE as int, 0x100_0000_0000_0000);
    lemma_mul_le(sq, 0x100_0000_0000_0000, diff, 0x10_0000_0000);
    lemma_tdiv_upper(sq * diff, FX_ONE as int, 0x1000_0000_0000_0000_0000);
}

/// The density kernel is never negative.
pub proof fn lemma_poly_kernel_nonneg(d2: int, h: int)
    requires
        0 <= d2,
        1 <= h <= MAX_RADIUS,
    ensures
        poly_kernel_val(d2, h) >= 0,
{
    if d2 <= h * h {
        lemma_poly_cube_bounds(d2, h);
        lemma_h_powers(h);
        lemma_mul_le(
            (POLY_C * PI_DEN * FX_ONE) as int,
            (POLY_C * PI_DEN * FX_ONE) as int,
            poly_cube(d2, h),
            poly_cube(d2, h),
        );
        lemma_mul_le(PI_NUM as int, PI_NUM as int, h8_fx(h), h8_fx(h));
        lemma_tdiv_bounds(POLY_C * PI_DEN * FX_ONE * poly_cube(d2, h), PI_NUM * h8_fx(h));
    }
}

/// Compute the squared distance of two bounded positions, exact, wide.
pub fn dist_sq_exec(p: Vec2Fx, q: Vec2Fx) -> (r: i128)
    requires
        p.spec_bounded(),
        q.spec_bounded(),
    ensures
        r as int == dist_sq_raw(p, q),
        r >= 0,
{
    let dx = (p.x as i128) - (q.x as i128);
    let dy = (p.y as i128) - (q.y as i128);
    proof {
        lemma_square_bound(dx as int);
        lemma_square_bound(dy as int);
    }
    dx * dx + dy * dy
}

/// Compute `h^8` in fixed point, floored at one step.
fn h8_exec(h: i64) -> (r: i128)
    requires
        1 <= h <= MAX_RADIUS,
    ensures
        r as int == h8_fx(h as int),
{
    proof {
        lemma_mul_le(h as int, MAX_RADIUS as int, h as int, MAX_RADIUS as int);
        lemma_h_powers(h as int);
        lemma_mul_bounds(h2_fx(h as int), h2_fx(h as int), 0x10_0000_0000, 0x10_0000_0000);
        lemma_mul_bounds(
            h4_fx(h as int),
            h4_fx(h as int),
            0x100_0000_0000_0000,
            0x100_0000_0000_0000,
        );
    }
    let h2 = wide_div((h as i128) * (h as i128), FX_ONE as i128);
    let h4 = wide_div(h2 * h2, FX_ONE as i128);
    let v = wide_div(h4 * h4, FX_ONE as i128);
    if v >= 1 {
        v
    } else {
        1
    }
}

/// Compute `h^5` in fixed point, floored at one step.
fn h5_exec(h: i64) -> (r: i128)
    requires
        1 <= h <= MAX_RADIUS,
    ensures
        r as int == h5_fx(h as int),
{
    proof {
        lemma_mul_le(h as int, MAX_RADIUS as int, h as int, MAX_RADIUS as int);
        lemma_h_powers(h as int);
        lemma_mul_bounds(h2_fx(h as int), h2_fx(h as int), 0x10_0000_0000, 0x10_0000_0000);
        lemma_mul_bounds(h4_fx(h as int), h as int, 0x100_0000_0000_0000, MAX_RADIUS as int);
    }
    let h2 = wide_div((h as i128) * (h as i128), FX_ONE as i128);
    let h4 = wide_div(h2 * h2, FX_ONE as i128);
    let v = wide_div(h4 * (h as i128), FX_ONE as i128);
    if v >= 1 {
        v
    } else {
        1
    }
}

/// The density kernel of two positions: `4 / (pi * h^8) * (h^2 - r^2)^3`
/// when the inter-particle distance `r` is at most `h`, else zero.
///
/// Evaluated from the squared distance, so the out-of-range path takes no
/// square root.  Never negative.
pub fn poly_kernel(pos: Vec2Fx, pos_other: Vec2Fx, params: &SimulationParams) -> (r: i64)
    requires
        pos.spec_bounded(),
        pos_other.spec_bounded(),
        1 <= params.influence_radius <= MAX_RADIUS,
    ensures
        r as int == poly_kernel_val(dist_sq_raw(pos, pos_other), params.influence_radius as int),
        r >= 0,
{
    let h = params.influence_radius;
    let ghost hi = h as int;
    let d2 = dist_sq_exec(pos, pos_other);
    proof {
        lemma_mul_le(hi, MAX_RADIUS as int, hi, MAX_RADIUS as int);
    }
    let hh = (h as i128) * (h as i128);
    if d2 > hh {
        return 0;
    }
    proof {
        lemma_tdiv_upper(hh as int - d2 as int, FX_ONE as int, 0x10_0000_0000);
    }
    let diff = wide_div(hh - d2, FX_ONE as i128);
    proof {
        lemma_mul_bounds(diff as int, diff as int, 0x10_0000_0000, 0x10_0000_0000);
        lemma_tdiv_upper(diff as int * diff as int, FX_ONE as int, 0x100_0000_0000_0000);
    }
    let sq = wide_div(diff * diff, FX_ONE as i128);
    proof {
        lemma_mul_bounds(sq as int, diff as int, 0x100_0000_0000_0000, 0x10_0000_0000);
        lemma_tdiv_upper(sq as int * diff as int, FX_ONE as int, 0x1000_0000_0000_0000_0000);
    }
    let cube = wide_div(sq * diff, FX_ONE as i128);
    let h8 = h8_exec(h);
    proof {
        lemma_h_powers(hi);
        lemma_mul_bounds(cube as int, 29622272, 0x1000_0000_0000_0000_0000, 29622272);
        lemma_mul_bounds(
            h8 as int,
            PI_NUM as int,
            0x1_0000_0000_0000_0000_0000_0000,
            PI_NUM as int,
        );
        lemma_poly_kernel_nonneg(d2 as int, hi);
        assert(poly_cube(d2 as int, hi) == cube as int);
    }
    let num = ((POLY_C * PI_DEN * FX_ONE) as i128) * cube;
    let den = (PI_NUM as i128) * h8;
    let v = wide_div(num, den);
    sat_to_i64(v)
}

/// The magnitude factor of the pressure-gradient kernel:
/// `-10 / (pi * h^5) * (h - r)^2`, given the precomputed `h^5`.
fn spiky_mag_exec(h: i64, r_len: i64, h5: i128) -> (r: i64)
    requires
        1 <= h <= MAX_RADIUS,
        0 <= r_len <= h,
        h5 as int == h5_fx(h as int),
    ensures
        r as int == spiky_mag(r_len as int, h as int),
        r <= 0,
{
    let hmr = h - r_len;
    let ghost hi = h as int;
    proof {
        lemma_mul_le(hmr as int, MAX_RADIUS as int, hmr as int, MAX_RADIUS as int);
        lemma_tdiv_upper(hmr as int * hmr as int, FX_ONE as int, 0x10_0000_0000);
        lemma_h_powers(hi);
    }
    let sq = wide_div((hmr as i128) * (hmr as i128), FX_ONE as i128);
    proof {
        lemma_mul_bounds(((SPIKY_C * PI_DEN * FX_ONE)) as int, sq as int, 74055680, 0x10_0000_0000);
        lemma_mul_bounds(h5 as int, PI_NUM as int, 0x4_0000_0000_0000_0000, PI_NUM as int);
    }
    let num = ((SPIKY_C * PI_DEN * FX_ONE) as i128) * sq;
    proof {
        assert(0 <= (PI_NUM as int) * (h5 as int) <= 0x8_0000_0000_0000_0000_0000) by (
        nonlinear_arith)
            requires
                1 <= h5 as int <= 0x4_0000_0000_0000_0000,
        ;
    }
    let den = (PI_NUM as i128) * h5;
    let v = wide_div(num, den);
    sat_to_i64(v)
}

/// The pressure-gradient kernel of two positions:
/// `-10 / (pi * h^5) * (h - r)^2 * r_hat` for `r <= h`, zero beyond, where
/// `r_hat` is the unit vector from `pos_other` toward `pos`.
///
/// When the two positions coincide (squared distance under
/// `COINCIDENT_EPS_SQ`) the direction is undefined and `fallback_dir` is
/// used in place of `r_hat`; the magnitude is then the one at `r = 0`.
pub fn spiky_kernel_gradient(
    pos: Vec2Fx,
    pos_other: Vec2Fx,
    params: &SimulationParams,
    fallback_dir: Vec2Fx,
) -> (r: Vec2Fx)
    requires
        pos.spec_bounded(),
        pos_other.spec_bounded(),
        1 <= params.influence_radius <= MAX_RADIUS,
    ensures
        r.x as int == spiky_component(
            pos.x - pos_other.x,
            dist_sq_raw(pos, pos_other),
            params.influence_radius as int,
            fallback_dir.x as int,
        ),
        r.y as int == spiky_component(
            pos.y - pos_other.y,
            dist_sq_raw(pos, pos_other),
            params.influence_radius as int,
            fallback_dir.y as int,
        ),
{
    let h = params.influence_radius;
    let ghost hi = h as int;
    let d2 = dist_sq_exec(pos, pos_other);
    proof {
        lemma_mul_le(hi, MAX_RADIUS as int, hi, MAX_RADIUS as int);
        lemma_h_powers(hi);
    }
    let hh = (h as i128) * (h as i128);
    let h5 = h5_exec(h);
    if d2 < COINCIDENT_EPS_SQ as i128 {
        // coincident particles: push apart along the caller's direction
        let mag = spiky_mag_exec(h, 0, h5);
        let vx = wide_div(wide_mul(mag, fallback_dir.x), FX_ONE as i128);
        let vy = wide_div(wide_mul(mag, fallback_dir.y), FX_ONE as i128);
        Vec2Fx { x: sat_to_i64(vx), y: sat_to_i64(vy) }
    } else if d2 <= hh {
        let r_len_w = isqrt_u128(d2 as u128);
        proof {
            assert(is_sqrt(d2 as int, r_len_w as int));
            lemma_sqrt_floor(d2 as int, r_len_w as int);
            assert(r_len_w as int <= hi) by (nonlinear_arith)
                requires
                    (r_len_w as int) * (r_len_w as int) <= hi * hi,
                    r_len_w as int >= 0,
                    hi >= 1,
            ;
            assert(r_len_w as int >= 1) by (nonlinear_arith)
                requires
                    (d2 as int) < (r_len_w as int + 1) * (r_len_w as int + 1),
                    d2 as int >= 4,
                    r_len_w as int >= 0,
            ;
        }
        let r_len = r_len_w as i64;
        let mag = spiky_mag_exec(h, r_len, h5);
        let dx = (pos.x as i128) - (pos_other.x as i128);
        let dy = (pos.y as i128) - (pos_other.y as i128);
        proof {
            lemma_mul_bounds(dx as int, FX_ONE as int, 0x4000_0000_0000, FX_ONE as int);
            lemma_mul_bounds(dy as int, FX_ONE as int, 0x4000_0000_0000, FX_ONE as int);
        }
        let rxp = dx * (FX_ONE as i128);
        let ryp = dy * (FX_ONE as i128);
        let rx = wide_div(rxp, (r_len as i128) + 1);
        let ry = wide_div(ryp, (r_len as i128) + 1);
        proof {
            lemma_mul_bounds(mag as int, rx as int, 0x8000_0000_0000_0000, 0x4000_0000_0000_0000);
            lemma_mul_bounds(mag as int, ry as int, 0x8000_0000_0000_0000, 0x4000_0000_0000_0000);
        }
        let vx = wide_div((mag as i128) * rx, FX_ONE as i128);
        let vy = wide_div((mag as i128) * ry, FX_ONE as i128);
        Vec2Fx { x: sat_to_i64(vx), y: sat_to_i64(vy) }
    } else {
        Vec2Fx { x: 0, y: 0 }
    }
}

} // verus!
