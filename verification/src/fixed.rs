//! Fixed-point scalars and 2D vectors.
//!
//! A scalar is an `i64` counting `FX_ONE` fractional steps per world unit.
//! Intermediate products are taken in `i128` (two `i64` factors always fit),
//! divisions truncate toward zero, and results saturate at the `i64` range
//! when they are narrowed back to a scalar.

use vstd::prelude::*;
use vstd::arithmetic::div_mod::{lemma_div_nonincreasing, lemma_div_pos_is_pos};

verus! {

/// Fixed-point steps per world unit.
pub const FX_ONE: i64 = 65536;

/// Truncating (round-toward-zero) division, defined for positive divisors.
pub open spec fn tdiv(a: int, b: int) -> int {
    if a >= 0 {
        a / b
    } else {
        -((-a) / b)
    }
}

/// Clamp an unbounded integer into the `i64` range.
pub open spec fn sat64(x: int) -> int {
    if x < i64::MIN {
        i64::MIN as int
    } else if x > i64::MAX {
        i64::MAX as int
    } else {
        x
    }
}

/// The fixed-point product of two scalars: `a * b` rescaled by `FX_ONE`.
pub open spec fn fx_mul(a: int, b: int) -> int {
    sat64(tdiv(a * b, FX_ONE as int))
}

/// `(a * b) / c`, exact wide product, truncating division, saturated result.
pub open spec fn muldiv(a: int, b: int, c: int) -> int {
    sat64(tdiv(a * b, c))
}

/// A product of two `i64` factors stays inside the `i128` range.
pub proof fn lemma_i64_mul_fits(a: int, b: int)
    requires
        i64::MIN <= a <= i64::MAX,
        i64::MIN <= b <= i64::MAX,
    ensures
        i128::MIN <= a * b <= i128::MAX,
{
    assert((-0x8000_0000_0000_0000 <= a <= 0x7fff_ffff_ffff_ffff && -0x8000_0000_0000_0000 <= b
        <= 0x7fff_ffff_ffff_ffff) ==> (-0x4000_0000_0000_0000_0000_0000_0000_0000 <= a * b
        <= 0x4000_0000_0000_0000_0000_0000_0000_0000)) by (nonlinear_arith);
}

/// The square of a scalar of magnitude below `i64::MAX` is non-negative and
/// at most a quarter of the `i128` range.
pub proof fn lemma_square_bound(a: int)
    requires
        -0x7fff_ffff_ffff_ffff <= a <= 0x7fff_ffff_ffff_ffff,
    ensures
        0 <= a * a <= 0x3fff_ffff_ffff_ffff_0000_0000_0000_0001,
{
    assert((-0x7fff_ffff_ffff_ffff <= a <= 0x7fff_ffff_ffff_ffff) ==> (0 <= a * a
        <= 0x3fff_ffff_ffff_ffff_0000_0000_0000_0001)) by (nonlinear_arith);
}

/// Truncating division never grows a value's magnitude (positive divisor).
pub proof fn lemma_tdiv_bounds(a: int, b: int)
    requires
        b >= 1,
    ensures
        a >= 0 ==> 0 <= tdiv(a, b) <= a,
        a < 0 ==> a <= tdiv(a, b) <= 0,
{
    if a >= 0 {
        lemma_div_nonincreasing(a, b);
        if a > 0 {
            lemma_div_pos_is_pos(a, b);
        } else {
            assert(0int / b == 0) by (nonlinear_arith)
                requires b >= 1;
        }
    } else {
        lemma_div_nonincreasing(-a, b);
        lemma_div_pos_is_pos(-a, b);
    }
}

/// Bounds on a product of two non-negative factors.
pub proof fn lemma_mul_le(a: int, amax: int, b: int, bmax: int)
    requires
        0 <= a <= amax,
        0 <= b <= bmax,
    ensures
        0 <= a * b <= amax * bmax,
{
    assert((0 <= a <= amax && 0 <= b <= bmax) ==> (0 <= a * b <= amax * bmax)) by (nonlinear_arith);
}

/// An upper bound on a truncating quotient from a bound on the dividend.
pub proof fn lemma_tdiv_upper(a: int, b: int, c: int)
    requires
        0 <= a,
        b >= 1,
        a <= b * c,
    ensures
        0 <= tdiv(a, b) <= c,
{
    lemma_tdiv_bounds(a, b);
    vstd::arithmetic::div_mod::lemma_multiply_divide_le(a, b, c);
}

/// A magnitude bound on a truncating quotient from a magnitude bound on
/// the dividend.
pub proof fn lemma_tdiv_magnitude(a: int, b: int, c: int)
    requires
        b >= 1,
        0 <= c,
        -(b * c) <= a <= b * c,
    ensures
        -c <= tdiv(a, b) <= c,
{
    if a >= 0 {
        lemma_tdiv_upper(a, b, c);
    } else {
        lemma_tdiv_upper(-a, b, c);
    }
}

/// Truncating division by a positive divisor preserves order between
/// non-negative dividends.
pub proof fn lemma_tdiv_ordered(a1: int, a2: int, b: int)
    requires
        0 <= a1 <= a2,
        b >= 1,
    ensures
        tdiv(a1, b) <= tdiv(a2, b),
{
    vstd::arithmetic::div_mod::lemma_div_is_ordered(a1, a2, b);
}

/// Clamp an unbounded integer into the symmetric range
/// `[-i64::MAX, i64::MAX]`.  Velocities saturate symmetrically, so their
/// squares always fit a wide intermediate.
pub open spec fn sat64s(x: int) -> int {
    if x < -i64::MAX {
        -i64::MAX
    } else if x > i64::MAX {
        i64::MAX as int
    } else {
        x
    }
}

/// Narrow a wide intermediate value to a scalar, saturating symmetrically.
pub fn sat_to_i64_sym(x: i128) -> (r: i64)
    ensures
        r as int == sat64s(x as int),
        r > i64::MIN,
{
    if x < -(i64::MAX as i128) {
        -i64::MAX
    } else if x > i64::MAX as i128 {
        i64::MAX
    } else {
        x as i64
    }
}

/// The saturating sum of two scalars.
pub fn sat_add(a: i64, b: i64) -> (r: i64)
    ensures
        r as int == sat64((a as int) + (b as int)),
{
    sat_to_i64((a as i128) + (b as i128))
}

/// The saturating difference of two scalars.
pub fn sat_sub(a: i64, b: i64) -> (r: i64)
    ensures
        r as int == sat64((a as int) - (b as int)),
{
    sat_to_i64((a as i128) - (b as i128))
}

/// Narrow a wide intermediate value to a scalar, saturating at the range ends.
pub fn sat_to_i64(x: i128) -> (r: i64)
    ensures
        r as int == sat64(x as int),
{
    if x < i64::MIN as i128 {
        i64::MIN
    } else if x > i64::MAX as i128 {
        i64::MAX
    } else {
        x as i64
    }
}

/// The wide product of two scalars.
pub fn wide_mul(a: i64, b: i64) -> (r: i128)
    ensures
        r as int == (a as int) * (b as int),
{
    proof {
        lemma_i64_mul_fits(a as int, b as int);
    }
    (a as i128) * (b as i128)
}

/// Bounds on a product from bounds on the magnitudes of the factors.
pub proof fn lemma_mul_bounds(a: int, b: int, m: int, n: int)
    requires
        -m <= a <= m,
        -n <= b <= n,
        0 <= m,
        0 <= n,
    ensures
        -(m * n) <= a * b <= m * n,
{
    assert((-m <= a <= m && -n <= b <= n && 0 <= m && 0 <= n) ==> (-(m * n) <= a * b <= m * n))
        by (nonlinear_arith);
}

/// Truncating division of a wide value by a positive divisor.
pub fn wide_div(a: i128, b: i128) -> (r: i128)
    requires
        b >= 1,
    ensures
        r as int == tdiv(a as int, b as int),
        a >= 0 ==> 0 <= r <= a,
        a < 0 ==> a <= r <= 0,
{
    proof {
        lemma_tdiv_bounds(a as int, b as int);
    }
    let q = a.checked_div(b);
    q.unwrap()
}

/// Division of a non-negative scalar by a positive divisor.
pub fn div_pos(a: i64, b: i64) -> (r: i64)
    requires
        a >= 0,
        b >= 1,
    ensures
        r as int == (a as int) / (b as int),
        0 <= r <= a,
{
    proof {
        lemma_tdiv_bounds(a as int, b as int);
    }
    a.checked_div(b).unwrap()
}

/// `(a * b) / c` over a wide intermediate product, saturated to a scalar.
pub fn mul_div(a: i64, b: i64, c: i64) -> (r: i64)
    requires
        c >= 1,
    ensures
        r as int == muldiv(a as int, b as int, c as int),
{
    let p = wide_mul(a, b);
    let q = wide_div(p, c as i128);
    sat_to_i64(q)
}

/// `r` is the integer square root of `n`: the largest `r` with `r * r <= n`.
pub open spec fn is_sqrt(n: int, r: int) -> bool {
    &&& 0 <= r
    &&& r * r <= n
    &&& n < (r + 1) * (r + 1)
}

/// The integer square root, as a function.
pub open spec fn sqrt_floor(n: int) -> int {
    choose|r: int| is_sqrt(n, r)
}

/// Every non-negative integer has an integer square root, so `sqrt_floor`
/// is defined on all of them.
pub proof fn lemma_sqrt_exists(n: int)
    requires
        n >= 0,
    ensures
        is_sqrt(n, sqrt_floor(n)),
    decreases n,
{
    if n == 0 {
        assert(is_sqrt(0, 0)) by (nonlinear_arith);
        lemma_sqrt_floor(0, 0);
    } else {
        lemma_sqrt_exists(n - 1);
        let r = sqrt_floor(n - 1);
        if n < (r + 1) * (r + 1) {
            assert(is_sqrt(n, r));
            lemma_sqrt_floor(n, r);
        } else {
            assert(n == (r + 1) * (r + 1));
            assert(is_sqrt(n, r + 1)) by (nonlinear_arith)
                requires
                    n == (r + 1) * (r + 1),
                    r >= 0,
            ;
            lemma_sqrt_floor(n, r + 1);
        }
    }
}

/// Multiplying a truncating quotient back by the divisor never overshoots
/// the dividend.
pub proof fn lemma_tdiv_mul(a: int, b: int)
    requires
        b >= 1,
    ensures
        a >= 0 ==> tdiv(a, b) * b <= a,
        a < 0 ==> tdiv(a, b) * b >= a,
{
    if a >= 0 {
        vstd::arithmetic::div_mod::lemma_fundamental_div_mod(a, b);
        vstd::arithmetic::div_mod::lemma_mod_division_less_than_divisor(a, b);
        assert(tdiv(a, b) * b == b * (a / b)) by (nonlinear_arith)
            requires
                tdiv(a, b) == a / b,
        ;
    } else {
        vstd::arithmetic::div_mod::lemma_fundamental_div_mod(-a, b);
        vstd::arithmetic::div_mod::lemma_mod_division_less_than_divisor(-a, b);
        assert(tdiv(a, b) * b == -(b * ((-a) / b))) by (nonlinear_arith)
            requires
                tdiv(a, b) == -((-a) / b),
        ;
    }
}

/// Shrink a vector to length at most `cap`, preserving its direction: the
/// identity when it is already within the cap, otherwise each component
/// scaled by `cap / (sqrt_floor(len2) + 1)`.  Dividing by one past the
/// floored root is what makes the bound hold despite truncation: the
/// floored root itself can leave a scaled vector slightly over the cap.
pub open spec fn cap_magnitude(vx: int, vy: int, cap: int) -> (int, int) {
    let len2 = vx * vx + vy * vy;
    if len2 > cap * cap {
        let l1 = sqrt_floor(len2) + 1;
        (tdiv(vx * cap, l1), tdiv(vy * cap, l1))
    } else {
        (vx, vy)
    }
}

/// The capped vector's squared length never exceeds the squared cap, and
/// each component stays within the cap in magnitude.
pub proof fn lemma_cap_magnitude_bound(vx: int, vy: int, cap: int)
    requires
        cap >= 0,
    ensures
        ({
            let c = cap_magnitude(vx, vy, cap);
            &&& c.0 * c.0 + c.1 * c.1 <= cap * cap
            &&& (vx * vx + vy * vy > cap * cap) ==> (-cap <= c.0 <= cap && -cap <= c.1 <= cap)
        }),
{
    let len2 = vx * vx + vy * vy;
    assert(vx * vx >= 0 && vy * vy >= 0) by (nonlinear_arith);
    if len2 > cap * cap {
        lemma_sqrt_exists(len2);
        let l = sqrt_floor(len2);
        let l1 = l + 1;
        assert(len2 < l1 * l1);
        assert(l1 >= 1);
        let cx = tdiv(vx * cap, l1);
        let cy = tdiv(vy * cap, l1);
        lemma_tdiv_bounds(vx * cap, l1);
        lemma_tdiv_bounds(vy * cap, l1);
        lemma_tdiv_mul(vx * cap, l1);
        lemma_tdiv_mul(vy * cap, l1);
        assert(cx * cx * (l1 * l1) <= (vx * cap) * (vx * cap)) by (nonlinear_arith)
            requires
                l1 >= 1,
                vx * cap >= 0 ==> (0 <= cx && cx * l1 <= vx * cap),
                vx * cap < 0 ==> (cx <= 0 && cx * l1 >= vx * cap),
        ;
        assert(cy * cy * (l1 * l1) <= (vy * cap) * (vy * cap)) by (nonlinear_arith)
            requires
                l1 >= 1,
                vy * cap >= 0 ==> (0 <= cy && cy * l1 <= vy * cap),
                vy * cap < 0 ==> (cy <= 0 && cy * l1 >= vy * cap),
        ;
        assert((vx * cap) * (vx * cap) == (vx * vx) * (cap * cap) && (vy * cap) * (vy * cap) == (vy
            * vy) * (cap * cap)) by (nonlinear_arith);
        assert(cx * cx + cy * cy <= cap * cap) by (nonlinear_arith)
            requires
                cx * cx * (l1 * l1) <= (vx * vx) * (cap * cap),
                cy * cy * (l1 * l1) <= (vy * vy) * (cap * cap),
                vx * vx + vy * vy < l1 * l1,
                l1 >= 1,
                cap >= 0,
        ;
        assert(-cap <= cx <= cap && -cap <= cy <= cap) by (nonlinear_arith)
            requires
                cx * cx + cy * cy <= cap * cap,
                cap >= 0,
        ;
    }
}

/// Shrink a vector to length at most `cap`, preserving its direction (see
/// [`cap_magnitude`]): the result's squared length never exceeds the
/// squared cap.
pub fn cap_magnitude_exec(vx: i64, vy: i64, cap: i64) -> (r: (i64, i64))
    requires
        cap >= 0,
        vx > i64::MIN,
        vy > i64::MIN,
    ensures
        (r.0 as int, r.1 as int) == cap_magnitude(vx as int, vy as int, cap as int),
        (r.0 as int) * (r.0 as int) + (r.1 as int) * (r.1 as int) <= (cap as int) * (cap as int),
{
    proof {
        lemma_square_bound(vx as int);
        lemma_square_bound(vy as int);
        lemma_square_bound(cap as int);
        lemma_cap_magnitude_bound(vx as int, vy as int, cap as int);
    }
    let len2 = (vx as i128) * (vx as i128) + (vy as i128) * (vy as i128);
    let cap2 = (cap as i128) * (cap as i128);
    if len2 > cap2 {
        let lw = isqrt_u128(len2 as u128);
        proof {
            lemma_sqrt_floor(len2 as int, lw as int);
            lemma_i64_mul_fits(vx as int, cap as int);
            lemma_i64_mul_fits(vy as int, cap as int);
        }
        let l1 = (lw + 1) as i128;
        let cx = wide_div((vx as i128) * (cap as i128), l1);
        let cy = wide_div((vy as i128) * (cap as i128), l1);
        (cx as i64, cy as i64)
    } else {
        (vx, vy)
    }
}

/// A non-negative integer has at most one integer square root.
pub proof fn lemma_sqrt_unique(n: int, r1: int, r2: int)
    requires
        is_sqrt(n, r1),
        is_sqrt(n, r2),
    ensures
        r1 == r2,
{
    assert((0 <= r1 && r1 * r1 <= n && n < (r1 + 1) * (r1 + 1) && 0 <= r2 && r2 * r2 <= n && n < (
    r2 + 1) * (r2 + 1)) ==> r1 == r2) by (nonlinear_arith);
}

/// Any witness of `is_sqrt(n, r)` equals `sqrt_floor(n)`.
pub proof fn lemma_sqrt_floor(n: int, r: int)
    requires
        is_sqrt(n, r),
    ensures
        sqrt_floor(n) == r,
{
    assert(is_sqrt(n, sqrt_floor(n)));
    lemma_sqrt_unique(n, sqrt_floor(n), r);
}

/// The integer square root, by binary search.
pub fn isqrt_u128(n: u128) -> (r: u128)
    ensures
        is_sqrt(n as int, r as int),
        r as int == sqrt_floor(n as int),
        r <= 0xffff_ffff_ffff_ffff,
{
    let mut lo: u128 = 0;
    let mut hi: u128 = 0x1_0000_0000_0000_0000;
    while lo + 1 < hi
        invariant
            0 <= lo < hi <= 0x1_0000_0000_0000_0000,
            (lo as int) * (lo as int) <= (n as int),
            (n as int) < (hi as int) * (hi as int),
        decreases hi - lo,
    {
        let mid = lo + (hi - lo) / 2;
        proof {
            assert(mid >= lo + 1);
            assert(mid < hi);
            assert((mid as int) * (mid as int) < 0x1_0000_0000_0000_0000_0000_0000_0000_0000) by (
            nonlinear_arith)
                requires mid < 0x1_0000_0000_0000_0000;
        }
        if mid <= n / mid {
            proof {
                assert(mid <= n / mid ==> (mid as int) * (mid as int) <= (n as int)) by (nonlinear_arith)
                    requires mid >= 1;
            }
            lo = mid;
        } else {
            proof {
                assert(n / mid < mid ==> (n as int) < (mid as int) * (mid as int)) by (nonlinear_arith)
                    requires mid >= 1;
            }
            hi = mid;
        }
    }
    proof {
        assert(hi == lo + 1);
        lemma_sqrt_floor(n as int, lo as int);
    }
    lo
}

/// A fixed-point 2D vector.
#[derive(Clone, Copy, PartialEq, Eq, Structural, Debug)]
pub struct Vec2Fx {
    pub x: i64,
    pub y: i64,
}

impl Vec2Fx {
    /// The zero vector.
    pub open spec fn spec_zero() -> Vec2Fx {
        Vec2Fx { x: 0, y: 0 }
    }

    /// The zero vector.
    pub fn zero() -> (r: Vec2Fx)
        ensures
            r == Self::spec_zero(),
    {
        Vec2Fx { x: 0, y: 0 }
    }

    /// Both components lie within the world-extent cap, in either direction.
    /// Differences and squares of such components fit comfortably in `i128`.
    pub open spec fn spec_bounded(self) -> bool {
        &&& -crate::constants::MAX_WORLD <= self.x <= crate::constants::MAX_WORLD
        &&& -crate::constants::MAX_WORLD <= self.y <= crate::constants::MAX_WORLD
    }

    /// The squared length of the vector, exact (no saturation).
    pub open spec fn spec_len_sq(self) -> int {
        (self.x as int) * (self.x as int) + (self.y as int) * (self.y as int)
    }

    /// The squared length of the vector, exact in a wide intermediate.
    pub fn len_sq(&self) -> (r: i128)
        requires
            self.x > i64::MIN,
            self.y > i64::MIN,
        ensures
            r as int == self.spec_len_sq(),
            r >= 0,
    {
        proof {
            lemma_square_bound(self.x as int);
            lemma_square_bound(self.y as int);
        }
        (self.x as i128) * (self.x as i128) + (self.y as i128) * (self.y as i128)
    }
}

} // verus!
