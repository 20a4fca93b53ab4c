//! Angle of attack.
//!
//! The aerodynamic model needs the angle, in degrees, between the body's
//! forward axis and the relative wind inside the body x-z plane: the
//! arctangent of the ratio `z / x`, with the singular all-zero input
//! defined as a zero angle and a purely vertical wind as a right angle.
//!
//! Deliberate convention: the angle is read from the ratio alone, so it
//! ignores whether the flow runs forward or backward along x and always
//! lies within a right angle of level.  A full-quadrant reading (which
//! would call a reversed flow a half-turn and stall it) is not what this
//! model means: reversed level flow meets the wing at zero angle, and
//! the drag formula carries the flow direction separately through the
//! sign of the dynamic pressure.
//!
//! The arctangent itself is computed in fixed point: the ratio is folded
//! twice with the half-angle identity `atan(r) = 2 atan(r / (1 + sqrt(1
//! + r^2)))` until it is below about a fifth, an odd Taylor polynomial of
//! degree nine evaluates the remainder, and the result is rescaled from
//! radians to degrees.  The spec functions below are the exact integer
//! model of that computation; the executable functions are proved equal
//! to it, and the tests pin its values on known angles.

use vstd::prelude::*;
use crate::fixed::{Fx, SCALE, fmul};
use crate::sqrt::{isqrt, sqrt_floor, is_sqrt};

verus! {

/// Degrees per radian (180 / pi), in fraction steps.
pub const DEG_PER_RAD: i64 = 57_295_779_513;

/// A right angle in degree fraction steps.
pub const DEG90: i64 = 90_000_000_000;

/// Odd Taylor polynomial of the arctangent, on a fixed-point ratio:
/// `r - r^3/3 + r^5/5 - r^7/7 + r^9/9` with truncating fixed-point powers.
pub open spec fn atan_poly(r: int) -> int {
    let r2 = fmul(r, r);
    let t3 = fmul(r2, r);
    let t5 = fmul(r2, t3);
    let t7 = fmul(r2, t5);
    let t9 = fmul(r2, t7);
    r - t3 / 3 + t5 / 5 - t7 / 7 + t9 / 9
}

/// One half-angle fold: `r / (1 + sqrt(1 + r^2))` in fixed point.
pub open spec fn half_fold(r: int) -> int {
    (r * SCALE as int) / (SCALE as int + sqrt_floor(SCALE as int * SCALE as int + r * r))
}

/// Arctangent of `num / den` in degree fraction steps, for
/// `0 <= num <= den`: two half-angle folds, the polynomial, and the
/// radian-to-degree rescale.
pub open spec fn atan_frac(num: int, den: int) -> int {
    let r = (num * SCALE as int) / den;
    let r2 = half_fold(half_fold(r));
    (4 * atan_poly(r2) * DEG_PER_RAD as int) / SCALE as int
}

/// Angle of attack in degree fraction steps for a body-frame relative wind
/// with vertical component `z` and forward component `x`.  The angle is
/// measured in the x-z plane, ignores the direction of the flow along x,
/// and is defined as zero when the wind has no vertical component.
pub open spec fn alpha_deg(z: int, x: int) -> int {
    if z == 0 {
        0
    } else if x == 0 {
        if z > 0 {
            DEG90 as int
        } else {
            -DEG90 as int
        }
    } else {
        let az = if z >= 0 { z } else { -z };
        let ax = if x >= 0 { x } else { -x };
        let m = if az <= ax {
            atan_frac(az, ax)
        } else {
            DEG90 as int - atan_frac(ax, az)
        };
        if (z >= 0) == (x >= 0) {
            m
        } else {
            -m
        }
    }
}

/// A quotient of a value bounded by `a` times the divisor is bounded by `a`.
proof fn lemma_div_le(x: int, a: int, d: int)
    requires
        0 <= x,
        x <= a * d,
        d >= 1,
    ensures
        0 <= x / d <= a,
{
    vstd::arithmetic::div_mod::lemma_div_is_ordered(x, a * d, d);
    vstd::arithmetic::div_mod::lemma_div_multiples_vanish(a, d);
    vstd::arithmetic::div_mod::lemma_div_pos_is_pos(x, d);
    vstd::arithmetic::mul::lemma_mul_is_commutative(a, d);
}

/// Fixed-point product of two small nonnegative scalars, which can never
/// exceed either factor.
fn mul_small(a: i64, b: i64) -> (r: i64)
    requires
        0 <= a <= SCALE,
        0 <= b <= SCALE,
    ensures
        r as int == fmul(a as int, b as int),
        0 <= r <= a,
        r <= b,
{
    proof {
        assert(a * b <= a * SCALE && a * b <= b * SCALE && 0 <= a * b && a * SCALE <= SCALE as int
            * SCALE as int) by (nonlinear_arith)
            requires
                0 <= a <= SCALE,
                0 <= b <= SCALE,
        ;
        lemma_div_le(a as int * b as int, a as int, SCALE as int);
        lemma_div_le(a as int * b as int, b as int, SCALE as int);
    }
    let p: u128 = (a as u128) * (b as u128);
    let q: u128 = p / (SCALE as u128);
    q as i64
}

/// One executable half-angle fold.
fn half_fold_x(r: i64) -> (r1: i64)
    requires
        0 <= r <= SCALE,
    ensures
        r1 as int == half_fold(r as int),
        0 <= r1 <= r,
{
    proof {
        assert(0 <= r as int * r as int <= SCALE as int * SCALE as int && SCALE as int
            * SCALE as int == 1_000_000_000_000_000_000) by (nonlinear_arith)
            requires
                0 <= r <= SCALE as int,
                SCALE as int == 1_000_000_000,
        ;
    }
    let rr: u128 = (r as u128) * (r as u128);
    let n: u128 = (SCALE as u128) * (SCALE as u128) + rr;
    let s: u128 = isqrt(n);
    proof {
        assert(s as int <= 2_000_000_000) by (nonlinear_arith)
            requires
                is_sqrt(n as int, s as int),
                n as int <= 2_000_000_000_000_000_000,
        ;
        assert(0 <= r as int * SCALE as int <= SCALE as int * SCALE as int) by (nonlinear_arith)
            requires
                0 <= r <= SCALE as int,
        ;
        assert(s as int >= SCALE as int) by (nonlinear_arith)
            requires
                is_sqrt(SCALE as int * SCALE as int + r as int * r as int, s as int),
                0 <= r,
        ;
        assert(r as int * SCALE as int <= r as int * (SCALE as int + s as int) && 0 <= r as int
            * SCALE as int) by (nonlinear_arith)
            requires
                0 <= r,
                s as int >= SCALE as int,
        ;
        lemma_div_le(r as int * SCALE as int, r as int, SCALE as int + s as int);
    }
    let q: u128 = (r as u128) * (SCALE as u128) / ((SCALE as u128) + s);
    q as i64
}

/// The executable arctangent polynomial.
fn atan_poly_x(r: i64) -> (p: i64)
    requires
        0 <= r <= SCALE,
    ensures
        p as int == atan_poly(r as int),
        0 <= p <= 3 * r,
{
    let r2: i64 = mul_small(r, r);
    let t3: i64 = mul_small(r2, r);
    let t5: i64 = mul_small(r2, t3);
    let t7: i64 = mul_small(r2, t5);
    let t9: i64 = mul_small(r2, t7);
    let p: i64 = r - t3 / 3 + t5 / 5 - t7 / 7 + t9 / 9;
    proof {
        assert(0 <= r - t3 / 3 + t5 / 5 - t7 / 7 + t9 / 9 <= 3 * r) by (nonlinear_arith)
            requires
                0 <= t3 <= r,
                0 <= t5 <= r,
                0 <= t7 <= t5,
                0 <= t9 <= r,
        ;
    }
    p
}

/// Executable arctangent of `num / den` in degree fraction steps.
fn atan_frac_x(num: u128, den: u128) -> (a: i64)
    requires
        1 <= den,
        num <= den,
        den <= 0x8000_0000_0000_0000u128,
    ensures
        a as int == atan_frac(num as int, den as int),
        0 <= a <= 12 * DEG_PER_RAD,
{
    let n: u128 = num * (SCALE as u128);
    proof {
        assert(num as int * SCALE as int <= SCALE as int * den as int && 0 <= num as int
            * SCALE as int) by (nonlinear_arith)
            requires
                0 <= num <= den,
        ;
        lemma_div_le(num as int * SCALE as int, SCALE as int, den as int);
    }
    let r: u128 = n / den;
    let r1: i64 = half_fold_x(r as i64);
    let r2: i64 = half_fold_x(r1);
    let p: i64 = atan_poly_x(r2);
    proof {
        assert((4 * (p as int)) * (DEG_PER_RAD as int) <= (12 * DEG_PER_RAD as int) * (
        SCALE as int) && 0 <= (4 * (p as int)) * (DEG_PER_RAD as int) && (4 * (p as int)) * (
        DEG_PER_RAD as int) < i128::MAX as int) by (nonlinear_arith)
            requires
                0 <= p <= 3 * SCALE as int,
        ;
    }
    let num2: i128 = (4 * (p as i128)) * (DEG_PER_RAD as i128);
    proof {
        lemma_div_le((4 * (p as int)) * (DEG_PER_RAD as int), 12 * DEG_PER_RAD as int, SCALE as int);
    }
    let a: i128 = num2 / (SCALE as i128);
    a as i64
}

/// The executable angle of attack; see [`alpha_deg`].
pub fn alpha_deg_of(z: Fx, x: Fx) -> (a: Fx)
    ensures
        a.v() == alpha_deg(z.v(), x.v()),
{
    if z.0 == 0 {
        Fx(0)
    } else if x.0 == 0 {
        if z.0 > 0 {
            Fx(DEG90)
        } else {
            Fx(-DEG90)
        }
    } else {
        let az: u128 = (if z.0 < 0 {
            -(z.0 as i128)
        } else {
            z.0 as i128
        }) as u128;
        let ax: u128 = (if x.0 < 0 {
            -(x.0 as i128)
        } else {
            x.0 as i128
        }) as u128;
        let m: i64 = if az <= ax {
            atan_frac_x(az, ax)
        } else {
            DEG90 - atan_frac_x(ax, az)
        };
        if (z.0 >= 0) == (x.0 >= 0) {
            Fx(m)
        } else {
            Fx(-m)
        }
    }
}

} // verus!
