//! Fixed-point scalars.
//!
//! A physical quantity is stored as an `i64` counting billionths of its
//! unit.  Sums and differences saturate at the `i64` range; products and
//! quotients are rescaled with truncation toward zero and then saturated.
//! The spec functions below are the arithmetic's exact mathematical
//! model, and every executable operation is proved equal to it.

use vstd::prelude::*;

verus! {

/// Fraction steps per unit: one billionth of a meter, second, newton, ...
pub const SCALE: i64 = 1_000_000_000;

/// A fixed-point scalar: the wrapped integer counts steps of
/// `1 / SCALE` of the unit at hand.
#[derive(Clone, Copy, PartialEq, Eq, Structural, Debug)]
pub struct Fx(pub i64);

impl Fx {
    /// The stored count of fraction steps, as a mathematical integer.
    pub open spec fn v(self) -> int {
        self.0 as int
    }

}

/// Clamping to the `i64` range: the saturation rule every operation follows.
pub open spec fn sat(x: int) -> int {
    if x > i64::MAX as int {
        i64::MAX as int
    } else if x < i64::MIN as int {
        i64::MIN as int
    } else {
        x
    }
}

/// Division rounded toward zero (the rounding the machine division performs),
/// written over Euclidean `/` on magnitudes.
pub open spec fn tdiv(n: int, d: int) -> int {
    let m = if n >= 0 { n } else { -n };
    let e = if d >= 0 { d } else { -d };
    if (n >= 0) == (d >= 0) {
        m / e
    } else {
        -(m / e)
    }
}

/// Saturating sum.
pub open spec fn fadd(a: int, b: int) -> int {
    sat(a + b)
}

/// Saturating difference.
pub open spec fn fsub(a: int, b: int) -> int {
    sat(a - b)
}

/// Saturating negation.
pub open spec fn fneg(a: int) -> int {
    sat(-a)
}

/// Fixed-point product: the exact product rescaled with truncation, saturated.
pub open spec fn fmul(a: int, b: int) -> int {
    sat(tdiv(a * b, SCALE as int))
}

/// Fixed-point quotient (nonzero divisor): the exact quotient rescaled with
/// truncation, saturated.
pub open spec fn fdiv(a: int, b: int) -> int {
    sat(tdiv(a * SCALE as int, b))
}

proof fn lemma_mul_i64_fits_i128(a: int, b: int)
    by (nonlinear_arith)
    requires
        i64::MIN as int <= a <= i64::MAX as int,
        i64::MIN as int <= b <= i64::MAX as int,
    ensures
        (i128::MIN as int) < a * b,
        a * b < i128::MAX as int,
{
}

proof fn lemma_mul_i64_scale_fits_i128(a: int)
    by (nonlinear_arith)
    requires
        i64::MIN as int <= a <= i64::MAX as int,
    ensures
        (i128::MIN as int) < a * SCALE as int,
        (a * SCALE as int) < i128::MAX as int,
{
}

/// Clamp an exact `i128` value into the `i64` range.
pub(crate) fn clamp64(x: i128) -> (r: i64)
    ensures
        r as int == sat(x as int),
{
    if x > i64::MAX as i128 {
        i64::MAX
    } else if x < i64::MIN as i128 {
        i64::MIN
    } else {
        x as i64
    }
}

/// Saturating sum of two scalars.
pub fn fx_add(a: Fx, b: Fx) -> (r: Fx)
    ensures
        r.v() == fadd(a.v(), b.v()),
{
    let s: i128 = a.0 as i128 + b.0 as i128;
    Fx(clamp64(s))
}

/// Saturating difference of two scalars.
pub fn fx_sub(a: Fx, b: Fx) -> (r: Fx)
    ensures
        r.v() == fsub(a.v(), b.v()),
{
    let s: i128 = a.0 as i128 - b.0 as i128;
    Fx(clamp64(s))
}

/// Saturating negation.
pub fn fx_neg(a: Fx) -> (r: Fx)
    ensures
        r.v() == fneg(a.v()),
{
    let s: i128 = -(a.0 as i128);
    Fx(clamp64(s))
}

/// Fixed-point product.
pub fn fx_mul(a: Fx, b: Fx) -> (r: Fx)
    ensures
        r.v() == fmul(a.v(), b.v()),
{
    proof {
        lemma_mul_i64_fits_i128(a.v(), b.v());
    }
    let p: i128 = (a.0 as i128) * (b.0 as i128);
    let m: i128 = if p < 0 { -p } else { p };
    let q: i128 = m / (SCALE as i128);
    let qs: i128 = if p < 0 { -q } else { q };
    Fx(clamp64(qs))
}

/// Fixed-point quotient; the divisor must not be zero.
pub fn fx_div(a: Fx, b: Fx) -> (r: Fx)
    requires
        b.v() != 0,
    ensures
        r.v() == fdiv(a.v(), b.v()),
{
    proof {
        lemma_mul_i64_scale_fits_i128(a.v());
    }
    let n: i128 = (a.0 as i128) * (SCALE as i128);
    let d: i128 = b.0 as i128;
    let m: i128 = if n < 0 { -n } else { n };
    let e: i128 = if d < 0 { -d } else { d };
    let q: i128 = m / e;
    proof {
        lemma_tdiv_bound(m as int, e as int);
    }
    let qs: i128 = if (n < 0) != (d < 0) { -q } else { q };
    Fx(clamp64(qs))
}

/// Saturation keeps order.
pub proof fn lemma_sat_monotone(a: int, b: int)
    requires
        a <= b,
    ensures
        sat(a) <= sat(b),
{
}

/// The quotient model is monotone in the dividend for a positive divisor.
pub proof fn lemma_fdiv_monotone(a: int, b: int, m: int)
    requires
        a <= b,
        m >= 1,
    ensures
        fdiv(a, m) <= fdiv(b, m),
{
    assert(a * SCALE as int <= b * SCALE as int) by (nonlinear_arith)
        requires
            a <= b,
    ;
    lemma_tdiv_monotone(a * SCALE as int, b * SCALE as int, m);
    lemma_sat_monotone(tdiv(a * SCALE as int, m), tdiv(b * SCALE as int, m));
}

/// The quotient model is strictly monotone once the dividend gap spans a
/// whole divisor (for a nonnegative dividend) and the larger quotient
/// stays in range.
pub proof fn lemma_fdiv_strict(a: int, b: int, m: int)
    requires
        0 <= a,
        m >= 1,
        (b - a) * SCALE as int >= m,
        b * SCALE as int <= i64::MAX as int * m,
    ensures
        fdiv(a, m) < fdiv(b, m),
{
    assert(0 <= a * SCALE as int && a * SCALE as int + m <= b * SCALE as int)
        by (nonlinear_arith)
        requires
            0 <= a,
            (b - a) * SCALE as int >= m,
    ;
    lemma_tdiv_strict(a * SCALE as int, b * SCALE as int, m);
    assert(tdiv(b * SCALE as int, m) <= i64::MAX as int) by {
        vstd::arithmetic::div_mod::lemma_div_multiples_vanish(i64::MAX as int, m);
        assert(b * SCALE as int <= m * i64::MAX as int) by (nonlinear_arith)
            requires
                b * SCALE as int <= i64::MAX as int * m,
        ;
        vstd::arithmetic::div_mod::lemma_div_is_ordered(
            b * SCALE as int,
            m * i64::MAX as int,
            m,
        );
    };
}

/// Multiplying by zero gives zero, exactly, in the fixed-point arithmetic.
pub proof fn lemma_fmul_zero(a: int)
    ensures
        fmul(a, 0) == 0,
        fmul(0, a) == 0,
{
    vstd::arithmetic::mul::lemma_mul_basics(a);
    vstd::arithmetic::div_mod::lemma_div_of0(SCALE as int);
}

/// Dividing zero gives zero, exactly.
pub proof fn lemma_fdiv_zero(b: int)
    requires
        b != 0,
    ensures
        fdiv(0, b) == 0,
{
    vstd::arithmetic::div_mod::lemma_div_of0(if b >= 0 {
        b
    } else {
        -b
    });
}

/// Division by a value of one magnitude or more cannot enlarge a magnitude,
/// so a quotient of in-range values stays in range and is never saturated.
pub proof fn lemma_tdiv_bound(n: int, d: int)
    by (nonlinear_arith)
    requires
        d >= 1,
    ensures
        n >= 0 ==> 0 <= tdiv(n, d) <= n,
        n < 0 ==> n <= tdiv(n, d) <= 0,
{
}

/// Truncated division is monotone in the dividend (positive divisor).
pub proof fn lemma_tdiv_monotone(a: int, b: int, d: int)
    by (nonlinear_arith)
    requires
        a <= b,
        d >= 1,
    ensures
        tdiv(a, d) <= tdiv(b, d),
{
}

/// On nonnegative dividends a gap of at least one divisor forces the
/// truncated quotients apart.
pub proof fn lemma_tdiv_strict(a: int, b: int, d: int)
    requires
        0 <= a,
        a + d <= b,
        d >= 1,
    ensures
        tdiv(a, d) < tdiv(b, d),
{
    lemma_tdiv_monotone(a + d, b, d);
    assert((a + d) / d == a / d + 1) by (nonlinear_arith)
        requires
            d >= 1,
    ;
}

/// The product model is monotone in its first factor for a nonnegative second
/// factor, and strictly so once the gap spans a whole fraction step.
pub proof fn lemma_fmul_monotone(a: int, b: int, m: int)
    requires
        a <= b,
        m >= 0,
    ensures
        fmul(a, m) <= fmul(b, m),
        a >= 0 && (b - a) * m >= SCALE as int && b * m <= i64::MAX as int * SCALE as int
            ==> fmul(a, m) < fmul(b, m),
{
    assert(a * m <= b * m) by (nonlinear_arith)
        requires
            a <= b,
            m >= 0,
    ;
    lemma_tdiv_monotone(a * m, b * m, SCALE as int);
    if a >= 0 && (b - a) * m >= SCALE as int && b * m <= i64::MAX as int * SCALE as int {
        assert(a * m >= 0 && a * m + SCALE as int <= b * m) by (nonlinear_arith)
            requires
                a >= 0,
                m >= 0,
                (b - a) * m >= SCALE as int,
        ;
        lemma_tdiv_strict(a * m, b * m, SCALE as int);
        assert(tdiv(b * m, SCALE as int) <= i64::MAX as int) by {
            vstd::arithmetic::div_mod::lemma_div_multiples_vanish(
                i64::MAX as int,
                SCALE as int,
            );
            assert(b * m <= SCALE as int * i64::MAX as int) by (nonlinear_arith)
                requires
                    b * m <= i64::MAX as int * SCALE as int,
            ;
            vstd::arithmetic::div_mod::lemma_div_is_ordered(
                b * m,
                SCALE as int * i64::MAX as int,
                SCALE as int,
            );
        };
    }
}

} // verus!
