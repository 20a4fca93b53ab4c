//! Orientation quaternions.
//!
//! The aircraft's attitude is a quaternion of fixed-point scalars.  The
//! product, the conjugate, the rotation of a vector and a linear blend
//! are each proved equal to their spec-level models; renormalization is
//! proved to land the squared norm within `NORM_TOL` of one, which is
//! the orientation invariant the integration step maintains.

use vstd::prelude::*;
use crate::fixed::{Fx, SCALE, sat, tdiv, fadd, fsub, fneg, fmul, fx_add, fx_sub, fx_neg, fx_mul};
use crate::sqrt::{isqrt, sqrt_floor, is_sqrt};
use crate::vec3::V3;

verus! {

/// Tolerance on the squared norm of a stored orientation, in fraction
/// steps of the squared unit: ten billionths of one.
pub const NORM_TOL: i64 = 10_000_000_000;

/// Squared unit length in fraction steps.
pub const UNIT_SQ: i64 = 1_000_000_000_000_000_000;

/// Renormalization refuses squared norms below a quarter unit...
pub const QMIN: i64 = 250_000_000_000_000_000;

/// ...and components beyond two billion units; such a quaternion is
/// treated as degenerate and left to the caller's fallback.
pub const QBOUND: i64 = 2_000_000_000_000_000_000;

/// A rotation quaternion of fixed-point scalars.
#[derive(Clone, Copy, PartialEq, Eq, Structural, Debug)]
pub struct Quat {
    pub w: Fx,
    pub x: Fx,
    pub y: Fx,
    pub z: Fx,
}

/// Exact (unscaled) squared norm of the stored components.
pub open spec fn qnorm2(q: Quat) -> int {
    q.w.v() * q.w.v() + q.x.v() * q.x.v() + q.y.v() * q.y.v() + q.z.v() * q.z.v()
}

/// The squared norm is within `NORM_TOL` of one: the orientation invariant.
pub open spec fn unit_like(q: Quat) -> bool {
    UNIT_SQ as int - NORM_TOL as int <= qnorm2(q) <= UNIT_SQ as int + NORM_TOL as int
}

/// All components small enough for renormalization arithmetic.
pub open spec fn qsmall(q: Quat) -> bool {
    &&& -QBOUND as int <= q.w.v() <= QBOUND as int
    &&& -QBOUND as int <= q.x.v() <= QBOUND as int
    &&& -QBOUND as int <= q.y.v() <= QBOUND as int
    &&& -QBOUND as int <= q.z.v() <= QBOUND as int
}

/// A quaternion that renormalization accepts.
pub open spec fn normalizable(q: Quat) -> bool {
    qsmall(q) && qnorm2(q) >= QMIN as int
}

/// Hamilton product of two quaternions, in the fixed-point arithmetic.
pub open spec fn qmul(a: Quat, b: Quat) -> (int, int, int, int) {
    let (aw, ax, ay, az) = (a.w.v(), a.x.v(), a.y.v(), a.z.v());
    let (bw, bx, by, bz) = (b.w.v(), b.x.v(), b.y.v(), b.z.v());
    (
        fsub(fsub(fsub(fmul(aw, bw), fmul(ax, bx)), fmul(ay, by)), fmul(az, bz)),
        fsub(fadd(fadd(fmul(aw, bx), fmul(ax, bw)), fmul(ay, bz)), fmul(az, by)),
        fadd(fadd(fsub(fmul(aw, by), fmul(ax, bz)), fmul(ay, bw)), fmul(az, bx)),
        fadd(fsub(fadd(fmul(aw, bz), fmul(ax, by)), fmul(ay, bx)), fmul(az, bw)),
    )
}

/// Rotation of a vector by a quaternion given as four components:
/// `v + w t + u x t` with `t = 2 (u x v)`, `u` the vector part.
pub open spec fn qrot_c(w: int, ux: int, uy: int, uz: int, vx: int, vy: int, vz: int) -> (
    int,
    int,
    int,
) {
    let cx = fsub(fmul(uy, vz), fmul(uz, vy));
    let cy = fsub(fmul(uz, vx), fmul(ux, vz));
    let cz = fsub(fmul(ux, vy), fmul(uy, vx));
    let tx = fadd(cx, cx);
    let ty = fadd(cy, cy);
    let tz = fadd(cz, cz);
    let dx = fsub(fmul(uy, tz), fmul(uz, ty));
    let dy = fsub(fmul(uz, tx), fmul(ux, tz));
    let dz = fsub(fmul(ux, ty), fmul(uy, tx));
    (
        fadd(vx, fadd(fmul(w, tx), dx)),
        fadd(vy, fadd(fmul(w, ty), dy)),
        fadd(vz, fadd(fmul(w, tz), dz)),
    )
}

/// Rotation of a vector by a quaternion value.
pub open spec fn qrot(q: Quat, vx: int, vy: int, vz: int) -> (int, int, int) {
    qrot_c(q.w.v(), q.x.v(), q.y.v(), q.z.v(), vx, vy, vz)
}

/// Linear blend from `a` toward `b` by fraction `t`, component-wise.
pub open spec fn qlerp(a: Quat, b: Quat, t: int) -> (int, int, int, int) {
    (
        fadd(a.w.v(), fmul(fsub(b.w.v(), a.w.v()), t)),
        fadd(a.x.v(), fmul(fsub(b.x.v(), a.x.v()), t)),
        fadd(a.y.v(), fmul(fsub(b.y.v(), a.y.v()), t)),
        fadd(a.z.v(), fmul(fsub(b.z.v(), a.z.v()), t)),
    )
}

/// One renormalized component: the component rescaled by the norm.
pub open spec fn qunit(c: int, n: int) -> int {
    sat(tdiv(c * SCALE as int, sqrt_floor(n)))
}

/// A quaternion from four in-range component values.
pub open spec fn quat_of(w: int, x: int, y: int, z: int) -> Quat {
    Quat { w: Fx(w as i64), x: Fx(x as i64), y: Fx(y as i64), z: Fx(z as i64) }
}

/// The identity rotation as a spec value.
pub open spec fn qident() -> Quat {
    Quat { w: Fx(SCALE), x: Fx(0), y: Fx(0), z: Fx(0) }
}

/// The renormalization as a spec-level function: the rescaled quaternion
/// for an acceptable input, the fallback otherwise.
pub open spec fn qnormalize_or(q: Quat, fb: Quat) -> Quat {
    if normalizable(q) {
        quat_of(
            qunit(q.w.v(), qnorm2(q)),
            qunit(q.x.v(), qnorm2(q)),
            qunit(q.y.v(), qnorm2(q)),
            qunit(q.z.v(), qnorm2(q)),
        )
    } else {
        fb
    }
}

impl Quat {
    /// The identity rotation.
    pub fn identity() -> (r: Quat)
        ensures
            r == qident(),
            r.w.v() == SCALE as int,
            r.x.v() == 0,
            r.y.v() == 0,
            r.z.v() == 0,
            unit_like(r),
    {
        Quat { w: Fx(SCALE), x: Fx(0), y: Fx(0), z: Fx(0) }
    }

    /// The conjugate, which rotates the opposite way.
    pub fn conjugate(self) -> (r: Quat)
        ensures
            r.w == self.w,
            r.x.v() == fneg(self.x.v()),
            r.y.v() == fneg(self.y.v()),
            r.z.v() == fneg(self.z.v()),
    {
        Quat { w: self.w, x: fx_neg(self.x), y: fx_neg(self.y), z: fx_neg(self.z) }
    }

    /// Hamilton product.
    pub fn times(self, o: Quat) -> (r: Quat)
        ensures
            (r.w.v(), r.x.v(), r.y.v(), r.z.v()) == qmul(self, o),
    {
        let w = fx_sub(
            fx_sub(fx_sub(fx_mul(self.w, o.w), fx_mul(self.x, o.x)), fx_mul(self.y, o.y)),
            fx_mul(self.z, o.z),
        );
        let x = fx_sub(
            fx_add(fx_add(fx_mul(self.w, o.x), fx_mul(self.x, o.w)), fx_mul(self.y, o.z)),
            fx_mul(self.z, o.y),
        );
        let y = fx_add(
            fx_add(fx_sub(fx_mul(self.w, o.y), fx_mul(self.x, o.z)), fx_mul(self.y, o.w)),
            fx_mul(self.z, o.x),
        );
        let z = fx_add(
            fx_sub(fx_add(fx_mul(self.w, o.z), fx_mul(self.x, o.y)), fx_mul(self.y, o.x)),
            fx_mul(self.z, o.w),
        );
        Quat { w, x, y, z }
    }

    /// Rotate a vector.
    pub fn rotate(self, v: V3) -> (r: V3)
        ensures
            (r.x.v(), r.y.v(), r.z.v()) == qrot(self, v.x.v(), v.y.v(), v.z.v()),
    {
        let cx = fx_sub(fx_mul(self.y, v.z), fx_mul(self.z, v.y));
        let cy = fx_sub(fx_mul(self.z, v.x), fx_mul(self.x, v.z));
        let cz = fx_sub(fx_mul(self.x, v.y), fx_mul(self.y, v.x));
        let tx = fx_add(cx, cx);
        let ty = fx_add(cy, cy);
        let tz = fx_add(cz, cz);
        let dx = fx_sub(fx_mul(self.y, tz), fx_mul(self.z, ty));
        let dy = fx_sub(fx_mul(self.z, tx), fx_mul(self.x, tz));
        let dz = fx_sub(fx_mul(self.x, ty), fx_mul(self.y, tx));
        V3 {
            x: fx_add(v.x, fx_add(fx_mul(self.w, tx), dx)),
            y: fx_add(v.y, fx_add(fx_mul(self.w, ty), dy)),
            z: fx_add(v.z, fx_add(fx_mul(self.w, tz), dz)),
        }
    }

    /// Linear blend toward another quaternion.
    pub fn blend(self, o: Quat, t: Fx) -> (r: Quat)
        ensures
            (r.w.v(), r.x.v(), r.y.v(), r.z.v()) == qlerp(self, o, t.v()),
    {
        Quat {
            w: fx_add(self.w, fx_mul(fx_sub(o.w, self.w), t)),
            x: fx_add(self.x, fx_mul(fx_sub(o.x, self.x), t)),
            y: fx_add(self.y, fx_mul(fx_sub(o.y, self.y), t)),
            z: fx_add(self.z, fx_mul(fx_sub(o.z, self.z), t)),
        }
    }

    /// Rescale to unit length, or hand back the fallback when the input
    /// is degenerate (vanishing or enormous norm).
    pub fn normalize_or(self, fallback: Quat) -> (r: Quat)
        ensures
            r == qnormalize_or(self, fallback),
            normalizable(self) ==> unit_like(r),
            !normalizable(self) ==> r == fallback,
    {
        if self.w.0 > QBOUND || self.w.0 < -QBOUND || self.x.0 > QBOUND || self.x.0 < -QBOUND
            || self.y.0 > QBOUND || self.y.0 < -QBOUND || self.z.0 > QBOUND || self.z.0
            < -QBOUND {
            return fallback;
        }
        proof {
            lemma_square_bound(self.w.v(), QBOUND as int);
            lemma_square_bound(self.x.v(), QBOUND as int);
            lemma_square_bound(self.y.v(), QBOUND as int);
            lemma_square_bound(self.z.v(), QBOUND as int);
        }
        let n: i128 = (self.w.0 as i128) * (self.w.0 as i128) + (self.x.0 as i128) * (self.x.0
            as i128) + (self.y.0 as i128) * (self.y.0 as i128) + (self.z.0 as i128) * (self.z.0
            as i128);
        if n < QMIN as i128 {
            return fallback;
        }
        let rt: u128 = isqrt(n as u128);
        proof {
            lemma_root_range(n as int, rt as int);
        }
        let r = Quat {
            w: rescale(self.w, rt),
            x: rescale(self.x, rt),
            y: rescale(self.y, rt),
            z: rescale(self.z, rt),
        };
        proof {
            lemma_unit_after_rescale(self, n as int, rt as int, r);
            assert(r == qnormalize_or(self, fallback));
        }
        r
    }
}

/// Rotating the zero vector gives the zero vector, whatever the quaternion.
pub proof fn lemma_qrot_zero(w: int, ux: int, uy: int, uz: int)
    ensures
        qrot_c(w, ux, uy, uz, 0, 0, 0) == (0int, 0int, 0int),
{
    crate::fixed::lemma_fmul_zero(ux);
    crate::fixed::lemma_fmul_zero(uy);
    crate::fixed::lemma_fmul_zero(uz);
    crate::fixed::lemma_fmul_zero(w);
}

/// The identity quaternion rotates every vector to itself.
pub proof fn lemma_qrot_identity(vx: int, vy: int, vz: int)
    requires
        i64::MIN as int <= vx <= i64::MAX as int,
        i64::MIN as int <= vy <= i64::MAX as int,
        i64::MIN as int <= vz <= i64::MAX as int,
    ensures
        qrot(qident(), vx, vy, vz) == (vx, vy, vz),
{
    crate::fixed::lemma_fmul_zero(vx);
    crate::fixed::lemma_fmul_zero(vy);
    crate::fixed::lemma_fmul_zero(vz);
    crate::fixed::lemma_fmul_zero(0);
    crate::fixed::lemma_fmul_zero(SCALE as int);
}

/// Squares respect magnitude bounds.
proof fn lemma_square_bound(c: int, b: int)
    by (nonlinear_arith)
    requires
        -b <= c <= b,
        0 <= b,
    ensures
        0 <= c * c <= b * b,
{
}

/// The root of an accepted squared norm is at least half a unit, and
/// stays below the 64-bit range for any sum of four bounded squares.
proof fn lemma_root_range(n: int, rt: int)
    by (nonlinear_arith)
    requires
        n >= QMIN as int,
        n <= 4 * (QBOUND as int * QBOUND as int),
        is_sqrt(n, rt),
    ensures
        rt >= 500_000_000,
        rt <= u64::MAX as int,
{
}

/// One component rescaled by the norm root.
fn rescale(c: Fx, rt: u128) -> (o: Fx)
    requires
        1 <= rt,
        rt <= u64::MAX as u128,
    ensures
        o.v() == sat(tdiv(c.v() * SCALE as int, rt as int)),
{
    let mag: u128 = if c.0 < 0 {
        (-(c.0 as i128)) as u128
    } else {
        c.0 as u128
    };
    proof {
        assert(0 <= mag as int * SCALE as int && mag as int * SCALE as int
            <= 0x8000_0000_0000_0000u128 as int * SCALE as int && (if c.v() >= 0 {
            c.v() * SCALE as int
        } else {
            -(c.v() * SCALE as int)
        }) == mag as int * SCALE as int && (c.v() * SCALE as int >= 0) == (c.v() >= 0 || mag
            == 0)) by (nonlinear_arith)
            requires
                mag as int == (if c.v() < 0 {
                    -c.v()
                } else {
                    c.v()
                }),
                -0x8000_0000_0000_0000i128 as int <= c.v() <= 0x7fff_ffff_ffff_ffffi128 as int,
        ;
    }
    let m: u128 = mag * (SCALE as u128);
    proof {
        vstd::arithmetic::div_mod::lemma_div_pos_is_pos(m as int, rt as int);
        vstd::arithmetic::div_mod::lemma_div_nonincreasing(m as int, rt as int);
    }
    let d: u128 = m / rt;
    let q: i128 = if c.0 < 0 {
        -(d as i128)
    } else {
        d as i128
    };
    Fx(crate::fixed::clamp64(q))
}

/// The rescaled components form a quaternion whose squared norm is within
/// tolerance of one.
proof fn lemma_unit_after_rescale(q: Quat, n: int, rt: int, r: Quat)
    requires
        qsmall(q),
        n == qnorm2(q),
        n >= QMIN as int,
        is_sqrt(n, rt),
        r.w.v() == sat(tdiv(q.w.v() * SCALE as int, rt)),
        r.x.v() == sat(tdiv(q.x.v() * SCALE as int, rt)),
        r.y.v() == sat(tdiv(q.y.v() * SCALE as int, rt)),
        r.z.v() == sat(tdiv(q.z.v() * SCALE as int, rt)),
    ensures
        r.w.v() == qunit(q.w.v(), n),
        r.x.v() == qunit(q.x.v(), n),
        r.y.v() == qunit(q.y.v(), n),
        r.z.v() == qunit(q.z.v(), n),
        unit_like(r),
{
    crate::sqrt::lemma_sqrt_floor(n);
    crate::sqrt::lemma_sqrt_unique(n, rt, sqrt_floor(n));
    lemma_square_bound(q.w.v(), QBOUND as int);
    lemma_square_bound(q.x.v(), QBOUND as int);
    lemma_square_bound(q.y.v(), QBOUND as int);
    lemma_square_bound(q.z.v(), QBOUND as int);
    lemma_root_range(n, rt);
    let s = SCALE as int;
    let aw = q.w.v();
    let ax = q.x.v();
    let ay = q.y.v();
    let az = q.z.v();
    assert(aw * aw >= 0 && ax * ax >= 0 && ay * ay >= 0 && az * az >= 0) by (nonlinear_arith);
    let cw = lemma_rescaled_component(aw, rt, n);
    let cx = lemma_rescaled_component(ax, rt, n);
    let cy = lemma_rescaled_component(ay, rt, n);
    let cz = lemma_rescaled_component(az, rt, n);
    let t = cw * cw + cx * cx + cy * cy + cz * cz;
    assert(r.w.v() == cw && r.x.v() == cx && r.y.v() == cy && r.z.v() == cz);
    assert(qnorm2(r) == t);
    // sum the four component bounds
    assert(t * (rt * rt) <= n * (s * s) + 4 * (rt * rt) && t * (rt * rt) >= n * (s * s) - 8 * s
        * (rt * rt)) by (nonlinear_arith)
        requires
            t == cw * cw + cx * cx + cy * cy + cz * cz,
            n == aw * aw + ax * ax + ay * ay + az * az,
            cw * cw * (rt * rt) <= aw * aw * (s * s) + rt * rt,
            cx * cx * (rt * rt) <= ax * ax * (s * s) + rt * rt,
            cy * cy * (rt * rt) <= ay * ay * (s * s) + rt * rt,
            cz * cz * (rt * rt) <= az * az * (s * s) + rt * rt,
            cw * cw * (rt * rt) >= aw * aw * (s * s) - 2 * s * (rt * rt),
            cx * cx * (rt * rt) >= ax * ax * (s * s) - 2 * s * (rt * rt),
            cy * cy * (rt * rt) >= ay * ay * (s * s) - 2 * s * (rt * rt),
            cz * cz * (rt * rt) >= az * az * (s * s) - 2 * s * (rt * rt),
    ;
    // upper: n <= rt^2 + 2 rt and 2 rt s^2 <= 4 s rt^2 give
    //        t rt^2 <= (s^2 + 4 s + 4) rt^2
    assert(t * (rt * rt) <= (s * s + 4 * s + 4) * (rt * rt)) by (nonlinear_arith)
        requires
            t * (rt * rt) <= n * (s * s) + 4 * (rt * rt),
            n < (rt + 1) * (rt + 1),
            s <= 2 * rt,
            s > 0,
            rt >= 1,
    ;
    assert(t <= s * s + 4 * s + 4) by (nonlinear_arith)
        requires
            t * (rt * rt) <= (s * s + 4 * s + 4) * (rt * rt),
            rt >= 1,
    ;
    // lower: n >= rt^2 gives t rt^2 >= (s^2 - 8 s) rt^2
    assert(t * (rt * rt) >= (s * s - 8 * s) * (rt * rt)) by (nonlinear_arith)
        requires
            t * (rt * rt) >= n * (s * s) - 8 * s * (rt * rt),
            n >= rt * rt,
            s > 0,
    ;
    assert(t >= s * s - 8 * s) by (nonlinear_arith)
        requires
            t * (rt * rt) >= (s * s - 8 * s) * (rt * rt),
            rt >= 1,
    ;
}

/// One rescaled component: its value, its magnitude bound, and how close
/// its square times the root's square is to the input square times the
/// squared unit.
proof fn lemma_rescaled_component(c: int, rt: int, n: int) -> (cp: int)
    requires
        is_sqrt(n, rt),
        rt >= 1,
        c * c <= n,
    ensures
        cp == sat(tdiv(c * SCALE as int, rt)),
        cp == tdiv(c * SCALE as int, rt),
        -SCALE as int <= cp <= SCALE as int,
        cp * cp * (rt * rt) <= c * c * (SCALE as int * SCALE as int) + rt * rt,
        cp * cp * (rt * rt) >= c * c * (SCALE as int * SCALE as int) - 2 * SCALE as int * (rt
            * rt),
{
    let s = SCALE as int;
    let m = if c >= 0 {
        c
    } else {
        -c
    };
    assert(m <= rt) by (nonlinear_arith)
        requires
            c * c <= n,
            is_sqrt(n, rt),
            m == if c >= 0 {
                c
            } else {
                -c
            },
    ;
    let g = m * s;
    let qh = g / rt;
    vstd::arithmetic::div_mod::lemma_fundamental_div_mod(g, rt);
    vstd::arithmetic::div_mod::lemma_div_pos_is_pos(g, rt);
    assert(g >= 0) by (nonlinear_arith)
        requires
            m >= 0,
            s > 0,
            g == m * s,
    ;
    let d = g - rt * qh;
    assert(0 <= d < rt) by {
        vstd::arithmetic::div_mod::lemma_remainder_lower(g, rt);
        vstd::arithmetic::div_mod::lemma_remainder_upper(g, rt);
    };
    // qh <= s because g <= rt * s
    assert(g <= rt * s) by (nonlinear_arith)
        requires
            m <= rt,
            s > 0,
            g == m * s,
    ;
    vstd::arithmetic::div_mod::lemma_div_is_ordered(g, rt * s, rt);
    vstd::arithmetic::div_mod::lemma_div_multiples_vanish(s, rt);
    vstd::arithmetic::mul::lemma_mul_is_commutative(rt, s);
    assert(qh <= s);
    let cp = tdiv(c * s, rt);
    assert(c * s == if c >= 0 {
        g
    } else {
        -g
    }) by (nonlinear_arith)
        requires
            g == (if c >= 0 {
                c
            } else {
                -c
            }) * s,
    ;
    assert(cp == if c >= 0 {
        qh
    } else {
        -qh
    });
    assert(cp == sat(cp));
    // (qh rt)^2 = (g - d)^2 = g^2 - 2 g d + d^2, with g <= rt s and 0 <= d < rt
    assert(cp * cp == qh * qh) by (nonlinear_arith)
        requires
            cp == qh || cp == -qh,
    ;
    assert(qh * qh * (rt * rt) == (g - d) * (g - d)) by (nonlinear_arith)
        requires
            g - d == rt * qh,
    ;
    assert((g - d) * (g - d) <= g * g + d * d) by (nonlinear_arith)
        requires
            g >= 0,
            d >= 0,
    ;
    assert((g - d) * (g - d) >= g * g - 2 * (rt * s) * d) by (nonlinear_arith)
        requires
            0 <= g <= rt * s,
            d >= 0,
    ;
    assert(d * d <= rt * rt) by (nonlinear_arith)
        requires
            0 <= d < rt,
    ;
    assert(2 * (rt * s) * d <= 2 * s * (rt * rt)) by (nonlinear_arith)
        requires
            0 <= d < rt,
            s > 0,
            rt >= 1,
    ;
    assert(g * g == c * c * (s * s)) by (nonlinear_arith)
        requires
            g == (if c >= 0 {
                c
            } else {
                -c
            }) * s,
    ;
    cp
}

} // verus!
