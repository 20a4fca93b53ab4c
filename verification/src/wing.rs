//! The aerodynamic surface.
//!
//! Given the relative wind in the body frame, a wing returns a body-frame
//! force: lift along body z and drag opposing the flow along body x.  The
//! coefficients are a piecewise model over the angle of attack in
//! degrees: a linear lift slope and a quadratic drag bowl below the stall
//! angle, flat stalled values at and beyond it.

use vstd::prelude::*;
use crate::fixed::{Fx, fneg, fmul, fx_neg, fx_mul, lemma_fmul_zero};
use crate::vec3::{V3, norm2_of};
use crate::angle::{alpha_deg, alpha_deg_of};

verus! {

/// The stall angle: fourteen degrees, in degree fraction steps.
pub const STALL_DEG: i64 = 14_000_000_000;

/// Lift-coefficient slope below stall: a tenth per degree.
pub const CL_SLOPE: i64 = 100_000_000;

/// Lift coefficient on the stall plateau.
pub const CL_STALL: i64 = 500_000_000;

/// Drag coefficient past stall.
pub const CD_STALL: i64 = 1_500_000_000;

/// Half the sea-level air density (`0.5 * 1.225 kg/m^3`), the constant in
/// the dynamic-pressure formula.
pub const HALF_RHO: i64 = 612_500_000;

/// Lift coefficient for an angle of attack in degree fraction steps:
/// `0.1 * alpha` strictly below the stall magnitude, else the plateau
/// value (whose sign deliberately ignores the sign of the angle).
pub open spec fn lift_coeff(a: int) -> int {
    if (-STALL_DEG as int) < a && a < STALL_DEG as int {
        fmul(CL_SLOPE as int, a)
    } else {
        CL_STALL as int
    }
}

/// Drag coefficient: `0.1 * (0.1 * alpha)^2` strictly below the stall
/// magnitude, else the stalled value.
pub open spec fn drag_coeff(a: int) -> int {
    if (-STALL_DEG as int) < a && a < STALL_DEG as int {
        let t = fmul(CL_SLOPE as int, a);
        fmul(CL_SLOPE as int, fmul(t, t))
    } else {
        CD_STALL as int
    }
}

/// Body-frame force of a wing of the given reference area in a relative
/// wind `(wx, wy, wz)`: dynamic pressure times area times coefficient,
/// with the drag's dynamic pressure signed by the forward flow direction
/// so that reversed flow produces reversed drag.
pub open spec fn wing_force(area: int, wx: int, wy: int, wz: int) -> (int, int, int) {
    let a = alpha_deg(wz, wx);
    let q = fmul(HALF_RHO as int, norm2_of(wx, wy, wz));
    let qs = if wx >= 0 {
        q
    } else {
        fneg(q)
    };
    let lift = fmul(fmul(q, area), lift_coeff(a));
    let drag = fmul(fmul(qs, area), drag_coeff(a));
    (fneg(drag), 0, lift)
}

/// A lifting surface with a fixed reference area.
#[derive(Clone, Copy, PartialEq, Eq, Structural, Debug)]
pub struct Wing {
    pub area: Fx,
}

impl Wing {
    /// The reference area, in square-meter fraction steps.
    pub open spec fn area_v(self) -> int {
        self.area.v()
    }

    /// A wing with the given reference area.
    pub fn new_area_only(area: Fx) -> (w: Wing)
        ensures
            w.area_v() == area.v(),
    {
        Wing { area }
    }

    /// The executable lift coefficient; see [`lift_coeff`].
    pub fn lift_coefficient(&self, a: Fx) -> (c: Fx)
        ensures
            c.v() == lift_coeff(a.v()),
    {
        if -STALL_DEG < a.0 && a.0 < STALL_DEG {
            fx_mul(Fx(CL_SLOPE), a)
        } else {
            Fx(CL_STALL)
        }
    }

    /// The executable drag coefficient; see [`drag_coeff`].
    pub fn drag_coefficient(&self, a: Fx) -> (c: Fx)
        ensures
            c.v() == drag_coeff(a.v()),
    {
        if -STALL_DEG < a.0 && a.0 < STALL_DEG {
            let t = fx_mul(Fx(CL_SLOPE), a);
            fx_mul(Fx(CL_SLOPE), fx_mul(t, t))
        } else {
            Fx(CD_STALL)
        }
    }

    /// Body-frame force in the given body-frame relative wind; see
    /// [`wing_force`].
    pub fn calculate(&self, wind: V3) -> (f: V3)
        ensures
            (f.x.v(), f.y.v(), f.z.v()) == wing_force(
                self.area_v(),
                wind.x.v(),
                wind.y.v(),
                wind.z.v(),
            ),
    {
        let a = alpha_deg_of(wind.z, wind.x);
        let q = fx_mul(Fx(HALF_RHO), wind.norm2());
        let qs = if wind.x.0 >= 0 {
            q
        } else {
            fx_neg(q)
        };
        let lift = fx_mul(fx_mul(q, self.area), self.lift_coefficient(a));
        let drag = fx_mul(fx_mul(qs, self.area), self.drag_coefficient(a));
        V3 { x: fx_neg(drag), y: Fx(0), z: lift }
    }
}

/// A wind with no vertical component meets the wing at a zero angle of
/// attack, and then both coefficients and hence both forces vanish
/// exactly, whatever the flow speed, direction or area.
pub proof fn lemma_level_wind_no_force(area: int, wx: int, wy: int)
    ensures
        wing_force(area, wx, wy, 0) == (0int, 0int, 0int),
{
    assert(alpha_deg(0, wx) == 0);
    lemma_fmul_zero(CL_SLOPE as int);
    assert(lift_coeff(0) == 0);
    assert(drag_coeff(0) == 0) by {
        lemma_fmul_zero(CL_SLOPE as int);
        lemma_fmul_zero(0);
    };
    let q = fmul(HALF_RHO as int, norm2_of(wx, wy, 0));
    let qs = if wx >= 0 {
        q
    } else {
        fneg(q)
    };
    lemma_fmul_zero(fmul(q, area));
    lemma_fmul_zero(fmul(qs, area));
    assert(fneg(0) == 0);
}

/// How the coefficients behave at the stall boundary: the angle of
/// exactly fourteen degrees belongs to the plateau on both sides, and one
/// fraction step below the boundary the linear and quadratic formulas
/// still apply.
pub proof fn lemma_stall_boundary()
    ensures
        lift_coeff(STALL_DEG as int) == CL_STALL as int,
        lift_coeff(-STALL_DEG as int) == CL_STALL as int,
        drag_coeff(STALL_DEG as int) == CD_STALL as int,
        drag_coeff(-STALL_DEG as int) == CD_STALL as int,
        lift_coeff(STALL_DEG as int - 1) == fmul(CL_SLOPE as int, STALL_DEG as int - 1),
        lift_coeff(-STALL_DEG as int + 1) == fmul(CL_SLOPE as int, -STALL_DEG as int + 1),
        drag_coeff(STALL_DEG as int - 1) == fmul(
            CL_SLOPE as int,
            fmul(
                fmul(CL_SLOPE as int, STALL_DEG as int - 1),
                fmul(CL_SLOPE as int, STALL_DEG as int - 1),
            ),
        ),
{
}

} // verus!
