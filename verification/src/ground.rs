//! Ground contact.
//!
//! A penalty-based contact force: while the body is at or below the
//! ground plane (larger z is lower, the plane sits at `plane_z`), the
//! model pushes back with a spring proportional to the penetration depth
//! plus a damper proportional to the vertical speed; above the plane the
//! force is exactly zero.  The returned scalar is the upward force
//! magnitude that the integration step subtracts from the world z force.

use vstd::prelude::*;
use crate::fixed::{Fx, SCALE, tdiv, fadd, fsub, fmul, fx_add, fx_sub, fx_mul};

verus! {

/// Spring stiffness of the standard gear, in force fraction steps per meter.
pub const SPRING: i64 = 15_000 * SCALE;

/// Damping coefficient of the standard gear.
pub const DAMPER: i64 = 1_500 * SCALE;

/// Height of the ground plane: one meter above the world origin
/// (z points down, so the plane is at z = -1).
pub const PLANE_Z: i64 = -SCALE;

/// The contact force on a body at height `z` with vertical speed `vz`,
/// for a contact model with the given constants.
pub open spec fn contact_force(spring: int, damper: int, plane_z: int, z: int, vz: int) -> int {
    if z < plane_z {
        0
    } else {
        fadd(fmul(spring, fsub(z, plane_z)), fmul(damper, vz))
    }
}

/// A spring-damper ground contact model.
#[derive(Clone, Copy, PartialEq, Eq, Structural, Debug)]
pub struct GroundContact {
    pub spring: Fx,
    pub damper: Fx,
    pub plane_z: Fx,
}

impl GroundContact {
    /// The standard gear's constants, as a spec value.
    pub open spec fn spec_standard() -> GroundContact {
        GroundContact { spring: Fx(SPRING), damper: Fx(DAMPER), plane_z: Fx(PLANE_Z) }
    }

    /// The standard gear on the standard runway.
    pub fn new() -> (g: GroundContact)
        ensures
            g == GroundContact::spec_standard(),
            g.spring.v() == SPRING as int,
            g.damper.v() == DAMPER as int,
            g.plane_z.v() == PLANE_Z as int,
    {
        GroundContact { spring: Fx(SPRING), damper: Fx(DAMPER), plane_z: Fx(PLANE_Z) }
    }

    /// The reactive vertical force; see [`contact_force`].
    pub fn vertical_force(&self, z: Fx, vz: Fx) -> (f: Fx)
        ensures
            f.v() == contact_force(self.spring.v(), self.damper.v(), self.plane_z.v(), z.v(), vz.v()),
    {
        if z.0 < self.plane_z.0 {
            Fx(0)
        } else {
            fx_add(fx_mul(self.spring, fx_sub(z, self.plane_z)), fx_mul(self.damper, vz))
        }
    }
}

/// The contact force is exactly zero strictly above the plane, strictly
/// positive once the standard gear is strictly below it and not climbing,
/// and at the plane itself only the damper acts, so a resting touch is
/// force-free: the force is continuous in position at the boundary.
pub proof fn lemma_contact_reactivity(z: int, vz: int)
    ensures
        z < PLANE_Z as int ==> contact_force(
            SPRING as int,
            DAMPER as int,
            PLANE_Z as int,
            z,
            vz,
        ) == 0,
        z > PLANE_Z as int && i64::MIN as int <= z <= i64::MAX as int && 0 <= vz <= i64::MAX as int
            ==> contact_force(SPRING as int, DAMPER as int, PLANE_Z as int, z, vz) > 0,
        z == PLANE_Z as int ==> contact_force(SPRING as int, DAMPER as int, PLANE_Z as int, z, vz)
            == fmul(DAMPER as int, vz),
        z == PLANE_Z as int && vz == 0 ==> contact_force(
            SPRING as int,
            DAMPER as int,
            PLANE_Z as int,
            z,
            vz,
        ) == 0,
{
    if z > PLANE_Z as int && i64::MIN as int <= z <= i64::MAX as int && 0 <= vz <= i64::MAX as int {
        let d = fsub(z, PLANE_Z as int);
        assert(d >= 1);
        assert(tdiv(SPRING as int * d, SCALE as int) >= 15_000) by {
            assert(SPRING as int * d >= 15_000 * SCALE as int && SPRING as int * d == SCALE as int
                * (15_000 * d)) by (nonlinear_arith)
                requires
                    d >= 1,
                    SPRING as int == 15_000 * SCALE as int,
                    SCALE as int > 0,
            ;
            vstd::arithmetic::div_mod::lemma_div_multiples_vanish(15_000 * d, SCALE as int);
            assert(15_000 * d >= 15_000) by (nonlinear_arith)
                requires
                    d >= 1,
            ;
        };
        assert(fmul(DAMPER as int, vz) >= 0) by {
            assert(DAMPER as int * vz >= 0) by (nonlinear_arith)
                requires
                    vz >= 0,
            ;
            vstd::arithmetic::div_mod::lemma_div_pos_is_pos(DAMPER as int * vz, SCALE as int);
        };
    }
    if z == PLANE_Z as int {
        assert(fsub(z, PLANE_Z as int) == 0);
        crate::fixed::lemma_fmul_zero(SPRING as int);
        if vz == 0 {
            crate::fixed::lemma_fmul_zero(DAMPER as int);
        }
    }
}

} // verus!
