//! The rigid body and its integration step.
//!
//! A `Plane` owns its mass, pose and motion state, a non-empty list of
//! wings, one engine and the ground-contact model.  `run_physics`
//! advances the state by one timestep: it gathers the body-frame wind,
//! sums the wings' forces rotated back to the world frame, adds gravity,
//! the ground reaction and the rotated thrust, derives the acceleration,
//! integrates velocity and then position with the updated velocity
//! (semi-implicit Euler), and finally advances the orientation by
//! composing the control deflections into the angular-rate quaternion,
//! blending toward it, and renormalizing.
//!
//! The stored quaternion maps world-frame vectors into the body frame;
//! its conjugate is the body-to-world map, and that one conjugate map
//! carries every body-frame force — the wings' and the thrust alike —
//! back to the world frame, so a nose-up attitude tilts the thrust
//! upward in the world.

use vstd::prelude::*;
use crate::fixed::{Fx, SCALE, fadd, fsub, fneg, fmul, fdiv, fx_add, fx_sub, fx_neg, fx_mul, fx_div};
use crate::vec3::V3;
use crate::quat::{
    Quat,
    qnorm2,
    qrot_c,
    qrot,
    qmul,
    qlerp,
    qnormalize_or,
    quat_of,
    qident,
    unit_like,
};
use crate::cockpit::Cockpit;
use crate::wing::{Wing, wing_force};
use crate::engine::Engine;
use crate::ground::{GroundContact, contact_force};

verus! {

/// Standard gravity, in acceleration fraction steps.
pub const GRAVITY: i64 = 9_810_000_000;

/// One half, in fraction steps: the control deflections are halved when
/// they become quaternion components.
pub const HALF: i64 = 500_000_000;

/// The aircraft's state, advanced in place once per tick.
pub struct Plane {
    pub wings: Vec<Wing>,
    pub mass: Fx,
    pub position: V3,
    pub velocity: V3,
    pub acceleration: V3,
    pub pointing: Quat,
    pub angular_velocity: Quat,
    pub engine: Engine,
    pub ground: GroundContact,
}

/// World-frame sum of the wings' forces: each wing sees the same
/// body-frame wind, and its body-frame force is carried to the world
/// frame by the conjugate of the stored orientation.
pub open spec fn aero_sum(wings: Seq<Wing>, q: Quat, wx: int, wy: int, wz: int) -> (int, int, int)
    decreases wings.len(),
{
    if wings.len() == 0 {
        (0int, 0int, 0int)
    } else {
        let prev = aero_sum(wings.drop_last(), q, wx, wy, wz);
        let fb = wing_force(wings.last().area_v(), wx, wy, wz);
        let fw = qrot_c(
            q.w.v(),
            fneg(q.x.v()),
            fneg(q.y.v()),
            fneg(q.z.v()),
            fb.0,
            fb.1,
            fb.2,
        );
        (fadd(prev.0, fw.0), fadd(prev.1, fw.1), fadd(prev.2, fw.2))
    }
}

/// The body-frame relative wind: the world velocity carried into the
/// body frame by the stored orientation.
pub open spec fn wind_of(p: Plane) -> (int, int, int) {
    qrot(p.pointing, p.velocity.x.v(), p.velocity.y.v(), p.velocity.z.v())
}

/// The whole aerodynamic contribution for the current state.
pub open spec fn aero_of(p: Plane) -> (int, int, int) {
    let w = wind_of(p);
    aero_sum(p.wings@, p.pointing, w.0, w.1, w.2)
}

/// The total world-frame force for one step: aerodynamics, gravity down
/// (+z), the ground reaction up, and the rotated thrust.
pub open spec fn force_of(p: Plane, c: Cockpit) -> (int, int, int) {
    let aero = aero_of(p);
    let withg = fadd(aero.2, fmul(p.mass.v(), GRAVITY as int));
    let gf = contact_force(
        p.ground.spring.v(),
        p.ground.damper.v(),
        p.ground.plane_z.v(),
        p.position.z.v(),
        p.velocity.z.v(),
    );
    let fz = fsub(withg, gf);
    let thr = fmul(c.throttle.v(), p.engine.max_thrust.v());
    let tw = qrot_c(
        p.pointing.w.v(),
        fneg(p.pointing.x.v()),
        fneg(p.pointing.y.v()),
        fneg(p.pointing.z.v()),
        thr,
        0,
        0,
    );
    (fadd(aero.0, tw.0), fadd(aero.1, tw.1), fadd(fz, tw.2))
}

/// Newton's second law, component-wise.
pub open spec fn accel_of(p: Plane, c: Cockpit) -> (int, int, int) {
    let f = force_of(p, c);
    (fdiv(f.0, p.mass.v()), fdiv(f.1, p.mass.v()), fdiv(f.2, p.mass.v()))
}

/// The velocity after one step: the old velocity plus acceleration times
/// the timestep.
pub open spec fn next_velocity(p: Plane, c: Cockpit, dt: int) -> (int, int, int) {
    let a = accel_of(p, c);
    (
        fadd(p.velocity.x.v(), fmul(a.0, dt)),
        fadd(p.velocity.y.v(), fmul(a.1, dt)),
        fadd(p.velocity.z.v(), fmul(a.2, dt)),
    )
}

/// The position after one step: advanced by the updated velocity (the
/// semi-implicit Euler rule).
pub open spec fn next_position(p: Plane, c: Cockpit, dt: int) -> (int, int, int) {
    let v = next_velocity(p, c, dt);
    (
        fadd(p.position.x.v(), fmul(v.0, dt)),
        fadd(p.position.y.v(), fmul(v.1, dt)),
        fadd(p.position.z.v(), fmul(v.2, dt)),
    )
}

/// The incremental body rotation commanded this tick: a small-angle
/// quaternion built from half the roll, pitch and yaw deflections (the
/// elevator sign is flipped so that pulling back pitches the nose up).
pub open spec fn control_quat(c: Cockpit) -> Quat {
    quat_of(
        SCALE as int,
        fmul(c.roll.v(), HALF as int),
        fmul(fneg(c.elevator.v()), HALF as int),
        fmul(c.yaw.v(), HALF as int),
    )
}

/// The angular-rate quaternion after composing this tick's commands,
/// renormalized; a degenerate product leaves the rate unchanged.
pub open spec fn next_angular(p: Plane, c: Cockpit) -> Quat {
    let m = qmul(p.angular_velocity, control_quat(c));
    qnormalize_or(quat_of(m.0, m.1, m.2, m.3), p.angular_velocity)
}

/// The orientation after one step: blended toward the angular-rate
/// quaternion by the timestep and renormalized; a degenerate blend
/// leaves the orientation unchanged.
pub open spec fn next_pointing(p: Plane, c: Cockpit, dt: int) -> Quat {
    let l = qlerp(p.pointing, next_angular(p, c), dt);
    qnormalize_or(quat_of(l.0, l.1, l.2, l.3), p.pointing)
}

impl Plane {
    /// Well-formedness: positive mass, at least one wing, and both
    /// stored quaternions within tolerance of unit length.
    pub open spec fn wf(self) -> bool {
        &&& self.mass.v() > 0
        &&& self.wings@.len() >= 1
        &&& unit_like(self.pointing)
        &&& unit_like(self.angular_velocity)
    }

    /// Assemble an aircraft.  The supplied orientation is renormalized
    /// on the way in; one too degenerate to renormalize is replaced by
    /// the identity, so the result is always well-formed.
    pub fn new(wings: Vec<Wing>, mass: Fx, position: V3, velocity: V3, pointing: Quat, engine: Engine) -> (p: Plane)
        requires
            mass.v() > 0,
            wings@.len() >= 1,
        ensures
            p.wf(),
            p.wings@ == wings@,
            p.mass == mass,
            p.position == position,
            p.velocity == velocity,
            p.acceleration.x.v() == 0 && p.acceleration.y.v() == 0 && p.acceleration.z.v() == 0,
            p.pointing == qnormalize_or(pointing, qident()),
            p.angular_velocity == qident(),
            p.engine == engine,
            p.ground == GroundContact::spec_standard(),
    {
        Plane {
            wings,
            mass,
            position,
            velocity,
            acceleration: V3::zero(),
            pointing: pointing.normalize_or(Quat::identity()),
            angular_velocity: Quat::identity(),
            engine,
            ground: GroundContact::new(),
        }
    }

    /// The nominal aircraft: one seventeen-square-meter wing, a bit over
    /// a tonne, pointing level, at rest inside the contact region with
    /// the gear spring compressed (z is down, the contact plane sits at
    /// z = -1, and the preset z = 0.35 is 1.35 m past it).
    pub fn new_solid_guess() -> (p: Plane)
        ensures
            p.wf(),
            p.wings@.len() == 1,
            p.wings@[0].area_v() == 17_160_000_000,
            p.mass.v() == 1_160 * SCALE as int,
            p.position.x.v() == 0 && p.position.y.v() == 0 && p.position.z.v() == 350_000_000,
            p.velocity.x.v() == 0 && p.velocity.y.v() == 0 && p.velocity.z.v() == 0,
            p.acceleration.x.v() == 0 && p.acceleration.y.v() == 0 && p.acceleration.z.v() == 0,
            p.pointing == qident(),
            p.angular_velocity == qident(),
    {
        let wings = vec![Wing::new_area_only(Fx(17_160_000_000))];
        let p = Plane::new(
            wings,
            Fx(1_160 * SCALE),
            V3::new(Fx(0), Fx(0), Fx(350_000_000)),
            V3::zero(),
            Quat::identity(),
            Engine::new(),
        );
        proof {
            lemma_normalize_identity();
        }
        p
    }

    /// Advance the state by one timestep under the given controls.
    #[verifier::loop_isolation(false)]
    pub fn run_physics(&mut self, dt: Fx, controls: &Cockpit)
        requires
            old(self).wf(),
            dt.v() > 0,
        ensures
            final(self).wf(),
            final(self).wings@ == old(self).wings@,
            final(self).mass == old(self).mass,
            final(self).engine == old(self).engine,
            final(self).ground == old(self).ground,
            (
                final(self).acceleration.x.v(),
                final(self).acceleration.y.v(),
                final(self).acceleration.z.v(),
            ) == accel_of(*old(self), *controls),
            (final(self).velocity.x.v(), final(self).velocity.y.v(), final(self).velocity.z.v())
                == next_velocity(*old(self), *controls, dt.v()),
            (final(self).position.x.v(), final(self).position.y.v(), final(self).position.z.v())
                == next_position(*old(self), *controls, dt.v()),
            final(self).angular_velocity == next_angular(*old(self), *controls),
            final(self).pointing == next_pointing(*old(self), *controls, dt.v()),
            unit_like(final(self).pointing),
    {
        let wind = self.pointing.rotate(self.velocity);
        let mut aero = V3::zero();
        let mut i: usize = 0;
        while i < self.wings.len()
            invariant
                i <= self.wings.len(),
                *self == *old(self),
                (aero.x.v(), aero.y.v(), aero.z.v()) == aero_sum(
                    self.wings@.take(i as int),
                    self.pointing,
                    wind.x.v(),
                    wind.y.v(),
                    wind.z.v(),
                ),
            decreases self.wings.len() - i,
        {
            let f = self.wings[i].calculate(wind);
            let fw = self.pointing.conjugate().rotate(f);
            proof {
                assert(self.wings@.take(i as int + 1).drop_last() =~= self.wings@.take(i as int));
                assert(self.wings@.take(i as int + 1).last() == self.wings@[i as int]);
            }
            aero = aero.plus(fw);
            i = i + 1;
        }
        proof {
            assert(self.wings@.take(self.wings@.len() as int) =~= self.wings@);
        }
        let mg = fx_mul(self.mass, Fx(GRAVITY));
        let withg = fx_add(aero.z, mg);
        let gf = self.ground.vertical_force(self.position.z, self.velocity.z);
        let fz = fx_sub(withg, gf);
        let tb = self.engine.force(controls.throttle);
        let tw = self.pointing.conjugate().rotate(tb);
        let force = V3::new(fx_add(aero.x, tw.x), fx_add(aero.y, tw.y), fx_add(fz, tw.z));
        self.acceleration = V3::new(
            fx_div(force.x, self.mass),
            fx_div(force.y, self.mass),
            fx_div(force.z, self.mass),
        );
        self.velocity = self.velocity.plus(self.acceleration.scaled(dt));
        self.position = self.position.plus(self.velocity.scaled(dt));
        let dq = Quat {
            w: Fx(SCALE),
            x: fx_mul(controls.roll, Fx(HALF)),
            y: fx_mul(fx_neg(controls.elevator), Fx(HALF)),
            z: fx_mul(controls.yaw, Fx(HALF)),
        };
        proof {
            assert(dq == control_quat(*controls));
        }
        let av = self.angular_velocity.times(dq).normalize_or(self.angular_velocity);
        self.angular_velocity = av;
        self.pointing = self.pointing.blend(av, dt).normalize_or(self.pointing);
    }
}

/// With a level wind every wing force vanishes, so the whole aerodynamic
/// sum is exactly zero whatever the wings, attitude or lateral flow.
pub proof fn lemma_aero_sum_level(wings: Seq<Wing>, q: Quat, wx: int, wy: int)
    ensures
        aero_sum(wings, q, wx, wy, 0) == (0int, 0int, 0int),
    decreases wings.len(),
{
    if wings.len() > 0 {
        lemma_aero_sum_level(wings.drop_last(), q, wx, wy);
        crate::wing::lemma_level_wind_no_force(wings.last().area_v(), wx, wy);
        crate::quat::lemma_qrot_zero(q.w.v(), fneg(q.x.v()), fneg(q.y.v()), fneg(q.z.v()));
    }
}

/// Gravity-only free fall: with the throttle closed, a level attitude
/// and no vertical speed, far above the ground plane, one step leaves
/// the horizontal velocity untouched, advances the horizontal position
/// by exactly velocity times timestep (the semi-implicit Euler rule),
/// and accelerates vertically by gravity alone — exactly `g` whenever
/// the mass divides evenly.
pub proof fn lemma_free_fall(p: Plane, c: Cockpit, dt: int)
    requires
        p.wf(),
        p.pointing == qident(),
        p.velocity.z.v() == 0,
        p.position.z.v() < p.ground.plane_z.v(),
        c.throttle.v() == 0,
    ensures
        accel_of(p, c) == (0int, 0int, fdiv(fmul(p.mass.v(), GRAVITY as int), p.mass.v())),
        next_velocity(p, c, dt).0 == p.velocity.x.v(),
        next_velocity(p, c, dt).1 == p.velocity.y.v(),
        next_velocity(p, c, dt).2 == fmul(accel_of(p, c).2, dt),
        next_position(p, c, dt).0 == fadd(p.position.x.v(), fmul(p.velocity.x.v(), dt)),
        next_position(p, c, dt).1 == fadd(p.position.y.v(), fmul(p.velocity.y.v(), dt)),
        (p.mass.v() * GRAVITY as int) % (SCALE as int) == 0 && p.mass.v() * GRAVITY as int
            <= i64::MAX as int * SCALE as int ==> accel_of(p, c).2 == GRAVITY as int,
{
    let vx = p.velocity.x.v();
    let vy = p.velocity.y.v();
    let m = p.mass.v();
    crate::quat::lemma_qrot_identity(vx, vy, 0);
    assert(wind_of(p) == (vx, vy, 0int));
    lemma_aero_sum_level(p.wings@, p.pointing, vx, vy);
    crate::fixed::lemma_fmul_zero(p.engine.max_thrust.v());
    crate::quat::lemma_qrot_zero(
        qident().w.v(),
        fneg(qident().x.v()),
        fneg(qident().y.v()),
        fneg(qident().z.v()),
    );
    let mg = fmul(m, GRAVITY as int);
    assert(force_of(p, c) == (0int, 0int, mg));
    crate::fixed::lemma_fdiv_zero(m);
    let az = fdiv(mg, m);
    assert(accel_of(p, c) == (0int, 0int, az));
    crate::fixed::lemma_fmul_zero(dt);
    assert(next_velocity(p, c, dt).0 == vx);
    assert(next_velocity(p, c, dt).1 == vy);
    if (m * GRAVITY as int) % (SCALE as int) == 0 && m * GRAVITY as int <= i64::MAX as int
        * SCALE as int {
        let e = (m * GRAVITY as int) / (SCALE as int);
        vstd::arithmetic::div_mod::lemma_fundamental_div_mod(m * GRAVITY as int, SCALE as int);
        assert(m * GRAVITY as int >= 0) by (nonlinear_arith)
            requires
                m > 0,
        ;
        assert(m * GRAVITY as int <= SCALE as int * i64::MAX as int) by (nonlinear_arith)
            requires
                m * GRAVITY as int <= i64::MAX as int * SCALE as int,
        ;
        vstd::arithmetic::div_mod::lemma_div_is_ordered(
            m * GRAVITY as int,
            SCALE as int * i64::MAX as int,
            SCALE as int,
        );
        vstd::arithmetic::div_mod::lemma_div_multiples_vanish(i64::MAX as int, SCALE as int);
        vstd::arithmetic::div_mod::lemma_div_pos_is_pos(m * GRAVITY as int, SCALE as int);
        assert(mg == e);
        assert(e * SCALE as int == m * GRAVITY as int) by (nonlinear_arith)
            requires
                m * GRAVITY as int == SCALE as int * e,
        ;
        assert(m * GRAVITY as int == m * (GRAVITY as int)) by (nonlinear_arith);
        vstd::arithmetic::div_mod::lemma_div_multiples_vanish(GRAVITY as int, m);
        assert(az == GRAVITY as int);
    }
}

/// Opening the throttle never reduces the forward acceleration: with a
/// level attitude and everything else fixed, the forward force and hence
/// the forward acceleration are monotone in the throttle.
pub proof fn lemma_throttle_accel_monotone(p: Plane, c1: Cockpit, c2: Cockpit)
    requires
        p.wf(),
        p.pointing == qident(),
        p.engine.max_thrust.v() >= 0,
        0 <= c1.throttle.v() <= c2.throttle.v(),
    ensures
        force_of(p, c1).0 <= force_of(p, c2).0,
        accel_of(p, c1).0 <= accel_of(p, c2).0,
{
    let max = p.engine.max_thrust.v();
    let t1 = fmul(c1.throttle.v(), max);
    let t2 = fmul(c2.throttle.v(), max);
    crate::fixed::lemma_fmul_monotone(c1.throttle.v(), c2.throttle.v(), max);
    assert(fneg(0int) == 0);
    crate::quat::lemma_qrot_identity(t1, 0, 0);
    crate::quat::lemma_qrot_identity(t2, 0, 0);
    let aero = aero_of(p);
    crate::fixed::lemma_sat_monotone(aero.0 + t1, aero.0 + t2);
    crate::fixed::lemma_fdiv_monotone(
        fadd(aero.0, t1),
        fadd(aero.0, t2),
        p.mass.v(),
    );
}

/// The strict form of throttle monotonicity.  The exclusions are the
/// grain of the arithmetic: the throttle gap must span at least one
/// fraction step of thrust, the force gap at least one fraction step of
/// acceleration, and nothing may saturate on the way; within those
/// bounds the forward force and the forward acceleration strictly rise.
pub proof fn lemma_throttle_accel_strict(p: Plane, c1: Cockpit, c2: Cockpit)
    requires
        p.wf(),
        p.pointing == qident(),
        p.engine.max_thrust.v() >= 0,
        0 <= c1.throttle.v() <= c2.throttle.v(),
        (c2.throttle.v() - c1.throttle.v()) * p.engine.max_thrust.v() >= SCALE as int,
        c2.throttle.v() * p.engine.max_thrust.v() <= i64::MAX as int * SCALE as int,
        i64::MIN as int <= aero_of(p).0 + fmul(c1.throttle.v(), p.engine.max_thrust.v()),
        aero_of(p).0 + fmul(c2.throttle.v(), p.engine.max_thrust.v()) <= i64::MAX as int,
        force_of(p, c1).0 >= 0,
        (force_of(p, c2).0 - force_of(p, c1).0) * SCALE as int >= p.mass.v(),
        force_of(p, c2).0 * SCALE as int <= i64::MAX as int * p.mass.v(),
    ensures
        force_of(p, c1).0 < force_of(p, c2).0,
        accel_of(p, c1).0 < accel_of(p, c2).0,
{
    let max = p.engine.max_thrust.v();
    let t1 = fmul(c1.throttle.v(), max);
    let t2 = fmul(c2.throttle.v(), max);
    crate::fixed::lemma_fmul_monotone(c1.throttle.v(), c2.throttle.v(), max);
    assert(fneg(0int) == 0);
    crate::quat::lemma_qrot_identity(t1, 0, 0);
    crate::quat::lemma_qrot_identity(t2, 0, 0);
    let aero = aero_of(p);
    assert(force_of(p, c1).0 == aero.0 + t1);
    assert(force_of(p, c2).0 == aero.0 + t2);
    crate::fixed::lemma_fdiv_strict(force_of(p, c1).0, force_of(p, c2).0, p.mass.v());
}

/// Renormalizing the exact identity gives back the exact identity.
pub proof fn lemma_normalize_identity()
    ensures
        qnormalize_or(qident(), qident()) == qident(),
{
    let q = qident();
    assert(qnorm2(q) == SCALE as int * SCALE as int);
    crate::sqrt::lemma_sqrt_floor(qnorm2(q));
    crate::sqrt::lemma_sqrt_unique(
        qnorm2(q),
        SCALE as int,
        crate::sqrt::sqrt_floor(qnorm2(q)),
    );
    vstd::arithmetic::div_mod::lemma_div_multiples_vanish(SCALE as int, SCALE as int);
    vstd::arithmetic::div_mod::lemma_div_of0(SCALE as int);
}

} // verus!
