//! The power plant.
//!
//! Thrust acts along the body's longitudinal axis and scales linearly
//! with the throttle; the caller keeps the throttle inside `[0, 1]`.

use vstd::prelude::*;
use crate::fixed::{Fx, SCALE, fmul, fx_mul, lemma_fmul_monotone};
use crate::vec3::V3;

verus! {

/// Nominal full thrust of the standard engine, in newton fraction steps.
pub const MAX_THRUST: i64 = 10_000 * SCALE;

/// An engine with a fixed full-throttle thrust.
#[derive(Clone, Copy, PartialEq, Eq, Structural, Debug)]
pub struct Engine {
    pub max_thrust: Fx,
}

impl Engine {
    /// The standard engine.
    pub fn new() -> (e: Engine)
        ensures
            e.max_thrust.v() == MAX_THRUST as int,
    {
        Engine { max_thrust: Fx(MAX_THRUST) }
    }

    /// Body-frame thrust for a throttle setting: `throttle * max_thrust`
    /// along the body x axis.
    pub fn force(&self, throttle: Fx) -> (r: V3)
        ensures
            r.x.v() == fmul(throttle.v(), self.max_thrust.v()),
            r.y.v() == 0,
            r.z.v() == 0,
    {
        V3 { x: fx_mul(throttle, self.max_thrust), y: Fx(0), z: Fx(0) }
    }
}

/// Thrust grows with the throttle: for a positive thrust rating, a larger
/// throttle never gives less thrust, and strictly more as soon as the
/// throttle gap spans a whole output fraction step (and the product stays
/// in range).
pub proof fn lemma_thrust_monotone(t1: int, t2: int, max: int)
    requires
        0 <= t1 <= t2,
        0 <= max,
    ensures
        fmul(t1, max) <= fmul(t2, max),
        (t2 - t1) * max >= SCALE as int && t2 * max <= i64::MAX as int * SCALE as int ==> fmul(
            t1,
            max,
        ) < fmul(t2, max),
{
    lemma_fmul_monotone(t1, t2, max);
}

} // verus!
