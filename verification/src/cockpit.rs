//! Pilot control inputs.
//!
//! Four normalized command values, written once per tick by the input
//! collaborator: the throttle lever in `[0, 1]`, and three small signed
//! deflections for elevator, roll and yaw.

use vstd::prelude::*;
use crate::fixed::{Fx, SCALE};

verus! {

/// The fixed deflection magnitude a held key commands.
pub const DEFLECT: i64 = 10_000_000;

/// The pilot's commands for one tick.
#[derive(Clone, Copy, PartialEq, Eq, Structural, Debug)]
pub struct Cockpit {
    pub throttle: Fx,
    pub elevator: Fx,
    pub roll: Fx,
    pub yaw: Fx,
}

impl Cockpit {
    /// All controls released, throttle closed.
    pub fn new() -> (c: Cockpit)
        ensures
            c.throttle.v() == 0,
            c.elevator.v() == 0,
            c.roll.v() == 0,
            c.yaw.v() == 0,
    {
        Cockpit { throttle: Fx(0), elevator: Fx(0), roll: Fx(0), yaw: Fx(0) }
    }

    /// Release the momentary deflections; the throttle is a persistent
    /// lever position and keeps its value.
    pub fn zero(&mut self)
        ensures
            final(self).throttle == old(self).throttle,
            final(self).elevator.v() == 0,
            final(self).roll.v() == 0,
            final(self).yaw.v() == 0,
    {
        self.elevator = Fx(0);
        self.roll = Fx(0);
        self.yaw = Fx(0);
    }

    /// One tick of key commands, as the input collaborator recognizes
    /// them: open or cut the throttle (cutting wins), then clamp the
    /// lever into `[0, 1]`; each deflection is set to the fixed command
    /// magnitude while its key is held, the second key of a pair
    /// winning, and is otherwise left as it is.
    pub fn apply_commands(
        &mut self,
        throttle_open: bool,
        throttle_cut: bool,
        yaw_left: bool,
        yaw_right: bool,
        nose_down: bool,
        nose_up: bool,
        roll_left: bool,
        roll_right: bool,
    )
        ensures
            final(self).throttle.v() == clamp_unit(
                if throttle_cut {
                    0int
                } else if throttle_open {
                    SCALE as int
                } else {
                    old(self).throttle.v()
                },
            ),
            final(self).yaw.v() == (if yaw_right {
                -DEFLECT as int
            } else if yaw_left {
                DEFLECT as int
            } else {
                old(self).yaw.v()
            }),
            final(self).elevator.v() == (if nose_up {
                DEFLECT as int
            } else if nose_down {
                -DEFLECT as int
            } else {
                old(self).elevator.v()
            }),
            final(self).roll.v() == (if roll_right {
                -DEFLECT as int
            } else if roll_left {
                DEFLECT as int
            } else {
                old(self).roll.v()
            }),
    {
        if throttle_open {
            self.throttle = Fx(SCALE);
        }
        if throttle_cut {
            self.throttle = Fx(0);
        }
        if self.throttle.0 > SCALE {
            self.throttle = Fx(SCALE);
        }
        if self.throttle.0 < 0 {
            self.throttle = Fx(0);
        }
        if yaw_left {
            self.yaw = Fx(DEFLECT);
        }
        if yaw_right {
            self.yaw = Fx(-DEFLECT);
        }
        if nose_down {
            self.elevator = Fx(-DEFLECT);
        }
        if nose_up {
            self.elevator = Fx(DEFLECT);
        }
        if roll_left {
            self.roll = Fx(DEFLECT);
        }
        if roll_right {
            self.roll = Fx(-DEFLECT);
        }
    }
}

/// Clamping into the unit interval, in fraction steps.
pub open spec fn clamp_unit(t: int) -> int {
    if t > SCALE as int {
        SCALE as int
    } else if t < 0 {
        0
    } else {
        t
    }
}

} // verus!
