//! World- and body-frame vectors of fixed-point scalars.

use vstd::prelude::*;
use crate::fixed::{Fx, fadd, fmul, fx_add, fx_mul};

verus! {

/// A three-component vector; which frame it lives in is the caller's bookkeeping.
#[derive(Clone, Copy, PartialEq, Eq, Structural, Debug)]
pub struct V3 {
    pub x: Fx,
    pub y: Fx,
    pub z: Fx,
}

/// Squared length of a vector, in the fixed-point arithmetic.
pub open spec fn norm2_of(x: int, y: int, z: int) -> int {
    fadd(fadd(fmul(x, x), fmul(y, y)), fmul(z, z))
}

impl V3 {
    /// Component-wise view as a triple of mathematical integers.
    pub open spec fn m(self) -> (int, int, int) {
        (self.x.v(), self.y.v(), self.z.v())
    }

    /// Build a vector from its components.
    pub fn new(x: Fx, y: Fx, z: Fx) -> (r: V3)
        ensures
            r.x == x,
            r.y == y,
            r.z == z,
    {
        V3 { x, y, z }
    }

    /// The zero vector.
    pub fn zero() -> (r: V3)
        ensures
            r.x.v() == 0,
            r.y.v() == 0,
            r.z.v() == 0,
    {
        V3 { x: Fx(0), y: Fx(0), z: Fx(0) }
    }

    /// Component-wise saturating sum.
    pub fn plus(self, o: V3) -> (r: V3)
        ensures
            r.x.v() == fadd(self.x.v(), o.x.v()),
            r.y.v() == fadd(self.y.v(), o.y.v()),
            r.z.v() == fadd(self.z.v(), o.z.v()),
    {
        V3 { x: fx_add(self.x, o.x), y: fx_add(self.y, o.y), z: fx_add(self.z, o.z) }
    }

    /// Component-wise product with a scalar.
    pub fn scaled(self, k: Fx) -> (r: V3)
        ensures
            r.x.v() == fmul(self.x.v(), k.v()),
            r.y.v() == fmul(self.y.v(), k.v()),
            r.z.v() == fmul(self.z.v(), k.v()),
    {
        V3 { x: fx_mul(self.x, k), y: fx_mul(self.y, k), z: fx_mul(self.z, k) }
    }

    /// Squared length.
    pub fn norm2(self) -> (r: Fx)
        ensures
            r.v() == norm2_of(self.x.v(), self.y.v(), self.z.v()),
    {
        fx_add(fx_add(fx_mul(self.x, self.x), fx_mul(self.y, self.y)), fx_mul(self.z, self.z))
    }
}

} // verus!
