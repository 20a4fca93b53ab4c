//! A rigid-body flight-dynamics core.
//!
//! Given pilot control inputs and a timestep, the library integrates an
//! aircraft's position, velocity and orientation forward in time under
//! gravity, aerodynamic, ground-contact and propulsive forces.
//!
//! Every physical quantity is a fixed-point scalar: an `i64` counting
//! billionths of the unit at hand (meters, meters per second, newtons,
//! degrees, ...).  The arithmetic on those scalars is exact integer
//! arithmetic with truncation and saturation, so every force formula and
//! the whole integration step have precise contracts.
//!
//! Coordinate convention (fixed globally): the world frame has x forward,
//! y right and z pointing down, so gravity acts along +z and altitude is
//! the negated z position.  The body frame is tied to the aircraft with
//! the same axis roles.

pub mod fixed;
pub mod sqrt;
pub mod angle;
pub mod vec3;
pub mod quat;
pub mod cockpit;
pub mod wing;
pub mod engine;
pub mod ground;
pub mod plane;
