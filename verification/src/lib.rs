//! Time integration of Newton's equations of motion for point particles.
//!
//! The engine steps a set of particles through time under a model of their
//! acceleration, by one of eight explicit schemes. It is generic in the number
//! it computes with (see [`scalar::Scalar`]) and in the number of spatial
//! dimensions, and comes with two scenarios: a damped oscillator and a table of
//! billiards.
//!
//! - [`scalar`]: the arithmetic that the engine asks of a number;
//!   [`fixed`]: a number that offers it in fixed-point arithmetic.
//! - [`particle`]: the state of one particle.
//! - [`methods`]: the schemes, each with the formula of its step;
//!   [`integrator`]: all of them behind one type.
//! - [`oscillator`], [`billiards`]: the scenarios.
//! - [`laws`]: what the schemes do in exact arithmetic;
//!   [`free_flight`]: what they do to a free particle in arithmetic that rounds.

use vstd::prelude::*;

pub mod billiards;
pub mod fixed;
pub mod free_flight;
pub mod integrator;
pub mod laws;
pub mod methods;
pub mod oscillator;
pub mod particle;
pub mod scalar;

verus! {

/// The time-stepping schemes the engine offers.
#[derive(Clone, Copy, Debug, PartialEq, Eq, Structural)]
pub enum Integration {
    Euler,
    EulerMod,
    Verlet,
    VerletLeapFrog,
    VelocityVerlet,
    Beeman,
    EulerPredictorCorrector,
    GearPredictorCorrector,
}

} // verus!
