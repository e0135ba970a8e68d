//! One type for all schemes: the scheme of a run is chosen once, when the run
//! is set up, and every step goes through the same point of dispatch.

use crate::methods::{
    Acceleration, Beeman, Euler, EulerMod, EulerPredictorCorrector, GearPredictorCorrector,
    IntegrationMethod, VelocityVerlet, Verlet, VerletLeapFrog,
};
use crate::particle::{Particle, ParticleView};
use crate::scalar::Scalar;
use crate::Integration;
use vstd::prelude::*;

verus! {

/// A scheme, ready to step.
pub enum Integrator<S, M> {
    Euler(Euler<S, M>),
    EulerMod(EulerMod<S, M>),
    Verlet(Verlet<S, M>),
    VerletLeapFrog(VerletLeapFrog<S, M>),
    VelocityVerlet(VelocityVerlet<S, M>),
    Beeman(Beeman<S, M>),
    EulerPredictorCorrector(EulerPredictorCorrector<S, M>),
    GearPredictorCorrector(GearPredictorCorrector<S, M>),
}

/// The time step from which a scheme synthesizes the history it needs, by one
/// Euler step back in time; `None` for a scheme that needs none.
pub open spec fn bootstrap_step<S: Scalar>(kind: Integration, dt: S) -> Option<S> {
    match kind {
        Integration::Verlet | Integration::Beeman => Some(dt.negation()),
        Integration::VerletLeapFrog => Some(dt.negation().quotient(S::of_int(2))),
        _ => None,
    }
}

/// A particle as the construction of a scheme of the given kind leaves it.
///
/// A scheme that steps from two points in time gives the particle a previous
/// stack; the Gear scheme appends the higher derivatives `more` to the present
/// stack and takes the stack so grown for the previous one too; any other
/// leaves the particle as it is.
pub open spec fn prepared<S: Scalar, M: Acceleration<S, DIM>, const DIM: usize>(
    kind: Integration,
    model: M,
    dt: S,
    more: Seq<Seq<S>>,
    p: ParticleView<S>,
    others: Seq<ParticleView<S>>,
) -> ParticleView<S> {
    if kind == Integration::GearPredictorCorrector {
        crate::methods::grown(p, more)
    } else {
        match bootstrap_step(kind, dt) {
            Some(back) => p.with_prev(
                crate::methods::euler_step::<S, M, DIM>(model, back, p, others),
            ),
            None => p,
        }
    }
}

impl<S: Scalar, M> Integrator<S, M> {
    /// Which scheme this is.
    pub open spec fn kind(&self) -> Integration {
        match self {
            Integrator::Euler(_) => Integration::Euler,
            Integrator::EulerMod(_) => Integration::EulerMod,
            Integrator::Verlet(_) => Integration::Verlet,
            Integrator::VerletLeapFrog(_) => Integration::VerletLeapFrog,
            Integrator::VelocityVerlet(_) => Integration::VelocityVerlet,
            Integrator::Beeman(_) => Integration::Beeman,
            Integrator::EulerPredictorCorrector(_) => Integration::EulerPredictorCorrector,
            Integrator::GearPredictorCorrector(_) => Integration::GearPredictorCorrector,
        }
    }

    /// The acceleration model of the scheme.
    pub open spec fn model(&self) -> M {
        match self {
            Integrator::Euler(m) => m.model(),
            Integrator::EulerMod(m) => m.model(),
            Integrator::Verlet(m) => m.model(),
            Integrator::VerletLeapFrog(m) => m.model(),
            Integrator::VelocityVerlet(m) => m.model(),
            Integrator::Beeman(m) => m.model(),
            Integrator::EulerPredictorCorrector(m) => m.model(),
            Integrator::GearPredictorCorrector(m) => m.model(),
        }
    }

    /// The time step of the scheme.
    pub open spec fn time_step(&self) -> S {
        match self {
            Integrator::Euler(m) => m.time_step(),
            Integrator::EulerMod(m) => m.time_step(),
            Integrator::Verlet(m) => m.time_step(),
            Integrator::VerletLeapFrog(m) => m.time_step(),
            Integrator::VelocityVerlet(m) => m.time_step(),
            Integrator::Beeman(m) => m.time_step(),
            Integrator::EulerPredictorCorrector(m) => m.time_step(),
            Integrator::GearPredictorCorrector(m) => m.time_step(),
        }
    }

    /// Whether the Gear corrector takes the acceleration to depend on the
    /// velocity; `false` for every other scheme.
    pub open spec fn depends_on_velocity(&self) -> bool {
        match self {
            Integrator::GearPredictorCorrector(m) => m.depends_on_velocity(),
            _ => false,
        }
    }

    /// Builds the scheme of the given kind and prepares the particles for it.
    ///
    /// `derivatives` and `acceleration_function_depends_on_velocity` are read
    /// by the Gear scheme only: `derivatives[k]` holds the derivatives of
    /// third and higher order of `particles_to_init[k]`.
    pub fn new<const DIM: usize>(
        integration_method: &Integration,
        acceleration_function: M,
        acceleration_function_depends_on_velocity: bool,
        particles_to_init: &mut [Particle<S, DIM>],
        derivatives: &Vec<Vec<[S; DIM]>>,
        delta_t: S,
    ) -> (out: Self) where M: Acceleration<S, DIM>
        requires
            crate::particle::all_wf(crate::particle::views(old(particles_to_init)@), DIM as nat),
            *integration_method == Integration::GearPredictorCorrector ==> derivatives@.len() == old(
                particles_to_init,
            )@.len(),
        ensures
            out.kind() == *integration_method,
            out.model() == acceleration_function,
            out.time_step() == delta_t,
            out.depends_on_velocity() == (*integration_method == Integration::GearPredictorCorrector
                && acceleration_function_depends_on_velocity),
            final(particles_to_init)@.len() == old(particles_to_init)@.len(),
            forall|k: int|
                0 <= k < old(particles_to_init)@.len() ==> (#[trigger] final(particles_to_init)@[k])@
                    == prepared::<S, M, DIM>(
                    *integration_method,
                    acceleration_function,
                    delta_t,
                    crate::particle::rows(derivatives@[k]@),
                    old(particles_to_init)@[k]@,
                    crate::particle::views(old(particles_to_init)@),
                ),
            crate::particle::all_wf(crate::particle::views(final(particles_to_init)@), DIM as nat),
    {
        match integration_method {
            Integration::Euler => Integrator::Euler(Euler::new(acceleration_function, delta_t)),
            Integration::EulerMod => Integrator::EulerMod(
                EulerMod::new(acceleration_function, delta_t),
            ),
            Integration::Verlet => Integrator::Verlet(
                Verlet::new(acceleration_function, particles_to_init, delta_t),
            ),
            Integration::Beeman => Integrator::Beeman(
                Beeman::new(acceleration_function, particles_to_init, delta_t),
            ),
            Integration::GearPredictorCorrector => {
                let scheme = GearPredictorCorrector::new(
                    acceleration_function,
                    acceleration_function_depends_on_velocity,
                    particles_to_init,
                    derivatives,
                    delta_t,
                );
                proof {
                    assert forall|k: int| 0 <= k < particles_to_init@.len() implies (
                    #[trigger] crate::particle::views(particles_to_init@)[k]).wf(DIM as nat) by {
                        particles_to_init@[k].has_dimension();
                        assert(crate::particle::views(old(particles_to_init)@)[k].wf(DIM as nat));
                    }
                }
                Integrator::GearPredictorCorrector(scheme)
            },
            Integration::VerletLeapFrog => Integrator::VerletLeapFrog(
                VerletLeapFrog::new(acceleration_function, particles_to_init, delta_t),
            ),
            Integration::VelocityVerlet => Integrator::VelocityVerlet(
                VelocityVerlet::new(acceleration_function, delta_t),
            ),
            Integration::EulerPredictorCorrector => Integrator::EulerPredictorCorrector(
                EulerPredictorCorrector::new(acceleration_function, delta_t),
            ),
        }
    }
}

impl<S: Scalar, M: Acceleration<S, DIM>, const DIM: usize> IntegrationMethod<S, DIM>
    for Integrator<S, M> {
    open spec fn order(&self) -> nat {
        if self.kind() == Integration::GearPredictorCorrector {
            6
        } else {
            3
        }
    }

    open spec fn step(&self, particle: ParticleView<S>, others: Seq<ParticleView<S>>) -> Seq<
        Seq<S>,
    > {
        match self {
            Integrator::Euler(m) => IntegrationMethod::<S, DIM>::step(m, particle, others),
            Integrator::EulerMod(m) => IntegrationMethod::<S, DIM>::step(m, particle, others),
            Integrator::Verlet(m) => IntegrationMethod::<S, DIM>::step(m, particle, others),
            Integrator::VerletLeapFrog(m) => IntegrationMethod::<S, DIM>::step(m, particle, others),
            Integrator::VelocityVerlet(m) => IntegrationMethod::<S, DIM>::step(m, particle, others),
            Integrator::Beeman(m) => IntegrationMethod::<S, DIM>::step(m, particle, others),
            Integrator::EulerPredictorCorrector(m) => IntegrationMethod::<S, DIM>::step(
                m,
                particle,
                others,
            ),
            Integrator::GearPredictorCorrector(m) => IntegrationMethod::<S, DIM>::step(
                m,
                particle,
                others,
            ),
        }
    }

    open spec fn history(&self, particle: ParticleView<S>, stack: Seq<Seq<S>>) -> Seq<Seq<S>> {
        match self {
            Integrator::VerletLeapFrog(m) => IntegrationMethod::<S, DIM>::history(
                m,
                particle,
                stack,
            ),
            _ => particle.stack,
        }
    }

    fn calculate_step(&self, particle: &Particle<S, DIM>, others: &[Particle<S, DIM>]) -> (out:
        Vec<[S; DIM]>) {
        match self {
            Integrator::Euler(m) => m.calculate_step(particle, others),
            Integrator::EulerMod(m) => m.calculate_step(particle, others),
            Integrator::Verlet(m) => m.calculate_step(particle, others),
            Integrator::VerletLeapFrog(m) => m.calculate_step(particle, others),
            Integrator::VelocityVerlet(m) => m.calculate_step(particle, others),
            Integrator::Beeman(m) => m.calculate_step(particle, others),
            Integrator::EulerPredictorCorrector(m) => m.calculate_step(particle, others),
            Integrator::GearPredictorCorrector(m) => m.calculate_step(particle, others),
        }
    }

    fn retire(&self, particle: &Particle<S, DIM>, replaced: Vec<[S; DIM]>) -> (kept: Vec<
        [S; DIM],
    >) {
        match self {
            Integrator::VerletLeapFrog(m) => m.retire(particle, replaced),
            _ => replaced,
        }
    }
}

} // verus!
