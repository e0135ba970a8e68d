//! The damped oscillator: one particle on a spring, slowed in proportion to
//! its velocity.

use crate::integrator::Integrator;
use crate::methods::{Acceleration, IntegrationMethod};
use crate::particle::{Particle, ParticleView};
use crate::scalar::Scalar;
use crate::Integration;
use vstd::prelude::*;

verus! {

/// The number of spatial dimensions of the oscillator.
pub const DIM: usize = 1;

/// The measures of an oscillator.
#[derive(Debug)]
pub struct Spring<S> {
    pub particle_mass: S,
    pub amplitude: S,
    pub restoring_force_constant: S,
    /// The damping: the force that slows the particle, per unit of velocity.
    pub amortiguation_constant: S,
    pub initial_position: S,
}

/// The rate at which the spring changes the rate `y` of a quantity `x` that
/// obeys its equation of motion: with `x` the position and `y` the velocity,
/// the acceleration; with `x` the velocity and `y` the acceleration, the jerk;
/// and so on up the derivatives.
pub open spec fn spring_rate<S: Scalar>(stiffness: S, damping: S, mass: S, x: S, y: S) -> S {
    stiffness.negation().product(x).difference(damping.product(y)).quotient(mass)
}

impl<S: Copy> Clone for Spring<S> {
    fn clone(&self) -> (out: Self)
        ensures
            out == *self,
    {
        *self
    }
}

impl<S: Copy> Copy for Spring<S> {

}

impl<S: Scalar> Spring<S> {
    /// The measures of the reference oscillator, in SI units.
    pub open spec fn regulation() -> Self {
        Spring {
            particle_mass: S::of_int(70),
            amplitude: S::of_int(1),
            restoring_force_constant: S::of_int(10000),
            amortiguation_constant: S::of_int(100),
            initial_position: S::of_int(1),
        }
    }

    /// The velocity with which the particle starts: that of the damped
    /// oscillation of the given amplitude at its crest.
    pub open spec fn initial_velocity(self) -> S {
        self.amplitude.negation().product(self.amortiguation_constant).quotient(
            S::of_int(2).product(self.particle_mass),
        )
    }

    /// The derivative of order `n` of the position with which the particle
    /// starts. From the second on, each follows from the two below it by the
    /// equation of motion.
    pub open spec fn initial_derivative(self, n: nat) -> S
        decreases n,
    {
        if n == 0 {
            self.initial_position
        } else if n == 1 {
            self.initial_velocity()
        } else {
            spring_rate(
                self.restoring_force_constant,
                self.amortiguation_constant,
                self.particle_mass,
                self.initial_derivative((n - 2) as nat),
                self.initial_derivative((n - 1) as nat),
            )
        }
    }

    /// The particle as a run starts: of identity 0 and radius zero, with its
    /// first three derivatives.
    pub open spec fn initial_particle(self) -> ParticleView<S> {
        let stack = seq![
            seq![self.initial_derivative(0)],
            seq![self.initial_derivative(1)],
            seq![self.initial_derivative(2)],
        ];
        ParticleView {
            id: 0,
            stack,
            prev: stack,
            radius: crate::scalar::zero::<S>(),
            mass: self.particle_mass,
        }
    }

    /// The derivatives of third to fifth order with which the Gear scheme
    /// starts the particle.
    pub open spec fn initial_higher_derivatives(self) -> Seq<Seq<S>> {
        seq![
            seq![self.initial_derivative(3)],
            seq![self.initial_derivative(4)],
            seq![self.initial_derivative(5)],
        ]
    }

    /// The acceleration that the spring gives the particle `p`.
    pub open spec fn pull(self, p: ParticleView<S>) -> Seq<S> {
        Seq::new(
            p.stack[0].len(),
            |i: int|
                spring_rate(
                    self.restoring_force_constant,
                    self.amortiguation_constant,
                    p.mass,
                    p.stack[0][i],
                    p.stack[1][i],
                ),
        )
    }

    /// Computes [`Spring::regulation`].
    pub fn standard() -> (out: Self)
        ensures
            out == Self::regulation(),
    {
        Spring {
            particle_mass: S::from_int(70),
            amplitude: S::from_int(1),
            restoring_force_constant: S::from_int(10000),
            amortiguation_constant: S::from_int(100),
            initial_position: S::from_int(1),
        }
    }

    /// Computes [`spring_rate`] for this spring and its particle.
    fn rate(&self, x: S, y: S) -> (out: S)
        ensures
            out == spring_rate(
                self.restoring_force_constant,
                self.amortiguation_constant,
                self.particle_mass,
                x,
                y,
            ),
    {
        self.restoring_force_constant.negated().times(x).minus(
            self.amortiguation_constant.times(y),
        ).over(self.particle_mass)
    }

    /// Computes the first six of [`Spring::initial_derivative`].
    pub fn initial_derivatives(&self) -> (out: [S; 6])
        ensures
            forall|n: int| 0 <= n < 6 ==> out@[n] == self.initial_derivative(n as nat),
    {
        let r = self.initial_position;
        let v = self.amplitude.negated().times(self.amortiguation_constant).over(
            S::from_int(2).times(self.particle_mass),
        );
        let a = self.rate(r, v);
        let third = self.rate(v, a);
        let fourth = self.rate(a, third);
        let fifth = self.rate(third, fourth);
        proof {
            reveal_with_fuel(Spring::initial_derivative, 6);
        }
        [r, v, a, third, fourth, fifth]
    }
}

/// Computes [`Spring::pull`].
pub fn acceleration_function<S: Scalar, const DIM: usize>(
    particle: &Particle<S, DIM>,
    _others: &[Particle<S, DIM>],
    spring: &Spring<S>,
) -> (out: [S; DIM])
    requires
        particle@.wf(DIM as nat),
    ensures
        out@ == spring.pull(particle@),
{
    let r = particle.derivatives();
    let ghost st = particle@.stack;
    proof {
        crate::particle::rows_hold_the_vectors(r@);
    }
    let mass = particle.mass();
    let mut acceleration = r[0];
    let mut i: usize = 0;
    while i < DIM
        invariant
            i <= DIM,
            r@.len() >= 3,
            st == particle@.stack,
            st[0] == r@[0]@ && st[1] == r@[1]@,
            mass == particle@.mass,
            forall|j: int|
                0 <= j < i ==> acceleration@[j] == spring_rate(
                    spring.restoring_force_constant,
                    spring.amortiguation_constant,
                    mass,
                    st[0][j],
                    st[1][j],
                ),
        decreases DIM - i,
    {
        acceleration[i] = spring.restoring_force_constant.negated().times(r[0][i]).minus(
            spring.amortiguation_constant.times(r[1][i]),
        ).over(mass);
        i += 1;
    }
    assert(acceleration@ =~= spring.pull(particle@));
    acceleration
}

impl<S: Scalar, const DIM: usize> Acceleration<S, DIM> for Spring<S> {
    open spec fn acceleration(&self, particle: ParticleView<S>, others: Seq<ParticleView<S>>) -> Seq<
        S,
    > {
        self.pull(particle)
    }

    fn accelerate(&self, particle: &Particle<S, DIM>, others: &[Particle<S, DIM>]) -> (a: [
        S;
        DIM
    ]) {
        acceleration_function(particle, others, self)
    }
}

/// The particle after `steps` steps of `method`, alone in its set.
pub open spec fn swings<S: Scalar>(
    method: Integrator<S, Spring<S>>,
    particle: ParticleView<S>,
    steps: nat,
) -> ParticleView<S> {
    crate::methods::advanced_by::<S, Integrator<S, Spring<S>>, DIM>(method, seq![particle], steps)[0]
}

/// A run of the oscillator: its particle and the scheme that moves it.
pub struct Oscillator<S> {
    particle: Vec<Particle<S, DIM>>,
    integration_method: Integrator<S, Spring<S>>,
}

impl<S: Scalar> Oscillator<S> {
    /// The particle.
    pub closed spec fn live(&self) -> ParticleView<S> {
        self.particle@[0]@
    }

    /// The scheme that moves the particle.
    pub closed spec fn method(&self) -> Integrator<S, Spring<S>> {
        self.integration_method
    }

    /// The particle is well formed and carries the derivatives that the
    /// scheme reads.
    pub closed spec fn wf(&self) -> bool {
        &&& self.particle@.len() == 1
        &&& self.particle@[0]@.wf(DIM as nat)
        &&& self.particle@[0]@.stack.len() >= IntegrationMethod::<S, DIM>::order(
            &self.integration_method,
        )
    }

    /// Sets up a run of the oscillator `spring` with the scheme of the given
    /// kind, which steps by `delta_t`. The Gear scheme takes the acceleration
    /// to depend on the velocity and starts from the derivatives of third to
    /// fifth order that the equation of motion gives.
    pub fn new(delta_t: S, integration_method: &Integration, spring: &Spring<S>) -> (out: Self)
        ensures
            out.method().kind() == *integration_method,
            out.method().model() == *spring,
            out.method().time_step() == delta_t,
            out.method().depends_on_velocity() == (*integration_method
                == Integration::GearPredictorCorrector),
            out.live() == crate::integrator::prepared::<S, Spring<S>, DIM>(
                *integration_method,
                *spring,
                delta_t,
                spring.initial_higher_derivatives(),
                spring.initial_particle(),
                seq![spring.initial_particle()],
            ),
            out.wf(),
    {
        let d = spring.initial_derivatives();
        let r = [d[0]];
        let v = [d[1]];
        let a = [d[2]];
        proof {
            assert(r@ =~= seq![spring.initial_derivative(0)]);
            assert(v@ =~= seq![spring.initial_derivative(1)]);
            assert(a@ =~= seq![spring.initial_derivative(2)]);
        }
        let particle = Particle::new(0, r, v, a, S::from_int(0), spring.particle_mass);
        assert(particle@ == spring.initial_particle());
        let mut particle = vec![particle];
        let third = [d[3]];
        let fourth = [d[4]];
        let fifth = [d[5]];
        let derivatives = vec![vec![third, fourth, fifth]];
        proof {
            assert(third@ =~= seq![spring.initial_derivative(3)]);
            assert(fourth@ =~= seq![spring.initial_derivative(4)]);
            assert(fifth@ =~= seq![spring.initial_derivative(5)]);
            assert(crate::particle::rows(derivatives@[0]@) =~= spring.initial_higher_derivatives());
            assert(crate::particle::views(particle@) =~= seq![spring.initial_particle()]);
        }
        let scheme = Integrator::new(
            integration_method,
            *spring,
            true,
            particle.as_mut_slice(),
            &derivatives,
            delta_t,
        );
        Oscillator { particle, integration_method: scheme }
    }

    /// Advances the particle by `steps` steps and hands out its derivative
    /// stack.
    pub fn run(&mut self, steps: usize) -> (out: &Vec<[S; DIM]>)
        requires
            old(self).wf(),
        ensures
            final(self).live() == swings(old(self).method(), old(self).live(), steps as nat),
            final(self).method() == old(self).method(),
            final(self).wf(),
            crate::particle::rows(out@) == final(self).live().stack,
    {
        let ghost start = crate::particle::views(self.particle@);
        assert(start =~= seq![self.live()]);
        let mut done: usize = 0;
        while done < steps
            invariant
                done <= steps,
                self.wf(),
                self.integration_method == old(self).integration_method,
                start == seq![old(self).live()],
                crate::particle::views(self.particle@) == crate::methods::advanced_by::<
                    S,
                    Integrator<S, Spring<S>>,
                    DIM,
                >(old(self).method(), start, done as nat),
            decreases steps - done,
        {
            let ghost before = crate::particle::views(self.particle@);
            assert(before[0].wf(DIM as nat));
            self.integration_method.advance_step(self.particle.as_mut_slice());
            assert(crate::particle::views(self.particle@)[0].wf(DIM as nat));
            assert(crate::particle::views(self.particle@) =~= crate::methods::advanced::<
                S,
                Integrator<S, Spring<S>>,
                DIM,
            >(self.integration_method, before));
            done += 1;
        }
        assert(self.live() == crate::particle::views(self.particle@)[0]);
        self.particle[0].derivatives()
    }
}

} // verus!
