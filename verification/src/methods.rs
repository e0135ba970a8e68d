//! The integration schemes.
//!
//! Each scheme turns the derivative stack of a particle into the stack of one
//! time step later. Its contract names that stack through a specification
//! function over the scalar operations: the formula of the scheme, written out
//! in the order in which it is evaluated.

use crate::particle::{Particle, ParticleView};
use crate::scalar::{fraction, Scalar};
use vstd::prelude::*;

verus! {

/// The rule that gives a particle its acceleration.
///
/// The acceleration is a function of the particle and of the set it moves in,
/// and of nothing else.
pub trait Acceleration<S: Scalar, const DIM: usize>: Sized {
    /// The acceleration of `particle` among `others`. A model that is not
    /// verified leaves this as it is declared here: a function of the model
    /// and of the two arguments of which nothing further is known.
    open spec fn acceleration(&self, particle: ParticleView<S>, others: Seq<ParticleView<S>>) -> Seq<
        S,
    > {
        arbitrary::<spec_fn(Self, ParticleView<S>, Seq<ParticleView<S>>) -> Seq<S>>()(
            *self,
            particle,
            others,
        )
    }

    fn accelerate(&self, particle: &Particle<S, DIM>, others: &[Particle<S, DIM>]) -> (a: [S; DIM])
        requires
            particle@.wf(DIM as nat),
            crate::particle::all_wf(crate::particle::views(others@), DIM as nat),
        ensures
            a@ == self.acceleration(particle@, crate::particle::views(others@)),
    ;
}

/// A time-stepping scheme.
pub trait IntegrationMethod<S: Scalar, const DIM: usize>: Sized {
    /// How many derivative orders the scheme reads from a particle.
    spec fn order(&self) -> nat;

    /// The derivative stack of `particle` one step later.
    spec fn step(&self, particle: ParticleView<S>, others: Seq<ParticleView<S>>) -> Seq<Seq<S>>;

    /// The stack that `particle` keeps as its previous one once `stack` has
    /// taken the place of its present one.
    spec fn history(&self, particle: ParticleView<S>, stack: Seq<Seq<S>>) -> Seq<Seq<S>>;

    /// Computes the stack of `particle` one step later, reading the present
    /// state of `others`.
    fn calculate_step(&self, particle: &Particle<S, DIM>, others: &[Particle<S, DIM>]) -> (out:
        Vec<[S; DIM]>)
        requires
            particle@.wf(DIM as nat),
            particle@.stack.len() >= self.order(),
            crate::particle::all_wf(crate::particle::views(others@), DIM as nat),
        ensures
            crate::particle::rows(out@) == self.step(particle@, crate::particle::views(others@)),
            out@.len() == particle@.stack.len(),
    ;

    /// Turns the stack that a step has just replaced into the one to keep as
    /// the previous stack. `particle` already holds its new stack.
    fn retire(&self, particle: &Particle<S, DIM>, replaced: Vec<[S; DIM]>) -> (kept: Vec<[S; DIM]>)
        requires
            particle@.wf(DIM as nat),
            replaced@.len() >= 3,
        ensures
            crate::particle::rows(kept@) == self.history(
                particle@.with_stack(crate::particle::rows(replaced@)),
                particle@.stack,
            ),
            kept@.len() == replaced@.len(),
    ;

    /// Advances every particle by one step. Each new stack is computed from the
    /// state that all particles had before the step; only then are the new
    /// stacks put in place, each particle keeping the history of the one it
    /// had.
    fn advance_step(&self, particles: &mut [Particle<S, DIM>])
        requires
            crate::particle::all_wf(crate::particle::views(old(particles)@), DIM as nat),
            forall|k: int|
                0 <= k < old(particles)@.len() ==> (#[trigger] old(particles)@[k])@.stack.len()
                    >= self.order(),
        ensures
            final(particles)@.len() == old(particles)@.len(),
            forall|k: int|
                0 <= k < old(particles)@.len() ==> (#[trigger] final(particles)@[k])@ == (
                ParticleView {
                    stack: self.step(old(particles)@[k]@, crate::particle::views(old(particles)@)),
                    prev: self.history(
                        old(particles)@[k]@,
                        self.step(old(particles)@[k]@, crate::particle::views(old(particles)@)),
                    ),
                    ..old(particles)@[k]@
                }),
            crate::particle::all_wf(crate::particle::views(final(particles)@), DIM as nat),
            forall|k: int|
                0 <= k < old(particles)@.len() ==> (#[trigger] final(particles)@[k])@.stack.len()
                    == old(particles)@[k]@.stack.len(),
    {
        let ghost before = crate::particle::views(particles@);
        let mut stacks: Vec<Vec<[S; DIM]>> = Vec::new();
        let mut i: usize = 0;
        while i < particles.len()
            invariant
                i <= particles@.len(),
                stacks@.len() == i,
                particles@ == old(particles)@,
                before == crate::particle::views(particles@),
                crate::particle::all_wf(before, DIM as nat),
                forall|k: int|
                    0 <= k < particles@.len() ==> (#[trigger] particles@[k])@.stack.len()
                        >= self.order(),
                forall|k: int|
                    0 <= k < i ==> crate::particle::rows((#[trigger] stacks@[k])@) == self.step(
                        particles@[k]@,
                        before,
                    ),
                forall|k: int|
                    0 <= k < i ==> (#[trigger] stacks@[k])@.len() == particles@[k]@.stack.len(),
            decreases particles@.len() - i,
        {
            assert(before[i as int] == particles@[i as int]@);
            let stack = self.calculate_step(&particles[i], particles);
            stacks.push(stack);
            i += 1;
        }
        let ghost all = stacks@;
        while i > 0
            invariant
                i <= particles@.len(),
                particles@.len() == old(particles)@.len(),
                before == crate::particle::views(old(particles)@),
                crate::particle::all_wf(before, DIM as nat),
                all.len() == particles@.len(),
                stacks@ == all.subrange(0, i as int),
                forall|k: int|
                    0 <= k < all.len() ==> crate::particle::rows((#[trigger] all[k])@) == self.step(
                        old(particles)@[k]@,
                        before,
                    ),
                forall|k: int|
                    0 <= k < all.len() ==> (#[trigger] all[k])@.len() == old(
                        particles,
                    )@[k]@.stack.len(),
                forall|k: int| 0 <= k < i ==> particles@[k] == old(particles)@[k],
                forall|k: int|
                    i <= k < particles@.len() ==> (#[trigger] particles@[k])@ == (ParticleView {
                        stack: self.step(old(particles)@[k]@, before),
                        prev: self.history(old(particles)@[k]@, self.step(old(particles)@[k]@, before)),
                        ..old(particles)@[k]@
                    }),
                forall|k: int|
                    i <= k < particles@.len() ==> (#[trigger] particles@[k])@.wf(DIM as nat)
                        && particles@[k]@.stack.len() == old(particles)@[k]@.stack.len(),
            decreases i,
        {
            i -= 1;
            let stack = stacks.pop().unwrap();
            assert(stacks@ =~= all.subrange(0, i as int));
            assert(stack == all[i as int]);
            assert(before[i as int] == old(particles)@[i as int]@);
            let ghost was = particles@[i as int]@;
            let replaced = particles[i].set_derivatives(stack);
            proof {
                particles@[i as int].has_dimension();
                assert(particles@[i as int]@.wf(DIM as nat));
                assert(particles@[i as int]@.with_stack(crate::particle::rows(replaced@)) =~= was);
            }
            let kept = self.retire(&particles[i], replaced);
            particles[i].set_prev_derivatives(kept);
            proof {
                particles@[i as int].has_dimension();
            }
        }
        assert forall|k: int| 0 <= k < particles@.len() implies (#[trigger] crate::particle::views(
            particles@,
        )[k]).wf(DIM as nat) by {
            assert(particles@[k]@.wf(DIM as nat));
        }
    }
}

/// The particles one step of `method` later: the state that
/// [`IntegrationMethod::advance_step`] leaves.
pub open spec fn advanced<S: Scalar, I: IntegrationMethod<S, DIM>, const DIM: usize>(
    method: I,
    particles: Seq<ParticleView<S>>,
) -> Seq<ParticleView<S>> {
    Seq::new(
        particles.len(),
        |k: int|
            ParticleView {
                stack: method.step(particles[k], particles),
                prev: method.history(particles[k], method.step(particles[k], particles)),
                ..particles[k]
            },
    )
}

/// The particles `steps` steps of `method` later.
pub open spec fn advanced_by<S: Scalar, I: IntegrationMethod<S, DIM>, const DIM: usize>(
    method: I,
    particles: Seq<ParticleView<S>>,
    steps: nat,
) -> Seq<ParticleView<S>>
    decreases steps,
{
    if steps == 0 {
        particles
    } else {
        advanced::<S, I, DIM>(method, advanced_by::<S, I, DIM>(method, particles, (steps - 1) as nat))
    }
}

/// The stack of `particle` with its first three entries replaced.
fn assemble<S: Scalar, const DIM: usize>(
    particle: &Particle<S, DIM>,
    r: [S; DIM],
    v: [S; DIM],
    a: [S; DIM],
) -> (out: Vec<[S; DIM]>)
    requires
        particle@.wf(DIM as nat),
    ensures
        crate::particle::rows(out@) == particle@.stack.update(0, r@).update(1, v@).update(2, a@),
        out@.len() == particle@.stack.len(),
{
    let mut out = particle.cloned_derivatives();
    assert(crate::particle::rows(out@).len() == out@.len());
    out[0] = r;
    out[1] = v;
    out[2] = a;
    assert(crate::particle::rows(out@) =~= particle@.stack.update(0, r@).update(1, v@).update(
        2,
        a@,
    ));
    out
}

/// A particle like `particle` but at position `r` with velocity `v`, and with
/// no history of its own: the state at which a scheme asks for the
/// acceleration.
fn probe<S: Scalar, const DIM: usize>(particle: &Particle<S, DIM>, r: [S; DIM], v: [S; DIM]) -> (out:
    Particle<S, DIM>)
    requires
        particle@.wf(DIM as nat),
    ensures
        out@ == particle@.at(r@, v@, particle@.stack[2]),
        out@.wf(DIM as nat),
{
    let d = particle.derivatives();
    proof {
        crate::particle::rows_hold_the_vectors(d@);
    }
    let a = d[2];
    Particle::new(particle.id(), r, v, a, particle.radius(), particle.mass())
}

/// Euler: the position one step later.
pub open spec fn euler_position<S: Scalar>(dt: S, r: S, v: S, a: S) -> S {
    r.sum(dt.product(v).sum(dt.product(dt).quotient(S::of_int(2)).product(a)))
}

/// Euler: the velocity one step later.
pub open spec fn euler_velocity<S: Scalar>(dt: S, v: S, a: S) -> S {
    v.sum(dt.product(a))
}

/// The explicit Euler step: position and velocity are advanced from the present
/// state, and the acceleration is that of the model at the advanced state.
pub open spec fn euler_step<S: Scalar, M: Acceleration<S, DIM>, const DIM: usize>(
    model: M,
    dt: S,
    p: ParticleView<S>,
    others: Seq<ParticleView<S>>,
) -> Seq<Seq<S>> {
    let r = Seq::new(
        DIM as nat,
        |i: int| euler_position(dt, p.stack[0][i], p.stack[1][i], p.stack[2][i]),
    );
    let v = Seq::new(DIM as nat, |i: int| euler_velocity(dt, p.stack[1][i], p.stack[2][i]));
    p.stack.update(0, r).update(1, v).update(2, model.acceleration(p.at(r, v, p.stack[2]), others))
}

/// Computes [`euler_step`].
fn euler_calculate<S: Scalar, M: Acceleration<S, DIM>, const DIM: usize>(
    model: &M,
    dt: S,
    particle: &Particle<S, DIM>,
    others: &[Particle<S, DIM>],
) -> (out: Vec<[S; DIM]>)
    requires
        particle@.wf(DIM as nat),
        crate::particle::all_wf(crate::particle::views(others@), DIM as nat),
    ensures
        crate::particle::rows(out@) == euler_step::<S, M, DIM>(
            *model,
            dt,
            particle@,
            crate::particle::views(others@),
        ),
        out@.len() == particle@.stack.len(),
{
    let d = particle.derivatives();
    let ghost st = particle@.stack;
    proof {
        crate::particle::rows_hold_the_vectors(d@);
    }
    let half_square = dt.times(dt).over(S::from_int(2));
    let mut r = d[0];
    let mut v = d[1];
    let mut i: usize = 0;
    while i < DIM
        invariant
            i <= DIM,
            d@.len() >= 3,
            st[0] == d@[0]@ && st[1] == d@[1]@ && st[2] == d@[2]@,
            half_square == dt.product(dt).quotient(S::of_int(2)),
            forall|j: int|
                0 <= j < i ==> r@[j] == euler_position(dt, st[0][j], st[1][j], st[2][j]),
            forall|j: int| 0 <= j < i ==> v@[j] == euler_velocity(dt, st[1][j], st[2][j]),
        decreases DIM - i,
    {
        r[i] = d[0][i].plus(dt.times(d[1][i]).plus(half_square.times(d[2][i])));
        v[i] = d[1][i].plus(dt.times(d[2][i]));
        i += 1;
    }
    assert(r@ =~= Seq::new(
        DIM as nat,
        |i: int| euler_position(dt, st[0][i], st[1][i], st[2][i]),
    ));
    assert(v@ =~= Seq::new(DIM as nat, |i: int| euler_velocity(dt, st[1][i], st[2][i])));
    let at = probe(particle, r, v);
    let a = model.accelerate(&at, others);
    assemble(particle, r, v, a)
}

/// The explicit Euler scheme.
pub struct Euler<S, M> {
    acceleration_function: M,
    delta_t: S,
}

impl<S: Scalar, M> Euler<S, M> {
    /// The acceleration model of the scheme.
    pub closed spec fn model(&self) -> M {
        self.acceleration_function
    }

    /// The time step of the scheme.
    pub closed spec fn time_step(&self) -> S {
        self.delta_t
    }

    pub fn new(acceleration_function: M, delta_t: S) -> (out: Self)
        ensures
            out.model() == acceleration_function,
            out.time_step() == delta_t,
    {
        Self { acceleration_function, delta_t }
    }
}

impl<S: Scalar, M: Acceleration<S, DIM>, const DIM: usize> IntegrationMethod<S, DIM>
    for Euler<S, M> {
    open spec fn order(&self) -> nat {
        3
    }

    open spec fn step(&self, particle: ParticleView<S>, others: Seq<ParticleView<S>>) -> Seq<
        Seq<S>,
    > {
        euler_step::<S, M, DIM>(self.model(), self.time_step(), particle, others)
    }

    open spec fn history(&self, particle: ParticleView<S>, stack: Seq<Seq<S>>) -> Seq<Seq<S>> {
        particle.stack
    }

    fn calculate_step(&self, particle: &Particle<S, DIM>, others: &[Particle<S, DIM>]) -> (out:
        Vec<[S; DIM]>) {
        euler_calculate(&self.acceleration_function, self.delta_t, particle, others)
    }

    fn retire(&self, particle: &Particle<S, DIM>, replaced: Vec<[S; DIM]>) -> (kept: Vec<
        [S; DIM],
    >) {
        replaced
    }
}

/// Gives every particle, as its previous stack, one Euler step of `dt` from
/// its present state. Every step is computed before any is put in place.
fn bootstrap<S: Scalar, M: Acceleration<S, DIM>, const DIM: usize>(
    model: &M,
    dt: S,
    particles: &mut [Particle<S, DIM>],
)
    requires
        crate::particle::all_wf(crate::particle::views(old(particles)@), DIM as nat),
    ensures
        final(particles)@.len() == old(particles)@.len(),
        forall|k: int|
            0 <= k < old(particles)@.len() ==> (#[trigger] final(particles)@[k])@ == old(
                particles,
            )@[k]@.with_prev(
                euler_step::<S, M, DIM>(
                    *model,
                    dt,
                    old(particles)@[k]@,
                    crate::particle::views(old(particles)@),
                ),
            ),
        crate::particle::all_wf(crate::particle::views(final(particles)@), DIM as nat),
{
    let ghost before = crate::particle::views(particles@);
    let mut stacks: Vec<Vec<[S; DIM]>> = Vec::new();
    let mut i: usize = 0;
    while i < particles.len()
        invariant
            i <= particles@.len(),
            stacks@.len() == i,
            particles@ == old(particles)@,
            before == crate::particle::views(particles@),
            crate::particle::all_wf(before, DIM as nat),
            forall|k: int|
                0 <= k < i ==> crate::particle::rows((#[trigger] stacks@[k])@) == euler_step::<
                    S,
                    M,
                    DIM,
                >(*model, dt, particles@[k]@, before),
            forall|k: int| 0 <= k < i ==> (#[trigger] stacks@[k])@.len() >= 3,
        decreases particles@.len() - i,
    {
        assert(before[i as int] == particles@[i as int]@);
        let stack = euler_calculate(model, dt, &particles[i], particles);
        stacks.push(stack);
        i += 1;
    }
    let ghost all = stacks@;
    while i > 0
        invariant
            i <= particles@.len(),
            particles@.len() == old(particles)@.len(),
            before == crate::particle::views(old(particles)@),
            crate::particle::all_wf(before, DIM as nat),
            all.len() == particles@.len(),
            stacks@ == all.subrange(0, i as int),
            forall|k: int|
                0 <= k < all.len() ==> crate::particle::rows((#[trigger] all[k])@) == euler_step::<
                    S,
                    M,
                    DIM,
                >(*model, dt, old(particles)@[k]@, before),
            forall|k: int| 0 <= k < all.len() ==> (#[trigger] all[k])@.len() >= 3,
            forall|k: int| 0 <= k < i ==> particles@[k] == old(particles)@[k],
            forall|k: int|
                i <= k < particles@.len() ==> (#[trigger] particles@[k])@ == old(
                    particles,
                )@[k]@.with_prev(euler_step::<S, M, DIM>(*model, dt, old(particles)@[k]@, before)),
            forall|k: int| i <= k < particles@.len() ==> (#[trigger] particles@[k])@.wf(DIM as nat),
        decreases i,
    {
        i -= 1;
        let stack = stacks.pop().unwrap();
        assert(stacks@ =~= all.subrange(0, i as int));
        assert(stack == all[i as int]);
        assert(before[i as int] == old(particles)@[i as int]@);
        particles[i].set_prev_derivatives(stack);
        proof {
            particles@[i as int].has_dimension();
        }
    }
    assert forall|k: int| 0 <= k < particles@.len() implies (#[trigger] crate::particle::views(
        particles@,
    )[k]).wf(DIM as nat) by {
        assert(particles@[k]@.wf(DIM as nat));
    }
}

/// Modified Euler: the velocity one step later.
pub open spec fn euler_mod_velocity<S: Scalar>(dt: S, v: S, a: S) -> S {
    v.sum(dt.product(a))
}

/// Modified Euler: the position one step later, from the velocity `w` that the
/// step has already advanced.
pub open spec fn euler_mod_position<S: Scalar>(dt: S, r: S, w: S, a: S) -> S {
    r.sum(dt.product(w).sum(dt.product(dt).quotient(S::of_int(2)).product(a)))
}

/// The modified Euler step: the velocity is advanced first and the position
/// moves with the advanced velocity; the acceleration is that of the model at
/// the advanced state.
pub open spec fn euler_mod_step<S: Scalar, M: Acceleration<S, DIM>, const DIM: usize>(
    model: M,
    dt: S,
    p: ParticleView<S>,
    others: Seq<ParticleView<S>>,
) -> Seq<Seq<S>> {
    let v = Seq::new(DIM as nat, |i: int| euler_mod_velocity(dt, p.stack[1][i], p.stack[2][i]));
    let r = Seq::new(
        DIM as nat,
        |i: int| euler_mod_position(dt, p.stack[0][i], v[i], p.stack[2][i]),
    );
    p.stack.update(0, r).update(1, v).update(2, model.acceleration(p.at(r, v, p.stack[2]), others))
}

/// Computes [`euler_mod_step`].
fn euler_mod_calculate<S: Scalar, M: Acceleration<S, DIM>, const DIM: usize>(
    model: &M,
    dt: S,
    particle: &Particle<S, DIM>,
    others: &[Particle<S, DIM>],
) -> (out: Vec<[S; DIM]>)
    requires
        particle@.wf(DIM as nat),
        crate::particle::all_wf(crate::particle::views(others@), DIM as nat),
    ensures
        crate::particle::rows(out@) == euler_mod_step::<S, M, DIM>(
            *model,
            dt,
            particle@,
            crate::particle::views(others@),
        ),
        out@.len() == particle@.stack.len(),
{
    let d = particle.derivatives();
    let ghost st = particle@.stack;
    proof {
        crate::particle::rows_hold_the_vectors(d@);
    }
    let half_square = dt.times(dt).over(S::from_int(2));
    let mut r = d[0];
    let mut v = d[1];
    let mut i: usize = 0;
    while i < DIM
        invariant
            i <= DIM,
            d@.len() >= 3,
            st[0] == d@[0]@ && st[1] == d@[1]@ && st[2] == d@[2]@,
            half_square == dt.product(dt).quotient(S::of_int(2)),
            forall|j: int| 0 <= j < i ==> v@[j] == euler_mod_velocity(dt, st[1][j], st[2][j]),
            forall|j: int|
                0 <= j < i ==> r@[j] == euler_mod_position(dt, st[0][j], v@[j], st[2][j]),
        decreases DIM - i,
    {
        v[i] = d[1][i].plus(dt.times(d[2][i]));
        r[i] = d[0][i].plus(dt.times(v[i]).plus(half_square.times(d[2][i])));
        i += 1;
    }
    let ghost vs = Seq::new(DIM as nat, |i: int| euler_mod_velocity(dt, st[1][i], st[2][i]));
    assert(v@ =~= vs);
    assert(r@ =~= Seq::new(DIM as nat, |i: int| euler_mod_position(dt, st[0][i], vs[i], st[2][i])));
    let at = probe(particle, r, v);
    let a = model.accelerate(&at, others);
    assemble(particle, r, v, a)
}

/// The modified (semi-implicit) Euler scheme.
pub struct EulerMod<S, M> {
    acceleration_function: M,
    delta_t: S,
}

impl<S: Scalar, M> EulerMod<S, M> {
    /// The acceleration model of the scheme.
    pub closed spec fn model(&self) -> M {
        self.acceleration_function
    }

    /// The time step of the scheme.
    pub closed spec fn time_step(&self) -> S {
        self.delta_t
    }

    pub fn new(acceleration_function: M, delta_t: S) -> (out: Self)
        ensures
            out.model() == acceleration_function,
            out.time_step() == delta_t,
    {
        Self { acceleration_function, delta_t }
    }
}

impl<S: Scalar, M: Acceleration<S, DIM>, const DIM: usize> IntegrationMethod<S, DIM>
    for EulerMod<S, M> {
    open spec fn order(&self) -> nat {
        3
    }

    open spec fn step(&self, particle: ParticleView<S>, others: Seq<ParticleView<S>>) -> Seq<
        Seq<S>,
    > {
        euler_mod_step::<S, M, DIM>(self.model(), self.time_step(), particle, others)
    }

    open spec fn history(&self, particle: ParticleView<S>, stack: Seq<Seq<S>>) -> Seq<Seq<S>> {
        particle.stack
    }

    fn calculate_step(&self, particle: &Particle<S, DIM>, others: &[Particle<S, DIM>]) -> (out:
        Vec<[S; DIM]>) {
        euler_mod_calculate(&self.acceleration_function, self.delta_t, particle, others)
    }

    fn retire(&self, particle: &Particle<S, DIM>, replaced: Vec<[S; DIM]>) -> (kept: Vec<
        [S; DIM],
    >) {
        replaced
    }
}

/// Verlet: the position one step later, from the present position `r`, the
/// position `q` of one step before and the acceleration `a`.
pub open spec fn verlet_position<S: Scalar>(dt: S, r: S, q: S, a: S) -> S {
    r.product(S::of_int(2)).sum(q.negation().sum(dt.product(dt).product(a)))
}

/// Verlet: the velocity that goes with the new position `n`, taken as the
/// central difference over the positions one step ahead and one step before.
pub open spec fn verlet_velocity<S: Scalar>(dt: S, n: S, q: S) -> S {
    n.difference(q).quotient(S::of_int(2).product(dt))
}

/// The position Verlet step.
pub open spec fn verlet_step<S: Scalar, M: Acceleration<S, DIM>, const DIM: usize>(
    model: M,
    dt: S,
    p: ParticleView<S>,
    others: Seq<ParticleView<S>>,
) -> Seq<Seq<S>> {
    let r = Seq::new(
        DIM as nat,
        |i: int| verlet_position(dt, p.stack[0][i], p.prev[0][i], p.stack[2][i]),
    );
    let v = Seq::new(DIM as nat, |i: int| verlet_velocity(dt, r[i], p.prev[0][i]));
    p.stack.update(0, r).update(1, v).update(2, model.acceleration(p.at(r, v, p.stack[2]), others))
}

/// Computes [`verlet_step`].
fn verlet_calculate<S: Scalar, M: Acceleration<S, DIM>, const DIM: usize>(
    model: &M,
    dt: S,
    particle: &Particle<S, DIM>,
    others: &[Particle<S, DIM>],
) -> (out: Vec<[S; DIM]>)
    requires
        particle@.wf(DIM as nat),
        crate::particle::all_wf(crate::particle::views(others@), DIM as nat),
    ensures
        crate::particle::rows(out@) == verlet_step::<S, M, DIM>(
            *model,
            dt,
            particle@,
            crate::particle::views(others@),
        ),
        out@.len() == particle@.stack.len(),
{
    let d = particle.derivatives();
    let ghost st = particle@.stack;
    proof {
        crate::particle::rows_hold_the_vectors(d@);
    }
    let o = particle.prev_derivatives();
    let ghost pv = particle@.prev;
    proof {
        crate::particle::rows_hold_the_vectors(o@);
    }
    let two = S::from_int(2);
    let square = dt.times(dt);
    let twice = two.times(dt);
    let mut r = d[0];
    let mut v = d[1];
    let mut i: usize = 0;
    while i < DIM
        invariant
            i <= DIM,
            d@.len() >= 3,
            o@.len() >= 3,
            st[0] == d@[0]@ && st[1] == d@[1]@ && st[2] == d@[2]@,
            pv[0] == o@[0]@,
            two == S::of_int(2),
            square == dt.product(dt),
            twice == S::of_int(2).product(dt),
            forall|j: int|
                0 <= j < i ==> r@[j] == verlet_position(dt, st[0][j], pv[0][j], st[2][j]),
            forall|j: int| 0 <= j < i ==> v@[j] == verlet_velocity(dt, r@[j], pv[0][j]),
        decreases DIM - i,
    {
        r[i] = d[0][i].times(two).plus(o[0][i].negated().plus(square.times(d[2][i])));
        v[i] = r[i].minus(o[0][i]).over(twice);
        i += 1;
    }
    let ghost rs = Seq::new(
        DIM as nat,
        |i: int| verlet_position(dt, st[0][i], pv[0][i], st[2][i]),
    );
    assert(r@ =~= rs);
    assert(v@ =~= Seq::new(DIM as nat, |i: int| verlet_velocity(dt, rs[i], pv[0][i])));
    let at = probe(particle, r, v);
    let a = model.accelerate(&at, others);
    assemble(particle, r, v, a)
}

/// The position Verlet scheme.
pub struct Verlet<S, M> {
    acceleration_function: M,
    delta_t: S,
}

impl<S: Scalar, M> Verlet<S, M> {
    /// The acceleration model of the scheme.
    pub closed spec fn model(&self) -> M {
        self.acceleration_function
    }

    /// The time step of the scheme.
    pub closed spec fn time_step(&self) -> S {
        self.delta_t
    }

    /// Builds the scheme and gives every particle the history it needs: the
    /// previous stack of each becomes one Euler step of `-delta_t` from its
    /// present state, all computed from the state the particles come in.
    pub fn new<const DIM: usize>(
        acceleration_function: M,
        particles_to_init: &mut [Particle<S, DIM>],
        delta_t: S,
    ) -> (out: Self) where M: Acceleration<S, DIM>
        requires
            crate::particle::all_wf(crate::particle::views(old(particles_to_init)@), DIM as nat),
        ensures
            out.model() == acceleration_function,
            out.time_step() == delta_t,
            final(particles_to_init)@.len() == old(particles_to_init)@.len(),
            forall|k: int|
                0 <= k < old(particles_to_init)@.len() ==> (#[trigger] final(particles_to_init)@[k])@
                    == old(particles_to_init)@[k]@.with_prev(
                    euler_step::<S, M, DIM>(
                        acceleration_function,
                        delta_t.negation(),
                        old(particles_to_init)@[k]@,
                        crate::particle::views(old(particles_to_init)@),
                    ),
                ),
            crate::particle::all_wf(crate::particle::views(final(particles_to_init)@), DIM as nat),
    {
        bootstrap(&acceleration_function, delta_t.negated(), particles_to_init);
        Self { acceleration_function, delta_t }
    }
}

impl<S: Scalar, M: Acceleration<S, DIM>, const DIM: usize> IntegrationMethod<S, DIM>
    for Verlet<S, M> {
    open spec fn order(&self) -> nat {
        3
    }

    open spec fn step(&self, particle: ParticleView<S>, others: Seq<ParticleView<S>>) -> Seq<
        Seq<S>,
    > {
        verlet_step::<S, M, DIM>(self.model(), self.time_step(), particle, others)
    }

    open spec fn history(&self, particle: ParticleView<S>, stack: Seq<Seq<S>>) -> Seq<Seq<S>> {
        particle.stack
    }

    fn calculate_step(&self, particle: &Particle<S, DIM>, others: &[Particle<S, DIM>]) -> (out:
        Vec<[S; DIM]>) {
        verlet_calculate(&self.acceleration_function, self.delta_t, particle, others)
    }

    fn retire(&self, particle: &Particle<S, DIM>, replaced: Vec<[S; DIM]>) -> (kept: Vec<
        [S; DIM],
    >) {
        replaced
    }
}

/// Leap-frog: the velocity half a step ahead, from the half-step velocity `w`
/// that the particle keeps in its previous stack and the acceleration `a`.
pub open spec fn half_step_velocity<S: Scalar>(dt: S, w: S, a: S) -> S {
    w.sum(dt.product(a))
}

/// Leap-frog: the half-step velocities of a particle.
pub open spec fn half_step<S: Scalar>(dt: S, p: ParticleView<S>, dim: nat) -> Seq<S> {
    Seq::new(dim, |i: int| half_step_velocity(dt, p.prev[1][i], p.stack[2][i]))
}

/// Leap-frog: the position one step later, moved by the half-step velocity
/// `h`.
pub open spec fn leap_frog_position<S: Scalar>(dt: S, r: S, h: S) -> S {
    r.sum(dt.product(h))
}

/// Leap-frog: the velocity stored with the new position: the mean of the
/// half-step velocity `w` that the particle kept and the next one `h`.
pub open spec fn leap_frog_velocity<S: Scalar>(w: S, h: S) -> S {
    w.sum(h).quotient(S::of_int(2))
}

/// The leap-frog Verlet step.
pub open spec fn leap_frog_step<S: Scalar, M: Acceleration<S, DIM>, const DIM: usize>(
    model: M,
    dt: S,
    p: ParticleView<S>,
    others: Seq<ParticleView<S>>,
) -> Seq<Seq<S>> {
    let h = half_step(dt, p, DIM as nat);
    let r = Seq::new(DIM as nat, |i: int| leap_frog_position(dt, p.stack[0][i], h[i]));
    let v = Seq::new(DIM as nat, |i: int| leap_frog_velocity(p.prev[1][i], h[i]));
    p.stack.update(0, r).update(1, v).update(2, model.acceleration(p.at(r, v, p.stack[2]), others))
}

/// Computes the half-step velocities from the half-step velocities `w` of one
/// step before and the accelerations `a`.
fn leap_frog_half_step<S: Scalar, const DIM: usize>(dt: S, w: &[S; DIM], a: &[S; DIM]) -> (h: [
    S;
    DIM
])
    ensures
        h@ == Seq::new(DIM as nat, |i: int| half_step_velocity(dt, w@[i], a@[i])),
{
    let mut h = *w;
    let mut i: usize = 0;
    while i < DIM
        invariant
            i <= DIM,
            forall|j: int| 0 <= j < i ==> h@[j] == half_step_velocity(dt, w@[j], a@[j]),
        decreases DIM - i,
    {
        h[i] = w[i].plus(dt.times(a[i]));
        i += 1;
    }
    assert(h@ =~= Seq::new(DIM as nat, |i: int| half_step_velocity(dt, w@[i], a@[i])));
    h
}

/// Computes [`leap_frog_step`].
fn leap_frog_calculate<S: Scalar, M: Acceleration<S, DIM>, const DIM: usize>(
    model: &M,
    dt: S,
    particle: &Particle<S, DIM>,
    others: &[Particle<S, DIM>],
) -> (out: Vec<[S; DIM]>)
    requires
        particle@.wf(DIM as nat),
        crate::particle::all_wf(crate::particle::views(others@), DIM as nat),
    ensures
        crate::particle::rows(out@) == leap_frog_step::<S, M, DIM>(
            *model,
            dt,
            particle@,
            crate::particle::views(others@),
        ),
        out@.len() == particle@.stack.len(),
{
    let d = particle.derivatives();
    let ghost st = particle@.stack;
    proof {
        crate::particle::rows_hold_the_vectors(d@);
    }
    let o = particle.prev_derivatives();
    let ghost pv = particle@.prev;
    proof {
        crate::particle::rows_hold_the_vectors(o@);
    }
    let h = leap_frog_half_step(dt, &o[1], &d[2]);
    assert(h@ =~= half_step(dt, particle@, DIM as nat));
    let two = S::from_int(2);
    let mut r = d[0];
    let mut v = d[1];
    let mut i: usize = 0;
    while i < DIM
        invariant
            i <= DIM,
            d@.len() >= 3,
            o@.len() >= 3,
            st[0] == d@[0]@,
            pv[1] == o@[1]@,
            two == S::of_int(2),
            forall|j: int| 0 <= j < i ==> r@[j] == leap_frog_position(dt, st[0][j], h@[j]),
            forall|j: int| 0 <= j < i ==> v@[j] == leap_frog_velocity(pv[1][j], h@[j]),
        decreases DIM - i,
    {
        r[i] = d[0][i].plus(dt.times(h[i]));
        v[i] = o[1][i].plus(h[i]).over(two);
        i += 1;
    }
    assert(r@ =~= Seq::new(DIM as nat, |i: int| leap_frog_position(dt, st[0][i], h@[i])));
    assert(v@ =~= Seq::new(DIM as nat, |i: int| leap_frog_velocity(pv[1][i], h@[i])));
    let at = probe(particle, r, v);
    let a = model.accelerate(&at, others);
    assemble(particle, r, v, a)
}

/// The leap-frog Verlet scheme. The velocity that a particle keeps in its
/// previous stack is the half-step velocity with which its position last
/// advanced; the velocity of its present stack is the mean of that and the one
/// before it.
pub struct VerletLeapFrog<S, M> {
    acceleration_function: M,
    delta_t: S,
}

impl<S: Scalar, M> VerletLeapFrog<S, M> {
    /// The acceleration model of the scheme.
    pub closed spec fn model(&self) -> M {
        self.acceleration_function
    }

    /// The time step of the scheme.
    pub closed spec fn time_step(&self) -> S {
        self.delta_t
    }

    /// Builds the scheme and gives every particle the history it needs: the
    /// previous stack of each becomes one Euler step of `-delta_t / 2` from its
    /// present state, all computed from the state the particles come in.
    pub fn new<const DIM: usize>(
        acceleration_function: M,
        particles_to_init: &mut [Particle<S, DIM>],
        delta_t: S,
    ) -> (out: Self) where M: Acceleration<S, DIM>
        requires
            crate::particle::all_wf(crate::particle::views(old(particles_to_init)@), DIM as nat),
        ensures
            out.model() == acceleration_function,
            out.time_step() == delta_t,
            final(particles_to_init)@.len() == old(particles_to_init)@.len(),
            forall|k: int|
                0 <= k < old(particles_to_init)@.len() ==> (#[trigger] final(particles_to_init)@[k])@
                    == old(particles_to_init)@[k]@.with_prev(
                    euler_step::<S, M, DIM>(
                        acceleration_function,
                        delta_t.negation().quotient(S::of_int(2)),
                        old(particles_to_init)@[k]@,
                        crate::particle::views(old(particles_to_init)@),
                    ),
                ),
            crate::particle::all_wf(crate::particle::views(final(particles_to_init)@), DIM as nat),
    {
        bootstrap(&acceleration_function, delta_t.negated().over(S::from_int(2)), particles_to_init);
        Self { acceleration_function, delta_t }
    }
}

impl<S: Scalar, M: Acceleration<S, DIM>, const DIM: usize> IntegrationMethod<S, DIM>
    for VerletLeapFrog<S, M> {
    open spec fn order(&self) -> nat {
        3
    }

    open spec fn step(&self, particle: ParticleView<S>, others: Seq<ParticleView<S>>) -> Seq<
        Seq<S>,
    > {
        leap_frog_step::<S, M, DIM>(self.model(), self.time_step(), particle, others)
    }

    open spec fn history(&self, particle: ParticleView<S>, stack: Seq<Seq<S>>) -> Seq<Seq<S>> {
        particle.stack.update(1, half_step(self.time_step(), particle, DIM as nat))
    }

    fn calculate_step(&self, particle: &Particle<S, DIM>, others: &[Particle<S, DIM>]) -> (out:
        Vec<[S; DIM]>) {
        leap_frog_calculate(&self.acceleration_function, self.delta_t, particle, others)
    }

    fn retire(&self, particle: &Particle<S, DIM>, replaced: Vec<[S; DIM]>) -> (kept: Vec<
        [S; DIM],
    >) {
        let o = particle.prev_derivatives();
        proof {
            crate::particle::rows_hold_the_vectors(o@);
            crate::particle::rows_hold_the_vectors(replaced@);
        }
        let h = leap_frog_half_step(self.delta_t, &o[1], &replaced[2]);
        let mut kept = replaced;
        kept[1] = h;
        proof {
            let was = particle@.with_stack(crate::particle::rows(replaced@));
            assert(h@ =~= half_step(self.time_step(), was, DIM as nat));
            assert(crate::particle::rows(kept@) =~= crate::particle::rows(replaced@).update(1, h@));
        }
        kept
    }
}

/// Velocity Verlet: the position one step later.
pub open spec fn velocity_verlet_position<S: Scalar>(dt: S, r: S, v: S, a: S) -> S {
    r.sum(dt.product(v).sum(dt.product(dt).product(a)))
}

/// Velocity Verlet: the velocity one step later, from the stored acceleration
/// `a` and the acceleration `b` that the model gives at the present state.
pub open spec fn velocity_verlet_velocity<S: Scalar>(dt: S, v: S, a: S, b: S) -> S {
    v.sum(dt.quotient(S::of_int(2)).product(a.sum(b)))
}

/// The velocity Verlet step: the acceleration is asked for first, at the
/// present state, and position and velocity are advanced with it.
pub open spec fn velocity_verlet_step<S: Scalar, M: Acceleration<S, DIM>, const DIM: usize>(
    model: M,
    dt: S,
    p: ParticleView<S>,
    others: Seq<ParticleView<S>>,
) -> Seq<Seq<S>> {
    let b = model.acceleration(p.at(p.stack[0], p.stack[1], p.stack[2]), others);
    let r = Seq::new(
        DIM as nat,
        |i: int| velocity_verlet_position(dt, p.stack[0][i], p.stack[1][i], p.stack[2][i]),
    );
    let v = Seq::new(
        DIM as nat,
        |i: int| velocity_verlet_velocity(dt, p.stack[1][i], p.stack[2][i], b[i]),
    );
    p.stack.update(0, r).update(1, v).update(2, b)
}

/// Computes [`velocity_verlet_step`].
fn velocity_verlet_calculate<S: Scalar, M: Acceleration<S, DIM>, const DIM: usize>(
    model: &M,
    dt: S,
    particle: &Particle<S, DIM>,
    others: &[Particle<S, DIM>],
) -> (out: Vec<[S; DIM]>)
    requires
        particle@.wf(DIM as nat),
        crate::particle::all_wf(crate::particle::views(others@), DIM as nat),
    ensures
        crate::particle::rows(out@) == velocity_verlet_step::<S, M, DIM>(
            *model,
            dt,
            particle@,
            crate::particle::views(others@),
        ),
        out@.len() == particle@.stack.len(),
{
    let d = particle.derivatives();
    let ghost st = particle@.stack;
    proof {
        crate::particle::rows_hold_the_vectors(d@);
    }
    let at = probe(particle, d[0], d[1]);
    let b = model.accelerate(&at, others);
    let square = dt.times(dt);
    let half = dt.over(S::from_int(2));
    let mut r = d[0];
    let mut v = d[1];
    let mut i: usize = 0;
    while i < DIM
        invariant
            i <= DIM,
            d@.len() >= 3,
            st[0] == d@[0]@ && st[1] == d@[1]@ && st[2] == d@[2]@,
            square == dt.product(dt),
            half == dt.quotient(S::of_int(2)),
            forall|j: int|
                0 <= j < i ==> r@[j] == velocity_verlet_position(dt, st[0][j], st[1][j], st[2][j]),
            forall|j: int|
                0 <= j < i ==> v@[j] == velocity_verlet_velocity(dt, st[1][j], st[2][j], b@[j]),
        decreases DIM - i,
    {
        r[i] = d[0][i].plus(dt.times(d[1][i]).plus(square.times(d[2][i])));
        v[i] = d[1][i].plus(half.times(d[2][i].plus(b[i])));
        i += 1;
    }
    assert(r@ =~= Seq::new(
        DIM as nat,
        |i: int| velocity_verlet_position(dt, st[0][i], st[1][i], st[2][i]),
    ));
    assert(v@ =~= Seq::new(
        DIM as nat,
        |i: int| velocity_verlet_velocity(dt, st[1][i], st[2][i], b@[i]),
    ));
    assemble(particle, r, v, b)
}

/// The velocity Verlet scheme.
pub struct VelocityVerlet<S, M> {
    acceleration_function: M,
    delta_t: S,
}

impl<S: Scalar, M> VelocityVerlet<S, M> {
    /// The acceleration model of the scheme.
    pub closed spec fn model(&self) -> M {
        self.acceleration_function
    }

    /// The time step of the scheme.
    pub closed spec fn time_step(&self) -> S {
        self.delta_t
    }

    pub fn new(acceleration_function: M, delta_t: S) -> (out: Self)
        ensures
            out.model() == acceleration_function,
            out.time_step() == delta_t,
    {
        Self { acceleration_function, delta_t }
    }
}

impl<S: Scalar, M: Acceleration<S, DIM>, const DIM: usize> IntegrationMethod<S, DIM>
    for VelocityVerlet<S, M> {
    open spec fn order(&self) -> nat {
        3
    }

    open spec fn step(&self, particle: ParticleView<S>, others: Seq<ParticleView<S>>) -> Seq<
        Seq<S>,
    > {
        velocity_verlet_step::<S, M, DIM>(self.model(), self.time_step(), particle, others)
    }

    open spec fn history(&self, particle: ParticleView<S>, stack: Seq<Seq<S>>) -> Seq<Seq<S>> {
        particle.stack
    }

    fn calculate_step(&self, particle: &Particle<S, DIM>, others: &[Particle<S, DIM>]) -> (out:
        Vec<[S; DIM]>) {
        velocity_verlet_calculate(&self.acceleration_function, self.delta_t, particle, others)
    }

    fn retire(&self, particle: &Particle<S, DIM>, replaced: Vec<[S; DIM]>) -> (kept: Vec<
        [S; DIM],
    >) {
        replaced
    }
}

/// Beeman: the position one step later, from the acceleration `a` and the
/// acceleration `b` of one step before.
pub open spec fn beeman_position<S: Scalar>(dt: S, r: S, v: S, a: S, b: S) -> S {
    let square = dt.product(dt);
    r.sum(
        v.product(dt).sum(crate::scalar::ratio::<S>(2, 3).product(a).product(square)).difference(
            crate::scalar::ratio::<S>(1, 6).product(b).product(square),
        ),
    )
}

/// Beeman: the velocity one step later, from the acceleration `n` that the
/// model gives at the advanced position, the stored acceleration `a` and the
/// acceleration `b` of one step before.
pub open spec fn beeman_velocity<S: Scalar>(dt: S, v: S, n: S, a: S, b: S) -> S {
    v.sum(
        crate::scalar::ratio::<S>(1, 3).product(n).product(dt).sum(
            crate::scalar::ratio::<S>(5, 6).product(a).product(dt),
        ).difference(crate::scalar::ratio::<S>(1, 6).product(b).product(dt)),
    )
}

/// The Beeman step. The position is advanced first; the model is then asked
/// for the acceleration of the particle at the advanced position, with the
/// velocity it still has; that acceleration enters the velocity and is the one
/// the step stores.
pub open spec fn beeman_step<S: Scalar, M: Acceleration<S, DIM>, const DIM: usize>(
    model: M,
    dt: S,
    p: ParticleView<S>,
    others: Seq<ParticleView<S>>,
) -> Seq<Seq<S>> {
    let r = Seq::new(
        DIM as nat,
        |i: int| beeman_position(dt, p.stack[0][i], p.stack[1][i], p.stack[2][i], p.prev[2][i]),
    );
    let n = model.acceleration(p.at(r, p.stack[1], p.stack[2]), others);
    let v = Seq::new(
        DIM as nat,
        |i: int| beeman_velocity(dt, p.stack[1][i], n[i], p.stack[2][i], p.prev[2][i]),
    );
    p.stack.update(0, r).update(1, v).update(2, n)
}

/// Computes [`beeman_step`].
fn beeman_calculate<S: Scalar, M: Acceleration<S, DIM>, const DIM: usize>(
    model: &M,
    dt: S,
    particle: &Particle<S, DIM>,
    others: &[Particle<S, DIM>],
) -> (out: Vec<[S; DIM]>)
    requires
        particle@.wf(DIM as nat),
        crate::particle::all_wf(crate::particle::views(others@), DIM as nat),
    ensures
        crate::particle::rows(out@) == beeman_step::<S, M, DIM>(
            *model,
            dt,
            particle@,
            crate::particle::views(others@),
        ),
        out@.len() == particle@.stack.len(),
{
    let d = particle.derivatives();
    let ghost st = particle@.stack;
    let o = particle.prev_derivatives();
    let ghost pv = particle@.prev;
    proof {
        crate::particle::rows_hold_the_vectors(d@);
        crate::particle::rows_hold_the_vectors(o@);
    }
    let square = dt.times(dt);
    let two_thirds = fraction::<S>(2, 3);
    let sixth = fraction::<S>(1, 6);
    let third = fraction::<S>(1, 3);
    let five_sixths = fraction::<S>(5, 6);
    let mut r = d[0];
    let mut i: usize = 0;
    while i < DIM
        invariant
            i <= DIM,
            d@.len() >= 3,
            o@.len() >= 3,
            st[0] == d@[0]@ && st[1] == d@[1]@ && st[2] == d@[2]@,
            pv[2] == o@[2]@,
            square == dt.product(dt),
            two_thirds == crate::scalar::ratio::<S>(2, 3),
            sixth == crate::scalar::ratio::<S>(1, 6),
            forall|j: int|
                0 <= j < i ==> r@[j] == beeman_position(dt, st[0][j], st[1][j], st[2][j], pv[2][j]),
        decreases DIM - i,
    {
        r[i] = d[0][i].plus(
            d[1][i].times(dt).plus(two_thirds.times(d[2][i]).times(square)).minus(
                sixth.times(o[2][i]).times(square),
            ),
        );
        i += 1;
    }
    assert(r@ =~= Seq::new(
        DIM as nat,
        |i: int| beeman_position(dt, st[0][i], st[1][i], st[2][i], pv[2][i]),
    ));
    let at = probe(particle, r, d[1]);
    let n = model.accelerate(&at, others);
    let mut v = d[1];
    let mut i: usize = 0;
    while i < DIM
        invariant
            i <= DIM,
            d@.len() >= 3,
            o@.len() >= 3,
            st[1] == d@[1]@ && st[2] == d@[2]@,
            pv[2] == o@[2]@,
            sixth == crate::scalar::ratio::<S>(1, 6),
            third == crate::scalar::ratio::<S>(1, 3),
            five_sixths == crate::scalar::ratio::<S>(5, 6),
            forall|j: int|
                0 <= j < i ==> v@[j] == beeman_velocity(dt, st[1][j], n@[j], st[2][j], pv[2][j]),
        decreases DIM - i,
    {
        v[i] = d[1][i].plus(
            third.times(n[i]).times(dt).plus(five_sixths.times(d[2][i]).times(dt)).minus(
                sixth.times(o[2][i]).times(dt),
            ),
        );
        i += 1;
    }
    assert(v@ =~= Seq::new(
        DIM as nat,
        |i: int| beeman_velocity(dt, st[1][i], n@[i], st[2][i], pv[2][i]),
    ));
    assemble(particle, r, v, n)
}

/// The Beeman scheme.
pub struct Beeman<S, M> {
    acceleration_function: M,
    delta_t: S,
}

impl<S: Scalar, M> Beeman<S, M> {
    /// The acceleration model of the scheme.
    pub closed spec fn model(&self) -> M {
        self.acceleration_function
    }

    /// The time step of the scheme.
    pub closed spec fn time_step(&self) -> S {
        self.delta_t
    }

    /// Builds the scheme and gives every particle the history it needs: the
    /// previous stack of each becomes one Euler step of `-delta_t` from its
    /// present state, all computed from the state the particles come in.
    pub fn new<const DIM: usize>(
        acceleration_function: M,
        particles_to_init: &mut [Particle<S, DIM>],
        delta_t: S,
    ) -> (out: Self) where M: Acceleration<S, DIM>
        requires
            crate::particle::all_wf(crate::particle::views(old(particles_to_init)@), DIM as nat),
        ensures
            out.model() == acceleration_function,
            out.time_step() == delta_t,
            final(particles_to_init)@.len() == old(particles_to_init)@.len(),
            forall|k: int|
                0 <= k < old(particles_to_init)@.len() ==> (#[trigger] final(particles_to_init)@[k])@
                    == old(particles_to_init)@[k]@.with_prev(
                    euler_step::<S, M, DIM>(
                        acceleration_function,
                        delta_t.negation(),
                        old(particles_to_init)@[k]@,
                        crate::particle::views(old(particles_to_init)@),
                    ),
                ),
            crate::particle::all_wf(crate::particle::views(final(particles_to_init)@), DIM as nat),
    {
        bootstrap(&acceleration_function, delta_t.negated(), particles_to_init);
        Self { acceleration_function, delta_t }
    }
}

impl<S: Scalar, M: Acceleration<S, DIM>, const DIM: usize> IntegrationMethod<S, DIM>
    for Beeman<S, M> {
    open spec fn order(&self) -> nat {
        3
    }

    open spec fn step(&self, particle: ParticleView<S>, others: Seq<ParticleView<S>>) -> Seq<
        Seq<S>,
    > {
        beeman_step::<S, M, DIM>(self.model(), self.time_step(), particle, others)
    }

    open spec fn history(&self, particle: ParticleView<S>, stack: Seq<Seq<S>>) -> Seq<Seq<S>> {
        particle.stack
    }

    fn calculate_step(&self, particle: &Particle<S, DIM>, others: &[Particle<S, DIM>]) -> (out:
        Vec<[S; DIM]>) {
        beeman_calculate(&self.acceleration_function, self.delta_t, particle, others)
    }

    fn retire(&self, particle: &Particle<S, DIM>, replaced: Vec<[S; DIM]>) -> (kept: Vec<
        [S; DIM],
    >) {
        replaced
    }
}

/// Predictor-corrector: `x` advanced by one step at the rate `y`.
pub open spec fn drift<S: Scalar>(dt: S, x: S, y: S) -> S {
    x.sum(y.product(dt))
}

/// The Euler predictor-corrector step: position and velocity are predicted
/// with the present rates, the model gives the acceleration at the predicted
/// state, and with it the velocity and then the position are advanced again
/// from the present state.
pub open spec fn euler_predictor_corrector_step<
    S: Scalar,
    M: Acceleration<S, DIM>,
    const DIM: usize,
>(model: M, dt: S, p: ParticleView<S>, others: Seq<ParticleView<S>>) -> Seq<Seq<S>> {
    let predicted_v = Seq::new(DIM as nat, |i: int| drift(dt, p.stack[1][i], p.stack[2][i]));
    let predicted_r = Seq::new(DIM as nat, |i: int| drift(dt, p.stack[0][i], p.stack[1][i]));
    let a = model.acceleration(p.at(predicted_r, predicted_v, p.stack[2]), others);
    let v = Seq::new(DIM as nat, |i: int| drift(dt, p.stack[1][i], a[i]));
    let r = Seq::new(DIM as nat, |i: int| drift(dt, p.stack[0][i], v[i]));
    p.stack.update(0, r).update(1, v).update(2, a)
}

/// Computes [`euler_predictor_corrector_step`].
fn euler_predictor_corrector_calculate<S: Scalar, M: Acceleration<S, DIM>, const DIM: usize>(
    model: &M,
    dt: S,
    particle: &Particle<S, DIM>,
    others: &[Particle<S, DIM>],
) -> (out: Vec<[S; DIM]>)
    requires
        particle@.wf(DIM as nat),
        crate::particle::all_wf(crate::particle::views(others@), DIM as nat),
    ensures
        crate::particle::rows(out@) == euler_predictor_corrector_step::<S, M, DIM>(
            *model,
            dt,
            particle@,
            crate::particle::views(others@),
        ),
        out@.len() == particle@.stack.len(),
{
    let d = particle.derivatives();
    let ghost st = particle@.stack;
    proof {
        crate::particle::rows_hold_the_vectors(d@);
    }
    let mut r = d[0];
    let mut v = d[1];
    let mut i: usize = 0;
    while i < DIM
        invariant
            i <= DIM,
            d@.len() >= 3,
            st[0] == d@[0]@ && st[1] == d@[1]@ && st[2] == d@[2]@,
            forall|j: int| 0 <= j < i ==> v@[j] == drift(dt, st[1][j], st[2][j]),
            forall|j: int| 0 <= j < i ==> r@[j] == drift(dt, st[0][j], st[1][j]),
        decreases DIM - i,
    {
        v[i] = d[1][i].plus(d[2][i].times(dt));
        r[i] = d[0][i].plus(d[1][i].times(dt));
        i += 1;
    }
    assert(v@ =~= Seq::new(DIM as nat, |i: int| drift(dt, st[1][i], st[2][i])));
    assert(r@ =~= Seq::new(DIM as nat, |i: int| drift(dt, st[0][i], st[1][i])));
    let at = probe(particle, r, v);
    let a = model.accelerate(&at, others);
    let mut i: usize = 0;
    while i < DIM
        invariant
            i <= DIM,
            d@.len() >= 3,
            st[0] == d@[0]@ && st[1] == d@[1]@ && st[2] == d@[2]@,
            forall|j: int| 0 <= j < i ==> v@[j] == drift(dt, st[1][j], a@[j]),
            forall|j: int| 0 <= j < i ==> r@[j] == drift(dt, st[0][j], v@[j]),
        decreases DIM - i,
    {
        v[i] = d[1][i].plus(a[i].times(dt));
        r[i] = d[0][i].plus(v[i].times(dt));
        i += 1;
    }
    let ghost vs = Seq::new(DIM as nat, |i: int| drift(dt, st[1][i], a@[i]));
    assert(v@ =~= vs);
    assert(r@ =~= Seq::new(DIM as nat, |i: int| drift(dt, st[0][i], vs[i])));
    assemble(particle, r, v, a)
}

/// The Euler predictor-corrector scheme.
pub struct EulerPredictorCorrector<S, M> {
    acceleration_function: M,
    delta_t: S,
}

impl<S: Scalar, M> EulerPredictorCorrector<S, M> {
    /// The acceleration model of the scheme.
    pub closed spec fn model(&self) -> M {
        self.acceleration_function
    }

    /// The time step of the scheme.
    pub closed spec fn time_step(&self) -> S {
        self.delta_t
    }

    pub fn new(acceleration_function: M, delta_t: S) -> (out: Self)
        ensures
            out.model() == acceleration_function,
            out.time_step() == delta_t,
    {
        Self { acceleration_function, delta_t }
    }
}

impl<S: Scalar, M: Acceleration<S, DIM>, const DIM: usize> IntegrationMethod<S, DIM>
    for EulerPredictorCorrector<S, M> {
    open spec fn order(&self) -> nat {
        3
    }

    open spec fn step(&self, particle: ParticleView<S>, others: Seq<ParticleView<S>>) -> Seq<
        Seq<S>,
    > {
        euler_predictor_corrector_step::<S, M, DIM>(
            self.model(),
            self.time_step(),
            particle,
            others,
        )
    }

    open spec fn history(&self, particle: ParticleView<S>, stack: Seq<Seq<S>>) -> Seq<Seq<S>> {
        particle.stack
    }

    fn calculate_step(&self, particle: &Particle<S, DIM>, others: &[Particle<S, DIM>]) -> (out:
        Vec<[S; DIM]>) {
        euler_predictor_corrector_calculate(
            &self.acceleration_function,
            self.delta_t,
            particle,
            others,
        )
    }

    fn retire(&self, particle: &Particle<S, DIM>, replaced: Vec<[S; DIM]>) -> (kept: Vec<
        [S; DIM],
    >) {
        replaced
    }
}

/// `x` raised to the power `n`, for `n` from 1 on, by repeated multiplication
/// from the left.
pub open spec fn power<S: Scalar>(x: S, n: nat) -> S
    decreases n,
{
    if n <= 1 {
        x
    } else {
        power(x, (n - 1) as nat).product(x)
    }
}

/// Gear: the weight of the term of order `n` in a Taylor expansion over `dt`,
/// for `n` from 2 to 5: `dt` to the power `n`, over `n` factorial.
pub open spec fn taylor_weight<S: Scalar>(dt: S, n: nat) -> S {
    let over_factorial = if n == 2 {
        crate::scalar::ratio::<S>(1, 2)
    } else if n == 3 {
        crate::scalar::ratio::<S>(1, 6)
    } else if n == 4 {
        crate::scalar::ratio::<S>(1, 24)
    } else {
        crate::scalar::ratio::<S>(1, 120)
    };
    over_factorial.product(power(dt, n))
}

/// Gear: the first `n` terms, for `n` from 1 on, that a Taylor expansion over
/// `dt` adds to the derivative of order `k`, where `d` holds the derivatives of
/// one coordinate by their order.
pub open spec fn taylor_terms<S: Scalar>(dt: S, d: Seq<S>, k: int, n: nat) -> S
    decreases n,
{
    if n <= 1 {
        d[k + 1].product(dt)
    } else {
        taylor_terms(dt, d, k, (n - 1) as nat).sum(taylor_weight(dt, n).product(d[k + n]))
    }
}

/// Gear: the predicted derivative of order `k`, from 0 to 5: the Taylor
/// expansion over `dt` that uses every higher order up to the fifth.
pub open spec fn gear_predicted<S: Scalar>(dt: S, d: Seq<S>, k: int) -> S {
    if k >= 5 {
        d[5]
    } else {
        d[k].sum(taylor_terms(dt, d, k, (5 - k) as nat))
    }
}

/// Gear: the coefficient with which the corrector weighs the derivative of
/// order `k`, from 0 to 5.
pub open spec fn gear_coefficient<S: Scalar>(k: int, depends_on_velocity: bool) -> S {
    if k == 0 {
        if depends_on_velocity {
            crate::scalar::ratio::<S>(3, 16)
        } else {
            crate::scalar::ratio::<S>(3, 20)
        }
    } else if k == 1 {
        crate::scalar::ratio::<S>(251, 360)
    } else if k == 2 {
        S::of_int(2)
    } else if k == 3 {
        crate::scalar::ratio::<S>(11, 3)
    } else if k == 4 {
        S::of_int(4)
    } else {
        S::of_int(2)
    }
}

/// Gear: the difference `gap` between the acceleration `a` of the model and the
/// predicted acceleration `b`, scaled by half the squared time step.
pub open spec fn gear_gap<S: Scalar>(dt: S, a: S, b: S) -> S {
    a.difference(b).product(power(dt, 2)).quotient(S::of_int(2))
}

/// Gear: what the corrector adds to the predicted derivative of order `k`.
pub open spec fn gear_correction<S: Scalar>(dt: S, k: int, depends_on_velocity: bool, gap: S) -> S {
    let weighed = gear_coefficient::<S>(k, depends_on_velocity).product(gap);
    if k == 0 {
        weighed
    } else {
        weighed.quotient(power(dt, k as nat))
    }
}

/// The derivatives of the coordinate `i`, by their order.
pub open spec fn column<S>(stack: Seq<Seq<S>>, i: int) -> Seq<S> {
    Seq::new(stack.len(), |k: int| stack[k][i])
}

/// Gear: the predicted vector of order `k`.
pub open spec fn gear_prediction<S: Scalar>(dt: S, stack: Seq<Seq<S>>, k: int, dim: nat) -> Seq<S> {
    Seq::new(dim, |i: int| gear_predicted(dt, column(stack, i), k))
}

/// The fifth-order Gear predictor-corrector step: every derivative is
/// predicted by its Taylor expansion, the model gives the acceleration at the
/// predicted state, and every derivative is corrected in proportion to the gap
/// between that acceleration and the predicted one. Derivatives beyond the
/// fifth, should the particle hold any, are left as they are.
pub open spec fn gear_step<S: Scalar, M: Acceleration<S, DIM>, const DIM: usize>(
    model: M,
    depends_on_velocity: bool,
    dt: S,
    p: ParticleView<S>,
    others: Seq<ParticleView<S>>,
) -> Seq<Seq<S>> {
    let a = model.acceleration(
        p.at(
            gear_prediction(dt, p.stack, 0, DIM as nat),
            gear_prediction(dt, p.stack, 1, DIM as nat),
            gear_prediction(dt, p.stack, 2, DIM as nat),
        ),
        others,
    );
    Seq::new(
        p.stack.len(),
        |k: int|
            if k < 6 {
                Seq::new(
                    DIM as nat,
                    |i: int|
                        gear_predicted(dt, column(p.stack, i), k).sum(
                            gear_correction(
                                dt,
                                k,
                                depends_on_velocity,
                                gear_gap(dt, a[i], gear_predicted(dt, column(p.stack, i), 2)),
                            ),
                        ),
                )
            } else {
                p.stack[k]
            },
    )
}

/// Computes [`gear_step`].
fn gear_calculate<S: Scalar, M: Acceleration<S, DIM>, const DIM: usize>(
    model: &M,
    depends_on_velocity: bool,
    dt: S,
    particle: &Particle<S, DIM>,
    others: &[Particle<S, DIM>],
) -> (out: Vec<[S; DIM]>)
    requires
        particle@.wf(DIM as nat),
        particle@.stack.len() >= 6,
        crate::particle::all_wf(crate::particle::views(others@), DIM as nat),
    ensures
        crate::particle::rows(out@) == gear_step::<S, M, DIM>(
            *model,
            depends_on_velocity,
            dt,
            particle@,
            crate::particle::views(others@),
        ),
        out@.len() == particle@.stack.len(),
{
    let d = particle.derivatives();
    let ghost st = particle@.stack;
    proof {
        crate::particle::rows_hold_the_vectors(d@);
    }
    let dt2 = dt.times(dt);
    let dt3 = dt2.times(dt);
    let dt4 = dt3.times(dt);
    let dt5 = dt4.times(dt);
    let w2 = fraction::<S>(1, 2).times(dt2);
    let w3 = fraction::<S>(1, 6).times(dt3);
    let w4 = fraction::<S>(1, 24).times(dt4);
    let w5 = fraction::<S>(1, 120).times(dt5);
    proof {
        reveal_with_fuel(power, 6);
        assert(dt2 == power(dt, 2) && dt3 == power(dt, 3) && dt4 == power(dt, 4) && dt5 == power(
            dt,
            5,
        ));
        assert(w2 == taylor_weight(dt, 2) && w3 == taylor_weight(dt, 3) && w4 == taylor_weight(dt, 4)
            && w5 == taylor_weight(dt, 5));
    }
    let mut n0 = d[0];
    let mut n1 = d[1];
    let mut n2 = d[2];
    let mut n3 = d[3];
    let mut n4 = d[4];
    let mut i: usize = 0;
    while i < DIM
        invariant
            i <= DIM,
            d@.len() >= 6,
            st == particle@.stack,
            st.len() == d@.len(),
            forall|k: int| 0 <= k < d@.len() ==> st[k] == (#[trigger] d@[k])@,
            dt2 == power(dt, 2) && dt3 == power(dt, 3) && dt4 == power(dt, 4) && dt5 == power(dt, 5),
            w2 == taylor_weight(dt, 2) && w3 == taylor_weight(dt, 3) && w4 == taylor_weight(dt, 4)
                && w5 == taylor_weight(dt, 5),
            forall|j: int| 0 <= j < i ==> n0@[j] == gear_predicted(dt, column(st, j), 0),
            forall|j: int| 0 <= j < i ==> n1@[j] == gear_predicted(dt, column(st, j), 1),
            forall|j: int| 0 <= j < i ==> n2@[j] == gear_predicted(dt, column(st, j), 2),
            forall|j: int| 0 <= j < i ==> n3@[j] == gear_predicted(dt, column(st, j), 3),
            forall|j: int| 0 <= j < i ==> n4@[j] == gear_predicted(dt, column(st, j), 4),
        decreases DIM - i,
    {
        n0[i] = d[0][i].plus(
            d[1][i].times(dt).plus(w2.times(d[2][i])).plus(w3.times(d[3][i])).plus(
                w4.times(d[4][i]),
            ).plus(w5.times(d[5][i])),
        );
        n1[i] = d[1][i].plus(
            d[2][i].times(dt).plus(w2.times(d[3][i])).plus(w3.times(d[4][i])).plus(
                w4.times(d[5][i]),
            ),
        );
        n2[i] = d[2][i].plus(d[3][i].times(dt).plus(w2.times(d[4][i])).plus(w3.times(d[5][i])));
        n3[i] = d[3][i].plus(d[4][i].times(dt).plus(w2.times(d[5][i])));
        n4[i] = d[4][i].plus(d[5][i].times(dt));
        proof {
            reveal_with_fuel(taylor_terms, 6);
            let c = column(st, i as int);
            assert(c[0] == d@[0]@[i as int] && c[1] == d@[1]@[i as int] && c[2] == d@[2]@[i as int]
                && c[3] == d@[3]@[i as int] && c[4] == d@[4]@[i as int] && c[5] == d@[5]@[i as int]);
        }
        i += 1;
    }
    let ghost predicted_r = gear_prediction(dt, st, 0, DIM as nat);
    let ghost predicted_v = gear_prediction(dt, st, 1, DIM as nat);
    let ghost predicted_a = gear_prediction(dt, st, 2, DIM as nat);
    assert(n0@ =~= predicted_r && n1@ =~= predicted_v && n2@ =~= predicted_a);
    let at = Particle::new(particle.id(), n0, n1, n2, particle.radius(), particle.mass());
    assert(at@ == particle@.at(predicted_r, predicted_v, predicted_a));
    let a = model.accelerate(&at, others);
    let two = S::from_int(2);
    let alpha = if depends_on_velocity {
        fraction::<S>(3, 16)
    } else {
        fraction::<S>(3, 20)
    };
    let c1 = fraction::<S>(251, 360);
    let c3 = fraction::<S>(11, 3);
    let c4 = S::from_int(4);
    let mut n5 = d[5];
    let ghost q0 = n0@;
    let ghost q1 = n1@;
    let ghost q2 = n2@;
    let ghost q3 = n3@;
    let ghost q4 = n4@;
    let ghost q5 = n5@;
    let mut i: usize = 0;
    while i < DIM
        invariant
            i <= DIM,
            d@.len() >= 6,
            st == particle@.stack,
            st.len() == d@.len(),
            forall|k: int| 0 <= k < d@.len() ==> st[k] == (#[trigger] d@[k])@,
            dt2 == power(dt, 2) && dt3 == power(dt, 3) && dt4 == power(dt, 4) && dt5 == power(dt, 5),
            two == S::of_int(2),
            alpha == gear_coefficient::<S>(0, depends_on_velocity),
            c1 == gear_coefficient::<S>(1, depends_on_velocity),
            c3 == gear_coefficient::<S>(3, depends_on_velocity),
            c4 == gear_coefficient::<S>(4, depends_on_velocity),
            q5 == d@[5]@,
            forall|j: int| 0 <= j < DIM ==> q0[j] == gear_predicted(dt, column(st, j), 0),
            forall|j: int| 0 <= j < DIM ==> q1[j] == gear_predicted(dt, column(st, j), 1),
            forall|j: int| 0 <= j < DIM ==> q2[j] == gear_predicted(dt, column(st, j), 2),
            forall|j: int| 0 <= j < DIM ==> q3[j] == gear_predicted(dt, column(st, j), 3),
            forall|j: int| 0 <= j < DIM ==> q4[j] == gear_predicted(dt, column(st, j), 4),
            forall|j: int| i <= j < DIM ==> n0@[j] == q0[j] && n1@[j] == q1[j] && n2@[j] == q2[j]
                && n3@[j] == q3[j] && n4@[j] == q4[j] && n5@[j] == q5[j],
            forall|j: int|
                0 <= j < i ==> n0@[j] == q0[j].sum(
                    gear_correction(dt, 0, depends_on_velocity, gear_gap(dt, a@[j], q2[j])),
                ),
            forall|j: int|
                0 <= j < i ==> n1@[j] == q1[j].sum(
                    gear_correction(dt, 1, depends_on_velocity, gear_gap(dt, a@[j], q2[j])),
                ),
            forall|j: int|
                0 <= j < i ==> n2@[j] == q2[j].sum(
                    gear_correction(dt, 2, depends_on_velocity, gear_gap(dt, a@[j], q2[j])),
                ),
            forall|j: int|
                0 <= j < i ==> n3@[j] == q3[j].sum(
                    gear_correction(dt, 3, depends_on_velocity, gear_gap(dt, a@[j], q2[j])),
                ),
            forall|j: int|
                0 <= j < i ==> n4@[j] == q4[j].sum(
                    gear_correction(dt, 4, depends_on_velocity, gear_gap(dt, a@[j], q2[j])),
                ),
            forall|j: int|
                0 <= j < i ==> n5@[j] == q5[j].sum(
                    gear_correction(dt, 5, depends_on_velocity, gear_gap(dt, a@[j], q2[j])),
                ),
        decreases DIM - i,
    {
        let gap = a[i].minus(n2[i]).times(dt2).over(two);
        proof {
            reveal_with_fuel(power, 2);
            assert(gap == gear_gap(dt, a@[i as int], q2[i as int]));
        }
        n0[i] = n0[i].plus(alpha.times(gap));
        n1[i] = n1[i].plus(c1.times(gap).over(dt));
        n2[i] = n2[i].plus(two.times(gap).over(dt2));
        n3[i] = n3[i].plus(c3.times(gap).over(dt3));
        n4[i] = n4[i].plus(c4.times(gap).over(dt4));
        n5[i] = n5[i].plus(two.times(gap).over(dt5));
        i += 1;
    }
    let mut out = particle.cloned_derivatives();
    assert(crate::particle::rows(out@).len() == out@.len());
    out[0] = n0;
    out[1] = n1;
    out[2] = n2;
    out[3] = n3;
    out[4] = n4;
    out[5] = n5;
    proof {
        let want = gear_step::<S, M, DIM>(
            *model,
            depends_on_velocity,
            dt,
            particle@,
            crate::particle::views(others@),
        );
        let got = crate::particle::rows(out@);
        assert(got.len() == want.len());
        assert forall|k: int| 0 <= k < got.len() implies got[k] == want[k] by {
            if k < 6 {
                assert forall|j: int| 0 <= j < DIM implies q5[j] == gear_predicted(
                    dt,
                    column(st, j),
                    5,
                ) by {
                    assert(column(st, j)[5] == st[5][j]);
                }
                assert(got[k] =~= want[k]);
            } else {
                assert(got[k] == st[k]);
            }
        }
        assert(got =~= want);
    }
    out
}

/// A particle with the higher derivatives `more` appended to its stack, and
/// with the stack so grown as its previous stack too.
pub open spec fn grown<S>(p: ParticleView<S>, more: Seq<Seq<S>>) -> ParticleView<S> {
    p.with_stack(p.stack + more).with_prev(p.stack + more)
}

/// The fifth-order Gear predictor-corrector scheme.
pub struct GearPredictorCorrector<S, M> {
    acceleration_function: M,
    acceleration_function_depends_on_velocity: bool,
    delta_t: S,
}

impl<S: Scalar, M> GearPredictorCorrector<S, M> {
    /// The acceleration model of the scheme.
    pub closed spec fn model(&self) -> M {
        self.acceleration_function
    }

    /// Whether the acceleration model reads the velocity.
    pub closed spec fn depends_on_velocity(&self) -> bool {
        self.acceleration_function_depends_on_velocity
    }

    /// The time step of the scheme.
    pub closed spec fn time_step(&self) -> S {
        self.delta_t
    }

    /// Builds the scheme and appends to the stack of each particle the higher
    /// derivatives given for it, in their order: `derivatives[k]` goes to
    /// `particles_to_init[k]`. The previous stack of each particle becomes the
    /// stack so grown, so that both have one length.
    pub fn new<const DIM: usize>(
        acceleration_function: M,
        acceleration_function_depends_on_velocity: bool,
        particles_to_init: &mut [Particle<S, DIM>],
        derivatives: &Vec<Vec<[S; DIM]>>,
        delta_t: S,
    ) -> (out: Self)
        requires
            derivatives@.len() == old(particles_to_init)@.len(),
        ensures
            out.model() == acceleration_function,
            out.depends_on_velocity() == acceleration_function_depends_on_velocity,
            out.time_step() == delta_t,
            final(particles_to_init)@.len() == old(particles_to_init)@.len(),
            forall|k: int|
                0 <= k < old(particles_to_init)@.len() ==> (#[trigger] final(particles_to_init)@[k])@
                    == grown(
                    old(particles_to_init)@[k]@,
                    crate::particle::rows(derivatives@[k]@),
                ),
    {
        let mut i: usize = 0;
        while i < particles_to_init.len()
            invariant
                i <= particles_to_init@.len(),
                particles_to_init@.len() == old(particles_to_init)@.len(),
                derivatives@.len() == particles_to_init@.len(),
                forall|k: int|
                    i <= k < particles_to_init@.len() ==> particles_to_init@[k] == old(
                        particles_to_init,
                    )@[k],
                forall|k: int|
                    0 <= k < i ==> (#[trigger] particles_to_init@[k])@ == grown(
                        old(particles_to_init)@[k]@,
                        crate::particle::rows(derivatives@[k]@),
                    ),
            decreases particles_to_init@.len() - i,
        {
            let ghost was = particles_to_init@[i as int]@;
            let more = &derivatives[i];
            let mut j: usize = 0;
            while j < more.len()
                invariant
                    j <= more@.len(),
                    i < particles_to_init@.len(),
                    particles_to_init@.len() == old(particles_to_init)@.len(),
                    was == old(particles_to_init)@[i as int]@,
                    more@ == derivatives@[i as int]@,
                    forall|k: int|
                        i < k < particles_to_init@.len() ==> particles_to_init@[k] == old(
                            particles_to_init,
                        )@[k],
                    forall|k: int|
                        0 <= k < i ==> (#[trigger] particles_to_init@[k])@ == grown(
                            old(particles_to_init)@[k]@,
                            crate::particle::rows(derivatives@[k]@),
                        ),
                    particles_to_init@[i as int]@ == was.with_stack(
                        was.stack + crate::particle::rows(more@.subrange(0, j as int)),
                    ),
                decreases more@.len() - j,
            {
                particles_to_init[i].add_derivative(more[j]);
                assert(was.stack + crate::particle::rows(more@.subrange(0, j + 1)) =~= (was.stack
                    + crate::particle::rows(more@.subrange(0, j as int))).push(more@[j as int]@));
                j += 1;
            }
            assert(more@.subrange(0, j as int) =~= more@);
            let history = particles_to_init[i].cloned_derivatives();
            particles_to_init[i].set_prev_derivatives(history);
            i += 1;
        }
        Self { acceleration_function, acceleration_function_depends_on_velocity, delta_t }
    }
}

impl<S: Scalar, M: Acceleration<S, DIM>, const DIM: usize> IntegrationMethod<
    S,
    DIM,
> for GearPredictorCorrector<S, M> {
    open spec fn order(&self) -> nat {
        6
    }

    open spec fn step(&self, particle: ParticleView<S>, others: Seq<ParticleView<S>>) -> Seq<
        Seq<S>,
    > {
        gear_step::<S, M, DIM>(
            self.model(),
            self.depends_on_velocity(),
            self.time_step(),
            particle,
            others,
        )
    }

    open spec fn history(&self, particle: ParticleView<S>, stack: Seq<Seq<S>>) -> Seq<Seq<S>> {
        particle.stack
    }

    fn calculate_step(&self, particle: &Particle<S, DIM>, others: &[Particle<S, DIM>]) -> (out:
        Vec<[S; DIM]>) {
        gear_calculate(
            &self.acceleration_function,
            self.acceleration_function_depends_on_velocity,
            self.delta_t,
            particle,
            others,
        )
    }

    fn retire(&self, particle: &Particle<S, DIM>, replaced: Vec<[S; DIM]>) -> (kept: Vec<
        [S; DIM],
    >) {
        replaced
    }
}

} // verus!
