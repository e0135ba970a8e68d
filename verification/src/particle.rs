//! The state of one point particle.

use crate::scalar::Scalar;
use vstd::prelude::*;

verus! {

/// What a particle is to the contracts of the engine.
///
/// `stack` holds the time derivatives of the position, lowest order first:
/// position, velocity, acceleration and, for the Gear scheme, three more.
/// `prev` holds the stack of one step before. Each entry of either is a vector
/// with one component for each spatial dimension.
pub struct ParticleView<S> {
    pub id: usize,
    pub stack: Seq<Seq<S>>,
    pub prev: Seq<Seq<S>>,
    pub radius: S,
    pub mass: S,
}

impl<S> ParticleView<S> {
    /// Both stacks reach up to the acceleration at least, and every vector in
    /// them has `dim` components.
    pub open spec fn wf(self, dim: nat) -> bool {
        &&& self.stack.len() >= 3
        &&& self.prev.len() >= 3
        &&& forall|k: int| 0 <= k < self.stack.len() ==> (#[trigger] self.stack[k]).len() == dim
        &&& forall|k: int| 0 <= k < self.prev.len() ==> (#[trigger] self.prev[k]).len() == dim
    }

    /// The particle with the same identity, radius and mass whose present and
    /// previous stack are both `[r, v, a]`.
    pub open spec fn at(self, r: Seq<S>, v: Seq<S>, a: Seq<S>) -> Self {
        ParticleView { stack: seq![r, v, a], prev: seq![r, v, a], ..self }
    }

    /// This particle with `stack` as its present stack.
    pub open spec fn with_stack(self, stack: Seq<Seq<S>>) -> Self {
        ParticleView { stack, ..self }
    }

    /// This particle with `prev` as its previous stack.
    pub open spec fn with_prev(self, prev: Seq<Seq<S>>) -> Self {
        ParticleView { prev, ..self }
    }
}

/// The vectors of a stack as sequences.
pub open spec fn rows<S, const DIM: usize>(stack: Seq<[S; DIM]>) -> Seq<Seq<S>> {
    Seq::new(stack.len(), |k: int| stack[k]@)
}

/// Each row of a stack is the view of the vector in its place.
pub proof fn rows_hold_the_vectors<S, const DIM: usize>(stack: Seq<[S; DIM]>)
    ensures
        rows(stack).len() == stack.len(),
        forall|k: int| 0 <= k < stack.len() ==> rows(stack)[k] == (#[trigger] stack[k])@,
{
}

/// The views of a collection of particles.
pub open spec fn views<S, const DIM: usize>(particles: Seq<Particle<S, DIM>>) -> Seq<
    ParticleView<S>,
> {
    Seq::new(particles.len(), |k: int| particles[k]@)
}

/// Whether every particle of a collection is well formed.
pub open spec fn all_wf<S>(particles: Seq<ParticleView<S>>, dim: nat) -> bool {
    forall|k: int| 0 <= k < particles.len() ==> (#[trigger] particles[k]).wf(dim)
}

/// The Euclidean distance between the points `a` and `b`.
pub open spec fn distance<S: Scalar>(a: Seq<S>, b: Seq<S>) -> S {
    crate::scalar::norm(crate::scalar::offset(a, b))
}

/// Computes [`distance`].
pub fn separation<S: Scalar, const DIM: usize>(a: &[S; DIM], b: &[S; DIM]) -> (out: S)
    ensures
        out == distance(a@, b@),
{
    let ghost d = crate::scalar::offset(a@, b@);
    let mut total = S::from_int(0);
    let mut i: usize = 0;
    while i < DIM
        invariant
            i <= DIM,
            d == crate::scalar::offset(a@, b@),
            total == crate::scalar::sum_of_squares(d, i as nat),
        decreases DIM - i,
    {
        let gap = a[i].minus(b[i]);
        total = total.plus(gap.times(gap));
        i += 1;
    }
    total.root()
}

/// A point particle: its identity, its collision radius and mass, and the
/// derivative stacks of the present and of the previous step.
pub struct Particle<S, const DIM: usize> {
    id: usize,
    derivatives: Vec<[S; DIM]>,
    prev_derivatives: Vec<[S; DIM]>,
    radius: S,
    mass: S,
}

impl<S, const DIM: usize> View for Particle<S, DIM> {
    type V = ParticleView<S>;

    closed spec fn view(&self) -> ParticleView<S> {
        ParticleView {
            id: self.id,
            stack: rows(self.derivatives@),
            prev: rows(self.prev_derivatives@),
            radius: self.radius,
            mass: self.mass,
        }
    }
}

impl<S: Scalar, const DIM: usize> Particle<S, DIM> {
    /// Every vector of a particle has `DIM` components.
    pub proof fn has_dimension(&self)
        ensures
            forall|k: int| 0 <= k < self@.stack.len() ==> (#[trigger] self@.stack[k]).len() == DIM,
            forall|k: int| 0 <= k < self@.prev.len() ==> (#[trigger] self@.prev[k]).len() == DIM,
    {
    }

    /// A particle at position `r` with velocity `v` and acceleration `a`. Its
    /// previous stack starts out equal to the present one.
    #[must_use]
    pub fn new(id: usize, r: [S; DIM], v: [S; DIM], a: [S; DIM], radius: S, mass: S) -> (p: Self)
        ensures
            p@ == (ParticleView {
                id,
                stack: seq![r@, v@, a@],
                prev: seq![r@, v@, a@],
                radius,
                mass,
            }),
            p@.wf(DIM as nat),
    {
        let p = Self {
            id,
            derivatives: vec![r, v, a],
            prev_derivatives: vec![r, v, a],
            radius,
            mass,
        };
        assert(p@.stack =~= seq![r@, v@, a@]);
        assert(p@.prev =~= seq![r@, v@, a@]);
        p
    }

    #[must_use]
    pub fn id(&self) -> (out: usize)
        ensures
            out == self@.id,
    {
        self.id
    }

    #[must_use]
    pub fn radius(&self) -> (out: S)
        ensures
            out == self@.radius,
    {
        self.radius
    }

    #[must_use]
    pub fn mass(&self) -> (out: S)
        ensures
            out == self@.mass,
    {
        self.mass
    }

    /// The present derivative stack.
    #[must_use]
    pub fn derivatives(&self) -> (out: &Vec<[S; DIM]>)
        ensures
            rows(out@) == self@.stack,
    {
        &self.derivatives
    }

    /// The Euclidean distance between the positions of two particles.
    #[must_use]
    pub fn get_distance(&self, other: &Self) -> (out: S)
        requires
            self@.wf(DIM as nat),
            other@.wf(DIM as nat),
        ensures
            out == distance(self@.stack[0], other@.stack[0]),
    {
        proof {
            rows_hold_the_vectors(self.derivatives@);
            rows_hold_the_vectors(other.derivatives@);
        }
        separation(&self.derivatives[0], &other.derivatives[0])
    }

    /// The derivative stack of one step before.
    #[must_use]
    pub fn prev_derivatives(&self) -> (out: &Vec<[S; DIM]>)
        ensures
            rows(out@) == self@.prev,
    {
        &self.prev_derivatives
    }

    /// Replaces the previous stack.
    pub(crate) fn set_prev_derivatives(&mut self, derivatives: Vec<[S; DIM]>)
        ensures
            final(self)@ == old(self)@.with_prev(rows(derivatives@)),
    {
        self.prev_derivatives = derivatives;
    }

    /// Replaces the present stack and hands back the one it had.
    pub(crate) fn set_derivatives(&mut self, derivatives: Vec<[S; DIM]>) -> (replaced: Vec<
        [S; DIM],
    >)
        ensures
            final(self)@ == old(self)@.with_stack(rows(derivatives@)),
            rows(replaced@) == old(self)@.stack,
    {
        let mut derivatives = derivatives;
        std::mem::swap(&mut self.derivatives, &mut derivatives);
        derivatives
    }

    /// A copy of the present stack.
    pub(crate) fn cloned_derivatives(&self) -> (out: Vec<[S; DIM]>)
        ensures
            rows(out@) == self@.stack,
    {
        let mut out: Vec<[S; DIM]> = Vec::new();
        let mut k: usize = 0;
        while k < self.derivatives.len()
            invariant
                k <= self.derivatives.len(),
                out@ == self.derivatives@.subrange(0, k as int),
            decreases self.derivatives.len() - k,
        {
            out.push(self.derivatives[k]);
            assert(out@ =~= self.derivatives@.subrange(0, k + 1));
            k += 1;
        }
        assert(out@ =~= self.derivatives@);
        out
    }

    /// Appends one more derivative order to the present stack.
    pub(crate) fn add_derivative(&mut self, derivative: [S; DIM])
        ensures
            final(self)@ == old(self)@.with_stack(old(self)@.stack.push(derivative@)),
    {
        self.derivatives.push(derivative);
        assert(rows(self.derivatives@) =~= rows(old(self).derivatives@).push(derivative@));
    }
}

} // verus!
