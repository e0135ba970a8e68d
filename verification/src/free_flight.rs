//! Free flight in arithmetic that rounds.
//!
//! A particle that feels no force moves by the same stride at every step. For
//! that the arithmetic of the scalar need not be exact: it is enough that it is
//! sound at zero (see [`crate::scalar::sound_at_zero`]), so that the terms of a
//! formula that stand for a force drop out. The laws of this module hold of
//! fixed-point numbers as they are (see
//! [`crate::fixed::fixed_is_sound_at_zero`]).
//!
//! The position Verlet scheme is left out: it steps from two positions, and in
//! arithmetic that rounds the difference of two positions need not be the
//! stride that led from one to the other.

use crate::integrator::Integrator;
use crate::methods::{Acceleration, IntegrationMethod};
use crate::particle::ParticleView;
use crate::scalar::Scalar;
use crate::Integration;
use vstd::prelude::*;

verus! {

/// The vector of `dim` zeros.
pub open spec fn nothing<S: Scalar>(dim: nat) -> Seq<S> {
    Seq::new(dim, |i: int| crate::scalar::zero::<S>())
}

/// Whether the model gives no acceleration, to any particle in any set.
pub open spec fn forceless<S: Scalar, M: Acceleration<S, DIM>, const DIM: usize>(model: M) -> bool {
    forall|q: ParticleView<S>, others: Seq<ParticleView<S>>|
        #[trigger] model.acceleration(q, others) == nothing::<S>(DIM as nat)
}

/// Whether the particle `p` is in free flight with the velocity `v`, as a
/// scheme of the given kind holds such a flight.
///
/// The particle has no acceleration. Its velocity is `v`; of the leap-frog
/// scheme this says that the half-step velocity it keeps in the previous stack
/// is `v`, since the velocity it stores is the mean of two half-step
/// velocities and the mean of a number with itself is that number only where
/// their sum needs no rounding. The Beeman scheme finds no acceleration in the
/// previous stack, and the Gear scheme no higher derivative in the present
/// one.
pub open spec fn gliding<S: Scalar>(
    kind: Integration,
    v: Seq<S>,
    p: ParticleView<S>,
    dim: nat,
) -> bool {
    &&& p.wf(dim)
    &&& v.len() == dim
    &&& p.stack[2] == nothing::<S>(dim)
    &&& kind != Integration::VerletLeapFrog ==> p.stack[1] == v
    &&& kind == Integration::VerletLeapFrog ==> p.prev[1] == v
    &&& kind == Integration::Beeman ==> p.prev[2] == nothing::<S>(dim)
    &&& kind == Integration::GearPredictorCorrector ==> {
        &&& p.stack.len() >= 6
        &&& forall|k: int| 3 <= k < 6 ==> #[trigger] p.stack[k] == nothing::<S>(dim)
    }
}

/// The stride by which one step of a scheme of the given kind moves a
/// coordinate in free flight: the product of the time step and the velocity,
/// in the order in which the scheme forms it.
pub open spec fn stride<S: Scalar>(kind: Integration, dt: S, v: S) -> S {
    match kind {
        Integration::EulerPredictorCorrector
        | Integration::Beeman
        | Integration::GearPredictorCorrector => v.product(dt),
        _ => dt.product(v),
    }
}

/// What one step of a free flight does to the stack of a particle: each
/// coordinate moves by the stride of the scheme, and the stack keeps its
/// length.
pub open spec fn glided<S: Scalar>(
    kind: Integration,
    dt: S,
    v: Seq<S>,
    p: ParticleView<S>,
    stack: Seq<Seq<S>>,
    dim: nat,
) -> bool {
    &&& stack.len() == p.stack.len()
    &&& forall|i: int|
        0 <= i < dim ==> #[trigger] stack[0][i] == p.stack[0][i].sum(stride(kind, dt, v[i]))
}

/// One Euler step moves each coordinate of a particle in free flight by the
/// time step times its velocity, and leaves the particle in free flight with
/// the same velocity.
pub proof fn euler_glides<S: Scalar, M: Acceleration<S, DIM>, const DIM: usize>(
    model: M,
    dt: S,
    v: Seq<S>,
    p: ParticleView<S>,
    others: Seq<ParticleView<S>>,
)
    requires
        crate::scalar::sound_at_zero::<S>(),
        forceless::<S, M, DIM>(model),
        gliding(Integration::Euler, v, p, DIM as nat),
    ensures
        gliding(
            Integration::Euler,
            v,
            p.with_stack(
                crate::methods::euler_step::<S, M, DIM>(model, dt, p, others),
            ).with_prev(p.stack),
            DIM as nat,
        ),
        glided(
            Integration::Euler,
            dt,
            v,
            p,
            crate::methods::euler_step::<S, M, DIM>(model, dt, p, others),
            DIM as nat,
        ),
{
    let zero = crate::scalar::zero::<S>();
    let s = crate::methods::euler_step::<S, M, DIM>(model, dt, p, others);
    assert forall|i: int| 0 <= i < DIM implies #[trigger] s[0][i] == p.stack[0][i].sum(
        dt.product(p.stack[1][i]),
    ) && s[1][i] == p.stack[1][i] by {
        assert(p.stack[2][i] == zero);
    }
    assert(s[1] =~= v);
    assert(s[2] == nothing::<S>(DIM as nat));
}

/// One modified Euler step moves each coordinate of a particle in free flight
/// by the time step times its velocity, and leaves the particle in free flight
/// with the same velocity.
pub proof fn euler_mod_glides<S: Scalar, M: Acceleration<S, DIM>, const DIM: usize>(
    model: M,
    dt: S,
    v: Seq<S>,
    p: ParticleView<S>,
    others: Seq<ParticleView<S>>,
)
    requires
        crate::scalar::sound_at_zero::<S>(),
        forceless::<S, M, DIM>(model),
        gliding(Integration::EulerMod, v, p, DIM as nat),
    ensures
        gliding(
            Integration::EulerMod,
            v,
            p.with_stack(
                crate::methods::euler_mod_step::<S, M, DIM>(model, dt, p, others),
            ).with_prev(p.stack),
            DIM as nat,
        ),
        glided(
            Integration::EulerMod,
            dt,
            v,
            p,
            crate::methods::euler_mod_step::<S, M, DIM>(model, dt, p, others),
            DIM as nat,
        ),
{
    let zero = crate::scalar::zero::<S>();
    let s = crate::methods::euler_mod_step::<S, M, DIM>(model, dt, p, others);
    assert forall|i: int| 0 <= i < DIM implies #[trigger] s[1][i] == p.stack[1][i] by {
        assert(p.stack[2][i] == zero);
    }
    assert forall|i: int| 0 <= i < DIM implies #[trigger] s[0][i] == p.stack[0][i].sum(
        dt.product(p.stack[1][i]),
    ) by {
        assert(p.stack[2][i] == zero);
        assert(s[1][i] == p.stack[1][i]);
    }
    assert(s[1] =~= v);
    assert(s[2] == nothing::<S>(DIM as nat));
}

/// One velocity Verlet step moves each coordinate of a particle in free
/// flight by the time step times its velocity, and leaves the particle in free
/// flight with the same velocity.
pub proof fn velocity_verlet_glides<S: Scalar, M: Acceleration<S, DIM>, const DIM: usize>(
    model: M,
    dt: S,
    v: Seq<S>,
    p: ParticleView<S>,
    others: Seq<ParticleView<S>>,
)
    requires
        crate::scalar::sound_at_zero::<S>(),
        forceless::<S, M, DIM>(model),
        gliding(Integration::VelocityVerlet, v, p, DIM as nat),
    ensures
        gliding(
            Integration::VelocityVerlet,
            v,
            p.with_stack(
                crate::methods::velocity_verlet_step::<S, M, DIM>(model, dt, p, others),
            ).with_prev(p.stack),
            DIM as nat,
        ),
        glided(
            Integration::VelocityVerlet,
            dt,
            v,
            p,
            crate::methods::velocity_verlet_step::<S, M, DIM>(model, dt, p, others),
            DIM as nat,
        ),
{
    let zero = crate::scalar::zero::<S>();
    let s = crate::methods::velocity_verlet_step::<S, M, DIM>(model, dt, p, others);
    let b = model.acceleration(p.at(p.stack[0], p.stack[1], p.stack[2]), others);
    assert(b == nothing::<S>(DIM as nat));
    assert forall|i: int| 0 <= i < DIM implies #[trigger] s[0][i] == p.stack[0][i].sum(
        dt.product(p.stack[1][i]),
    ) && s[1][i] == p.stack[1][i] by {
        assert(p.stack[2][i] == zero);
        assert(b[i] == zero);
        assert(zero.sum(zero) == zero);
    }
    assert(s[1] =~= v);
    assert(s[2] == nothing::<S>(DIM as nat));
}

/// One Euler predictor-corrector step moves each coordinate of a particle in
/// free flight by its velocity times the time step, and leaves the particle in
/// free flight with the same velocity.
pub proof fn euler_predictor_corrector_glides<S: Scalar, M: Acceleration<S, DIM>, const DIM: usize>(
    model: M,
    dt: S,
    v: Seq<S>,
    p: ParticleView<S>,
    others: Seq<ParticleView<S>>,
)
    requires
        crate::scalar::sound_at_zero::<S>(),
        forceless::<S, M, DIM>(model),
        gliding(Integration::EulerPredictorCorrector, v, p, DIM as nat),
    ensures
        gliding(
            Integration::EulerPredictorCorrector,
            v,
            p.with_stack(
                crate::methods::euler_predictor_corrector_step::<S, M, DIM>(model, dt, p, others),
            ).with_prev(p.stack),
            DIM as nat,
        ),
        glided(
            Integration::EulerPredictorCorrector,
            dt,
            v,
            p,
            crate::methods::euler_predictor_corrector_step::<S, M, DIM>(model, dt, p, others),
            DIM as nat,
        ),
{
    let zero = crate::scalar::zero::<S>();
    let s = crate::methods::euler_predictor_corrector_step::<S, M, DIM>(model, dt, p, others);
    assert forall|i: int| 0 <= i < DIM implies #[trigger] s[1][i] == p.stack[1][i] by {
        assert(s[2][i] == zero);
        assert(zero.product(dt) == zero);
    }
    assert forall|i: int| 0 <= i < DIM implies #[trigger] s[0][i] == p.stack[0][i].sum(
        p.stack[1][i].product(dt),
    ) by {
        assert(s[1][i] == p.stack[1][i]);
    }
    assert(s[1] =~= v);
    assert(s[2] == nothing::<S>(DIM as nat));
}

/// One Beeman step moves each coordinate of a particle in free flight by its
/// velocity times the time step, and leaves the particle in free flight with
/// the same velocity.
pub proof fn beeman_glides<S: Scalar, M: Acceleration<S, DIM>, const DIM: usize>(
    model: M,
    dt: S,
    v: Seq<S>,
    p: ParticleView<S>,
    others: Seq<ParticleView<S>>,
)
    requires
        crate::scalar::sound_at_zero::<S>(),
        forceless::<S, M, DIM>(model),
        gliding(Integration::Beeman, v, p, DIM as nat),
    ensures
        gliding(
            Integration::Beeman,
            v,
            p.with_stack(
                crate::methods::beeman_step::<S, M, DIM>(model, dt, p, others),
            ).with_prev(p.stack),
            DIM as nat,
        ),
        glided(
            Integration::Beeman,
            dt,
            v,
            p,
            crate::methods::beeman_step::<S, M, DIM>(model, dt, p, others),
            DIM as nat,
        ),
{
    let zero = crate::scalar::zero::<S>();
    let s = crate::methods::beeman_step::<S, M, DIM>(model, dt, p, others);
    let square = dt.product(dt);
    assert forall|i: int| 0 <= i < DIM implies #[trigger] s[0][i] == p.stack[0][i].sum(
        p.stack[1][i].product(dt),
    ) && s[1][i] == p.stack[1][i] by {
        assert(p.stack[2][i] == zero);
        assert(p.prev[2][i] == zero);
        assert(crate::scalar::ratio::<S>(2, 3).product(zero) == zero);
        assert(crate::scalar::ratio::<S>(1, 6).product(zero) == zero);
        assert(crate::scalar::ratio::<S>(1, 3).product(zero) == zero);
        assert(crate::scalar::ratio::<S>(5, 6).product(zero) == zero);
        assert(zero.product(square) == zero);
        assert(zero.product(dt) == zero);
        assert(zero.sum(zero) == zero);
        assert(zero.difference(zero) == zero);
    }
    assert(s[1] =~= v);
    assert(s[2] == nothing::<S>(DIM as nat));
}

/// One leap-frog step moves each coordinate of a particle in free flight by
/// the time step times the half-step velocity it keeps, and leaves the
/// particle, with the history that the scheme keeps of it, in free flight with
/// the same half-step velocity.
pub proof fn leap_frog_glides<S: Scalar, M: Acceleration<S, DIM>, const DIM: usize>(
    model: M,
    dt: S,
    v: Seq<S>,
    p: ParticleView<S>,
    others: Seq<ParticleView<S>>,
)
    requires
        crate::scalar::sound_at_zero::<S>(),
        forceless::<S, M, DIM>(model),
        gliding(Integration::VerletLeapFrog, v, p, DIM as nat),
    ensures
        gliding(
            Integration::VerletLeapFrog,
            v,
            p.with_stack(
                crate::methods::leap_frog_step::<S, M, DIM>(model, dt, p, others),
            ).with_prev(p.stack.update(1, crate::methods::half_step(dt, p, DIM as nat))),
            DIM as nat,
        ),
        glided(
            Integration::VerletLeapFrog,
            dt,
            v,
            p,
            crate::methods::leap_frog_step::<S, M, DIM>(model, dt, p, others),
            DIM as nat,
        ),
{
    let zero = crate::scalar::zero::<S>();
    let s = crate::methods::leap_frog_step::<S, M, DIM>(model, dt, p, others);
    let kept = p.stack.update(1, crate::methods::half_step(dt, p, DIM as nat));
    let q = p.with_stack(s).with_prev(kept);
    assert forall|i: int| 0 <= i < DIM implies #[trigger] s[0][i] == p.stack[0][i].sum(
        dt.product(p.prev[1][i]),
    ) by {
        assert(p.stack[2][i] == zero);
    }
    assert(s[2] == nothing::<S>(DIM as nat));
    assert forall|i: int| 0 <= i < DIM implies #[trigger] q.prev[1][i] == p.prev[1][i] by {
        assert(p.stack[2][i] == zero);
    }
    assert(q.prev[1] =~= v);
    assert(q.wf(DIM as nat));
}

/// One Gear step moves each coordinate of a particle in free flight by its
/// velocity times the time step, and leaves the particle in free flight with
/// the same velocity and no higher derivative.
pub proof fn gear_glides<S: Scalar, M: Acceleration<S, DIM>, const DIM: usize>(
    model: M,
    depends_on_velocity: bool,
    dt: S,
    v: Seq<S>,
    p: ParticleView<S>,
    others: Seq<ParticleView<S>>,
)
    requires
        crate::scalar::sound_at_zero::<S>(),
        forceless::<S, M, DIM>(model),
        gliding(Integration::GearPredictorCorrector, v, p, DIM as nat),
    ensures
        gliding(
            Integration::GearPredictorCorrector,
            v,
            p.with_stack(
                crate::methods::gear_step::<S, M, DIM>(model, depends_on_velocity, dt, p, others),
            ).with_prev(p.stack),
            DIM as nat,
        ),
        glided(
            Integration::GearPredictorCorrector,
            dt,
            v,
            p,
            crate::methods::gear_step::<S, M, DIM>(model, depends_on_velocity, dt, p, others),
            DIM as nat,
        ),
{
    let zero = crate::scalar::zero::<S>();
    let s = crate::methods::gear_step::<S, M, DIM>(model, depends_on_velocity, dt, p, others);
    reveal_with_fuel(crate::methods::taylor_terms, 6);
    let a = model.acceleration(
        p.at(
            crate::methods::gear_prediction(dt, p.stack, 0, DIM as nat),
            crate::methods::gear_prediction(dt, p.stack, 1, DIM as nat),
            crate::methods::gear_prediction(dt, p.stack, 2, DIM as nat),
        ),
        others,
    );
    assert(a == nothing::<S>(DIM as nat));
    assert(zero.sum(zero) == zero);
    assert(zero.difference(zero) == zero);
    assert(zero.product(dt) == zero);
    assert forall|n: nat| 2 <= n <= 5 implies (#[trigger] crate::methods::taylor_weight(
        dt,
        n,
    )).product(zero) == zero by {}
    assert forall|k: int, i: int| 0 <= k < 6 && 0 <= i < DIM implies #[trigger] s[k][i] == (if k
        == 0 {
        p.stack[0][i].sum(p.stack[1][i].product(dt))
    } else if k == 1 {
        p.stack[1][i]
    } else {
        zero
    }) by {
        let d = crate::methods::column(p.stack, i);
        assert(d[0] == p.stack[0][i] && d[1] == p.stack[1][i]);
        assert(d[2] == zero) by {
            assert(p.stack[2][i] == zero);
        }
        assert(d[3] == zero && d[4] == zero && d[5] == zero) by {
            assert(p.stack[3] == nothing::<S>(DIM as nat));
            assert(p.stack[4] == nothing::<S>(DIM as nat));
            assert(p.stack[5] == nothing::<S>(DIM as nat));
        }
        assert(crate::methods::taylor_weight(dt, 2).product(zero) == zero);
        assert(crate::methods::taylor_weight(dt, 3).product(zero) == zero);
        assert(crate::methods::taylor_weight(dt, 4).product(zero) == zero);
        assert(crate::methods::taylor_weight(dt, 5).product(zero) == zero);
        let confirmed = crate::methods::gear_predicted(dt, d, 2);
        assert(confirmed == zero);
        assert(a[i] == zero);
        let gap = crate::methods::gear_gap(dt, a[i], confirmed);
        assert(zero.product(crate::methods::power(dt, 2)) == zero);
        assert(zero.quotient(S::of_int(2)) == zero);
        assert(gap == zero);
        let weighed = crate::methods::gear_coefficient::<S>(k, depends_on_velocity).product(gap);
        assert(weighed == zero);
        assert(zero.quotient(crate::methods::power(dt, k as nat)) == zero);
        assert(crate::methods::gear_correction(dt, k, depends_on_velocity, gap) == zero);
    }
    let q = p.with_stack(s).with_prev(p.stack);
    assert(q.wf(DIM as nat));
    assert(s[1] =~= v);
    assert(s[2] =~= nothing::<S>(DIM as nat));
    assert forall|k: int| 3 <= k < 6 implies #[trigger] s[k] == nothing::<S>(DIM as nat) by {
        assert(s[k] =~= nothing::<S>(DIM as nat));
    }
}

/// One step of any scheme but position Verlet moves a particle in free flight
/// by one stride, and leaves it in free flight with the same velocity.
pub proof fn a_free_step_is_one_stride<S: Scalar, M: Acceleration<S, DIM>, const DIM: usize>(
    method: Integrator<S, M>,
    v: Seq<S>,
    p: ParticleView<S>,
    others: Seq<ParticleView<S>>,
)
    requires
        crate::scalar::sound_at_zero::<S>(),
        forceless::<S, M, DIM>(method.model()),
        method.kind() != Integration::Verlet,
        gliding(method.kind(), v, p, DIM as nat),
    ensures
        gliding(method.kind(), v, crate::laws::stepped::<S, M, DIM>(method, p, others), DIM as nat),
        glided(
            method.kind(),
            method.time_step(),
            v,
            p,
            crate::laws::stepped::<S, M, DIM>(method, p, others).stack,
            DIM as nat,
        ),
{
    let dt = method.time_step();
    let model = method.model();
    let q = crate::laws::stepped::<S, M, DIM>(method, p, others);
    match method {
        Integrator::Euler(m) => {
            euler_glides::<S, M, DIM>(model, dt, v, p, others);
            assert(q == p.with_stack(
                crate::methods::euler_step::<S, M, DIM>(model, dt, p, others),
            ).with_prev(p.stack));
        },
        Integrator::EulerMod(m) => {
            euler_mod_glides::<S, M, DIM>(model, dt, v, p, others);
            assert(q == p.with_stack(
                crate::methods::euler_mod_step::<S, M, DIM>(model, dt, p, others),
            ).with_prev(p.stack));
        },
        Integrator::Verlet(m) => {},
        Integrator::VerletLeapFrog(m) => {
            leap_frog_glides::<S, M, DIM>(model, dt, v, p, others);
            let s = crate::methods::leap_frog_step::<S, M, DIM>(model, dt, p, others);
            assert(q == p.with_stack(s).with_prev(
                p.stack.update(1, crate::methods::half_step(dt, p, DIM as nat)),
            ));
        },
        Integrator::VelocityVerlet(m) => {
            velocity_verlet_glides::<S, M, DIM>(model, dt, v, p, others);
            assert(q == p.with_stack(
                crate::methods::velocity_verlet_step::<S, M, DIM>(model, dt, p, others),
            ).with_prev(p.stack));
        },
        Integrator::Beeman(m) => {
            beeman_glides::<S, M, DIM>(model, dt, v, p, others);
            assert(q == p.with_stack(
                crate::methods::beeman_step::<S, M, DIM>(model, dt, p, others),
            ).with_prev(p.stack));
        },
        Integrator::EulerPredictorCorrector(m) => {
            euler_predictor_corrector_glides::<S, M, DIM>(model, dt, v, p, others);
            assert(q == p.with_stack(
                crate::methods::euler_predictor_corrector_step::<S, M, DIM>(model, dt, p, others),
            ).with_prev(p.stack));
        },
        Integrator::GearPredictorCorrector(m) => {
            gear_glides::<S, M, DIM>(model, m.depends_on_velocity(), dt, v, p, others);
            assert(q == p.with_stack(
                crate::methods::gear_step::<S, M, DIM>(
                    model,
                    m.depends_on_velocity(),
                    dt,
                    p,
                    others,
                ),
            ).with_prev(p.stack));
        },
    }
}

/// The coordinate `x` moved `n` times by the stride `d`.
pub open spec fn glide<S: Scalar>(x: S, d: S, n: nat) -> S
    decreases n,
{
    if n == 0 {
        x
    } else {
        glide(x, d, (n - 1) as nat).sum(d)
    }
}

/// Free flight is uniform under every scheme but position Verlet: after any
/// number of steps, each coordinate of a particle in free flight has moved
/// from where it was by as many equal strides.
pub proof fn free_flight_is_uniform<S: Scalar, M: Acceleration<S, DIM>, const DIM: usize>(
    method: Integrator<S, M>,
    velocities: Seq<Seq<S>>,
    particles: Seq<ParticleView<S>>,
    steps: nat,
)
    requires
        crate::scalar::sound_at_zero::<S>(),
        forceless::<S, M, DIM>(method.model()),
        method.kind() != Integration::Verlet,
        velocities.len() == particles.len(),
        forall|k: int|
            0 <= k < particles.len() ==> gliding(
                method.kind(),
                velocities[k],
                #[trigger] particles[k],
                DIM as nat,
            ),
    ensures
        crate::methods::advanced_by::<S, Integrator<S, M>, DIM>(method, particles, steps).len()
            == particles.len(),
        forall|k: int|
            0 <= k < particles.len() ==> gliding(
                method.kind(),
                velocities[k],
                #[trigger] crate::methods::advanced_by::<S, Integrator<S, M>, DIM>(
                    method,
                    particles,
                    steps,
                )[k],
                DIM as nat,
            ),
        forall|k: int, i: int|
            0 <= k < particles.len() && 0 <= i < DIM ==> #[trigger] crate::methods::advanced_by::<
                S,
                Integrator<S, M>,
                DIM,
            >(method, particles, steps)[k].stack[0][i] == glide(
                particles[k].stack[0][i],
                stride(method.kind(), method.time_step(), velocities[k][i]),
                steps,
            ),
    decreases steps,
{
    let after = crate::methods::advanced_by::<S, Integrator<S, M>, DIM>(method, particles, steps);
    if steps > 0 {
        let before = crate::methods::advanced_by::<S, Integrator<S, M>, DIM>(
            method,
            particles,
            (steps - 1) as nat,
        );
        free_flight_is_uniform::<S, M, DIM>(method, velocities, particles, (steps - 1) as nat);
        assert forall|k: int| 0 <= k < particles.len() implies gliding(
            method.kind(),
            velocities[k],
            #[trigger] after[k],
            DIM as nat,
        ) && (forall|i: int|
            0 <= i < DIM ==> #[trigger] after[k].stack[0][i] == glide(
                particles[k].stack[0][i],
                stride(method.kind(), method.time_step(), velocities[k][i]),
                steps,
            )) by {
            a_free_step_is_one_stride::<S, M, DIM>(method, velocities[k], before[k], before);
            assert(after[k] == crate::laws::stepped::<S, M, DIM>(method, before[k], before));
            assert forall|i: int| 0 <= i < DIM implies #[trigger] after[k].stack[0][i] == glide(
                particles[k].stack[0][i],
                stride(method.kind(), method.time_step(), velocities[k][i]),
                steps,
            ) by {
                assert(before[k].stack[0][i] == glide(
                    particles[k].stack[0][i],
                    stride(method.kind(), method.time_step(), velocities[k][i]),
                    (steps - 1) as nat,
                ));
            }
        }
    }
}

/// Whether the higher derivatives that a particle is given for the Gear scheme
/// leave it in free flight: whether, with `more` appended, its stack holds six
/// derivatives at least, each of `dim` components, of which those of third to
/// fifth order are zero.
pub open spec fn unforced<S: Scalar>(p: ParticleView<S>, more: Seq<Seq<S>>, dim: nat) -> bool {
    &&& (p.stack + more).len() >= 6
    &&& forall|k: int| 0 <= k < more.len() ==> (#[trigger] more[k]).len() == dim
    &&& forall|k: int| 3 <= k < 6 ==> #[trigger] (p.stack + more)[k] == nothing::<S>(dim)
}

/// The construction of any scheme but position Verlet leaves a particle that
/// has no acceleration, among particles that exert no force, in free flight
/// with the velocity it has.
pub proof fn preparation_starts_a_glide<S: Scalar, M: Acceleration<S, DIM>, const DIM: usize>(
    kind: Integration,
    model: M,
    dt: S,
    more: Seq<Seq<S>>,
    p: ParticleView<S>,
    others: Seq<ParticleView<S>>,
)
    requires
        crate::scalar::sound_at_zero::<S>(),
        forceless::<S, M, DIM>(model),
        kind != Integration::Verlet,
        p.wf(DIM as nat),
        p.stack[2] == nothing::<S>(DIM as nat),
        kind == Integration::GearPredictorCorrector ==> unforced(p, more, DIM as nat),
    ensures
        gliding(
            kind,
            p.stack[1],
            crate::integrator::prepared::<S, M, DIM>(kind, model, dt, more, p, others),
            DIM as nat,
        ),
        crate::integrator::prepared::<S, M, DIM>(kind, model, dt, more, p, others).stack[0]
            == p.stack[0],
{
    let zero = crate::scalar::zero::<S>();
    let q = crate::integrator::prepared::<S, M, DIM>(kind, model, dt, more, p, others);
    match kind {
        Integration::GearPredictorCorrector => {
            assert forall|k: int| 0 <= k < q.stack.len() implies (#[trigger] q.stack[k]).len()
                == DIM as nat by {
                if k >= p.stack.len() {
                    assert(q.stack[k] == more[k - p.stack.len()]);
                } else {
                    assert(q.stack[k] == p.stack[k]);
                }
            }
            assert(q.stack[1] == p.stack[1] && q.stack[2] == p.stack[2]);
        },
        Integration::Beeman => {
            let prev = crate::methods::euler_step::<S, M, DIM>(model, dt.negation(), p, others);
            assert(q == p.with_prev(prev));
            assert(q.wf(DIM as nat));
        },
        Integration::VerletLeapFrog => {
            let back = dt.negation().quotient(S::of_int(2));
            let prev = crate::methods::euler_step::<S, M, DIM>(model, back, p, others);
            assert(q == p.with_prev(prev));
            assert(q.wf(DIM as nat));
            assert forall|i: int| 0 <= i < DIM implies #[trigger] q.prev[1][i] == p.stack[1][i] by {
                assert(p.stack[2][i] == zero);
            }
            assert(q.prev[1] =~= p.stack[1]);
        },
        _ => {
            assert(q == p);
        },
    }
}

/// Particles that feel no force move by equal strides under every scheme but
/// position Verlet, in any arithmetic that is sound at zero.
///
/// Let the particles have no acceleration to begin with, let the model give
/// none, and let the scheme be set up for them and then step any number of
/// times. Then each coordinate of each particle has moved from where it was
/// by as many strides, each the product of the time step and the velocity it
/// had. (The Gear scheme is to be given higher derivatives that are zero.)
pub proof fn free_particles_move_by_equal_strides<
    S: Scalar,
    M: Acceleration<S, DIM>,
    const DIM: usize,
>(method: Integrator<S, M>, more: Seq<Seq<Seq<S>>>, particles: Seq<ParticleView<S>>, steps: nat)
    requires
        crate::scalar::sound_at_zero::<S>(),
        forceless::<S, M, DIM>(method.model()),
        method.kind() != Integration::Verlet,
        forall|k: int| 0 <= k < particles.len() ==> (#[trigger] particles[k]).wf(DIM as nat),
        forall|k: int|
            0 <= k < particles.len() ==> (#[trigger] particles[k]).stack[2] == nothing::<S>(
                DIM as nat,
            ),
        method.kind() == Integration::GearPredictorCorrector ==> more.len() == particles.len()
            && forall|k: int|
            0 <= k < particles.len() ==> unforced(#[trigger] particles[k], more[k], DIM as nat),
    ensures
        forall|k: int, i: int|
            0 <= k < particles.len() && 0 <= i < DIM ==> #[trigger] crate::methods::advanced_by::<
                S,
                Integrator<S, M>,
                DIM,
            >(method, crate::laws::set_up::<S, M, DIM>(method, more, particles), steps)[k].stack[0][i]
                == glide(
                particles[k].stack[0][i],
                stride(method.kind(), method.time_step(), particles[k].stack[1][i]),
                steps,
            ),
{
    let start = crate::laws::set_up::<S, M, DIM>(method, more, particles);
    let velocities = Seq::new(particles.len(), |k: int| particles[k].stack[1]);
    assert forall|k: int| 0 <= k < start.len() implies gliding(
        method.kind(),
        velocities[k],
        #[trigger] start[k],
        DIM as nat,
    ) && start[k].stack[0] == particles[k].stack[0] by {
        preparation_starts_a_glide::<S, M, DIM>(
            method.kind(),
            method.model(),
            method.time_step(),
            more[k],
            particles[k],
            particles,
        );
    }
    free_flight_is_uniform::<S, M, DIM>(method, velocities, start, steps);
    assert forall|k: int, i: int| 0 <= k < particles.len() && 0 <= i < DIM implies (
    #[trigger] crate::methods::advanced_by::<S, Integrator<S, M>, DIM>(
        method,
        start,
        steps,
    )[k].stack[0][i]) == glide(
        particles[k].stack[0][i],
        stride(method.kind(), method.time_step(), particles[k].stack[1][i]),
        steps,
    ) by {
        assert(start[k].stack[0] == particles[k].stack[0]);
        assert(velocities[k] == particles[k].stack[1]);
    }
}

} // verus!
