//! What the schemes do in exact arithmetic.
//!
//! The contracts of the schemes say which formula each step evaluates. The
//! laws of this module read those formulas over the real numbers, which is to
//! take the arithmetic of the scalar to be exact (see
//! [`crate::scalar::exact`]), and state what then follows for whole
//! trajectories.

use crate::integrator::Integrator;
use crate::methods::{Acceleration, IntegrationMethod};
use crate::particle::ParticleView;
use crate::scalar::Scalar;
use crate::Integration;
use vstd::prelude::*;

verus! {

/// Whether the model gives no acceleration, to any particle in any set.
pub open spec fn force_free<S: Scalar, M: Acceleration<S, DIM>, const DIM: usize>(
    model: M,
    value: spec_fn(S) -> real,
) -> bool {
    &&& forall|q: ParticleView<S>, others: Seq<ParticleView<S>>|
        (#[trigger] model.acceleration(q, others)).len() == DIM
    &&& forall|q: ParticleView<S>, others: Seq<ParticleView<S>>, i: int|
        0 <= i < DIM ==> value(#[trigger] model.acceleration(q, others)[i]) == 0real
}

/// Whether the particle `p` is in free flight with the velocity `v`, as a
/// scheme of the given kind with the time step `t` holds such a flight.
///
/// The particle has no acceleration, and its velocity is `v`. A scheme that
/// reads the previous stack finds there what the flight left one step before:
/// leap-frog the same velocity as its half-step velocity, Beeman no
/// acceleration, Verlet the position `t * v` back. The Gear scheme finds no
/// higher derivative.
#[verifier::opaque]
pub open spec fn cruising<S: Scalar>(
    kind: Integration,
    value: spec_fn(S) -> real,
    t: real,
    v: Seq<real>,
    p: ParticleView<S>,
    dim: nat,
) -> bool {
    &&& p.wf(dim)
    &&& v.len() == dim
    &&& forall|i: int| 0 <= i < dim ==> value(#[trigger] p.stack[2][i]) == 0real
    &&& forall|i: int| 0 <= i < dim ==> value(#[trigger] p.stack[1][i]) == v[i]
    &&& kind == Integration::VerletLeapFrog ==> forall|i: int|
        0 <= i < dim ==> value(#[trigger] p.prev[1][i]) == v[i]
    &&& kind == Integration::Beeman ==> forall|i: int|
        0 <= i < dim ==> value(#[trigger] p.prev[2][i]) == 0real
    &&& kind == Integration::Verlet ==> forall|i: int|
        0 <= i < dim ==> value(#[trigger] p.prev[0][i]) == value(p.stack[0][i]) - t * v[i]
    &&& kind == Integration::GearPredictorCorrector ==> {
        &&& p.stack.len() >= 6
        &&& forall|k: int, i: int|
            3 <= k < 6 && 0 <= i < dim ==> value(#[trigger] p.stack[k][i]) == 0real
    }
}

/// Whether a scheme of the given kind divides by its time step, so that what
/// is proved of it in exact arithmetic asks for a time step other than zero.
pub open spec fn divides_by_time_step(kind: Integration) -> bool {
    kind == Integration::Verlet || kind == Integration::GearPredictorCorrector
}

/// One Euler step of a particle in free flight.
pub proof fn euler_cruises<S: Scalar, M: Acceleration<S, DIM>, const DIM: usize>(
    model: M,
    dt: S,
    value: spec_fn(S) -> real,
    v: Seq<real>,
    p: ParticleView<S>,
    others: Seq<ParticleView<S>>,
)
    requires
        crate::scalar::exact(value),
        force_free::<S, M, DIM>(model, value),
        cruising(Integration::Euler, value, value(dt), v, p, DIM as nat),
    ensures
        cruising(
            Integration::Euler,
            value,
            value(dt),
            v,
            p.with_stack(crate::methods::euler_step::<S, M, DIM>(model, dt, p, others)).with_prev(
                p.stack,
            ),
            DIM as nat,
        ),
        flown(DIM as nat, value, value(dt), v, p, crate::methods::euler_step::<S, M, DIM>(model, dt, p, others)),
{
    reveal(cruising);
    reveal(flown);
    let s = crate::methods::euler_step::<S, M, DIM>(model, dt, p, others);
    assert(value(S::of_int(2)) == 2real);
    assert forall|i: int| 0 <= i < DIM implies value(#[trigger] s[0][i]) == value(p.stack[0][i])
        + value(dt) * v[i] by {
        assert(value(p.stack[2][i]) == 0real);
        assert(value(p.stack[1][i]) == v[i]);
    }
    assert forall|i: int| 0 <= i < DIM implies value(#[trigger] s[1][i]) == v[i] by {
        assert(value(p.stack[2][i]) == 0real);
        assert(value(p.stack[1][i]) == v[i]);
    }
}

/// What one step of a free flight does to the stack of a particle: the
/// position moves by `t * v` along each of the `dim` axes, and the stack keeps
/// its length.
#[verifier::opaque]
pub open spec fn flown<S: Scalar>(
    dim: nat,
    value: spec_fn(S) -> real,
    t: real,
    v: Seq<real>,
    p: ParticleView<S>,
    stack: Seq<Seq<S>>,
) -> bool {
    &&& stack.len() == p.stack.len()
    &&& forall|i: int|
        0 <= i < dim ==> value(#[trigger] stack[0][i]) == value(p.stack[0][i]) + t * v[i]
}

/// One modified Euler step of a particle in free flight.
pub proof fn euler_mod_cruises<S: Scalar, M: Acceleration<S, DIM>, const DIM: usize>(
    model: M,
    dt: S,
    value: spec_fn(S) -> real,
    v: Seq<real>,
    p: ParticleView<S>,
    others: Seq<ParticleView<S>>,
)
    requires
        crate::scalar::exact(value),
        force_free::<S, M, DIM>(model, value),
        cruising(Integration::EulerMod, value, value(dt), v, p, DIM as nat),
    ensures
        cruising(
            Integration::EulerMod,
            value,
            value(dt),
            v,
            p.with_stack(crate::methods::euler_mod_step::<S, M, DIM>(model, dt, p, others)).with_prev(
                p.stack,
            ),
            DIM as nat,
        ),
        flown(
            DIM as nat,
            value,
            value(dt),
            v,
            p,
            crate::methods::euler_mod_step::<S, M, DIM>(model, dt, p, others),
        ),
{
    reveal(cruising);
    reveal(flown);
    let s = crate::methods::euler_mod_step::<S, M, DIM>(model, dt, p, others);
    assert(value(S::of_int(2)) == 2real);
    assert forall|i: int| 0 <= i < DIM implies value(#[trigger] s[0][i]) == value(p.stack[0][i])
        + value(dt) * v[i] by {
        assert(value(p.stack[2][i]) == 0real);
        assert(value(p.stack[1][i]) == v[i]);
    }
    assert forall|i: int| 0 <= i < DIM implies value(#[trigger] s[1][i]) == v[i] by {
        assert(value(p.stack[2][i]) == 0real);
        assert(value(p.stack[1][i]) == v[i]);
    }
}

/// One velocity Verlet step of a particle in free flight.
pub proof fn velocity_verlet_cruises<S: Scalar, M: Acceleration<S, DIM>, const DIM: usize>(
    model: M,
    dt: S,
    value: spec_fn(S) -> real,
    v: Seq<real>,
    p: ParticleView<S>,
    others: Seq<ParticleView<S>>,
)
    requires
        crate::scalar::exact(value),
        force_free::<S, M, DIM>(model, value),
        cruising(Integration::VelocityVerlet, value, value(dt), v, p, DIM as nat),
    ensures
        cruising(
            Integration::VelocityVerlet,
            value,
            value(dt),
            v,
            p.with_stack(crate::methods::velocity_verlet_step::<S, M, DIM>(model, dt, p, others)).with_prev(
                p.stack,
            ),
            DIM as nat,
        ),
        flown(
            DIM as nat,
            value,
            value(dt),
            v,
            p,
            crate::methods::velocity_verlet_step::<S, M, DIM>(model, dt, p, others),
        ),
{
    reveal(cruising);
    reveal(flown);
    let s = crate::methods::velocity_verlet_step::<S, M, DIM>(model, dt, p, others);
    assert(value(S::of_int(2)) == 2real);
    assert forall|i: int| 0 <= i < DIM implies value(#[trigger] s[0][i]) == value(p.stack[0][i])
        + value(dt) * v[i] by {
        assert(value(p.stack[2][i]) == 0real);
        assert(value(p.stack[1][i]) == v[i]);
    }
    assert forall|i: int| 0 <= i < DIM implies value(#[trigger] s[1][i]) == v[i] by {
        assert(value(p.stack[2][i]) == 0real);
        assert(value(p.stack[1][i]) == v[i]);
    }
}

/// One Euler predictor-corrector step of a particle in free flight.
pub proof fn euler_predictor_corrector_cruises<S: Scalar, M: Acceleration<S, DIM>, const DIM: usize>(
    model: M,
    dt: S,
    value: spec_fn(S) -> real,
    v: Seq<real>,
    p: ParticleView<S>,
    others: Seq<ParticleView<S>>,
)
    requires
        crate::scalar::exact(value),
        force_free::<S, M, DIM>(model, value),
        cruising(Integration::EulerPredictorCorrector, value, value(dt), v, p, DIM as nat),
    ensures
        cruising(
            Integration::EulerPredictorCorrector,
            value,
            value(dt),
            v,
            p.with_stack(crate::methods::euler_predictor_corrector_step::<S, M, DIM>(model, dt, p, others)).with_prev(
                p.stack,
            ),
            DIM as nat,
        ),
        flown(
            DIM as nat,
            value,
            value(dt),
            v,
            p,
            crate::methods::euler_predictor_corrector_step::<S, M, DIM>(model, dt, p, others),
        ),
{
    reveal(cruising);
    reveal(flown);
    let s = crate::methods::euler_predictor_corrector_step::<S, M, DIM>(model, dt, p, others);
    assert(value(S::of_int(2)) == 2real);
    assert forall|i: int| 0 <= i < DIM implies value(#[trigger] s[1][i]) == v[i] by {
        assert(value(s[2][i]) == 0real);
        assert(value(p.stack[1][i]) == v[i]);
    }
    assert forall|i: int| 0 <= i < DIM implies value(#[trigger] s[0][i]) == value(p.stack[0][i])
        + value(dt) * v[i] by {
        assert(value(s[1][i]) == v[i]);
        assert(value(s[0][i]) == value(p.stack[0][i]) + v[i] * value(dt));
        assert(v[i] * value(dt) == value(dt) * v[i]) by (nonlinear_arith);
    }
}

/// One Beeman step of a particle in free flight.
pub proof fn beeman_cruises<S: Scalar, M: Acceleration<S, DIM>, const DIM: usize>(
    model: M,
    dt: S,
    value: spec_fn(S) -> real,
    v: Seq<real>,
    p: ParticleView<S>,
    others: Seq<ParticleView<S>>,
)
    requires
        crate::scalar::exact(value),
        force_free::<S, M, DIM>(model, value),
        cruising(Integration::Beeman, value, value(dt), v, p, DIM as nat),
    ensures
        cruising(
            Integration::Beeman,
            value,
            value(dt),
            v,
            p.with_stack(crate::methods::beeman_step::<S, M, DIM>(model, dt, p, others)).with_prev(
                p.stack,
            ),
            DIM as nat,
        ),
        flown(
            DIM as nat,
            value,
            value(dt),
            v,
            p,
            crate::methods::beeman_step::<S, M, DIM>(model, dt, p, others),
        ),
{
    reveal(cruising);
    reveal(flown);
    let s = crate::methods::beeman_step::<S, M, DIM>(model, dt, p, others);
    assert(value(S::of_int(2)) == 2real);
    assert(value(S::of_int(1)) == 1real && value(S::of_int(3)) == 3real && value(S::of_int(5))
        == 5real && value(S::of_int(6)) == 6real);
    assert forall|i: int| 0 <= i < DIM implies value(#[trigger] s[0][i]) == value(p.stack[0][i])
        + value(dt) * v[i] by {
        assert(value(p.stack[2][i]) == 0real);
        assert(value(p.prev[2][i]) == 0real);
        assert(value(p.stack[1][i]) == v[i]);
        assert(value(p.stack[1][i].product(dt)) == v[i] * value(dt));
        assert(v[i] * value(dt) == value(dt) * v[i]) by (nonlinear_arith);
    }
    assert forall|i: int| 0 <= i < DIM implies value(#[trigger] s[1][i]) == v[i] by {
        assert(value(p.stack[2][i]) == 0real);
        assert(value(p.prev[2][i]) == 0real);
        assert(value(p.stack[1][i]) == v[i]);
    }
}

/// One leap-frog step of a particle in free flight, with the history that the
/// scheme keeps of it.
pub proof fn leap_frog_cruises<S: Scalar, M: Acceleration<S, DIM>, const DIM: usize>(
    model: M,
    dt: S,
    value: spec_fn(S) -> real,
    v: Seq<real>,
    p: ParticleView<S>,
    others: Seq<ParticleView<S>>,
)
    requires
        crate::scalar::exact(value),
        force_free::<S, M, DIM>(model, value),
        cruising(Integration::VerletLeapFrog, value, value(dt), v, p, DIM as nat),
    ensures
        cruising(
            Integration::VerletLeapFrog,
            value,
            value(dt),
            v,
            p.with_stack(
                crate::methods::leap_frog_step::<S, M, DIM>(model, dt, p, others),
            ).with_prev(p.stack.update(1, crate::methods::half_step(dt, p, DIM as nat))),
            DIM as nat,
        ),
        flown(
            DIM as nat,
            value,
            value(dt),
            v,
            p,
            crate::methods::leap_frog_step::<S, M, DIM>(model, dt, p, others),
        ),
{
    reveal(cruising);
    reveal(flown);
    let s = crate::methods::leap_frog_step::<S, M, DIM>(model, dt, p, others);
    assert(value(S::of_int(2)) == 2real);
    let kept = p.stack.update(1, crate::methods::half_step(dt, p, DIM as nat));
    let q = p.with_stack(s).with_prev(kept);
    assert forall|i: int| 0 <= i < DIM implies value(#[trigger] s[0][i]) == value(p.stack[0][i])
        + value(dt) * v[i] by {
        assert(value(p.stack[2][i]) == 0real);
        assert(value(p.prev[1][i]) == v[i]);
    }
    assert forall|i: int| 0 <= i < DIM implies value(#[trigger] s[1][i]) == v[i] by {
        assert(value(p.stack[2][i]) == 0real);
        assert(value(p.prev[1][i]) == v[i]);
    }
    assert forall|i: int| 0 <= i < DIM implies value(#[trigger] q.prev[1][i]) == v[i] by {
        assert(value(p.stack[2][i]) == 0real);
        assert(value(p.prev[1][i]) == v[i]);
    }
    assert(q.wf(DIM as nat));
}

/// One Verlet step of a particle in free flight.
pub proof fn verlet_cruises<S: Scalar, M: Acceleration<S, DIM>, const DIM: usize>(
    model: M,
    dt: S,
    value: spec_fn(S) -> real,
    v: Seq<real>,
    p: ParticleView<S>,
    others: Seq<ParticleView<S>>,
)
    requires
        crate::scalar::exact(value),
        force_free::<S, M, DIM>(model, value),
        cruising(Integration::Verlet, value, value(dt), v, p, DIM as nat),
        value(dt) != 0real,
    ensures
        cruising(
            Integration::Verlet,
            value,
            value(dt),
            v,
            p.with_stack(crate::methods::verlet_step::<S, M, DIM>(model, dt, p, others)).with_prev(
                p.stack,
            ),
            DIM as nat,
        ),
        flown(
            DIM as nat,
            value,
            value(dt),
            v,
            p,
            crate::methods::verlet_step::<S, M, DIM>(model, dt, p, others),
        ),
{
    reveal(cruising);
    reveal(flown);
    let s = crate::methods::verlet_step::<S, M, DIM>(model, dt, p, others);
    assert(value(S::of_int(2)) == 2real);
    let t = value(dt);
    assert forall|i: int| 0 <= i < DIM implies value(#[trigger] s[0][i]) == value(p.stack[0][i])
        + t * v[i] by {
        assert(value(p.stack[2][i]) == 0real);
        assert(value(p.prev[0][i]) == value(p.stack[0][i]) - t * v[i]);
    }
    assert forall|i: int| 0 <= i < DIM implies value(#[trigger] s[1][i]) == v[i] by {
        let r = value(p.stack[0][i]);
        assert(value(s[0][i]) == r + t * v[i]);
        assert(value(p.prev[0][i]) == r - t * v[i]);
        assert(value(S::of_int(2).product(dt)) == 2real * t);
        assert(2real * t != 0real);
        assert(value(s[1][i]) == ((r + t * v[i]) - (r - t * v[i])) / (2real * t));
        assert(((r + t * v[i]) - (r - t * v[i])) / (2real * t) == v[i]) by (nonlinear_arith)
            requires
                t != 0real,
        ;
    }
}

/// The weight of the derivative `n` orders up, for `n` from 2 to 5, in
/// Taylor's formula over the time `s`: `s` to the power `n`, over `n`
/// factorial.
pub open spec fn weight(s: real, n: int) -> real {
    if n == 2 {
        (1real / 2real) * (s * s)
    } else if n == 3 {
        (1real / 6real) * (s * s * s)
    } else if n == 4 {
        (1real / 24real) * (s * s * s * s)
    } else {
        (1real / 120real) * (s * s * s * s * s)
    }
}

/// The derivative of order `k`, from 0 to 5, that Taylor's formula gives for
/// the time `s` from the six derivatives `c` at the time zero.
#[verifier::opaque]
pub open spec fn taylor(c: Seq<real>, k: int, s: real) -> real {
    if k <= 0 {
        c[0] + c[1] * s + weight(s, 2) * c[2] + weight(s, 3) * c[3] + weight(s, 4) * c[4] + weight(
            s,
            5,
        ) * c[5]
    } else if k == 1 {
        c[1] + c[2] * s + weight(s, 2) * c[3] + weight(s, 3) * c[4] + weight(s, 4) * c[5]
    } else if k == 2 {
        c[2] + c[3] * s + weight(s, 2) * c[4] + weight(s, 3) * c[5]
    } else if k == 3 {
        c[3] + c[4] * s + weight(s, 2) * c[5]
    } else if k == 4 {
        c[4] + c[5] * s
    } else {
        c[5]
    }
}

/// The scalars of `d` as real numbers.
pub open spec fn readings<S>(value: spec_fn(S) -> real, d: Seq<S>) -> Seq<real> {
    Seq::new(d.len(), |k: int| value(d[k]))
}

/// In exact arithmetic the Gear predictor is the Taylor polynomial: it carries
/// the six derivatives `d` of a coordinate on for one time step along the
/// course that they determine.
pub proof fn gear_predicts_along_the_course<S: Scalar>(
    value: spec_fn(S) -> real,
    dt: S,
    d: Seq<S>,
    k: int,
)
    requires
        crate::scalar::exact(value),
        d.len() >= 6,
        0 <= k < 6,
    ensures
        value(crate::methods::gear_predicted(dt, d, k)) == taylor(
            readings(value, d).subrange(0, 6),
            k,
            value(dt),
        ),
{
    reveal(taylor);
    reveal_with_fuel(crate::methods::taylor_terms, 6);
    reveal_with_fuel(crate::methods::power, 6);
    let t = value(dt);
    let c = readings(value, d).subrange(0, 6);
    assert(c[0] == value(d[0]) && c[1] == value(d[1]) && c[2] == value(d[2]) && c[3] == value(d[3])
        && c[4] == value(d[4]) && c[5] == value(d[5]));
    assert(value(S::of_int(1)) == 1real && value(S::of_int(2)) == 2real && value(S::of_int(6))
        == 6real && value(S::of_int(24)) == 24real && value(S::of_int(120)) == 120real);
    assert(value(crate::methods::taylor_weight(dt, 2)) == weight(t, 2));
    assert(value(crate::methods::taylor_weight(dt, 3)) == weight(t, 3));
    assert(value(crate::methods::taylor_weight(dt, 4)) == weight(t, 4));
    assert(value(crate::methods::taylor_weight(dt, 5)) == weight(t, 5));
}

/// In exact arithmetic no power of a number other than zero is zero.
proof fn a_power_is_not_zero<S: Scalar>(value: spec_fn(S) -> real, dt: S, n: nat)
    requires
        crate::scalar::exact(value),
        value(dt) != 0real,
    ensures
        value(crate::methods::power(dt, n)) != 0real,
    decreases n,
{
    if n > 1 {
        a_power_is_not_zero(value, dt, (n - 1) as nat);
        let x = value(crate::methods::power(dt, (n - 1) as nat));
        let t = value(dt);
        assert(value(crate::methods::power(dt, n)) == x * t);
        assert(x * t != 0real) by (nonlinear_arith)
            requires
                x != 0real,
                t != 0real,
        ;
    }
}

/// In exact arithmetic the Gear corrector adds nothing where the model gives
/// the predicted acceleration.
proof fn a_confirmed_prediction_needs_no_correction<S: Scalar>(
    value: spec_fn(S) -> real,
    dt: S,
    k: int,
    depends_on_velocity: bool,
    a: S,
    b: S,
)
    requires
        crate::scalar::exact(value),
        value(dt) != 0real,
        value(a) == value(b),
        0 <= k < 6,
    ensures
        value(
            crate::methods::gear_correction(
                dt,
                k,
                depends_on_velocity,
                crate::methods::gear_gap(dt, a, b),
            ),
        ) == 0real,
{
    let gap = crate::methods::gear_gap(dt, a, b);
    let square = value(crate::methods::power(dt, 2));
    assert(value(S::of_int(2)) == 2real);
    assert(value(a.difference(b)) == 0real);
    assert(value(a.difference(b).product(crate::methods::power(dt, 2))) == 0real * square);
    assert(0real * square == 0real) by (nonlinear_arith);
    assert(value(gap) == 0real);
    let coefficient = crate::methods::gear_coefficient::<S>(k, depends_on_velocity);
    let weighed = coefficient.product(gap);
    let c = value(coefficient);
    assert(value(weighed) == c * 0real);
    assert(c * 0real == 0real) by (nonlinear_arith);
    if k > 0 {
        a_power_is_not_zero(value, dt, k as nat);
        let x = value(crate::methods::power(dt, k as nat));
        assert(value(weighed.quotient(crate::methods::power(dt, k as nat))) == 0real / x);
        assert(0real / x == 0real) by (nonlinear_arith)
            requires
                x != 0real,
        ;
    }
}

/// In exact arithmetic, with a time step other than zero, the Gear corrector
/// leaves a prediction as it is where the model confirms it: where the
/// acceleration that the model gives at the predicted state is the predicted
/// acceleration, the step yields what Taylor's formula gives for one time step
/// later from the six derivatives of the particle.
pub proof fn gear_keeps_a_confirmed_prediction<S: Scalar, M: Acceleration<S, DIM>, const DIM: usize>(
    model: M,
    depends_on_velocity: bool,
    dt: S,
    value: spec_fn(S) -> real,
    p: ParticleView<S>,
    others: Seq<ParticleView<S>>,
)
    requires
        crate::scalar::exact(value),
        value(dt) != 0real,
        p.wf(DIM as nat),
        p.stack.len() >= 6,
        forall|i: int|
            0 <= i < DIM ==> value(
                #[trigger] model.acceleration(
                    p.at(
                        crate::methods::gear_prediction(dt, p.stack, 0, DIM as nat),
                        crate::methods::gear_prediction(dt, p.stack, 1, DIM as nat),
                        crate::methods::gear_prediction(dt, p.stack, 2, DIM as nat),
                    ),
                    others,
                )[i],
            ) == value(crate::methods::gear_predicted(dt, crate::methods::column(p.stack, i), 2)),
    ensures
        forall|k: int, i: int|
            0 <= k < 6 && 0 <= i < DIM ==> value(
                #[trigger] crate::methods::gear_step::<S, M, DIM>(
                    model,
                    depends_on_velocity,
                    dt,
                    p,
                    others,
                )[k][i],
            ) == taylor(
                readings(value, crate::methods::column(p.stack, i)).subrange(0, 6),
                k,
                value(dt),
            ),
{
    let s = crate::methods::gear_step::<S, M, DIM>(model, depends_on_velocity, dt, p, others);
    let a = model.acceleration(
        p.at(
            crate::methods::gear_prediction(dt, p.stack, 0, DIM as nat),
            crate::methods::gear_prediction(dt, p.stack, 1, DIM as nat),
            crate::methods::gear_prediction(dt, p.stack, 2, DIM as nat),
        ),
        others,
    );
    assert forall|k: int, i: int| 0 <= k < 6 && 0 <= i < DIM implies value(#[trigger] s[k][i])
        == taylor(
        readings(value, crate::methods::column(p.stack, i)).subrange(0, 6),
        k,
        value(dt),
    ) by {
        let d = crate::methods::column(p.stack, i);
        let predicted = crate::methods::gear_predicted(dt, d, k);
        let confirmed = crate::methods::gear_predicted(dt, d, 2);
        gear_predicts_along_the_course(value, dt, d, k);
        a_confirmed_prediction_needs_no_correction(
            value,
            dt,
            k,
            depends_on_velocity,
            a[i],
            confirmed,
        );
        let correction = crate::methods::gear_correction(
            dt,
            k,
            depends_on_velocity,
            crate::methods::gear_gap(dt, a[i], confirmed),
        );
        assert(s[k][i] == predicted.sum(correction));
    }
}

/// One Gear step of a particle in free flight.
pub proof fn gear_cruises<S: Scalar, M: Acceleration<S, DIM>, const DIM: usize>(
    model: M,
    depends_on_velocity: bool,
    dt: S,
    value: spec_fn(S) -> real,
    v: Seq<real>,
    p: ParticleView<S>,
    others: Seq<ParticleView<S>>,
)
    requires
        crate::scalar::exact(value),
        force_free::<S, M, DIM>(model, value),
        cruising(Integration::GearPredictorCorrector, value, value(dt), v, p, DIM as nat),
        value(dt) != 0real,
    ensures
        cruising(
            Integration::GearPredictorCorrector,
            value,
            value(dt),
            v,
            p.with_stack(
                crate::methods::gear_step::<S, M, DIM>(model, depends_on_velocity, dt, p, others),
            ).with_prev(p.stack),
            DIM as nat,
        ),
        flown(
            DIM as nat,
            value,
            value(dt),
            v,
            p,
            crate::methods::gear_step::<S, M, DIM>(model, depends_on_velocity, dt, p, others),
        ),
{
    reveal(taylor);
    reveal(cruising);
    reveal(flown);
    let t = value(dt);
    let s = crate::methods::gear_step::<S, M, DIM>(model, depends_on_velocity, dt, p, others);
    assert forall|i: int| 0 <= i < DIM implies #[trigger] readings(
        value,
        crate::methods::column(p.stack, i),
    ).subrange(0, 6) =~= seq![value(p.stack[0][i]), v[i], 0real, 0real, 0real, 0real] by {
        assert(value(p.stack[1][i]) == v[i]);
        assert(value(p.stack[2][i]) == 0real);
        assert(value(p.stack[3][i]) == 0real);
        assert(value(p.stack[4][i]) == 0real);
        assert(value(p.stack[5][i]) == 0real);
    }
    assert forall|i: int| 0 <= i < DIM implies value(
        #[trigger] model.acceleration(
            p.at(
                crate::methods::gear_prediction(dt, p.stack, 0, DIM as nat),
                crate::methods::gear_prediction(dt, p.stack, 1, DIM as nat),
                crate::methods::gear_prediction(dt, p.stack, 2, DIM as nat),
            ),
            others,
        )[i],
    ) == value(crate::methods::gear_predicted(dt, crate::methods::column(p.stack, i), 2)) by {
        gear_predicts_along_the_course(value, dt, crate::methods::column(p.stack, i), 2);
        assert(readings(value, crate::methods::column(p.stack, i)).subrange(0, 6)[2] == 0real);
    }
    gear_keeps_a_confirmed_prediction::<S, M, DIM>(model, depends_on_velocity, dt, value, p, others);
    assert forall|k: int, i: int| 0 <= k < 6 && 0 <= i < DIM implies value(#[trigger] s[k][i]) == (
    if k == 0 {
        value(p.stack[0][i]) + t * v[i]
    } else if k == 1 {
        v[i]
    } else {
        0real
    }) by {
        let c = readings(value, crate::methods::column(p.stack, i)).subrange(0, 6);
        assert(c =~= seq![value(p.stack[0][i]), v[i], 0real, 0real, 0real, 0real]);
        assert(value(s[k][i]) == taylor(c, k, t));
        assert(v[i] * t == t * v[i]) by (nonlinear_arith);
    }
    let q = p.with_stack(s).with_prev(p.stack);
    assert(q.wf(DIM as nat));
    assert forall|i: int| 0 <= i < DIM implies value(#[trigger] q.stack[2][i]) == 0real by {
        assert(value(s[2][i]) == 0real);
    }
    assert forall|i: int| 0 <= i < DIM implies value(#[trigger] q.stack[1][i]) == v[i] by {
        assert(value(s[1][i]) == v[i]);
    }
    assert forall|i: int| 0 <= i < DIM implies value(#[trigger] s[0][i]) == value(p.stack[0][i])
        + t * v[i] by {
        assert(value(s[0][i]) == value(p.stack[0][i]) + t * v[i]);
    }
}

/// The particle `p` one step of `method` later, in the set `others`.
pub open spec fn stepped<S: Scalar, M: Acceleration<S, DIM>, const DIM: usize>(
    method: Integrator<S, M>,
    p: ParticleView<S>,
    others: Seq<ParticleView<S>>,
) -> ParticleView<S> {
    ParticleView {
        stack: IntegrationMethod::<S, DIM>::step(&method, p, others),
        prev: IntegrationMethod::<S, DIM>::history(
            &method,
            p,
            IntegrationMethod::<S, DIM>::step(&method, p, others),
        ),
        ..p
    }
}

/// In exact arithmetic, one step of any scheme moves a particle in free flight
/// by its velocity times the time step, and leaves it in free flight with the
/// same velocity.
pub proof fn a_free_step_is_a_straight_stride<S: Scalar, M: Acceleration<S, DIM>, const DIM: usize>(
    method: Integrator<S, M>,
    value: spec_fn(S) -> real,
    v: Seq<real>,
    p: ParticleView<S>,
    others: Seq<ParticleView<S>>,
)
    requires
        crate::scalar::exact(value),
        force_free::<S, M, DIM>(method.model(), value),
        cruising(method.kind(), value, value(method.time_step()), v, p, DIM as nat),
        divides_by_time_step(method.kind()) ==> value(method.time_step()) != 0real,
    ensures
        cruising(
            method.kind(),
            value,
            value(method.time_step()),
            v,
            stepped::<S, M, DIM>(method, p, others),
            DIM as nat,
        ),
        flown(
            DIM as nat,
            value,
            value(method.time_step()),
            v,
            p,
            stepped::<S, M, DIM>(method, p, others).stack,
        ),
{
    let dt = method.time_step();
    let model = method.model();
    let q = stepped::<S, M, DIM>(method, p, others);
    match method {
        Integrator::Euler(m) => {
            euler_cruises::<S, M, DIM>(model, dt, value, v, p, others);
            assert(q == p.with_stack(
                crate::methods::euler_step::<S, M, DIM>(model, dt, p, others),
            ).with_prev(p.stack));
        },
        Integrator::EulerMod(m) => {
            euler_mod_cruises::<S, M, DIM>(model, dt, value, v, p, others);
            assert(q == p.with_stack(
                crate::methods::euler_mod_step::<S, M, DIM>(model, dt, p, others),
            ).with_prev(p.stack));
        },
        Integrator::Verlet(m) => {
            verlet_cruises::<S, M, DIM>(model, dt, value, v, p, others);
            assert(q == p.with_stack(
                crate::methods::verlet_step::<S, M, DIM>(model, dt, p, others),
            ).with_prev(p.stack));
        },
        Integrator::VerletLeapFrog(m) => {
            leap_frog_cruises::<S, M, DIM>(model, dt, value, v, p, others);
            let s = crate::methods::leap_frog_step::<S, M, DIM>(model, dt, p, others);
            assert(q == p.with_stack(s).with_prev(
                p.stack.update(1, crate::methods::half_step(dt, p, DIM as nat)),
            ));
        },
        Integrator::VelocityVerlet(m) => {
            velocity_verlet_cruises::<S, M, DIM>(model, dt, value, v, p, others);
            assert(q == p.with_stack(
                crate::methods::velocity_verlet_step::<S, M, DIM>(model, dt, p, others),
            ).with_prev(p.stack));
        },
        Integrator::Beeman(m) => {
            beeman_cruises::<S, M, DIM>(model, dt, value, v, p, others);
            assert(q == p.with_stack(
                crate::methods::beeman_step::<S, M, DIM>(model, dt, p, others),
            ).with_prev(p.stack));
        },
        Integrator::EulerPredictorCorrector(m) => {
            euler_predictor_corrector_cruises::<S, M, DIM>(model, dt, value, v, p, others);
            assert(q == p.with_stack(
                crate::methods::euler_predictor_corrector_step::<S, M, DIM>(model, dt, p, others),
            ).with_prev(p.stack));
        },
        Integrator::GearPredictorCorrector(m) => {
            gear_cruises::<S, M, DIM>(model, m.depends_on_velocity(), dt, value, v, p, others);
            assert(q == p.with_stack(
                crate::methods::gear_step::<S, M, DIM>(
                    model,
                    m.depends_on_velocity(),
                    dt,
                    p,
                    others,
                ),
            ).with_prev(p.stack));
        },
    }
}

/// In exact arithmetic, free flight is a straight line under every scheme:
/// after any number of steps, each particle of a set in free flight has moved
/// from where it was by its velocity times the time that has passed.
pub proof fn free_flight_is_a_straight_line<S: Scalar, M: Acceleration<S, DIM>, const DIM: usize>(
    method: Integrator<S, M>,
    value: spec_fn(S) -> real,
    velocities: Seq<Seq<real>>,
    particles: Seq<ParticleView<S>>,
    steps: nat,
)
    requires
        crate::scalar::exact(value),
        force_free::<S, M, DIM>(method.model(), value),
        velocities.len() == particles.len(),
        forall|k: int|
            0 <= k < particles.len() ==> cruising(
                method.kind(),
                value,
                value(method.time_step()),
                velocities[k],
                #[trigger] particles[k],
                DIM as nat,
            ),
        divides_by_time_step(method.kind()) ==> value(method.time_step()) != 0real,
    ensures
        crate::methods::advanced_by::<S, Integrator<S, M>, DIM>(method, particles, steps).len()
            == particles.len(),
        forall|k: int|
            0 <= k < particles.len() ==> cruising(
                method.kind(),
                value,
                value(method.time_step()),
                velocities[k],
                #[trigger] crate::methods::advanced_by::<S, Integrator<S, M>, DIM>(
                    method,
                    particles,
                    steps,
                )[k],
                DIM as nat,
            ),
        forall|k: int, i: int|
            0 <= k < particles.len() && 0 <= i < DIM ==> value(
                #[trigger] crate::methods::advanced_by::<S, Integrator<S, M>, DIM>(
                    method,
                    particles,
                    steps,
                )[k].stack[0][i],
            ) == value(particles[k].stack[0][i]) + steps as real * (value(method.time_step())
                * velocities[k][i]),
    decreases steps,
{
    reveal(flown);
    let t = value(method.time_step());
    let after = crate::methods::advanced_by::<S, Integrator<S, M>, DIM>(method, particles, steps);
    if steps > 0 {
        let before = crate::methods::advanced_by::<S, Integrator<S, M>, DIM>(
            method,
            particles,
            (steps - 1) as nat,
        );
        free_flight_is_a_straight_line::<S, M, DIM>(
            method,
            value,
            velocities,
            particles,
            (steps - 1) as nat,
        );
        assert forall|k: int| 0 <= k < particles.len() implies cruising(
            method.kind(),
            value,
            t,
            velocities[k],
            #[trigger] after[k],
            DIM as nat,
        ) && (forall|i: int|
            0 <= i < DIM ==> value(#[trigger] after[k].stack[0][i]) == value(
                particles[k].stack[0][i],
            ) + steps as real * (t * velocities[k][i])) by {
            a_free_step_is_a_straight_stride::<S, M, DIM>(
                method,
                value,
                velocities[k],
                before[k],
                before,
            );
            assert(after[k] == stepped::<S, M, DIM>(method, before[k], before));
            assert forall|i: int| 0 <= i < DIM implies value(#[trigger] after[k].stack[0][i])
                == value(particles[k].stack[0][i]) + steps as real * (t * velocities[k][i]) by {
                let x = t * velocities[k][i];
                let r = value(particles[k].stack[0][i]);
                assert(value(before[k].stack[0][i]) == r + (steps - 1) as real * x);
                assert(value(after[k].stack[0][i]) == value(before[k].stack[0][i]) + x);
                assert((steps - 1) as real == steps as real - 1real);
                assert(r + (steps as real - 1real) * x + x == r + steps as real * x)
                    by (nonlinear_arith);
            }
        }
    } else {
        assert forall|k: int, i: int| 0 <= k < particles.len() && 0 <= i < DIM implies value(
            #[trigger] after[k].stack[0][i],
        ) == value(particles[k].stack[0][i]) + steps as real * (t * velocities[k][i]) by {
            let x = t * velocities[k][i];
            assert(0real * x == 0real) by (nonlinear_arith);
        }
    }
}

/// Whether the higher derivatives that a particle is given for the Gear scheme
/// leave it in free flight: whether, with `more` appended, its stack holds six
/// derivatives at least, each of `dim` components, of which those of third to
/// fifth order are zero.
pub open spec fn unforced<S: Scalar>(
    value: spec_fn(S) -> real,
    p: ParticleView<S>,
    more: Seq<Seq<S>>,
    dim: nat,
) -> bool {
    &&& (p.stack + more).len() >= 6
    &&& forall|k: int| 0 <= k < more.len() ==> (#[trigger] more[k]).len() == dim
    &&& forall|k: int, i: int|
        3 <= k < 6 && 0 <= i < dim ==> value(#[trigger] (p.stack + more)[k][i]) == 0real
}

/// In exact arithmetic, the construction of a scheme leaves a particle that
/// has no acceleration, among particles that exert no force, in free flight
/// with the velocity it has.
pub proof fn preparation_starts_a_free_flight<S: Scalar, M: Acceleration<S, DIM>, const DIM: usize>(
    kind: Integration,
    model: M,
    dt: S,
    value: spec_fn(S) -> real,
    more: Seq<Seq<S>>,
    p: ParticleView<S>,
    others: Seq<ParticleView<S>>,
)
    requires
        crate::scalar::exact(value),
        force_free::<S, M, DIM>(model, value),
        p.wf(DIM as nat),
        forall|i: int| 0 <= i < DIM ==> value(#[trigger] p.stack[2][i]) == 0real,
        kind == Integration::GearPredictorCorrector ==> unforced(value, p, more, DIM as nat),
    ensures
        cruising(
            kind,
            value,
            value(dt),
            readings(value, p.stack[1]),
            crate::integrator::prepared::<S, M, DIM>(kind, model, dt, more, p, others),
            DIM as nat,
        ),
        crate::integrator::prepared::<S, M, DIM>(kind, model, dt, more, p, others).stack[0]
            == p.stack[0],
{
    reveal(cruising);
    let t = value(dt);
    let v = readings(value, p.stack[1]);
    let q = crate::integrator::prepared::<S, M, DIM>(kind, model, dt, more, p, others);
    assert(value(S::of_int(2)) == 2real);
    assert forall|i: int| 0 <= i < DIM implies value(#[trigger] p.stack[1][i]) == v[i] by {}
    match kind {
        Integration::GearPredictorCorrector => {
            assert forall|k: int| 0 <= k < q.stack.len() implies (#[trigger] q.stack[k]).len()
                == DIM as nat by {
                if k >= p.stack.len() {
                    assert(q.stack[k] == more[k - p.stack.len()]);
                } else {
                    assert(q.stack[k] == p.stack[k]);
                }
            }
            assert(q.stack[1] == p.stack[1] && q.stack[2] == p.stack[2]);
        },
        Integration::Verlet | Integration::Beeman => {
            let back = dt.negation();
            let prev = crate::methods::euler_step::<S, M, DIM>(model, back, p, others);
            assert(q == p.with_prev(prev));
            assert(q.wf(DIM as nat));
            assert forall|i: int| 0 <= i < DIM implies value(#[trigger] q.prev[0][i]) == value(
                q.stack[0][i],
            ) - t * v[i] by {
                assert(value(p.stack[2][i]) == 0real);
                assert(value(p.stack[1][i]) == v[i]);
                let x = v[i];
                assert(value(back.product(p.stack[1][i])) == (-t) * x);
                assert((-t) * x == -(t * x)) by (nonlinear_arith);
            }
        },
        Integration::VerletLeapFrog => {
            let back = dt.negation().quotient(S::of_int(2));
            let prev = crate::methods::euler_step::<S, M, DIM>(model, back, p, others);
            assert(q == p.with_prev(prev));
            assert(q.wf(DIM as nat));
            assert forall|i: int| 0 <= i < DIM implies value(#[trigger] q.prev[1][i]) == v[i] by {
                assert(value(p.stack[2][i]) == 0real);
                assert(value(p.stack[1][i]) == v[i]);
            }
        },
        _ => {
            assert(q == p);
        },
    }
}

/// In exact arithmetic, particles that feel no force move in straight lines
/// under every scheme.
///
/// Let the particles have no acceleration to begin with, let the model give
/// none, and let the scheme be set up for them and then step any number of
/// times. Then each particle is found where it was, displaced by the velocity
/// it had times the time that has passed, with that velocity and with no
/// acceleration. (The Gear scheme is to be given
/// higher derivatives that are zero, and it and the Verlet scheme a time step
/// other than zero.)
pub proof fn free_particles_move_in_straight_lines<
    S: Scalar,
    M: Acceleration<S, DIM>,
    const DIM: usize,
>(
    method: Integrator<S, M>,
    value: spec_fn(S) -> real,
    more: Seq<Seq<Seq<S>>>,
    particles: Seq<ParticleView<S>>,
    steps: nat,
)
    requires
        crate::scalar::exact(value),
        force_free::<S, M, DIM>(method.model(), value),
        divides_by_time_step(method.kind()) ==> value(method.time_step()) != 0real,
        forall|k: int| 0 <= k < particles.len() ==> (#[trigger] particles[k]).wf(DIM as nat),
        forall|k: int, i: int|
            0 <= k < particles.len() && 0 <= i < DIM ==> value(#[trigger] particles[k].stack[2][i])
                == 0real,
        method.kind() == Integration::GearPredictorCorrector ==> more.len() == particles.len()
            && forall|k: int|
            0 <= k < particles.len() ==> unforced(
                value,
                #[trigger] particles[k],
                more[k],
                DIM as nat,
            ),
    ensures
        forall|k: int, i: int|
            0 <= k < particles.len() && 0 <= i < DIM ==> value(
                #[trigger] crate::methods::advanced_by::<S, Integrator<S, M>, DIM>(
                    method,
                    set_up::<S, M, DIM>(method, more, particles),
                    steps,
                )[k].stack[0][i],
            ) == value(particles[k].stack[0][i]) + steps as real * (value(method.time_step())
                * value(particles[k].stack[1][i])),
        forall|k: int, i: int|
            0 <= k < particles.len() && 0 <= i < DIM ==> value(
                #[trigger] crate::methods::advanced_by::<S, Integrator<S, M>, DIM>(
                    method,
                    set_up::<S, M, DIM>(method, more, particles),
                    steps,
                )[k].stack[1][i],
            ) == value(particles[k].stack[1][i]),
        forall|k: int, i: int|
            0 <= k < particles.len() && 0 <= i < DIM ==> value(
                #[trigger] crate::methods::advanced_by::<S, Integrator<S, M>, DIM>(
                    method,
                    set_up::<S, M, DIM>(method, more, particles),
                    steps,
                )[k].stack[2][i],
            ) == 0real,
{
    let start = set_up::<S, M, DIM>(method, more, particles);
    let velocities = Seq::new(particles.len(), |k: int| readings(value, particles[k].stack[1]));
    assert forall|k: int| 0 <= k < start.len() implies cruising(
        method.kind(),
        value,
        value(method.time_step()),
        velocities[k],
        #[trigger] start[k],
        DIM as nat,
    ) && start[k].stack[0] == particles[k].stack[0] by {
        preparation_starts_a_free_flight::<S, M, DIM>(
            method.kind(),
            method.model(),
            method.time_step(),
            value,
            more[k],
            particles[k],
            particles,
        );
    }
    free_flight_is_a_straight_line::<S, M, DIM>(method, value, velocities, start, steps);
    assert forall|k: int, i: int| 0 <= k < particles.len() && 0 <= i < DIM implies value(
        #[trigger] crate::methods::advanced_by::<S, Integrator<S, M>, DIM>(method, start, steps)[k].stack[0][i],
    ) == value(particles[k].stack[0][i]) + steps as real * (value(method.time_step()) * value(
        particles[k].stack[1][i],
    )) by {
        assert(start[k].stack[0] == particles[k].stack[0]);
        assert(velocities[k][i] == value(particles[k].stack[1][i]));
    }
    let after = crate::methods::advanced_by::<S, Integrator<S, M>, DIM>(method, start, steps);
    assert forall|k: int, i: int| 0 <= k < particles.len() && 0 <= i < DIM implies value(
        #[trigger] after[k].stack[1][i],
    ) == value(particles[k].stack[1][i]) by {
        reveal(cruising);
        assert(cruising(
            method.kind(),
            value,
            value(method.time_step()),
            velocities[k],
            after[k],
            DIM as nat,
        ));
        assert(velocities[k][i] == value(particles[k].stack[1][i]));
    }
    assert forall|k: int, i: int| 0 <= k < particles.len() && 0 <= i < DIM implies value(
        #[trigger] after[k].stack[2][i],
    ) == 0real by {
        reveal(cruising);
        assert(cruising(
            method.kind(),
            value,
            value(method.time_step()),
            velocities[k],
            after[k],
            DIM as nat,
        ));
    }
}

/// The particles as the construction of `method` leaves them: each prepared
/// for the scheme from the state that all of them come in, the particle `k`
/// with the higher derivatives `more[k]`.
pub open spec fn set_up<S: Scalar, M: Acceleration<S, DIM>, const DIM: usize>(
    method: Integrator<S, M>,
    more: Seq<Seq<Seq<S>>>,
    particles: Seq<ParticleView<S>>,
) -> Seq<ParticleView<S>> {
    Seq::new(
        particles.len(),
        |k: int|
            crate::integrator::prepared::<S, M, DIM>(
                method.kind(),
                method.model(),
                method.time_step(),
                more[k],
                particles[k],
                particles,
            ),
    )
}

/// The velocity that a Verlet step stores is the central difference of the
/// positions one step ahead and one step before, for every scalar: it is
/// computed from the new position and no second way.
pub proof fn verlet_velocity_is_the_central_difference<
    S: Scalar,
    M: Acceleration<S, DIM>,
    const DIM: usize,
>(model: M, dt: S, p: ParticleView<S>, others: Seq<ParticleView<S>>, i: int)
    requires
        p.wf(DIM as nat),
        0 <= i < DIM,
    ensures
        crate::methods::verlet_step::<S, M, DIM>(model, dt, p, others)[1][i]
            == crate::methods::verlet_step::<S, M, DIM>(model, dt, p, others)[0][i].difference(
            p.prev[0][i],
        ).quotient(S::of_int(2).product(dt)),
{
}

/// In exact arithmetic, with a time step other than zero, the velocity that a
/// Verlet step stores is also the backward difference of the positions plus
/// half a step of the acceleration: the two ways to read the velocity off the
/// three positions of the recurrence agree.
pub proof fn verlet_velocity_agrees_with_the_recurrence<
    S: Scalar,
    M: Acceleration<S, DIM>,
    const DIM: usize,
>(model: M, dt: S, value: spec_fn(S) -> real, p: ParticleView<S>, others: Seq<ParticleView<S>>, i: int)
    requires
        crate::scalar::exact(value),
        value(dt) != 0real,
        p.wf(DIM as nat),
        0 <= i < DIM,
    ensures
        value(crate::methods::verlet_step::<S, M, DIM>(model, dt, p, others)[1][i]) == (value(
            p.stack[0][i],
        ) - value(p.prev[0][i])) / value(dt) + value(dt) * value(p.stack[2][i]) / 2real,
{
    let t = value(dt);
    let r = value(p.stack[0][i]);
    let q = value(p.prev[0][i]);
    let a = value(p.stack[2][i]);
    let s = crate::methods::verlet_step::<S, M, DIM>(model, dt, p, others);
    assert(value(S::of_int(2)) == 2real);
    assert(value(S::of_int(2).product(dt)) == 2real * t);
    assert(value(s[0][i]) == r * 2real + (-q + (t * t) * a));
    assert(value(s[1][i]) == ((r * 2real + (-q + (t * t) * a)) - q) / (2real * t));
    assert(((r * 2real + (-q + (t * t) * a)) - q) / (2real * t) == (r - q) / t + t * a / 2real)
        by (nonlinear_arith)
        requires
            t != 0real,
    ;
}

/// Whether a course, which gives the six derivatives of a coordinate at every
/// time, is that of a polynomial of at most the fifth degree in time: whether
/// Taylor's formula carries its derivatives at any time over to any other.
pub open spec fn polynomial(course: spec_fn(real) -> Seq<real>) -> bool {
    &&& forall|t: real| (#[trigger] course(t)).len() == 6
    &&& forall|t: real, later: real, k: int|
        #![trigger course(later)[k], course(t)]
        0 <= k < 6 ==> course(later)[k] == taylor(course(t), k, later - t)
}

/// Whether the particle `p` is on the given courses, one for each axis, at the
/// time `t`: whether its six derivatives are those of the courses.
pub open spec fn on_course<S: Scalar>(
    value: spec_fn(S) -> real,
    courses: Seq<spec_fn(real) -> Seq<real>>,
    t: real,
    p: ParticleView<S>,
    dim: nat,
) -> bool {
    &&& p.wf(dim)
    &&& p.stack.len() >= 6
    &&& courses.len() == dim
    &&& forall|k: int, i: int|
        0 <= k < 6 && 0 <= i < dim ==> value(#[trigger] p.stack[k][i]) == courses[i](t)[k]
}

/// Whether the particle `q` has the position and the velocity of the courses
/// at the time `t`.
pub open spec fn passes<S: Scalar>(
    value: spec_fn(S) -> real,
    courses: Seq<spec_fn(real) -> Seq<real>>,
    t: real,
    q: ParticleView<S>,
    dim: nat,
) -> bool {
    forall|i: int|
        0 <= i < dim ==> value(#[trigger] q.stack[0][i]) == courses[i](t)[0] && value(
            q.stack[1][i],
        ) == courses[i](t)[1]
}

/// Whether the model gives the acceleration of the courses: to a particle that
/// has the position and the velocity of the courses at some time, the
/// acceleration of the courses at that time.
pub open spec fn follows<S: Scalar, M: Acceleration<S, DIM>, const DIM: usize>(
    model: M,
    value: spec_fn(S) -> real,
    courses: Seq<spec_fn(real) -> Seq<real>>,
) -> bool {
    forall|q: ParticleView<S>, others: Seq<ParticleView<S>>, t: real|
        #![trigger model.acceleration(q, others), passes(value, courses, t, q, DIM as nat)]
        passes(value, courses, t, q, DIM as nat) ==> model.acceleration(q, others).len() == DIM
            && forall|i: int|
            0 <= i < DIM ==> value(#[trigger] model.acceleration(q, others)[i]) == courses[i](t)[2]
}

/// In exact arithmetic, with a time step other than zero, one Gear step keeps a
/// particle on a polynomial course: where the course of every coordinate is a
/// polynomial of at most the fifth degree in time and the model gives the
/// acceleration of the courses, a particle that is on the courses at the time
/// `t` is on them one time step later.
pub proof fn gear_advances_along_a_polynomial_course<
    S: Scalar,
    M: Acceleration<S, DIM>,
    const DIM: usize,
>(
    model: M,
    depends_on_velocity: bool,
    dt: S,
    value: spec_fn(S) -> real,
    courses: Seq<spec_fn(real) -> Seq<real>>,
    t: real,
    p: ParticleView<S>,
    others: Seq<ParticleView<S>>,
)
    requires
        crate::scalar::exact(value),
        value(dt) != 0real,
        forall|i: int| 0 <= i < DIM ==> polynomial(#[trigger] courses[i]),
        follows::<S, M, DIM>(model, value, courses),
        on_course(value, courses, t, p, DIM as nat),
    ensures
        on_course(
            value,
            courses,
            t + value(dt),
            p.with_stack(
                crate::methods::gear_step::<S, M, DIM>(model, depends_on_velocity, dt, p, others),
            ).with_prev(p.stack),
            DIM as nat,
        ),
{
    let h = value(dt);
    let s = crate::methods::gear_step::<S, M, DIM>(model, depends_on_velocity, dt, p, others);
    let probe = p.at(
        crate::methods::gear_prediction(dt, p.stack, 0, DIM as nat),
        crate::methods::gear_prediction(dt, p.stack, 1, DIM as nat),
        crate::methods::gear_prediction(dt, p.stack, 2, DIM as nat),
    );
    assert forall|k: int, i: int| 0 <= k < 6 && 0 <= i < DIM implies value(
        #[trigger] crate::methods::gear_predicted(dt, crate::methods::column(p.stack, i), k),
    ) == courses[i](t + h)[k] by {
        let d = crate::methods::column(p.stack, i);
        gear_predicts_along_the_course(value, dt, d, k);
        assert(polynomial(courses[i]));
        assert(readings(value, d).subrange(0, 6) =~= courses[i](t)) by {
            assert forall|j: int| 0 <= j < 6 implies readings(value, d).subrange(0, 6)[j]
                == courses[i](t)[j] by {
                assert(value(p.stack[j][i]) == courses[i](t)[j]);
            }
        }
        assert(courses[i](t + h)[k] == taylor(courses[i](t), k, (t + h) - t));
    }
    assert(passes(value, courses, t + h, probe, DIM as nat)) by {
        assert forall|i: int| 0 <= i < DIM implies value(#[trigger] probe.stack[0][i])
            == courses[i](t + h)[0] && value(probe.stack[1][i]) == courses[i](t + h)[1] by {
            let d = crate::methods::column(p.stack, i);
            assert(probe.stack[0][i] == crate::methods::gear_predicted(dt, d, 0));
            assert(probe.stack[1][i] == crate::methods::gear_predicted(dt, d, 1));
        }
    }
    let a = model.acceleration(probe, others);
    assert forall|i: int| 0 <= i < DIM implies value(#[trigger] a[i]) == value(
        crate::methods::gear_predicted(dt, crate::methods::column(p.stack, i), 2),
    ) by {
        assert(value(a[i]) == courses[i](t + h)[2]);
    }
    gear_keeps_a_confirmed_prediction::<S, M, DIM>(model, depends_on_velocity, dt, value, p, others);
    let q = p.with_stack(s).with_prev(p.stack);
    assert(q.wf(DIM as nat));
    assert forall|k: int, i: int| 0 <= k < 6 && 0 <= i < DIM implies value(#[trigger] q.stack[k][i])
        == courses[i](t + h)[k] by {
        let d = crate::methods::column(p.stack, i);
        gear_predicts_along_the_course(value, dt, d, k);
        assert(value(s[k][i]) == taylor(readings(value, d).subrange(0, 6), k, h));
        assert(value(crate::methods::gear_predicted(dt, d, k)) == courses[i](t + h)[k]);
    }
}

/// In exact arithmetic, with a time step other than zero, the Gear scheme
/// reproduces a polynomial course: a particle, alone in its set, that starts
/// on courses of at most the fifth degree in time whose acceleration the
/// model gives, is on those courses after any number of steps.
pub proof fn gear_follows_a_polynomial_course<S: Scalar, M: Acceleration<S, DIM>, const DIM: usize>(
    method: Integrator<S, M>,
    value: spec_fn(S) -> real,
    courses: Seq<spec_fn(real) -> Seq<real>>,
    t: real,
    p: ParticleView<S>,
    steps: nat,
)
    requires
        method.kind() == Integration::GearPredictorCorrector,
        crate::scalar::exact(value),
        value(method.time_step()) != 0real,
        forall|i: int| 0 <= i < DIM ==> polynomial(#[trigger] courses[i]),
        follows::<S, M, DIM>(method.model(), value, courses),
        on_course(value, courses, t, p, DIM as nat),
    ensures
        crate::methods::advanced_by::<S, Integrator<S, M>, DIM>(method, seq![p], steps).len() == 1,
        on_course(
            value,
            courses,
            t + steps as real * value(method.time_step()),
            crate::methods::advanced_by::<S, Integrator<S, M>, DIM>(method, seq![p], steps)[0],
            DIM as nat,
        ),
    decreases steps,
{
    let h = value(method.time_step());
    if steps > 0 {
        gear_follows_a_polynomial_course::<S, M, DIM>(
            method,
            value,
            courses,
            t,
            p,
            (steps - 1) as nat,
        );
        let before = crate::methods::advanced_by::<S, Integrator<S, M>, DIM>(
            method,
            seq![p],
            (steps - 1) as nat,
        );
        let after = crate::methods::advanced_by::<S, Integrator<S, M>, DIM>(method, seq![p], steps);
        let so_far = t + (steps - 1) as real * h;
        match method {
            Integrator::GearPredictorCorrector(m) => {
                gear_advances_along_a_polynomial_course::<S, M, DIM>(
                    method.model(),
                    m.depends_on_velocity(),
                    method.time_step(),
                    value,
                    courses,
                    so_far,
                    before[0],
                    before,
                );
                assert(after[0] == before[0].with_stack(
                    crate::methods::gear_step::<S, M, DIM>(
                        method.model(),
                        m.depends_on_velocity(),
                        method.time_step(),
                        before[0],
                        before,
                    ),
                ).with_prev(before[0].stack));
            },
            _ => {},
        }
        assert((steps - 1) as real == steps as real - 1real);
        assert(so_far + h == t + steps as real * h) by (nonlinear_arith)
            requires
                so_far == t + (steps as real - 1real) * h,
        ;
    } else {
        assert(0real * h == 0real) by (nonlinear_arith);
        assert(t + steps as real * h == t);
    }
}

/// The course of a coordinate under a constant acceleration `a`, from the
/// position `r` and the velocity `v` at the time zero.
pub open spec fn parabola(r: real, v: real, a: real) -> spec_fn(real) -> Seq<real> {
    |t: real| seq![r + v * t + (1real / 2real) * (t * t) * a, v + a * t, a, 0real, 0real, 0real]
}

/// The course of a coordinate under a constant acceleration is a polynomial
/// course; so is, with no acceleration, a straight line.
pub proof fn a_parabola_is_a_polynomial_course(r: real, v: real, a: real)
    ensures
        polynomial(parabola(r, v, a)),
{
    reveal(taylor);
    let course = parabola(r, v, a);
    assert forall|t: real, later: real, k: int|
        #![trigger course(later)[k], course(t)]
        0 <= k < 6 implies course(later)[k] == taylor(course(t), k, later - t) by {
        let h = later - t;
        let x = t * t;
        let y = t * h;
        let z = h * h;
        assert(later * later == x + 2real * y + z) by (nonlinear_arith)
            requires
                later == t + h,
                x == t * t,
                y == t * h,
                z == h * h,
        ;
        assert(v * later == v * t + v * h) by (nonlinear_arith)
            requires
                later == t + h,
        ;
        assert(a * later == a * t + a * h) by (nonlinear_arith)
            requires
                later == t + h,
        ;
        assert((1real / 2real) * (x + 2real * y + z) * a == (1real / 2real) * x * a + y * a + (1real
            / 2real) * z * a) by (nonlinear_arith);
        assert((v + a * t) * h == v * h + y * a) by (nonlinear_arith)
            requires
                y == t * h,
        ;
    }
}

/// Taylor's formula for the six derivatives `x0` to `x5` of a coordinate, over
/// the time `s`.
pub open spec fn series(x0: real, x1: real, x2: real, x3: real, x4: real, x5: real, s: real) -> real {
    x0 + x1 * s + weight(s, 2) * x2 + weight(s, 3) * x3 + weight(s, 4) * x4 + weight(s, 5) * x5
}

/// A product spreads over a sum of six terms, from either side.
proof fn spread(w: real, u0: real, u1: real, u2: real, u3: real, u4: real, u5: real)
    ensures
        w * (u0 + u1 + u2 + u3 + u4 + u5) == w * u0 + w * u1 + w * u2 + w * u3 + w * u4 + w * u5,
        (u0 + u1 + u2 + u3 + u4 + u5) * w == u0 * w + u1 * w + u2 * w + u3 * w + u4 * w + u5 * w,
{
    assert(w * (u0 + u1 + u2 + u3 + u4 + u5) == w * u0 + w * u1 + w * u2 + w * u3 + w * u4 + w
        * u5) by (nonlinear_arith);
    assert((u0 + u1 + u2 + u3 + u4 + u5) * w == u0 * w + u1 * w + u2 * w + u3 * w + u4 * w + u5
        * w) by (nonlinear_arith);
}

/// The factors of a product of three can be grouped and ordered at will.
proof fn regroup(a: real, b: real, x: real)
    ensures
        b * (a * x) == (a * b) * x,
        (a * x) * b == (a * b) * x,
        b * (x * a) == (a * b) * x,
        (x * a) * b == (a * b) * x,
{
    assert(b * (a * x) == (a * b) * x) by (nonlinear_arith);
    assert((a * x) * b == (a * b) * x) by (nonlinear_arith);
    assert(b * (x * a) == (a * b) * x) by (nonlinear_arith);
    assert((x * a) * b == (a * b) * x) by (nonlinear_arith);
}

/// The fourth power of a sum, and the fifth in terms of it, multiplied out.
proof fn powers_of_a_sum(t: real, h: real)
    ensures
        (t + h) * (t + h) * (t + h) * (t + h) == t * t * t * t + 4real * (t * t * t * h) + 6real * (
        t * t * h * h) + 4real * (t * h * h * h) + h * h * h * h,
        (t + h) * (t + h) * (t + h) * (t + h) * (t + h) == t * t * t * t * t + 5real * (t * t * t
            * t * h) + 10real * (t * t * t * h * h) + 10real * (t * t * h * h * h) + 5real * (t * h
            * h * h * h) + h * h * h * h * h,
{
    let a = t * t * t * t;
    let b = t * t * t * h;
    let c = t * t * h * h;
    let d = t * h * h * h;
    let e = h * h * h * h;
    assert((t + h) * (t + h) * (t + h) * (t + h) == t * t * t * t + 4real * (t * t * t * h) + 6real
        * (t * t * h * h) + 4real * (t * h * h * h) + h * h * h * h) by (nonlinear_arith);
    a_sum_times_a_sum(a, b, c, d, e, t, h);
    assert((t * t * t * h) * t == t * t * t * t * h && (t * t * h * h) * t == t * t * t * h * h && (
    t * h * h * h) * t == t * t * h * h * h && (h * h * h * h) * t == t * h * h * h * h && (t * t
        * t * h) * h == t * t * t * h * h && (t * t * h * h) * h == t * t * h * h * h && (t * h * h
        * h) * h == t * h * h * h * h) by (nonlinear_arith);
}

/// The product of the fourth power of a sum, multiplied out, with the sum.
proof fn a_sum_times_a_sum(a: real, b: real, c: real, d: real, e: real, t: real, h: real)
    ensures
        (a + 4real * b + 6real * c + 4real * d + e) * (t + h) == a * t + a * h + 4real * (b * t)
            + 4real * (b * h) + 6real * (c * t) + 6real * (c * h) + 4real * (d * t) + 4real * (d
            * h) + e * t + e * h,
{
    assert((a + 4real * b + 6real * c + 4real * d + e) * (t + h) == a * t + a * h + 4real * (b * t)
        + 4real * (b * h) + 6real * (c * t) + 6real * (c * h) + 4real * (d * t) + 4real * (d * h)
        + e * t + e * h) by (nonlinear_arith);
}

/// The weights of Taylor's formula over a sum of two times are the products of
/// the weights over either, added up: the binomial theorem, order by order.
proof fn weights_of_a_sum(t: real, h: real)
    ensures
        weight(t + h, 2) == weight(t, 2) + t * h + weight(h, 2),
        weight(t + h, 3) == weight(t, 3) + weight(t, 2) * h + t * weight(h, 2) + weight(h, 3),
        weight(t + h, 4) == weight(t, 4) + weight(t, 3) * h + weight(t, 2) * weight(h, 2) + t
            * weight(h, 3) + weight(h, 4),
        weight(t + h, 5) == weight(t, 5) + weight(t, 4) * h + weight(t, 3) * weight(h, 2) + weight(
            t,
            2,
        ) * weight(h, 3) + t * weight(h, 4) + weight(h, 5),
{
    assert((1real / 2real) * ((t + h) * (t + h)) == (1real / 2real) * (t * t) + t * h + (1real
        / 2real) * (h * h)) by (nonlinear_arith);
    assert((1real / 6real) * ((t + h) * (t + h) * (t + h)) == (1real / 6real) * (t * t * t) + ((
    1real / 2real) * (t * t)) * h + t * ((1real / 2real) * (h * h)) + (1real / 6real) * (h * h * h))
        by (nonlinear_arith);
    powers_of_a_sum(t, h);
    assert(((1real / 6real) * (t * t * t)) * h == (1real / 6real) * (t * t * t * h) && ((1real
        / 2real) * (t * t)) * ((1real / 2real) * (h * h)) == (1real / 4real) * (t * t * h * h) && t
        * ((1real / 6real) * (h * h * h)) == (1real / 6real) * (t * h * h * h)) by (nonlinear_arith);
    assert(((1real / 6real) * (t * t * t)) * ((1real / 2real) * (h * h)) == (1real / 12real) * (t
        * t * t * h * h) && ((1real / 24real) * (t * t * t * t)) * h == (1real / 24real) * (t * t
        * t * t * h) && t * ((1real / 24real) * (h * h * h * h)) == (1real / 24real) * (t * h * h
        * h * h) && ((1real / 2real) * (t * t)) * ((1real / 6real) * (h * h * h)) == (1real
        / 12real) * (t * t * h * h * h)) by (nonlinear_arith);
    let fifth = (t + h) * (t + h) * (t + h) * (t + h) * (t + h);
    assert(weight(t + h, 5) == (1real / 120real) * fifth);
    assert(weight(t, 4) * h == (1real / 24real) * (t * t * t * t * h));
    assert(weight(t, 3) * weight(h, 2) == (1real / 12real) * (t * t * t * h * h));
    assert(weight(t, 2) * weight(h, 3) == (1real / 12real) * (t * t * h * h * h));
    assert(t * weight(h, 4) == (1real / 24real) * (t * h * h * h * h));
    assert((1real / 120real) * fifth == (1real / 120real) * (t * t * t * t * t) + (1real / 24real)
        * (t * t * t * t * h) + (1real / 12real) * (t * t * t * h * h) + (1real / 12real) * (t * t
        * h * h * h) + (1real / 24real) * (t * h * h * h * h) + (1real / 120real) * (h * h * h * h
        * h));
}

/// Taylor's formula carried on in two stages is the formula carried on at
/// once: the derivatives that it gives for the time `t`, taken as the
/// derivatives to start from, give for a further time `h` what the formula
/// gives for the time `t + h`.
proof fn series_in_two_stages(
    x0: real,
    x1: real,
    x2: real,
    x3: real,
    x4: real,
    x5: real,
    t: real,
    h: real,
)
    ensures
        series(
            series(x0, x1, x2, x3, x4, x5, t),
            series(x1, x2, x3, x4, x5, 0real, t),
            series(x2, x3, x4, x5, 0real, 0real, t),
            series(x3, x4, x5, 0real, 0real, 0real, t),
            series(x4, x5, 0real, 0real, 0real, 0real, t),
            series(x5, 0real, 0real, 0real, 0real, 0real, t),
            h,
        ) == series(x0, x1, x2, x3, x4, x5, t + h),
{
    weights_of_a_sum(t, h);
    let l = t + h;
    let a2 = weight(t, 2);
    let a3 = weight(t, 3);
    let a4 = weight(t, 4);
    let a5 = weight(t, 5);
    let b2 = weight(h, 2);
    let b3 = weight(h, 3);
    let b4 = weight(h, 4);
    let b5 = weight(h, 5);
    // the second stage, term by term
    spread(h, x1, x2 * t, a2 * x3, a3 * x4, a4 * x5, 0real);
    regroup(t, h, x2);
    regroup(a2, h, x3);
    regroup(a3, h, x4);
    regroup(a4, h, x5);
    spread(b2, x2, x3 * t, a2 * x4, a3 * x5, 0real, 0real);
    regroup(t, b2, x3);
    regroup(a2, b2, x4);
    regroup(a3, b2, x5);
    spread(b3, x3, x4 * t, a2 * x5, 0real, 0real, 0real);
    regroup(t, b3, x4);
    regroup(a2, b3, x5);
    spread(b4, x4, x5 * t, 0real, 0real, 0real, 0real);
    regroup(t, b4, x5);
    // the single stage, order by order
    spread(x1, t, h, 0real, 0real, 0real, 0real);
    spread(x2, a2, t * h, b2, 0real, 0real, 0real);
    spread(x3, a3, a2 * h, t * b2, b3, 0real, 0real);
    spread(x4, a4, a3 * h, a2 * b2, t * b3, b4, 0real);
    spread(x5, a5, a4 * h, a3 * b2, a2 * b3, t * b4, b5);
}

/// The course of a coordinate that has the six derivatives `c` at the time
/// zero and no derivative of higher order: the polynomial of at most the
/// fifth degree that `c` determines.
pub open spec fn quintic(c: Seq<real>) -> spec_fn(real) -> Seq<real> {
    |t: real| Seq::new(6, |k: int| taylor(c, k, t))
}

/// Every polynomial of at most the fifth degree in time is a polynomial
/// course: Taylor's formula carries its derivatives at any time over to any
/// other.
pub proof fn a_quintic_is_a_polynomial_course(c: Seq<real>)
    requires
        c.len() == 6,
    ensures
        polynomial(quintic(c)),
{
    let course = quintic(c);
    assert forall|t: real, later: real, k: int|
        #![trigger course(later)[k], course(t)]
        0 <= k < 6 implies course(later)[k] == taylor(course(t), k, later - t) by {
        let h = later - t;
        let d = course(t);
        assert(later == t + h);
        assert(course(later)[k] == taylor(c, k, later));
        assert forall|j: int| 0 <= j < 6 implies d[j] == staged(c, j, t) by {
            taylor_is_a_series(c, j, t);
        }
        taylor_is_a_series(c, k, later);
        taylor_is_a_series(d, k, h);
        if k == 0 {
            series_in_two_stages(c[0], c[1], c[2], c[3], c[4], c[5], t, h);
        } else if k == 1 {
            series_in_two_stages(c[1], c[2], c[3], c[4], c[5], 0real, t, h);
        } else if k == 2 {
            series_in_two_stages(c[2], c[3], c[4], c[5], 0real, 0real, t, h);
        } else if k == 3 {
            series_in_two_stages(c[3], c[4], c[5], 0real, 0real, 0real, t, h);
        } else if k == 4 {
            series_in_two_stages(c[4], c[5], 0real, 0real, 0real, 0real, t, h);
        } else {
            series_in_two_stages(c[5], 0real, 0real, 0real, 0real, 0real, t, h);
        }
    }
}

/// Taylor's formula for the derivative of order `k`, as the series of the
/// derivatives from that order on.
pub open spec fn staged(c: Seq<real>, k: int, s: real) -> real {
    if k <= 0 {
        series(c[0], c[1], c[2], c[3], c[4], c[5], s)
    } else if k == 1 {
        series(c[1], c[2], c[3], c[4], c[5], 0real, s)
    } else if k == 2 {
        series(c[2], c[3], c[4], c[5], 0real, 0real, s)
    } else if k == 3 {
        series(c[3], c[4], c[5], 0real, 0real, 0real, s)
    } else if k == 4 {
        series(c[4], c[5], 0real, 0real, 0real, 0real, s)
    } else {
        series(c[5], 0real, 0real, 0real, 0real, 0real, s)
    }
}

/// The two ways to write Taylor's formula agree.
proof fn taylor_is_a_series(c: Seq<real>, k: int, s: real)
    ensures
        taylor(c, k, s) == staged(c, k, s),
{
    reveal(taylor);
}

} // verus!
