use integration_dynamics::fixed::Fixed;
use integration_dynamics::methods::{
    Acceleration, Beeman, Euler, EulerMod, EulerPredictorCorrector, GearPredictorCorrector,
    IntegrationMethod, VelocityVerlet, Verlet, VerletLeapFrog,
};
use integration_dynamics::particle::Particle;
use integration_dynamics::scalar::Scalar;

/// A double-precision scalar.
#[derive(Clone, Copy, Debug, PartialEq, PartialOrd)]
struct Real(f64);

impl Scalar for Real {
    fn from_int(n: i32) -> Self {
        Real(n as f64)
    }

    fn plus(self, rhs: Self) -> Self {
        Real(self.0 + rhs.0)
    }

    fn minus(self, rhs: Self) -> Self {
        Real(self.0 - rhs.0)
    }

    fn times(self, rhs: Self) -> Self {
        Real(self.0 * rhs.0)
    }

    fn over(self, rhs: Self) -> Self {
        Real(self.0 / rhs.0)
    }

    fn negated(self) -> Self {
        Real(-self.0)
    }

    fn root(self) -> Self {
        Real(self.0.sqrt())
    }

    fn lt(self, rhs: Self) -> bool {
        self.0 < rhs.0
    }

    fn le(self, rhs: Self) -> bool {
        self.0 <= rhs.0
    }
}

/// The same acceleration everywhere.
struct Uniform(f64);

impl<const DIM: usize> Acceleration<Real, DIM> for Uniform {
    fn accelerate(&self, _particle: &Particle<Real, DIM>, _others: &[Particle<Real, DIM>]) -> [Real; DIM] {
        [Real(self.0); DIM]
    }
}

/// A spring to the origin: the acceleration is the position times `-k`.
struct Hooke(f64);

impl<const DIM: usize> Acceleration<Real, DIM> for Hooke {
    fn accelerate(&self, particle: &Particle<Real, DIM>, _others: &[Particle<Real, DIM>]) -> [Real; DIM] {
        let mut a = particle.derivatives()[0];
        for x in a.iter_mut() {
            *x = Real(-self.0 * x.0);
        }
        a
    }
}

/// A drag: the acceleration is the velocity times `-c`.
struct Drag(f64);

impl<const DIM: usize> Acceleration<Real, DIM> for Drag {
    fn accelerate(&self, particle: &Particle<Real, DIM>, _others: &[Particle<Real, DIM>]) -> [Real; DIM] {
        let mut a = particle.derivatives()[1];
        for x in a.iter_mut() {
            *x = Real(-self.0 * x.0);
        }
        a
    }
}

fn one(r: f64, v: f64, a: f64) -> Particle<Real, 1> {
    Particle::new(7, [Real(r)], [Real(v)], [Real(a)], Real(0.25), Real(3.0))
}

fn column(stack: &Vec<[Real; 1]>) -> Vec<f64> {
    stack.iter().map(|row| row[0].0).collect()
}

fn close(got: f64, want: f64) -> bool {
    (got - want).abs() <= 1e-12 * (1.0 + want.abs())
}

fn all_close(got: &[f64], want: &[f64]) -> bool {
    got.len() == want.len() && got.iter().zip(want.iter()).all(|(g, w)| close(*g, *w))
}

#[test]
fn particle_starts_with_its_history_equal_to_its_state() {
    let p: Particle<Real, 2> = Particle::new(
        3,
        [Real(1.0), Real(2.0)],
        [Real(3.0), Real(4.0)],
        [Real(5.0), Real(6.0)],
        Real(0.5),
        Real(7.0),
    );
    assert_eq!(p.id(), 3);
    assert_eq!(p.radius(), Real(0.5));
    assert_eq!(p.mass(), Real(7.0));
    let want = vec![[Real(1.0), Real(2.0)], [Real(3.0), Real(4.0)], [Real(5.0), Real(6.0)]];
    assert_eq!(p.derivatives(), &want);
    assert_eq!(p.prev_derivatives(), &want);
}

#[test]
fn distance_is_euclidean() {
    let zero = [Real(0.0), Real(0.0)];
    let a: Particle<Real, 2> = Particle::new(0, [Real(1.0), Real(1.0)], zero, zero, Real(0.0), Real(1.0));
    let b: Particle<Real, 2> = Particle::new(1, [Real(4.0), Real(5.0)], zero, zero, Real(0.0), Real(1.0));
    assert_eq!(a.get_distance(&b), Real(5.0));
    assert_eq!(b.get_distance(&a), Real(5.0));
    assert_eq!(a.get_distance(&a), Real(0.0));
}

#[test]
fn euler_advances_from_the_present_state() {
    let p = one(1.0, 2.0, 4.0);
    let euler = Euler::new(Hooke(2.0), Real(0.5));
    let out = euler.calculate_step(&p, std::slice::from_ref(&p));
    assert_eq!(column(&out), vec![2.5, 4.0, -5.0]);
}

#[test]
fn euler_mod_moves_with_the_advanced_velocity() {
    let p = one(1.0, 2.0, 4.0);
    let scheme = EulerMod::new(Hooke(2.0), Real(0.5));
    let out = scheme.calculate_step(&p, std::slice::from_ref(&p));
    assert_eq!(column(&out), vec![3.5, 4.0, -7.0]);
}

#[test]
fn verlet_bootstraps_by_one_euler_step_back() {
    let mut set = [one(1.0, 2.0, 4.0)];
    let _scheme = Verlet::new(Uniform(8.0), &mut set, Real(0.5));
    assert_eq!(column(set[0].derivatives()), vec![1.0, 2.0, 4.0]);
    assert_eq!(column(set[0].prev_derivatives()), vec![0.5, 0.0, 8.0]);
}

#[test]
fn verlet_steps_from_two_positions() {
    let mut set = [one(1.0, 2.0, 4.0)];
    let scheme = Verlet::new(Hooke(2.0), &mut set, Real(0.5));
    let out = scheme.calculate_step(&set[0], &set);
    assert_eq!(column(&out), vec![2.5, 2.0, -5.0]);
}

#[test]
fn verlet_velocity_is_the_central_difference() {
    let mut set = [one(0.3, -1.7, 2.9)];
    let dt = 0.01;
    let scheme = Verlet::new(Hooke(5.0), &mut set, Real(dt));
    for _ in 0..50 {
        let before = set[0].prev_derivatives()[0][0].0;
        let out = scheme.calculate_step(&set[0], &set);
        assert_eq!(out[1][0].0, (out[0][0].0 - before) / (2.0 * dt));
        scheme.advance_step(&mut set);
        assert_eq!(column(set[0].derivatives()), column(&out));
    }
}

#[test]
fn leap_frog_bootstraps_by_half_a_step_back() {
    let mut set = [one(1.0, 2.0, 4.0)];
    let _scheme = VerletLeapFrog::new(Uniform(8.0), &mut set, Real(0.5));
    assert_eq!(column(set[0].prev_derivatives()), vec![0.625, 1.0, 8.0]);
}

#[test]
fn leap_frog_moves_with_the_half_step_velocity() {
    let mut set = [one(1.0, 2.0, 4.0)];
    let scheme = VerletLeapFrog::new(Uniform(8.0), &mut set, Real(0.5));
    let out = scheme.calculate_step(&set[0], &set);
    assert_eq!(column(&out), vec![2.5, 2.0, 8.0]);
}

#[test]
fn leap_frog_keeps_the_half_step_velocity_as_history() {
    let mut set = [one(1.0, 2.0, 4.0)];
    let scheme = VerletLeapFrog::new(Uniform(8.0), &mut set, Real(0.5));
    scheme.advance_step(&mut set);
    // the position moved with 1 + 0.5 * 4 = 3, which is what is kept
    assert_eq!(column(set[0].derivatives()), vec![2.5, 2.0, 8.0]);
    assert_eq!(column(set[0].prev_derivatives()), vec![1.0, 3.0, 4.0]);
    scheme.advance_step(&mut set);
    assert_eq!(column(set[0].derivatives()), vec![6.0, 5.0, 8.0]);
    assert_eq!(column(set[0].prev_derivatives()), vec![2.5, 7.0, 8.0]);
}

#[test]
fn velocity_verlet_asks_for_the_acceleration_first() {
    let p = one(1.0, 2.0, 4.0);
    let scheme = VelocityVerlet::new(Hooke(8.0), Real(0.5));
    let out = scheme.calculate_step(&p, std::slice::from_ref(&p));
    assert_eq!(column(&out), vec![3.0, 1.0, -8.0]);
}

#[test]
fn beeman_weighs_the_new_the_present_and_the_previous_acceleration() {
    let mut set = [one(1.0, 2.0, 3.0)];
    let scheme = Beeman::new(Uniform(6.0), &mut set, Real(0.5));
    assert_eq!(column(set[0].prev_derivatives()), vec![0.375, 0.5, 6.0]);
    let out = scheme.calculate_step(&set[0], &set);
    let r = 1.0 + (2.0 * 0.5 + 2.0 / 3.0 * 3.0 * 0.25 - 1.0 / 6.0 * 6.0 * 0.25);
    let v = 2.0 + (1.0 / 3.0 * 6.0 * 0.5 + 5.0 / 6.0 * 3.0 * 0.5 - 1.0 / 6.0 * 6.0 * 0.5);
    assert_eq!(column(&out), vec![r, v, 6.0]);
    assert!(all_close(&column(&out), &[2.25, 3.75, 6.0]));
}

#[test]
fn beeman_asks_for_the_acceleration_at_the_advanced_position() {
    // a spring with a = -x: from r = 1, v = 2, a = 0 the position goes to 2,
    // where the spring pulls with -2
    let mut set = [one(1.0, 2.0, 0.0)];
    let scheme = Beeman::new(Hooke(1.0), &mut set, Real(0.5));
    assert_eq!(column(set[0].prev_derivatives()), vec![0.0, 2.0, -0.0]);
    let out = scheme.calculate_step(&set[0], &set);
    assert!(all_close(&column(&out), &[2.0, 2.0 - 1.0 / 3.0, -2.0]), "{:?}", column(&out));
    // the model is asked with the velocity that the particle still has
    let out = Beeman::new(Drag(1.0), &mut set, Real(0.5)).calculate_step(&set[0], &set);
    assert_eq!(out[2][0].0, -2.0);
}

#[test]
fn euler_predictor_corrector_corrects_from_the_present_state() {
    let p = one(1.0, 2.0, 4.0);
    let scheme = EulerPredictorCorrector::new(Hooke(2.0), Real(0.5));
    let out = scheme.calculate_step(&p, std::slice::from_ref(&p));
    assert_eq!(column(&out), vec![1.0, 0.0, -4.0]);
    let scheme = EulerPredictorCorrector::new(Drag(2.0), Real(0.5));
    let out = scheme.calculate_step(&p, std::slice::from_ref(&p));
    assert_eq!(column(&out), vec![0.0, -2.0, -8.0]);
}

fn gear_particle() -> ([Particle<Real, 1>; 1], Vec<Vec<[Real; 1]>>) {
    ([one(1.0, 2.0, 4.0)], vec![vec![[Real(8.0)], [Real(16.0)], [Real(32.0)]]])
}

#[test]
fn gear_appends_the_higher_derivatives() {
    let (mut set, higher) = gear_particle();
    let _scheme = GearPredictorCorrector::new(Uniform(0.0), false, &mut set, &higher, Real(0.5));
    assert_eq!(column(set[0].derivatives()), vec![1.0, 2.0, 4.0, 8.0, 16.0, 32.0]);
    assert_eq!(column(set[0].prev_derivatives()), vec![1.0, 2.0, 4.0, 8.0, 16.0, 32.0]);
}

#[test]
fn gear_predicts_by_taylor_expansion_and_corrects_by_the_gap() {
    let predicted = [
        1.0 + (1.0 + 0.5 + 1.0 / 6.0 + 1.0 / 24.0 + 1.0 / 120.0),
        2.0 + (2.0 + 1.0 + 1.0 / 3.0 + 1.0 / 12.0),
        4.0 + (4.0 + 2.0 + 2.0 / 3.0),
        20.0,
        32.0,
        32.0,
    ];
    for depends_on_velocity in [false, true] {
        let (mut set, higher) = gear_particle();
        let model = Uniform(predicted[2] + 2.0);
        let scheme =
            GearPredictorCorrector::new(model, depends_on_velocity, &mut set, &higher, Real(0.5));
        let out = scheme.calculate_step(&set[0], &set);
        let alpha = if depends_on_velocity { 3.0 / 16.0 } else { 3.0 / 20.0 };
        let gap = 0.25;
        let want = [
            predicted[0] + alpha * gap,
            predicted[1] + 251.0 / 360.0 * gap / 0.5,
            predicted[2] + 2.0,
            predicted[3] + 11.0 / 3.0 * gap / 0.125,
            predicted[4] + 16.0,
            predicted[5] + 16.0,
        ];
        assert!(all_close(&column(&out), &want), "{:?} {:?}", column(&out), want);
    }
}

#[test]
fn gear_leaves_a_prediction_that_the_model_confirms() {
    let predicted_acceleration = 4.0 + (8.0 * 0.5 + 0.5 * 0.25 * 16.0 + 1.0 / 6.0 * 0.125 * 32.0);
    let (mut set, higher) = gear_particle();
    let scheme = GearPredictorCorrector::new(
        Uniform(predicted_acceleration),
        true,
        &mut set,
        &higher,
        Real(0.5),
    );
    let out = scheme.calculate_step(&set[0], &set);
    let want = [
        1.0 + (1.0 + 0.5 + 1.0 / 6.0 + 1.0 / 24.0 + 1.0 / 120.0),
        2.0 + (2.0 + 1.0 + 1.0 / 3.0 + 1.0 / 12.0),
        predicted_acceleration,
        20.0,
        32.0,
        32.0,
    ];
    assert!(all_close(&column(&out), &want), "{:?} {:?}", column(&out), want);
    assert_eq!(out[2][0].0, predicted_acceleration);
}

#[test]
fn a_step_reads_the_state_before_the_step_for_every_particle() {
    // Each particle is pulled toward the other: were the second stepped from
    // the new state of the first, the two would not stay mirror images.
    struct Mutual;
    impl Acceleration<Real, 1> for Mutual {
        fn accelerate(&self, particle: &Particle<Real, 1>, others: &[Particle<Real, 1>]) -> [Real; 1] {
            let mut pull = 0.0;
            for other in others {
                if other.id() != particle.id() {
                    pull += other.derivatives()[0][0].0 - particle.derivatives()[0][0].0;
                }
            }
            [Real(pull)]
        }
    }
    let mut set = [
        Particle::new(0, [Real(-1.0)], [Real(0.0)], [Real(2.0)], Real(0.0), Real(1.0)),
        Particle::new(1, [Real(1.0)], [Real(0.0)], [Real(-2.0)], Real(0.0), Real(1.0)),
    ];
    let scheme = Euler::new(Mutual, Real(0.25));
    for _ in 0..20 {
        let first = scheme.calculate_step(&set[0], &set);
        let second = scheme.calculate_step(&set[1], &set);
        let before = [column(set[0].derivatives()), column(set[1].derivatives())];
        scheme.advance_step(&mut set);
        assert_eq!(column(set[0].derivatives()), column(&first));
        assert_eq!(column(set[1].derivatives()), column(&second));
        assert_eq!(column(set[0].prev_derivatives()), before[0]);
        assert_eq!(column(set[1].prev_derivatives()), before[1]);
        for k in 0..3 {
            assert_eq!(set[0].derivatives()[k][0].0, -set[1].derivatives()[k][0].0);
        }
    }
}

fn free_flight<I: IntegrationMethod<Real, 2>>(scheme: &I, set: &mut [Particle<Real, 2>], dt: f64) {
    let start = set[0].derivatives()[0];
    let v = set[0].derivatives()[1];
    for n in 1..=200 {
        scheme.advance_step(set);
        let r = set[0].derivatives()[0];
        let t = n as f64 * dt;
        for i in 0..2 {
            let want = start[i].0 + v[i].0 * t;
            assert!((r[i].0 - want).abs() <= 1e-12 * (1.0 + want.abs()), "{} {}", r[i].0, want);
            let now = set[0].derivatives()[1][i].0;
            assert!((now - v[i].0).abs() <= 1e-12 * (1.0 + v[i].0.abs()), "{} {}", now, v[i].0);
        }
        assert_eq!(set[0].derivatives()[2], [Real(0.0), Real(0.0)]);
    }
}

fn free_particle() -> [Particle<Real, 2>; 1] {
    let zero = [Real(0.0), Real(0.0)];
    [Particle::new(0, [Real(0.3), Real(-1.1)], [Real(1.7), Real(0.4)], zero, Real(0.1), Real(2.5))]
}

#[test]
fn a_free_particle_moves_in_a_straight_line_under_every_scheme() {
    let dt = 0.01;
    let still = Uniform(0.0);
    let mut set = free_particle();
    free_flight(&Euler::new(Uniform(0.0), Real(dt)), &mut set, dt);
    let mut set = free_particle();
    free_flight(&EulerMod::new(Uniform(0.0), Real(dt)), &mut set, dt);
    let mut set = free_particle();
    let scheme = Verlet::new(Uniform(0.0), &mut set, Real(dt));
    free_flight(&scheme, &mut set, dt);
    let mut set = free_particle();
    let scheme = VerletLeapFrog::new(Uniform(0.0), &mut set, Real(dt));
    free_flight(&scheme, &mut set, dt);
    let mut set = free_particle();
    free_flight(&VelocityVerlet::new(Uniform(0.0), Real(dt)), &mut set, dt);
    let mut set = free_particle();
    let scheme = Beeman::new(Uniform(0.0), &mut set, Real(dt));
    free_flight(&scheme, &mut set, dt);
    let mut set = free_particle();
    free_flight(&EulerPredictorCorrector::new(Uniform(0.0), Real(dt)), &mut set, dt);
    let mut set = free_particle();
    let zero = [Real(0.0), Real(0.0)];
    let scheme =
        GearPredictorCorrector::new(still, false, &mut set, &vec![vec![zero, zero, zero]], Real(dt));
    free_flight(&scheme, &mut set, dt);
}

#[test]
fn gear_is_exact_on_a_polynomial_trajectory() {
    // Constant jerk: r(t) = 1 + 2 t + 3 t^2 / 2 + 4 t^3 / 6; the acceleration
    // 3 + 4 t, as a function of the velocity 2 + 3 t + 2 t^2, is
    // sqrt(9 + 8 (v - 2)).
    struct OnTrack;
    impl Acceleration<Real, 1> for OnTrack {
        fn accelerate(&self, particle: &Particle<Real, 1>, _others: &[Particle<Real, 1>]) -> [Real; 1] {
            let v = particle.derivatives()[1][0].0;
            [Real((9.0 + 8.0 * (v - 2.0)).sqrt())]
        }
    }
    let dt = 0.125;
    let mut set = [Particle::new(0, [Real(1.0)], [Real(2.0)], [Real(3.0)], Real(0.0), Real(1.0))];
    let higher = vec![vec![[Real(4.0)], [Real(0.0)], [Real(0.0)]]];
    let scheme = GearPredictorCorrector::new(OnTrack, true, &mut set, &higher, Real(dt));
    for n in 1..=64 {
        scheme.advance_step(&mut set);
        let t = n as f64 * dt;
        let want = 1.0 + 2.0 * t + 1.5 * t * t + 4.0 / 6.0 * t * t * t;
        let got = set[0].derivatives()[0][0].0;
        assert!((got - want).abs() <= 1e-12 * want.abs(), "{} {}", got, want);
    }
}

/// No force, in fixed point.
struct Still;

impl<const DIM: usize> Acceleration<Fixed, DIM> for Still {
    fn accelerate(&self, _particle: &Particle<Fixed, DIM>, _others: &[Particle<Fixed, DIM>]) -> [Fixed; DIM] {
        [Fixed::from_int(0); DIM]
    }
}

fn fixed_particle() -> [Particle<Fixed, 2>; 1] {
    let zero = [Fixed::from_int(0), Fixed::from_int(0)];
    let third = Fixed::from_int(1).over(Fixed::from_int(3));
    [Particle::new(
        0,
        [third, Fixed::from_int(-2)],
        [Fixed::from_int(5).over(Fixed::from_int(7)), third.negated()],
        zero,
        Fixed::from_int(1),
        Fixed::from_int(1),
    )]
}

fn glides<I: IntegrationMethod<Fixed, 2>>(scheme: &I, set: &mut [Particle<Fixed, 2>], strides: [Fixed; 2]) {
    let mut want = set[0].derivatives()[0];
    for _ in 0..100 {
        scheme.advance_step(set);
        for i in 0..2 {
            want[i] = want[i].plus(strides[i]);
        }
        assert_eq!(set[0].derivatives()[0], want);
        assert_eq!(set[0].derivatives()[2], [Fixed::from_int(0), Fixed::from_int(0)]);
    }
}

#[test]
fn in_fixed_point_a_free_particle_moves_by_equal_strides() {
    let dt = Fixed::from_int(1).over(Fixed::from_int(10));
    let v = fixed_particle()[0].derivatives()[1];
    let zero = [Fixed::from_int(0), Fixed::from_int(0)];
    let time_first = [dt.times(v[0]), dt.times(v[1])];
    let velocity_first = [v[0].times(dt), v[1].times(dt)];
    let mut set = fixed_particle();
    glides(&Euler::new(Still, dt), &mut set, time_first);
    assert_eq!(set[0].derivatives()[1], v);
    let mut set = fixed_particle();
    glides(&EulerMod::new(Still, dt), &mut set, time_first);
    assert_eq!(set[0].derivatives()[1], v);
    let mut set = fixed_particle();
    glides(&VelocityVerlet::new(Still, dt), &mut set, time_first);
    assert_eq!(set[0].derivatives()[1], v);
    let mut set = fixed_particle();
    let scheme = VerletLeapFrog::new(Still, &mut set, dt);
    glides(&scheme, &mut set, time_first);
    assert_eq!(set[0].prev_derivatives()[1], v);
    let mut set = fixed_particle();
    glides(&EulerPredictorCorrector::new(Still, dt), &mut set, velocity_first);
    assert_eq!(set[0].derivatives()[1], v);
    let mut set = fixed_particle();
    let scheme = Beeman::new(Still, &mut set, dt);
    glides(&scheme, &mut set, velocity_first);
    assert_eq!(set[0].derivatives()[1], v);
    let mut set = fixed_particle();
    let scheme = GearPredictorCorrector::new(Still, false, &mut set, &vec![vec![zero, zero, zero]], dt);
    glides(&scheme, &mut set, velocity_first);
    assert_eq!(set[0].derivatives()[1], v);
}

/// A spring with the acceleration `-x` and no damping, in fixed point.
struct Pull;

impl Acceleration<Fixed, 1> for Pull {
    fn accelerate(&self, particle: &Particle<Fixed, 1>, _others: &[Particle<Fixed, 1>]) -> [Fixed; 1] {
        [particle.derivatives()[0][0].negated()]
    }
}

fn on_the_spring() -> [Particle<Fixed, 1>; 1] {
    let whole = Fixed::from_int;
    [Particle::new(0, [whole(1)], [whole(2)], [whole(0)], whole(0), whole(1))]
}

#[test]
fn beeman_on_a_spring_in_fixed_point() {
    let whole = Fixed::from_int;
    let half = whole(1).over(whole(2));
    let third = whole(1).over(whole(3));
    let mut set = on_the_spring();
    let scheme = Beeman::new(Pull, &mut set, half);
    let out = scheme.calculate_step(&set[0], &set);
    // the position goes to 2, where the spring pulls with -2, a third of which
    // over half a unit of time comes off the velocity
    assert_eq!(out, vec![[whole(2)], [whole(2).minus(third)], [whole(-2)]]);
}

#[test]
fn leap_frog_on_a_spring_in_fixed_point() {
    let whole = Fixed::from_int;
    let half = whole(1).over(whole(2));
    let mut set = on_the_spring();
    let scheme = VerletLeapFrog::new(Pull, &mut set, half);
    assert_eq!(set[0].prev_derivatives()[1], [whole(2)]);
    scheme.advance_step(&mut set);
    assert_eq!(set[0].derivatives(), &vec![[whole(2)], [whole(2)], [whole(-2)]]);
    // what is kept is the half-step velocity with which the position moved
    assert_eq!(set[0].prev_derivatives(), &vec![[whole(1)], [whole(2)], [whole(0)]]);
    scheme.advance_step(&mut set);
    // 2 + 1/2 * -2 = 1 is the next half-step velocity; the mean of 2 and 1 is stored
    assert_eq!(
        set[0].derivatives(),
        &vec![[whole(2).plus(half)], [whole(1).plus(half)], [whole(-2).minus(half)]]
    );
    assert_eq!(set[0].prev_derivatives(), &vec![[whole(2)], [whole(1)], [whole(-2)]]);
}

#[test]
fn gear_gives_both_stacks_one_length() {
    let whole = Fixed::from_int;
    let mut set = on_the_spring();
    let higher = vec![vec![[whole(3)], [whole(4)], [whole(5)]]];
    let _scheme = GearPredictorCorrector::new(Pull, false, &mut set, &higher, whole(1));
    assert_eq!(set[0].derivatives().len(), 6);
    assert_eq!(set[0].prev_derivatives(), set[0].derivatives());
    let mut set = on_the_spring();
    for _scheme in [Verlet::new(Pull, &mut set, whole(1))] {
        assert_eq!(set[0].prev_derivatives().len(), set[0].derivatives().len());
    }
}
