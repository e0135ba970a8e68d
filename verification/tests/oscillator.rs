use integration_dynamics::oscillator::{acceleration_function, Oscillator, Spring};
use integration_dynamics::fixed::Fixed;
use integration_dynamics::particle::Particle;
use integration_dynamics::scalar::Scalar;
use integration_dynamics::Integration;

/// A double-precision scalar.
#[derive(Clone, Copy, Debug, PartialEq, PartialOrd)]
struct Real(f64);

impl Scalar for Real {
    fn from_int(n: i32) -> Self {
        Real(n as f64)
    }

    fn plus(self, rhs: Self) -> Self {
        Real(self.0 + rhs.0)
    }

    fn minus(self, rhs: Self) -> Self {
        Real(self.0 - rhs.0)
    }

    fn times(self, rhs: Self) -> Self {
        Real(self.0 * rhs.0)
    }

    fn over(self, rhs: Self) -> Self {
        Real(self.0 / rhs.0)
    }

    fn negated(self) -> Self {
        Real(-self.0)
    }

    fn root(self) -> Self {
        Real(self.0.sqrt())
    }

    fn lt(self, rhs: Self) -> bool {
        self.0 < rhs.0
    }

    fn le(self, rhs: Self) -> bool {
        self.0 <= rhs.0
    }
}

const MASS: f64 = 70.0;
const STIFFNESS: f64 = 1e4;
const DAMPING: f64 = 1e2;

/// The damped cosine that solves the equation of motion of the reference
/// oscillator.
fn analytic_solution(t: f64) -> f64 {
    let a = -DAMPING / (2.0 * MASS);
    let b = STIFFNESS / MASS - DAMPING * DAMPING / (4.0 * MASS * MASS);
    1.0 * (a * t).exp() * (b.sqrt() * t).cos()
}

fn error_at(scheme: &Integration, dt: f64, until: f64) -> f64 {
    let spring: Spring<Real> = Spring::standard();
    let mut run = Oscillator::new(Real(dt), scheme, &spring);
    let steps = (until / dt).round() as usize;
    let r = run.run(steps)[0][0].0;
    (r - analytic_solution(steps as f64 * dt)).abs()
}

#[test]
fn the_reference_oscillator_has_the_standard_measures() {
    let spring: Spring<Real> = Spring::standard();
    assert_eq!(spring.particle_mass, Real(70.0));
    assert_eq!(spring.amplitude, Real(1.0));
    assert_eq!(spring.restoring_force_constant, Real(1e4));
    assert_eq!(spring.amortiguation_constant, Real(1e2));
    assert_eq!(spring.initial_position, Real(1.0));
}

#[test]
fn the_initial_derivatives_follow_from_the_equation_of_motion() {
    let spring: Spring<Real> = Spring::standard();
    let r = 1.0;
    let v = -1.0 * DAMPING / (2.0 * MASS);
    let a = (-STIFFNESS * r - DAMPING * v) / MASS;
    let third = (-STIFFNESS * v - DAMPING * a) / MASS;
    let fourth = (-STIFFNESS * a - DAMPING * third) / MASS;
    let fifth = (-STIFFNESS * third - DAMPING * fourth) / MASS;
    let got = spring.initial_derivatives();
    assert_eq!(got, [Real(r), Real(v), Real(a), Real(third), Real(fourth), Real(fifth)]);
    assert!((v - -0.714).abs() < 1e-3);
}

#[test]
fn the_spring_pulls_back_and_the_damping_slows() {
    let spring: Spring<Real> = Spring::standard();
    let p: Particle<Real, 2> = Particle::new(
        0,
        [Real(0.5), Real(-0.25)],
        [Real(2.0), Real(0.0)],
        [Real(0.0), Real(0.0)],
        Real(0.0),
        Real(4.0),
    );
    let got = acceleration_function(&p, &[], &spring);
    assert_eq!(got, [Real((-1e4 * 0.5 - 1e2 * 2.0) / 4.0), Real((-1e4 * -0.25 - 1e2 * 0.0) / 4.0)]);
}

#[test]
fn the_oscillator_is_exact_in_fixed_point() {
    let whole = Fixed::from_int;
    let spring = Spring {
        particle_mass: whole(2),
        amplitude: whole(1),
        restoring_force_constant: whole(8),
        amortiguation_constant: whole(4),
        initial_position: whole(1),
    };
    // v = -1 * 4 / (2 * 2) = -1; a = (-8 * 1 - 4 * -1) / 2 = -2
    let d = spring.initial_derivatives();
    assert_eq!(d[0], whole(1));
    assert_eq!(d[1], whole(-1));
    assert_eq!(d[2], whole(-2));
    assert_eq!(d[3], whole(8));
    assert_eq!(d[4], whole(-8));
    assert_eq!(d[5], whole(-16));
    let half = whole(1).over(whole(2));
    let mut run = Oscillator::new(half, &Integration::Euler, &spring);
    // r' = 1 + (-1/2 + 1/8 * -2) = 1/4; v' = -1 + 1/2 * -2 = -2; a' = (-8 / 4 + 8) / 2 = 3
    let stack = run.run(1);
    assert_eq!(stack, &vec![[whole(1).over(whole(4))], [whole(-2)], [whole(3)]]);
}

#[test]
fn a_run_starts_from_the_initial_derivatives() {
    let spring: Spring<Real> = Spring::standard();
    let d = spring.initial_derivatives();
    for scheme in [
        Integration::Euler,
        Integration::EulerMod,
        Integration::Verlet,
        Integration::VerletLeapFrog,
        Integration::VelocityVerlet,
        Integration::Beeman,
        Integration::EulerPredictorCorrector,
    ] {
        let mut run = Oscillator::new(Real(1e-4), &scheme, &spring);
        assert_eq!(run.run(0), &vec![[d[0]], [d[1]], [d[2]]]);
    }
    let mut run = Oscillator::new(Real(1e-4), &Integration::GearPredictorCorrector, &spring);
    assert_eq!(run.run(0), &vec![[d[0]], [d[1]], [d[2]], [d[3]], [d[4]], [d[5]]]);
}

#[test]
fn steps_add_up() {
    let spring: Spring<Real> = Spring::standard();
    for scheme in [Integration::Euler, Integration::Beeman, Integration::GearPredictorCorrector, Integration::VerletLeapFrog] {
        let mut at_once = Oscillator::new(Real(1e-4), &scheme, &spring);
        let mut in_parts = Oscillator::new(Real(1e-4), &scheme, &spring);
        let whole = at_once.run(30).clone();
        in_parts.run(10);
        in_parts.run(0);
        let parts = in_parts.run(20).clone();
        assert_eq!(whole, parts);
    }
}

#[test]
fn euler_matches_the_damped_cosine_over_a_hundred_steps() {
    let spring: Spring<Real> = Spring::standard();
    let dt = 1e-4;
    let mut run = Oscillator::new(Real(dt), &Integration::Euler, &spring);
    for n in 1..=100 {
        let r = run.run(1)[0][0].0;
        let want = analytic_solution(n as f64 * dt);
        assert!((r - want).abs() < 1e-3, "step {}: {} {}", n, r, want);
    }
}

#[test]
fn every_scheme_stays_near_the_damped_cosine() {
    for scheme in [
        Integration::Euler,
        Integration::EulerMod,
        Integration::Verlet,
        Integration::VerletLeapFrog,
        Integration::VelocityVerlet,
        Integration::Beeman,
        Integration::EulerPredictorCorrector,
        Integration::GearPredictorCorrector,
    ] {
        let error = error_at(&scheme, 1e-4, 0.05);
        assert!(error < 5e-3, "{:?}: {}", scheme, error);
    }
}

#[test]
fn the_error_of_the_euler_family_shrinks_with_the_time_step() {
    for scheme in [Integration::Euler, Integration::EulerMod, Integration::EulerPredictorCorrector] {
        let coarse = error_at(&scheme, 4e-4, 0.2);
        let medium = error_at(&scheme, 2e-4, 0.2);
        let fine = error_at(&scheme, 1e-4, 0.2);
        assert!(medium < coarse / 1.5, "{:?}: {} {}", scheme, coarse, medium);
        assert!(fine < medium / 1.5, "{:?}: {} {}", scheme, medium, fine);
    }
}

#[test]
fn one_euler_step_errs_by_a_quarter_or_less_at_half_the_time_step() {
    let spring: Spring<Real> = Spring::standard();
    for scheme in [Integration::Euler, Integration::EulerMod] {
        let mut errors = Vec::new();
        for dt in [4e-3, 2e-3, 1e-3] {
            let mut run = Oscillator::new(Real(dt), &scheme, &spring);
            let r = run.run(1)[0][0].0;
            errors.push((r - analytic_solution(dt)).abs());
        }
        assert!(errors[1] < errors[0] / 3.5, "{:?}: {:?}", scheme, errors);
        assert!(errors[2] < errors[1] / 3.5, "{:?}: {:?}", scheme, errors);
    }
}

#[test]
fn gear_errs_less_than_euler() {
    let euler = error_at(&Integration::Euler, 1e-4, 0.2);
    let gear = error_at(&Integration::GearPredictorCorrector, 1e-4, 0.2);
    let beeman = error_at(&Integration::Beeman, 1e-4, 0.2);
    assert!(gear < euler / 100.0, "{} {}", gear, euler);
    assert!(beeman < euler, "{} {}", beeman, euler);
}
