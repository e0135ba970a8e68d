use integration_dynamics::billiards::{
    acceleration_function, draw_jitter, draw_rack, get_balls_starting_position, holes,
    set_up_rack, spacing_respected, Billiards, Hole, Table, BALL_COUNT,
};
use integration_dynamics::fixed::Fixed;
use integration_dynamics::particle::Particle;
use integration_dynamics::scalar::Scalar;
use integration_dynamics::Integration;

/// A double-precision scalar.
#[derive(Clone, Copy, Debug, PartialEq, PartialOrd)]
struct Real(f64);

impl Scalar for Real {
    fn from_int(n: i32) -> Self {
        Real(n as f64)
    }

    fn plus(self, rhs: Self) -> Self {
        Real(self.0 + rhs.0)
    }

    fn minus(self, rhs: Self) -> Self {
        Real(self.0 - rhs.0)
    }

    fn times(self, rhs: Self) -> Self {
        Real(self.0 * rhs.0)
    }

    fn over(self, rhs: Self) -> Self {
        Real(self.0 / rhs.0)
    }

    fn negated(self) -> Self {
        Real(-self.0)
    }

    fn root(self) -> Self {
        Real(self.0.sqrt())
    }

    fn lt(self, rhs: Self) -> bool {
        self.0 < rhs.0
    }

    fn le(self, rhs: Self) -> bool {
        self.0 <= rhs.0
    }
}

const SCHEMES: [Integration; 8] = [
    Integration::Euler,
    Integration::EulerMod,
    Integration::Verlet,
    Integration::VerletLeapFrog,
    Integration::VelocityVerlet,
    Integration::Beeman,
    Integration::EulerPredictorCorrector,
    Integration::GearPredictorCorrector,
];

/// A table with measures that binary fractions hold exactly.
fn wide_table(hole_radius: f64) -> Table<Real> {
    Table {
        length: Real(64.0),
        width: Real(16.0),
        ball_radius: Real(1.0),
        ball_mass: Real(2.0),
        hole_radius: Real(hole_radius),
        restoring_force_constant: Real(8.0),
        ball_spacing_lower_bound: Real(0.0),
        ball_spacing_upper_bound: Real(0.0),
    }
}

fn ball(id: usize, x: f64, y: f64, table: &Table<Real>) -> Particle<Real, 2> {
    let zero = [Real(0.0), Real(0.0)];
    Particle::new(id, [Real(x), Real(y)], zero, zero, table.ball_radius, table.ball_mass)
}

fn no_jitter() -> Vec<(Real, Real)> {
    Vec::new()
}

/// Sets up the rack, makes sure of its spacing as a caller must, and starts
/// the game.
fn start<S: Scalar>(
    delta_t: S,
    scheme: &Integration,
    fixed_ball_spacing: bool,
    white_offset: S,
    initial_velocity: [S; 2],
    table: &Table<S>,
    jitter: &Vec<(S, S)>,
) -> Billiards<S> {
    let balls = set_up_rack(table, fixed_ball_spacing, white_offset, initial_velocity, jitter);
    assert!(spacing_respected(&balls, table.ball_spacing_lower_bound));
    Billiards::new(delta_t, scheme, balls, table)
}

#[test]
fn the_standard_table_has_the_regulation_measures() {
    let table: Table<Real> = Table::standard();
    assert_eq!(table.length, Real(2.24));
    assert_eq!(table.width, Real(1.12));
    assert_eq!(table.ball_radius, Real(0.057 / 2.0));
    assert_eq!(table.ball_mass, Real(0.165));
    assert_eq!(table.hole_radius, Real(0.057 / 2.0 * 2.0));
    assert_eq!(table.restoring_force_constant, Real(1e4));
    assert_eq!(table.ball_spacing_lower_bound, Real(2e-4));
    assert_eq!(table.ball_spacing_upper_bound, Real(3e-4));
    assert_eq!(table.ball_spacing_noise(), Real((3e-4 - 2e-4) / 4.0));
    assert_eq!(table.ball_radius_with_spacing(), Real(0.057 / 2.0 + (3e-4 + 2e-4) / 4.0));
}

#[test]
fn the_holes_lie_at_the_corners_and_the_middle_of_the_long_sides() {
    let table: Table<Real> = Table::standard();
    let got: Vec<[Real; 2]> = holes().iter().map(|hole| hole.coordinates(&table)).collect();
    let want = vec![
        [Real(0.0), Real(0.0)],
        [Real(1.12), Real(0.0)],
        [Real(2.24), Real(0.0)],
        [Real(0.0), Real(1.12)],
        [Real(1.12), Real(1.12)],
        [Real(2.24), Real(1.12)],
    ];
    assert_eq!(got, want);
    assert_eq!(Hole::TopMiddle.coordinates(&table), [Real(2.24 / 2.0), Real(1.12)]);
}

#[test]
fn the_rack_is_a_triangle_of_five_rows() {
    let table: Table<Real> = Table::standard();
    let spaced = 0.057 / 2.0 + (3e-4 + 2e-4) / 4.0;
    let offsets: [&[f64]; 5] = [
        &[0.0],
        &[-spaced, spaced],
        &[-2.0 * spaced, 0.0, 2.0 * spaced],
        &[-3.0 * spaced, -spaced, spaced, 3.0 * spaced],
        &[-4.0 * spaced, -2.0 * spaced, 0.0, 2.0 * spaced, 4.0 * spaced],
    ];
    let mut want = Vec::new();
    for (row, ys) in offsets.iter().enumerate() {
        let x = 3f64.sqrt() * spaced * row as f64;
        for y in ys.iter() {
            want.push((Real(2.24 - 1.12 / 2.0 + x), Real(1.12 / 2.0 + y)));
        }
    }
    let got = get_balls_starting_position(&table);
    assert_eq!(got.len(), BALL_COUNT - 1);
    assert_eq!(got, want);
}

#[test]
fn the_rack_is_exact_in_fixed_point() {
    let whole = Fixed::from_int;
    let table = Table {
        length: whole(64),
        width: whole(16),
        ball_radius: whole(1),
        ball_mass: whole(2),
        hole_radius: whole(2),
        restoring_force_constant: whole(8),
        ball_spacing_lower_bound: whole(0),
        ball_spacing_upper_bound: whole(0),
    };
    let got = get_balls_starting_position(&table);
    let pitch = whole(3).root();
    assert_eq!(got[0], (whole(56), whole(8)));
    assert_eq!(got[1], (whole(56).plus(pitch), whole(7)));
    assert_eq!(got[2], (whole(56).plus(pitch), whole(9)));
    assert_eq!(got[5], (whole(56).plus(pitch.times(whole(2))), whole(10)));
    assert_eq!(got[10], (whole(56).plus(pitch.times(whole(4))), whole(4)));
    assert_eq!(got[14], (whole(56).plus(pitch.times(whole(4))), whole(12)));
}

#[test]
fn the_white_ball_leads_the_rack() {
    let table: Table<Real> = Table::standard();
    let jitter: Vec<(Real, Real)> =
        (0..15).map(|n| (Real(1e-5 * n as f64), Real(-1e-5 * n as f64))).collect();
    let places = get_balls_starting_position(&table);
    for fixed in [true, false] {
        let balls = set_up_rack(&table, fixed, Real(0.25), [Real(1.0), Real(0.0)], &jitter);
        assert_eq!(balls.len(), BALL_COUNT);
        let zero = [Real(0.0), Real(0.0)];
        assert_eq!(
            balls[0].derivatives(),
            &vec![[Real(1.12 / 2.0), Real(1.12 / 2.0 + 0.25)], [Real(1.0), Real(0.0)], zero]
        );
        for (n, ball) in balls.iter().enumerate() {
            assert_eq!(ball.id(), n);
            assert_eq!(ball.radius(), table.ball_radius);
            assert_eq!(ball.mass(), table.ball_mass);
            assert_eq!(ball.prev_derivatives(), ball.derivatives());
            if n > 0 {
                let (dx, dy) = if fixed { (0.0, 0.0) } else { (jitter[n - 1].0 .0, jitter[n - 1].1 .0) };
                let at = [Real(places[n - 1].0 .0 + dx), Real(places[n - 1].1 .0 + dy)];
                assert_eq!(ball.derivatives(), &vec![at, zero, zero]);
            }
        }
    }
}

#[test]
fn an_isolated_ball_feels_no_force() {
    let table = wide_table(2.0);
    let set = [ball(0, 20.0, 8.0, &table), ball(1, 30.0, 8.0, &table)];
    assert_eq!(acceleration_function(&set[0], &set, &table), [Real(0.0), Real(0.0)]);
}

#[test]
fn overlapping_balls_push_each_other_apart() {
    let table = wide_table(2.0);
    // the centres are 1.5 apart, the radii add up to 2: half a unit of overlap
    let set = [ball(0, 20.0, 8.0, &table), ball(1, 21.5, 8.0, &table), ball(2, 40.0, 8.0, &table)];
    let on_first = acceleration_function(&set[0], &set, &table);
    let on_second = acceleration_function(&set[1], &set, &table);
    assert_eq!(on_first, [Real(8.0 * (1.5 - 2.0) * (1.5 / 1.5) / 2.0), Real(0.0)]);
    assert_eq!(on_first, [Real(-2.0), Real(0.0)]);
    assert_eq!(on_second, [Real(2.0), Real(0.0)]);
    assert_eq!(acceleration_function(&set[2], &set, &table), [Real(0.0), Real(0.0)]);
}

#[test]
fn balls_that_just_touch_still_count_as_in_contact() {
    let table = wide_table(2.0);
    let set = [ball(0, 20.0, 8.0, &table), ball(1, 23.0, 12.0, &table)];
    // 3-4-5: the centres are 5 apart
    let mut apart = set;
    assert_eq!(acceleration_function(&apart[0], &apart, &table), [Real(0.0), Real(0.0)]);
    apart = [ball(0, 20.0, 8.0, &table), ball(1, 20.0, 10.0, &table)];
    // exactly the sum of the radii apart: in contact, with no overlap to push back
    assert_eq!(acceleration_function(&apart[0], &apart, &table), [Real(0.0), Real(0.0)]);
}

#[test]
fn forces_add_up_in_the_order_of_the_set() {
    let table = wide_table(2.0);
    let set = [
        ball(0, 20.0, 8.0, &table),
        ball(1, 21.0, 8.0, &table),
        ball(2, 20.0, 9.5, &table),
        ball(3, 19.5, 8.0, &table),
    ];
    let got = acceleration_function(&set[0], &set, &table);
    let x = (0.0 + 8.0 * (1.0 - 2.0) * (1.0 / 1.0)) + 8.0 * (0.5 - 2.0) * (-0.5 / 0.5);
    let y = 0.0 + 8.0 * (1.5 - 2.0) * (1.5 / 1.5);
    assert_eq!(got, [Real(x / 2.0), Real(y / 2.0)]);
}

#[test]
fn the_cushions_push_a_ball_back_onto_the_table() {
    let table = wide_table(2.0);
    let near = [ball(0, 0.75, 8.0, &table)];
    assert_eq!(acceleration_function(&near[0], &near, &table), [Real(8.0 * (1.0 - 0.75) / 2.0), Real(0.0)]);
    let far = [ball(0, 63.5, 15.25, &table)];
    assert_eq!(
        acceleration_function(&far[0], &far, &table),
        [Real(8.0 * (64.0 - 1.0 - 63.5) / 2.0), Real(8.0 * (16.0 - 1.0 - 15.25) / 2.0)]
    );
    let touching = [ball(0, 1.0, 15.0, &table)];
    assert_eq!(acceleration_function(&touching[0], &touching, &table), [Real(0.0), Real(0.0)]);
    let outside = [ball(0, -0.5, 8.0, &table)];
    assert_eq!(acceleration_function(&outside[0], &outside, &table), [Real(8.0 * 1.5 / 2.0), Real(0.0)]);
}

#[test]
fn a_ball_on_the_capture_boundary_has_reached_the_hole() {
    let table = wide_table(9.0);
    // 6-8-10 from the bottom left hole, with a reach of 1 + 9
    assert!(Billiards::is_colliding_with_hole(&ball(0, 8.0, 6.0, &table), &table));
    // one unit of length beyond
    let table = wide_table(8.0);
    assert!(!Billiards::is_colliding_with_hole(&ball(0, 8.0, 6.0, &table), &table));
    // every hole captures
    let table = wide_table(2.0);
    for site in [(0.0, 3.0), (32.0, 3.0), (64.0, 3.0), (3.0, 16.0), (32.0, 13.0), (61.0, 16.0)] {
        assert!(Billiards::is_colliding_with_hole(&ball(0, site.0, site.1, &table), &table));
    }
    for site in [(0.0, 3.5), (32.0, 3.5), (64.0, 3.5), (3.5, 16.0), (32.0, 12.5), (60.5, 16.0), (20.0, 8.0)] {
        assert!(!Billiards::is_colliding_with_hole(&ball(0, site.0, site.1, &table), &table));
    }
}

#[test]
fn a_ball_on_the_capture_boundary_is_removed_by_the_next_step() {
    for scheme in SCHEMES.iter() {
        // the white ball rests at (8, 6): 10 from the bottom left hole
        let on_boundary = wide_table(9.0);
        let mut game = start(
            Real(0.125),
            scheme,
            true,
            Real(-2.0),
            [Real(0.0), Real(0.0)],
            &on_boundary,
            &no_jitter(),
        );
        assert!(game.balls().iter().any(|b| b.id() == 0));
        let before = game.balls().len();
        assert_eq!(before, BALL_COUNT);
        let left = game.run(1).len();
        assert!(left < before);
        assert!(!game.balls().iter().any(|b| b.id() == 0));

        let beyond = wide_table(8.0);
        let mut game = start(
            Real(0.125),
            scheme,
            true,
            Real(-2.0),
            [Real(0.0), Real(0.0)],
            &beyond,
            &no_jitter(),
        );
        game.run(1);
        assert!(game.balls().iter().any(|b| b.id() == 0));
    }
}

#[test]
fn balls_never_come_back() {
    let table: Table<Real> = Table::standard();
    for scheme in SCHEMES.iter() {
        let mut game = start(
            Real(1e-4),
            scheme,
            true,
            Real(0.0),
            [Real(9.0), Real(0.5)],
            &table,
            &no_jitter(),
        );
        let mut ids: Vec<usize> = game.balls().iter().map(|b| b.id()).collect();
        assert_eq!(ids, (0..BALL_COUNT).collect::<Vec<_>>());
        for _ in 0..40 {
            let now: Vec<usize> = game.run(100).iter().map(|b| b.id()).collect();
            assert!(now.len() <= ids.len());
            assert!(now.iter().all(|id| ids.contains(id)));
            assert!(now.windows(2).all(|w| w[0] < w[1]));
            ids = now;
        }
    }
}

#[test]
fn a_game_starts_prepared_for_its_scheme() {
    let table: Table<Real> = Table::standard();
    for scheme in SCHEMES.iter() {
        let game = start(
            Real(1e-4),
            scheme,
            true,
            Real(0.0),
            [Real(1.0), Real(0.0)],
            &table,
            &no_jitter(),
        );
        let rack = set_up_rack(&table, true, Real(0.0), [Real(1.0), Real(0.0)], &no_jitter());
        assert_eq!(game.balls().len(), BALL_COUNT);
        for (got, was) in game.balls().iter().zip(rack.iter()) {
            let orders = if *scheme == Integration::GearPredictorCorrector { 6 } else { 3 };
            assert_eq!(got.derivatives().len(), orders);
            assert_eq!(got.derivatives()[..3], was.derivatives()[..]);
            assert_eq!(got.prev_derivatives().len(), orders);
            match scheme {
                Integration::Verlet | Integration::Beeman | Integration::VerletLeapFrog => {
                    let back = if *scheme == Integration::VerletLeapFrog { 1e-4 / 2.0 } else { 1e-4 };
                    let r = was.derivatives()[0];
                    let v = was.derivatives()[1];
                    for i in 0..2 {
                        assert_eq!(got.prev_derivatives()[0][i].0, r[i].0 + (-back * v[i].0 + (-back * -back) / 2.0 * 0.0));
                    }
                }
                Integration::GearPredictorCorrector => {
                    assert_eq!(got.prev_derivatives(), got.derivatives())
                }
                _ => assert_eq!(got.prev_derivatives(), was.derivatives()),
            }
        }
    }
}

#[test]
fn a_rack_spaced_too_closely_fails_the_test_of_its_spacing() {
    let table: Table<Real> = Table::standard();
    let places = get_balls_starting_position(&table);
    // move the second ball of the rack onto the first, a tenth of the bound away
    let mut jitter = vec![(Real(0.0), Real(0.0)); 15];
    jitter[1] = (Real(places[0].0 .0 - places[1].0 .0 + 2e-5), Real(places[0].1 .0 - places[1].1 .0));
    let balls = set_up_rack(&table, false, Real(0.0), [Real(1.0), Real(0.0)], &jitter);
    assert!(balls[1].get_distance(&balls[2]).0 < 2e-4);
    // the test that stands before every game, whatever its scheme
    assert!(!spacing_respected(&balls, table.ball_spacing_lower_bound));
    // with the spacing fixed the jitter is not read and the rack is in order
    let balls = set_up_rack(&table, true, Real(0.0), [Real(1.0), Real(0.0)], &jitter);
    assert!(spacing_respected(&balls, table.ball_spacing_lower_bound));
    for scheme in SCHEMES.iter() {
        let balls = set_up_rack(&table, true, Real(0.0), [Real(1.0), Real(0.0)], &jitter);
        let game = Billiards::new(Real(1e-4), scheme, balls, &table);
        assert_eq!(game.balls().len(), BALL_COUNT);
    }
}

#[test]
fn a_rack_at_the_bound_of_the_spacing_is_accepted() {
    let mut table = wide_table(2.0);
    let balls = set_up_rack(&table, true, Real(0.0), [Real(0.0), Real(0.0)], &no_jitter());
    // the first two rows: (56, 8) and (56 + sqrt 3, 7): 2 apart, up to rounding
    let closest = balls[1].get_distance(&balls[2]);
    let mut least = closest;
    for a in balls.iter() {
        for b in balls.iter() {
            if a.id() != b.id() && a.get_distance(b).0 < least.0 {
                least = a.get_distance(b);
            }
        }
    }
    table.ball_spacing_lower_bound = least;
    assert!(spacing_respected(&balls, least));
    assert!(!spacing_respected(&balls, Real(least.0 + 1e-9)));
    let game = Billiards::new(Real(0.125), &Integration::Euler, balls, &table);
    assert_eq!(game.balls().len(), BALL_COUNT);
}

#[test]
fn with_the_spacing_fixed_nothing_is_drawn() {
    let table: Table<Real> = Table::standard();
    let drawn = draw_rack(&table, true, Real(0.01), [Real(3.0), Real(0.0)]);
    let set = set_up_rack(&table, true, Real(0.01), [Real(3.0), Real(0.0)], &no_jitter());
    assert_eq!(drawn.len(), set.len());
    for (x, y) in drawn.iter().zip(set.iter()) {
        assert_eq!(x.id(), y.id());
        assert_eq!(x.derivatives(), y.derivatives());
        assert_eq!(x.prev_derivatives(), y.prev_derivatives());
    }
}

#[test]
fn the_jitter_stays_within_the_noise_of_the_spacing() {
    let table: Table<Real> = Table::standard();
    let noise = (3e-4 - 2e-4) / 4.0;
    let jitter = draw_jitter(&table);
    assert_eq!(jitter.len(), BALL_COUNT - 1);
    let all: Vec<f64> = jitter.iter().flat_map(|pair| [pair.0 .0, pair.1 .0]).collect();
    assert!(all.iter().all(|x| -noise <= *x && *x <= noise));
    // thirty draws out of two thousand million and one outcomes do not all agree
    assert!(all.iter().any(|x| *x != all[0]));
    assert!(all.iter().any(|x| *x != noise));
    let again = draw_jitter(&table);
    assert!(again != jitter);
}

#[test]
fn a_random_rack_lies_within_the_noise_of_the_fixed_one() {
    let table: Table<Real> = Table::standard();
    let noise = (3e-4 - 2e-4) / 4.0;
    let fixed = set_up_rack(&table, true, Real(0.0), [Real(1.0), Real(0.0)], &no_jitter());
    for scheme in SCHEMES.iter() {
        let balls = draw_rack(&table, false, Real(0.0), [Real(1.0), Real(0.0)]);
        assert!(spacing_respected(&balls, table.ball_spacing_lower_bound));
        let game = Billiards::new(Real(1e-4), scheme, balls, &table);
        assert_eq!(game.balls().len(), BALL_COUNT);
        assert_eq!(game.balls()[0].derivatives()[0], fixed[0].derivatives()[0]);
        let mut moved = 0;
        for (got, was) in game.balls().iter().zip(fixed.iter()).skip(1) {
            for i in 0..2 {
                let offset = got.derivatives()[0][i].0 - was.derivatives()[0][i].0;
                assert!(offset.abs() <= noise * (1.0 + 1e-9), "{}", offset);
                if offset != 0.0 {
                    moved += 1;
                }
            }
        }
        assert!(moved > 0);
    }
}

#[test]
fn a_game_in_fixed_point_runs_the_same_every_time() {
    let whole = Fixed::from_int;
    let table = Table {
        length: whole(64),
        width: whole(16),
        ball_radius: whole(1),
        ball_mass: whole(2),
        hole_radius: whole(2),
        restoring_force_constant: whole(8),
        ball_spacing_lower_bound: whole(1),
        ball_spacing_upper_bound: whole(1),
    };
    let velocity = [whole(6), Fixed::from_raw(1 << 30)];
    let dt = whole(1).over(whole(16));
    for scheme in SCHEMES.iter() {
        let mut first = start(dt, scheme, true, whole(0), velocity, &table, &Vec::new());
        let mut second = start(dt, scheme, true, whole(0), velocity, &table, &Vec::new());
        let mut count = BALL_COUNT;
        for _ in 0..20 {
            first.run(10);
            assert!(first.balls().len() <= count);
            count = first.balls().len();
        }
        second.run(200);
        assert_eq!(first.balls().len(), second.balls().len());
        for (a, b) in first.balls().iter().zip(second.balls().iter()) {
            assert_eq!(a.id(), b.id());
            assert_eq!(a.derivatives(), b.derivatives());
            assert_eq!(a.prev_derivatives(), b.prev_derivatives());
        }
    }
}

#[test]
fn the_white_ball_moves_as_the_euler_formula_says_in_fixed_point() {
    let whole = Fixed::from_int;
    let table = Table {
        length: whole(64),
        width: whole(16),
        ball_radius: whole(1),
        ball_mass: whole(2),
        hole_radius: whole(2),
        restoring_force_constant: whole(8),
        ball_spacing_lower_bound: whole(1),
        ball_spacing_upper_bound: whole(1),
    };
    let half = whole(1).over(whole(2));
    let mut game =
        start(half, &Integration::Euler, true, whole(0), [whole(3), whole(-1)], &table, &Vec::new());
    game.run(1);
    let white = &game.balls()[0];
    assert_eq!(white.id(), 0);
    // from (8, 8) with velocity (3, -1): half a step on, free of any force
    assert_eq!(
        white.derivatives(),
        &vec![
            [whole(9).plus(half), whole(7).plus(half)],
            [whole(3), whole(-1)],
            [whole(0), whole(0)]
        ]
    );
    game.run(1);
    let white = &game.balls()[0];
    assert_eq!(white.derivatives()[0], [whole(11), whole(7)]);
}
