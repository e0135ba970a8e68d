//! The billiards table: sixteen balls that repel each other and the cushions
//! like stiff springs, and six holes that take a ball out of play.

use crate::integrator::Integrator;
use crate::methods::{Acceleration, IntegrationMethod};
use crate::particle::{separation, Particle, ParticleView};
use crate::scalar::{fraction, Scalar};
use crate::Integration;
use rand::Rng;
use vstd::prelude::*;

verus! {

/// The number of spatial dimensions of the table.
pub const DIM: usize = 2;

/// The number of balls on the table at the start, the white one included.
pub const BALL_COUNT: usize = 16;

/// The number of steps, to either side of zero, into which the random spacing
/// of a rack divides its noise.
pub const JITTER_STEPS: i32 = 1000000000;

/// The measures of a table and of its balls.
#[derive(Debug)]
pub struct Table<S> {
    pub length: S,
    pub width: S,
    pub ball_radius: S,
    pub ball_mass: S,
    pub hole_radius: S,
    /// The stiffness of the springs that push overlapping bodies apart.
    pub restoring_force_constant: S,
    pub ball_spacing_lower_bound: S,
    pub ball_spacing_upper_bound: S,
}

impl<S: Copy> Clone for Table<S> {
    fn clone(&self) -> (out: Self)
        ensures
            out == *self,
    {
        *self
    }
}

impl<S: Copy> Copy for Table<S> {

}

impl<S: Scalar> Table<S> {
    /// The measures of the standard table, in SI units.
    pub open spec fn regulation() -> Self {
        Table {
            length: crate::scalar::ratio::<S>(224, 100),
            width: crate::scalar::ratio::<S>(112, 100),
            ball_radius: crate::scalar::ratio::<S>(57, 1000).quotient(S::of_int(2)),
            ball_mass: crate::scalar::ratio::<S>(165, 1000),
            hole_radius: crate::scalar::ratio::<S>(57, 1000).quotient(S::of_int(2)).product(
                S::of_int(2),
            ),
            restoring_force_constant: S::of_int(10000),
            ball_spacing_lower_bound: crate::scalar::ratio::<S>(2, 10000),
            ball_spacing_upper_bound: crate::scalar::ratio::<S>(3, 10000),
        }
    }

    /// The largest offset, to either side, that the random spacing of a rack
    /// gives a coordinate of a ball.
    pub open spec fn spacing_noise(self) -> S {
        self.ball_spacing_upper_bound.difference(self.ball_spacing_lower_bound).quotient(
            S::of_int(4),
        )
    }

    /// The radius of a ball in the rack, with the room that the spacing leaves
    /// around it.
    pub open spec fn radius_with_spacing(self) -> S {
        self.ball_radius.sum(
            self.ball_spacing_upper_bound.sum(self.ball_spacing_lower_bound).quotient(S::of_int(4)),
        )
    }

    /// The far end of the table along each axis.
    pub open spec fn bounds(self) -> Seq<S> {
        seq![self.length, self.width]
    }

    /// Computes [`Table::regulation`].
    pub fn standard() -> (out: Self)
        ensures
            out == Self::regulation(),
    {
        let ball_radius = fraction::<S>(57, 1000).over(S::from_int(2));
        Table {
            length: fraction::<S>(224, 100),
            width: fraction::<S>(112, 100),
            ball_radius,
            ball_mass: fraction::<S>(165, 1000),
            hole_radius: ball_radius.times(S::from_int(2)),
            restoring_force_constant: S::from_int(10000),
            ball_spacing_lower_bound: fraction::<S>(2, 10000),
            ball_spacing_upper_bound: fraction::<S>(3, 10000),
        }
    }

    /// Computes [`Table::spacing_noise`].
    pub fn ball_spacing_noise(&self) -> (out: S)
        ensures
            out == self.spacing_noise(),
    {
        self.ball_spacing_upper_bound.minus(self.ball_spacing_lower_bound).over(S::from_int(4))
    }

    /// Computes [`Table::radius_with_spacing`].
    pub fn ball_radius_with_spacing(&self) -> (out: S)
        ensures
            out == self.radius_with_spacing(),
    {
        self.ball_radius.plus(
            self.ball_spacing_upper_bound.plus(self.ball_spacing_lower_bound).over(S::from_int(4)),
        )
    }
}

/// The holes of a table.
#[derive(Clone, Copy, Debug, PartialEq, Eq, Structural)]
pub enum Hole {
    BottomLeft,
    BottomMiddle,
    BottomRight,
    TopLeft,
    TopMiddle,
    TopRight,
}

/// All holes, in the order in which a ball is held against them.
pub open spec fn hole_variants() -> Seq<Hole> {
    seq![
        Hole::BottomLeft,
        Hole::BottomMiddle,
        Hole::BottomRight,
        Hole::TopLeft,
        Hole::TopMiddle,
        Hole::TopRight,
    ]
}

/// Computes [`hole_variants`].
pub fn holes() -> (out: [Hole; 6])
    ensures
        out@ == hole_variants(),
{
    let out = [
        Hole::BottomLeft,
        Hole::BottomMiddle,
        Hole::BottomRight,
        Hole::TopLeft,
        Hole::TopMiddle,
        Hole::TopRight,
    ];
    assert(out@ =~= hole_variants());
    out
}

impl Hole {
    /// Where the hole lies on `table`.
    pub open spec fn site<S: Scalar>(self, table: Table<S>) -> Seq<S> {
        let zero = crate::scalar::zero::<S>();
        let middle = table.length.quotient(S::of_int(2));
        match self {
            Hole::BottomLeft => seq![zero, zero],
            Hole::BottomMiddle => seq![middle, zero],
            Hole::BottomRight => seq![table.length, zero],
            Hole::TopLeft => seq![zero, table.width],
            Hole::TopMiddle => seq![middle, table.width],
            Hole::TopRight => seq![table.length, table.width],
        }
    }

    /// Computes [`Hole::site`].
    pub fn coordinates<S: Scalar>(&self, table: &Table<S>) -> (out: [S; DIM])
        ensures
            out@ == self.site(*table),
    {
        let zero = S::from_int(0);
        let out = match self {
            Hole::BottomLeft => [zero, zero],
            Hole::BottomMiddle => [table.length.over(S::from_int(2)), zero],
            Hole::BottomRight => [table.length, zero],
            Hole::TopLeft => [zero, table.width],
            Hole::TopMiddle => [table.length.over(S::from_int(2)), table.width],
            Hole::TopRight => [table.length, table.width],
        };
        assert(out@ =~= self.site(*table));
        out
    }
}

/// The row of the rack, counted from the tip, that holds the ball at index
/// `n` of the rack.
pub open spec fn rack_row(n: int) -> int {
    if n < 1 {
        0
    } else if n < 3 {
        1
    } else if n < 6 {
        2
    } else if n < 10 {
        3
    } else {
        4
    }
}

/// The index of the first ball of the given row of the rack.
pub open spec fn rack_start(row: int) -> int {
    if row <= 0 {
        0
    } else if row == 1 {
        1
    } else if row == 2 {
        3
    } else if row == 3 {
        6
    } else if row == 4 {
        10
    } else {
        15
    }
}

/// Where the ball at the given place of the given row of the rack starts. Row
/// `row` holds `row + 1` balls; the rows lie a ball's width times half the
/// square root of three apart along the table, and the balls of a row a ball's
/// width apart across it, centred on the long axis.
pub open spec fn rack_position<S: Scalar>(table: Table<S>, row: int, place: int) -> (S, S) {
    let spaced = table.radius_with_spacing();
    let half_width = table.width.quotient(S::of_int(2));
    let x = S::of_int(3).square_root().product(spaced).product(S::of_int(row as i32));
    let y = S::of_int((2 * place - row) as i32).product(spaced);
    (table.length.difference(half_width).sum(x), half_width.sum(y))
}

/// Where the fifteen balls of the rack start, row by row from the tip.
pub open spec fn starting_positions<S: Scalar>(table: Table<S>) -> Seq<(S, S)> {
    Seq::new(15, |n: int| rack_position(table, rack_row(n), n - rack_start(rack_row(n))))
}

/// Computes [`starting_positions`].
pub fn get_balls_starting_position<S: Scalar>(table: &Table<S>) -> (positions: Vec<(S, S)>)
    ensures
        positions@ == starting_positions(*table),
{
    let spaced = table.ball_radius_with_spacing();
    let half_width = table.width.over(S::from_int(2));
    let base = table.length.minus(half_width);
    let pitch = S::from_int(3).root().times(spaced);
    let mut positions: Vec<(S, S)> = Vec::new();
    let mut row: usize = 0;
    while row < 5
        invariant
            row <= 5,
            spaced == table.radius_with_spacing(),
            half_width == table.width.quotient(S::of_int(2)),
            base == table.length.difference(half_width),
            pitch == S::of_int(3).square_root().product(spaced),
            positions@.len() == rack_start(row as int),
            forall|n: int|
                0 <= n < positions@.len() ==> positions@[n] == rack_position(
                    *table,
                    rack_row(n),
                    n - rack_start(rack_row(n)),
                ),
        decreases 5 - row,
    {
        let x = pitch.times(S::from_int(row as i32));
        let mut place: usize = 0;
        while place <= row
            invariant
                row < 5,
                place <= row + 1,
                spaced == table.radius_with_spacing(),
                half_width == table.width.quotient(S::of_int(2)),
                base == table.length.difference(half_width),
                x == S::of_int(3).square_root().product(spaced).product(S::of_int(row as i32)),
                positions@.len() == rack_start(row as int) + place,
                forall|n: int|
                    0 <= n < positions@.len() ==> positions@[n] == rack_position(
                        *table,
                        rack_row(n),
                        n - rack_start(rack_row(n)),
                    ),
            decreases row + 1 - place,
        {
            let step: i32 = 2 * (place as i32) - (row as i32);
            let y = S::from_int(step).times(spaced);
            positions.push((base.plus(x), half_width.plus(y)));
            place += 1;
        }
        row += 1;
    }
    assert(positions@ =~= starting_positions(*table));
    positions
}

/// The force that the balls of `others` up to index `n` put on `p`, axis by
/// axis.
///
/// A ball takes no force from itself (the ball of its own identity) nor from a
/// ball it does not touch. A ball that it overlaps pushes it away along the
/// line of centres, in proportion to the depth of the overlap.
pub open spec fn pair_forces<S: Scalar>(
    table: Table<S>,
    p: ParticleView<S>,
    others: Seq<ParticleView<S>>,
    n: nat,
) -> Seq<S>
    decreases n,
{
    if n == 0 {
        Seq::new(DIM as nat, |i: int| crate::scalar::zero::<S>())
    } else {
        let before = pair_forces(table, p, others, (n - 1) as nat);
        let other = others[n - 1];
        let delta = crate::scalar::offset(other.stack[0], p.stack[0]);
        let gap = crate::scalar::norm(delta);
        let reach = p.radius.sum(other.radius);
        if p.id == other.id || reach.below(gap) {
            before
        } else {
            Seq::new(
                DIM as nat,
                |i: int|
                    before[i].sum(
                        table.restoring_force_constant.product(gap.difference(reach)).product(
                            delta[i].quotient(gap),
                        ),
                    ),
            )
        }
    }
}

/// The force `f` along axis `i` with the push of the cushions added: a ball
/// within its radius of either end of the axis is pushed back in proportion
/// to how far it has gone in.
pub open spec fn with_wall_force<S: Scalar>(table: Table<S>, p: ParticleView<S>, i: int, f: S) -> S {
    let x = p.stack[0][i];
    let far = table.bounds()[i].difference(p.radius);
    if x.at_most(p.radius) {
        f.sum(table.restoring_force_constant.product(p.radius.difference(x)))
    } else if far.at_most(x) {
        f.sum(table.restoring_force_constant.product(far.difference(x)))
    } else {
        f
    }
}

/// The acceleration of the ball `p` among `others` on `table`.
pub open spec fn table_acceleration<S: Scalar>(
    table: Table<S>,
    p: ParticleView<S>,
    others: Seq<ParticleView<S>>,
) -> Seq<S> {
    let forces = pair_forces(table, p, others, others.len());
    Seq::new(DIM as nat, |i: int| with_wall_force(table, p, i, forces[i]).quotient(p.mass))
}

/// Computes [`table_acceleration`].
pub fn acceleration_function<S: Scalar>(
    particle: &Particle<S, DIM>,
    others: &[Particle<S, DIM>],
    table: &Table<S>,
) -> (out: [S; DIM])
    requires
        particle@.wf(DIM as nat),
        crate::particle::all_wf(crate::particle::views(others@), DIM as nat),
    ensures
        out@ == table_acceleration(*table, particle@, crate::particle::views(others@)),
{
    let stiffness = table.restoring_force_constant;
    let d = particle.derivatives();
    let ghost p = particle@;
    let ghost all = crate::particle::views(others@);
    proof {
        crate::particle::rows_hold_the_vectors(d@);
    }
    let position = d[0];
    let mut forces = [S::from_int(0);DIM];
    assert(forces@ =~= pair_forces(*table, p, all, 0));

    let mut n: usize = 0;
    while n < others.len()
        invariant
            n <= others@.len(),
            p == particle@,
            p.wf(DIM as nat),
            all == crate::particle::views(others@),
            crate::particle::all_wf(all, DIM as nat),
            position@ == p.stack[0],
            stiffness == table.restoring_force_constant,
            forces@ == pair_forces(*table, p, all, n as nat),
        decreases others@.len() - n,
    {
        let other = &others[n];
        assert(all[n as int] == other@);
        assert(other@.wf(DIM as nat));
        let ghost before = forces@;
        let ghost delta = crate::scalar::offset(other@.stack[0], p.stack[0]);
        if particle.id() != other.id() {
            let e = other.derivatives();
            proof {
                crate::particle::rows_hold_the_vectors(e@);
            }
            let other_position = e[0];
            let gap = separation(&other_position, &position);
            let reach = particle.radius().plus(other.radius());
            if !reach.lt(gap) {
                let depth = stiffness.times(gap.minus(reach));
                let mut i: usize = 0;
                while i < DIM
                    invariant
                        i <= DIM,
                        position@ == p.stack[0],
                        other_position@ == other@.stack[0],
                        delta == crate::scalar::offset(other@.stack[0], p.stack[0]),
                        p.stack[0].len() == DIM,
                        other@.stack[0].len() == DIM,
                        before.len() == DIM,
                        forall|j: int|
                            0 <= j < i ==> forces@[j] == before[j].sum(
                                depth.product(delta[j].quotient(gap)),
                            ),
                        forall|j: int| i <= j < DIM ==> forces@[j] == before[j],
                    decreases DIM - i,
                {
                    let along = other_position[i].minus(position[i]).over(gap);
                    forces[i] = forces[i].plus(depth.times(along));
                    i += 1;
                }
                assert(forces@ =~= pair_forces(*table, p, all, (n + 1) as nat));
            }
        }
        n += 1;
    }

    let ghost pushed = forces@;
    let length = table.length;
    let width = table.width;
    let far_ends = [length, width];
    assert(far_ends@ =~= table.bounds());
    let radius = particle.radius();
    let mass = particle.mass();
    let mut i: usize = 0;
    while i < DIM
        invariant
            i <= DIM,
            p == particle@,
            position@ == p.stack[0],
            p.stack[0].len() == DIM,
            pushed.len() == DIM,
            far_ends@ == table.bounds(),
            radius == p.radius,
            mass == p.mass,
            stiffness == table.restoring_force_constant,
            forall|j: int|
                0 <= j < i ==> forces@[j] == with_wall_force(*table, p, j, pushed[j]).quotient(mass),
            forall|j: int| i <= j < DIM ==> forces@[j] == pushed[j],
        decreases DIM - i,
    {
        let x = position[i];
        let far = far_ends[i].minus(radius);
        if x.le(radius) {
            forces[i] = forces[i].plus(stiffness.times(radius.minus(x)));
        } else if far.le(x) {
            forces[i] = forces[i].plus(stiffness.times(far.minus(x)));
        }
        forces[i] = forces[i].over(mass);
        i += 1;
    }
    assert(forces@ =~= table_acceleration(*table, p, all));
    forces
}

impl<S: Scalar> Acceleration<S, DIM> for Table<S> {
    open spec fn acceleration(&self, particle: ParticleView<S>, others: Seq<ParticleView<S>>) -> Seq<
        S,
    > {
        table_acceleration(*self, particle, others)
    }

    fn accelerate(&self, particle: &Particle<S, DIM>, others: &[Particle<S, DIM>]) -> (a: [
        S;
        DIM
    ]) {
        acceleration_function(particle, others, self)
    }
}

/// Draws a whole number from `low` to `high`, both included.
///
/// The call is `rand::Rng::gen_range`, with the inclusive range from `low` to
/// `high`, on the generator that `rand::thread_rng` keeps for the thread. What
/// is taken on trust is that the number drawn lies in that range; which number
/// it is, nothing says. The generator is seeded by the operating system when a
/// thread first asks for it, and panics where that fails.
#[verifier::external_body]
fn draw(low: i32, high: i32) -> (k: i32)
    requires
        low <= high,
    ensures
        low <= k <= high,
{
    rand::thread_rng().gen_range(low..=high)
}

/// The pair of offsets that the draws `x` and `y` stand for: as many steps of
/// the noise of the spacing along either axis.
pub open spec fn offsets<S: Scalar>(table: Table<S>, x: i32, y: i32) -> (S, S) {
    (
        table.spacing_noise().product(S::of_int(x)).quotient(S::of_int(JITTER_STEPS)),
        table.spacing_noise().product(S::of_int(y)).quotient(S::of_int(JITTER_STEPS)),
    )
}

/// Whether `pair` holds the offsets of some pair of draws.
pub open spec fn is_drawn<S: Scalar>(table: Table<S>, pair: (S, S)) -> bool {
    exists|x: i32, y: i32|
        -JITTER_STEPS <= x <= JITTER_STEPS && -JITTER_STEPS <= y <= JITTER_STEPS && pair
            == #[trigger] offsets(table, x, y)
}

/// Whether `jitter` can come of the draws for a rack: whether it holds, for
/// each of the fifteen balls, the offsets of some pair of draws.
pub open spec fn drawn<S: Scalar>(table: Table<S>, jitter: Seq<(S, S)>) -> bool {
    &&& jitter.len() == BALL_COUNT - 1
    &&& forall|n: int| 0 <= n < jitter.len() ==> is_drawn(table, #[trigger] jitter[n])
}

/// Draws the offsets by which the random spacing moves the balls of a rack:
/// for each ball first the one along the table, then the one across it.
pub fn draw_jitter<S: Scalar>(table: &Table<S>) -> (jitter: Vec<(S, S)>)
    ensures
        drawn(*table, jitter@),
{
    let noise = table.ball_spacing_noise();
    let steps = S::from_int(JITTER_STEPS);
    let mut jitter: Vec<(S, S)> = Vec::new();
    let mut n: usize = 0;
    while n < BALL_COUNT - 1
        invariant
            n <= BALL_COUNT - 1,
            jitter@.len() == n,
            noise == table.spacing_noise(),
            steps == S::of_int(JITTER_STEPS),
            forall|m: int| 0 <= m < jitter@.len() ==> is_drawn(*table, #[trigger] jitter@[m]),
        decreases BALL_COUNT - 1 - n,
    {
        let x = draw(-JITTER_STEPS, JITTER_STEPS);
        let y = draw(-JITTER_STEPS, JITTER_STEPS);
        let pair = (noise.times(S::from_int(x)).over(steps), noise.times(S::from_int(y)).over(steps));
        assert(pair == offsets(*table, x, y));
        assert(is_drawn(*table, pair));
        jitter.push(pair);
        n += 1;
    }
    jitter
}

/// The vector of `DIM` zeros.
pub open spec fn origin<S: Scalar>() -> Seq<S> {
    Seq::new(DIM as nat, |i: int| crate::scalar::zero::<S>())
}

/// A ball of `table` at rest or in motion: at `r` with velocity `v` and no
/// acceleration.
pub open spec fn ball<S: Scalar>(table: Table<S>, id: usize, r: Seq<S>, v: Seq<S>) -> ParticleView<
    S,
> {
    ParticleView {
        id,
        stack: seq![r, v, origin::<S>()],
        prev: seq![r, v, origin::<S>()],
        radius: table.ball_radius,
        mass: table.ball_mass,
    }
}

/// The balls of a table as a game starts.
///
/// The white ball, of identity 0, lies half a table's width from the near end,
/// `white_offset` off the long axis, and moves with `initial_velocity`. The
/// fifteen others, of identities 1 to 15, rest at the places of the rack, each
/// moved by its pair of `jitter` unless the spacing is fixed.
pub open spec fn rack<S: Scalar>(
    table: Table<S>,
    fixed_ball_spacing: bool,
    white_offset: S,
    initial_velocity: Seq<S>,
    jitter: Seq<(S, S)>,
) -> Seq<ParticleView<S>> {
    let half_width = table.width.quotient(S::of_int(2));
    Seq::new(
        BALL_COUNT as nat,
        |n: int|
            if n == 0 {
                ball(table, 0, seq![half_width, half_width.sum(white_offset)], initial_velocity)
            } else {
                let place = starting_positions(table)[n - 1];
                let moved = if fixed_ball_spacing {
                    (crate::scalar::zero::<S>(), crate::scalar::zero::<S>())
                } else {
                    jitter[n - 1]
                };
                ball(
                    table,
                    n as usize,
                    seq![place.0.sum(moved.0), place.1.sum(moved.1)],
                    origin::<S>(),
                )
            },
    )
}

/// Computes [`rack`].
pub fn set_up_rack<S: Scalar>(
    table: &Table<S>,
    fixed_ball_spacing: bool,
    white_offset: S,
    initial_velocity: [S; DIM],
    jitter: &Vec<(S, S)>,
) -> (balls: Vec<Particle<S, DIM>>)
    requires
        !fixed_ball_spacing ==> jitter@.len() >= BALL_COUNT - 1,
    ensures
        crate::particle::views(balls@) == rack(
            *table,
            fixed_ball_spacing,
            white_offset,
            initial_velocity@,
            jitter@,
        ),
        crate::particle::all_wf(crate::particle::views(balls@), DIM as nat),
{
    let zero = S::from_int(0);
    let at_rest = [zero, zero];
    assert(at_rest@ =~= origin::<S>());
    let half_width = table.width.over(S::from_int(2));
    let ghost want = rack(*table, fixed_ball_spacing, white_offset, initial_velocity@, jitter@);
    let mut balls: Vec<Particle<S, DIM>> = Vec::new();
    let white_position = [half_width, half_width.plus(white_offset)];
    assert(white_position@ =~= seq![half_width, half_width.sum(white_offset)]);
    let white_ball = Particle::new(
        0,
        white_position,
        initial_velocity,
        at_rest,
        table.ball_radius,
        table.ball_mass,
    );
    assert(white_ball@ == want[0]);
    balls.push(white_ball);
    let places = get_balls_starting_position(table);
    let mut n: usize = 0;
    while n < places.len()
        invariant
            n <= 15,
            places@ == starting_positions(*table),
            !fixed_ball_spacing ==> jitter@.len() >= BALL_COUNT - 1,
            zero == crate::scalar::zero::<S>(),
            at_rest@ == origin::<S>(),
            want == rack(*table, fixed_ball_spacing, white_offset, initial_velocity@, jitter@),
            balls@.len() == n + 1,
            forall|k: int| 0 <= k <= n ==> (#[trigger] balls@[k])@ == want[k],
            forall|k: int| 0 <= k <= n ==> (#[trigger] balls@[k])@.wf(DIM as nat),
        decreases 15 - n,
    {
        let (x, y) = places[n];
        let (x_spacing, y_spacing) = if fixed_ball_spacing {
            (zero, zero)
        } else {
            jitter[n]
        };
        let position = [x.plus(x_spacing), y.plus(y_spacing)];
        assert(position@ =~= seq![x.sum(x_spacing), y.sum(y_spacing)]);
        let next = Particle::new(
            n + 1,
            position,
            at_rest,
            at_rest,
            table.ball_radius,
            table.ball_mass,
        );
        assert(next@ == want[n + 1]);
        balls.push(next);
        n += 1;
    }
    assert(crate::particle::views(balls@) =~= want);
    balls
}

/// Sets up the balls of a game as [`set_up_rack`] does, with offsets drawn at
/// random unless the spacing is fixed.
pub fn draw_rack<S: Scalar>(
    table: &Table<S>,
    fixed_ball_spacing: bool,
    white_offset: S,
    initial_velocity: [S; DIM],
) -> (balls: Vec<Particle<S, DIM>>)
    ensures
        exists|jitter: Seq<(S, S)>|
            (fixed_ball_spacing || drawn(*table, jitter)) && crate::particle::views(balls@)
                == #[trigger] rack(
                *table,
                fixed_ball_spacing,
                white_offset,
                initial_velocity@,
                jitter,
            ),
        crate::particle::all_wf(crate::particle::views(balls@), DIM as nat),
{
    let jitter = if fixed_ball_spacing {
        Vec::new()
    } else {
        draw_jitter(table)
    };
    set_up_rack(table, fixed_ball_spacing, white_offset, initial_velocity, &jitter)
}

/// Whether any two of the balls lie at least `lower_bound` apart.
pub open spec fn spaced<S: Scalar>(balls: Seq<ParticleView<S>>, lower_bound: S) -> bool {
    forall|i: int, j: int|
        #![trigger balls[i], balls[j]]
        0 <= i < balls.len() && 0 <= j < balls.len() && i != j ==> lower_bound.at_most(
            crate::particle::distance(balls[i].stack[0], balls[j].stack[0]),
        )
}

/// Computes [`spaced`].
pub fn spacing_respected<S: Scalar>(balls: &Vec<Particle<S, DIM>>, lower_bound: S) -> (out: bool)
    requires
        crate::particle::all_wf(crate::particle::views(balls@), DIM as nat),
    ensures
        out == spaced(crate::particle::views(balls@), lower_bound),
{
    let ghost all = crate::particle::views(balls@);
    let mut i: usize = 0;
    while i < balls.len()
        invariant
            i <= balls@.len(),
            all == crate::particle::views(balls@),
            crate::particle::all_wf(all, DIM as nat),
            forall|a: int, b: int|
                #![trigger all[a], all[b]]
                0 <= a < i && 0 <= b < all.len() && a != b ==> lower_bound.at_most(
                    crate::particle::distance(all[a].stack[0], all[b].stack[0]),
                ),
        decreases balls@.len() - i,
    {
        let mut j: usize = 0;
        while j < balls.len()
            invariant
                i < balls@.len(),
                j <= balls@.len(),
                all == crate::particle::views(balls@),
                crate::particle::all_wf(all, DIM as nat),
                forall|a: int, b: int|
                    #![trigger all[a], all[b]]
                    0 <= a < i && 0 <= b < all.len() && a != b ==> lower_bound.at_most(
                        crate::particle::distance(all[a].stack[0], all[b].stack[0]),
                    ),
                forall|b: int|
                    0 <= b < j && i != b ==> lower_bound.at_most(
                        crate::particle::distance(all[i as int].stack[0], (#[trigger] all[b]).stack[0]),
                    ),
            decreases balls@.len() - j,
        {
            if i != j {
                assert(all[i as int] == balls@[i as int]@ && all[j as int] == balls@[j as int]@);
                assert(all[i as int].wf(DIM as nat) && all[j as int].wf(DIM as nat));
                let apart = balls[i].get_distance(&balls[j]);
                if !lower_bound.le(apart) {
                    return false;
                }
            }
            j += 1;
        }
        i += 1;
    }
    true
}

/// Whether a ball has reached a hole: whether its centre lies within the sum
/// of its radius and the radius of the hole of the site of some hole.
pub open spec fn captured<S: Scalar>(table: Table<S>, p: ParticleView<S>) -> bool {
    exists|k: int|
        0 <= k < hole_variants().len() && crate::particle::distance(
            p.stack[0],
            (#[trigger] hole_variants()[k]).site(table),
        ).at_most(p.radius.sum(table.hole_radius))
}

/// The balls that stay on the table: those that no hole has captured, in the
/// order they had.
pub open spec fn survivors<S: Scalar>(table: Table<S>, balls: Seq<ParticleView<S>>) -> Seq<
    ParticleView<S>,
> {
    balls.filter(|p: ParticleView<S>| !captured(table, p))
}

/// The balls after one step of the scheme and the removal that follows it.
pub open spec fn tick<S: Scalar>(
    method: Integrator<S, Table<S>>,
    table: Table<S>,
    balls: Seq<ParticleView<S>>,
) -> Seq<ParticleView<S>> {
    survivors(table, crate::methods::advanced::<S, Integrator<S, Table<S>>, DIM>(method, balls))
}

/// The balls after `steps` steps, each followed by the removal of the balls
/// that have reached a hole.
pub open spec fn ticks<S: Scalar>(
    method: Integrator<S, Table<S>>,
    table: Table<S>,
    balls: Seq<ParticleView<S>>,
    steps: nat,
) -> Seq<ParticleView<S>>
    decreases steps,
{
    if steps == 0 {
        balls
    } else {
        tick(method, table, ticks(method, table, balls, (steps - 1) as nat))
    }
}

/// No step adds a ball: after any number of steps there are at most as many
/// balls on the table as before.
pub proof fn ball_count_never_grows<S: Scalar>(
    method: Integrator<S, Table<S>>,
    table: Table<S>,
    balls: Seq<ParticleView<S>>,
    steps: nat,
)
    ensures
        ticks(method, table, balls, steps).len() <= balls.len(),
        steps > 0 ==> ticks(method, table, balls, steps).len() <= ticks(
            method,
            table,
            balls,
            (steps - 1) as nat,
        ).len(),
    decreases steps,
{
    if steps > 0 {
        ball_count_never_grows(method, table, balls, (steps - 1) as nat);
        let before = ticks(method, table, balls, (steps - 1) as nat);
        let moved = crate::methods::advanced::<S, Integrator<S, Table<S>>, DIM>(method, before);
        moved.lemma_filter_len(|p: ParticleView<S>| !captured(table, p));
    }
}

/// Whether the ball `p` has the identity of one of `balls`.
pub open spec fn is_one_of<S: Scalar>(balls: Seq<ParticleView<S>>, p: ParticleView<S>) -> bool {
    exists|j: int| 0 <= j < balls.len() && (#[trigger] balls[j]).id == p.id
}

/// No step brings a ball back: every ball on the table after any number of
/// steps has the identity of a ball that was on it before.
pub proof fn no_ball_comes_back<S: Scalar>(
    method: Integrator<S, Table<S>>,
    table: Table<S>,
    balls: Seq<ParticleView<S>>,
    steps: nat,
)
    ensures
        forall|k: int|
            0 <= k < ticks(method, table, balls, steps).len() ==> is_one_of(
                balls,
                #[trigger] ticks(method, table, balls, steps)[k],
            ),
    decreases steps,
{
    let after = ticks(method, table, balls, steps);
    if steps > 0 {
        no_ball_comes_back(method, table, balls, (steps - 1) as nat);
        let before = ticks(method, table, balls, (steps - 1) as nat);
        let moved = crate::methods::advanced::<S, Integrator<S, Table<S>>, DIM>(method, before);
        let stays = |p: ParticleView<S>| !captured(table, p);
        assert forall|k: int| 0 <= k < after.len() implies is_one_of(balls, #[trigger] after[k]) by {
            assert(moved.filter(stays).contains(after[k]));
            moved.lemma_filter_contains_rev(stays, after[k]);
            let i = choose|i: int| 0 <= i < moved.len() && moved[i] == after[k];
            assert(moved[i].id == before[i].id);
            assert(is_one_of(balls, before[i]));
        }
    } else {
        assert forall|k: int| 0 <= k < after.len() implies is_one_of(balls, #[trigger] after[k]) by {
            assert(balls[k].id == after[k].id);
        }
    }
}

/// The three higher derivatives that the Gear scheme starts a ball with: all
/// zero.
pub open spec fn still<S: Scalar>() -> Seq<Seq<S>> {
    seq![origin::<S>(), origin::<S>(), origin::<S>()]
}

/// A game of billiards: the balls in play and the scheme that moves them.
pub struct Billiards<S> {
    balls: Vec<Particle<S, DIM>>,
    integration_method: Integrator<S, Table<S>>,
    table: Table<S>,
}

impl<S: Scalar> Billiards<S> {
    /// The balls in play.
    pub closed spec fn live(&self) -> Seq<ParticleView<S>> {
        crate::particle::views(self.balls@)
    }

    /// The scheme that moves the balls.
    pub closed spec fn method(&self) -> Integrator<S, Table<S>> {
        self.integration_method
    }

    /// The table of the game.
    pub closed spec fn table(&self) -> Table<S> {
        self.table
    }

    /// Every ball in play is well formed and carries the derivatives that the
    /// scheme reads, and the scheme takes its accelerations from the table.
    pub closed spec fn wf(&self) -> bool {
        &&& crate::particle::all_wf(crate::particle::views(self.balls@), DIM as nat)
        &&& forall|k: int|
            0 <= k < self.balls@.len() ==> (#[trigger] self.balls@[k])@.stack.len()
                >= IntegrationMethod::<S, DIM>::order(&self.integration_method)
        &&& self.integration_method.model() == self.table
    }

    /// Whether the ball has reached a hole of the table.
    pub fn is_colliding_with_hole(particle: &Particle<S, DIM>, table: &Table<S>) -> (out: bool)
        requires
            particle@.wf(DIM as nat),
        ensures
            out == captured(*table, particle@),
    {
        let d = particle.derivatives();
        proof {
            crate::particle::rows_hold_the_vectors(d@);
        }
        let r = d[0];
        let reach = particle.radius().plus(table.hole_radius);
        let sites = holes();
        let mut k: usize = 0;
        while k < 6
            invariant
                k <= 6,
                sites@ == hole_variants(),
                r@ == particle@.stack[0],
                reach == particle@.radius.sum(table.hole_radius),
                forall|h: int|
                    0 <= h < k ==> !crate::particle::distance(
                        particle@.stack[0],
                        (#[trigger] hole_variants()[h]).site(*table),
                    ).at_most(reach),
            decreases 6 - k,
        {
            let hole_r = sites[k].coordinates(table);
            let apart = separation(&r, &hole_r);
            if apart.le(reach) {
                assert(sites@[k as int] == hole_variants()[k as int]);
                return true;
            }
            k += 1;
        }
        false
    }

    /// What a game is as it starts from the balls `rack`: the scheme is of the
    /// given kind, steps by `delta_t` and takes its accelerations from the
    /// table, and every ball is prepared for it.
    pub open spec fn started(
        &self,
        delta_t: S,
        kind: Integration,
        rack: Seq<ParticleView<S>>,
        table: Table<S>,
    ) -> bool {
        &&& self.table() == table
        &&& self.method().kind() == kind
        &&& self.method().model() == table
        &&& self.method().time_step() == delta_t
        &&& !self.method().depends_on_velocity()
        &&& self.live() == Seq::new(
            rack.len(),
            |k: int|
                crate::integrator::prepared::<S, Table<S>, DIM>(
                    kind,
                    table,
                    delta_t,
                    still::<S>(),
                    rack[k],
                    rack,
                ),
        )
    }

    /// Sets up a game on `table` with the given balls and the scheme of the
    /// given kind, prepared for them.
    ///
    /// Any two of the balls must lie at least the lower bound of the spacing
    /// of the table apart, whatever the scheme: a game does not start from
    /// balls that lie closer. [`spacing_respected`] is the test of that.
    pub fn new(
        delta_t: S,
        integration_method: &Integration,
        balls: Vec<Particle<S, DIM>>,
        table: &Table<S>,
    ) -> (out: Self)
        requires
            crate::particle::all_wf(crate::particle::views(balls@), DIM as nat),
            spaced(crate::particle::views(balls@), table.ball_spacing_lower_bound),
        ensures
            out.started(delta_t, *integration_method, crate::particle::views(balls@), *table),
            out.wf(),
    {
        let ghost rack = crate::particle::views(balls@);
        let mut balls = balls;
        let zero = S::from_int(0);
        let at_rest = [zero, zero];
        assert(at_rest@ =~= origin::<S>());
        let mut derivatives: Vec<Vec<[S; DIM]>> = Vec::new();
        let mut n: usize = 0;
        while n < balls.len()
            invariant
                n <= balls@.len(),
                at_rest@ == origin::<S>(),
                derivatives@.len() == n,
                forall|k: int|
                    0 <= k < n ==> crate::particle::rows((#[trigger] derivatives@[k])@) == still::<
                        S,
                    >(),
            decreases balls@.len() - n,
        {
            let higher = vec![at_rest, at_rest, at_rest];
            assert(crate::particle::rows(higher@) =~= still::<S>());
            derivatives.push(higher);
            n += 1;
        }
        let scheme = Integrator::new(
            integration_method,
            *table,
            false,
            balls.as_mut_slice(),
            &derivatives,
            delta_t,
        );
        let out = Billiards { balls, integration_method: scheme, table: *table };
        proof {
            assert(out.live() =~= Seq::new(
                rack.len(),
                |k: int|
                    crate::integrator::prepared::<S, Table<S>, DIM>(
                        *integration_method,
                        *table,
                        delta_t,
                        still::<S>(),
                        rack[k],
                        rack,
                    ),
            ));
            assert forall|k: int| 0 <= k < out.balls@.len() implies (#[trigger] out.balls@[k])@.stack.len()
                >= IntegrationMethod::<S, DIM>::order(&out.integration_method) by {
                assert(rack[k].wf(DIM as nat));
                assert(still::<S>().len() == 3);
            }
        }
        out
    }

    /// Takes out of play every ball that has reached a hole.
    fn remove_captured(&mut self)
        requires
            old(self).wf(),
        ensures
            final(self).live() == survivors(old(self).table(), old(self).live()),
            final(self).method() == old(self).method(),
            final(self).table() == old(self).table(),
            final(self).wf(),
    {
        let ghost before = self.balls@;
        let ghost all = crate::particle::views(before);
        let ghost keep = |p: ParticleView<S>| !captured(self.table, p);
        let ghost mut done: int = 0;
        let mut i: usize = 0;
        proof {
            reveal(Seq::filter);
            assert(all.subrange(0, 0).filter(keep) =~= Seq::empty());
        }
        while i < self.balls.len()
            invariant
                0 <= i <= done,
                i <= self.balls@.len(),
                done + (self.balls@.len() - i) == before.len(),
                before == old(self).balls@,
                all == crate::particle::views(before),
                keep == (|p: ParticleView<S>| !captured(self.table, p)),
                self.table == old(self).table,
                self.integration_method == old(self).integration_method,
                crate::particle::all_wf(all, DIM as nat),
                forall|k: int|
                    0 <= k < before.len() ==> (#[trigger] before[k])@.stack.len()
                        >= IntegrationMethod::<S, DIM>::order(&self.integration_method),
                forall|k: int|
                    i <= k < self.balls@.len() ==> self.balls@[k] == before[k - i + done],
                forall|k: int| 0 <= k < i ==> before.contains(#[trigger] self.balls@[k]),
                crate::particle::views(self.balls@).subrange(0, i as int) == all.subrange(
                    0,
                    done,
                ).filter(keep),
            decreases self.balls@.len() - i,
        {
            assert(self.balls@[i as int] == before[done]);
            assert(all[done] == before[done]@);
            assert(all[done].wf(DIM as nat));
            let gone = Self::is_colliding_with_hole(&self.balls[i], &self.table);
            proof {
                reveal(Seq::filter);
                assert(all.subrange(0, done + 1).drop_last() =~= all.subrange(0, done));
                assert(all.subrange(0, done + 1).last() == all[done]);
            }
            if gone {
                let ghost ahead = crate::particle::views(self.balls@).subrange(0, i as int);
                self.balls.remove(i);
                proof {
                    assert(crate::particle::views(self.balls@).subrange(0, i as int) =~= ahead);
                    done = done + 1;
                }
            } else {
                proof {
                    assert(crate::particle::views(self.balls@).subrange(0, i + 1)
                        =~= crate::particle::views(self.balls@).subrange(0, i as int).push(
                        all[done],
                    ));
                    done = done + 1;
                }
                i += 1;
            }
        }
        proof {
            assert(all.subrange(0, done) =~= all);
            assert(crate::particle::views(self.balls@).subrange(0, i as int)
                =~= crate::particle::views(self.balls@));
            assert forall|k: int| 0 <= k < self.balls@.len() implies (
            #[trigger] crate::particle::views(self.balls@)[k]).wf(DIM as nat) by {
                let j = choose|j: int| 0 <= j < before.len() && before[j] == self.balls@[k];
                assert(all[j].wf(DIM as nat));
            }
        }
    }

    /// Advances the game by `steps` steps. After each step, every ball that has
    /// reached a hole leaves the game for good.
    pub fn run(&mut self, steps: usize) -> (out: &Vec<Particle<S, DIM>>)
        requires
            old(self).wf(),
        ensures
            final(self).live() == ticks(
                old(self).method(),
                old(self).table(),
                old(self).live(),
                steps as nat,
            ),
            final(self).live().len() <= old(self).live().len(),
            final(self).method() == old(self).method(),
            final(self).table() == old(self).table(),
            final(self).wf(),
            crate::particle::views(out@) == final(self).live(),
    {
        let mut done: usize = 0;
        while done < steps
            invariant
                done <= steps,
                self.wf(),
                self.integration_method == old(self).integration_method,
                self.table == old(self).table,
                self.live() == ticks(
                    old(self).method(),
                    old(self).table(),
                    old(self).live(),
                    done as nat,
                ),
            decreases steps - done,
        {
            let ghost before = self.live();
            self.integration_method.advance_step(self.balls.as_mut_slice());
            assert(self.live() =~= crate::methods::advanced::<S, Integrator<S, Table<S>>, DIM>(
                self.integration_method,
                before,
            ));
            self.remove_captured();
            done += 1;
        }
        proof {
            ball_count_never_grows(
                old(self).method(),
                old(self).table(),
                old(self).live(),
                steps as nat,
            );
        }
        &self.balls
    }

    /// The balls in play.
    pub fn balls(&self) -> (out: &Vec<Particle<S, DIM>>)
        ensures
            crate::particle::views(out@) == self.live(),
    {
        &self.balls
    }
}

} // verus!
