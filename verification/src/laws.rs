//! What holds of the game as a whole: of any run of ticks, of any run of
//! paddle contacts, of every serve, of the end of a match and of a restart.

use vstd::prelude::*;
use crate::arith::{
    floor_sqrt, is_floor_sqrt, lemma_floor_sqrt, lemma_floor_sqrt_unique, lemma_power_positive,
    magnitude, power, signum,
};
use crate::config::{BALL_SPEED, BALL_STARTING_X, BALL_STARTING_Y, TARGET_SCORE, UNIT};
use crate::entities::{
    lemma_paddle_between_walls, Ball, Collider, Paddle, PaddleType, Wall, WallLocation, WallType,
};
use crate::game::{lemma_pass_keeps_well_formed, Event, Game, Score, Winner};
use crate::geometry::{collision_of, Collision, Vec2};
use crate::motion::{
    aimed, aimed_component, boosted, boosts_fit, lemma_boosted_odd, lemma_boosts_fit_negated,
    lemma_moved_paddle_in_bounds, lemma_sped_up_fits, Controls,
};
use crate::serve::{has_score, slope};

verus! {

/// What one tick is given: the keys held, its length, and the slope of the
/// serve that follows a point.
pub struct Tick {
    pub controls: Controls,
    pub dt_micros: u32,
    pub positive: bool,
    pub ratio: u16,
}

impl Game {
    /// The match after the ticks of `ticks`, first to last.
    pub open spec fn after_ticks(self, ticks: Seq<Tick>) -> Game
        decreases ticks.len(),
    {
        if ticks.len() == 0 {
            self
        } else {
            let t = ticks.last();
            self.after_ticks(ticks.drop_last()).stepped(
                t.controls,
                t.dt_micros,
                t.positive,
                t.ratio,
            )
        }
    }
}

/// A tick keeps a match well formed, whatever keys are held.
pub proof fn lemma_step_keeps_well_formed(
    g: Game,
    controls: Controls,
    dt_micros: u32,
    positive: bool,
    ratio: u16,
)
    requires
        g.well_formed(),
    ensures
        g.stepped(controls, dt_micros, positive, ratio).well_formed(),
{
    if g.state is Playing {
        let moved = g.moved(controls, dt_micros);
        lemma_moved_paddle_in_bounds(g.left_paddle, controls.of(g.left_paddle.side), dt_micros);
        lemma_moved_paddle_in_bounds(g.right_paddle, controls.of(g.right_paddle.side), dt_micros);
        lemma_pass_keeps_well_formed(moved, moved.boxes());
    }
}

/// After any number of ticks, under any keys, both paddles lie within
/// their bounds, each with its whole box between the top and bottom walls,
/// and the match is well formed.
pub proof fn lemma_paddles_stay_in_bounds(g: Game, ticks: Seq<Tick>)
    requires
        g.well_formed(),
    ensures
        g.after_ticks(ticks).well_formed(),
        g.after_ticks(ticks).left_paddle.in_bounds(),
        g.after_ticks(ticks).right_paddle.in_bounds(),
        ({
            let left = g.after_ticks(ticks).left_paddle.box_of().bounds;
            let right = g.after_ticks(ticks).right_paddle.box_of().bounds;
            let top = Wall::at(WallLocation::Top).box_of().bounds;
            let bottom = Wall::at(WallLocation::Bottom).box_of().bounds;
            &&& left.center.y + left.half_size.y <= top.center.y - top.half_size.y
            &&& right.center.y + right.half_size.y <= top.center.y - top.half_size.y
            &&& left.center.y - left.half_size.y >= bottom.center.y + bottom.half_size.y
            &&& right.center.y - right.half_size.y >= bottom.center.y + bottom.half_size.y
        }),
    decreases ticks.len(),
{
    lemma_paddle_between_walls(g.left_paddle);
    lemma_paddle_between_walls(g.right_paddle);
    if ticks.len() > 0 {
        let t = ticks.last();
        lemma_paddles_stay_in_bounds(g, ticks.drop_last());
        lemma_step_keeps_well_formed(
            g.after_ticks(ticks.drop_last()),
            t.controls,
            t.dt_micros,
            t.positive,
            t.ratio,
        );
        lemma_paddle_between_walls(g.after_ticks(ticks).left_paddle);
        lemma_paddle_between_walls(g.after_ticks(ticks).right_paddle);
    }
}

/// A velocity component after `n` paddles in a row have sped it up.
pub open spec fn boosted_times(v: int, n: nat) -> int
    decreases n,
{
    if n == 0 {
        v
    } else {
        boosted_times(boosted(v), (n - 1) as nat)
    }
}

impl Vec2 {
    /// The velocity after paddles have sent the ball back one after the
    /// other, touched on the sides of `sides`, first to last.
    pub open spec fn after_paddles(self, sides: Seq<Collision>) -> Vec2
        decreases sides.len(),
    {
        if sides.len() == 0 {
            self
        } else {
            self.sped_up().reflected(sides.first()).after_paddles(sides.drop_first())
        }
    }
}

/// After paddles have sent the ball back `n` times in a row, each
/// component of its velocity is as large as `n` speed-ups make it, on
/// whichever sides the ball was touched.
pub proof fn lemma_speed_after_paddles(v: Vec2, sides: Seq<Collision>)
    requires
        v.boosts_fit(sides.len()),
    ensures
        magnitude(v.after_paddles(sides).x as int) == boosted_times(
            magnitude(v.x as int),
            sides.len(),
        ),
        magnitude(v.after_paddles(sides).y as int) == boosted_times(
            magnitude(v.y as int),
            sides.len(),
        ),
    decreases sides.len(),
{
    if sides.len() > 0 {
        let n: nat = sides.len();
        let next: Vec2 = v.sped_up().reflected(sides.first());
        lemma_sped_up_fits(v, n);
        lemma_boosts_fit_negated(v.sped_up().x as int, (n - 1) as nat);
        lemma_boosts_fit_negated(v.sped_up().y as int, (n - 1) as nat);
        lemma_boosted_odd(v.x as int);
        lemma_boosted_odd(v.y as int);
        lemma_boosted_odd(magnitude(v.x as int));
        lemma_boosted_odd(magnitude(v.y as int));
        assert(magnitude(next.x as int) == boosted(magnitude(v.x as int)));
        assert(magnitude(next.y as int) == boosted(magnitude(v.y as int)));
        lemma_speed_after_paddles(next, sides.drop_first());
    }
}

/// A speed that is a multiple of the `n`th power of five is, after `n`
/// paddles in a row, exactly six fifths to the power `n` of what it was.
pub proof fn lemma_boosted_times_exact(t: int, n: nat)
    requires
        t >= 0,
    ensures
        boosted_times(power(5, n) * t, n) == power(6, n) * t,
    decreases n,
{
    if n > 0 {
        let p: int = power(5, (n - 1) as nat);
        let m: int = power(5, n) * t;
        lemma_power_positive(5, (n - 1) as nat);
        assert(m * 6 == 5 * (p * (6 * t))) by (nonlinear_arith)
            requires
                m == (5 * p) * t,
        ;
        assert(p * (6 * t) >= 0) by (nonlinear_arith)
            requires
                p > 0,
                t >= 0,
        ;
        vstd::arithmetic::div_mod::lemma_div_multiples_vanish(p * (6 * t), 5);
        assert(boosted(m) == p * (6 * t));
        lemma_boosted_times_exact(6 * t, (n - 1) as nat);
        assert(power(6, (n - 1) as nat) * (6 * t) == (6 * power(6, (n - 1) as nat)) * t)
            by (nonlinear_arith);
    }
}

/// After `n` paddles in a row a speed is six fifths to the power `n` of
/// what it was, less what rounding toward zero has taken: at most five
/// times what that power of six fifths exceeds one by. It is never less
/// than it was.
pub proof fn lemma_boosted_times_bounds(m: int, n: nat)
    requires
        m >= 0,
    ensures
        power(5, n) * boosted_times(m, n) <= power(6, n) * m,
        power(6, n) * m - power(5, n) * boosted_times(m, n) <= 5 * (power(6, n) - power(5, n)),
        boosted_times(m, n) >= m,
    decreases n,
{
    if n > 0 {
        let k: nat = (n - 1) as nat;
        let m1: int = boosted(m);
        let b: int = boosted_times(m1, k);
        let fives: int = power(5, k);
        let sixes: int = power(6, k);
        lemma_power_positive(5, k);
        lemma_power_positive(6, k);
        lemma_boosted_odd(m);
        vstd::arithmetic::div_mod::lemma_fundamental_div_mod(m * 6, 5);
        assert(5 * m1 <= 6 * m <= 5 * m1 + 4);
        lemma_boosted_times_bounds(m1, k);
        assert((5 * fives) * b <= (6 * sixes) * m) by (nonlinear_arith)
            requires
                fives * b <= sixes * m1,
                5 * m1 <= 6 * m,
                sixes > 0,
        ;
        assert((6 * sixes) * m - (5 * fives) * b <= 5 * (6 * sixes - 5 * fives)) by (nonlinear_arith)
            requires
                sixes * m1 - fives * b <= 5 * (sixes - fives),
                6 * m <= 5 * m1 + 4,
                sixes > 0,
        ;
    }
}

/// After paddles have sent the ball back `n` times in a row, with no
/// point in between, the ball is six fifths to the power `n` as fast as it
/// was, along each axis: exactly so where the speed along the axis was a
/// multiple of the `n`th power of five, and else less by what rounding
/// toward zero has taken, at most five times what that power of six
/// fifths exceeds one by, in thousandths of a pixel per second.
pub proof fn lemma_paddle_contacts_scale_speed(v: Vec2, sides: Seq<Collision>)
    requires
        v.boosts_fit(sides.len()),
    ensures
        ({
            let n = sides.len();
            let w = v.after_paddles(sides);
            let was_x = magnitude(v.x as int);
            let was_y = magnitude(v.y as int);
            let is_x = magnitude(w.x as int);
            let is_y = magnitude(w.y as int);
            &&& power(5, n) * is_x <= power(6, n) * was_x
            &&& power(5, n) * is_y <= power(6, n) * was_y
            &&& power(6, n) * was_x - power(5, n) * is_x <= 5 * (power(6, n) - power(5, n))
            &&& power(6, n) * was_y - power(5, n) * is_y <= 5 * (power(6, n) - power(5, n))
            &&& was_x % power(5, n) == 0 ==> power(5, n) * is_x == power(6, n) * was_x
            &&& was_y % power(5, n) == 0 ==> power(5, n) * is_y == power(6, n) * was_y
            &&& is_x >= was_x
            &&& is_y >= was_y
        }),
{
    let n: nat = sides.len();
    lemma_speed_after_paddles(v, sides);
    lemma_boosted_times_bounds(magnitude(v.x as int), n);
    lemma_boosted_times_bounds(magnitude(v.y as int), n);
    lemma_multiple_boosted_exactly(magnitude(v.x as int), n);
    lemma_multiple_boosted_exactly(magnitude(v.y as int), n);
}

proof fn lemma_multiple_boosted_exactly(m: int, n: nat)
    requires
        m >= 0,
    ensures
        m % power(5, n) == 0 ==> power(5, n) * boosted_times(m, n) == power(6, n) * m,
{
    let p: int = power(5, n);
    lemma_power_positive(5, n);
    if m % p == 0 {
        let t: int = m / p;
        vstd::arithmetic::div_mod::lemma_fundamental_div_mod(m, p);
        assert(t >= 0) by (nonlinear_arith)
            requires
                m == p * t,
                m >= 0,
                p > 0,
        ;
        lemma_boosted_times_exact(t, n);
        assert(p * (power(6, n) * t) == power(6, n) * (p * t)) by (nonlinear_arith);
    }
}

/// The vector that `aimed` gives is no longer than the length asked for,
/// and shorter by less than two: that much rounding each component toward
/// zero can take.
pub proof fn lemma_aimed_length(dx: int, dy: int, length: int)
    requires
        dx != 0 || dy != 0,
        length >= 4,
    ensures
        ({
            let x = aimed_component(dx, dy, length);
            let y = aimed_component(dy, dx, length);
            (length - 2) * (length - 2) < x * x + y * y <= length * length
        }),
{
    let d: int = dx * dx + dy * dy;
    let l2: int = length * length;
    let n1: int = l2 * (dx * dx);
    let n2: int = l2 * (dy * dy);
    assert(dx * dx >= 0 && dy * dy >= 0 && d > 0 && l2 >= 0 && n1 >= 0 && n2 >= 0 && n1 + n2 == l2
        * d) by (nonlinear_arith)
        requires
            dx != 0 || dy != 0,
            d == dx * dx + dy * dy,
            l2 == length * length,
            n1 == l2 * (dx * dx),
            n2 == l2 * (dy * dy),
    ;
    let q1: int = n1 / d;
    let q2: int = n2 / d;
    vstd::arithmetic::div_mod::lemma_fundamental_div_mod(n1, d);
    vstd::arithmetic::div_mod::lemma_fundamental_div_mod(n2, d);
    vstd::arithmetic::div_mod::lemma_mod_bound(n1, d);
    vstd::arithmetic::div_mod::lemma_mod_bound(n2, d);
    assert(q1 >= 0 && q2 >= 0 && l2 - 1 <= q1 + q2 <= l2) by (nonlinear_arith)
        requires
            n1 == d * q1 + (n1 % d),
            n2 == d * q2 + (n2 % d),
            0 <= n1 % d < d,
            0 <= n2 % d < d,
            n1 + n2 == l2 * d,
            n1 >= 0,
            n2 >= 0,
            d > 0,
    ;
    lemma_floor_sqrt(q1);
    lemma_floor_sqrt(q2);
    let a: int = floor_sqrt(q1);
    let b: int = floor_sqrt(q2);
    let x: int = aimed_component(dx, dy, length);
    let y: int = aimed_component(dy, dx, length);
    assert(dy * dy + dx * dx == d);
    if dx == 0 {
        assert(n1 == 0) by (nonlinear_arith)
            requires
                n1 == l2 * (dx * dx),
                dx == 0,
        ;
        assert(is_floor_sqrt(0, 0));
        lemma_floor_sqrt_unique(0, 0, a);
    }
    if dy == 0 {
        assert(n2 == 0) by (nonlinear_arith)
            requires
                n2 == l2 * (dy * dy),
                dy == 0,
        ;
        assert(is_floor_sqrt(0, 0));
        lemma_floor_sqrt_unique(0, 0, b);
    }
    assert(x * x == a * a) by (nonlinear_arith)
        requires
            x == a || x == -a,
    ;
    assert(y * y == b * b) by (nonlinear_arith)
        requires
            y == b || y == -b,
    ;
    assert(a * a + b * b <= l2);
    assert(a * a + b * b + 2 * (a + b) + 2 >= l2 + 1) by (nonlinear_arith)
        requires
            q1 < (a + 1) * (a + 1),
            q2 < (b + 1) * (b + 1),
            q1 + q2 >= l2 - 1,
    ;
    assert(a + b <= 2 * length - 3) by (nonlinear_arith)
        requires
            a >= 0,
            b >= 0,
            a * a + b * b <= length * length,
            length >= 4,
    ;
    assert((length - 2) * (length - 2) == l2 - 4 * length + 4) by (nonlinear_arith)
        requires
            l2 == length * length,
    ;
}

/// Whatever the speed of the ball was, after a serve it is the base speed,
/// less what rounding each component toward zero has taken: less than two
/// thousandths of a pixel per second. The ball goes to the side to which it
/// was going; one that was going to neither side goes away from the wall in
/// front of which it is put.
pub proof fn lemma_serve_resets_speed(ball: Ball, positive: bool, ratio: u16)
    ensures
        ({
            let v = ball.served(positive, ratio).velocity;
            &&& (BALL_SPEED - 2) * (BALL_SPEED - 2) < v.x * v.x + v.y * v.y <= BALL_SPEED
                * BALL_SPEED
            &&& ball.serve_side() > 0 ==> v.x > 0
            &&& ball.serve_side() < 0 ==> v.x < 0
            &&& ball.velocity.x > 0 ==> v.x > 0
            &&& ball.velocity.x < 0 ==> v.x < 0
        }),
{
    let s: int = ball.serve_side();
    let dx: int = s * UNIT;
    let dy: int = s * slope(positive, ratio);
    lemma_aimed_length(dx, dy, BALL_SPEED as int);
    let x: int = aimed_component(dx, dy, BALL_SPEED as int);
    let y: int = aimed_component(dy, dx, BALL_SPEED as int);
    assert(-(BALL_SPEED as int) <= x <= BALL_SPEED as int && -(BALL_SPEED as int) <= y
        <= BALL_SPEED as int) by (nonlinear_arith)
        requires
            x * x + y * y <= BALL_SPEED * BALL_SPEED,
    ;
    lemma_serve_goes_sideways(s, slope(positive, ratio));
}

/// The horizontal part of a serve is never rounded away: a serve no
/// steeper than the largest slope that a `u16` holds keeps more than a
/// thousandth of the base speed sideways.
proof fn lemma_serve_goes_sideways(s: int, rise: int)
    requires
        s == 1 || s == -1,
        -65535 <= rise <= 65535,
    ensures
        s > 0 ==> aimed_component(s * UNIT, s * rise, BALL_SPEED as int) > 0,
        s < 0 ==> aimed_component(s * UNIT, s * rise, BALL_SPEED as int) < 0,
{
    let c: int = s * UNIT;
    let o: int = s * rise;
    let l2: int = BALL_SPEED * BALL_SPEED;
    assert(c * c == 1_000_000 && o * o == rise * rise && 0 <= rise * rise <= 65535 * 65535)
        by (nonlinear_arith)
        requires
            s == 1 || s == -1,
            c == s * 1000,
            o == s * rise,
            -65535 <= rise <= 65535,
    ;
    let d: int = c * c + o * o;
    let n: int = l2 * (c * c);
    assert(l2 == 160_000_000_000);
    assert(n == 160_000_000_000 * 1_000_000);
    assert(n / d >= 1) by (nonlinear_arith)
        requires
            0 < d <= 1_000_000 + 65535 * 65535,
            n == 160_000_000_000 * 1_000_000,
    ;
    lemma_floor_sqrt(n / d);
    let r: int = floor_sqrt(n / d);
    assert(r >= 1) by (nonlinear_arith)
        requires
            r >= 0,
            n / d >= 1,
            n / d < (r + 1) * (r + 1),
    ;
    assert(c == 1000 || c == -1000);
    let sign: int = signum(c);
    assert(sign * r > 0 <==> sign > 0) by (nonlinear_arith)
        requires
            sign == 1 || sign == -1,
            r >= 1,
    ;
}

/// A tick in which a point is scored leaves the ball at the base speed,
/// however fast the paddles had made it.
pub proof fn lemma_point_resets_speed(
    g: Game,
    controls: Controls,
    dt_micros: u32,
    positive: bool,
    ratio: u16,
)
    requires
        has_score(g.notices(controls, dt_micros)),
    ensures
        ({
            let v = g.stepped(controls, dt_micros, positive, ratio).ball.velocity;
            (BALL_SPEED - 2) * (BALL_SPEED - 2) < v.x * v.x + v.y * v.y <= BALL_SPEED * BALL_SPEED
        }),
{
    lemma_serve_resets_speed(g.simulated(controls, dt_micros).ball, positive, ratio);
}

/// The first serve of a match goes right and down at 45 degrees.
pub proof fn lemma_starting_velocity()
    ensures
        Ball::starting().velocity == (Vec2 { x: 282_842, y: -282_842i64 }),
        Ball::starting().position == (Vec2 { x: BALL_STARTING_X, y: BALL_STARTING_Y }),
{
    let q: int = 80_000_000_000;
    assert(500int * 500int == 250_000 && (-500int) * (-500int) == 250_000);
    assert(400_000int * 400_000int == 160_000_000_000);
    assert(160_000_000_000int * 250_000int == 40_000_000_000_000_000);
    assert(40_000_000_000_000_000int / 500_000int == q);
    assert(is_floor_sqrt(q, 282_842)) by (nonlinear_arith)
        requires
            q == 80_000_000_000,
    ;
    lemma_floor_sqrt(q);
    lemma_floor_sqrt_unique(q, 282_842, floor_sqrt(q));
}

/// The point that takes a player to the target ends the match in that
/// player's favour; any point before it leaves the match as it is played.
pub proof fn lemma_target_ends_match(g: Game, by: PaddleType)
    requires
        g.well_formed(),
        g.state is Playing,
    ensures
        by == PaddleType::Left ==> g.scored(by).score == Score((g.score.0 + 1) as usize, g.score.1),
        by == PaddleType::Right ==> g.scored(by).score == Score(
            g.score.0,
            (g.score.1 + 1) as usize,
        ),
        by == PaddleType::Left && g.score.0 + 1 == TARGET_SCORE ==> g.scored(by).winner == Winner(
            Some(PaddleType::Left),
        ) && g.scored(by).state is GameOver,
        by == PaddleType::Right && g.score.1 + 1 == TARGET_SCORE ==> g.scored(by).winner == Winner(
            Some(PaddleType::Right),
        ) && g.scored(by).state is GameOver,
        by == PaddleType::Left && g.score.0 + 1 < TARGET_SCORE ==> g.scored(by).winner == g.winner
            && g.scored(by).state is Playing,
        by == PaddleType::Right && g.score.1 + 1 < TARGET_SCORE ==> g.scored(by).winner
            == g.winner && g.scored(by).state is Playing,
        g.scored(by).ball == g.ball,
{
}

/// A ball that touches the right wall gives the left player a point and
/// is left as it moves; one that touches the left wall gives the right
/// player a point.
pub proof fn lemma_goal_counts_a_point(g: Game, c: Collider)
    requires
        collision_of(g.ball.outline(), c.bounds) is Some,
    ensures
        c.wall_type == Some(WallType::Right) ==> g.answered(c) == g.scored(PaddleType::Left),
        c.wall_type == Some(WallType::Left) ==> g.answered(c) == g.scored(PaddleType::Right),
        c.wall_type == Some(WallType::Right) || c.wall_type == Some(WallType::Left) ==> g.answered(
            c,
        ).ball == g.ball,
{
}

/// A paddle that the ball touches answers as one contact of a run of
/// paddle contacts does.
pub proof fn lemma_paddle_contact(g: Game, c: Collider, side: Collision)
    requires
        collision_of(g.ball.outline(), c.bounds) == Some(side),
        c.paddle,
        c.wall_type is None,
    ensures
        g.answered(c).ball.velocity == g.ball.velocity.after_paddles(seq![side]),
        g.answered(c).ball.position == g.ball.position,
        g.answered(c).score == g.score,
        g.answered(c).state == g.state,
{
    let sides: Seq<Collision> = seq![side];
    let next: Vec2 = g.ball.velocity.sped_up().reflected(side);
    assert(sides.first() == side);
    assert(sides.drop_first().len() == 0);
    assert(next.after_paddles(sides.drop_first()) == next);
}

/// A match that is over is not changed by any number of ticks: no point is
/// counted and nothing moves.
pub proof fn lemma_game_over_is_frozen(g: Game, ticks: Seq<Tick>)
    requires
        g.state is GameOver,
    ensures
        g.after_ticks(ticks) == g,
        forall|controls: Controls, dt_micros: u32| #[trigger]
            g.notices(controls, dt_micros) == Seq::<Event>::empty(),
    decreases ticks.len(),
{
    if ticks.len() > 0 {
        lemma_game_over_is_frozen(g, ticks.drop_last());
        let t = ticks.last();
        assert(!has_score(g.notices(t.controls, t.dt_micros)));
    }
}

/// While a match is over, neither the collision pass nor the move of the
/// ball changes anything, whatever the ball touches and however fast it
/// is: no point is counted, the ball keeps its place and its velocity,
/// and no notice is given.
pub proof fn lemma_game_over_stops_play(g: Game, cs: Seq<Collider>, dt_micros: u32)
    requires
        g.state is GameOver,
    ensures
        g.after_pass(cs) == g,
        g.pass_notices(cs) == Seq::<Event>::empty(),
        g.ball_moved(dt_micros) == g,
        g.move_fits(dt_micros),
{
}

/// A restart of a match that is over puts everything back: the score to
/// nothing, the ball to its starting point and first serve, both paddles
/// to the middle, the winner to nobody, and the match is played again as
/// from its start. Without the key nothing changes.
pub proof fn lemma_restart_resets(g: Game)
    requires
        g.well_formed(),
        g.state is GameOver,
    ensures
        g.restarted(true) == Game::fresh(),
        g.restarted(true).state is Playing,
        g.restarted(true).score == Score(0, 0),
        g.restarted(true).winner == Winner(None),
        g.restarted(true).ball.position == (Vec2 { x: BALL_STARTING_X, y: BALL_STARTING_Y }),
        g.restarted(true).ball.velocity == (Vec2 { x: 282_842, y: -282_842i64 }),
        g.restarted(true).left_paddle == (Paddle { side: PaddleType::Left, y: 0 }),
        g.restarted(true).right_paddle == (Paddle { side: PaddleType::Right, y: 0 }),
        g.restarted(true).well_formed(),
        g.restarted(false) == g,
{
    lemma_starting_velocity();
}

} // verus!
