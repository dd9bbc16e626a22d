//! How things move within one tick: the ball along its velocity, a paddle
//! under its keys, and how a velocity is sped up, turned back and aimed.

use vstd::prelude::*;
use crate::arith::{
    floor_sqrt, in_range, isqrt, lemma_trunc_div_odd, magnitude, mul_div, scaled, signum,
};
use crate::config::{
    paddle_bottom_bound, paddle_top_bound, BOTTOM_WALL, MICROS_PER_SECOND, PADDLE_HEIGHT,
    PADDLE_SPEED, SPEED_UP_DENOMINATOR, SPEED_UP_NUMERATOR, TOP_WALL, VERTICAL_WALL_THICKNESS,
};
use crate::entities::{Ball, Paddle, PaddleType};
use crate::game::{Game, GameState};
use crate::geometry::{clamped, Collision, Vec2};

verus! {

/// How far something that moves at `v` gets in `dt_micros` microseconds,
/// rounded toward zero.
pub open spec fn displacement(v: int, dt_micros: int) -> int {
    scaled(v, dt_micros, MICROS_PER_SECOND as int)
}

impl Ball {
    /// Moving for `dt_micros` keeps the ball's position within what a
    /// coordinate can hold.
    pub open spec fn advance_fits(self, dt_micros: u32) -> bool {
        &&& in_range(self.position.x + displacement(self.velocity.x as int, dt_micros as int))
        &&& in_range(self.position.y + displacement(self.velocity.y as int, dt_micros as int))
    }

    /// The ball after it has moved along its velocity for `dt_micros`.
    pub open spec fn advanced(self, dt_micros: u32) -> Ball {
        Ball {
            position: Vec2 {
                x: (self.position.x + displacement(
                    self.velocity.x as int,
                    dt_micros as int,
                )) as i64,
                y: (self.position.y + displacement(
                    self.velocity.y as int,
                    dt_micros as int,
                )) as i64,
            },
            velocity: self.velocity,
        }
    }
}

impl Game {
    /// Moving the ball for `dt_micros` cannot overflow. Nothing is asked of
    /// a match that is over, in which the ball does not move.
    pub open spec fn move_fits(self, dt_micros: u32) -> bool {
        self.state is Playing ==> self.ball.advance_fits(dt_micros)
    }

    /// The match after the ball has moved along its velocity for
    /// `dt_micros`. In a match that is over the ball stays where it is.
    pub open spec fn ball_moved(self, dt_micros: u32) -> Game {
        if self.state is Playing {
            Game { ball: self.ball.advanced(dt_micros), ..self }
        } else {
            self
        }
    }
}

/// Tells whether `apply_velocity` may be called: whether the ball's next
/// position can be held.
pub fn can_apply_velocity(game: &Game, dt_micros: u32) -> (fits: bool)
    ensures
        fits == game.move_fits(dt_micros),
{
    match game.state {
        GameState::GameOver => {
            return true;
        },
        GameState::Playing => {},
    }
    let ball: &Ball = &game.ball;
    let x: i128 = ball.position.x as i128 + mul_div(ball.velocity.x, dt_micros, MICROS_PER_SECOND);
    let y: i128 = ball.position.y as i128 + mul_div(ball.velocity.y, dt_micros, MICROS_PER_SECOND);
    -(i64::MAX as i128) <= x && x <= i64::MAX as i128 && -(i64::MAX as i128) <= y && y
        <= i64::MAX as i128
}

/// Moves the ball of a match that is played along its velocity for
/// `dt_micros` microseconds. In a match that is over nothing moves.
pub fn apply_velocity(game: &mut Game, dt_micros: u32)
    requires
        old(game).move_fits(dt_micros),
    ensures
        *final(game) == old(game).ball_moved(dt_micros),
{
    match game.state {
        GameState::GameOver => {
            return;
        },
        GameState::Playing => {},
    }
    let x: i128 = game.ball.position.x as i128 + mul_div(
        game.ball.velocity.x,
        dt_micros,
        MICROS_PER_SECOND,
    );
    let y: i128 = game.ball.position.y as i128 + mul_div(
        game.ball.velocity.y,
        dt_micros,
        MICROS_PER_SECOND,
    );
    game.ball.position = Vec2 { x: x as i64, y: y as i64 };
}

/// The keys of one player that are held down during a tick.
#[derive(Debug, Clone, Copy, PartialEq, Eq)]
pub struct PaddleInput {
    pub up: bool,
    pub down: bool,
    pub boost: bool,
}

/// The keys of both players.
#[derive(Debug, Clone, Copy, PartialEq, Eq)]
pub struct Controls {
    pub left: PaddleInput,
    pub right: PaddleInput,
}

impl PaddleInput {
    /// Up counts 1 and down counts -1; both together cancel.
    pub open spec fn direction(self) -> int {
        (if self.up {
            1int
        } else {
            0int
        }) - (if self.down {
            1int
        } else {
            0int
        })
    }

    /// The boost key doubles the speed for as long as it is held.
    pub open spec fn factor(self) -> int {
        if self.boost {
            2
        } else {
            1
        }
    }

    /// The velocity that the keys ask for.
    pub open spec fn velocity(self) -> int {
        self.direction() * PADDLE_SPEED * self.factor()
    }

    /// No key held.
    pub fn idle() -> (input: PaddleInput)
        ensures
            input == (PaddleInput { up: false, down: false, boost: false }),
    {
        PaddleInput { up: false, down: false, boost: false }
    }
}

impl Controls {
    /// The keys of the player on `side`.
    pub open spec fn of(self, side: PaddleType) -> PaddleInput {
        match side {
            PaddleType::Left => self.left,
            PaddleType::Right => self.right,
        }
    }
}

impl Paddle {
    /// The paddle after a tick of `dt_micros` under `input`: moved as the
    /// keys ask, then held between the top and bottom walls.
    pub open spec fn moved(self, input: PaddleInput, dt_micros: u32) -> Paddle {
        Paddle {
            side: self.side,
            y: clamped(
                self.y + displacement(input.velocity(), dt_micros as int),
                paddle_bottom_bound(),
                paddle_top_bound(),
            ) as i64,
        }
    }
}

/// Moves `paddle` for one tick under the keys of its player and keeps it
/// between the top and bottom walls.
pub fn move_paddle(keyboard_input: &Controls, paddle: &mut Paddle, dt_micros: u32)
    ensures
        *final(paddle) == old(paddle).moved(keyboard_input.of(old(paddle).side), dt_micros),
        final(paddle).in_bounds(),
{
    let input: PaddleInput = match paddle.side {
        PaddleType::Left => keyboard_input.left,
        PaddleType::Right => keyboard_input.right,
    };
    let top_bound: i64 = TOP_WALL - VERTICAL_WALL_THICKNESS / 2 - PADDLE_HEIGHT / 2;
    let bottom_bound: i64 = BOTTOM_WALL + VERTICAL_WALL_THICKNESS / 2 + PADDLE_HEIGHT / 2;
    let mut direction: i64 = 0;
    if input.up {
        direction = direction + 1;
    }
    if input.down {
        direction = direction - 1;
    }
    let accelerate_factor: i64 = if input.boost {
        2
    } else {
        1
    };
    let velocity: i64 = direction * PADDLE_SPEED * accelerate_factor;
    let new_paddle_position: i128 = paddle.y as i128 + mul_div(
        velocity,
        dt_micros,
        MICROS_PER_SECOND,
    );
    let held: i128 = if new_paddle_position < bottom_bound as i128 {
        bottom_bound as i128
    } else if new_paddle_position > top_bound as i128 {
        top_bound as i128
    } else {
        new_paddle_position
    };
    paddle.y = held as i64;
}

/// A velocity component after a paddle has sped it up: six fifths of it,
/// rounded toward zero.
pub open spec fn boosted(v: int) -> int {
    scaled(v, SPEED_UP_NUMERATOR as int, SPEED_UP_DENOMINATOR as int)
}

/// `v` can be held, and so can what `n` paddles in a row make of it.
pub open spec fn boosts_fit(v: int, n: nat) -> bool
    decreases n,
{
    in_range(v) && (n > 0 ==> boosts_fit(boosted(v), (n - 1) as nat))
}

impl Vec2 {
    /// Both components can be held after `n` paddles in a row.
    pub open spec fn boosts_fit(self, n: nat) -> bool {
        boosts_fit(self.x as int, n) && boosts_fit(self.y as int, n)
    }

    /// The velocity after a paddle has sped it up.
    pub open spec fn sped_up(self) -> Vec2 {
        Vec2 { x: boosted(self.x as int) as i64, y: boosted(self.y as int) as i64 }
    }

    /// The velocity after contact on `side`. The component that points into
    /// the surface is turned back; a ball that already moves away keeps its
    /// velocity, so that one that still overlaps is not turned twice.
    pub open spec fn reflected(self, side: Collision) -> Vec2 {
        match side {
            Collision::Left => if self.x > 0 {
                Vec2 { x: (-self.x) as i64, y: self.y }
            } else {
                self
            },
            Collision::Right => if self.x < 0 {
                Vec2 { x: (-self.x) as i64, y: self.y }
            } else {
                self
            },
            Collision::Top => if self.y < 0 {
                Vec2 { x: self.x, y: (-self.y) as i64 }
            } else {
                self
            },
            Collision::Bottom => if self.y > 0 {
                Vec2 { x: self.x, y: (-self.y) as i64 }
            } else {
                self
            },
        }
    }

    /// Tells whether the velocity can still be held after `n` paddles in a row.
    pub fn can_speed_up(&self, n: usize) -> (fits: bool)
        ensures
            fits == self.boosts_fit(n as nat),
    {
        component_can_speed_up(self.x, n) && component_can_speed_up(self.y, n)
    }

    /// Speeds the velocity up as a paddle does.
    pub fn speed_up(&mut self)
        requires
            old(self).boosts_fit(1),
        ensures
            *final(self) == old(self).sped_up(),
    {
        let x: i128 = mul_div(self.x, SPEED_UP_NUMERATOR, SPEED_UP_DENOMINATOR);
        let y: i128 = mul_div(self.y, SPEED_UP_NUMERATOR, SPEED_UP_DENOMINATOR);
        assert(boosts_fit(boosted(old(self).x as int), 0));
        assert(boosts_fit(boosted(old(self).y as int), 0));
        self.x = x as i64;
        self.y = y as i64;
    }

    /// Turns the velocity back after contact on `side`.
    pub fn reflect(&mut self, side: Collision)
        requires
            old(self).boosts_fit(0),
        ensures
            *final(self) == old(self).reflected(side),
    {
        let mut reflect_x: bool = false;
        let mut reflect_y: bool = false;
        match side {
            Collision::Left => reflect_x = self.x > 0,
            Collision::Right => reflect_x = self.x < 0,
            Collision::Top => reflect_y = self.y < 0,
            Collision::Bottom => reflect_y = self.y > 0,
        }
        if reflect_x {
            self.x = -self.x;
        }
        if reflect_y {
            self.y = -self.y;
        }
    }
}

fn component_can_speed_up(v: i64, n: usize) -> (fits: bool)
    ensures
        fits == boosts_fit(v as int, n as nat),
{
    if v == i64::MIN {
        return false;
    }
    let mut current: i64 = v;
    let mut left: usize = n;
    while left > 0
        invariant
            in_range(current as int),
            boosts_fit(v as int, n as nat) == boosts_fit(current as int, left as nat),
        decreases left,
    {
        let next: i128 = mul_div(current, SPEED_UP_NUMERATOR, SPEED_UP_DENOMINATOR);
        if next < -(i64::MAX as i128) || next > i64::MAX as i128 {
            assert(!boosts_fit(boosted(current as int), (left - 1) as nat));
            return false;
        }
        current = next as i64;
        left = left - 1;
    }
    true
}

/// One component of the vector of the given length that points along
/// `(c, other)`, rounded toward zero. A direction without length gives 0.
pub open spec fn aimed_component(c: int, other: int, length: int) -> int {
    if c == 0 {
        0
    } else {
        signum(c) * floor_sqrt((length * length * (c * c)) / (c * c + other * other))
    }
}

/// The vector of the given length that points along `(dx, dy)`, each
/// component rounded toward zero.
pub open spec fn aimed(dx: int, dy: int, length: int) -> Vec2 {
    Vec2 {
        x: aimed_component(dx, dy, length) as i64,
        y: aimed_component(dy, dx, length) as i64,
    }
}

fn aim_component(c: i32, other: i32, length: u32) -> (r: i64)
    ensures
        r == aimed_component(c as int, other as int, length as int),
        -(length as int) <= r <= length as int,
{
    if c == 0 {
        return 0;
    }
    let mc: u128 = if c < 0 {
        (-(c as i64)) as u128
    } else {
        c as u128
    };
    let mo: u128 = if other < 0 {
        (-(other as i64)) as u128
    } else {
        other as u128
    };
    let wide: u128 = length as u128;
    proof {
        assert(mc * mc == (c as int) * (c as int)) by (nonlinear_arith)
            requires
                mc == c || mc == -c,
        ;
        assert(mo * mo == (other as int) * (other as int)) by (nonlinear_arith)
            requires
                mo == other || mo == -other,
        ;
        assert(0 < mc * mc <= 0x8000_0000 * 0x8000_0000) by (nonlinear_arith)
            requires
                0 < mc <= 0x8000_0000,
        ;
        assert(0 <= mo * mo <= 0x8000_0000 * 0x8000_0000) by (nonlinear_arith)
            requires
                0 <= mo <= 0x8000_0000,
        ;
        assert(0 <= wide * wide <= 0xffff_ffff * 0xffff_ffff) by (nonlinear_arith)
            requires
                0 <= wide <= 0xffff_ffff,
        ;
    }
    let c2: u128 = mc * mc;
    let o2: u128 = mo * mo;
    let l2: u128 = wide * wide;
    assert(l2 * c2 <= 0xffff_ffff * 0xffff_ffff * (0x8000_0000 * 0x8000_0000)) by (nonlinear_arith)
        requires
            0 <= l2 <= 0xffff_ffff * 0xffff_ffff,
            0 <= c2 <= 0x8000_0000 * 0x8000_0000,
    ;
    let quotient: u128 = (l2 * c2) / (c2 + o2);
    proof {
        assert((l2 * c2) / ((c2 + o2) as int) <= l2) by (nonlinear_arith)
            requires
                0 < c2,
                0 <= o2,
                0 <= l2,
        ;
    }
    let root: u64 = isqrt(quotient as u64);
    proof {
        assert(root <= wide) by (nonlinear_arith)
            requires
                root * root <= quotient,
                quotient <= wide * wide,
                0 <= root,
                0 <= wide,
        ;
        assert(wide * wide * (mc * mc) == l2 * c2);
    }
    if c < 0 {
        -(root as i64)
    } else {
        root as i64
    }
}

/// Gives the vector of the given length that points along `(dx, dy)`.
pub fn aim(dx: i32, dy: i32, length: u32) -> (v: Vec2)
    ensures
        v == aimed(dx as int, dy as int, length as int),
{
    Vec2 { x: aim_component(dx, dy, length), y: aim_component(dy, dx, length) }
}

/// What fits after `n` paddles fits after fewer.
pub proof fn lemma_boosts_fit_fewer(v: int, n: nat, m: nat)
    requires
        boosts_fit(v, n),
        m <= n,
    ensures
        boosts_fit(v, m),
    decreases m,
{
    if m > 0 {
        lemma_boosts_fit_fewer(boosted(v), (n - 1) as nat, (m - 1) as nat);
    }
}

/// Speeding up commutes with turning back.
pub proof fn lemma_boosted_odd(v: int)
    ensures
        boosted(-v) == -boosted(v),
        v > 0 ==> boosted(v) > 0,
        v < 0 ==> boosted(v) < 0,
        v == 0 ==> boosted(v) == 0,
        magnitude(boosted(v)) >= magnitude(v),
{
    assert((-v) * 6 == -(v * 6));
    lemma_trunc_div_odd(v * 6, 5);
}

/// What fits after `n` paddles still fits when it is turned back first.
pub proof fn lemma_boosts_fit_negated(v: int, n: nat)
    requires
        boosts_fit(v, n),
    ensures
        boosts_fit(-v, n),
    decreases n,
{
    if n > 0 {
        lemma_boosted_odd(v);
        lemma_boosts_fit_negated(boosted(v), (n - 1) as nat);
    }
}

/// A velocity that fits after `n` paddles still fits after contact on any side.
pub proof fn lemma_reflected_fits(v: Vec2, side: Collision, n: nat)
    requires
        v.boosts_fit(n),
    ensures
        v.reflected(side).boosts_fit(n),
{
    lemma_boosts_fit_negated(v.x as int, n);
    lemma_boosts_fit_negated(v.y as int, n);
}

/// A paddle that has moved lies between the top and bottom walls, wherever
/// it was and whatever keys were held.
pub proof fn lemma_moved_paddle_in_bounds(paddle: Paddle, input: PaddleInput, dt_micros: u32)
    ensures
        paddle.moved(input, dt_micros).in_bounds(),
        paddle.moved(input, dt_micros).side == paddle.side,
{
}

/// A velocity that fits after `n` paddles fits after one fewer once a
/// paddle has sped it up, and speeding it up is exact.
pub proof fn lemma_sped_up_fits(v: Vec2, n: nat)
    requires
        n > 0,
        v.boosts_fit(n),
    ensures
        v.sped_up().boosts_fit((n - 1) as nat),
        v.sped_up().x == boosted(v.x as int),
        v.sped_up().y == boosted(v.y as int),
{
    let m: nat = (n - 1) as nat;
    assert(boosts_fit(boosted(v.x as int), m));
    assert(boosts_fit(boosted(v.y as int), m));
    lemma_boosts_fit_fewer(boosted(v.x as int), m, 0);
    lemma_boosts_fit_fewer(boosted(v.y as int), m, 0);
    assert(in_range(boosted(v.x as int)));
    assert(in_range(boosted(v.y as int)));
}

} // verus!
