//! The match: its score, its two states, and everything that a tick or a
//! restart changes.

use vstd::prelude::*;
use crate::config::{
    BALL_SPEED, BALL_STARTING_X, BALL_STARTING_Y, INITIAL_BALL_DIRECTION_X,
    INITIAL_BALL_DIRECTION_Y, SERVE_RATIO_MAX, SERVE_RATIO_MIN, TARGET_SCORE,
};
use crate::collisions::{check_for_collisions, events_of};
use crate::entities::{Ball, Collider, Paddle, PaddleType, Wall, WallLocation};
use crate::geometry::Vec2;
use crate::motion::{aim, aimed, apply_velocity, can_apply_velocity, move_paddle, Controls};
use crate::serve::{any_score, ball_reset, has_score, serve};

verus! {

/// A match is played until one player reaches the target score, and is
/// then over until it is started again.
#[derive(Debug, Clone, Copy, PartialEq, Eq)]
pub enum GameState {
    Playing,
    GameOver,
}

/// The points of the left player and of the right player.
#[derive(Debug, Clone, Copy, PartialEq, Eq)]
pub struct Score(pub usize, pub usize);

/// The player who has won the match, once one has.
#[derive(Debug, Clone, Copy, PartialEq, Eq)]
pub struct Winner(pub Option<PaddleType>);

/// Which player has scored. Player 1 defends the left side.
#[derive(Debug, Clone, Copy, PartialEq, Eq)]
pub enum ScoreEvent {
    Player1Scored,
    Player2Scored,
}

/// What a collider that the ball touches gives notice of.
#[derive(Debug, Clone, Copy, PartialEq, Eq)]
pub enum Event {
    /// The ball has met a paddle or the top or bottom wall.
    Collision,
    /// The ball has reached a goal.
    Score(ScoreEvent),
}

/// The whole state of a match.
#[derive(Debug, Clone, Copy, PartialEq, Eq)]
pub struct Game {
    pub state: GameState,
    pub score: Score,
    pub winner: Winner,
    pub ball: Ball,
    pub left_paddle: Paddle,
    pub right_paddle: Paddle,
}

impl Ball {
    /// The ball as a match starts: at its starting point, served right and
    /// down at the base speed.
    pub open spec fn starting() -> Ball {
        Ball {
            position: Vec2 { x: BALL_STARTING_X, y: BALL_STARTING_Y },
            velocity: aimed(
                INITIAL_BALL_DIRECTION_X as int,
                INITIAL_BALL_DIRECTION_Y as int,
                BALL_SPEED as int,
            ),
        }
    }
}

impl Game {
    /// A match at its start: nothing scored, nobody has won, both paddles
    /// at the middle, the ball at its starting point.
    pub open spec fn fresh() -> Game {
        Game {
            state: GameState::Playing,
            score: Score(0, 0),
            winner: Winner(None),
            ball: Ball::starting(),
            left_paddle: Paddle { side: PaddleType::Left, y: 0 },
            right_paddle: Paddle { side: PaddleType::Right, y: 0 },
        }
    }

    /// What holds of a match at every moment. Each paddle defends its own
    /// side and lies between the top and bottom walls. While the match is
    /// played nobody has won and both scores are below the target; once it
    /// is over somebody has won.
    pub open spec fn well_formed(self) -> bool {
        &&& self.left_paddle.side == PaddleType::Left
        &&& self.right_paddle.side == PaddleType::Right
        &&& self.left_paddle.in_bounds()
        &&& self.right_paddle.in_bounds()
        &&& self.state is Playing ==> self.winner.0 is None && self.score.0 < TARGET_SCORE
            && self.score.1 < TARGET_SCORE
        &&& self.state is GameOver ==> self.winner.0 is Some
    }

    /// What the ball is tested against in a tick, in this order: the left
    /// paddle, the right paddle, then the left, right, bottom and top walls.
    pub open spec fn boxes(self) -> Seq<Collider> {
        seq![
            self.left_paddle.box_of(),
            self.right_paddle.box_of(),
            Wall::at(WallLocation::Left).box_of(),
            Wall::at(WallLocation::Right).box_of(),
            Wall::at(WallLocation::Bottom).box_of(),
            Wall::at(WallLocation::Top).box_of(),
        ]
    }

    /// Gives what the ball is tested against in a tick, in order.
    pub fn colliders(&self) -> (colliders: Vec<Collider>)
        ensures
            colliders@ == self.boxes(),
    {
        let mut colliders: Vec<Collider> = Vec::new();
        colliders.push(self.left_paddle.collider());
        colliders.push(self.right_paddle.collider());
        colliders.push(Wall::new(WallLocation::Left).collider());
        colliders.push(Wall::new(WallLocation::Right).collider());
        colliders.push(Wall::new(WallLocation::Bottom).collider());
        colliders.push(Wall::new(WallLocation::Top).collider());
        assert(colliders@ =~= self.boxes());
        colliders
    }
}

/// Sets a match up: the state from which play begins.
pub fn setup() -> (game: Game)
    ensures
        game == Game::fresh(),
        game.well_formed(),
{
    Game {
        state: GameState::Playing,
        score: Score(0, 0),
        winner: Winner(None),
        ball: Ball {
            position: Vec2::new(BALL_STARTING_X, BALL_STARTING_Y),
            velocity: aim(INITIAL_BALL_DIRECTION_X, INITIAL_BALL_DIRECTION_Y, BALL_SPEED),
        },
        left_paddle: Paddle::new(PaddleType::Left),
        right_paddle: Paddle::new(PaddleType::Right),
    }
}

impl Game {
    /// The match after everything has moved for `dt_micros`: the ball along
    /// its velocity, each paddle under the keys of its player.
    pub open spec fn moved(self, controls: Controls, dt_micros: u32) -> Game {
        Game {
            ball: self.ball.advanced(dt_micros),
            left_paddle: self.left_paddle.moved(controls.of(self.left_paddle.side), dt_micros),
            right_paddle: self.right_paddle.moved(controls.of(self.right_paddle.side), dt_micros),
            ..self
        }
    }

    /// The match after the moves and the collision pass of a tick. A match
    /// that is over stays as it is.
    pub open spec fn simulated(self, controls: Controls, dt_micros: u32) -> Game {
        if self.state is Playing {
            let moved = self.moved(controls, dt_micros);
            moved.after_colliders(moved.boxes())
        } else {
            self
        }
    }

    /// The notices that a tick gives. A match that is over gives none.
    pub open spec fn notices(self, controls: Controls, dt_micros: u32) -> Seq<Event> {
        if self.state is Playing {
            let moved = self.moved(controls, dt_micros);
            events_of(moved.ball, moved.boxes())
        } else {
            Seq::empty()
        }
    }

    /// The match after a whole tick: after the moves and the collision
    /// pass, the ball is served along the slope given if a point was scored.
    pub open spec fn stepped(
        self,
        controls: Controls,
        dt_micros: u32,
        positive: bool,
        ratio: u16,
    ) -> Game {
        let simulated = self.simulated(controls, dt_micros);
        if has_score(self.notices(controls, dt_micros)) {
            Game { ball: simulated.ball.served(positive, ratio), ..simulated }
        } else {
            simulated
        }
    }

    /// A tick of `dt_micros` cannot overflow. Nothing is asked of a match
    /// that is over. Of one that is played: the ball's next position can be
    /// held, and its velocity and the scores can be held through a pass
    /// over the six colliders of a match.
    pub open spec fn step_fits(self, dt_micros: u32) -> bool {
        self.state is Playing ==> self.ball.advance_fits(dt_micros) && self.pass_fits(6)
    }
}

/// Tells whether `simulate` and `step` may be called with this tick length.
pub fn can_step(game: &Game, dt_micros: u32) -> (fits: bool)
    ensures
        fits == game.step_fits(dt_micros),
{
    match game.state {
        GameState::GameOver => true,
        GameState::Playing => can_apply_velocity(game, dt_micros)
            && game.ball.velocity.can_speed_up(6) && game.score.0 <= usize::MAX - 6
            && game.score.1 <= usize::MAX - 6,
    }
}

/// Runs the moves and the collision pass of one tick and returns the
/// notices of the pass. A match that is over is left as it is.
pub fn simulate(game: &mut Game, controls: &Controls, dt_micros: u32) -> (events: Vec<Event>)
    requires
        old(game).step_fits(dt_micros),
    ensures
        *final(game) == old(game).simulated(*controls, dt_micros),
        events@ == old(game).notices(*controls, dt_micros),
        old(game).well_formed() ==> final(game).well_formed(),
        old(game).state is Playing ==> final(game).left_paddle == old(game).moved(
            *controls,
            dt_micros,
        ).left_paddle && final(game).right_paddle == old(game).moved(
            *controls,
            dt_micros,
        ).right_paddle && final(game).ball.position == old(game).moved(
            *controls,
            dt_micros,
        ).ball.position,
{
    match game.state {
        GameState::GameOver => {
            return Vec::new();
        },
        GameState::Playing => {},
    }
    apply_velocity(game, dt_micros);
    move_paddle(controls, &mut game.left_paddle, dt_micros);
    move_paddle(controls, &mut game.right_paddle, dt_micros);
    let colliders: Vec<Collider> = game.colliders();
    proof {
        lemma_pass_moves_nothing(*game, colliders@);
        if old(game).well_formed() {
            lemma_pass_keeps_well_formed(*game, colliders@);
        }
    }
    check_for_collisions(game, &colliders)
}

/// Runs one whole tick with the slope of a serve given: the moves, the
/// collision pass, and a serve along that slope if a point was scored.
pub fn step_with_serve(
    game: &mut Game,
    controls: &Controls,
    dt_micros: u32,
    positive: bool,
    ratio: u16,
) -> (events: Vec<Event>)
    requires
        old(game).step_fits(dt_micros),
    ensures
        *final(game) == old(game).stepped(*controls, dt_micros, positive, ratio),
        events@ == old(game).notices(*controls, dt_micros),
        old(game).well_formed() ==> final(game).well_formed(),
        old(game).state is Playing ==> final(game).left_paddle == old(game).moved(
            *controls,
            dt_micros,
        ).left_paddle && final(game).right_paddle == old(game).moved(
            *controls,
            dt_micros,
        ).right_paddle,
{
    let events: Vec<Event> = simulate(game, controls, dt_micros);
    if any_score(&events) {
        serve(&mut game.ball, positive, ratio);
    }
    events
}

/// Runs one whole tick. After a point the ball is served along a slope
/// drawn at random, between a tenth and a half, up or down.
pub fn step(game: &mut Game, controls: &Controls, dt_micros: u32) -> (events: Vec<Event>)
    requires
        old(game).step_fits(dt_micros),
    ensures
        exists|positive: bool, ratio: u16|
            SERVE_RATIO_MIN <= ratio <= SERVE_RATIO_MAX && *final(game) == #[trigger] old(
                game,
            ).stepped(*controls, dt_micros, positive, ratio),
        events@ == old(game).notices(*controls, dt_micros),
        old(game).well_formed() ==> final(game).well_formed(),
{
    let events: Vec<Event> = simulate(game, controls, dt_micros);
    let ghost simulated: Game = *game;
    ball_reset(&mut game.ball, &events);
    proof {
        if has_score(events@) {
            let (positive, ratio) = choose|positive: bool, ratio: u16|
                SERVE_RATIO_MIN <= ratio <= SERVE_RATIO_MAX && game.ball
                    == #[trigger] simulated.ball.served(positive, ratio);
            assert(*game == old(game).stepped(*controls, dt_micros, positive, ratio));
        } else {
            assert(*game == old(game).stepped(*controls, dt_micros, true, SERVE_RATIO_MIN));
        }
    }
    events
}

/// Runs one whole tick if it cannot overflow, and tells so by returning
/// the notices of the tick. A tick that would overflow is not run: the
/// match is left as it is and nothing is returned.
pub fn try_step(game: &mut Game, controls: &Controls, dt_micros: u32) -> (outcome: Option<
    Vec<Event>,
>)
    ensures
        outcome is Some <==> old(game).step_fits(dt_micros),
        outcome is None ==> *final(game) == *old(game),
        outcome matches Some(events) ==> events@ == old(game).notices(*controls, dt_micros) && (
        exists|positive: bool, ratio: u16|
            SERVE_RATIO_MIN <= ratio <= SERVE_RATIO_MAX && *final(game) == #[trigger] old(
                game,
            ).stepped(*controls, dt_micros, positive, ratio)),
        old(game).well_formed() ==> final(game).well_formed(),
{
    if can_step(game, dt_micros) {
        Some(step(game, controls, dt_micros))
    } else {
        None
    }
}

/// A collision pass keeps a match well formed.
pub proof fn lemma_pass_keeps_well_formed(g: Game, cs: Seq<Collider>)
    requires
        g.well_formed(),
    ensures
        g.after_colliders(cs).well_formed(),
    decreases cs.len(),
{
    lemma_pass_moves_nothing(g, cs);
    if cs.len() > 0 {
        lemma_pass_keeps_well_formed(g, cs.drop_last());
        lemma_pass_moves_nothing(g, cs.drop_last());
    }
}

/// A collision pass moves nothing: the paddles and the ball stay where
/// they are.
pub proof fn lemma_pass_moves_nothing(g: Game, cs: Seq<Collider>)
    ensures
        g.after_colliders(cs).left_paddle == g.left_paddle,
        g.after_colliders(cs).right_paddle == g.right_paddle,
        g.after_colliders(cs).ball.position == g.ball.position,
    decreases cs.len(),
{
    if cs.len() > 0 {
        lemma_pass_moves_nothing(g, cs.drop_last());
    }
}

impl Game {
    /// The match put back to its start: the score to nothing, both paddles
    /// to the middle of their sides, the ball to its starting point and
    /// first serve, and the winner to nobody. The state of the match and
    /// the side of each paddle stay as they are.
    pub open spec fn reset(self) -> Game {
        Game {
            state: self.state,
            score: Score(0, 0),
            winner: Winner(None),
            ball: Ball::starting(),
            left_paddle: Paddle { side: self.left_paddle.side, y: 0 },
            right_paddle: Paddle { side: self.right_paddle.side, y: 0 },
        }
    }

    /// The match after the restart key has or has not just been pressed. A
    /// match that is over is put back to its start and played again when
    /// it has; nothing else changes anything.
    pub open spec fn restarted(self, restart_just_pressed: bool) -> Game {
        if self.state is GameOver && restart_just_pressed {
            Game { state: GameState::Playing, ..self.reset() }
        } else {
            self
        }
    }
}

/// Puts a match back to its start, in the state in which it is.
pub fn game_reset(game: &mut Game)
    ensures
        *final(game) == old(game).reset(),
{
    game.score = Score(0, 0);
    game.left_paddle.y = 0;
    game.right_paddle.y = 0;
    game.ball.velocity = aim(INITIAL_BALL_DIRECTION_X, INITIAL_BALL_DIRECTION_Y, BALL_SPEED);
    game.ball.position = Vec2::new(BALL_STARTING_X, BALL_STARTING_Y);
    game.winner = Winner(None);
}

/// Starts a match that is over again when the restart key has just been
/// pressed.
pub fn game_over_keyboard(game: &mut Game, restart_just_pressed: bool)
    ensures
        *final(game) == old(game).restarted(restart_just_pressed),
        old(game).well_formed() ==> final(game).well_formed(),
{
    match game.state {
        GameState::Playing => {},
        GameState::GameOver => {
            if restart_just_pressed {
                game.state = GameState::Playing;
                game_reset(game);
            }
        },
    }
}

} // verus!
