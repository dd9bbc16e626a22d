//! The collision pass of a tick: the ball is tested against every collider
//! once, and each one that it touches is answered on its own.

use vstd::prelude::*;
use crate::config::TARGET_SCORE;
use crate::entities::{Ball, Collider, PaddleType, WallType};
use crate::game::{Event, Game, GameState, Score, ScoreEvent, Winner};
use crate::geometry::{ball_collision, collision_of, Collision, Vec2};
use crate::motion::{lemma_boosts_fit_fewer, lemma_reflected_fits, lemma_sped_up_fits};

verus! {

/// What `c` gives notice of while the ball is where it is: a score where
/// the ball touches a goal, a collision where it touches anything else,
/// nothing where it touches nothing.
pub open spec fn event_of(ball: Ball, c: Collider) -> Option<Event> {
    match collision_of(ball.outline(), c.bounds) {
        None => None,
        Some(_) => Some(
            match c.wall_type {
                Some(WallType::Right) => Event::Score(ScoreEvent::Player1Scored),
                Some(WallType::Left) => Event::Score(ScoreEvent::Player2Scored),
                _ => Event::Collision,
            },
        ),
    }
}

/// The notices of one pass over `cs`, in the order of the colliders.
pub open spec fn events_of(ball: Ball, cs: Seq<Collider>) -> Seq<Event>
    decreases cs.len(),
{
    if cs.len() == 0 {
        Seq::empty()
    } else {
        match event_of(ball, cs.last()) {
            Some(event) => events_of(ball, cs.drop_last()).push(event),
            None => events_of(ball, cs.drop_last()),
        }
    }
}

impl Ball {
    /// The ball after the collider `c`, which it touches on `side`, has sent
    /// it back. A paddle speeds it up first, on both axes; then the
    /// component that points into the surface is turned back.
    pub open spec fn bounced(self, c: Collider, side: Collision) -> Ball {
        Ball {
            position: self.position,
            velocity: (if c.paddle {
                self.velocity.sped_up()
            } else {
                self.velocity
            }).reflected(side),
        }
    }
}

impl Game {
    /// The match after the player on the side `by` has scored a point. With
    /// the target reached that player has won and the match is over.
    pub open spec fn scored(self, by: PaddleType) -> Game {
        let score = match by {
            PaddleType::Left => Score((self.score.0 + 1) as usize, self.score.1),
            PaddleType::Right => Score(self.score.0, (self.score.1 + 1) as usize),
        };
        let points = match by {
            PaddleType::Left => score.0,
            PaddleType::Right => score.1,
        };
        if points >= TARGET_SCORE {
            Game { score, winner: Winner(Some(by)), state: GameState::GameOver, ..self }
        } else {
            Game { score, ..self }
        }
    }

    /// The match after the collider `c` has been answered. A collider that
    /// the ball does not touch changes nothing. The right wall is the left
    /// player's goal and the left wall the right player's: the point is
    /// counted and the ball is left as it moves. Anything else sends the
    /// ball back.
    pub open spec fn answered(self, c: Collider) -> Game {
        match collision_of(self.ball.outline(), c.bounds) {
            None => self,
            Some(side) => match c.wall_type {
                Some(WallType::Right) => self.scored(PaddleType::Left),
                Some(WallType::Left) => self.scored(PaddleType::Right),
                _ => Game { ball: self.ball.bounced(c, side), ..self },
            },
        }
    }

    /// The match after every collider of `cs` has been answered in turn.
    pub open spec fn after_colliders(self, cs: Seq<Collider>) -> Game
        decreases cs.len(),
    {
        if cs.len() == 0 {
            self
        } else {
            self.after_colliders(cs.drop_last()).answered(cs.last())
        }
    }

    /// A pass over `n` colliders cannot overflow: the velocity can be held
    /// even if every one of them is a paddle, and each score even if every
    /// one of them is that player's goal.
    pub open spec fn pass_fits(self, n: nat) -> bool {
        &&& self.ball.velocity.boosts_fit(n)
        &&& self.score.0 + n <= usize::MAX
        &&& self.score.1 + n <= usize::MAX
    }

    /// One more point can be counted for the player on the side `by`.
    pub open spec fn can_count(self, by: PaddleType) -> bool {
        match by {
            PaddleType::Left => self.score.0 < usize::MAX,
            PaddleType::Right => self.score.1 < usize::MAX,
        }
    }

    /// The match after a collision pass over `cs`. Only a match that is
    /// played takes part in one: a match that is over stays as it is. A
    /// pass that ends the match is still run to its end.
    pub open spec fn after_pass(self, cs: Seq<Collider>) -> Game {
        if self.state is Playing {
            self.after_colliders(cs)
        } else {
            self
        }
    }

    /// The notices of a collision pass over `cs`, in the order of the
    /// colliders. A match that is over gives none.
    pub open spec fn pass_notices(self, cs: Seq<Collider>) -> Seq<Event> {
        if self.state is Playing {
            events_of(self.ball, cs)
        } else {
            Seq::empty()
        }
    }
}

/// Answering one collider leaves the ball where it is and uses up no more
/// than one of the colliders that a pass has room for.
pub proof fn lemma_answered_fits(g: Game, c: Collider, n: nat)
    requires
        n > 0,
        g.pass_fits(n),
    ensures
        g.answered(c).pass_fits((n - 1) as nat),
        g.answered(c).ball.position == g.ball.position,
        g.answered(c).left_paddle == g.left_paddle,
        g.answered(c).right_paddle == g.right_paddle,
{
    let v: Vec2 = g.ball.velocity;
    let m: nat = (n - 1) as nat;
    lemma_boosts_fit_fewer(v.x as int, n, m);
    lemma_boosts_fit_fewer(v.y as int, n, m);
    match collision_of(g.ball.outline(), c.bounds) {
        None => {},
        Some(side) => {
            lemma_sped_up_fits(v, n);
            lemma_reflected_fits(v, side, m);
            lemma_reflected_fits(v.sped_up(), side, m);
        },
    }
}

/// Counts a point for the player on the side `by`, within a pass.
fn score_point(game: &mut Game, by: PaddleType)
    requires
        old(game).can_count(by),
    ensures
        *final(game) == old(game).scored(by),
{
    match by {
        PaddleType::Left => {
            game.score.0 = game.score.0 + 1;
            if game.score.0 >= TARGET_SCORE {
                game.winner = Winner(Some(PaddleType::Left));
                game.state = GameState::GameOver;
            }
        },
        PaddleType::Right => {
            game.score.1 = game.score.1 + 1;
            if game.score.1 >= TARGET_SCORE {
                game.winner = Winner(Some(PaddleType::Right));
                game.state = GameState::GameOver;
            }
        },
    }
}

/// Tests the ball against one collider and answers it, within a pass.
fn collide(game: &mut Game, collider: &Collider) -> (event: Option<Event>)
    requires
        old(game).pass_fits(1),
    ensures
        *final(game) == old(game).answered(*collider),
        event == event_of(old(game).ball, *collider),
{
    let collision: Option<Collision> = ball_collision(game.ball.circle(), collider.bounds);
    match collision {
        None => None,
        Some(side) => {
            match collider.wall_type {
                Some(WallType::Right) => {
                    score_point(game, PaddleType::Left);
                    return Some(Event::Score(ScoreEvent::Player1Scored));
                },
                Some(WallType::Left) => {
                    score_point(game, PaddleType::Right);
                    return Some(Event::Score(ScoreEvent::Player2Scored));
                },
                _ => {},
            }
            if collider.paddle {
                game.ball.velocity.speed_up();
            }
            proof {
                lemma_sped_up_fits(old(game).ball.velocity, 1);
                lemma_boosts_fit_fewer(old(game).ball.velocity.x as int, 1, 0);
                lemma_boosts_fit_fewer(old(game).ball.velocity.y as int, 1, 0);
            }
            game.ball.velocity.reflect(side);
            Some(Event::Collision)
        },
    }
}

/// Tests the ball against every collider once, in order, and answers each
/// one that it touches. Returns the notices that the colliders gave. A
/// match that is over is left as it is: no point is counted, the ball is
/// not touched and no notice is given.
pub fn check_for_collisions(game: &mut Game, colliders: &Vec<Collider>) -> (events: Vec<Event>)
    requires
        old(game).state is Playing ==> old(game).pass_fits(colliders@.len()),
    ensures
        *final(game) == old(game).after_pass(colliders@),
        events@ == old(game).pass_notices(colliders@),
{
    match game.state {
        GameState::GameOver => {
            return Vec::new();
        },
        GameState::Playing => {},
    }
    let mut events: Vec<Event> = Vec::new();
    let mut i: usize = 0;
    assert(colliders@.take(0) =~= Seq::empty());
    while i < colliders.len()
        invariant
            i <= colliders@.len(),
            *game == old(game).after_colliders(colliders@.take(i as int)),
            events@ == events_of(old(game).ball, colliders@.take(i as int)),
            game.ball.position == old(game).ball.position,
            game.pass_fits((colliders@.len() - i) as nat),
        decreases colliders@.len() - i,
    {
        let ghost before: Game = *game;
        proof {
            let left: nat = (colliders@.len() - i) as nat;
            lemma_answered_fits(before, colliders@[i as int], left);
            lemma_boosts_fit_fewer(before.ball.velocity.x as int, left, 1);
            lemma_boosts_fit_fewer(before.ball.velocity.y as int, left, 1);
            assert(colliders@.take(i + 1).drop_last() =~= colliders@.take(i as int));
            assert(colliders@.take(i + 1).last() == colliders@[i as int]);
        }
        let event: Option<Event> = collide(game, &colliders[i]);
        match event {
            Some(e) => {
                events.push(e);
            },
            None => {},
        }
        i = i + 1;
    }
    assert(colliders@.take(i as int) =~= colliders@);
    events
}

} // verus!
