//! The serve that follows a point: the ball is put in front of the wall
//! opposite to the goal it reached and sent off again at the base speed,
//! along a slope that chance picks.

use vstd::prelude::*;
use crate::arith::signum;
use crate::config::{
    BALL_SPEED, LEFT_WALL, RIGHT_WALL, SERVE_MARGIN, SERVE_RATIO_MAX, SERVE_RATIO_MIN, UNIT,
};
use crate::entities::Ball;
use crate::game::Event;
use crate::geometry::Vec2;
use crate::motion::{aim, aimed};
use crate::random::{random_range_inclusive, random_ratio, thread_rng};

verus! {

/// The vertical part of a serve's direction for a horizontal part of `UNIT`.
pub open spec fn slope(positive: bool, ratio: u16) -> int {
    if positive {
        ratio as int
    } else {
        -(ratio as int)
    }
}

/// Some notice of `events` is a score.
pub open spec fn has_score(events: Seq<Event>) -> bool {
    exists|i: int| 0 <= i < events.len() && events[i] is Score
}

impl Ball {
    /// Where the ball is put for a serve: in front of the left wall when it
    /// has left the court to the right, else in front of the right wall, at
    /// the middle of the court's height.
    pub open spec fn serve_position(self) -> Vec2 {
        Vec2 {
            x: if self.position.x > 0 {
                (LEFT_WALL + SERVE_MARGIN) as i64
            } else {
                (RIGHT_WALL - SERVE_MARGIN) as i64
            },
            y: 0,
        }
    }

    /// The horizontal direction of a serve, 1 for right and -1 for left:
    /// the one that the ball had. A ball that did not move sideways is
    /// served away from the wall in front of which it is put.
    pub open spec fn serve_side(self) -> int {
        if self.velocity.x != 0 {
            signum(self.velocity.x as int)
        } else if self.position.x > 0 {
            1
        } else {
            -1
        }
    }

    /// The ball after a serve. It goes to the side that `serve_side`
    /// gives; its vertical speed is `ratio` thousandths of its horizontal
    /// speed, with the same sign where `positive` holds and the opposite
    /// one where it does not; and its speed is the base speed, whatever it
    /// was before.
    pub open spec fn served(self, positive: bool, ratio: u16) -> Ball {
        Ball {
            position: self.serve_position(),
            velocity: aimed(
                self.serve_side() * UNIT,
                self.serve_side() * slope(positive, ratio),
                BALL_SPEED as int,
            ),
        }
    }
}

/// Serves the ball along the slope given.
pub fn serve(ball: &mut Ball, positive: bool, ratio: u16)
    ensures
        *final(ball) == old(ball).served(positive, ratio),
{
    let sign: i32 = if ball.velocity.x < 0 {
        -1
    } else if ball.velocity.x > 0 {
        1
    } else if ball.position.x > 0 {
        1
    } else {
        -1
    };
    let rise: i32 = if positive {
        ratio as i32
    } else {
        -(ratio as i32)
    };
    assert(sign * rise == ball.serve_side() * slope(positive, ratio)) by (nonlinear_arith)
        requires
            sign == ball.serve_side(),
            rise == slope(positive, ratio),
    ;
    assert(-65535 <= sign * rise <= 65535) by (nonlinear_arith)
        requires
            -1 <= sign <= 1,
            -65535 <= rise <= 65535,
    ;
    ball.velocity = aim(sign * (UNIT as i32), sign * rise, BALL_SPEED);
    if ball.position.x > 0 {
        ball.position.x = LEFT_WALL + SERVE_MARGIN;
    } else {
        ball.position.x = RIGHT_WALL - SERVE_MARGIN;
    }
    ball.position.y = 0;
}

/// Tells whether some notice of `events` is a score.
pub fn any_score(events: &Vec<Event>) -> (found: bool)
    ensures
        found == has_score(events@),
{
    let mut i: usize = 0;
    while i < events.len()
        invariant
            i <= events@.len(),
            forall|j: int| 0 <= j < i ==> !(events@[j] is Score),
        decreases events@.len() - i,
    {
        match events[i] {
            Event::Score(_) => {
                return true;
            },
            Event::Collision => {},
        }
        i = i + 1;
    }
    false
}

/// Serves the ball if a point was scored in this tick, along a slope drawn
/// at random: between a tenth and a half, up or down with equal chance.
/// Without a score the ball is left alone.
pub fn ball_reset(ball: &mut Ball, score_events: &Vec<Event>)
    ensures
        !has_score(score_events@) ==> *final(ball) == *old(ball),
        has_score(score_events@) ==> exists|positive: bool, ratio: u16|
            SERVE_RATIO_MIN <= ratio <= SERVE_RATIO_MAX && *final(ball) == #[trigger] old(
                ball,
            ).served(positive, ratio),
{
    if any_score(score_events) {
        let mut rng = thread_rng();
        let positive: bool = random_ratio(&mut rng, 1, 2);
        let ratio: u16 = random_range_inclusive(&mut rng, SERVE_RATIO_MIN, SERVE_RATIO_MAX);
        serve(ball, positive, ratio);
    }
}

} // verus!
