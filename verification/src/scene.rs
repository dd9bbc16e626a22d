//! What a tick and a match give to those who draw and play sounds: the
//! walls, the dashed centre line, the sounds to play and the banner shown
//! when a match is over.

use vstd::prelude::*;
use crate::config::{BOTTOM_WALL, GAP_BETWEEN_DASHEDLINESEGMENTS, TOP_WALL};
use crate::entities::{PaddleType, Wall, WallLocation};
use crate::game::{Event, Winner};
use crate::geometry::Vec2;
use crate::serve::{any_score, has_score};

verus! {

/// How far below the top wall the first segment of the centre line lies.
pub const DASHEDLINE_FIRST_OFFSET: i64 = 10_000;

/// The four walls of the court: left, right, bottom, top.
pub fn walls() -> (walls: Vec<Wall>)
    ensures
        walls@ == seq![
            Wall::at(WallLocation::Left),
            Wall::at(WallLocation::Right),
            Wall::at(WallLocation::Bottom),
            Wall::at(WallLocation::Top),
        ],
{
    let mut walls: Vec<Wall> = Vec::new();
    walls.push(Wall::new(WallLocation::Left));
    walls.push(Wall::new(WallLocation::Right));
    walls.push(Wall::new(WallLocation::Bottom));
    walls.push(Wall::new(WallLocation::Top));
    assert(walls@ =~= seq![
        Wall::at(WallLocation::Left),
        Wall::at(WallLocation::Right),
        Wall::at(WallLocation::Bottom),
        Wall::at(WallLocation::Top),
    ]);
    walls
}

/// How far below the top wall the segment `k` of the centre line lies.
pub open spec fn dash_offset(k: int) -> int {
    DASHEDLINE_FIRST_OFFSET + k * GAP_BETWEEN_DASHEDLINESEGMENTS
}

/// The centres of the segments of the dashed line down the middle of the
/// court, from the top: one for every offset that is less than the
/// distance between the top and bottom walls.
pub fn dashed_line() -> (segments: Vec<Vec2>)
    ensures
        forall|k: int|
            0 <= k < segments@.len() ==> segments@[k] == (Vec2 {
                x: 0,
                y: (TOP_WALL - dash_offset(k)) as i64,
            }),
        dash_offset(segments@.len() - 1) < TOP_WALL - BOTTOM_WALL <= dash_offset(
            segments@.len() as int,
        ),
        segments@.len() == 24,
{
    let total_length: i64 = TOP_WALL - BOTTOM_WALL;
    let mut segments: Vec<Vec2> = Vec::new();
    let mut offset: i64 = DASHEDLINE_FIRST_OFFSET;
    while offset < total_length
        invariant
            total_length == TOP_WALL - BOTTOM_WALL,
            offset == dash_offset(segments@.len() as int),
            segments@.len() <= 24,
            segments@.len() > 0 ==> dash_offset(segments@.len() - 1) < total_length,
            forall|k: int|
                0 <= k < segments@.len() ==> segments@[k] == (Vec2 {
                    x: 0,
                    y: (TOP_WALL - dash_offset(k)) as i64,
                }),
        decreases 24 - segments@.len(),
    {
        segments.push(Vec2::new(0, TOP_WALL - offset));
        offset = offset + GAP_BETWEEN_DASHEDLINESEGMENTS;
    }
    segments
}

/// The sounds that a tick asks for.
#[derive(Debug, Clone, Copy, PartialEq, Eq)]
pub struct Sounds {
    /// The sound of the ball being sent back.
    pub collision: bool,
    /// The sound of a point.
    pub score: bool,
}

/// Some notice of `events` is a collision.
pub open spec fn has_collision(events: Seq<Event>) -> bool {
    exists|i: int| 0 <= i < events.len() && events[i] is Collision
}

/// Tells whether some notice of `events` is a collision.
pub fn any_collision(events: &Vec<Event>) -> (found: bool)
    ensures
        found == has_collision(events@),
{
    let mut i: usize = 0;
    while i < events.len()
        invariant
            i <= events@.len(),
            forall|j: int| 0 <= j < i ==> !(events@[j] is Collision),
        decreases events@.len() - i,
    {
        match events[i] {
            Event::Collision => {
                return true;
            },
            Event::Score(_) => {},
        }
        i = i + 1;
    }
    false
}

/// Picks the sounds of a tick. However many colliders sent the ball back,
/// the collision sound is asked for once; so is the score sound.
pub fn play_collision_sound(events: &Vec<Event>) -> (sounds: Sounds)
    ensures
        sounds.collision == has_collision(events@),
        sounds.score == has_score(events@),
{
    Sounds { collision: any_collision(events), score: any_score(events) }
}

/// The words of the banner for `winner`. A match is only over once
/// somebody has won, so the last line is never shown by a match that is
/// well formed; it stands for callers that keep a winner of their own.
pub open spec fn banner(winner: Winner) -> Seq<char> {
    match winner.0 {
        Some(PaddleType::Left) => "PLAYER 1 WIN!"@,
        Some(PaddleType::Right) => "PLAYER 2 WIN!"@,
        None => "GAME OVER!"@,
    }
}

/// Picks the banner that is shown when a match is over.
pub fn display_winner(winner: &Winner) -> (message: &'static str)
    ensures
        message@ == banner(*winner),
{
    match winner.0 {
        Some(PaddleType::Left) => "PLAYER 1 WIN!",
        Some(PaddleType::Right) => "PLAYER 2 WIN!",
        _ => "GAME OVER!",
    }
}

} // verus!
