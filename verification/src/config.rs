//! The measures of the court and of what moves on it. Lengths are in
//! thousandths of a pixel, speeds in thousandths of a pixel per second.

use vstd::prelude::*;

verus! {

/// How many thousandths make one pixel.
pub const UNIT: i64 = 1_000;

/// How many microseconds make one second.
pub const MICROS_PER_SECOND: u32 = 1_000_000;

pub const PADDLE_WIDTH: i64 = 20_000;

pub const PADDLE_HEIGHT: i64 = 120_000;

pub const PADDLE_SPEED: i64 = 500_000;

pub const DASHEDLINE_SIZE: i64 = 20_000;

pub const BALL_STARTING_X: i64 = -610_000;

pub const BALL_STARTING_Y: i64 = 0;

pub const BALL_SIZE: i64 = 20_000;

pub const BALL_SPEED: u32 = 400_000;

/// The direction of the first serve of a match: right and down, at 45 degrees.
pub const INITIAL_BALL_DIRECTION_X: i32 = 500;

pub const INITIAL_BALL_DIRECTION_Y: i32 = -500;

/// The thickness of the left and right walls.
pub const WALL_THICKNESS: i64 = 1_000;

/// The thickness of the top and bottom walls.
pub const VERTICAL_WALL_THICKNESS: i64 = 20_000;

pub const LEFT_WALL: i64 = -640_000;

pub const RIGHT_WALL: i64 = 640_000;

pub const BOTTOM_WALL: i64 = -470_000;

pub const TOP_WALL: i64 = 470_000;

pub const GAP_BETWEEN_PADDLE_AND_SIDES: i64 = 10_000;

pub const GAP_BETWEEN_DASHEDLINESEGMENTS: i64 = 40_000;

/// How far from the wall behind it the ball is put for a serve.
pub const SERVE_MARGIN: i64 = 40_000;

/// The smallest and the largest slope of a serve, in thousandths.
pub const SERVE_RATIO_MIN: u16 = 100;

pub const SERVE_RATIO_MAX: u16 = 500;

/// The factor by which a paddle speeds the ball up, as a fraction.
pub const SPEED_UP_NUMERATOR: u32 = 6;

pub const SPEED_UP_DENOMINATOR: u32 = 5;

/// The score that ends a match.
pub const TARGET_SCORE: usize = 9;

/// The highest position that a paddle's centre can take: its upper edge
/// then meets the inner face of the top wall, which lies half of that
/// wall's thickness below the wall's centre.
pub open spec fn paddle_top_bound() -> int {
    TOP_WALL - VERTICAL_WALL_THICKNESS / 2 - PADDLE_HEIGHT / 2
}

/// The lowest position that a paddle's centre can take: its lower edge
/// then meets the inner face of the bottom wall.
pub open spec fn paddle_bottom_bound() -> int {
    BOTTOM_WALL + VERTICAL_WALL_THICKNESS / 2 + PADDLE_HEIGHT / 2
}

} // verus!
