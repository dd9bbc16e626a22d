//! What stands and moves on the court: walls, paddles, the ball, and the
//! box that each offers to the ball.

use vstd::prelude::*;
use crate::arith::trunc_div;
use crate::config::{paddle_bottom_bound, paddle_top_bound};
use crate::config::{
    BALL_SIZE, BOTTOM_WALL, GAP_BETWEEN_PADDLE_AND_SIDES, LEFT_WALL, PADDLE_HEIGHT, PADDLE_WIDTH, RIGHT_WALL, TOP_WALL, VERTICAL_WALL_THICKNESS,
    WALL_THICKNESS,
};
use crate::geometry::{Aabb2d, BoundingCircle, Vec2};

verus! {

/// The four kinds of wall. The left and right walls are goals; the bottom
/// and top walls send the ball back.
#[derive(Debug, Clone, Copy, PartialEq, Eq)]
pub enum WallType {
    Left,
    Right,
    Bottom,
    Top,
}

/// The places at which a wall can stand.
#[derive(Debug, Clone, Copy, PartialEq, Eq)]
pub enum WallLocation {
    Left,
    Right,
    Bottom,
    Top,
}

impl WallLocation {
    /// The centre of the wall that stands here.
    pub open spec fn center(self) -> Vec2 {
        match self {
            WallLocation::Left => Vec2 { x: LEFT_WALL, y: 0 },
            WallLocation::Right => Vec2 { x: RIGHT_WALL, y: 0 },
            WallLocation::Bottom => Vec2 { x: 0, y: BOTTOM_WALL },
            WallLocation::Top => Vec2 { x: 0, y: TOP_WALL },
        }
    }

    /// The width and height of the wall that stands here. A side wall spans
    /// the court's height and the thickness of the walls it meets; the top
    /// and bottom walls span the court's width and that of the side walls.
    pub open spec fn extent(self) -> Vec2 {
        match self {
            WallLocation::Left | WallLocation::Right => Vec2 {
                x: WALL_THICKNESS,
                y: (TOP_WALL - BOTTOM_WALL + VERTICAL_WALL_THICKNESS) as i64,
            },
            WallLocation::Bottom | WallLocation::Top => Vec2 {
                x: (RIGHT_WALL - LEFT_WALL + WALL_THICKNESS) as i64,
                y: VERTICAL_WALL_THICKNESS,
            },
        }
    }

    /// The kind of wall that stands here.
    pub open spec fn kind(self) -> WallType {
        match self {
            WallLocation::Left => WallType::Left,
            WallLocation::Right => WallType::Right,
            WallLocation::Bottom => WallType::Bottom,
            WallLocation::Top => WallType::Top,
        }
    }

    /// The side walls are goals and are not drawn.
    pub open spec fn drawn(self) -> bool {
        self is Bottom || self is Top
    }

    /// Gives the centre of the wall that stands here.
    pub fn position(&self) -> (p: Vec2)
        ensures
            p == self.center(),
    {
        match self {
            WallLocation::Left => Vec2::new(LEFT_WALL, 0),
            WallLocation::Right => Vec2::new(RIGHT_WALL, 0),
            WallLocation::Bottom => Vec2::new(0, BOTTOM_WALL),
            WallLocation::Top => Vec2::new(0, TOP_WALL),
        }
    }

    /// Gives the width and height of the wall that stands here. The court
    /// has a width and a height, so neither is zero.
    pub fn size(&self) -> (s: Vec2)
        ensures
            s == self.extent(),
            s.x > 0,
            s.y > 0,
    {
        let arena_height: i64 = TOP_WALL - BOTTOM_WALL;
        let arena_width: i64 = RIGHT_WALL - LEFT_WALL;
        assert(arena_height > 0);
        assert(arena_width > 0);
        match self {
            WallLocation::Left | WallLocation::Right => Vec2::new(
                WALL_THICKNESS,
                arena_height + VERTICAL_WALL_THICKNESS,
            ),
            WallLocation::Bottom | WallLocation::Top => Vec2::new(
                arena_width + WALL_THICKNESS,
                VERTICAL_WALL_THICKNESS,
            ),
        }
    }
}

/// A wall of the court: where its centre is, how large it is, and whether
/// it is drawn.
#[derive(Debug, Clone, Copy, PartialEq, Eq)]
pub struct Wall {
    pub wall_type: WallType,
    pub visible: bool,
    pub position: Vec2,
    pub size: Vec2,
}

/// What the ball is tested against: a box, the kind of wall it belongs to
/// if it is a wall's, and whether it is a paddle's.
#[derive(Debug, Clone, Copy, PartialEq, Eq)]
pub struct Collider {
    pub bounds: Aabb2d,
    pub wall_type: Option<WallType>,
    pub paddle: bool,
}

impl Wall {
    /// The wall that stands at `location`.
    pub open spec fn at(location: WallLocation) -> Wall {
        Wall {
            wall_type: location.kind(),
            visible: location.drawn(),
            position: location.center(),
            size: location.extent(),
        }
    }

    /// Builds the wall that stands at `location`.
    pub fn new(location: WallLocation) -> (wall: Wall)
        ensures
            wall == Wall::at(location),
    {
        let visible: bool = match location {
            WallLocation::Left | WallLocation::Right => false,
            WallLocation::Bottom | WallLocation::Top => true,
        };
        let wall_type: WallType = match location {
            WallLocation::Left => WallType::Left,
            WallLocation::Right => WallType::Right,
            WallLocation::Top => WallType::Top,
            WallLocation::Bottom => WallType::Bottom,
        };
        Wall { wall_type, visible, position: location.position(), size: location.size() }
    }

    /// The box of a wall is centred where the wall is and has half its size.
    pub open spec fn box_of(self) -> Collider {
        Collider {
            bounds: Aabb2d {
                center: self.position,
                half_size: Vec2 {
                    x: trunc_div(self.size.x as int, 2) as i64,
                    y: trunc_div(self.size.y as int, 2) as i64,
                },
            },
            wall_type: Some(self.wall_type),
            paddle: false,
        }
    }

    /// Gives the box that the wall offers to the ball.
    pub fn collider(&self) -> (c: Collider)
        ensures
            c == self.box_of(),
    {
        Collider {
            bounds: Aabb2d::new(self.position, Vec2::new(self.size.x / 2, self.size.y / 2)),
            wall_type: Some(self.wall_type),
            paddle: false,
        }
    }
}

/// The two players, named by the side that each defends.
#[derive(Debug, Clone, Copy, PartialEq, Eq)]
pub enum PaddleType {
    Left,
    Right,
}

/// A paddle: the side it defends and the height of its centre. Its
/// horizontal position and its size never change.
#[derive(Debug, Clone, Copy, PartialEq, Eq)]
pub struct Paddle {
    pub side: PaddleType,
    pub y: i64,
}

impl Paddle {
    /// A paddle stands a fixed gap in front of the wall that it defends.
    pub open spec fn x_of(side: PaddleType) -> int {
        match side {
            PaddleType::Left => LEFT_WALL + GAP_BETWEEN_PADDLE_AND_SIDES,
            PaddleType::Right => RIGHT_WALL - GAP_BETWEEN_PADDLE_AND_SIDES,
        }
    }

    /// A paddle is where it may be when it lies between the top and bottom walls.
    pub open spec fn in_bounds(self) -> bool {
        paddle_bottom_bound() <= self.y <= paddle_top_bound()
    }

    /// A paddle at the middle of its side.
    pub fn new(side: PaddleType) -> (p: Paddle)
        ensures
            p == (Paddle { side, y: 0 }),
    {
        Paddle { side, y: 0 }
    }

    /// Gives the horizontal position of the paddle's centre.
    pub fn x(&self) -> (x: i64)
        ensures
            x == Paddle::x_of(self.side),
    {
        match self.side {
            PaddleType::Left => LEFT_WALL + GAP_BETWEEN_PADDLE_AND_SIDES,
            PaddleType::Right => RIGHT_WALL - GAP_BETWEEN_PADDLE_AND_SIDES,
        }
    }

    /// The box of a paddle is centred where the paddle is and has half its size.
    pub open spec fn box_of(self) -> Collider {
        Collider {
            bounds: Aabb2d {
                center: Vec2 { x: Paddle::x_of(self.side) as i64, y: self.y },
                half_size: Vec2 { x: (PADDLE_WIDTH / 2) as i64, y: (PADDLE_HEIGHT / 2) as i64 },
            },
            wall_type: None,
            paddle: true,
        }
    }

    /// Gives the box that the paddle offers to the ball.
    pub fn collider(&self) -> (c: Collider)
        ensures
            c == self.box_of(),
    {
        Collider {
            bounds: Aabb2d::new(
                Vec2::new(self.x(), self.y),
                Vec2::new(PADDLE_WIDTH / 2, PADDLE_HEIGHT / 2),
            ),
            wall_type: None,
            paddle: true,
        }
    }
}

/// A paddle that lies within its bounds lies fully between the top and
/// bottom walls: its box ends, at the latest, where theirs begin.
pub proof fn lemma_paddle_between_walls(paddle: Paddle)
    requires
        paddle.in_bounds(),
    ensures
        ({
            let own = paddle.box_of().bounds;
            let top = Wall::at(WallLocation::Top).box_of().bounds;
            let bottom = Wall::at(WallLocation::Bottom).box_of().bounds;
            &&& own.center.y + own.half_size.y <= top.center.y - top.half_size.y
            &&& own.center.y - own.half_size.y >= bottom.center.y + bottom.half_size.y
        }),
        paddle_top_bound() + PADDLE_HEIGHT / 2 == TOP_WALL - VERTICAL_WALL_THICKNESS / 2,
        paddle_bottom_bound() - PADDLE_HEIGHT / 2 == BOTTOM_WALL + VERTICAL_WALL_THICKNESS / 2,
{
}

/// The ball: where its centre is and how fast it moves along each axis.
#[derive(Debug, Clone, Copy, PartialEq, Eq)]
pub struct Ball {
    pub position: Vec2,
    pub velocity: Vec2,
}

impl Ball {
    /// The circle that the ball fills.
    pub open spec fn outline(self) -> BoundingCircle {
        BoundingCircle { center: self.position, radius: (BALL_SIZE / 2) as i64 }
    }

    /// Gives the circle that the ball fills.
    pub fn circle(&self) -> (c: BoundingCircle)
        ensures
            c == self.outline(),
    {
        BoundingCircle::new(self.position, BALL_SIZE / 2)
    }
}

} // verus!
