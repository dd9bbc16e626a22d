//! Points, circles and axis-aligned boxes on the integer grid, and the test
//! that tells whether a ball touches a box and on which side.

use vstd::prelude::*;
use vstd::math::{max, min};
use crate::arith::magnitude;

verus! {

/// A point or a displacement in the plane.
#[derive(Debug, Clone, Copy, PartialEq, Eq)]
pub struct Vec2 {
    pub x: i64,
    pub y: i64,
}

impl Vec2 {
    /// The point at `(x, y)`.
    pub fn new(x: i64, y: i64) -> (v: Vec2)
        ensures
            v.x == x,
            v.y == y,
    {
        Vec2 { x, y }
    }
}

/// The side of a box on which a ball touches it.
#[derive(Debug, Clone, Copy, PartialEq, Eq)]
pub enum Collision {
    Left,
    Right,
    Top,
    Bottom,
}

/// A circle given by its centre and radius.
#[derive(Debug, Clone, Copy, PartialEq, Eq)]
pub struct BoundingCircle {
    pub center: Vec2,
    pub radius: i64,
}

/// An axis-aligned box given by its centre and half of its extent.
#[derive(Debug, Clone, Copy, PartialEq, Eq)]
pub struct Aabb2d {
    pub center: Vec2,
    pub half_size: Vec2,
}

/// `v` moved into `[lo, hi]`: raised to `lo` first, then lowered to `hi`.
pub open spec fn clamped(v: int, lo: int, hi: int) -> int {
    min(max(v, lo), hi)
}

impl Aabb2d {
    /// A box has an extent that is not negative.
    pub open spec fn well_formed(self) -> bool {
        self.half_size.x >= 0 && self.half_size.y >= 0
    }

    /// The x coordinate of the point of the box that is closest to a point at `px`.
    pub open spec fn closest_x(self, px: int) -> int {
        clamped(px, self.center.x - self.half_size.x, self.center.x + self.half_size.x)
    }

    /// The y coordinate of the point of the box that is closest to a point at `py`.
    pub open spec fn closest_y(self, py: int) -> int {
        clamped(py, self.center.y - self.half_size.y, self.center.y + self.half_size.y)
    }

    /// The box around `center` that reaches `half_size` to each side.
    pub fn new(center: Vec2, half_size: Vec2) -> (b: Aabb2d)
        ensures
            b.center == center,
            b.half_size == half_size,
    {
        Aabb2d { center, half_size }
    }

    /// The point of the box that is closest to `point`: `point` itself when
    /// it lies inside, else the nearest point of the border.
    pub fn closest_point(&self, point: Vec2) -> (closest: Vec2)
        requires
            self.well_formed(),
        ensures
            closest.x == self.closest_x(point.x as int),
            closest.y == self.closest_y(point.y as int),
    {
        let dx: i128 = offset_along(point.x, self.center.x, self.half_size.x);
        let dy: i128 = offset_along(point.y, self.center.y, self.half_size.y);
        Vec2 { x: (point.x as i128 - dx) as i64, y: (point.y as i128 - dy) as i64 }
    }
}

/// The distance, with its sign, from the closest point of the interval
/// `[center - half, center + half]` to `p`.
fn offset_along(p: i64, center: i64, half: i64) -> (offset: i128)
    ensures
        offset == p - clamped(p as int, center - half, center + half),
{
    let lo: i128 = center as i128 - half as i128;
    let hi: i128 = center as i128 + half as i128;
    let wide: i128 = p as i128;
    let raised: i128 = if wide >= lo {
        wide
    } else {
        lo
    };
    let closest: i128 = if raised <= hi {
        raised
    } else {
        hi
    };
    wide - closest
}

impl BoundingCircle {
    /// The circle around `center` with the given radius.
    pub fn new(center: Vec2, radius: i64) -> (c: BoundingCircle)
        ensures
            c.center == center,
            c.radius == radius,
    {
        BoundingCircle { center, radius }
    }

    /// The horizontal part of the vector from the closest point of `b` to the centre.
    pub open spec fn offset_x(self, b: Aabb2d) -> int {
        self.center.x - b.closest_x(self.center.x as int)
    }

    /// The vertical part of the vector from the closest point of `b` to the centre.
    pub open spec fn offset_y(self, b: Aabb2d) -> int {
        self.center.y - b.closest_y(self.center.y as int)
    }

    /// The circle touches or overlaps `b`: the closest point of `b` is no
    /// farther from the centre than the radius.
    pub open spec fn touches(self, b: Aabb2d) -> bool {
        self.offset_x(b) * self.offset_x(b) + self.offset_y(b) * self.offset_y(b)
            <= self.radius * self.radius
    }

    /// Tells whether the circle touches or overlaps `b`.
    pub fn intersects(&self, b: &Aabb2d) -> (hit: bool)
        ensures
            hit == self.touches(*b),
    {
        let ox: i128 = offset_along(self.center.x, b.center.x, b.half_size.x);
        let oy: i128 = offset_along(self.center.y, b.center.y, b.half_size.y);
        let ax: u128 = unsigned(ox);
        let ay: u128 = unsigned(oy);
        let ar: u128 = unsigned(self.radius as i128);
        proof {
            lemma_square_of_magnitude(ox as int);
            lemma_square_of_magnitude(oy as int);
            lemma_square_of_magnitude(self.radius as int);
            lemma_square_grows(ax as int, ar as int);
            lemma_square_grows(ay as int, ar as int);
            lemma_square_grows(ar as int, 0x8000_0000_0000_0000);
            assert(ax * ax >= 0 && ay * ay >= 0) by (nonlinear_arith);
        }
        if ax > ar || ay > ar {
            false
        } else {
            ax * ax + ay * ay <= ar * ar
        }
    }
}

/// The magnitude of `v`.
fn unsigned(v: i128) -> (m: u128)
    requires
        v > i128::MIN,
    ensures
        m == magnitude(v as int),
{
    if v < 0 {
        (-v) as u128
    } else {
        v as u128
    }
}

proof fn lemma_square_of_magnitude(v: int)
    ensures
        magnitude(v) * magnitude(v) == v * v,
{
    assert((-v) * (-v) == v * v) by (nonlinear_arith);
}

proof fn lemma_square_grows(a: int, b: int)
    requires
        0 <= a,
        0 <= b,
    ensures
        a <= b ==> a * a <= b * b,
        a > b ==> a * a > b * b,
{
    assert(a <= b ==> a * a <= b * b) by (nonlinear_arith)
        requires
            0 <= a,
            0 <= b,
    ;
    assert(a > b ==> a * a > b * b) by (nonlinear_arith)
        requires
            0 <= a,
            0 <= b,
    ;
}

/// The side that an offset from the closest point stands for. The larger
/// component decides the axis. Where both are equally large the side is a
/// vertical one, `Top` or `Bottom`: a ball that meets a corner head-on
/// bounces as it would off the floor or the ceiling.
pub open spec fn contact_side(ox: int, oy: int) -> Collision {
    if magnitude(ox) > magnitude(oy) {
        if ox < 0 {
            Collision::Left
        } else {
            Collision::Right
        }
    } else if oy > 0 {
        Collision::Top
    } else {
        Collision::Bottom
    }
}

/// The side on which `ball` touches `b`, if it touches it at all.
pub open spec fn collision_of(ball: BoundingCircle, b: Aabb2d) -> Option<Collision> {
    if ball.touches(b) {
        Some(contact_side(ball.offset_x(b), ball.offset_y(b)))
    } else {
        None
    }
}

/// Tests `ball` against `bounding_box` and names the side of contact.
pub fn ball_collision(ball: BoundingCircle, bounding_box: Aabb2d) -> (side: Option<Collision>)
    ensures
        side == collision_of(ball, bounding_box),
{
    if !ball.intersects(&bounding_box) {
        return None;
    }
    let ox: i128 = offset_along(ball.center.x, bounding_box.center.x, bounding_box.half_size.x);
    let oy: i128 = offset_along(ball.center.y, bounding_box.center.y, bounding_box.half_size.y);
    let side: Collision = if unsigned(ox) > unsigned(oy) {
        if ox < 0 {
            Collision::Left
        } else {
            Collision::Right
        }
    } else if oy > 0 {
        Collision::Top
    } else {
        Collision::Bottom
    };
    Some(side)
}

/// A ball whose centre lies strictly outside the box grown by the ball's
/// radius on every side does not collide with the box.
pub proof fn lemma_outside_grown_box_misses(ball: BoundingCircle, b: Aabb2d)
    requires
        b.well_formed(),
        ball.radius >= 0,
        magnitude(ball.center.x - b.center.x) > b.half_size.x + ball.radius || magnitude(
            ball.center.y - b.center.y,
        ) > b.half_size.y + ball.radius,
    ensures
        collision_of(ball, b) is None,
{
    let ox: int = ball.offset_x(b);
    let oy: int = ball.offset_y(b);
    let r: int = ball.radius as int;
    lemma_square_of_magnitude(ox);
    lemma_square_of_magnitude(oy);
    assert(magnitude(ox) * magnitude(ox) >= 0 && magnitude(oy) * magnitude(oy) >= 0)
        by (nonlinear_arith);
    if magnitude(ball.center.x - b.center.x) > b.half_size.x + ball.radius {
        assert(magnitude(ox) > r);
        lemma_square_grows(magnitude(ox), r);
    } else {
        assert(magnitude(oy) > r);
        lemma_square_grows(magnitude(oy), r);
    }
}

/// A ball that just touches an edge of a box, its centre one radius away
/// from the edge and level with it, collides on the side of that edge.
pub proof fn lemma_touching_an_edge(ball: BoundingCircle, b: Aabb2d)
    requires
        b.well_formed(),
        ball.radius > 0,
    ensures
        ball.center.x == b.center.x + b.half_size.x + ball.radius && b.center.y - b.half_size.y
            <= ball.center.y <= b.center.y + b.half_size.y ==> collision_of(ball, b) == Some(
            Collision::Right,
        ),
        ball.center.x == b.center.x - b.half_size.x - ball.radius && b.center.y - b.half_size.y
            <= ball.center.y <= b.center.y + b.half_size.y ==> collision_of(ball, b) == Some(
            Collision::Left,
        ),
        ball.center.y == b.center.y + b.half_size.y + ball.radius && b.center.x - b.half_size.x
            <= ball.center.x <= b.center.x + b.half_size.x ==> collision_of(ball, b) == Some(
            Collision::Top,
        ),
        ball.center.y == b.center.y - b.half_size.y - ball.radius && b.center.x - b.half_size.x
            <= ball.center.x <= b.center.x + b.half_size.x ==> collision_of(ball, b) == Some(
            Collision::Bottom,
        ),
{
    let r: int = ball.radius as int;
    assert(r * r + 0 * 0 <= r * r && (-r) * (-r) + 0 * 0 <= r * r && 0 * 0 + r * r <= r * r && 0
        * 0 + (-r) * (-r) <= r * r) by (nonlinear_arith);
}

/// The side of a collision lies on the axis along which the ball is
/// farther from the closest point of the box: a horizontal side exactly
/// when the horizontal offset is the larger one.
pub proof fn lemma_nearer_axis_decides(ball: BoundingCircle, b: Aabb2d)
    requires
        ball.touches(b),
    ensures
        (collision_of(ball, b) == Some(Collision::Left) || collision_of(ball, b) == Some(
            Collision::Right,
        )) <==> magnitude(ball.offset_x(b)) > magnitude(ball.offset_y(b)),
        collision_of(ball, b) == Some(Collision::Left) ==> ball.offset_x(b) < 0,
        collision_of(ball, b) == Some(Collision::Right) ==> ball.offset_x(b) > 0,
        collision_of(ball, b) == Some(Collision::Top) ==> ball.offset_y(b) > 0,
        collision_of(ball, b) == Some(Collision::Bottom) ==> ball.offset_y(b) <= 0,
{
}

/// Where a colliding ball is offset equally far along both axes, or lies
/// inside the box, the side is a vertical one.
pub proof fn lemma_tie_is_vertical(ball: BoundingCircle, b: Aabb2d)
    requires
        ball.touches(b),
        magnitude(ball.offset_x(b)) == magnitude(ball.offset_y(b)),
    ensures
        collision_of(ball, b) == Some(
            if ball.offset_y(b) > 0 {
                Collision::Top
            } else {
                Collision::Bottom
            },
        ),
{
}

} // verus!
