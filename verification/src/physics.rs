//! Collision detection: a circle (the ball) against axis-aligned
//! rectangles, and a dynamic rectangle (the platform) against static
//! rectangles (the walls).
//!
//! Detection runs once per tick over a frozen snapshot of positions and
//! fills a queue of `CollisionEvent`s, which the resolvers consume in
//! the same tick.

use vstd::prelude::*;

use crate::vec2::Vec2i;
use crate::COORD_LIMIT;
use crate::PLATFORM_LIMIT;
use crate::POS_LIMIT;

verus! {

/// Largest magnitude of a contact point's coordinate: contact points
/// lie on the boundary of a rectangle whose centre a rectangle body
/// can reach.
pub const CONTACT_LIMIT: i64 = 2_500_000;

/// The ball's collision shape: a circle of the given radius.
#[derive(Clone, Copy, PartialEq, Eq, Structural, Debug)]
pub struct Ball {
    pub radius: i64,
}

/// An axis-aligned rectangular collision shape, described by its full
/// width and height around the body's centre position.
#[derive(Clone, Copy, PartialEq, Eq, Structural, Debug)]
pub struct Rectangle {
    pub width: i64,
    pub height: i64,
}

/// Identifies a body within one round.
#[derive(Clone, Copy, PartialEq, Eq, Structural, Debug)]
pub enum BodyId {
    Ball,
    Platform,
    Brick(u32),
    Wall(u32),
}

/// A collision detected in the current tick: the dynamic body
/// `entity1` touches `entity2` at `collision_point`.  Events live for
/// one tick only.
#[derive(Clone, Copy, PartialEq, Eq, Structural, Debug)]
pub struct CollisionEvent {
    pub entity1: BodyId,
    pub entity2: BodyId,
    pub collision_point: Vec2i,
}

impl Ball {
    pub open spec fn wf(self) -> bool {
        0 < self.radius <= COORD_LIMIT
    }
}

impl Rectangle {
    pub open spec fn wf(self) -> bool {
        &&& 0 < self.width <= COORD_LIMIT
        &&& 0 < self.height <= COORD_LIMIT
    }
}

/// A centre position allowed for a static or resting body.
pub open spec fn in_world(p: Vec2i) -> bool {
    &&& -COORD_LIMIT <= p.x <= COORD_LIMIT
    &&& -COORD_LIMIT <= p.y <= COORD_LIMIT
}

/// A centre position a simulated body may reach.
pub open spec fn in_play(p: Vec2i) -> bool {
    &&& -POS_LIMIT <= p.x <= POS_LIMIT
    &&& -POS_LIMIT <= p.y <= POS_LIMIT
}

/// A centre position allowed for a rectangle that the ball is tested
/// against: static rectangles sit inside the world, the platform may
/// stray a little outside it.
pub open spec fn rect_center_ok(p: Vec2i) -> bool {
    &&& -PLATFORM_LIMIT <= p.x <= PLATFORM_LIMIT
    &&& -PLATFORM_LIMIT <= p.y <= PLATFORM_LIMIT
}

pub open spec fn contact_in_range(p: Vec2i) -> bool {
    &&& -CONTACT_LIMIT <= p.x <= CONTACT_LIMIT
    &&& -CONTACT_LIMIT <= p.y <= CONTACT_LIMIT
}

pub open spec fn clamp_spec(v: int, lo: int, hi: int) -> int {
    if v < lo {
        lo
    } else if v > hi {
        hi
    } else {
        v
    }
}

pub open spec fn min_spec(a: int, b: int) -> int {
    if a < b {
        a
    } else {
        b
    }
}

pub open spec fn max_spec(a: int, b: int) -> int {
    if a > b {
        a
    } else {
        b
    }
}

/// Halving as the executable code computes it: rounding towards zero.
pub open spec fn half_spec(n: int) -> int {
    if n >= 0 {
        n / 2
    } else {
        -((-n) / 2)
    }
}

pub open spec fn rect_left(rect: Rectangle, pos: Vec2i) -> int {
    pos.x - rect.width / 2
}

pub open spec fn rect_right(rect: Rectangle, pos: Vec2i) -> int {
    pos.x + rect.width / 2
}

pub open spec fn rect_bottom(rect: Rectangle, pos: Vec2i) -> int {
    pos.y - rect.height / 2
}

pub open spec fn rect_top(rect: Rectangle, pos: Vec2i) -> int {
    pos.y + rect.height / 2
}

/// The point of `rect` closest to the circle centre `c`: the centre
/// clamped to the rectangle.  This single formula covers face, edge and
/// corner contact alike.
pub open spec fn closest_x(c: Vec2i, rect: Rectangle, rpos: Vec2i) -> int {
    clamp_spec(c.x as int, rect_left(rect, rpos), rect_right(rect, rpos))
}

pub open spec fn closest_y(c: Vec2i, rect: Rectangle, rpos: Vec2i) -> int {
    clamp_spec(c.y as int, rect_bottom(rect, rpos), rect_top(rect, rpos))
}

/// Squared distance from the circle centre to the closest point of the
/// rectangle.
pub open spec fn closest_dist_sq(c: Vec2i, rect: Rectangle, rpos: Vec2i) -> int {
    let dx = c.x - closest_x(c, rect, rpos);
    let dy = c.y - closest_y(c, rect, rpos);
    dx * dx + dy * dy
}

/// The circle-versus-rectangle collision rule: the circle collides if
/// and only if the squared distance to the closest point is strictly
/// below the squared radius.  A centre on the boundary (distance zero)
/// therefore collides.
pub open spec fn circle_rect_collides(ball: Ball, c: Vec2i, rect: Rectangle, rpos: Vec2i) -> bool {
    closest_dist_sq(c, rect, rpos) < ball.radius * ball.radius
}

pub fn clamp64(v: i64, lo: i64, hi: i64) -> (r: i64)
    requires
        lo <= hi,
    ensures
        r == clamp_spec(v as int, lo as int, hi as int),
{
    if v < lo {
        lo
    } else if v > hi {
        hi
    } else {
        v
    }
}

/// Detect a collision between the ball and one rectangle.  Returns the
/// contact point (the rectangle's point closest to the ball's centre)
/// exactly when the two collide.
pub fn ball_rect_collision(ball: &Ball, ball_pos: Vec2i, rect: &Rectangle, rect_pos: Vec2i) -> (r:
    Option<Vec2i>)
    requires
        ball.wf(),
        rect.wf(),
        in_play(ball_pos),
        rect_center_ok(rect_pos),
    ensures
        r is Some <==> circle_rect_collides(*ball, ball_pos, *rect, rect_pos),
        r matches Some(c) ==> c.x == closest_x(ball_pos, *rect, rect_pos) && c.y == closest_y(
            ball_pos,
            *rect,
            rect_pos,
        ) && contact_in_range(c),
{
    let lo_x = rect_pos.x - rect.width / 2;
    let hi_x = rect_pos.x + rect.width / 2;
    let lo_y = rect_pos.y - rect.height / 2;
    let hi_y = rect_pos.y + rect.height / 2;
    let px = clamp64(ball_pos.x, lo_x, hi_x);
    let py = clamp64(ball_pos.y, lo_y, hi_y);
    let dx = ball_pos.x - px;
    let dy = ball_pos.y - py;
    proof {
        assert(0 <= dx * dx <= 49000000000000 && 0 <= dy * dy <= 49000000000000 && 0 <= ball.radius
            * ball.radius <= 1000000000000) by (nonlinear_arith)
            requires
                -7000000 <= dx <= 7000000,
                -7000000 <= dy <= 7000000,
                0 < ball.radius <= 1000000,
        ;
    }
    if dx * dx + dy * dy < ball.radius * ball.radius {
        Some(Vec2i { x: px, y: py })
    } else {
        None
    }
}

/// The collision rule is invariant under translating both bodies by the
/// same vector: only relative positions matter.
pub proof fn lemma_collision_translation_invariant(
    ball: Ball,
    c: Vec2i,
    rpos: Vec2i,
    rect: Rectangle,
    c2: Vec2i,
    rpos2: Vec2i,
)
    requires
        c2.x - c.x == rpos2.x - rpos.x,
        c2.y - c.y == rpos2.y - rpos.y,
    ensures
        circle_rect_collides(ball, c2, rect, rpos2) == circle_rect_collides(ball, c, rect, rpos),
{
    let tx = c2.x - c.x;
    let ty = c2.y - c.y;
    assert(closest_x(c2, rect, rpos2) == closest_x(c, rect, rpos) + tx);
    assert(closest_y(c2, rect, rpos2) == closest_y(c, rect, rpos) + ty);
    assert(c2.x - closest_x(c2, rect, rpos2) == c.x - closest_x(c, rect, rpos));
    assert(c2.y - closest_y(c2, rect, rpos2) == c.y - closest_y(c, rect, rpos));
}

/// Axis-aligned rectangle overlap: both projections intersect.
/// Touching edges count as overlap.
pub open spec fn rects_overlap(a: Rectangle, apos: Vec2i, b: Rectangle, bpos: Vec2i) -> bool {
    &&& rect_right(a, apos) >= rect_left(b, bpos)
    &&& rect_right(b, bpos) >= rect_left(a, apos)
    &&& rect_top(a, apos) >= rect_bottom(b, bpos)
    &&& rect_top(b, bpos) >= rect_bottom(a, apos)
}

/// The contact point of two overlapping rectangles: the centre of the
/// intersection rectangle, with each coordinate halved towards zero.
pub open spec fn overlap_contact_x(a: Rectangle, apos: Vec2i, b: Rectangle, bpos: Vec2i) -> int {
    half_spec(
        max_spec(rect_left(a, apos), rect_left(b, bpos)) + min_spec(
            rect_right(a, apos),
            rect_right(b, bpos),
        ),
    )
}

pub open spec fn overlap_contact_y(a: Rectangle, apos: Vec2i, b: Rectangle, bpos: Vec2i) -> int {
    half_spec(
        max_spec(rect_bottom(a, apos), rect_bottom(b, bpos)) + min_spec(
            rect_top(a, apos),
            rect_top(b, bpos),
        ),
    )
}

fn half_toward_zero(n: i64) -> (r: i64)
    requires
        -4_000_000_000 <= n <= 4_000_000_000,
    ensures
        r == half_spec(n as int),
{
    if n >= 0 {
        n / 2
    } else {
        -((-n) / 2)
    }
}

fn max64(a: i64, b: i64) -> (r: i64)
    ensures
        r == max_spec(a as int, b as int),
{
    if a > b {
        a
    } else {
        b
    }
}

fn min64(a: i64, b: i64) -> (r: i64)
    ensures
        r == min_spec(a as int, b as int),
{
    if a < b {
        a
    } else {
        b
    }
}

/// Detect a collision between a dynamic rectangle `a` and a static
/// rectangle `b`.  Returns the centre of the overlap region exactly
/// when the two overlap.
pub fn rect_rect_collision(a: &Rectangle, apos: Vec2i, b: &Rectangle, bpos: Vec2i) -> (r: Option<
    Vec2i,
>)
    requires
        a.wf(),
        b.wf(),
        in_play(apos),
        in_world(bpos),
    ensures
        r is Some <==> rects_overlap(*a, apos, *b, bpos),
        r matches Some(c) ==> c.x == overlap_contact_x(*a, apos, *b, bpos) && c.y
            == overlap_contact_y(*a, apos, *b, bpos) && contact_in_range(c) && -1_500_000 <= c.x
            <= 1_500_000 && -1_500_000 <= c.y <= 1_500_000,
{
    let a_left = apos.x - a.width / 2;
    let a_right = apos.x + a.width / 2;
    let a_bottom = apos.y - a.height / 2;
    let a_top = apos.y + a.height / 2;
    let b_left = bpos.x - b.width / 2;
    let b_right = bpos.x + b.width / 2;
    let b_bottom = bpos.y - b.height / 2;
    let b_top = bpos.y + b.height / 2;
    let collision_x = a_right >= b_left && b_right >= a_left;
    let collision_y = a_top >= b_bottom && b_top >= a_bottom;
    if collision_x && collision_y {
        let left = max64(a_left, b_left);
        let right = min64(a_right, b_right);
        let bottom = max64(a_bottom, b_bottom);
        let top = min64(a_top, b_top);
        let cx = half_toward_zero(left + right);
        let cy = half_toward_zero(bottom + top);
        Some(Vec2i { x: cx, y: cy })
    } else {
        None
    }
}

} // verus!
