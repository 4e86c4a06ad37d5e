//! The platform: input-driven horizontal movement, the resolver that
//! clamps it against the walls, and the life tracker that watches for
//! the ball falling past it.

use vstd::prelude::*;

use crate::ball::GameBall;
use crate::ball::GameBallState;
use crate::config::GameConfig;
use crate::physics::clamp64;
use crate::physics::clamp_spec;
use crate::physics::contact_in_range;
use crate::physics::in_play;
use crate::physics::BodyId;
use crate::physics::CollisionEvent;
use crate::vec2::Vec2i;
use crate::COORD_LIMIT;
use crate::DT_LIMIT;
use crate::MUL_ONE;
use crate::PLATFORM_LIMIT;
use crate::SPEED_LIMIT;

verus! {

/// The player's paddle: the only dynamic rectangle.
#[derive(Clone, Copy, PartialEq, Eq, Structural, Debug)]
pub struct GamePlatform {
    pub width: i64,
    pub height: i64,
    pub speed: i64,
}

impl GamePlatform {
    pub open spec fn wf(self) -> bool {
        &&& 0 < self.width <= COORD_LIMIT
        &&& 0 < self.height <= COORD_LIMIT
        &&& 0 < self.speed <= SPEED_LIMIT
    }
}

/// How many balls the player may still lose.
#[derive(Clone, Copy, PartialEq, Eq, Structural, Debug)]
pub struct PlatformLifes {
    pub max: u32,
    pub current: u32,
}

impl PlatformLifes {
    pub open spec fn wf(self) -> bool {
        self.current <= self.max
    }
}

/// The platform's position after one movement step: shifted by
/// `speed * dt` for each pressed key, clamped to the platform's range.
pub open spec fn platform_move_spec(
    platform: GamePlatform,
    pos: Vec2i,
    move_left: bool,
    move_right: bool,
    dt_ms: i64,
) -> Vec2i {
    let step = (platform.speed * dt_ms) / 1000;
    Vec2i {
        x: clamp_spec(
            pos.x - (if move_left {
                step
            } else {
                0
            }) + (if move_right {
                step
            } else {
                0
            }),
            -PLATFORM_LIMIT as int,
            PLATFORM_LIMIT as int,
        ) as i64,
        y: pos.y,
    }
}

/// Move the platform horizontally by the player's input, clamped to
/// the simulated range.  The platform never moves vertically.
pub fn platform_movement(
    platform: &GamePlatform,
    pos: &mut Vec2i,
    move_left: bool,
    move_right: bool,
    dt_ms: i64,
)
    requires
        platform.wf(),
        in_play(*old(pos)),
        0 <= dt_ms <= DT_LIMIT,
    ensures
        final(pos).y == old(pos).y,
        final(pos).x == clamp_spec(
            old(pos).x - (if move_left {
                (platform.speed * dt_ms) / 1000
            } else {
                0
            }) + (if move_right {
                (platform.speed * dt_ms) / 1000
            } else {
                0
            }),
            -PLATFORM_LIMIT as int,
            PLATFORM_LIMIT as int,
        ),
        in_play(*final(pos)),
        -PLATFORM_LIMIT <= final(pos).x <= PLATFORM_LIMIT,
        *final(pos) == platform_move_spec(*platform, *old(pos), move_left, move_right, dt_ms),
{
    proof {
        assert(0 <= platform.speed * dt_ms <= 10000000000) by (nonlinear_arith)
            requires
                0 < platform.speed <= 1000000,
                0 <= dt_ms <= 10000,
        ;
        crate::num::lemma_div_bounds(platform.speed * dt_ms, 1000);
    }
    let step = platform.speed * dt_ms / 1000;
    let mut x = pos.x;
    if move_left {
        x = x - step;
    }
    if move_right {
        x = x + step;
    }
    pos.x = clamp64(x, -PLATFORM_LIMIT, PLATFORM_LIMIT);
}

/// Where one wall contact pushes the platform's centre: far enough to
/// the side of the contact point that the platform no longer covers
/// it.  The side is decided by where the contact lies relative to the
/// centre.
pub open spec fn platform_clamp_x(x: int, width: int, e: CollisionEvent) -> int {
    if e.collision_point.x < x {
        e.collision_point.x + width / 2
    } else {
        e.collision_point.x - width / 2
    }
}

/// The platform centre after the whole event queue of one tick.
pub open spec fn platform_x_after_events(x: int, width: int, events: Seq<CollisionEvent>) -> int
    decreases events.len(),
{
    if events.len() == 0 {
        x
    } else {
        let p = platform_x_after_events(x, width, events.drop_last());
        if events.last().entity1 == BodyId::Platform {
            platform_clamp_x(p, width, events.last())
        } else {
            p
        }
    }
}

/// The platform resolver: every event whose dynamic side is the
/// platform pushes it back along the horizontal axis so that its edge
/// sits at the contact point.
pub fn platform_collision(platform: &GamePlatform, pos: &mut Vec2i, events: &Vec<CollisionEvent>)
    requires
        platform.wf(),
        in_play(*old(pos)),
        forall|k: int|
            0 <= k < events@.len() ==> contact_in_range(#[trigger] events@[k].collision_point),
    ensures
        final(pos).y == old(pos).y,
        final(pos).x == platform_x_after_events(old(pos).x as int, platform.width as int, events@),
        in_play(*final(pos)),
        (forall|k: int|
            0 <= k < events@.len() && events@[k].entity1 == BodyId::Platform
                ==> -1_500_000 <= (#[trigger] events@[k]).collision_point.x <= 1_500_000) ==> (
        final(pos).x == old(pos).x || -PLATFORM_LIMIT <= final(pos).x <= PLATFORM_LIMIT),
{
    let ghost x0 = pos.x as int;
    let mut i: usize = 0;
    while i < events.len()
        invariant
            i <= events@.len(),
            platform.wf(),
            forall|k: int|
                0 <= k < events@.len() ==> contact_in_range(#[trigger] events@[k].collision_point),
            pos.x == platform_x_after_events(x0, platform.width as int, events@.take(i as int)),
            pos.y == old(pos).y,
            x0 == old(pos).x,
            in_play(*pos),
            (forall|k: int|
                0 <= k < events@.len() && events@[k].entity1 == BodyId::Platform ==> -1_500_000 <= (
                #[trigger] events@[k]).collision_point.x <= 1_500_000) ==> (pos.x == x0
                || -PLATFORM_LIMIT <= pos.x <= PLATFORM_LIMIT),
        decreases events@.len() - i,
    {
        let e = events[i];
        proof {
            assert(events@.take(i + 1).drop_last() =~= events@.take(i as int));
            assert(events@.take(i + 1).last() == events@[i as int]);
        }
        match e.entity1 {
            BodyId::Platform => {
                if e.collision_point.x < pos.x {
                    pos.x = e.collision_point.x + platform.width / 2;
                } else {
                    pos.x = e.collision_point.x - platform.width / 2;
                }
            },
            _ => {},
        }
        i = i + 1;
    }
    proof {
        assert(events@.take(events@.len() as int) =~= events@);
    }
}

/// The lives and the ball after one pass of the life tracker: when
/// the detached ball has fallen below the platform, one life goes
/// (never below zero) and the ball snaps back onto the platform,
/// reset; otherwise nothing changes.
pub open spec fn life_step_spec(
    config: GameConfig,
    lifes: PlatformLifes,
    ball: GameBall,
    ball_pos: Vec2i,
    platform_pos: Vec2i,
) -> (PlatformLifes, GameBall) {
    if ball.state == GameBallState::Detached && ball_pos.y < platform_pos.y {
        (
            PlatformLifes {
                max: lifes.max,
                current: if lifes.current > 0 {
                    (lifes.current - 1) as u32
                } else {
                    0
                },
            },
            GameBall {
                state: GameBallState::Attached,
                velocity: Vec2i { x: 0, y: 0 },
                speed_mul: MUL_ONE,
                color: config.ball_base_color,
                ..ball
            },
        )
    } else {
        (lifes, ball)
    }
}

/// The life tracker: when the detached ball has fallen below the
/// platform, one life is lost and the ball snaps back onto the
/// platform, reset to base speed and colour.  Signals the end of the
/// round exactly when no life is left.
pub fn platform_lifes(
    config: &GameConfig,
    lifes: &mut PlatformLifes,
    ball: &mut GameBall,
    ball_pos: Vec2i,
    platform_pos: Vec2i,
) -> (end: bool)
    requires
        config.wf(),
        old(ball).wf(*config),
        old(lifes).wf(),
    ensures
        final(ball).wf(*config),
        final(lifes).wf(),
        final(lifes).max == old(lifes).max,
        old(ball).state == GameBallState::Detached && ball_pos.y < platform_pos.y ==> ({
            &&& final(lifes).current == (if old(lifes).current > 0 {
                (old(lifes).current - 1) as u32
            } else {
                0u32
            })
            &&& final(ball).state == GameBallState::Attached
            &&& final(ball).velocity.is_zero()
            &&& final(ball).speed_mul == MUL_ONE
            &&& final(ball).color == config.ball_base_color
            &&& final(ball).speed == old(ball).speed
            &&& final(ball).radius == old(ball).radius
        }),
        !(old(ball).state == GameBallState::Detached && ball_pos.y < platform_pos.y) ==> ({
            &&& *final(ball) == *old(ball)
            &&& *final(lifes) == *old(lifes)
        }),
        end == (final(lifes).current == 0),
        *final(lifes) == life_step_spec(*config, *old(lifes), *old(ball), ball_pos, platform_pos).0,
        *final(ball) == life_step_spec(*config, *old(lifes), *old(ball), ball_pos, platform_pos).1,
{
    if ball.state == GameBallState::Detached && ball_pos.y < platform_pos.y {
        if lifes.current > 0 {
            lifes.current = lifes.current - 1;
        }
        ball.state = GameBallState::Attached;
        ball.velocity = Vec2i { x: 0, y: 0 };
        ball.speed_mul = MUL_ONE;
        ball.color = config.ball_base_color;
    }
    lifes.current == 0
}

} // verus!
