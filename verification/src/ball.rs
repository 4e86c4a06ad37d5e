//! The ball: its attach/detach state machine, its movement, and the
//! bounce resolver that consumes collision events.

use vstd::prelude::*;

use crate::color::mix_channel_spec;
use crate::color::mix_color;
use crate::color::ColorRgb;
use crate::config::GameConfig;
use crate::physics::clamp_spec;
use crate::physics::contact_in_range;
use crate::physics::in_play;
use crate::physics::min_spec;
use crate::physics::BodyId;
use crate::physics::CollisionEvent;
use crate::vec2::is_unit;
use crate::vec2::lemma_norm_sq_component_bounds;
use crate::vec2::reflect;
use crate::vec2::reflect_xi;
use crate::vec2::reflect_yi;
use crate::vec2::rescale_coord;
use crate::vec2::with_len;
use crate::vec2::Vec2i;
use crate::COORD_LIMIT;
use crate::DT_LIMIT;
use crate::MUL_ONE;
use crate::MUL_LIMIT;
use crate::POS_LIMIT;
use crate::SPEED_LIMIT;
use crate::VEL_UNIT;

verus! {

/// Whether the ball is carried by the platform or flies freely.
#[derive(Clone, Copy, PartialEq, Eq, Structural, Debug)]
pub enum GameBallState {
    Attached,
    Detached,
}

/// The ball's simulation state.  Its position lives in the transform
/// store of the host and is passed alongside.
#[derive(Clone, Copy, PartialEq, Eq, Structural, Debug)]
pub struct GameBall {
    pub velocity: Vec2i,
    pub radius: i64,
    pub speed: i64,
    pub speed_mul: u32,
    pub state: GameBallState,
    pub color: ColorRgb,
}

impl GameBall {
    /// The invariant every round preserves: while attached the ball
    /// does not move by itself; while detached it flies along a unit
    /// direction.  The speed multiplier stays between one and the
    /// configured cap.
    pub open spec fn wf(self, config: GameConfig) -> bool {
        &&& self.radius == config.ball_radius
        &&& 0 < self.speed <= SPEED_LIMIT
        &&& MUL_ONE <= self.speed_mul <= config.ball_max_speed_multiplier
        &&& (self.state == GameBallState::Attached ==> self.velocity.is_zero())
        &&& (self.state == GameBallState::Detached ==> is_unit(self.velocity))
    }

    /// A freshly spawned ball: attached, at rest, at base colour.
    pub fn spawn(config: &GameConfig) -> (b: GameBall)
        requires
            config.wf(),
        ensures
            b.wf(*config),
            b.state == GameBallState::Attached,
            b.velocity.is_zero(),
            b.speed_mul == MUL_ONE,
            b.color == config.ball_base_color,
            b.speed == config.ball_speed,
    {
        GameBall {
            velocity: Vec2i { x: 0, y: 0 },
            radius: config.ball_radius,
            speed: config.ball_speed,
            speed_mul: MUL_ONE,
            state: GameBallState::Attached,
            color: config.ball_base_color,
        }
    }
}

/// Where the ball sits while it rides the platform: centred above it.
pub open spec fn carried_x(platform_pos: Vec2i) -> int {
    platform_pos.x as int
}

pub open spec fn carried_y(platform_pos: Vec2i, platform_height: i64, radius: i64) -> int {
    platform_pos.y + platform_height / 2 + radius
}

/// One integration step of a single coordinate, in position units:
/// `direction_component * speed * multiplier * dt / (VEL_UNIT * MUL_ONE * 1000)`,
/// rounded towards zero.
pub open spec fn step_coord(vc: int, speed: int, mul: int, dt_ms: int) -> int {
    if vc >= 0 {
        (vc * speed * mul * dt_ms) / (VEL_UNIT as int * MUL_ONE as int * 1000)
    } else {
        -(((-vc) * speed * mul * dt_ms) / (VEL_UNIT as int * MUL_ONE as int * 1000))
    }
}

fn step_coord_exec(vc: i64, speed: i64, mul: u32, dt_ms: i64) -> (s: i64)
    requires
        -2048 <= vc <= 2048,
        0 < speed <= SPEED_LIMIT,
        0 < mul <= MUL_LIMIT,
        0 <= dt_ms <= DT_LIMIT,
    ensures
        s == step_coord(vc as int, speed as int, mul as int, dt_ms as int),
        -4_000_000_000 <= s <= 4_000_000_000,
{
    let a: i64 = if vc < 0 {
        -vc
    } else {
        vc
    };
    proof {
        assert(0 <= a * speed <= 2048 * 1000000) by (nonlinear_arith)
            requires
                0 <= a <= 2048,
                0 < speed <= 1000000,
        ;
        assert(0 <= (a * speed) * mul <= 2048000000 * 1000) by (nonlinear_arith)
            requires
                0 <= a * speed <= 2048000000,
                0 < mul <= 1000,
        ;
        assert(0 <= ((a * speed) * mul) * dt_ms <= 2048000000000 * 10000) by (nonlinear_arith)
            requires
                0 <= (a * speed) * mul <= 2048000000000,
                0 <= dt_ms <= 10000,
        ;
    }
    let n: i64 = a * speed * (mul as i64) * dt_ms;
    let q: i64 = n / 10_240_000;
    proof {
        crate::num::lemma_div_bounds(n as int, 10_240_000);
    }
    if vc < 0 {
        -q
    } else {
        q
    }
}

/// The ball's position after one movement step: the carrying point on
/// the platform while attached, the clamped integration of the
/// velocity while detached.
pub open spec fn ball_move_spec(
    ball: GameBall,
    pos: Vec2i,
    platform_pos: Vec2i,
    platform_height: i64,
    dt_ms: i64,
) -> Vec2i {
    match ball.state {
        GameBallState::Attached => Vec2i {
            x: platform_pos.x,
            y: carried_y(platform_pos, platform_height, ball.radius) as i64,
        },
        GameBallState::Detached => Vec2i {
            x: clamp_spec(
                pos.x + step_coord(
                    ball.velocity.x as int,
                    ball.speed as int,
                    ball.speed_mul as int,
                    dt_ms as int,
                ),
                -POS_LIMIT as int,
                POS_LIMIT as int,
            ) as i64,
            y: clamp_spec(
                pos.y + step_coord(
                    ball.velocity.y as int,
                    ball.speed as int,
                    ball.speed_mul as int,
                    dt_ms as int,
                ),
                -POS_LIMIT as int,
                POS_LIMIT as int,
            ) as i64,
        },
    }
}

/// Move the ball for one step.  While attached the position is forced
/// to the carrying point on the platform; while detached it integrates
/// the velocity, clamped to the simulated range.
pub fn ball_movement(
    ball: &GameBall,
    pos: &mut Vec2i,
    platform_pos: Vec2i,
    platform_height: i64,
    dt_ms: i64,
)
    requires
        in_play(*old(pos)),
        -2048 <= ball.velocity.x <= 2048,
        -2048 <= ball.velocity.y <= 2048,
        0 < ball.radius <= COORD_LIMIT,
        0 < ball.speed <= SPEED_LIMIT,
        0 < ball.speed_mul <= MUL_LIMIT,
        0 <= dt_ms <= DT_LIMIT,
        -POS_LIMIT <= platform_pos.x <= POS_LIMIT,
        -COORD_LIMIT <= platform_pos.y <= COORD_LIMIT,
        0 < platform_height <= COORD_LIMIT,
    ensures
        ball.state == GameBallState::Attached ==> final(pos).x == carried_x(platform_pos)
            && final(pos).y == carried_y(platform_pos, platform_height, ball.radius),
        ball.state == GameBallState::Detached ==> final(pos).x == clamp_spec(
            old(pos).x + step_coord(
                ball.velocity.x as int,
                ball.speed as int,
                ball.speed_mul as int,
                dt_ms as int,
            ),
            -POS_LIMIT as int,
            POS_LIMIT as int,
        ) && final(pos).y == clamp_spec(
            old(pos).y + step_coord(
                ball.velocity.y as int,
                ball.speed as int,
                ball.speed_mul as int,
                dt_ms as int,
            ),
            -POS_LIMIT as int,
            POS_LIMIT as int,
        ),
        in_play(*final(pos)),
        *final(pos) == ball_move_spec(*ball, *old(pos), platform_pos, platform_height, dt_ms),
{
    match ball.state {
        GameBallState::Attached => {
            pos.x = platform_pos.x;
            pos.y = platform_pos.y + platform_height / 2 + ball.radius;
        },
        GameBallState::Detached => {
            let sx = step_coord_exec(ball.velocity.x, ball.speed, ball.speed_mul, dt_ms);
            let sy = step_coord_exec(ball.velocity.y, ball.speed, ball.speed_mul, dt_ms);
            pos.x = crate::physics::clamp64(pos.x + sx, -POS_LIMIT, POS_LIMIT);
            pos.y = crate::physics::clamp64(pos.y + sy, -POS_LIMIT, POS_LIMIT);
        },
    }
}

/// Where one bounce puts the ball's x coordinate: pushed out from the
/// contact point along the line towards its centre, to distance
/// `radius`.
pub open spec fn bounce_pos_x(pos: Vec2i, contact: Vec2i, radius: int) -> int {
    contact.x + rescale_coord(pos.x - contact.x, pos.x - contact.x, pos.y - contact.y, radius)
}

/// Where one bounce puts the ball's y coordinate.
pub open spec fn bounce_pos_y(pos: Vec2i, contact: Vec2i, radius: int) -> int {
    contact.y + rescale_coord(pos.y - contact.y, pos.x - contact.x, pos.y - contact.y, radius)
}

/// The velocity after one bounce: reflected across the unit-scaled
/// collision normal (the direction from the contact point to the
/// ball's centre) and renormalized to a unit direction.
pub open spec fn bounce_vel_x(vel: Vec2i, pos: Vec2i, contact: Vec2i) -> int {
    let dx = pos.x - contact.x;
    let dy = pos.y - contact.y;
    let nx = rescale_coord(dx, dx, dy, VEL_UNIT as int);
    let ny = rescale_coord(dy, dx, dy, VEL_UNIT as int);
    let rx = reflect_xi(vel.x as int, vel.y as int, nx, ny);
    let ry = reflect_yi(vel.x as int, vel.y as int, nx, ny);
    rescale_coord(rx, rx, ry, VEL_UNIT as int)
}

pub open spec fn bounce_vel_y(vel: Vec2i, pos: Vec2i, contact: Vec2i) -> int {
    let dx = pos.x - contact.x;
    let dy = pos.y - contact.y;
    let nx = rescale_coord(dx, dx, dy, VEL_UNIT as int);
    let ny = rescale_coord(dy, dx, dy, VEL_UNIT as int);
    let rx = reflect_xi(vel.x as int, vel.y as int, nx, ny);
    let ry = reflect_yi(vel.x as int, vel.y as int, nx, ny);
    rescale_coord(ry, rx, ry, VEL_UNIT as int)
}

/// Resolve one collision of the ball at contact point `contact`:
/// push the ball out of the penetration along the line from the
/// contact to its centre, so that its distance from the contact point
/// is the radius again (within the integer tolerance of `has_len`),
/// and reflect the velocity across that line, renormalized to a unit
/// direction.
///
/// When the centre coincides with the contact point the pushing
/// direction is undefined; the event is skipped rather than dividing
/// by zero.  A resting ball (zero velocity) keeps its velocity.
pub fn resolve_bounce(radius: i64, pos: &mut Vec2i, velocity: &mut Vec2i, contact: Vec2i)
    requires
        0 < radius <= COORD_LIMIT,
        in_play(*old(pos)),
        contact_in_range(contact),
        is_unit(*old(velocity)) || old(velocity).is_zero(),
    ensures
        *old(pos) == contact ==> *final(pos) == *old(pos) && *final(velocity) == *old(velocity),
        *old(pos) != contact ==> ({
            let dx = final(pos).x - contact.x;
            let dy = final(pos).y - contact.y;
            radius * radius - 4 * radius - 1 <= dx * dx + dy * dy <= (radius + 1) * (radius + 1)
        }),
        *old(pos) != contact ==> final(pos).x == bounce_pos_x(*old(pos), contact, radius as int)
            && final(pos).y == bounce_pos_y(*old(pos), contact, radius as int),
        *old(pos) != contact && !old(velocity).is_zero() ==> is_unit(*final(velocity)),
        *old(pos) != contact && !old(velocity).is_zero() ==> ({
            &&& final(velocity).x == bounce_vel_x(*old(velocity), *old(pos), contact)
            &&& final(velocity).y == bounce_vel_y(*old(velocity), *old(pos), contact)
        }),
        old(velocity).is_zero() ==> *final(velocity) == *old(velocity),
        is_unit(*final(velocity)) || *final(velocity) == *old(velocity),
        in_play(*final(pos)),
        -3_600_000 <= final(pos).x <= 3_600_000 || *final(pos) == *old(pos),
{
    let dx = pos.x - contact.x;
    let dy = pos.y - contact.y;
    if dx == 0 && dy == 0 {
        return ;
    }
    let off = Vec2i { x: dx, y: dy };
    proof {
        assert(1 <= off.norm_sq() <= 2000000000000000000) by (nonlinear_arith)
            requires
                off.norm_sq() == dx * dx + dy * dy,
                -7000000 <= dx <= 7000000,
                -7000000 <= dy <= 7000000,
                !(dx == 0 && dy == 0),
        ;
    }
    // positional correction: place the centre at distance `radius`
    // from the contact, on the same side as before.
    let out = with_len(off, radius);
    pos.x = contact.x + out.x;
    pos.y = contact.y + out.y;
    if !(velocity.x == 0 && velocity.y == 0) {
        // the (unit-scaled) collision normal.
        let n = with_len(off, VEL_UNIT);
        proof {
            lemma_norm_sq_component_bounds(n, 1025);
            lemma_norm_sq_component_bounds(*velocity, 1025);
        }
        let r = reflect(*velocity, n);
        proof {
            assert(1 <= n.norm_sq() * n.norm_sq() * velocity.norm_sq()
                <= 2000000000000000000) by (nonlinear_arith)
                requires
                    1 <= n.norm_sq() <= 1050625,
                    1 <= velocity.norm_sq() <= 1050625,
            ;
        }
        *velocity = with_len(r, VEL_UNIT);
    }
}

/// The ball's position and velocity after resolving one event, as
/// `resolve_bounce` computes them: unchanged when the centre sits on
/// the contact point (respectively when the ball is at rest).
pub open spec fn bounce_step(pos: Vec2i, vel: Vec2i, radius: int, contact: Vec2i) -> (
    Vec2i,
    Vec2i,
) {
    if pos == contact {
        (pos, vel)
    } else {
        let p2 = (Vec2i {
            x: bounce_pos_x(pos, contact, radius) as i64,
            y: bounce_pos_y(pos, contact, radius) as i64,
        });
        let v2 = if vel.is_zero() {
            vel
        } else {
            (Vec2i {
                x: bounce_vel_x(vel, pos, contact) as i64,
                y: bounce_vel_y(vel, pos, contact) as i64,
            })
        };
        (p2, v2)
    }
}

/// The ball's position and velocity after resolving a whole event
/// queue, one bounce per event that hits the ball, in queue order.
pub open spec fn bounce_fold(pos: Vec2i, vel: Vec2i, radius: int, events: Seq<CollisionEvent>) -> (
    Vec2i,
    Vec2i,
)
    decreases events.len(),
{
    if events.len() == 0 {
        (pos, vel)
    } else {
        let prev = bounce_fold(pos, vel, radius, events.drop_last());
        if events.last().entity1 == BodyId::Ball {
            bounce_step(prev.0, prev.1, radius, events.last().collision_point)
        } else {
            prev
        }
    }
}

/// How many events in the queue hit the ball.
pub open spec fn count_ball_events(events: Seq<CollisionEvent>) -> int
    decreases events.len(),
{
    if events.len() == 0 {
        0
    } else {
        count_ball_events(events.drop_last()) + if events.last().entity1 == BodyId::Ball {
            1int
        } else {
            0int
        }
    }
}

pub proof fn lemma_count_ball_events_nonneg(events: Seq<CollisionEvent>)
    ensures
        0 <= count_ball_events(events),
    decreases events.len(),
{
    if events.len() > 0 {
        lemma_count_ball_events_nonneg(events.drop_last());
    }
}

/// The whole ball after the bounce resolver has consumed an event
/// queue: the velocity from the bounce fold, the speed multiplier
/// raised a tenth per hit up to the cap, the colour blended to match,
/// everything else untouched.
pub open spec fn resolved_ball(
    config: GameConfig,
    ball: GameBall,
    pos: Vec2i,
    events: Seq<CollisionEvent>,
) -> GameBall {
    let count = count_ball_events(events);
    let vel = bounce_fold(pos, ball.velocity, ball.radius as int, events).1;
    let mul = min_spec(ball.speed_mul + count, config.ball_max_speed_multiplier as int);
    let color = if count == 0 {
        ball.color
    } else {
        ColorRgb {
            r: mix_channel_spec(
                config.ball_base_color.r as int,
                config.ball_max_speed_color.r as int,
                mul - MUL_ONE,
                config.ball_max_speed_multiplier - MUL_ONE,
            ) as u8,
            g: mix_channel_spec(
                config.ball_base_color.g as int,
                config.ball_max_speed_color.g as int,
                mul - MUL_ONE,
                config.ball_max_speed_multiplier - MUL_ONE,
            ) as u8,
            b: mix_channel_spec(
                config.ball_base_color.b as int,
                config.ball_max_speed_color.b as int,
                mul - MUL_ONE,
                config.ball_max_speed_multiplier - MUL_ONE,
            ) as u8,
        }
    };
    GameBall { velocity: vel, speed_mul: mul as u32, color, ..ball }
}

/// The bounce resolver: for every event whose dynamic side is the
/// ball, correct the penetration, reflect the velocity, raise the
/// speed multiplier by a tenth (up to the configured cap) and blend
/// the ball's colour towards the top-speed colour.
pub fn ball_collision(
    config: &GameConfig,
    ball: &mut GameBall,
    pos: &mut Vec2i,
    events: &Vec<CollisionEvent>,
)
    requires
        config.wf(),
        old(ball).wf(*config),
        in_play(*old(pos)),
        forall|i: int|
            0 <= i < events@.len() ==> contact_in_range(#[trigger] events@[i].collision_point),
    ensures
        final(ball).wf(*config),
        // the multiplier grows by a tenth per hit, up to the cap
        final(ball).speed_mul == min_spec(
            old(ball).speed_mul + count_ball_events(events@),
            config.ball_max_speed_multiplier as int,
        ),
        old(ball).speed_mul <= final(ball).speed_mul <= config.ball_max_speed_multiplier,
        // the velocity stays a unit direction (or the ball was at rest)
        is_unit(final(ball).velocity) || final(ball).velocity == old(ball).velocity,
        // the colour tracks the multiplier
        count_ball_events(events@) == 0 ==> *final(ball) == *old(ball) && *final(pos) == *old(pos),
        count_ball_events(events@) > 0 ==> final(ball).color.r == mix_channel_spec(
            config.ball_base_color.r as int,
            config.ball_max_speed_color.r as int,
            final(ball).speed_mul - MUL_ONE,
            config.ball_max_speed_multiplier - MUL_ONE,
        ) && final(ball).color.g == mix_channel_spec(
            config.ball_base_color.g as int,
            config.ball_max_speed_color.g as int,
            final(ball).speed_mul - MUL_ONE,
            config.ball_max_speed_multiplier - MUL_ONE,
        ) && final(ball).color.b == mix_channel_spec(
            config.ball_base_color.b as int,
            config.ball_max_speed_color.b as int,
            final(ball).speed_mul - MUL_ONE,
            config.ball_max_speed_multiplier - MUL_ONE,
        ),
        final(ball).state == old(ball).state,
        final(ball).speed == old(ball).speed,
        final(ball).radius == old(ball).radius,
        in_play(*final(pos)),
        // position and velocity are pinned exactly: one bounce per
        // event that hits the ball, in queue order
        *final(pos) == bounce_fold(
            *old(pos),
            old(ball).velocity,
            old(ball).radius as int,
            events@,
        ).0,
        final(ball).velocity == bounce_fold(
            *old(pos),
            old(ball).velocity,
            old(ball).radius as int,
            events@,
        ).1,
        *final(ball) == resolved_ball(*config, *old(ball), *old(pos), events@),
{
    let ghost old_mul = ball.speed_mul as int;
    let ghost old_ball = *ball;
    let ghost old_pos = *pos;
    let max = config.ball_max_speed_multiplier;
    let mut i: usize = 0;
    while i < events.len()
        invariant
            config.wf(),
            old_ball.wf(*config),
            ball.wf(*config),
            i <= events@.len(),
            forall|k: int|
                0 <= k < events@.len() ==> contact_in_range(#[trigger] events@[k].collision_point),
            max == config.ball_max_speed_multiplier,
            old_mul == old_ball.speed_mul as int,
            ball.speed_mul == min_spec(
                old_mul + count_ball_events(events@.take(i as int)),
                max as int,
            ),
            old_mul <= ball.speed_mul,
            is_unit(ball.velocity) || ball.velocity == old_ball.velocity,
            count_ball_events(events@.take(i as int)) == 0 ==> *ball == old_ball && *pos
                == old_pos,
            count_ball_events(events@.take(i as int)) > 0 ==> ball.color.r == mix_channel_spec(
                config.ball_base_color.r as int,
                config.ball_max_speed_color.r as int,
                ball.speed_mul - MUL_ONE,
                config.ball_max_speed_multiplier - MUL_ONE,
            ) && ball.color.g == mix_channel_spec(
                config.ball_base_color.g as int,
                config.ball_max_speed_color.g as int,
                ball.speed_mul - MUL_ONE,
                config.ball_max_speed_multiplier - MUL_ONE,
            ) && ball.color.b == mix_channel_spec(
                config.ball_base_color.b as int,
                config.ball_max_speed_color.b as int,
                ball.speed_mul - MUL_ONE,
                config.ball_max_speed_multiplier - MUL_ONE,
            ),
            ball.state == old_ball.state,
            ball.speed == old_ball.speed,
            ball.radius == old_ball.radius,
            in_play(*pos),
            *pos == bounce_fold(
                old_pos,
                old_ball.velocity,
                old_ball.radius as int,
                events@.take(i as int),
            ).0,
            ball.velocity == bounce_fold(
                old_pos,
                old_ball.velocity,
                old_ball.radius as int,
                events@.take(i as int),
            ).1,
        decreases events@.len() - i,
    {
        let e = events[i];
        proof {
            assert(events@.take(i + 1).drop_last() =~= events@.take(i as int));
            assert(events@.take(i + 1).last() == events@[i as int]);
            lemma_count_ball_events_nonneg(events@.take(i as int));
        }
        match e.entity1 {
            BodyId::Ball => {
                let mut vel = ball.velocity;
                resolve_bounce(ball.radius, pos, &mut vel, e.collision_point);
                ball.velocity = vel;
                ball.speed_mul = if ball.speed_mul + 1 < max {
                    ball.speed_mul + 1
                } else {
                    max
                };
                ball.color = mix_color(
                    config.ball_base_color,
                    config.ball_max_speed_color,
                    ball.speed_mul - MUL_ONE,
                    max - MUL_ONE,
                );
            },
            _ => {},
        }
        i = i + 1;
    }
    proof {
        assert(events@.take(events@.len() as int) =~= events@);
    }
}

/// The ball after one launch/retract toggle: detached towards the aim
/// target at base speed, or re-attached and reset; unchanged when
/// there is no direction to launch along.
pub open spec fn toggled_ball(
    config: GameConfig,
    ball: GameBall,
    pos: Vec2i,
    cursor: Vec2i,
) -> GameBall {
    match ball.state {
        GameBallState::Attached => {
            if cursor == pos {
                ball
            } else {
                GameBall {
                    state: GameBallState::Detached,
                    velocity: Vec2i {
                        x: rescale_coord(
                            cursor.x - pos.x,
                            cursor.x - pos.x,
                            cursor.y - pos.y,
                            VEL_UNIT as int,
                        ) as i64,
                        y: rescale_coord(
                            cursor.y - pos.y,
                            cursor.x - pos.x,
                            cursor.y - pos.y,
                            VEL_UNIT as int,
                        ) as i64,
                    },
                    speed: config.ball_speed,
                    ..ball
                }
            }
        },
        GameBallState::Detached => GameBall {
            state: GameBallState::Attached,
            velocity: Vec2i { x: 0, y: 0 },
            speed_mul: MUL_ONE,
            color: config.ball_base_color,
            ..ball
        },
    }
}

/// The launch/retract toggle of the ball state machine, driven by the
/// player's launch input.
///
/// Attached and launched: the ball detaches and flies towards the
/// aim target `cursor` at base speed.  If the aim target coincides
/// with the ball's position there is no direction to launch along and
/// the ball stays attached.
///
/// Detached and retracted: the ball re-attaches; velocity clears,
/// the speed multiplier and the colour reset.
pub fn ball_event_handler(config: &GameConfig, ball: &mut GameBall, pos: Vec2i, cursor: Vec2i)
    requires
        config.wf(),
        old(ball).wf(*config),
        in_play(pos),
        in_play(cursor),
    ensures
        final(ball).wf(*config),
        old(ball).state == GameBallState::Attached && cursor != pos ==> ({
            &&& final(ball).state == GameBallState::Detached
            &&& is_unit(final(ball).velocity)
            &&& final(ball).velocity.x == rescale_coord(
                cursor.x - pos.x,
                cursor.x - pos.x,
                cursor.y - pos.y,
                VEL_UNIT as int,
            )
            &&& final(ball).velocity.y == rescale_coord(
                cursor.y - pos.y,
                cursor.x - pos.x,
                cursor.y - pos.y,
                VEL_UNIT as int,
            )
            &&& final(ball).speed == config.ball_speed
            &&& final(ball).speed_mul == old(ball).speed_mul
            &&& final(ball).color == old(ball).color
            &&& cursor.x >= pos.x ==> final(ball).velocity.x >= 0
            &&& cursor.x <= pos.x ==> final(ball).velocity.x <= 0
            &&& cursor.y >= pos.y ==> final(ball).velocity.y >= 0
            &&& cursor.y <= pos.y ==> final(ball).velocity.y <= 0
        }),
        old(ball).state == GameBallState::Attached && cursor == pos ==> *final(ball) == *old(ball),
        old(ball).state == GameBallState::Detached ==> ({
            &&& final(ball).state == GameBallState::Attached
            &&& final(ball).velocity.is_zero()
            &&& final(ball).speed_mul == MUL_ONE
            &&& final(ball).color == config.ball_base_color
            &&& final(ball).speed == old(ball).speed
        }),
        final(ball).radius == old(ball).radius,
        *final(ball) == toggled_ball(*config, *old(ball), pos, cursor),
{
    match ball.state {
        GameBallState::Attached => {
            let dx = cursor.x - pos.x;
            let dy = cursor.y - pos.y;
            if dx == 0 && dy == 0 {
                return ;
            }
            let aim = Vec2i { x: dx, y: dy };
            proof {
                assert(1 <= aim.norm_sq() <= 2000000000000000000) by (nonlinear_arith)
                    requires
                        aim.norm_sq() == dx * dx + dy * dy,
                        -8000000 <= dx <= 8000000,
                        -8000000 <= dy <= 8000000,
                        !(dx == 0 && dy == 0),
                ;
            }
            ball.state = GameBallState::Detached;
            ball.velocity = with_len(aim, VEL_UNIT);
            ball.speed = config.ball_speed;
        },
        GameBallState::Detached => {
            ball.state = GameBallState::Attached;
            ball.velocity = Vec2i { x: 0, y: 0 };
            ball.speed_mul = MUL_ONE;
            ball.color = config.ball_base_color;
        },
    }
}

} // verus!
