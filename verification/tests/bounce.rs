//! The ball: rescaling, reflection, bounce resolution, speed/colour
//! progression and the launch toggle.

use breakout_core::ball::ball_collision;
use breakout_core::ball::ball_event_handler;
use breakout_core::ball::resolve_bounce;
use breakout_core::ball::GameBall;
use breakout_core::ball::GameBallState;
use breakout_core::color::mix_color;
use breakout_core::color::ColorRgb;
use breakout_core::config::GameConfig;
use breakout_core::num::isqrt;
use breakout_core::physics::BodyId;
use breakout_core::physics::CollisionEvent;
use breakout_core::vec2::reflect;
use breakout_core::vec2::with_len;
use breakout_core::vec2::Vec2i;
use breakout_core::VEL_UNIT;

fn norm_sq(v: Vec2i) -> i64 {
    v.x * v.x + v.y * v.y
}

fn assert_unit(v: Vec2i) {
    // |v| == VEL_UNIT up to the integer tolerance: squared length in
    // [VEL_UNIT^2 - 4*VEL_UNIT - 1, (VEL_UNIT + 1)^2].
    let ns = norm_sq(v);
    assert!(ns >= VEL_UNIT * VEL_UNIT - 4 * VEL_UNIT - 1, "norm_sq {} too small", ns);
    assert!(ns <= (VEL_UNIT + 1) * (VEL_UNIT + 1), "norm_sq {} too large", ns);
}

#[test]
fn isqrt_exact_values() {
    assert_eq!(isqrt(0), 0);
    assert_eq!(isqrt(1), 1);
    assert_eq!(isqrt(2), 1);
    assert_eq!(isqrt(4), 2);
    assert_eq!(isqrt(99), 9);
    assert_eq!(isqrt(100), 10);
    assert_eq!(isqrt(1_000_000_000_000), 1_000_000);
}

#[test]
fn with_len_pythagorean_is_exact() {
    // (300, 400) has length 500; rescaled to 1000 it is exactly
    // (600, 800).
    let w = with_len(Vec2i { x: 300, y: 400 }, 1000);
    assert_eq!(w, Vec2i { x: 600, y: 800 });
}

#[test]
fn with_len_diagonal_is_near_unit() {
    let w = with_len(Vec2i { x: 1, y: 1 }, VEL_UNIT);
    assert_unit(w);
    assert_eq!(w.x, w.y);
    assert!(w.x > 0);
}

#[test]
fn with_len_keeps_signs() {
    let w = with_len(Vec2i { x: -3000, y: 4000 }, 1000);
    assert_eq!(w, Vec2i { x: -600, y: 800 });
}

#[test]
fn reflect_off_horizontal_surface_flips_y() {
    // Velocity straight down, normal straight up: the reflection goes
    // straight up, scaled by |n|^2.
    let v = Vec2i { x: 0, y: -1024 };
    let n = Vec2i { x: 0, y: 1024 };
    let w = reflect(v, n);
    assert_eq!(w.x, 0);
    assert_eq!(w.y, 1024 * 1024 * 1024);
}

#[test]
fn reflect_preserves_scaled_norm() {
    let v = Vec2i { x: 724, y: -724 };
    let n = Vec2i { x: 3, y: 4 };
    let w = reflect(v, n);
    // |w|^2 == |n|^4 * |v|^2 exactly.
    let s = norm_sq(n);
    assert_eq!(norm_sq(w), s * s * norm_sq(v));
}

#[test]
fn bounce_pushes_ball_out_to_radius() {
    // Ball centre 4 units above the contact, radius 5: the correction
    // moves it straight up to 5 units; the velocity flips from down to
    // up exactly, since everything is axis-aligned.
    let mut pos = Vec2i { x: 10_000, y: 9_000 };
    let mut vel = Vec2i { x: 0, y: -1024 };
    resolve_bounce(5_000, &mut pos, &mut vel, Vec2i { x: 10_000, y: 5_000 });
    assert_eq!(pos, Vec2i { x: 10_000, y: 10_000 });
    assert_eq!(vel, Vec2i { x: 0, y: 1024 });
}

#[test]
fn bounce_diagonal_velocity_stays_unit() {
    let mut pos = Vec2i { x: 10_000, y: 9_000 };
    let mut vel = Vec2i { x: 724, y: -724 };
    resolve_bounce(5_000, &mut pos, &mut vel, Vec2i { x: 10_000, y: 5_000 });
    // reflection across the vertical normal flips y and keeps x.
    assert!(vel.x > 0);
    assert!(vel.y > 0);
    assert_unit(vel);
    // no residual penetration: distance from the contact is the radius
    // within tolerance.
    let dx = pos.x - 10_000;
    let dy = pos.y - 5_000;
    let d2 = dx * dx + dy * dy;
    assert!(d2 >= 5_000 * 5_000 - 4 * 5_000 - 1);
    assert!(d2 <= 5_001 * 5_001);
}

#[test]
fn bounce_at_zero_distance_is_skipped() {
    // Centre exactly on the contact point: no direction to push along,
    // the event is skipped and nothing changes.
    let mut pos = Vec2i { x: 10_000, y: 5_000 };
    let mut vel = Vec2i { x: 0, y: -1024 };
    resolve_bounce(5_000, &mut pos, &mut vel, Vec2i { x: 10_000, y: 5_000 });
    assert_eq!(pos, Vec2i { x: 10_000, y: 5_000 });
    assert_eq!(vel, Vec2i { x: 0, y: -1024 });
}

fn ball_event(contact: Vec2i) -> CollisionEvent {
    CollisionEvent { entity1: BodyId::Ball, entity2: BodyId::Wall(0), collision_point: contact }
}

#[test]
fn speed_multiplier_grows_by_tenths_and_caps() {
    let config = GameConfig::standard();
    // cap of the stock configuration: 2.5, stored as 25 tenths.
    assert_eq!(config.ball_max_speed_multiplier, 25);
    let mut ball = GameBall {
        velocity: Vec2i { x: 0, y: -1024 },
        radius: config.ball_radius,
        speed: config.ball_speed,
        speed_mul: 10,
        state: GameBallState::Detached,
        color: config.ball_base_color,
    };
    let mut pos = Vec2i { x: 10_000, y: 9_000 };
    let events = vec![ball_event(Vec2i { x: 10_000, y: 5_000 })];
    let mut last_mul = ball.speed_mul;
    for _ in 0..20 {
        ball_collision(&config, &mut ball, &mut pos, &events);
        // monotonically non-decreasing, never above the cap.
        assert!(ball.speed_mul >= last_mul);
        assert!(ball.speed_mul <= config.ball_max_speed_multiplier);
        last_mul = ball.speed_mul;
    }
    // after 20 bounces the cap is long reached.
    assert_eq!(ball.speed_mul, 25);
}

#[test]
fn ball_colour_blends_with_speed() {
    let config = GameConfig::standard();
    let mut ball = GameBall {
        velocity: Vec2i { x: 0, y: -1024 },
        radius: config.ball_radius,
        speed: config.ball_speed,
        speed_mul: 12,
        state: GameBallState::Detached,
        color: config.ball_base_color,
    };
    let mut pos = Vec2i { x: 10_000, y: 9_000 };
    let events = vec![ball_event(Vec2i { x: 10_000, y: 5_000 })];
    ball_collision(&config, &mut ball, &mut pos, &events);
    assert_eq!(ball.speed_mul, 13);
    // mix ratio (13 - 10) / (25 - 10): each channel interpolates
    // linearly from the base towards the top-speed colour.
    let expected = mix_color(config.ball_base_color, config.ball_max_speed_color, 3, 15);
    assert_eq!(ball.color, expected);
    // channel values, computed by hand: (base*(den-num) + target*num)/den.
    assert_eq!(expected, ColorRgb { r: 44, g: 138, b: 76 });
}

#[test]
fn launch_detaches_towards_cursor() {
    let config = GameConfig::standard();
    let mut ball = GameBall {
        velocity: Vec2i { x: 0, y: 0 },
        radius: config.ball_radius,
        speed: config.ball_speed,
        speed_mul: 10,
        state: GameBallState::Attached,
        color: config.ball_base_color,
    };
    let pos = Vec2i { x: 100_000, y: 20_000 };
    let cursor = Vec2i { x: 130_000, y: 60_000 };
    ball_event_handler(&config, &mut ball, pos, cursor);
    assert!(matches!(ball.state, GameBallState::Detached));
    assert_unit(ball.velocity);
    // aim offset (30000, 40000): the direction keeps its quadrant and
    // roughly the 3:4 slope.
    assert!(ball.velocity.x > 0 && ball.velocity.y > 0);
    assert!((ball.velocity.y * 3 - ball.velocity.x * 4).abs() <= 4);
}

#[test]
fn retract_resets_ball() {
    let config = GameConfig::standard();
    let mut ball = GameBall {
        velocity: Vec2i { x: 0, y: 1024 },
        radius: config.ball_radius,
        speed: config.ball_speed,
        speed_mul: 19,
        state: GameBallState::Detached,
        color: ColorRgb { r: 1, g: 2, b: 3 },
    };
    ball_event_handler(
        &config,
        &mut ball,
        Vec2i { x: 100_000, y: 20_000 },
        Vec2i { x: 0, y: 0 },
    );
    assert!(matches!(ball.state, GameBallState::Attached));
    assert_eq!(ball.velocity, Vec2i { x: 0, y: 0 });
    assert_eq!(ball.speed_mul, 10);
    assert_eq!(ball.color, config.ball_base_color);
}

#[test]
fn launch_with_cursor_on_ball_stays_attached() {
    let config = GameConfig::standard();
    let mut ball = GameBall {
        velocity: Vec2i { x: 0, y: 0 },
        radius: config.ball_radius,
        speed: config.ball_speed,
        speed_mul: 10,
        state: GameBallState::Attached,
        color: config.ball_base_color,
    };
    let pos = Vec2i { x: 100_000, y: 20_000 };
    ball_event_handler(&config, &mut ball, pos, pos);
    assert!(matches!(ball.state, GameBallState::Attached));
    assert_eq!(ball.velocity, Vec2i { x: 0, y: 0 });
}
