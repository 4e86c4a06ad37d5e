//! The brick resolver, the platform resolver and movement, and the
//! life tracker.

use breakout_core::ball::GameBall;
use breakout_core::ball::GameBallState;
use breakout_core::bricks::bricks_collision;
use breakout_core::bricks::bricks_spawn;
use breakout_core::bricks::BricksCount;
use breakout_core::bricks::GameBrick;
use breakout_core::bricks::Score;
use breakout_core::config::GameConfig;
use breakout_core::physics::BodyId;
use breakout_core::physics::CollisionEvent;
use breakout_core::physics::Rectangle;
use breakout_core::platform::platform_collision;
use breakout_core::platform::platform_lifes;
use breakout_core::platform::platform_movement;
use breakout_core::platform::GamePlatform;
use breakout_core::platform::PlatformLifes;
use breakout_core::vec2::Vec2i;

fn brick(id: u32, health: u32) -> GameBrick {
    GameBrick {
        id,
        pos: Vec2i { x: (id as i64) * 20_000, y: 200_000 },
        rect: Rectangle { width: 15_000, height: 10_000 },
        health,
    }
}

fn brick_hit(id: u32) -> CollisionEvent {
    CollisionEvent {
        entity1: BodyId::Ball,
        entity2: BodyId::Brick(id),
        collision_point: Vec2i { x: 0, y: 0 },
    }
}

#[test]
fn brick_with_one_health_is_removed_and_scored() {
    // Brick with health 1 hit once: health reaches 0, the brick is
    // removed, the remaining count drops by 1, the score rises by 1.
    let mut bricks = vec![brick(0, 1), brick(1, 1)];
    let mut count = BricksCount { total: 2, current: 2 };
    let mut score = Score { score: 0 };
    let events = vec![brick_hit(0)];
    let (hits, end) = bricks_collision(&mut bricks, &mut count, &mut score, &events);
    assert_eq!(hits, 1);
    assert!(!end);
    assert_eq!(bricks.len(), 1);
    assert_eq!(bricks[0].id, 1);
    assert_eq!(count.current, 1);
    assert_eq!(count.total, 2);
    assert_eq!(score.score, 1);
}

#[test]
fn last_brick_removed_ends_round() {
    let mut bricks = vec![brick(7, 1)];
    let mut count = BricksCount { total: 1, current: 1 };
    let mut score = Score { score: 41 };
    let events = vec![brick_hit(7)];
    let (hits, end) = bricks_collision(&mut bricks, &mut count, &mut score, &events);
    assert_eq!(hits, 1);
    assert!(end);
    assert_eq!(count.current, 0);
    assert_eq!(score.score, 42);
}

#[test]
fn brick_with_more_health_survives_with_less() {
    // Health never goes negative: it counts down one per hit and the
    // brick leaves the list exactly when it reaches zero.
    let mut bricks = vec![brick(3, 2)];
    let mut count = BricksCount { total: 1, current: 1 };
    let mut score = Score { score: 0 };
    let events = vec![brick_hit(3)];
    let (hits, end) = bricks_collision(&mut bricks, &mut count, &mut score, &events);
    assert_eq!(hits, 1);
    assert!(!end);
    assert_eq!(bricks.len(), 1);
    assert_eq!(bricks[0].health, 1);
    assert_eq!(count.current, 1);
    let events2 = vec![brick_hit(3)];
    let (hits2, end2) = bricks_collision(&mut bricks, &mut count, &mut score, &events2);
    assert_eq!(hits2, 1);
    assert!(end2);
    assert!(bricks.is_empty());
    assert_eq!(score.score, 2);
    for b in &bricks {
        assert!(b.health >= 1);
    }
}

#[test]
fn hit_on_removed_brick_is_a_no_op() {
    // Two events for the same brick with health 1 in one tick: the
    // second finds the brick gone and does nothing.
    let mut bricks = vec![brick(0, 1), brick(1, 3)];
    let mut count = BricksCount { total: 2, current: 2 };
    let mut score = Score { score: 0 };
    let events = vec![brick_hit(0), brick_hit(0)];
    let (hits, end) = bricks_collision(&mut bricks, &mut count, &mut score, &events);
    assert_eq!(hits, 1);
    assert!(!end);
    assert_eq!(score.score, 1);
    assert_eq!(count.current, 1);
}

#[test]
fn non_brick_events_leave_bricks_alone() {
    let mut bricks = vec![brick(0, 1)];
    let mut count = BricksCount { total: 1, current: 1 };
    let mut score = Score { score: 0 };
    let events = vec![CollisionEvent {
        entity1: BodyId::Ball,
        entity2: BodyId::Wall(2),
        collision_point: Vec2i { x: 0, y: 0 },
    }];
    let (hits, end) = bricks_collision(&mut bricks, &mut count, &mut score, &events);
    assert_eq!(hits, 0);
    assert!(!end);
    assert_eq!(bricks.len(), 1);
    assert_eq!(score.score, 0);
}

#[test]
fn grid_spawn_counts_and_health() {
    let config = GameConfig::standard();
    let (bricks, count) = bricks_spawn(&config);
    assert_eq!(bricks.len(), 45);
    assert_eq!(count.total, 45);
    assert_eq!(count.current, 45);
    for (k, b) in bricks.iter().enumerate() {
        assert_eq!(b.id, k as u32);
        assert_eq!(b.health, 1);
    }
    // the first brick sits at the grid origin; column step 20, row
    // step 15 (in thousandths).
    assert_eq!(bricks[0].pos, Vec2i { x: 20_000, y: 230_000 });
    assert_eq!(bricks[1].pos, Vec2i { x: 20_000, y: 245_000 });
    assert_eq!(bricks[5].pos, Vec2i { x: 40_000, y: 230_000 });
}

#[test]
fn platform_pushed_right_off_left_wall() {
    // Platform at x=100 half-width 25 with a wall contact at x=80:
    // the contact lies left of the centre, so the platform is pushed
    // rightwards until its left edge sits at the contact: centre
    // 80 + 25 = 105.
    let platform = GamePlatform { width: 50_000, height: 10_000, speed: 100_000 };
    let mut pos = Vec2i { x: 100_000, y: 10_000 };
    let events = vec![CollisionEvent {
        entity1: BodyId::Platform,
        entity2: BodyId::Wall(2),
        collision_point: Vec2i { x: 80_000, y: 10_000 },
    }];
    platform_collision(&platform, &mut pos, &events);
    assert_eq!(pos, Vec2i { x: 105_000, y: 10_000 });
}

#[test]
fn platform_pushed_left_off_right_wall() {
    let platform = GamePlatform { width: 50_000, height: 10_000, speed: 100_000 };
    let mut pos = Vec2i { x: 100_000, y: 10_000 };
    let events = vec![CollisionEvent {
        entity1: BodyId::Platform,
        entity2: BodyId::Wall(3),
        collision_point: Vec2i { x: 120_000, y: 10_000 },
    }];
    platform_collision(&platform, &mut pos, &events);
    assert_eq!(pos, Vec2i { x: 95_000, y: 10_000 });
}

#[test]
fn platform_moves_by_speed_times_dt() {
    let platform = GamePlatform { width: 50_000, height: 10_000, speed: 100_000 };
    let mut pos = Vec2i { x: 100_000, y: 10_000 };
    // 16 ms at 100 units/s moves 1.6 units = 1600 thousandths.
    platform_movement(&platform, &mut pos, false, true, 16);
    assert_eq!(pos, Vec2i { x: 101_600, y: 10_000 });
    platform_movement(&platform, &mut pos, true, false, 16);
    assert_eq!(pos, Vec2i { x: 100_000, y: 10_000 });
    // both keys at once cancel out.
    platform_movement(&platform, &mut pos, true, true, 16);
    assert_eq!(pos, Vec2i { x: 100_000, y: 10_000 });
}

fn detached_ball(config: &GameConfig) -> GameBall {
    GameBall {
        velocity: Vec2i { x: 0, y: -1024 },
        radius: config.ball_radius,
        speed: config.ball_speed,
        speed_mul: 17,
        state: GameBallState::Detached,
        color: config.ball_max_speed_color,
    }
}

#[test]
fn falling_past_platform_costs_a_life_and_reattaches() {
    let config = GameConfig::standard();
    let mut lifes = PlatformLifes { max: 5, current: 5 };
    let mut ball = detached_ball(&config);
    let end = platform_lifes(
        &config,
        &mut lifes,
        &mut ball,
        Vec2i { x: 50_000, y: 5_000 },
        Vec2i { x: 100_000, y: 10_000 },
    );
    assert!(!end);
    assert_eq!(lifes.current, 4);
    assert!(matches!(ball.state, GameBallState::Attached));
    assert_eq!(ball.velocity, Vec2i { x: 0, y: 0 });
    assert_eq!(ball.speed_mul, 10);
    assert_eq!(ball.color, config.ball_base_color);
}

#[test]
fn last_life_lost_ends_round() {
    let config = GameConfig::standard();
    let mut lifes = PlatformLifes { max: 5, current: 1 };
    let mut ball = detached_ball(&config);
    let end = platform_lifes(
        &config,
        &mut lifes,
        &mut ball,
        Vec2i { x: 50_000, y: 5_000 },
        Vec2i { x: 100_000, y: 10_000 },
    );
    assert!(end);
    assert_eq!(lifes.current, 0);
}

#[test]
fn ball_above_platform_loses_no_life() {
    let config = GameConfig::standard();
    let mut lifes = PlatformLifes { max: 5, current: 3 };
    let mut ball = detached_ball(&config);
    let end = platform_lifes(
        &config,
        &mut lifes,
        &mut ball,
        Vec2i { x: 50_000, y: 50_000 },
        Vec2i { x: 100_000, y: 10_000 },
    );
    assert!(!end);
    assert_eq!(lifes.current, 3);
    assert!(matches!(ball.state, GameBallState::Detached));
}

#[test]
fn attached_ball_below_platform_loses_no_life() {
    // Only a detached ball can be lost.
    let config = GameConfig::standard();
    let mut lifes = PlatformLifes { max: 5, current: 3 };
    let mut ball = detached_ball(&config);
    ball.state = GameBallState::Attached;
    ball.velocity = Vec2i { x: 0, y: 0 };
    let end = platform_lifes(
        &config,
        &mut lifes,
        &mut ball,
        Vec2i { x: 50_000, y: 5_000 },
        Vec2i { x: 100_000, y: 10_000 },
    );
    assert!(!end);
    assert_eq!(lifes.current, 3);
}

#[test]
fn volume_steps_and_clamps() {
    let mut settings = breakout_core::config::GameSettings::standard();
    assert_eq!(settings.sound_volume, 10);
    settings.volume_up();
    assert_eq!(settings.sound_volume, 11);
    settings.volume_down();
    settings.volume_down();
    assert_eq!(settings.sound_volume, 9);
    for _ in 0..200 {
        settings.volume_up();
    }
    assert_eq!(settings.sound_volume, 100);
    for _ in 0..200 {
        settings.volume_down();
    }
    assert_eq!(settings.sound_volume, 0);
    settings.volume_down();
    assert_eq!(settings.sound_volume, 0);
}
