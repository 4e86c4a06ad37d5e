//! Whole rounds: spawning, the carried ball, and full ticks.

use breakout_core::ball::ball_movement;
use breakout_core::ball::GameBallState;
use breakout_core::config::GameConfig;
use breakout_core::physics::BodyId;
use breakout_core::physics::Rectangle;
use breakout_core::round::Round;
use breakout_core::round::TickInput;
use breakout_core::vec2::Vec2i;

fn idle_input() -> TickInput {
    TickInput {
        move_left: false,
        move_right: false,
        launch: false,
        cursor: Vec2i { x: 0, y: 0 },
        dt_ms: 16,
    }
}

#[test]
fn new_round_has_everything_in_place() {
    let config = GameConfig::standard();
    let round = Round::new(config);
    assert!(matches!(round.ball.state, GameBallState::Attached));
    assert_eq!(round.ball.speed_mul, 10);
    assert_eq!(round.score.score, 0);
    assert_eq!(round.lifes.max, 5);
    assert_eq!(round.lifes.current, 5);
    assert_eq!(round.bricks_count.total, 45);
    assert_eq!(round.bricks_count.current, 45);
    assert_eq!(round.bricks.len(), 45);
    assert_eq!(round.walls.len(), 4);
    assert!(!round.round_over());
}

#[test]
fn new_round_spawn_geometry() {
    let config = GameConfig::standard();
    let round = Round::new(config);
    // the platform takes its shape and speed from the config and
    // starts centred at the bottom of the scene.
    assert_eq!(round.platform.width, config.platform_width);
    assert_eq!(round.platform.height, config.platform_height);
    assert_eq!(round.platform.speed, config.platform_speed);
    assert_eq!(round.platform_pos, Vec2i { x: 100_000, y: 10_000 });
    assert_eq!(round.ball_pos, Vec2i { x: 100_000, y: 50_000 });
    assert_eq!(round.ball.radius, config.ball_radius);
    assert_eq!(round.ball.speed, config.ball_speed);
    assert_eq!(round.ball.velocity, Vec2i { x: 0, y: 0 });
    // four border walls: top, bottom, left, right.
    let top_bottom = Rectangle { width: 200_000, height: 1_000 };
    let left_right = Rectangle { width: 1_000, height: 350_000 };
    assert_eq!(round.walls[0], (top_bottom, Vec2i { x: 100_000, y: 350_000 }));
    assert_eq!(round.walls[1], (top_bottom, Vec2i { x: 100_000, y: 0 }));
    assert_eq!(round.walls[2], (left_right, Vec2i { x: 0, y: 175_000 }));
    assert_eq!(round.walls[3], (left_right, Vec2i { x: 200_000, y: 175_000 }));
}

#[test]
fn attached_ball_is_carried_by_the_platform() {
    // Ball attached to a platform at (50, 20), platform height 10,
    // ball radius 5: the position is forced to (50, 30) every tick,
    // whatever it was before.
    let config = GameConfig::standard();
    let round = Round::new(config);
    let mut pos = Vec2i { x: 999_000, y: -777_000 };
    ball_movement(
        &round.ball,
        &mut pos,
        Vec2i { x: 50_000, y: 20_000 },
        10_000,
        16,
    );
    assert_eq!(pos, Vec2i { x: 50_000, y: 30_000 });
}

#[test]
fn carried_ball_follows_platform_through_ticks() {
    let config = GameConfig::standard();
    let mut round = Round::new(config);
    let mut input = idle_input();
    input.move_right = true;
    for _ in 0..10 {
        let out = round.tick(input);
        assert!(!out.end_game);
        // the attached ball sits centred above the platform.
        assert_eq!(round.ball_pos.x, round.platform_pos.x);
        assert_eq!(
            round.ball_pos.y,
            round.platform_pos.y + round.platform.height / 2 + round.ball.radius
        );
    }
    // the platform moved right from the centre of the scene.
    assert!(round.platform_pos.x > config.scene_width / 2);
}

#[test]
fn launch_then_fly_upwards() {
    let config = GameConfig::standard();
    let mut round = Round::new(config);
    // settle the ball onto the platform first.
    round.tick(idle_input());
    let start_y = round.ball_pos.y;
    let mut input = idle_input();
    input.launch = true;
    input.cursor = Vec2i { x: round.ball_pos.x, y: start_y + 100_000 };
    round.tick(input);
    assert!(matches!(round.ball.state, GameBallState::Detached));
    // straight up at 100 units/s: each further 16 ms tick adds 1.6
    // units of height.
    let y_after_launch = round.ball_pos.y;
    round.tick(idle_input());
    assert_eq!(round.ball_pos.y, y_after_launch + 1_600);
    assert_eq!(round.ball_pos.x, round.platform_pos.x);
}

#[test]
fn detector_reports_the_touched_brick() {
    let config = GameConfig::standard();
    let mut round = Round::new(config);
    // put the flying ball just under the first brick: its centre is
    // 3 units from the brick's bottom edge, within the 5 unit radius.
    round.ball.state = GameBallState::Detached;
    round.ball.velocity = Vec2i { x: 0, y: 1024 };
    round.ball_pos = Vec2i { x: 20_000, y: 222_000 };
    let events = round.detect_collisions();
    assert_eq!(events.len(), 1);
    assert_eq!(events[0].entity1, BodyId::Ball);
    assert_eq!(events[0].entity2, BodyId::Brick(0));
    assert_eq!(events[0].collision_point, Vec2i { x: 20_000, y: 225_000 });
}

#[test]
fn detector_reports_nothing_for_a_fresh_round() {
    let config = GameConfig::standard();
    let mut round = Round::new(config);
    // settle the ball onto the platform, then scan: the resting ball
    // touches nothing (it sits exactly at radius distance).
    round.tick(idle_input());
    let events = round.detect_collisions();
    assert!(events.is_empty());
}

#[test]
fn a_full_round_plays_to_the_end() {
    // Play a deterministic round: launch straight up and let the ball
    // bounce between the walls and the bricks until the bricks or the
    // lives run out.
    let config = GameConfig::standard();
    let mut round = Round::new(config);
    round.tick(idle_input());
    let mut input = idle_input();
    input.launch = true;
    input.cursor = Vec2i { x: round.ball_pos.x + 33_000, y: round.ball_pos.y + 100_000 };
    round.tick(input);
    let mut score_before = round.score.score;
    let mut ended = false;
    let mut aim_flip = 1i64;
    for _ in 0..20_000 {
        // if a lost life re-attached the ball, launch it again.
        let mut input = idle_input();
        if matches!(round.ball.state, GameBallState::Attached) {
            input.launch = true;
            input.cursor = Vec2i {
                x: round.ball_pos.x + aim_flip * 27_000,
                y: round.ball_pos.y + 100_000,
            };
            aim_flip = -aim_flip;
        }
        let out = round.tick(input);
        // score only grows, exactly by the reported hits.
        assert_eq!(round.score.score, score_before + out.brick_hits);
        score_before = round.score.score;
        // the remaining bricks always match the counter and keep
        // positive health.
        assert_eq!(round.bricks_count.current as usize, round.bricks.len());
        for b in &round.bricks {
            assert!(b.health >= 1);
        }
        // the speed multiplier stays within its cap.
        assert!(round.ball.speed_mul >= 10);
        assert!(round.ball.speed_mul <= config.ball_max_speed_multiplier);
        // the end signal comes exactly when lives or bricks run out.
        assert_eq!(
            out.end_game,
            round.lifes.current == 0 || round.bricks_count.current == 0
        );
        assert_eq!(out.end_game, round.round_over());
        if out.end_game {
            ended = true;
            break;
        }
    }
    assert!(ended, "the round should end within the tick budget");
    assert!(round.score.score > 0, "some bricks should have been hit");
}
