//! One round of the game: the bodies, the per-tick pipeline
//! (movement, detection, resolution, life tracking) and the end-of-
//! round condition.

use vstd::prelude::*;

use crate::ball::ball_collision;
use crate::ball::ball_event_handler;
use crate::ball::ball_move_spec;
use crate::ball::ball_movement;
use crate::ball::bounce_fold;
use crate::ball::resolved_ball;
use crate::ball::toggled_ball;
use crate::ball::GameBall;
use crate::ball::GameBallState;
use crate::bricks::bricks_after_events;
use crate::bricks::bricks_collision;
use crate::bricks::bricks_spawn;
use crate::bricks::lemma_events_keep_unique_ids;
use crate::bricks::total_health;
use crate::bricks::unique_ids;
use crate::bricks::BricksCount;
use crate::bricks::GameBrick;
use crate::bricks::Score;
use crate::config::GameConfig;
use crate::physics::ball_rect_collision;
use crate::physics::circle_rect_collides;
use crate::physics::closest_x;
use crate::physics::closest_y;
use crate::physics::contact_in_range;
use crate::physics::in_play;
use crate::physics::in_world;
use crate::physics::overlap_contact_x;
use crate::physics::overlap_contact_y;
use crate::physics::rect_rect_collision;
use crate::physics::rects_overlap;
use crate::physics::Ball;
use crate::physics::BodyId;
use crate::physics::CollisionEvent;
use crate::physics::Rectangle;
use crate::platform::life_step_spec;
use crate::platform::platform_collision;
use crate::platform::platform_lifes;
use crate::platform::platform_move_spec;
use crate::platform::platform_movement;
use crate::platform::platform_x_after_events;
use crate::platform::GamePlatform;
use crate::platform::PlatformLifes;
use crate::vec2::lemma_norm_sq_component_bounds;
use crate::vec2::Vec2i;
use crate::COORD_LIMIT;
use crate::DT_LIMIT;
use crate::PLATFORM_LIMIT;

verus! {

/// The polled input of one tick.
#[derive(Clone, Copy, PartialEq, Eq, Structural, Debug)]
pub struct TickInput {
    pub move_left: bool,
    pub move_right: bool,
    pub launch: bool,
    pub cursor: Vec2i,
    pub dt_ms: i64,
}

/// The signals one tick emits for the host (UI, audio, lifecycle).
#[derive(Clone, Copy, PartialEq, Eq, Structural, Debug)]
pub struct TickOutcome {
    pub end_game: bool,
    pub brick_hits: u32,
    pub life_lost: bool,
}

/// All state of one round.
#[derive(Debug)]
pub struct Round {
    pub config: GameConfig,
    pub ball: GameBall,
    pub ball_pos: Vec2i,
    pub platform: GamePlatform,
    pub platform_pos: Vec2i,
    pub bricks: Vec<GameBrick>,
    pub walls: Vec<(Rectangle, Vec2i)>,
    pub lifes: PlatformLifes,
    pub score: Score,
    pub bricks_count: BricksCount,
}

impl Round {
    /// The ball's collision shape.
    pub open spec fn ball_shape(self) -> Ball {
        Ball { radius: self.ball.radius }
    }

    /// The platform's collision shape.
    pub open spec fn platform_rect(self) -> Rectangle {
        Rectangle { width: self.platform.width, height: self.platform.height }
    }

    /// The invariant of a round, preserved by every tick.
    pub open spec fn wf(self) -> bool {
        &&& self.config.wf()
        &&& self.ball.wf(self.config)
        &&& in_play(self.ball_pos)
        &&& self.platform.wf()
        &&& in_play(self.platform_pos)
        &&& -PLATFORM_LIMIT <= self.platform_pos.x <= PLATFORM_LIMIT
        &&& -COORD_LIMIT <= self.platform_pos.y <= COORD_LIMIT
        &&& forall|i: int| 0 <= i < self.bricks@.len() ==> (#[trigger] self.bricks@[i]).wf()
        &&& unique_ids(self.bricks@)
        &&& forall|i: int|
            0 <= i < self.walls@.len() ==> (#[trigger] self.walls@[i]).0.wf() && in_world(
                self.walls@[i].1,
            )
        &&& self.lifes.wf()
        &&& self.score.score + total_health(self.bricks@) <= 0xffffffff
        &&& self.bricks_count.current == self.bricks@.len()
    }

    /// The round ends exactly when the lives or the bricks run out.
    pub fn round_over(&self) -> (r: bool)
        ensures
            r == (self.lifes.current == 0 || self.bricks_count.current == 0),
    {
        self.lifes.current == 0 || self.bricks_count.current == 0
    }
}

/// The event the detector reports for the ball touching brick `i`.
pub open spec fn ball_brick_event(r: Round, i: int) -> CollisionEvent {
    CollisionEvent {
        entity1: BodyId::Ball,
        entity2: BodyId::Brick(r.bricks@[i].id),
        collision_point: Vec2i {
            x: closest_x(r.ball_pos, r.bricks@[i].rect, r.bricks@[i].pos) as i64,
            y: closest_y(r.ball_pos, r.bricks@[i].rect, r.bricks@[i].pos) as i64,
        },
    }
}

/// The event the detector reports for the ball touching the platform.
pub open spec fn ball_platform_event(r: Round) -> CollisionEvent {
    CollisionEvent {
        entity1: BodyId::Ball,
        entity2: BodyId::Platform,
        collision_point: Vec2i {
            x: closest_x(r.ball_pos, r.platform_rect(), r.platform_pos) as i64,
            y: closest_y(r.ball_pos, r.platform_rect(), r.platform_pos) as i64,
        },
    }
}

/// The event the detector reports for the ball touching wall `i`.
pub open spec fn ball_wall_event(r: Round, i: int) -> CollisionEvent {
    CollisionEvent {
        entity1: BodyId::Ball,
        entity2: BodyId::Wall(i as u32),
        collision_point: Vec2i {
            x: closest_x(r.ball_pos, r.walls@[i].0, r.walls@[i].1) as i64,
            y: closest_y(r.ball_pos, r.walls@[i].0, r.walls@[i].1) as i64,
        },
    }
}

/// The event the detector reports for the platform overlapping wall `i`.
pub open spec fn platform_wall_event(r: Round, i: int) -> CollisionEvent {
    CollisionEvent {
        entity1: BodyId::Platform,
        entity2: BodyId::Wall(i as u32),
        collision_point: Vec2i {
            x: overlap_contact_x(r.platform_rect(), r.platform_pos, r.walls@[i].0, r.walls@[i].1)
                as i64,
            y: overlap_contact_y(r.platform_rect(), r.platform_pos, r.walls@[i].0, r.walls@[i].1)
                as i64,
        },
    }
}

/// An event the detector is allowed to report: some pair of bodies of
/// the round collides right now, and the event is that pair's event.
pub open spec fn valid_event(r: Round, e: CollisionEvent) -> bool {
    ||| exists|i: int|
        0 <= i < r.bricks@.len() && e == ball_brick_event(r, i) && circle_rect_collides(
            r.ball_shape(),
            r.ball_pos,
            (#[trigger] r.bricks@[i]).rect,
            r.bricks@[i].pos,
        )
    ||| e == ball_platform_event(r) && circle_rect_collides(
        r.ball_shape(),
        r.ball_pos,
        r.platform_rect(),
        r.platform_pos,
    )
    ||| exists|i: int|
        0 <= i < r.walls@.len() && e == ball_wall_event(r, i) && circle_rect_collides(
            r.ball_shape(),
            r.ball_pos,
            (#[trigger] r.walls@[i]).0,
            r.walls@[i].1,
        )
    ||| exists|i: int|
        0 <= i < r.walls@.len() && e == platform_wall_event(r, i) && rects_overlap(
            r.platform_rect(),
            r.platform_pos,
            (#[trigger] r.walls@[i]).0,
            r.walls@[i].1,
        )
}

/// The events of the ball against the first `n` bricks, in brick
/// order.
pub open spec fn brick_events_upto(r: Round, n: int) -> Seq<CollisionEvent>
    decreases n,
{
    if n <= 0 {
        Seq::empty()
    } else {
        let prefix = brick_events_upto(r, n - 1);
        if circle_rect_collides(
            r.ball_shape(),
            r.ball_pos,
            r.bricks@[n - 1].rect,
            r.bricks@[n - 1].pos,
        ) {
            prefix.push(ball_brick_event(r, n - 1))
        } else {
            prefix
        }
    }
}

/// The event of the ball against the platform, if any.
pub open spec fn platform_event_opt(r: Round) -> Seq<CollisionEvent> {
    if circle_rect_collides(r.ball_shape(), r.ball_pos, r.platform_rect(), r.platform_pos) {
        seq![ball_platform_event(r)]
    } else {
        Seq::empty()
    }
}

/// The events of the ball against the first `n` walls, in wall order.
pub open spec fn ball_wall_events_upto(r: Round, n: int) -> Seq<CollisionEvent>
    decreases n,
{
    if n <= 0 {
        Seq::empty()
    } else {
        let prefix = ball_wall_events_upto(r, n - 1);
        if circle_rect_collides(r.ball_shape(), r.ball_pos, r.walls@[n - 1].0, r.walls@[n - 1].1) {
            prefix.push(ball_wall_event(r, n - 1))
        } else {
            prefix
        }
    }
}

/// The events of the platform against the first `n` walls, in wall
/// order.
pub open spec fn platform_wall_events_upto(r: Round, n: int) -> Seq<CollisionEvent>
    decreases n,
{
    if n <= 0 {
        Seq::empty()
    } else {
        let prefix = platform_wall_events_upto(r, n - 1);
        if rects_overlap(r.platform_rect(), r.platform_pos, r.walls@[n - 1].0, r.walls@[n - 1].1) {
            prefix.push(platform_wall_event(r, n - 1))
        } else {
            prefix
        }
    }
}

/// The whole event queue of one detector pass, in the order the
/// detector emits it: bricks, then the platform, then the walls for
/// the ball, then the walls for the platform.
pub open spec fn detected_events(r: Round) -> Seq<CollisionEvent> {
    brick_events_upto(r, r.bricks@.len() as int) + platform_event_opt(r) + ball_wall_events_upto(
        r,
        r.walls@.len() as int,
    ) + platform_wall_events_upto(r, r.walls@.len() as int)
}

/// The round after the first half of a tick: the launch toggle (when
/// the launch input is pressed) and the movement of the platform and
/// the ball.  Bricks, walls and counters are untouched by movement.
pub open spec fn moved_round(r: Round, input: TickInput) -> Round {
    let ball = if input.launch {
        toggled_ball(r.config, r.ball, r.ball_pos, input.cursor)
    } else {
        r.ball
    };
    let platform_pos = platform_move_spec(
        r.platform,
        r.platform_pos,
        input.move_left,
        input.move_right,
        input.dt_ms,
    );
    let ball_pos = ball_move_spec(ball, r.ball_pos, platform_pos, r.platform.height, input.dt_ms);
    Round { ball, ball_pos, platform_pos, ..r }
}

/// The value of a round after one tick, field by field (the brick
/// list as a sequence), together with the emitted signals.
pub struct TickState {
    pub ball: GameBall,
    pub ball_pos: Vec2i,
    pub platform_pos: Vec2i,
    pub bricks: Seq<GameBrick>,
    pub score: u32,
    pub lifes: PlatformLifes,
    pub bricks_count: BricksCount,
    pub outcome: TickOutcome,
}

/// What one tick does, as a mathematical function: the composition of
/// the step specifications proved of each stage — the launch toggle
/// and the movement formulas, the detector queue of the moved state,
/// the three resolver folds over that queue, and the life-tracker
/// step.
pub open spec fn tick_spec(r: Round, input: TickInput) -> TickState {
    let m = moved_round(r, input);
    let events = detected_events(m);
    let ball = resolved_ball(r.config, m.ball, m.ball_pos, events);
    let ball_pos = bounce_fold(m.ball_pos, m.ball.velocity, m.ball.radius as int, events).0;
    let bricks = bricks_after_events(r.bricks@, events);
    let hits = total_health(r.bricks@) - total_health(bricks);
    let platform_pos = Vec2i {
        x: platform_x_after_events(
            m.platform_pos.x as int,
            r.platform.width as int,
            events,
        ) as i64,
        y: m.platform_pos.y,
    };
    let stepped = life_step_spec(r.config, r.lifes, ball, ball_pos, platform_pos);
    TickState {
        ball: stepped.1,
        ball_pos,
        platform_pos,
        bricks,
        score: (r.score.score + hits) as u32,
        lifes: stepped.0,
        bricks_count: BricksCount {
            total: r.bricks_count.total,
            current: bricks.len() as u32,
        },
        outcome: TickOutcome {
            end_game: stepped.0.current == 0 || bricks.len() == 0,
            brick_hits: hits as u32,
            life_lost: stepped.0.current < r.lifes.current,
        },
    }
}

proof fn lemma_concat_contains(a: Seq<CollisionEvent>, b: Seq<CollisionEvent>, x: CollisionEvent)
    ensures
        (a + b).contains(x) <==> a.contains(x) || b.contains(x),
{
    if (a + b).contains(x) {
        let k = choose|k: int| 0 <= k < (a + b).len() && (a + b)[k] == x;
        if k < a.len() {
            assert(a[k] == x);
        } else {
            assert(b[k - a.len()] == x);
        }
    }
    if a.contains(x) {
        let k = choose|k: int| 0 <= k < a.len() && a[k] == x;
        assert((a + b)[k] == x);
    }
    if b.contains(x) {
        let k = choose|k: int| 0 <= k < b.len() && b[k] == x;
        assert((a + b)[a.len() + k] == x);
    }
}

/// Every event of the ball-versus-walls queue names a wall, hit by
/// the ball.
proof fn lemma_ball_wall_events_shape(r: Round, n: int)
    ensures
        forall|x: CollisionEvent|
            #[trigger] ball_wall_events_upto(r, n).contains(x) ==> x.entity2 is Wall && x.entity1
                is Ball,
    decreases n,
{
    if n > 0 {
        lemma_ball_wall_events_shape(r, n - 1);
        let prefix = ball_wall_events_upto(r, n - 1);
        let cur = ball_wall_events_upto(r, n);
        if circle_rect_collides(r.ball_shape(), r.ball_pos, r.walls@[n - 1].0, r.walls@[n - 1].1) {
            lemma_push_contains(prefix, ball_wall_event(r, n - 1));
            assert forall|x: CollisionEvent| #[trigger] cur.contains(x) implies x.entity2
                is Wall && x.entity1 is Ball by {
                assert(prefix.contains(x) || x == ball_wall_event(r, n - 1));
            }
        }
    }
}

/// Every event of the platform-versus-walls queue names a wall, hit
/// by the platform.
proof fn lemma_platform_wall_events_shape(r: Round, n: int)
    ensures
        forall|x: CollisionEvent|
            #[trigger] platform_wall_events_upto(r, n).contains(x) ==> x.entity2 is Wall
                && x.entity1 is Platform,
    decreases n,
{
    if n > 0 {
        lemma_platform_wall_events_shape(r, n - 1);
        let prefix = platform_wall_events_upto(r, n - 1);
        let cur = platform_wall_events_upto(r, n);
        if rects_overlap(r.platform_rect(), r.platform_pos, r.walls@[n - 1].0, r.walls@[n - 1].1) {
            lemma_push_contains(prefix, platform_wall_event(r, n - 1));
            assert forall|x: CollisionEvent| #[trigger] cur.contains(x) implies x.entity2
                is Wall && x.entity1 is Platform by {
                assert(prefix.contains(x) || x == platform_wall_event(r, n - 1));
            }
        }
    }
}

/// Every event of the ball-versus-bricks queue names a brick.
proof fn lemma_brick_events_shape(r: Round, n: int)
    ensures
        forall|x: CollisionEvent|
            #[trigger] brick_events_upto(r, n).contains(x) ==> x.entity2 is Brick && x.entity1
                is Ball,
    decreases n,
{
    if n > 0 {
        lemma_brick_events_shape(r, n - 1);
        let prefix = brick_events_upto(r, n - 1);
        let cur = brick_events_upto(r, n);
        if circle_rect_collides(
            r.ball_shape(),
            r.ball_pos,
            r.bricks@[n - 1].rect,
            r.bricks@[n - 1].pos,
        ) {
            lemma_push_contains(prefix, ball_brick_event(r, n - 1));
            assert forall|x: CollisionEvent| #[trigger] cur.contains(x) implies x.entity2
                is Brick && x.entity1 is Ball by {
                assert(prefix.contains(x) || x == ball_brick_event(r, n - 1));
            }
        }
    }
}

/// A brick the ball misses has no event among the brick events.
proof fn lemma_missed_brick_not_in_prefix(r: Round, i: int, n: int)
    requires
        crate::bricks::unique_ids(r.bricks@),
        0 <= i < r.bricks@.len(),
        n <= r.bricks@.len(),
        !circle_rect_collides(r.ball_shape(), r.ball_pos, r.bricks@[i].rect, r.bricks@[i].pos),
    ensures
        !brick_events_upto(r, n).contains(ball_brick_event(r, i)),
    decreases n,
{
    let e = ball_brick_event(r, i);
    if n > 0 {
        lemma_missed_brick_not_in_prefix(r, i, n - 1);
        if circle_rect_collides(
            r.ball_shape(),
            r.ball_pos,
            r.bricks@[n - 1].rect,
            r.bricks@[n - 1].pos,
        ) {
            lemma_push_contains(brick_events_upto(r, n - 1), ball_brick_event(r, n - 1));
            // the pushed event belongs to a colliding brick; since ids
            // are unique, it cannot be brick `i`'s event.
            if ball_brick_event(r, n - 1) == e {
                assert(r.bricks@[n - 1].id == r.bricks@[i].id);
                assert(n - 1 == i);
            }
        }
    }
}

/// The negative side of the detection rule, at queue level: for a
/// brick whose distance from the ball is at least the radius, the
/// detector queue holds no event.  Together with the detector's
/// completeness clause this pins exactly which bricks are reported.
pub proof fn lemma_missed_brick_has_no_event(r: Round, i: int)
    requires
        r.wf(),
        0 <= i < r.bricks@.len(),
        !circle_rect_collides(r.ball_shape(), r.ball_pos, r.bricks@[i].rect, r.bricks@[i].pos),
    ensures
        !detected_events(r).contains(ball_brick_event(r, i)),
{
    let e = ball_brick_event(r, i);
    let a = brick_events_upto(r, r.bricks@.len() as int);
    let b = platform_event_opt(r);
    let c = ball_wall_events_upto(r, r.walls@.len() as int);
    let d = platform_wall_events_upto(r, r.walls@.len() as int);
    lemma_missed_brick_not_in_prefix(r, i, r.bricks@.len() as int);
    if b.contains(e) {
        let k = choose|k: int| 0 <= k < b.len() && b[k] == e;
        assert(e == ball_platform_event(r));
        assert(false);
    }
    lemma_ball_wall_events_shape(r, r.walls@.len() as int);
    lemma_platform_wall_events_shape(r, r.walls@.len() as int);
    lemma_concat_contains(a, b, e);
    lemma_concat_contains(a + b, c, e);
    lemma_concat_contains(a + b + c, d, e);
}

/// The negative side of the detection rule for the platform: when the
/// ball's distance from the platform is at least the radius, the
/// queue holds no ball-platform event.
pub proof fn lemma_missed_platform_has_no_event(r: Round)
    requires
        r.wf(),
        !circle_rect_collides(r.ball_shape(), r.ball_pos, r.platform_rect(), r.platform_pos),
    ensures
        !detected_events(r).contains(ball_platform_event(r)),
{
    let e = ball_platform_event(r);
    let a = brick_events_upto(r, r.bricks@.len() as int);
    let b = platform_event_opt(r);
    let c = ball_wall_events_upto(r, r.walls@.len() as int);
    let d = platform_wall_events_upto(r, r.walls@.len() as int);
    lemma_brick_events_shape(r, r.bricks@.len() as int);
    lemma_ball_wall_events_shape(r, r.walls@.len() as int);
    lemma_platform_wall_events_shape(r, r.walls@.len() as int);
    lemma_concat_contains(a, b, e);
    lemma_concat_contains(a + b, c, e);
    lemma_concat_contains(a + b + c, d, e);
}

/// A wall the ball misses has no event among the ball-wall events.
proof fn lemma_missed_wall_not_in_prefix(r: Round, i: int, n: int)
    requires
        0 <= i < r.walls@.len(),
        r.walls@.len() <= 0xffffffff,
        n <= r.walls@.len(),
        !circle_rect_collides(r.ball_shape(), r.ball_pos, r.walls@[i].0, r.walls@[i].1),
    ensures
        !ball_wall_events_upto(r, n).contains(ball_wall_event(r, i)),
    decreases n,
{
    let e = ball_wall_event(r, i);
    if n > 0 {
        lemma_missed_wall_not_in_prefix(r, i, n - 1);
        if circle_rect_collides(r.ball_shape(), r.ball_pos, r.walls@[n - 1].0, r.walls@[n - 1].1) {
            lemma_push_contains(ball_wall_events_upto(r, n - 1), ball_wall_event(r, n - 1));
            if ball_wall_event(r, n - 1) == e {
                assert((n - 1) as u32 == i as u32);
                assert(n - 1 == i);
            }
        }
    }
}

/// The negative side of the detection rule for the walls: when the
/// ball's distance from a wall is at least the radius, the queue
/// holds no event for the ball and that wall.
pub proof fn lemma_missed_wall_has_no_ball_event(r: Round, i: int)
    requires
        r.wf(),
        0 <= i < r.walls@.len(),
        r.walls@.len() <= 0xffffffff,
        !circle_rect_collides(r.ball_shape(), r.ball_pos, r.walls@[i].0, r.walls@[i].1),
    ensures
        !detected_events(r).contains(ball_wall_event(r, i)),
{
    let e = ball_wall_event(r, i);
    let a = brick_events_upto(r, r.bricks@.len() as int);
    let b = platform_event_opt(r);
    let c = ball_wall_events_upto(r, r.walls@.len() as int);
    let d = platform_wall_events_upto(r, r.walls@.len() as int);
    lemma_brick_events_shape(r, r.bricks@.len() as int);
    lemma_missed_wall_not_in_prefix(r, i, r.walls@.len() as int);
    lemma_platform_wall_events_shape(r, r.walls@.len() as int);
    if b.contains(e) {
        let k = choose|k: int| 0 <= k < b.len() && b[k] == e;
        assert(e == ball_platform_event(r));
        assert(false);
    }
    lemma_concat_contains(a, b, e);
    lemma_concat_contains(a + b, c, e);
    lemma_concat_contains(a + b + c, d, e);
}

proof fn lemma_concat_push(a: Seq<CollisionEvent>, b: Seq<CollisionEvent>, e: CollisionEvent)
    ensures
        (a + b).push(e) == a + b.push(e),
{
    assert((a + b).push(e) =~= a + b.push(e));
}

proof fn lemma_push_contains(s: Seq<CollisionEvent>, e: CollisionEvent)
    ensures
        forall|x: CollisionEvent| #[trigger] s.push(e).contains(x) <==> s.contains(x) || x == e,
{
    assert forall|x: CollisionEvent| #[trigger] s.push(e).contains(x) implies s.contains(x) || x
        == e by {
        let k = choose|k: int| 0 <= k < s.push(e).len() && s.push(e)[k] == x;
        if k < s.len() {
            assert(s[k] == x);
        }
    };
    assert forall|x: CollisionEvent| s.contains(x) || x == e implies #[trigger] s.push(e).contains(
        x,
    ) by {
        if s.contains(x) {
            let k = choose|k: int| 0 <= k < s.len() && s[k] == x;
            assert(s.push(e)[k] == x);
        } else {
            assert(s.push(e)[s.len() as int] == x);
        }
    };
}

impl Round {
    /// The detector pass of one tick: scan the ball against every
    /// rectangle (bricks, platform, walls) and the platform against
    /// every wall, over the frozen position snapshot, and queue an
    /// event for every colliding pair.
    ///
    /// Completeness: every colliding pair's event is in the queue.
    /// Soundness: everything in the queue is the event of a pair that
    /// collides right now.  The queue as a whole is pinned, in order,
    /// by `detected_events`.
    #[verifier::rlimit(60)]
    pub fn detect_collisions(&self) -> (events: Vec<CollisionEvent>)
        requires
            self.wf(),
        ensures
            forall|i: int|
                0 <= i < self.bricks@.len() && circle_rect_collides(
                    self.ball_shape(),
                    self.ball_pos,
                    (#[trigger] self.bricks@[i]).rect,
                    self.bricks@[i].pos,
                ) ==> events@.contains(ball_brick_event(*self, i)),
            circle_rect_collides(
                self.ball_shape(),
                self.ball_pos,
                self.platform_rect(),
                self.platform_pos,
            ) ==> events@.contains(ball_platform_event(*self)),
            forall|i: int|
                0 <= i < self.walls@.len() && circle_rect_collides(
                    self.ball_shape(),
                    self.ball_pos,
                    (#[trigger] self.walls@[i]).0,
                    self.walls@[i].1,
                ) ==> events@.contains(ball_wall_event(*self, i)),
            forall|i: int|
                0 <= i < self.walls@.len() && rects_overlap(
                    self.platform_rect(),
                    self.platform_pos,
                    (#[trigger] self.walls@[i]).0,
                    self.walls@[i].1,
                ) ==> events@.contains(platform_wall_event(*self, i)),
            forall|k: int| 0 <= k < events@.len() ==> valid_event(*self, #[trigger] events@[k]),
            forall|k: int|
                0 <= k < events@.len() ==> contact_in_range(
                    (#[trigger] events@[k]).collision_point,
                ),
            forall|k: int|
                0 <= k < events@.len() && events@[k].entity1 == BodyId::Platform ==> -1_500_000 <= (
                #[trigger] events@[k]).collision_point.x <= 1_500_000,
            events@ == detected_events(*self),
    {
        let ball_shape = Ball { radius: self.ball.radius };
        let mut events: Vec<CollisionEvent> = Vec::new();
        let mut i: usize = 0;
        while i < self.bricks.len()
            invariant
                self.wf(),
                ball_shape == self.ball_shape(),
                i <= self.bricks@.len(),
                events@ == brick_events_upto(*self, i as int),
                forall|j: int|
                    0 <= j < i && circle_rect_collides(
                        self.ball_shape(),
                        self.ball_pos,
                        (#[trigger] self.bricks@[j]).rect,
                        self.bricks@[j].pos,
                    ) ==> events@.contains(ball_brick_event(*self, j)),
                forall|k: int| 0 <= k < events@.len() ==> valid_event(*self, #[trigger] events@[k]),
                forall|k: int|
                    0 <= k < events@.len() ==> contact_in_range(
                        (#[trigger] events@[k]).collision_point,
                    ),
                forall|k: int|
                    0 <= k < events@.len() && events@[k].entity1 == BodyId::Platform
                        ==> -1_500_000 <= (#[trigger] events@[k]).collision_point.x <= 1_500_000,
            decreases self.bricks@.len() - i,
        {
            let b = &self.bricks[i];
            let hit = ball_rect_collision(&ball_shape, self.ball_pos, &b.rect, b.pos);
            match hit {
                Some(c) => {
                    let e = CollisionEvent {
                        entity1: BodyId::Ball,
                        entity2: BodyId::Brick(b.id),
                        collision_point: c,
                    };
                    let ghost prev = events@;
                    events.push(e);
                    proof {
                        lemma_push_contains(prev, e);
                        assert(e == ball_brick_event(*self, i as int));
                        assert(valid_event(*self, e));
                    }
                },
                None => {},
            }
            i = i + 1;
        }
        let platform_rect = Rectangle { width: self.platform.width, height: self.platform.height };
        let hit = ball_rect_collision(&ball_shape, self.ball_pos, &platform_rect,
            self.platform_pos);
        match hit {
            Some(c) => {
                let e = CollisionEvent {
                    entity1: BodyId::Ball,
                    entity2: BodyId::Platform,
                    collision_point: c,
                };
                let ghost prev = events@;
                events.push(e);
                proof {
                    lemma_push_contains(prev, e);
                    assert(e == ball_platform_event(*self));
                    assert(valid_event(*self, e));
                    assert(events@ =~= prev + platform_event_opt(*self));
                }
            },
            None => {
                proof {
                    assert(events@ =~= events@ + platform_event_opt(*self));
                }
            },
        }
        let ghost head = brick_events_upto(*self, self.bricks@.len() as int) + platform_event_opt(
            *self,
        );
        proof {
            assert(events@ =~= head + ball_wall_events_upto(*self, 0));
        }
        let mut w: usize = 0;
        while w < self.walls.len()
            invariant
                self.wf(),
                ball_shape == self.ball_shape(),
                platform_rect == self.platform_rect(),
                w <= self.walls@.len(),
                forall|j: int|
                    0 <= j < self.bricks@.len() && circle_rect_collides(
                        self.ball_shape(),
                        self.ball_pos,
                        (#[trigger] self.bricks@[j]).rect,
                        self.bricks@[j].pos,
                    ) ==> events@.contains(ball_brick_event(*self, j)),
                circle_rect_collides(
                    self.ball_shape(),
                    self.ball_pos,
                    self.platform_rect(),
                    self.platform_pos,
                ) ==> events@.contains(ball_platform_event(*self)),
                forall|j: int|
                    0 <= j < w && circle_rect_collides(
                        self.ball_shape(),
                        self.ball_pos,
                        (#[trigger] self.walls@[j]).0,
                        self.walls@[j].1,
                    ) ==> events@.contains(ball_wall_event(*self, j)),
                forall|k: int| 0 <= k < events@.len() ==> valid_event(*self, #[trigger] events@[k]),
                forall|k: int|
                    0 <= k < events@.len() ==> contact_in_range(
                        (#[trigger] events@[k]).collision_point,
                    ),
                forall|k: int|
                    0 <= k < events@.len() && events@[k].entity1 == BodyId::Platform
                        ==> -1_500_000 <= (#[trigger] events@[k]).collision_point.x <= 1_500_000,
                head == brick_events_upto(*self, self.bricks@.len() as int) + platform_event_opt(
                    *self,
                ),
                events@ == head + ball_wall_events_upto(*self, w as int),
            decreases self.walls@.len() - w,
        {
            let wall = &self.walls[w];
            let hit = ball_rect_collision(&ball_shape, self.ball_pos, &wall.0, wall.1);
            match hit {
                Some(c) => {
                    let e = CollisionEvent {
                        entity1: BodyId::Ball,
                        entity2: BodyId::Wall(w as u32),
                        collision_point: c,
                    };
                    let ghost prev = events@;
                    events.push(e);
                    proof {
                        lemma_push_contains(prev, e);
                        assert(e == ball_wall_event(*self, w as int));
                        assert(valid_event(*self, e));
                        lemma_concat_push(head, ball_wall_events_upto(*self, w as int), e);
                    }
                },
                None => {},
            }
            w = w + 1;
        }
        let ghost head2 = head + ball_wall_events_upto(*self, self.walls@.len() as int);
        proof {
            assert(events@ =~= head2 + platform_wall_events_upto(*self, 0));
        }
        let mut w2: usize = 0;
        while w2 < self.walls.len()
            invariant
                self.wf(),
                ball_shape == self.ball_shape(),
                platform_rect == self.platform_rect(),
                w2 <= self.walls@.len(),
                forall|j: int|
                    0 <= j < self.bricks@.len() && circle_rect_collides(
                        self.ball_shape(),
                        self.ball_pos,
                        (#[trigger] self.bricks@[j]).rect,
                        self.bricks@[j].pos,
                    ) ==> events@.contains(ball_brick_event(*self, j)),
                circle_rect_collides(
                    self.ball_shape(),
                    self.ball_pos,
                    self.platform_rect(),
                    self.platform_pos,
                ) ==> events@.contains(ball_platform_event(*self)),
                forall|j: int|
                    0 <= j < self.walls@.len() && circle_rect_collides(
                        self.ball_shape(),
                        self.ball_pos,
                        (#[trigger] self.walls@[j]).0,
                        self.walls@[j].1,
                    ) ==> events@.contains(ball_wall_event(*self, j)),
                forall|j: int|
                    0 <= j < w2 && rects_overlap(
                        self.platform_rect(),
                        self.platform_pos,
                        (#[trigger] self.walls@[j]).0,
                        self.walls@[j].1,
                    ) ==> events@.contains(platform_wall_event(*self, j)),
                forall|k: int| 0 <= k < events@.len() ==> valid_event(*self, #[trigger] events@[k]),
                forall|k: int|
                    0 <= k < events@.len() ==> contact_in_range(
                        (#[trigger] events@[k]).collision_point,
                    ),
                forall|k: int|
                    0 <= k < events@.len() && events@[k].entity1 == BodyId::Platform
                        ==> -1_500_000 <= (#[trigger] events@[k]).collision_point.x <= 1_500_000,
                head2 == brick_events_upto(*self, self.bricks@.len() as int) + platform_event_opt(
                    *self,
                ) + ball_wall_events_upto(*self, self.walls@.len() as int),
                events@ == head2 + platform_wall_events_upto(*self, w2 as int),
            decreases self.walls@.len() - w2,
        {
            let wall = &self.walls[w2];
            let hit = rect_rect_collision(&platform_rect, self.platform_pos, &wall.0, wall.1);
            match hit {
                Some(c) => {
                    let e = CollisionEvent {
                        entity1: BodyId::Platform,
                        entity2: BodyId::Wall(w2 as u32),
                        collision_point: c,
                    };
                    let ghost prev = events@;
                    events.push(e);
                    proof {
                        lemma_push_contains(prev, e);
                        assert(e == platform_wall_event(*self, w2 as int));
                        assert(valid_event(*self, e));
                        lemma_concat_push(head2, platform_wall_events_upto(*self, w2 as int), e);
                    }
                },
                None => {},
            }
            w2 = w2 + 1;
        }
        events
    }

    /// Start a round: the ball attached at the platform, the brick
    /// grid at full health, all lives, score zero, four border walls.
    pub fn new(config: GameConfig) -> (r: Round)
        requires
            config.wf(),
        ensures
            r.wf(),
            r.config == config,
            r.ball.state == GameBallState::Attached,
            r.ball.speed_mul == crate::MUL_ONE,
            r.score.score == 0,
            r.lifes.max == config.platform_lifes,
            r.lifes.current == config.platform_lifes,
            r.bricks_count.total == config.bricks_cols * config.bricks_rows,
            r.bricks_count.current == r.bricks_count.total,
            r.bricks@.len() == r.bricks_count.total,
            // the ball spawns at rest, at base colour, sized by the config
            r.ball == (GameBall {
                velocity: (Vec2i { x: 0, y: 0 }),
                radius: config.ball_radius,
                speed: config.ball_speed,
                speed_mul: crate::MUL_ONE,
                state: GameBallState::Attached,
                color: config.ball_base_color,
            }),
            r.ball_pos == (Vec2i { x: 100_000, y: 50_000 }),
            // the platform takes its shape and speed from the config and
            // starts centred at the bottom of the scene
            r.platform == (GamePlatform {
                width: config.platform_width,
                height: config.platform_height,
                speed: config.platform_speed,
            }),
            r.platform_pos == (Vec2i { x: (config.scene_width / 2) as i64, y: 10_000 }),
            // four border walls: scene-wide strips of thickness 1000 at
            // the top and bottom edges, scene-high strips at the left
            // and right edges
            r.walls@.len() == 4,
            r.walls@[0] == ((Rectangle { width: config.scene_width, height: 1000 }), (Vec2i {
                x: (config.scene_width / 2) as i64,
                y: config.scene_height,
            })),
            r.walls@[1] == ((Rectangle { width: config.scene_width, height: 1000 }), (Vec2i {
                x: (config.scene_width / 2) as i64,
                y: 0,
            })),
            r.walls@[2] == ((Rectangle { width: 1000, height: config.scene_height }), (Vec2i {
                x: 0,
                y: (config.scene_height / 2) as i64,
            })),
            r.walls@[3] == ((Rectangle { width: 1000, height: config.scene_height }), (Vec2i {
                x: config.scene_width,
                y: (config.scene_height / 2) as i64,
            })),
            // the brick grid, cell by cell: full health, configured
            // shape, centres on the configured grid
            forall|k: int| 0 <= k < r.bricks@.len() ==> (#[trigger] r.bricks@[k]).id == k,
            forall|k: int|
                0 <= k < r.bricks@.len() ==> (#[trigger] r.bricks@[k]).health
                    == config.bricks_health && r.bricks@[k].rect == (Rectangle {
                    width: config.bricks_width,
                    height: config.bricks_height,
                }) && r.bricks@[k].pos.x == config.grid_origin_x() + (k / (
                config.bricks_rows as int)) * config.grid_step_x() && r.bricks@[k].pos.y
                    == config.grid_origin_y() + (k % (config.bricks_rows as int))
                    * config.grid_step_y(),
    {
        let (bricks, bricks_count) = bricks_spawn(&config);
        let wall_t: i64 = 1000;
        let mut walls: Vec<(Rectangle, Vec2i)> = Vec::new();
        // top
        walls.push(
            (
                Rectangle { width: config.scene_width, height: wall_t },
                Vec2i { x: config.scene_width / 2, y: config.scene_height },
            ),
        );
        // bottom
        walls.push(
            (
                Rectangle { width: config.scene_width, height: wall_t },
                Vec2i { x: config.scene_width / 2, y: 0 },
            ),
        );
        // left
        walls.push(
            (
                Rectangle { width: wall_t, height: config.scene_height },
                Vec2i { x: 0, y: config.scene_height / 2 },
            ),
        );
        // right
        walls.push(
            (
                Rectangle { width: wall_t, height: config.scene_height },
                Vec2i { x: config.scene_width, y: config.scene_height / 2 },
            ),
        );
        proof {
            assert forall|i: int, j: int| 0 <= i < j < bricks@.len() implies (
            #[trigger] bricks@[i]).id != (#[trigger] bricks@[j]).id by {
                assert(bricks@[i].id == i && bricks@[j].id == j);
            }
        }
        let ball = GameBall::spawn(&config);
        let platform = GamePlatform {
            width: config.platform_width,
            height: config.platform_height,
            speed: config.platform_speed,
        };
        proof {
            assert(total_health(bricks@) <= 1_000_000_000) by (nonlinear_arith)
                requires
                    total_health(bricks@) == bricks@.len() * config.bricks_health,
                    bricks@.len() == config.bricks_cols * config.bricks_rows,
                    0 < config.bricks_cols <= 1000,
                    0 < config.bricks_rows <= 1000,
                    0 < config.bricks_health <= 1000000,
                    config.bricks_cols * config.bricks_rows * config.bricks_health
                        <= 1_000_000_000,
            ;
        }
        Round {
            config,
            ball,
            ball_pos: Vec2i { x: 100_000, y: 50_000 },
            platform,
            platform_pos: Vec2i { x: config.scene_width / 2, y: 10_000 },
            bricks,
            walls,
            lifes: PlatformLifes { max: config.platform_lifes, current: config.platform_lifes },
            score: Score { score: 0 },
            bricks_count,
        }
    }

    /// One simulation tick: input-driven state transitions first, then
    /// movement, detection, the three resolvers, and the life tracker.
    ///
    /// The transition is pinned exactly: the new round and the emitted
    /// signals equal `tick_spec` of the old round and the input.  The
    /// remaining clauses are the laws callers reason with directly:
    /// the round invariant is preserved; the score plus the remaining
    /// brick hit points is conserved; lives never increase; and the
    /// end-of-round signal comes exactly when the lives or the bricks
    /// have run out.
    pub fn tick(&mut self, input: TickInput) -> (out: TickOutcome)
        requires
            old(self).wf(),
            in_play(input.cursor),
            0 <= input.dt_ms <= DT_LIMIT,
        ensures
            final(self).wf(),
            final(self).config == old(self).config,
            final(self).ball.speed_mul <= final(self).config.ball_max_speed_multiplier,
            old(self).score.score <= final(self).score.score,
            final(self).score.score + total_health(final(self).bricks@) == old(self).score.score
                + total_health(old(self).bricks@),
            final(self).lifes.current <= old(self).lifes.current,
            final(self).lifes.max == old(self).lifes.max,
            final(self).bricks_count.current == final(self).bricks@.len(),
            final(self).bricks_count.current <= old(self).bricks_count.current,
            out.end_game == (final(self).lifes.current == 0 || final(self).bricks_count.current
                == 0),
            out.brick_hits == final(self).score.score - old(self).score.score,
            out.life_lost == (final(self).lifes.current < old(self).lifes.current),
            // while the ball stays in flight, the speed multiplier
            // never decreases
            old(self).ball.state == GameBallState::Detached && final(self).ball.state
                == GameBallState::Detached && !input.launch ==> old(self).ball.speed_mul
                <= final(self).ball.speed_mul,
            final(self).platform_pos.y == old(self).platform_pos.y,
            final(self).platform == old(self).platform,
            final(self).walls == old(self).walls,
            // the whole transition is pinned: the new round and the
            // emitted signals equal the composed step specifications
            final(self).ball == tick_spec(*old(self), input).ball,
            final(self).ball_pos == tick_spec(*old(self), input).ball_pos,
            final(self).platform_pos == tick_spec(*old(self), input).platform_pos,
            final(self).bricks@ == tick_spec(*old(self), input).bricks,
            final(self).score.score == tick_spec(*old(self), input).score,
            final(self).lifes == tick_spec(*old(self), input).lifes,
            final(self).bricks_count == tick_spec(*old(self), input).bricks_count,
            out == tick_spec(*old(self), input).outcome,
    {
        let lives_before = self.lifes.current;
        // 1. input-driven launch/retract transition
        if input.launch {
            ball_event_handler(&self.config, &mut self.ball, self.ball_pos, input.cursor);
        }
        // 2. movement
        platform_movement(
            &self.platform,
            &mut self.platform_pos,
            input.move_left,
            input.move_right,
            input.dt_ms,
        );
        proof {
            assert(self.ball.state == GameBallState::Attached || self.ball.state
                == GameBallState::Detached);
            assert(self.ball.velocity.norm_sq() <= 1025 * 1025);
            lemma_norm_sq_component_bounds(self.ball.velocity, 1025);
        }
        ball_movement(
            &self.ball,
            &mut self.ball_pos,
            self.platform_pos,
            self.platform.height,
            input.dt_ms,
        );
        proof {
            assert(*self == moved_round(*old(self), input));
        }
        // 3. detection
        let events = self.detect_collisions();
        proof {
            assert(events@ == detected_events(moved_round(*old(self), input)));
        }
        // 4. resolution
        ball_collision(&self.config, &mut self.ball, &mut self.ball_pos, &events);
        let ghost bricks_before = self.bricks@;
        let (hits, bricks_end) = bricks_collision(
            &mut self.bricks,
            &mut self.bricks_count,
            &mut self.score,
            &events,
        );
        proof {
            lemma_events_keep_unique_ids(bricks_before, events@);
        }
        platform_collision(&self.platform, &mut self.platform_pos, &events);
        // 5. life tracking
        let lives_end = platform_lifes(
            &self.config,
            &mut self.lifes,
            &mut self.ball,
            self.ball_pos,
            self.platform_pos,
        );
        TickOutcome {
            end_game: lives_end || bricks_end,
            brick_hits: hits,
            life_lost: self.lifes.current < lives_before,
        }
    }
}

} // verus!
