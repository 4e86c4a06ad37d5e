//! Bricks: spawning the grid, and the resolver that damages and
//! removes bricks when the ball hits them.

use vstd::arithmetic::mul::lemma_mul_inequality;
use vstd::arithmetic::mul::lemma_mul_nonnegative;
use vstd::prelude::*;

use crate::config::grid_origin_x_of;
use crate::config::grid_origin_y_of;
use crate::config::GameConfig;
use crate::physics::in_world;
use crate::physics::BodyId;
use crate::physics::CollisionEvent;
use crate::physics::Rectangle;
use crate::vec2::Vec2i;
use crate::COORD_LIMIT;

verus! {

/// One brick: a static rectangle with hit points.  A brick with no
/// hit points left is removed from the round, so every brick in a
/// round's list has `health >= 1`.
#[derive(Clone, Copy, PartialEq, Eq, Structural, Debug)]
pub struct GameBrick {
    pub id: u32,
    pub pos: Vec2i,
    pub rect: Rectangle,
    pub health: u32,
}

impl GameBrick {
    pub open spec fn wf(self) -> bool {
        &&& self.rect.wf()
        &&& in_world(self.pos)
        &&& 1 <= self.health
    }
}

/// How many bricks the round started with and how many are left.
#[derive(Clone, Copy, PartialEq, Eq, Structural, Debug)]
pub struct BricksCount {
    pub total: u32,
    pub current: u32,
}

/// The running score: one point per brick hit.
#[derive(Clone, Copy, PartialEq, Eq, Structural, Debug)]
pub struct Score {
    pub score: u32,
}

/// Sum of the hit points of all bricks in the list.
pub open spec fn total_health(s: Seq<GameBrick>) -> int
    decreases s.len(),
{
    if s.len() == 0 {
        0
    } else {
        total_health(s.drop_last()) + s.last().health
    }
}

pub proof fn lemma_total_health_nonneg(s: Seq<GameBrick>)
    ensures
        total_health(s) >= 0,
    decreases s.len(),
{
    if s.len() > 0 {
        lemma_total_health_nonneg(s.drop_last());
    }
}

proof fn lemma_total_health_update(s: Seq<GameBrick>, i: int, b: GameBrick)
    requires
        0 <= i < s.len(),
    ensures
        total_health(s.update(i, b)) == total_health(s) - s[i].health + b.health,
    decreases s.len(),
{
    if i == s.len() - 1 {
        assert(s.update(i, b).drop_last() =~= s.drop_last());
    } else {
        assert(s.update(i, b).drop_last() =~= s.drop_last().update(i, b));
        lemma_total_health_update(s.drop_last(), i, b);
    }
}

proof fn lemma_total_health_remove(s: Seq<GameBrick>, i: int)
    requires
        0 <= i < s.len(),
    ensures
        total_health(s.remove(i)) == total_health(s) - s[i].health,
    decreases s.len(),
{
    if i == s.len() - 1 {
        assert(s.remove(i) =~= s.drop_last());
    } else {
        assert(s.remove(i).drop_last() =~= s.drop_last().remove(i));
        assert(s.remove(i).last() == s.last());
        lemma_total_health_remove(s.drop_last(), i);
    }
}

proof fn lemma_total_health_at_least_elem(s: Seq<GameBrick>, i: int)
    requires
        0 <= i < s.len(),
    ensures
        total_health(s) >= s[i].health,
    decreases s.len(),
{
    lemma_total_health_nonneg(s.drop_last());
    if i < s.len() - 1 {
        lemma_total_health_at_least_elem(s.drop_last(), i);
    }
}

/// No two bricks of the list share an id, so an id names at most one
/// brick.
pub open spec fn unique_ids(s: Seq<GameBrick>) -> bool {
    forall|i: int, j: int|
        0 <= i < j < s.len() ==> (#[trigger] s[i]).id != (#[trigger] s[j]).id
}

proof fn lemma_remove_keeps_unique_ids(s: Seq<GameBrick>, k: int)
    requires
        unique_ids(s),
        0 <= k < s.len(),
    ensures
        unique_ids(s.remove(k)),
{
    let r = s.remove(k);
    assert forall|i: int, j: int| 0 <= i < j < r.len() implies (#[trigger] r[i]).id != (
    #[trigger] r[j]).id by {
        let io = if i < k {
            i
        } else {
            i + 1
        };
        let jo = if j < k {
            j
        } else {
            j + 1
        };
        assert(r[i] == s[io] && r[j] == s[jo]);
    }
}

proof fn lemma_update_keeps_unique_ids(s: Seq<GameBrick>, k: int, b: GameBrick)
    requires
        unique_ids(s),
        0 <= k < s.len(),
        b.id == s[k].id,
    ensures
        unique_ids(s.update(k, b)),
{
}

/// Every hit keeps the ids unique: a hit only removes a brick or
/// lowers one brick's health.
pub proof fn lemma_events_keep_unique_ids(s: Seq<GameBrick>, events: Seq<CollisionEvent>)
    requires
        unique_ids(s),
    ensures
        unique_ids(bricks_after_events(s, events)),
    decreases events.len(),
{
    if events.len() > 0 {
        lemma_events_keep_unique_ids(s, events.drop_last());
        let prev = bricks_after_events(s, events.drop_last());
        match events.last().entity2 {
            BodyId::Brick(id) => {
                let i = brick_index(prev, id);
                lemma_brick_index(prev, id);
                if i != -1 {
                    if prev[i].health <= 1 {
                        lemma_remove_keeps_unique_ids(prev, i);
                    } else {
                        lemma_update_keeps_unique_ids(
                            prev,
                            i,
                            GameBrick { health: (prev[i].health - 1) as u32, ..prev[i] },
                        );
                    }
                }
            },
            _ => {},
        }
    }
}

/// Index of the first brick with the given id, or -1 when no brick in
/// the list has it.
pub open spec fn brick_index(s: Seq<GameBrick>, id: u32) -> int
    decreases s.len(),
{
    if s.len() == 0 {
        -1
    } else if s[0].id == id {
        0
    } else {
        let r = brick_index(s.drop_first(), id);
        if r == -1 {
            -1
        } else {
            r + 1
        }
    }
}

pub proof fn lemma_brick_index(s: Seq<GameBrick>, id: u32)
    ensures
        brick_index(s, id) == -1 ==> forall|k: int|
            0 <= k < s.len() ==> (#[trigger] s[k]).id != id,
        brick_index(s, id) != -1 ==> 0 <= brick_index(s, id) < s.len() && s[brick_index(s, id)].id
            == id,
    decreases s.len(),
{
    if s.len() > 0 && s[0].id != id {
        lemma_brick_index(s.drop_first(), id);
        if brick_index(s, id) == -1 {
            assert forall|k: int| 0 <= k < s.len() implies (#[trigger] s[k]).id != id by {
                if k > 0 {
                    assert(s[k] == s.drop_first()[k - 1]);
                }
            }
        }
    }
}

proof fn lemma_brick_index_of_scan(s: Seq<GameBrick>, id: u32, j: int)
    requires
        0 <= j < s.len(),
        s[j].id == id,
        forall|k: int| 0 <= k < j ==> (#[trigger] s[k]).id != id,
    ensures
        brick_index(s, id) == j,
    decreases s.len(),
{
    if j > 0 {
        lemma_brick_index_of_scan(s.drop_first(), id, j - 1);
    }
}

/// One hit on the brick with the given id: its health drops by one,
/// and it leaves the list when the health reaches zero.  A hit on an
/// id that is no longer in the list does nothing.
pub open spec fn hit_brick(s: Seq<GameBrick>, id: u32) -> Seq<GameBrick> {
    let i = brick_index(s, id);
    if i == -1 {
        s
    } else if s[i].health <= 1 {
        s.remove(i)
    } else {
        s.update(i, GameBrick { health: (s[i].health - 1) as u32, ..s[i] })
    }
}

/// The brick list after the whole event queue of one tick: every event
/// whose static side is a brick costs that brick one hit point.
pub open spec fn bricks_after_events(s: Seq<GameBrick>, events: Seq<CollisionEvent>) -> Seq<
    GameBrick,
>
    decreases events.len(),
{
    if events.len() == 0 {
        s
    } else {
        let prev = bricks_after_events(s, events.drop_last());
        match events.last().entity2 {
            BodyId::Brick(id) => hit_brick(prev, id),
            _ => prev,
        }
    }
}

/// Find the brick with the given id.
fn find_brick(bricks: &Vec<GameBrick>, id: u32) -> (r: Option<usize>)
    ensures
        r matches Some(j) ==> 0 <= j < bricks@.len() && brick_index(bricks@, id) == j
            && bricks@[j as int].id == id,
        r is None ==> brick_index(bricks@, id) == -1,
{
    let mut i: usize = 0;
    while i < bricks.len()
        invariant
            i <= bricks@.len(),
            forall|k: int| 0 <= k < i ==> (#[trigger] bricks@[k]).id != id,
        decreases bricks@.len() - i,
    {
        if bricks[i].id == id {
            proof {
                lemma_brick_index_of_scan(bricks@, id, i as int);
            }
            return Some(i);
        }
        i = i + 1;
    }
    proof {
        lemma_brick_index(bricks@, id);
    }
    None
}

/// The brick resolver: each event that hits a brick takes one hit
/// point and scores one point; a brick at zero hit points is removed
/// and the remaining-bricks counter drops.  Returns how many hits
/// landed (for the sound cue) and whether the round ends because no
/// brick is left.
///
/// The score plus the remaining hit points is conserved, so the score
/// can never overflow its counter.
pub fn bricks_collision(
    bricks: &mut Vec<GameBrick>,
    bricks_count: &mut BricksCount,
    score: &mut Score,
    events: &Vec<CollisionEvent>,
) -> (r: (u32, bool))
    requires
        forall|k: int| 0 <= k < old(bricks)@.len() ==> (#[trigger] old(bricks)@[k]).wf(),
        old(bricks_count).current == old(bricks)@.len(),
        old(score).score + total_health(old(bricks)@) <= 0xffffffff,
    ensures
        final(bricks)@ == bricks_after_events(old(bricks)@, events@),
        forall|k: int| 0 <= k < final(bricks)@.len() ==> (#[trigger] final(bricks)@[k]).wf(),
        final(bricks_count).current == final(bricks)@.len(),
        final(bricks_count).current <= old(bricks_count).current,
        final(bricks_count).total == old(bricks_count).total,
        // score and remaining hit points are conserved
        final(score).score + total_health(final(bricks)@) == old(score).score + total_health(
            old(bricks)@,
        ),
        old(score).score <= final(score).score,
        r.0 == total_health(old(bricks)@) - total_health(final(bricks)@),
        r.1 == (final(bricks_count).current == 0),
{
    let ghost s0 = bricks@;
    let ghost th0 = total_health(s0);
    let ghost score0 = score.score as int;
    proof {
        lemma_total_health_nonneg(s0);
    }
    let mut hits: u32 = 0;
    let mut i: usize = 0;
    while i < events.len()
        invariant
            i <= events@.len(),
            bricks@ == bricks_after_events(s0, events@.take(i as int)),
            forall|k: int| 0 <= k < bricks@.len() ==> (#[trigger] bricks@[k]).wf(),
            bricks_count.current == bricks@.len(),
            bricks@.len() <= s0.len(),
            bricks_count.total == old(bricks_count).total,
            score.score == score0 + th0 - total_health(bricks@),
            hits == th0 - total_health(bricks@),
            0 <= total_health(bricks@) <= th0,
            0 <= score0,
            score0 + th0 <= 0xffffffff,
            score0 <= score.score,
        decreases events@.len() - i,
    {
        let e = events[i];
        proof {
            assert(events@.take(i + 1).drop_last() =~= events@.take(i as int));
            assert(events@.take(i + 1).last() == events@[i as int]);
        }
        match e.entity2 {
            BodyId::Brick(id) => {
                match find_brick(bricks, id) {
                    Some(j) => {
                        let b = bricks[j];
                        proof {
                            lemma_total_health_at_least_elem(bricks@, j as int);
                        }
                        if b.health == 1 {
                            proof {
                                lemma_total_health_remove(bricks@, j as int);
                            }
                            bricks.remove(j);
                            bricks_count.current = bricks_count.current - 1;
                        } else {
                            let nb = GameBrick {
                                id: b.id,
                                pos: b.pos,
                                rect: b.rect,
                                health: b.health - 1,
                            };
                            proof {
                                lemma_total_health_update(bricks@, j as int, nb);
                            }
                            bricks.set(j, nb);
                        }
                        score.score = score.score + 1;
                        hits = hits + 1;
                    },
                    None => {},
                }
            },
            _ => {},
        }
        i = i + 1;
    }
    proof {
        assert(events@.take(events@.len() as int) =~= events@);
    }
    let end = bricks_count.current == 0;
    (hits, end)
}

/// The centres of a `rows` by `cols` grid of bricks, column by column,
/// bottom row first within each column: the layout of a fresh round.
pub fn spawn_grid(
    pos: Vec2i,
    rows: u32,
    cols: u32,
    width: i64,
    height: i64,
    gap_x: i64,
    gap_y: i64,
) -> (grid: Vec<Vec2i>)
    requires
        0 < rows <= 1000,
        0 < cols <= 1000,
        0 < width <= COORD_LIMIT,
        0 < height <= COORD_LIMIT,
        0 <= gap_x <= COORD_LIMIT,
        0 <= gap_y <= COORD_LIMIT,
        -COORD_LIMIT <= grid_origin_x_of(pos.x as int, cols as int, width as int, gap_x as int),
        grid_origin_x_of(pos.x as int, cols as int, width as int, gap_x as int) + (cols - 1) * (
        width + gap_x) <= COORD_LIMIT,
        -COORD_LIMIT <= grid_origin_y_of(pos.y as int, rows as int, height as int, gap_y as int),
        grid_origin_y_of(pos.y as int, rows as int, height as int, gap_y as int) + (rows - 1) * (
        height + gap_y) <= COORD_LIMIT,
    ensures
        grid@.len() == cols * rows,
        forall|k: int|
            0 <= k < grid@.len() ==> (#[trigger] grid@[k]).x == grid_origin_x_of(
                pos.x as int,
                cols as int,
                width as int,
                gap_x as int,
            ) + (k / (rows as int)) * (width + gap_x) && grid@[k].y == grid_origin_y_of(
                pos.y as int,
                rows as int,
                height as int,
                gap_y as int,
            ) + (k % (rows as int)) * (height + gap_y),
        forall|k: int| 0 <= k < grid@.len() ==> in_world(#[trigger] grid@[k]),
{
    let step_x: i64 = width + gap_x;
    let step_y: i64 = height + gap_y;
    proof {
        assert(0 <= step_x * (((cols - 1) as int) / 2) <= 2000000 * 500) by (nonlinear_arith)
            requires
                0 <= ((cols - 1) as int) / 2 <= 500,
                0 < step_x <= 2000000,
        ;
        assert(0 <= step_y * (((rows - 1) as int) / 2) <= 2000000 * 500) by (nonlinear_arith)
            requires
                0 <= ((rows - 1) as int) / 2 <= 500,
                0 < step_y <= 2000000,
        ;
    }
    let ox: i64 = if cols % 2 == 0 {
        pos.x - (gap_x / 2 + width / 2) - step_x * (((cols - 1) / 2) as i64)
    } else {
        pos.x - step_x * (((cols - 1) / 2) as i64)
    };
    let oy: i64 = if rows % 2 == 0 {
        pos.y + (gap_y / 2 + height / 2) - step_y * (((rows - 1) / 2) as i64)
    } else {
        pos.y + step_y * (((rows - 1) / 2) as i64)
    };
    let ghost gox = grid_origin_x_of(pos.x as int, cols as int, width as int, gap_x as int);
    let ghost goy = grid_origin_y_of(pos.y as int, rows as int, height as int, gap_y as int);
    assert(ox == gox && oy == goy);
    let mut grid: Vec<Vec2i> = Vec::new();
    let mut c: u32 = 0;
    while c < cols
        invariant
            0 <= c <= cols,
            cols <= 1000,
            rows <= 1000,
            grid@.len() == c * rows,
            ox == gox,
            oy == goy,
            -COORD_LIMIT <= gox,
            gox + (cols - 1) * (step_x as int) <= COORD_LIMIT,
            -COORD_LIMIT <= goy,
            goy + (rows - 1) * (step_y as int) <= COORD_LIMIT,
            step_x == width + gap_x,
            step_y == height + gap_y,
            0 < step_x <= 2000000,
            0 < step_y <= 2000000,
            forall|k: int|
                0 <= k < grid@.len() ==> (#[trigger] grid@[k]).x == gox + (k / (rows as int)) * (
                step_x as int) && grid@[k].y == goy + (k % (rows as int)) * (step_y as int),
            forall|k: int| 0 <= k < grid@.len() ==> in_world(#[trigger] grid@[k]),
        decreases cols - c,
    {
        proof {
            lemma_mul_nonnegative(c as int, step_x as int);
            lemma_mul_inequality(c as int, (cols - 1) as int, step_x as int);
        }
        let px: i64 = ox + (c as i64) * step_x;
        let mut rw: u32 = 0;
        while rw < rows
            invariant
                0 <= rw <= rows,
                0 <= c < cols,
                cols <= 1000,
                rows <= 1000,
                grid@.len() == c * rows + rw,
                ox == gox,
                oy == goy,
                -COORD_LIMIT <= gox,
                gox + (cols - 1) * (step_x as int) <= COORD_LIMIT,
                -COORD_LIMIT <= goy,
                goy + (rows - 1) * (step_y as int) <= COORD_LIMIT,
                step_x == width + gap_x,
                step_y == height + gap_y,
                0 < step_x <= 2000000,
                0 < step_y <= 2000000,
                px == gox + (c as int) * (step_x as int),
                -COORD_LIMIT <= px <= COORD_LIMIT,
                forall|k: int|
                    0 <= k < grid@.len() ==> (#[trigger] grid@[k]).x == gox + (k / (rows as int))
                        * (step_x as int) && grid@[k].y == goy + (k % (rows as int)) * (
                    step_y as int),
                forall|k: int| 0 <= k < grid@.len() ==> in_world(#[trigger] grid@[k]),
            decreases rows - rw,
        {
            proof {
                lemma_mul_nonnegative(rw as int, step_y as int);
                lemma_mul_inequality(rw as int, (rows - 1) as int, step_y as int);
            }
            let py: i64 = oy + (rw as i64) * step_y;
            grid.push(Vec2i { x: px, y: py });
            proof {
                let k = grid@.len() - 1;
                assert(k == c * rows + rw);
                vstd::arithmetic::div_mod::lemma_fundamental_div_mod_converse(
                    k,
                    rows as int,
                    c as int,
                    rw as int,
                );
            }
            rw = rw + 1;
        }
        c = c + 1;
        proof {
            assert(c * rows == (c - 1) * rows + rows) by (nonlinear_arith);
        }
    }
    grid
}

/// Spawn the bricks of a fresh round: the configured grid, every
/// brick at full health, with ids numbering the grid cells.
pub fn bricks_spawn(config: &GameConfig) -> (r: (Vec<GameBrick>, BricksCount))
    requires
        config.wf(),
    ensures
        r.0@.len() == config.bricks_cols * config.bricks_rows,
        forall|k: int| 0 <= k < r.0@.len() ==> (#[trigger] r.0@[k]).wf(),
        forall|k: int| 0 <= k < r.0@.len() ==> (#[trigger] r.0@[k]).id == k,
        forall|k: int|
            0 <= k < r.0@.len() ==> (#[trigger] r.0@[k]).health == config.bricks_health
                && r.0@[k].rect == (Rectangle {
                width: config.bricks_width,
                height: config.bricks_height,
            }) && r.0@[k].pos.x == config.grid_origin_x() + (k / (config.bricks_rows as int))
                * config.grid_step_x() && r.0@[k].pos.y == config.grid_origin_y() + (k % (
            config.bricks_rows as int)) * config.grid_step_y(),
        r.1.total == r.0@.len(),
        r.1.current == r.0@.len(),
        total_health(r.0@) == r.0@.len() * config.bricks_health,
{
    let grid = spawn_grid(
        Vec2i { x: config.bricks_pos_x, y: config.bricks_pos_y },
        config.bricks_rows,
        config.bricks_cols,
        config.bricks_width,
        config.bricks_height,
        config.bricks_gap_x,
        config.bricks_gap_y,
    );
    let rect = Rectangle { width: config.bricks_width, height: config.bricks_height };
    let mut bricks: Vec<GameBrick> = Vec::new();
    let mut k: usize = 0;
    proof {
        assert(grid@.len() <= 1000000) by (nonlinear_arith)
            requires
                grid@.len() == config.bricks_cols * config.bricks_rows,
                0 < config.bricks_cols <= 1000,
                0 < config.bricks_rows <= 1000,
        ;
    }
    while k < grid.len()
        invariant
            0 <= k <= grid@.len(),
            grid@.len() <= 1000000,
            bricks@.len() == k,
            config.wf(),
            rect == (Rectangle { width: config.bricks_width, height: config.bricks_height }),
            forall|j: int|
                0 <= j < grid@.len() ==> (#[trigger] grid@[j]).x == config.grid_origin_x() + (j / (
                config.bricks_rows as int)) * config.grid_step_x() && grid@[j].y
                    == config.grid_origin_y() + (j % (config.bricks_rows as int))
                    * config.grid_step_y(),
            forall|j: int| 0 <= j < grid@.len() ==> in_world(#[trigger] grid@[j]),
            forall|j: int| 0 <= j < k ==> (#[trigger] bricks@[j]).wf(),
            forall|j: int| 0 <= j < k ==> (#[trigger] bricks@[j]).id == j,
            forall|j: int|
                0 <= j < k ==> (#[trigger] bricks@[j]).health == config.bricks_health
                    && bricks@[j].rect == rect && bricks@[j].pos == grid@[j],
            total_health(bricks@) == k * config.bricks_health,
        decreases grid@.len() - k,
    {
        let b = GameBrick {
            id: k as u32,
            pos: grid[k],
            rect: rect,
            health: config.bricks_health,
        };
        let ghost prev = bricks@;
        bricks.push(b);
        proof {
            assert(bricks@.drop_last() =~= prev);
            assert(total_health(bricks@) == total_health(prev) + config.bricks_health);
            assert(total_health(bricks@) == (k + 1) * config.bricks_health) by (nonlinear_arith)
                requires
                    total_health(bricks@) == total_health(prev) + config.bricks_health,
                    total_health(prev) == k * config.bricks_health,
            ;
        }
        k = k + 1;
    }
    let total32: u32 = grid.len() as u32;
    (bricks, BricksCount { total: total32, current: total32 })
}

} // verus!
