//! Collision detection: circle-vs-rectangle and rectangle-vs-rectangle.
//! Distances are in position units: a thousandth of a world unit.

use breakout_core::physics::ball_rect_collision;
use breakout_core::physics::rect_rect_collision;
use breakout_core::physics::Ball;
use breakout_core::physics::Rectangle;
use breakout_core::vec2::Vec2i;

#[test]
fn ball_on_rect_boundary_collides() {
    // Ball at (10, 10) radius 5, rectangle centred (10, 5) size 10 x 10:
    // the clamped point is (10, 10) itself, distance 0, which counts as
    // a collision; the contact point is the clamped point.
    let ball = Ball { radius: 5_000 };
    let r = ball_rect_collision(
        &ball,
        Vec2i { x: 10_000, y: 10_000 },
        &Rectangle { width: 10_000, height: 10_000 },
        Vec2i { x: 10_000, y: 5_000 },
    );
    assert_eq!(r, Some(Vec2i { x: 10_000, y: 10_000 }));
}

#[test]
fn ball_far_from_rect_does_not_collide() {
    let ball = Ball { radius: 5_000 };
    let r = ball_rect_collision(
        &ball,
        Vec2i { x: 0, y: 20_000 },
        &Rectangle { width: 10_000, height: 10_000 },
        Vec2i { x: 0, y: 0 },
    );
    assert_eq!(r, None);
}

#[test]
fn ball_touching_at_exact_radius_does_not_collide() {
    // Distance from the centre to the closest point is exactly the
    // radius: the rule is strict, so this is no collision.
    let ball = Ball { radius: 5_000 };
    let r = ball_rect_collision(
        &ball,
        Vec2i { x: 0, y: 10_000 },
        &Rectangle { width: 10_000, height: 10_000 },
        Vec2i { x: 0, y: 0 },
    );
    assert_eq!(r, None);
}

#[test]
fn ball_corner_contact() {
    // Ball near a corner: the clamped point is the corner itself.
    let ball = Ball { radius: 5_000 };
    let r = ball_rect_collision(
        &ball,
        Vec2i { x: 13_000, y: 8_000 },
        &Rectangle { width: 20_000, height: 10_000 },
        Vec2i { x: 0, y: 0 },
    );
    // corner at (10_000, 5_000); offset (3_000, 3_000), squared distance
    // 18_000_000 < 25_000_000.
    assert_eq!(r, Some(Vec2i { x: 10_000, y: 5_000 }));
}

#[test]
fn detection_is_translation_invariant() {
    // Translating both bodies by the same vector never changes the
    // outcome.
    let ball = Ball { radius: 5_000 };
    let cases = [
        (Vec2i { x: 13_000, y: 8_000 }, Vec2i { x: 0, y: 0 }),
        (Vec2i { x: 0, y: 20_000 }, Vec2i { x: 0, y: 0 }),
        (Vec2i { x: 10_000, y: 10_000 }, Vec2i { x: 10_000, y: 5_000 }),
    ];
    let shift = Vec2i { x: -37_000, y: 91_000 };
    for (bp, rp) in cases {
        let rect = Rectangle { width: 20_000, height: 10_000 };
        let plain = ball_rect_collision(&ball, bp, &rect, rp);
        let moved = ball_rect_collision(
            &ball,
            Vec2i { x: bp.x + shift.x, y: bp.y + shift.y },
            &rect,
            Vec2i { x: rp.x + shift.x, y: rp.y + shift.y },
        );
        assert_eq!(plain.is_some(), moved.is_some());
    }
}

#[test]
fn rect_rect_overlap_contact_is_intersection_centre() {
    // Platform 50 x 10 at (20, 10) against the left wall 1 x 350 at
    // (0, 175): the overlap is x in [-0.5, 0.5], y in [5, 15]; its
    // centre is (0, 10).
    let platform = Rectangle { width: 50_000, height: 10_000 };
    let wall = Rectangle { width: 1_000, height: 350_000 };
    let r = rect_rect_collision(
        &platform,
        Vec2i { x: 20_000, y: 10_000 },
        &wall,
        Vec2i { x: 0, y: 175_000 },
    );
    assert_eq!(r, Some(Vec2i { x: 0, y: 10_000 }));
}

#[test]
fn rect_rect_apart_does_not_collide() {
    let platform = Rectangle { width: 50_000, height: 10_000 };
    let wall = Rectangle { width: 1_000, height: 350_000 };
    let r = rect_rect_collision(
        &platform,
        Vec2i { x: 100_000, y: 10_000 },
        &wall,
        Vec2i { x: 0, y: 175_000 },
    );
    assert_eq!(r, None);
}

#[test]
fn rect_rect_touching_edges_collide() {
    // Touching projections count as overlap (the comparison is >=).
    let a = Rectangle { width: 10_000, height: 10_000 };
    let b = Rectangle { width: 10_000, height: 10_000 };
    let r = rect_rect_collision(&a, Vec2i { x: 10_000, y: 0 }, &b, Vec2i { x: 0, y: 0 });
    assert_eq!(r, Some(Vec2i { x: 5_000, y: 0 }));
}
