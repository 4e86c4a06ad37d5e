//! Verified core of a breakout-style arcade game.
//!
//! The crate covers the parts of the game that contain real logic: the
//! collision detector for a moving ball (a circle) against axis-aligned
//! rectangles (bricks, platform, walls) and for the platform against the
//! walls, the three collision resolvers (ball bounce, brick damage,
//! platform clamping), the ball's attach/detach state machine, and the
//! life / end-of-round tracker.  Rendering, input polling, audio and
//! window management are collaborators of the host application and are
//! not part of this library.
//!
//! All geometry is carried out on integer coordinates, so every contract
//! is exact: a "unit" velocity is a vector whose squared length lies in a
//! tight integer band around `VEL_UNIT * VEL_UNIT`, and every tolerance
//! is an explicit integer bound rather than an implicit rounding error.

use vstd::prelude::*;

pub mod ball;
pub mod bricks;
pub mod color;
pub mod config;
pub mod num;
pub mod physics;
pub mod platform;
pub mod round;
pub mod vec2;

verus! {

/// Largest magnitude allowed for the centre coordinate of a static or
/// dynamic rectangle, for a rectangle's width and height, and for the
/// ball's radius.
pub const COORD_LIMIT: i64 = 1_000_000;

/// Largest magnitude a body's position can take while it is simulated.
/// Integration clamps to this range, which is far outside any playfield
/// that fits in `COORD_LIMIT`, so that positions never overflow.
pub const POS_LIMIT: i64 = 4_000_000;

/// Largest magnitude the platform's centre coordinate can take: a
/// little outside the world, so a wall collision can still push it
/// back in.
pub const PLATFORM_LIMIT: i64 = 2_000_000;

/// Fixed-point scale of direction vectors: a "unit" velocity has length
/// (approximately) `VEL_UNIT`.
pub const VEL_UNIT: i64 = 1024;

/// Fixed-point scale of the ball's speed multiplier: `MUL_ONE` stands
/// for a multiplier of one; each bounce adds `MUL_ONE / 10`, i.e. a
/// tenth.
pub const MUL_ONE: u32 = 10;

/// Largest speed multiplier any configuration may ask for.
pub const MUL_LIMIT: u32 = 1000;

/// Largest base speed any configuration may ask for, in position units
/// per second.
pub const SPEED_LIMIT: i64 = 1_000_000;

/// Longest simulation step accepted by the integrators, in milliseconds.
pub const DT_LIMIT: i64 = 10_000;

} // verus!
