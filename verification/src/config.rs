//! The immutable per-round configuration: shapes, speeds, colours and
//! the brick-grid layout.  It is built once when a round starts and
//! passed by reference to every component that needs it.

use vstd::prelude::*;

use crate::color::ColorRgb;
use crate::COORD_LIMIT;
use crate::MUL_LIMIT;
use crate::MUL_ONE;
use crate::SPEED_LIMIT;

verus! {

/// Adjustable player settings.  The sound volume is a percentage; the
/// host maps it to its audio backend.
#[derive(Clone, Copy, PartialEq, Eq, Structural, Debug)]
pub struct GameSettings {
    pub sound_volume: u32,
}

impl GameSettings {
    pub open spec fn wf(self) -> bool {
        self.sound_volume <= 100
    }

    /// The stock settings: a tenth of full volume.
    pub fn standard() -> (s: GameSettings)
        ensures
            s.wf(),
            s.sound_volume == 10,
    {
        GameSettings { sound_volume: 10 }
    }

    /// Raise the volume one step, clamped at full volume.
    pub fn volume_up(&mut self)
        requires
            old(self).wf(),
        ensures
            final(self).wf(),
            final(self).sound_volume == (if old(self).sound_volume >= 100 {
                100u32
            } else {
                (old(self).sound_volume + 1) as u32
            }),
    {
        if self.sound_volume >= 100 {
            self.sound_volume = 100;
        } else {
            self.sound_volume = self.sound_volume + 1;
        }
    }

    /// Lower the volume one step, clamped at silence.
    pub fn volume_down(&mut self)
        requires
            old(self).wf(),
        ensures
            final(self).wf(),
            final(self).sound_volume == (if old(self).sound_volume == 0 {
                0u32
            } else {
                (old(self).sound_volume - 1) as u32
            }),
    {
        if self.sound_volume > 0 {
            self.sound_volume = self.sound_volume - 1;
        }
    }
}

/// All scalars the physics core needs for one round.  Distances are in
/// position units (a thousandth of a world unit), speeds in position
/// units per second, the speed multiplier in `MUL_ONE` units.
#[derive(Clone, Copy, PartialEq, Eq, Structural, Debug)]
pub struct GameConfig {
    pub ball_radius: i64,
    pub ball_speed: i64,
    pub ball_max_speed_multiplier: u32,
    pub ball_base_color: ColorRgb,
    pub ball_max_speed_color: ColorRgb,
    pub bricks_pos_x: i64,
    pub bricks_pos_y: i64,
    pub bricks_width: i64,
    pub bricks_height: i64,
    pub bricks_cols: u32,
    pub bricks_rows: u32,
    pub bricks_gap_x: i64,
    pub bricks_gap_y: i64,
    pub bricks_health: u32,
    pub bricks_color: ColorRgb,
    pub platform_width: i64,
    pub platform_height: i64,
    pub platform_speed: i64,
    pub platform_lifes: u32,
    pub platform_color: ColorRgb,
    pub scene_width: i64,
    pub scene_height: i64,
    pub scene_border_color: ColorRgb,
}

/// Centre x of the first brick column for a grid of `n` columns of
/// width `extent` with gaps `gap`, anchored at `anchor`.
pub open spec fn grid_origin_x_of(anchor: int, n: int, extent: int, gap: int) -> int {
    if n % 2 == 0 {
        anchor - (gap / 2 + extent / 2) - (extent + gap) * ((n - 1) / 2)
    } else {
        anchor - (extent + gap) * ((n - 1) / 2)
    }
}

/// Centre y of the first brick row for a grid of `n` rows of height
/// `extent` with gaps `gap`, anchored at `anchor`.  The vertical
/// anchor shifts the other way than the horizontal one.
pub open spec fn grid_origin_y_of(anchor: int, n: int, extent: int, gap: int) -> int {
    if n % 2 == 0 {
        anchor + (gap / 2 + extent / 2) - (extent + gap) * ((n - 1) / 2)
    } else {
        anchor + (extent + gap) * ((n - 1) / 2)
    }
}

impl GameConfig {
    /// Horizontal distance between neighbouring brick centres.
    pub open spec fn grid_step_x(self) -> int {
        self.bricks_width + self.bricks_gap_x
    }

    /// Vertical distance between neighbouring brick centres.
    pub open spec fn grid_step_y(self) -> int {
        self.bricks_height + self.bricks_gap_y
    }

    /// Centre x of the first brick column.
    pub open spec fn grid_origin_x(self) -> int {
        grid_origin_x_of(
            self.bricks_pos_x as int,
            self.bricks_cols as int,
            self.bricks_width as int,
            self.bricks_gap_x as int,
        )
    }

    /// Centre y of the first brick row.
    pub open spec fn grid_origin_y(self) -> int {
        grid_origin_y_of(
            self.bricks_pos_y as int,
            self.bricks_rows as int,
            self.bricks_height as int,
            self.bricks_gap_y as int,
        )
    }

    /// Centre x of the brick in column `col`.
    pub open spec fn brick_center_x(self, col: int) -> int {
        self.grid_origin_x() + col * self.grid_step_x()
    }

    /// Centre y of the brick in row `row`.
    pub open spec fn brick_center_y(self, row: int) -> int {
        self.grid_origin_y() + row * self.grid_step_y()
    }

    /// A configuration the round lifecycle may start a round with:
    /// positive dimensions within the world, a speed multiplier cap
    /// above one, and a brick grid that lies entirely inside the world.
    pub open spec fn wf(self) -> bool {
        &&& 0 < self.ball_radius <= COORD_LIMIT
        &&& 0 < self.ball_speed <= SPEED_LIMIT
        &&& MUL_ONE < self.ball_max_speed_multiplier <= MUL_LIMIT
        &&& 0 < self.bricks_width <= COORD_LIMIT
        &&& 0 < self.bricks_height <= COORD_LIMIT
        &&& 0 <= self.bricks_gap_x <= COORD_LIMIT
        &&& 0 <= self.bricks_gap_y <= COORD_LIMIT
        &&& 0 < self.bricks_cols <= 1000
        &&& 0 < self.bricks_rows <= 1000
        &&& 0 < self.bricks_health <= 1_000_000
        &&& self.bricks_cols * self.bricks_rows * self.bricks_health <= 1_000_000_000
        &&& -COORD_LIMIT <= self.grid_origin_x()
        &&& self.brick_center_x(self.bricks_cols - 1) <= COORD_LIMIT
        &&& -COORD_LIMIT <= self.grid_origin_y()
        &&& self.brick_center_y(self.bricks_rows - 1) <= COORD_LIMIT
        &&& 0 < self.platform_width <= COORD_LIMIT
        &&& 0 < self.platform_height <= COORD_LIMIT
        &&& 0 < self.platform_speed <= SPEED_LIMIT
        &&& 0 < self.platform_lifes
        &&& 1000 < self.scene_width <= COORD_LIMIT
        &&& 1000 < self.scene_height <= COORD_LIMIT
    }

    /// The stock configuration of the game.
    pub fn standard() -> (c: GameConfig)
        ensures
            c.wf(),
            c == GameConfig::standard_spec(),
    {
        let c = GameConfig {
            ball_radius: 5_000,
            ball_speed: 100_000,
            ball_max_speed_multiplier: 25,
            ball_base_color: ColorRgb { r: 0x00, g: 0x75, b: 0x5f },
            ball_max_speed_color: ColorRgb { r: 0xdd, g: 0xdf, b: 0x00 },
            bricks_pos_x: 100_000,
            bricks_pos_y: 200_000,
            bricks_width: 15_000,
            bricks_height: 10_000,
            bricks_cols: 9,
            bricks_rows: 5,
            bricks_gap_x: 5_000,
            bricks_gap_y: 5_000,
            bricks_health: 1,
            bricks_color: ColorRgb { r: 0xe8, g: 0x5d, b: 0x04 },
            platform_width: 50_000,
            platform_height: 10_000,
            platform_speed: 100_000,
            platform_lifes: 5,
            platform_color: ColorRgb { r: 0x6a, g: 0x04, b: 0x0f },
            scene_width: 200_000,
            scene_height: 350_000,
            scene_border_color: ColorRgb { r: 0xfa, g: 0xa3, b: 0x07 },
        };
        proof {
            assert(c.grid_origin_x() == 20_000);
            assert(c.brick_center_x(8) == 180_000);
            assert(c.grid_origin_y() == 230_000);
            assert(c.brick_center_y(4) == 290_000);
        }
        c
    }

    /// The value `standard` returns.
    pub open spec fn standard_spec() -> GameConfig {
        GameConfig {
            ball_radius: 5_000,
            ball_speed: 100_000,
            ball_max_speed_multiplier: 25,
            ball_base_color: ColorRgb { r: 0x00, g: 0x75, b: 0x5f },
            ball_max_speed_color: ColorRgb { r: 0xdd, g: 0xdf, b: 0x00 },
            bricks_pos_x: 100_000,
            bricks_pos_y: 200_000,
            bricks_width: 15_000,
            bricks_height: 10_000,
            bricks_cols: 9,
            bricks_rows: 5,
            bricks_gap_x: 5_000,
            bricks_gap_y: 5_000,
            bricks_health: 1,
            bricks_color: ColorRgb { r: 0xe8, g: 0x5d, b: 0x04 },
            platform_width: 50_000,
            platform_height: 10_000,
            platform_speed: 100_000,
            platform_lifes: 5,
            platform_color: ColorRgb { r: 0x6a, g: 0x04, b: 0x0f },
            scene_width: 200_000,
            scene_height: 350_000,
            scene_border_color: ColorRgb { r: 0xfa, g: 0xa3, b: 0x07 },
        }
    }
}

} // verus!
