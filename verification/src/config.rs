//! The round's static configuration: entity sizes, speeds, timeouts and
//! progression parameters.
//!
//! Distances are in thousandths of a display unit and time is in
//! milliseconds, so every quantity is an exact integer.

use vstd::prelude::*;
use crate::geom::Vec2i;

verus! {

/// Outer width of the playfield, walls included.
pub const WALL_WIDTH: i64 = 1_200_000;

/// Outer height of the playfield, walls included.
pub const WALL_HEIGHT: i64 = 600_000;

/// Thickness of each bounding wall.
pub const WALL_THICKNESS: i64 = 30_000;

/// Nominal ball diameter (balls are square-bounded circles).
pub const BALL_SIZE: i64 = 30_000;

/// Ball diameter while the enlargement effect is active.
pub const BALL_ENLARGED_SIZE: i64 = 60_000;

pub const BALL_START_X: i64 = -70_000;

pub const BALL_START_Y: i64 = 1_000;

/// Initial ball velocity per millisecond.
pub const BALL_VEL_X: i64 = 200;

pub const BALL_VEL_Y: i64 = -200;

/// Damage a ball deals per block hit.
pub const BALL_ATTACK: u32 = 1;

/// Duration of the ball enlargement effect, in milliseconds.
pub const BALL_TIMEOUT: u32 = 10_000;

pub const PADDLE_SIZE_X: i64 = 120_000;

pub const PADDLE_SIZE_Y: i64 = 20_000;

/// Paddle width while the enlargement effect is active.
pub const PADDLE_ENLARGED_SIZE_X: i64 = 240_000;

pub const PADDLE_START_Y: i64 = -250_000;

/// Paddle speed per millisecond under full directional input.
pub const PADDLE_SPEED: i64 = 500;

/// Duration of the paddle enlargement effect, in milliseconds.
pub const PADDLE_TIMEOUT: u32 = 10_000;

/// Number of block columns in the formation.
pub const BLOCK_COLUMNS: i64 = 12;

/// Number of vertical grid slots; rows occupy every second slot initially.
pub const BLOCK_ROWS: i64 = 9;

/// Horizontal and vertical gap between blocks.
pub const BLOCK_PADDING: i64 = 5_000;

pub const BLOCK_SIZE_Y: i64 = 25_000;

/// Block width: the interior split evenly among the columns, minus padding;
/// that is `(WALL_WIDTH - WALL_THICKNESS - BLOCK_PADDING) / BLOCK_COLUMNS
/// - BLOCK_PADDING`, rounded down.
pub const BLOCK_SIZE_X: i64 = 92_083;

/// Health of a freshly spawned block.
pub const BLOCK_HEALTH: u32 = 1;

/// Period of the block descent timer, in milliseconds.
pub const GO_DOWN_PERIOD: u32 = 10_000;

/// A new row spawns every this many descents.
pub const SPAWN_AFTER_GO_DOWN: u32 = 2;

/// Powerup pickup extent (square).
pub const POWERUP_SIZE: i64 = 15_000;

/// Powerups drift straight down at this velocity per millisecond.
pub const POWERUP_VEL_Y: i64 = -50;

/// Experience needed for the first level.
pub const LEVEL_CAP_BASE: u32 = 50;

/// The cap grows by 3/2 of the base per level.
pub const GROWTH_NUM: u32 = 3;

pub const GROWTH_DEN: u32 = 2;

/// Highest level the progression tracker reaches; leveling stops here.
pub const LEVEL_LIMIT: u32 = 50_000_000;

/// Longest time a single tick may advance, in milliseconds.
pub const DT_LIMIT: u32 = 1_000;

/// The interior of the playfield: the region inside the walls that bounds
/// despawn checks and paddle movement.
#[derive(Clone, Copy, PartialEq, Eq, Structural, Debug)]
pub struct MainBox {
    pub size: Vec2i,
}

impl MainBox {
    pub open spec fn wf(self) -> bool {
        self.size.wf_size()
    }

    /// The playfield interior: the walled area minus one wall thickness.
    pub open spec fn standard_spec() -> MainBox {
        MainBox {
            size: Vec2i {
                x: (WALL_WIDTH - WALL_THICKNESS) as i64,
                y: (WALL_HEIGHT - WALL_THICKNESS) as i64,
            },
        }
    }

    pub fn standard() -> (mb: MainBox)
        ensures
            mb == MainBox::standard_spec(),
            mb.wf(),
    {
        MainBox { size: Vec2i { x: WALL_WIDTH - WALL_THICKNESS, y: WALL_HEIGHT - WALL_THICKNESS } }
    }
}

} // verus!
