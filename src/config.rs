use vstd::prelude::*;

verus! {

/// Sub-pixel units in one screen pixel.
pub const SUBPIXELS: i64 = 100;

pub const WINDOW_WIDTH: i64 = 80000;

pub const WINDOW_HEIGHT: i64 = 60000;

/// Height of the band above the lawn that holds the buttons.
pub const TOOLBAR_HEIGHT: i64 = 10000;

pub const GRID_ROWS: usize = 5;

pub const GRID_COLUMNS: usize = 9;

pub const CELL_SIZE: i64 = 8000;

/// Ticks between two suns of one sunflower.
pub const SUN_PRODUCE_INTERVAL: u32 = 120;

/// Distance an uncollected sun falls in one tick.
pub const SUN_FALL_SPEED: i64 = 50;

/// Number of ticks a sun falls before it comes to rest.
pub const SUN_FALL_TICKS: u32 = 120;

/// Ticks between two peas of one peashooter.
pub const PEASHOOTER_SHOOT_INTERVAL: u32 = 60;

pub const PEASHOOTER_BULLET_SPEED: i64 = 200;

pub const DEFAULT_ZOMBIE_SPEED: i64 = 100;

/// Smallest speed a new zombie is given (four fifths of the default).
pub const ZOMBIE_SPEED_MIN: i64 = 80;

/// Bound, not reached, of the speed a new zombie is given (six fifths of the default).
pub const ZOMBIE_SPEED_MAX: i64 = 120;

/// Ticks between two zombies.
pub const SPAWN_INTERVAL: u32 = 360;

pub const ZOMBIE_HEALTH: u32 = 50;

pub const PLANT_HEALTH: u32 = 100;

/// Health a zombie loses to one pea.
pub const BULLET_DAMAGE: u32 = 10;

/// Health a plant loses in one tick to one zombie that touches it.
pub const BITE_DAMAGE: u32 = 1;

/// Balance gained from one collected sun.
pub const SUN_VALUE: u64 = 25;

pub const START_SUN: u64 = 50;

pub const SUNFLOWER_COST: u64 = 50;

pub const PEASHOOTER_COST: u64 = 100;

/// A pea hits a zombie closer than this on both axes.
pub const HIT_RADIUS: i64 = 2000;

/// A zombie touches a plant when closer than this horizontally ...
pub const BLOCK_HALF_WIDTH: i64 = 2500;

/// ... and closer than this vertically.
pub const BLOCK_HALF_HEIGHT: i64 = 3500;

/// A click collects every sun closer than this on both axes.
pub const COLLECT_RADIUS: i64 = 2000;

/// Largest distance from the origin at which a zombie, sun or pea may stand.
pub const POS_LIMIT: i64 = 1000000000;

/// Largest speed a zombie may have.
pub const SPEED_LIMIT: i64 = 1000000;

/// Left edge of the sunflower button.
pub const SUNFLOWER_BUTTON_X: i64 = 10000;

/// Left edge of the peashooter button.
pub const PEASHOOTER_BUTTON_X: i64 = 20000;

/// Left edge of the button that clears the selection.
pub const CANCEL_BUTTON_X: i64 = 30000;

/// Top edge of every button.
pub const BUTTON_Y: i64 = 2000;

pub const BUTTON_WIDTH: i64 = 8000;

pub const BUTTON_HEIGHT: i64 = 6000;

} // verus!
