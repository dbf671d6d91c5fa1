//! The fixed configuration of the game.
//!
//! Lengths and speeds are given in thousandths of a pixel, times in ticks.

use vstd::prelude::*;

verus! {

/// Number of fixed-point units in one pixel.
pub const UNIT: i32 = 1_000;

/// Width of the screen.
pub const WIDTH: i32 = 800_000;

/// Height of the screen.
pub const HEIGHT: i32 = 600_000;

/// Height of the ground band at the bottom of the screen; the cannon sits on
/// its upper edge.
pub const CANNON_HEIGHT: i32 = 100_000;

/// Speed of a projectile as it leaves the cannon, per tick.
pub const CANNON_POWER: i32 = 10_000;

/// Ticks between two shots.
pub const CANNON_COOLDOWN: i32 = 12;

/// Radius of the dot that shows the cannon.
pub const CANNON_RADIUS: i32 = 10_000;

/// Radius of a projectile.
pub const PROJECTILE_RADIUS: i32 = 5_000;

/// Least number of ticks between two bombs.
pub const BOMB_DELAY_MIN: i32 = 20;

/// Upper end of the range of ticks between two bombs.
pub const BOMB_DELAY_MAX: i32 = 50;

/// Greatest speed of a bomb, per tick.
pub const BOMB_SPEED_MAX: i32 = 2_000;

/// Width of a bomb.
pub const BOMB_WIDTH: i32 = 32_000;

/// Height of a bomb.
pub const BOMB_HEIGHT: i32 = 12_000;

/// Vertical position at which a bomb is dropped.
pub const BOMB_DROP_Y: i32 = 10_000;

/// Ticks an explosion lasts.
pub const EXPLOSION_DURATION: i32 = 30;

/// Radius of an explosion at the moment it starts.
pub const EXPLOSION_RADIUS: i32 = 60_000;

/// An explosion fades to one part in this many of full opacity short of
/// opaque: with 2 it ends half transparent.
pub const EXPLOSION_ALPHA_FRACTION: i32 = 2;

/// Radius of an intact vault.
pub const VAULT_RADIUS: i32 = 30_000;

/// Radius of the crater that is drawn for a destroyed vault.
pub const DESTROYED_VAULT_RADIUS: i32 = 40_000;

/// Distance of the vaults' centres from the bottom of the screen.
pub const VAULT_DEPTH: i32 = 50_000;

/// Number of vaults.
pub const NUM_VAULTS: usize = 4;

/// Downward acceleration, per tick and tick.
pub const GRAVITY: i32 = 120;

/// How far the play region reaches above the top of the screen.
pub const SKY_MARGIN: i32 = 1_000_000;

/// Full opacity of a colour.
pub const OPAQUE: i32 = 1_000;

} // verus!
