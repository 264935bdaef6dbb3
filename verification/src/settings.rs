//! Default configuration of a session.

use vstd::prelude::*;

verus! {

/// Logical width of the world, in tiles.
pub const MAP_WIDTH: i32 = 1000;

/// Logical height of the world, in tiles.
pub const MAP_HEIGHT: i32 = 450;

/// Whether a lit sight-blocking tile counts as visible itself.
pub const FOV_LIGHT_WALLS: bool = true;

/// How far a vision source sees, in tiles.
pub const TORCH_RADIUS: i32 = 15;

/// Upper limit on frames per second.
pub const LIMIT_FPS: i32 = 60;

/// Width of a status bar, in columns.
pub const BAR_WIDTH: i32 = 20;

/// Height of the status panel, in rows.
pub const PANEL_HEIGHT: i32 = 7;

/// Wood in the ledger when a session starts.
pub const STARTING_WOOD: i32 = 100;

/// Food in the ledger when a session starts.
pub const STARTING_FOOD: i32 = 100;

/// Population figure in the ledger when a session starts.
pub const STARTING_POPULATION: i32 = 0;

} // verus!
