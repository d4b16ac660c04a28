//! A grid-based dungeon crawler core: maze generation on a tile grid,
//! sub-cell movement with collision against impassable tiles, and the
//! actors (player, monsters, bullets) that move on it.

pub mod dir;
pub mod random;
pub mod tile;
pub mod grid;
pub mod moveable;
pub mod gun;
pub mod bullet;
pub mod player;
pub mod monster;
pub mod game_state;

use vstd::prelude::*;

verus! {

/// Side length of one grid cell, in pixels.
pub const CELL_SIZE: usize = 32;

/// Side length of the player's hitbox, in pixels.
pub const PLAYER_SIZE: usize = 16;

/// Width and height, in cells, of a generated level.
pub const GRID_SIZE: usize = 30;

} // verus!
