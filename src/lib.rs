//! Dungeon generation and camera projection for a roguelike: rooms and
//! corridors carved into a tile map, and the mapping of that map onto a
//! bounded screen with wall glyphs chosen from revealed neighbours.

use vstd::prelude::*;

pub mod rect;
pub mod map;
pub mod walk;
pub mod random;
pub mod simple_map;
pub mod glyphs;
pub mod camera;
pub mod gui;
pub mod damage;
pub mod item_structs;

verus! {

} // verus!
