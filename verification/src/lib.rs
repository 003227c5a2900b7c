//! Simulation core of a side-scrolling 2D platformer.
//!
//! The library covers the per-tick pipeline of a running level — relative
//! position classification of axis-aligned rectangles, player and scripted
//! actor kinematics, collision resolution, camera follow, coin scoring and
//! win/lose detection — together with the menu / level-select / pause state
//! machine around it.  All geometry works on unscaled integer level units;
//! display scaling, rendering and input polling are left to the embedding
//! front end.

use vstd::prelude::*;

pub mod camera;
pub mod components;
pub mod game;
pub mod map;
pub mod rect;
pub mod scene;
pub mod states;
pub mod utils;

verus! {

/// Horizontal speed gained per tick while a direction key is held,
/// in level units per tick.
pub const PLAYER_SPEED: i32 = 8;

/// Vertical speed set by a jump, in level units per tick.
pub const PLAYER_JUMP: i32 = 30;

/// Vertical speed lost every tick, in level units per tick.
pub const GRAVITY: i32 = 2;

/// Falling below this elevation loses the level.
pub const LOWER_BOUND: i32 = -200;

/// Bound on well-formed coordinates, sizes and speeds.  It leaves enough
/// i32 headroom for one tick of movement and one collision snap.
pub const COORD_LIMIT: i32 = 0x1000_0000;

} // verus!
