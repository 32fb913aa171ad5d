//! A grid-based arcade shooter simulation: a formation of enemies advances on a
//! player ship while both sides exchange projectiles and timed effects bend the
//! rules of movement and combat.
//!
//! Every state change is described by a pure function over a mathematical view
//! of the game, and the executable code is proved to compute exactly that
//! function.

use vstd::prelude::*;

pub mod boss;
pub mod bullet;
pub mod direction;
pub mod effects;
pub mod game;
pub mod logic;
pub mod power;
pub mod seqs;
pub mod shield;
pub mod shooter;
pub mod util;

verus! {

/// Number of rows of the playfield grid, walls included.
pub const LINES: i32 = 24;

/// Number of columns of the playfield grid, walls included.
pub const COLS: i32 = 40;

} // verus!
