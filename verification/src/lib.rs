//! Rules engine of a falling-block puzzle game.
//!
//! A [`game::Game`] holds the settled cells, the falling piece, the timers
//! and the counters of the progression. The outside hands it, tick by tick,
//! the time that has passed and the state of the player's actions, and gets
//! back what happened. Drawing, sound and the mapping of keys to actions are
//! left to the outside.
//!
//! - [`board`]: grid positions, and the occupancy of the playfield with its
//!   one oracle for collisions;
//! - [`piece`]: the seven shapes, their orientations and the cells of a piece;
//! - [`lines`]: finding the full rows and settling the cells above them;
//! - [`score`]: lines, level, score and the pace of the fall;
//! - [`timer`]: the repeating timers that pace the fall and the repeats of a
//!   held key;
//! - [`player`]: the actions of the player;
//! - [`pause`]: pausing and taking up the run;
//! - [`game`]: the game itself and its tick.

pub mod board;
pub mod game;
pub mod lines;
pub mod pause;
pub mod piece;
pub mod player;
pub mod score;
pub mod timer;
