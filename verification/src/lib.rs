//! Engine for a two-participant, turn-based 3x3 marks-in-a-row game.
//!
//! The crate owns the board model with win and draw detection, the turn state
//! machine (cursor, whose-turn flag, terminal states), the matchmaking
//! registry with its single pending-challenge slot, and the canvas compositor
//! that renders the 300x300 board raster. Transport of prompts and button
//! presses to the two participants is left to the caller.

pub mod assets;
pub mod board;
pub mod canvas;
pub mod png;
pub mod registry;
pub mod session;
