//! A terminal maze-chase game: the maze model, movement rules and the
//! simulation tick, verified.
//!
//! Policies where the game's rules leave a choice:
//! - a power-up can be walked over and is not consumed; it gives no points;
//! - teleport cells are walkable and can be looked up in pairs
//!   (`Level::teleport`), but a tick does not jump between them;
//! - in level files 'G' is a gate and 'T' a teleport cell;
//! - there is no winning or losing state: the game runs until it is stopped.

pub mod colours;
pub mod game;
pub mod glyph;
pub mod level;
