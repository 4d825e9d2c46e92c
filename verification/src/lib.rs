//! Minesweeper: a mine field, the rules for opening its squares, and the
//! turn-by-turn handling of a player's input, each with a machine-checked
//! contract.
//!
//! [`generate`] lays out a field, [`game`] plays on it, [`session`] turns
//! inputs into moves, [`layout`] fits field and banner to the screen, and
//! [`rules`] proves what the rules of play imply.

pub mod cell;
pub mod tally;
pub mod board;
pub mod random;
pub mod generate;
pub mod game;
pub mod session;
pub mod layout;
pub mod rules;
