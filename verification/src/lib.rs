//! A two-player connection game on a rectangular grid.
//!
//! Players alternately drop tokens into columns. A token falls to the lowest
//! empty cell of its column, and a player wins with an unbroken run of a
//! configured length along a row, a column or a diagonal.

pub mod board;
pub mod config;
pub mod constants;
pub mod game;
pub mod grid;
pub mod render;
pub mod token;
pub mod win_checker;

pub use token::Cell;
pub use token::Token;
