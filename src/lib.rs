//! Conway's Game of Life on a fixed rectangular grid, with its transition rule
//! stated over a mathematical model of the board and proved.
pub mod board;
pub mod rules;

pub use board::{Board, BoardState};
