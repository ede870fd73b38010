//! A verified Sudoku board: the cell grid, the rule check, and the
//! interpretation of pointer and keyboard input.
//!
//! Every function is specified against a mathematical model of the board
//! ([`model::BoardModel`]); the laws that relate the operations to one another
//! are proof functions next to the definitions they speak of.

pub mod model;
pub mod rules;
pub mod input;
pub mod gameboard;
pub mod button;
