//! Pseudo-legal move generation for chess: the board model, the move rules
//! of each piece kind, the generator, move application, the text layouts of
//! a board, and the laws that every generated move obeys.
pub mod board;
pub mod rules;
pub mod movegen;
pub mod laws;
pub mod text;
pub mod select;
