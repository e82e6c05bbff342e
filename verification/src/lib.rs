//! A chess rules engine whose behaviour is stated in contracts and proved.

pub mod chess_board;
pub mod chess_move;
pub mod fen;
pub mod geometry;
pub mod laws;
pub mod move_gen;
pub mod outcome;
pub mod tools;
pub mod types;
