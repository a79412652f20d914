//! A two-player game on a 3x3 grid: board state, move legality, win and
//! draw detection, and turn alternation, with their contracts proved.

pub mod board;
pub mod input;
pub mod turn;
