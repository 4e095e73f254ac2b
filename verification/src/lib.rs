//! A verified engine for two-player games of noughts and crosses on a 3×3 grid.
//!
//! * [`token`]: what a square holds, and the two players.
//! * [`lines`]: the eight winning lines and the table that lists them.
//! * [`grid`]: the mathematical model, a map from squares to tokens, with the
//!   outcome that a grid stands for and the laws of placing a token.
//! * [`board`]: the board itself, with `place` and `evaluate`.
//! * [`input`]: reading a move from a line of text.
//! * [`game`]: a whole game, with the turn order and the end of play.

pub mod board;
pub mod game;
pub mod grid;
pub mod input;
pub mod lines;
pub mod token;
