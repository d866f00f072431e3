//! Tic-tac-toe between a human player and a bot that moves at random.
//!
//! - [`board`]: the grid, legal moves and winning lines.
//! - [`input`]: what the player typed, read as a move or as a yes/no answer.
//! - [`bot`]: the choice of a random legal move.
//! - [`game`]: the session, a state machine over the board.

pub mod board;
pub mod bot;
pub mod game;
pub mod input;
