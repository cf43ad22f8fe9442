//! Marubatsu: tic-tac-toe on a 3×3 board whose marks decay.
//!
//! A placed mark ages on its owner's turns, fades after
//! [`cell::DECAY_THRESHOLD`] of them and then clears, so a game cannot lock
//! into a draw. The board, its decay and win rules, the command grammar of the
//! human player, the sampling players and the turn protocol are all verified.

pub mod agent;
pub mod board;
pub mod cell;
pub mod environment;
pub mod render;
pub mod text;
