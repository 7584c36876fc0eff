//! A verified engine for a two-player game of Battleship: one human player
//! against a scripted opponent.
//!
//! The engine is a turn-based state machine. It owns both boards, checks ship
//! placements, resolves shots, picks the opponent's targets and decides the
//! winner. Presentation and input handling live outside: they hand discrete
//! intents to a [`session::GameSession`] and read its state back.

pub mod board;
pub mod fleet;
pub mod opponent;
pub mod placement;
pub mod session;
