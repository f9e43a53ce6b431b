//! The per-game models driven by the windowed front-ends: each holds the
//! whole state of one game and advances it one tick at a time. Timers,
//! input and drawing live outside this crate.

pub mod bird;
pub mod pong;
pub mod snake;
pub mod tetris;
