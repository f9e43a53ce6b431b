//! Verified game-state models for a bundle of small arcade games
//! (Tetris, Snake, Pong, a flappy-bird variant and a runner), plus the
//! menu state of the launchers. Rendering, windowing and timing live
//! outside this crate; everything here is plain state and arithmetic.

use vstd::prelude::*;

pub mod games;
pub mod grid;
pub mod launcher;
pub mod models;
pub mod pong_model;
mod random;
pub mod snake_model;

verus! {

/// Menu state of the two-game launcher: which game the cursor rests on.
#[derive(Clone, Copy, PartialEq, Eq, Structural, Debug)]
pub enum Game {
    Tetris,
    Snake,
}

impl Default for Game {
    fn default() -> (r: Self)
        ensures
            r == Game::Tetris,
    {
        Game::Tetris
    }
}

impl Game {
    /// Advance the menu cursor; the two entries alternate.
    pub fn switch(&self) -> (r: Self)
        ensures
            r == (match self {
                Game::Snake => Game::Tetris,
                Game::Tetris => Game::Snake,
            }),
    {
        match self {
            Self::Snake => Self::Tetris,
            Self::Tetris => Self::Snake,
        }
    }

    /// The menu label of the entry.
    pub fn to_str(&self) -> (r: &'static str)
        ensures
            self == Game::Snake ==> r@ == "Snake"@,
            self == Game::Tetris ==> r@ == "Tetris"@,
    {
        match self {
            Self::Snake => "Snake",
            Self::Tetris => "Tetris",
        }
    }
}

} // verus!
