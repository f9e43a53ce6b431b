//! Menu state of the three-game terminal launcher.

use vstd::prelude::*;

verus! {

/// Which game the launcher menu currently points at.
#[derive(Clone, Copy, PartialEq, Eq, Structural, Debug)]
pub enum Game {
    Pong,
    Snake,
    Tetris,
}

impl Default for Game {
    fn default() -> (r: Self)
        ensures
            r == Game::Pong,
    {
        Game::Pong
    }
}

impl Game {
    /// Advance the menu cursor; the three entries cycle.
    pub fn switch(&self) -> (r: Self)
        ensures
            r == (match self {
                Game::Pong => Game::Snake,
                Game::Snake => Game::Tetris,
                Game::Tetris => Game::Pong,
            }),
    {
        match self {
            Self::Pong => Self::Snake,
            Self::Snake => Self::Tetris,
            Self::Tetris => Self::Pong,
        }
    }

    /// The menu label of the entry.
    pub fn to_str(&self) -> (r: &'static str)
        ensures
            self == Game::Pong ==> r@ == "Pong"@,
            self == Game::Snake ==> r@ == "Snake"@,
            self == Game::Tetris ==> r@ == "Tetris"@,
    {
        match self {
            Self::Pong => "Pong",
            Self::Snake => "Snake",
            Self::Tetris => "Tetris",
        }
    }

    /// Cycling the menu three times comes back to the same entry.
    pub proof fn lemma_switch_cycle(g: Game)
        ensures
            g.spec_switch().spec_switch().spec_switch() == g,
    {
    }

    pub open spec fn spec_switch(self) -> Game {
        match self {
            Game::Pong => Game::Snake,
            Game::Snake => Game::Tetris,
            Game::Tetris => Game::Pong,
        }
    }
}

} // verus!
