//! State of the runner game that is plain data: the scene the game is in,
//! the difficulty setting, and the kinds of obstacle. The runner's
//! kinematics are floating-point and live outside this crate.

use vstd::prelude::*;

verus! {

/// Which screen the runner game shows.
#[derive(Clone, Copy, PartialEq, Eq, Structural, Debug)]
pub enum Scene {
    Welcome,
    Playing,
    Paused,
    GameOver,
}

impl Default for Scene {
    fn default() -> (r: Self)
        ensures
            r == Scene::Welcome,
    {
        Scene::Welcome
    }
}

/// The difficulty setting chosen on the welcome screen.
#[derive(Clone, Copy, PartialEq, Eq, Structural, Debug)]
pub enum Difficulty {
    Normal,
    Hard,
    Easy,
}

impl Default for Difficulty {
    fn default() -> (r: Self)
        ensures
            r == Difficulty::Normal,
    {
        Difficulty::Normal
    }
}

impl Difficulty {
    /// The next setting; the three cycle.
    pub fn switch(&self) -> (r: Self)
        ensures
            r == (match self {
                Difficulty::Easy => Difficulty::Normal,
                Difficulty::Normal => Difficulty::Hard,
                Difficulty::Hard => Difficulty::Easy,
            }),
    {
        match self {
            Self::Easy => Self::Normal,
            Self::Normal => Self::Hard,
            Self::Hard => Self::Easy,
        }
    }

    /// The label shown on the welcome screen.
    pub fn label(&self) -> (r: &'static str)
        ensures
            self == Difficulty::Easy ==> r@ == "Easy"@,
            self == Difficulty::Normal ==> r@ == "Normal"@,
            self == Difficulty::Hard ==> r@ == "Hard"@,
    {
        match self {
            Self::Easy => "Easy",
            Self::Normal => "Normal",
            Self::Hard => "Hard",
        }
    }

    /// Pterodactyls appear on normal and hard only.
    pub fn ptero_enabled(&self) -> (r: bool)
        ensures
            r <==> (self == Difficulty::Normal || self == Difficulty::Hard),
    {
        match self {
            Self::Normal => true,
            Self::Hard => true,
            Self::Easy => false,
        }
    }

    /// Cycling the setting three times comes back to the same one.
    pub proof fn lemma_switch_cycle(d: Difficulty)
        ensures
            d.spec_switch().spec_switch().spec_switch() == d,
    {
    }

    pub open spec fn spec_switch(self) -> Difficulty {
        match self {
            Difficulty::Easy => Difficulty::Normal,
            Difficulty::Normal => Difficulty::Hard,
            Difficulty::Hard => Difficulty::Easy,
        }
    }
}

/// The kind of an obstacle: a cactus (tall or not) or a pterodactyl
/// (flying high or low).
#[derive(Clone, Copy, PartialEq, Eq, Structural, Debug)]
pub enum ObstacleKind {
    Cactus(bool),
    Pterodactyl(bool),
}

} // verus!
