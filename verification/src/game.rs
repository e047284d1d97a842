//! The platforms on which a card can exist.

use vstd::prelude::*;

verus! {

/// The platforms on which a card can exist.
#[derive(Copy, Clone, PartialEq, Eq, Hash, Debug, Structural)]
#[non_exhaustive]
pub enum Game {
    Paper,
    Arena,
    Mtgo,
    Astral,
    Sega,
}

impl Game {
    /// The platform's lower-case name, as [`Game::name`] returns it.
    pub open spec fn spec_name(self) -> Seq<char> {
        match self {
            Game::Paper => "paper"@,
            Game::Arena => "arena"@,
            Game::Mtgo => "mtgo"@,
            Game::Astral => "astral"@,
            Game::Sega => "sega"@,
        }
    }

    /// The platform's lower-case name.
    pub fn name(&self) -> (r: &'static str)
        ensures
            r@ == self.spec_name(),
    {
        match self {
            Game::Paper => "paper",
            Game::Arena => "arena",
            Game::Mtgo => "mtgo",
            Game::Astral => "astral",
            Game::Sega => "sega",
        }
    }
}

} // verus!
