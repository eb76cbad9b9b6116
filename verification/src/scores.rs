//! The running score of a multiplayer match: one counter per team.

use vstd::prelude::*;

verus! {

/// Blue team's wins, then red team's wins.
#[derive(Clone, Copy, PartialEq, Eq, Structural, Debug)]
pub struct MatchScores(pub u8, pub u8);

impl MatchScores {
    /// Blue team's win count.
    pub fn blue(self) -> (r: u8)
        ensures
            r == self.0,
    {
        self.0
    }

    /// Red team's win count.
    pub fn red(self) -> (r: u8)
        ensures
            r == self.1,
    {
        self.1
    }

    /// How far apart the two teams are.
    pub fn difference(&self) -> (r: u8)
        ensures
            r == if self.0 >= self.1 {
                self.0 - self.1
            } else {
                self.1 - self.0
            },
    {
        let min: u8 = if self.0 < self.1 {
            self.0
        } else {
            self.1
        };
        let max: u8 = if self.0 < self.1 {
            self.1
        } else {
            self.0
        };
        max - min
    }
}

} // verus!
