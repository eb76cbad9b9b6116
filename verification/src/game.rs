//! How one round of the background guessing game ended.

use vstd::prelude::*;

verus! {

/// The verdict of a game round: somebody won (by user id), the round
/// restarts, or the game stops.
#[derive(Clone, Copy, PartialEq, Eq, Structural, Debug)]
pub enum LoopResult {
    Winner(u64),
    Restart,
    Stop,
}

} // verus!
