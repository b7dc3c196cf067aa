//! Monte Carlo estimate of the three-door puzzle: a prize hides behind one of
//! three doors, the player guesses, a goat door is revealed, and three
//! strategies compete: keep the first guess, guess again between the two
//! closed doors, or always swap to the other closed door.

pub mod door;
pub mod outcome;
pub mod random;
pub mod report;
pub mod scenario;
pub mod simulation;
pub mod tally;
pub mod trial;

use vstd::prelude::*;

verus! {

/// Number of trials of a full run.
pub const ITERATIONS: usize = 1_000_000;

/// Number of doors in every scenario.
pub const DOOR_COUNT: usize = 3;

} // verus!
