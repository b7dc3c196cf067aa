use crate::door::Door;
use crate::scenario::{Scenario, ScenarioView};
use crate::DOOR_COUNT;
use vstd::prelude::*;

verus! {

/// The mathematical content of an [`Outcome`]: four unbounded counters.
pub struct OutcomeView {
    pub occurrences: nat,
    pub first_guess_win: nat,
    pub remaining_doors_guess_win: nat,
    pub swap_guess_win: nat,
}

/// What a guess adds to a win counter: one if the guessed door holds the
/// prize, nothing otherwise.
pub open spec fn win_of(doors: Seq<Door>, guess: int) -> nat {
    if doors[guess] is Prize {
        1
    } else {
        0
    }
}

impl OutcomeView {
    /// All counters at zero.
    pub open spec fn zero() -> OutcomeView {
        OutcomeView {
            occurrences: 0,
            first_guess_win: 0,
            remaining_doors_guess_win: 0,
            swap_guess_win: 0,
        }
    }

    /// No strategy has won more often than trials were counted.
    pub open spec fn valid(self) -> bool {
        &&& self.first_guess_win <= self.occurrences
        &&& self.remaining_doors_guess_win <= self.occurrences
        &&& self.swap_guess_win <= self.occurrences
    }

    /// The counters after one more trial of `scenario` in which the player
    /// guessing again picked `remaining_doors_guess` and the player swapping
    /// picked `swap_guess`.
    pub open spec fn updated(
        self,
        scenario: ScenarioView,
        remaining_doors_guess: int,
        swap_guess: int,
    ) -> OutcomeView {
        OutcomeView {
            occurrences: self.occurrences + 1,
            first_guess_win: self.first_guess_win + win_of(scenario.doors, scenario.first_guess),
            remaining_doors_guess_win: self.remaining_doors_guess_win + win_of(
                scenario.doors,
                remaining_doors_guess,
            ),
            swap_guess_win: self.swap_guess_win + win_of(scenario.doors, swap_guess),
        }
    }
}

/// Counters of trials and of the wins of each strategy, for one scenario or
/// for a whole run.
#[derive(Debug, Clone, Copy, PartialEq, Eq, Structural)]
pub struct Outcome {
    occurrences: u64,
    first_guess_win: u64,
    remaining_doors_guess_win: u64,
    swap_guess_win: u64,
}

impl View for Outcome {
    type V = OutcomeView;

    closed spec fn view(&self) -> OutcomeView {
        OutcomeView {
            occurrences: self.occurrences as nat,
            first_guess_win: self.first_guess_win as nat,
            remaining_doors_guess_win: self.remaining_doors_guess_win as nat,
            swap_guess_win: self.swap_guess_win as nat,
        }
    }
}

impl Default for Outcome {
    fn default() -> (outcome: Outcome)
        ensures
            outcome@ == OutcomeView::zero(),
    {
        Outcome {
            occurrences: 0,
            first_guess_win: 0,
            remaining_doors_guess_win: 0,
            swap_guess_win: 0,
        }
    }
}

impl Outcome {
    #[verifier::type_invariant]
    spec fn inv(self) -> bool {
        self@.valid()
    }

    /// Counts one more trial, and one more win for each strategy whose door
    /// holds the prize.
    pub fn update(&mut self, scenario: &Scenario, remaining_doors_guess: usize, swap_guess: usize)
        requires
            remaining_doors_guess < DOOR_COUNT,
            swap_guess < DOOR_COUNT,
            old(self)@.occurrences < u64::MAX,
        ensures
            final(self)@ == old(self)@.updated(
                scenario@,
                remaining_doors_guess as int,
                swap_guess as int,
            ),
    {
        proof {
            use_type_invariant(&*self);
        }
        let doors = scenario.doors();
        self.occurrences += 1;
        if doors[scenario.first_guess()] == Door::Prize {
            self.first_guess_win += 1;
        }
        if doors[remaining_doors_guess] == Door::Prize {
            self.remaining_doors_guess_win += 1;
        }
        if doors[swap_guess] == Door::Prize {
            self.swap_guess_win += 1;
        }
    }

    /// How many trials were counted.
    pub fn occurrences(&self) -> (count: u64)
        ensures
            self@.valid(),
            count == self@.occurrences,
    {
        proof {
            use_type_invariant(self);
        }
        self.occurrences
    }

    /// How many of the trials the first guess won.
    pub fn first_guess_win(&self) -> (count: u64)
        ensures
            self@.valid(),
            count == self@.first_guess_win,
    {
        proof {
            use_type_invariant(self);
        }
        self.first_guess_win
    }

    /// How many of the trials the second guess among the two closed doors won.
    pub fn remaining_doors_guess_win(&self) -> (count: u64)
        ensures
            self@.valid(),
            count == self@.remaining_doors_guess_win,
    {
        proof {
            use_type_invariant(self);
        }
        self.remaining_doors_guess_win
    }

    /// How many of the trials swapping to the other closed door won.
    pub fn swap_guess_win(&self) -> (count: u64)
        ensures
            self@.valid(),
            count == self@.swap_guess_win,
    {
        proof {
            use_type_invariant(self);
        }
        self.swap_guess_win
    }
}

} // verus!
