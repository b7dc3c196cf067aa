use crate::door::is_only_prize;
use crate::random::choose_one;
use crate::scenario::{lemma_unrevealed_door_unique, Scenario, ScenarioView};
use rand::rngs::ThreadRng;
use vstd::prelude::*;

verus! {

/// The mathematical content of a [`Trial`].
pub struct TrialView {
    pub scenario: ScenarioView,
    pub remaining_doors_guess: int,
    pub swap_guess: int,
}

impl TrialView {
    /// Keeping the first guess wins the prize.
    pub open spec fn first_guess_wins(self) -> bool {
        self.scenario.doors[self.scenario.first_guess] is Prize
    }

    /// Guessing again between the two closed doors wins the prize.
    pub open spec fn remaining_doors_guess_wins(self) -> bool {
        self.scenario.doors[self.remaining_doors_guess] is Prize
    }

    /// Swapping to the unrevealed door wins the prize.
    pub open spec fn swap_guess_wins(self) -> bool {
        self.scenario.doors[self.swap_guess] is Prize
    }

    /// What holds of every trial: the scenario is valid, the swap guess is
    /// the unrevealed door, and the second guess is one of the two closed
    /// doors.
    pub open spec fn valid(self) -> bool {
        &&& self.scenario.valid()
        &&& self.swap_guess == self.scenario.unrevealed_door()
        &&& (self.remaining_doors_guess == self.scenario.first_guess
            || self.remaining_doors_guess == self.scenario.unrevealed_door())
    }
}

/// One round of the puzzle: a scenario and the door that each of the two
/// players who guess again ends on.
#[derive(Debug)]
pub struct Trial {
    scenario: Scenario,
    remaining_doors_guess: usize,
    swap_guess: usize,
}

impl View for Trial {
    type V = TrialView;

    closed spec fn view(&self) -> TrialView {
        TrialView {
            scenario: self.scenario@,
            remaining_doors_guess: self.remaining_doors_guess as int,
            swap_guess: self.swap_guess as int,
        }
    }
}

impl Trial {
    #[verifier::type_invariant]
    spec fn inv(self) -> bool {
        self@.valid()
    }

    /// Plays one round: draws a scenario, lets one player choose uniformly
    /// between the first guess and the unrevealed door, and lets the other
    /// swap to the unrevealed door.
    pub fn new(rng: &mut ThreadRng) -> (trial: Trial)
        ensures
            trial@.valid(),
    {
        let scenario = Scenario::new(rng);
        let unrevealed_door = scenario.unrevealed_door();
        let closed_doors = vec![scenario.first_guess(), unrevealed_door];
        let remaining_doors_guess = choose_one(rng, &closed_doors).unwrap();
        Trial { scenario, remaining_doors_guess, swap_guess: unrevealed_door }
    }

    /// The round of `scenario` in which the player who guesses again picks
    /// `remaining_doors_guess`, if that is one of the two closed doors.
    pub fn from_parts(scenario: Scenario, remaining_doors_guess: usize) -> (trial: Option<Trial>)
        ensures
            trial is Some <==> (remaining_doors_guess == scenario@.first_guess
                || remaining_doors_guess == scenario@.unrevealed_door()),
            trial matches Some(t) ==> t@ == (TrialView {
                scenario: scenario@,
                remaining_doors_guess: remaining_doors_guess as int,
                swap_guess: scenario@.unrevealed_door(),
            }),
    {
        let unrevealed_door = scenario.unrevealed_door();
        if remaining_doors_guess == scenario.first_guess() || remaining_doors_guess
            == unrevealed_door {
            Some(Trial { scenario, remaining_doors_guess, swap_guess: unrevealed_door })
        } else {
            None
        }
    }

    /// The scenario of the round.
    pub fn scenario(&self) -> (scenario: &Scenario)
        ensures
            self@.valid(),
            scenario@ == self@.scenario,
    {
        proof {
            use_type_invariant(self);
        }
        &self.scenario
    }

    /// The door picked by the player who guesses again between the two
    /// closed doors.
    pub fn remaining_doors_guess(&self) -> (door: usize)
        ensures
            self@.valid(),
            door == self@.remaining_doors_guess,
    {
        proof {
            use_type_invariant(self);
        }
        self.remaining_doors_guess
    }

    /// The door picked by the player who swaps.
    pub fn swap_guess(&self) -> (door: usize)
        ensures
            self@.valid(),
            door == self@.swap_guess,
    {
        proof {
            use_type_invariant(self);
        }
        self.swap_guess
    }

    /// Gives up the round and keeps its scenario.
    pub fn into_scenario(self) -> (scenario: Scenario)
        ensures
            self@.valid(),
            scenario@ == self@.scenario,
    {
        proof {
            use_type_invariant(&self);
        }
        self.scenario
    }
}

/// In a valid trial both later guesses are doors of the scenario, the swap
/// guess is neither the first guess nor the revealed door, and the second
/// guess is never the revealed door.
pub proof fn lemma_trial_guesses(trial: TrialView)
    requires
        trial.valid(),
    ensures
        0 <= trial.swap_guess < trial.scenario.doors.len(),
        0 <= trial.remaining_doors_guess < trial.scenario.doors.len(),
        trial.swap_guess != trial.scenario.first_guess,
        trial.swap_guess != trial.scenario.reveal_door,
        trial.remaining_doors_guess != trial.scenario.reveal_door,
{
    lemma_unrevealed_door_unique(trial.scenario);
}

/// In a valid trial exactly one of keeping and swapping wins: the prize is
/// behind one of the two closed doors. The player who guesses again wins with
/// whichever of the two they picked.
pub proof fn lemma_swap_wins_iff_first_guess_loses(trial: TrialView)
    requires
        trial.valid(),
    ensures
        trial.swap_guess_wins() <==> !trial.first_guess_wins(),
        trial.remaining_doors_guess_wins() <==> if trial.remaining_doors_guess
            == trial.scenario.first_guess {
            trial.first_guess_wins()
        } else {
            trial.swap_guess_wins()
        },
{
    lemma_unrevealed_door_unique(trial.scenario);
    let doors = trial.scenario.doors;
    let prize = choose|p: int| is_only_prize(doors, p);
    assert(doors[trial.scenario.first_guess] is Prize <==> trial.scenario.first_guess == prize);
    assert(doors[trial.scenario.reveal_door] is Prize <==> trial.scenario.reveal_door == prize);
    assert(doors[trial.swap_guess] is Prize <==> trial.swap_guess == prize);
}

} // verus!
