use monty_hall::door::Door;
use monty_hall::outcome::Outcome;
use monty_hall::scenario::Scenario;

fn counters(outcome: &Outcome) -> (u64, u64, u64, u64) {
    (
        outcome.occurrences(),
        outcome.first_guess_win(),
        outcome.remaining_doors_guess_win(),
        outcome.swap_guess_win(),
    )
}

#[test]
fn default_outcome_is_all_zero() {
    assert_eq!(counters(&Outcome::default()), (0, 0, 0, 0));
}

#[test]
fn update_counts_a_win_where_the_guess_holds_the_prize() {
    let scenario = Scenario::from_parts(vec![Door::Goat, Door::Prize, Door::Goat], 0, 2).unwrap();
    let mut outcome = Outcome::default();
    // the second guess stays on door 0, the swap goes to door 1
    outcome.update(&scenario, 0, 1);
    assert_eq!(counters(&outcome), (1, 0, 0, 1));
    // the second guess goes to door 1 too
    outcome.update(&scenario, 1, 1);
    assert_eq!(counters(&outcome), (2, 0, 1, 2));
}

#[test]
fn update_counts_the_first_guess_on_the_prize() {
    let scenario = Scenario::from_parts(vec![Door::Prize, Door::Goat, Door::Goat], 0, 1).unwrap();
    let mut outcome = Outcome::default();
    outcome.update(&scenario, 0, 2);
    assert_eq!(counters(&outcome), (1, 1, 1, 0));
    outcome.update(&scenario, 2, 2);
    assert_eq!(counters(&outcome), (2, 2, 1, 0));
    outcome.update(&scenario, 2, 2);
    assert_eq!(counters(&outcome), (3, 3, 1, 0));
}

#[test]
fn update_only_adds() {
    let first = Scenario::from_parts(vec![Door::Goat, Door::Goat, Door::Prize], 2, 0).unwrap();
    let second = Scenario::from_parts(vec![Door::Goat, Door::Goat, Door::Prize], 1, 0).unwrap();
    let mut outcome = Outcome::default();
    let mut before = counters(&outcome);
    for round in 0..100 {
        let scenario = if round % 3 == 0 { &first } else { &second };
        let unrevealed = scenario.unrevealed_door();
        let second_guess = if round % 2 == 0 { scenario.first_guess() } else { unrevealed };
        outcome.update(scenario, second_guess, unrevealed);
        let after = counters(&outcome);
        assert_eq!(after.0, before.0 + 1);
        assert!(after.1 >= before.1 && after.1 <= before.1 + 1);
        assert!(after.2 >= before.2 && after.2 <= before.2 + 1);
        assert!(after.3 >= before.3 && after.3 <= before.3 + 1);
        assert!(after.1 <= after.0 && after.2 <= after.0 && after.3 <= after.0);
        before = after;
    }
    assert_eq!(before.0, 100);
}
