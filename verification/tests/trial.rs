use monty_hall::door::Door;
use monty_hall::scenario::Scenario;
use monty_hall::trial::Trial;
use monty_hall::DOOR_COUNT;

#[test]
fn generated_trials_guess_among_the_closed_doors() {
    let mut rng = rand::thread_rng();
    let mut stayed = 0;
    let mut moved = 0;
    for _ in 0..10_000 {
        let trial = Trial::new(&mut rng);
        let scenario = trial.scenario();
        let unrevealed = scenario.unrevealed_door();
        assert_eq!(trial.swap_guess(), unrevealed);
        assert!(trial.swap_guess() < DOOR_COUNT);
        assert_ne!(trial.swap_guess(), scenario.first_guess());
        assert_ne!(trial.swap_guess(), scenario.reveal_door());
        let second = trial.remaining_doors_guess();
        assert!(second == scenario.first_guess() || second == unrevealed);
        assert_ne!(second, scenario.reveal_door());
        if second == scenario.first_guess() {
            stayed += 1;
        } else {
            moved += 1;
        }
    }
    // both closed doors are chosen
    assert!(stayed > 4_000);
    assert!(moved > 4_000);
}

#[test]
fn trial_from_parts_swaps_to_the_unrevealed_door() {
    let doors = vec![Door::Goat, Door::Prize, Door::Goat];
    let scenario = Scenario::from_parts(doors.clone(), 0, 2).unwrap();
    let trial = Trial::from_parts(scenario, 0).unwrap();
    assert_eq!(trial.remaining_doors_guess(), 0);
    assert_eq!(trial.swap_guess(), 1);
    assert_eq!(trial.scenario().first_guess(), 0);
    assert_eq!(trial.scenario().reveal_door(), 2);

    let scenario = Scenario::from_parts(doors.clone(), 0, 2).unwrap();
    let trial = Trial::from_parts(scenario, 1).unwrap();
    assert_eq!(trial.remaining_doors_guess(), 1);
    assert_eq!(trial.swap_guess(), 1);
    let scenario = trial.into_scenario();
    assert_eq!(scenario, Scenario::from_parts(doors, 0, 2).unwrap());
}

#[test]
fn trial_from_parts_rejects_the_revealed_door_and_what_is_no_door() {
    let doors = vec![Door::Goat, Door::Prize, Door::Goat];
    let scenario = Scenario::from_parts(doors.clone(), 0, 2).unwrap();
    assert!(Trial::from_parts(scenario, 2).is_none());
    let scenario = Scenario::from_parts(doors, 0, 2).unwrap();
    assert!(Trial::from_parts(scenario, 3).is_none());
}

#[test]
fn swap_loses_when_the_first_guess_holds_the_prize() {
    for (reveal_door, unrevealed_door) in [(1, 2), (2, 1)] {
        let scenario =
            Scenario::from_parts(vec![Door::Prize, Door::Goat, Door::Goat], 0, reveal_door)
                .unwrap();
        let trial = Trial::from_parts(scenario, 0).unwrap();
        assert_eq!(trial.swap_guess(), unrevealed_door);
        assert_eq!(trial.scenario().doors()[trial.swap_guess()], Door::Goat);
        assert!(trial.scenario().first_guess_win());
    }
}

#[test]
fn swap_wins_when_the_first_guess_holds_a_goat() {
    let scenario = Scenario::from_parts(vec![Door::Goat, Door::Prize, Door::Goat], 0, 2).unwrap();
    let trial = Trial::from_parts(scenario, 0).unwrap();
    assert_eq!(trial.swap_guess(), 1);
    assert_eq!(trial.scenario().doors()[trial.swap_guess()], Door::Prize);
    assert!(!trial.scenario().first_guess_win());
}
