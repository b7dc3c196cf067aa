use monty_hall::door::Door;
use monty_hall::scenario::Scenario;
use monty_hall::DOOR_COUNT;

fn prize_count(doors: &[Door]) -> usize {
    doors.iter().filter(|door| **door == Door::Prize).count()
}

#[test]
fn generated_scenarios_are_valid() {
    let mut rng = rand::thread_rng();
    for _ in 0..10_000 {
        let scenario = Scenario::new(&mut rng);
        assert_eq!(scenario.doors().len(), DOOR_COUNT);
        assert_eq!(prize_count(scenario.doors()), 1);
        assert!(scenario.first_guess() < DOOR_COUNT);
        assert!(scenario.reveal_door() < DOOR_COUNT);
        assert_ne!(scenario.reveal_door(), scenario.first_guess());
        assert_eq!(scenario.doors()[scenario.reveal_door()], Door::Goat);
        let unrevealed = scenario.unrevealed_door();
        assert!(unrevealed < DOOR_COUNT);
        assert_ne!(unrevealed, scenario.first_guess());
        assert_ne!(unrevealed, scenario.reveal_door());
    }
}

#[test]
fn generated_scenarios_cover_every_valid_configuration() {
    let mut rng = rand::thread_rng();
    let mut seen: Vec<Scenario> = Vec::new();
    for _ in 0..10_000 {
        let scenario = Scenario::new(&mut rng);
        if !seen.iter().any(|known| *known == scenario) {
            seen.push(scenario);
        }
    }
    // Three prize doors times three first guesses; two doors may be revealed
    // when the first guess is the prize door, one otherwise.
    assert_eq!(seen.len(), 12);
}

#[test]
fn first_guess_on_prize_leaves_two_doors_to_reveal() {
    for (reveal_door, unrevealed_door) in [(1, 2), (2, 1)] {
        let scenario =
            Scenario::from_parts(vec![Door::Prize, Door::Goat, Door::Goat], 0, reveal_door)
                .unwrap();
        assert_eq!(scenario.unrevealed_door(), unrevealed_door);
        assert_eq!(scenario.doors()[scenario.unrevealed_door()], Door::Goat);
        assert!(scenario.first_guess_win());
    }
    assert!(Scenario::from_parts(vec![Door::Prize, Door::Goat, Door::Goat], 0, 0).is_none());
}

#[test]
fn first_guess_on_goat_leaves_one_door_to_reveal() {
    let doors = vec![Door::Goat, Door::Prize, Door::Goat];
    assert!(Scenario::from_parts(doors.clone(), 0, 0).is_none());
    assert!(Scenario::from_parts(doors.clone(), 0, 1).is_none());
    let scenario = Scenario::from_parts(doors, 0, 2).unwrap();
    assert_eq!(scenario.unrevealed_door(), 1);
    assert_eq!(scenario.doors()[scenario.unrevealed_door()], Door::Prize);
    assert!(!scenario.first_guess_win());
}

#[test]
fn unrevealed_door_is_the_third_door() {
    let mut valid = 0;
    for prize in 0..DOOR_COUNT {
        for first_guess in 0..DOOR_COUNT {
            for reveal_door in 0..DOOR_COUNT {
                let mut doors = vec![Door::Goat; DOOR_COUNT];
                doors[prize] = Door::Prize;
                let scenario = Scenario::from_parts(doors, first_guess, reveal_door);
                let expected = reveal_door != first_guess && reveal_door != prize;
                assert_eq!(scenario.is_some(), expected);
                if let Some(scenario) = scenario {
                    valid += 1;
                    assert_eq!(scenario.unrevealed_door(), 3 - first_guess - reveal_door);
                    assert_eq!(scenario.first_guess_win(), first_guess == prize);
                    assert_eq!(scenario.first_guess(), first_guess);
                    assert_eq!(scenario.reveal_door(), reveal_door);
                    assert_eq!(scenario.doors()[prize], Door::Prize);
                }
            }
        }
    }
    assert_eq!(valid, 12);
}

#[test]
fn from_parts_rejects_what_is_no_scenario() {
    let goat = Door::Goat;
    let prize = Door::Prize;
    // no prize
    assert!(Scenario::from_parts(vec![goat, goat, goat], 0, 1).is_none());
    // two prizes
    assert!(Scenario::from_parts(vec![prize, prize, goat], 0, 2).is_none());
    assert!(Scenario::from_parts(vec![prize, goat, prize], 0, 1).is_none());
    // too few or too many doors
    assert!(Scenario::from_parts(vec![prize, goat], 0, 1).is_none());
    assert!(Scenario::from_parts(vec![prize, goat, goat, goat], 0, 1).is_none());
    assert!(Scenario::from_parts(Vec::new(), 0, 1).is_none());
    // a guess or a revealed door that is no door
    assert!(Scenario::from_parts(vec![prize, goat, goat], 3, 1).is_none());
    assert!(Scenario::from_parts(vec![prize, goat, goat], 0, 3).is_none());
    // the revealed door is the first guess
    assert!(Scenario::from_parts(vec![prize, goat, goat], 1, 1).is_none());
    // the revealed door holds the prize
    assert!(Scenario::from_parts(vec![prize, goat, goat], 1, 0).is_none());
    // and one that is
    assert!(Scenario::from_parts(vec![prize, goat, goat], 1, 2).is_some());
}

#[test]
fn scenarios_compare_by_value() {
    let a = Scenario::from_parts(vec![Door::Prize, Door::Goat, Door::Goat], 0, 1).unwrap();
    let b = Scenario::from_parts(vec![Door::Prize, Door::Goat, Door::Goat], 0, 1).unwrap();
    let other_reveal =
        Scenario::from_parts(vec![Door::Prize, Door::Goat, Door::Goat], 0, 2).unwrap();
    let other_guess =
        Scenario::from_parts(vec![Door::Prize, Door::Goat, Door::Goat], 2, 1).unwrap();
    let other_doors =
        Scenario::from_parts(vec![Door::Goat, Door::Goat, Door::Prize], 0, 1).unwrap();
    assert!(a == b);
    assert!(a == a.clone());
    assert_eq!(a, b);
    assert!(a != other_reveal);
    assert!(a != other_guess);
    assert!(a != other_doors);
    assert_ne!(a, other_doors);
}

#[test]
fn scenario_debug_names_its_fields() {
    let scenario = Scenario::from_parts(vec![Door::Goat, Door::Prize, Door::Goat], 0, 2).unwrap();
    assert_eq!(
        format!("{:?}", scenario),
        "Scenario { doors: [Goat, Prize, Goat], first_guess: 0, reveal_door: 2 }"
    );
}
