use monty_hall::simulation::Simulation;
use monty_hall::ITERATIONS;

fn rate(wins: u64, occurrences: u64) -> f64 {
    wins as f64 / occurrences as f64 * 100.0
}

#[test]
fn rates_converge_over_a_full_run() {
    let mut rng = rand::thread_rng();
    let simulation = Simulation::run(&mut rng, ITERATIONS).unwrap();
    let total = simulation.total();
    assert_eq!(total.occurrences(), 1_000_000);
    let first = rate(total.first_guess_win(), total.occurrences());
    let second = rate(total.remaining_doors_guess_win(), total.occurrences());
    let swap = rate(total.swap_guess_win(), total.occurrences());
    assert!((first - 100.0 / 3.0).abs() < 1.0, "first guess wins {first}%");
    assert!((second - 50.0).abs() < 1.0, "second guess wins {second}%");
    assert!((swap - 200.0 / 3.0).abs() < 1.0, "swap wins {swap}%");
}
