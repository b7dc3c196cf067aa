use crate::outcome::{Outcome, OutcomeView};
use crate::scenario::{Scenario, ScenarioView};
use crate::tally::{
    all_valid, counters_of, lemma_counters_valid, lemma_replay_counts, replay, SimulationView,
};
use crate::trial::{lemma_trial_guesses, Trial, TrialView};
use rand::rngs::ThreadRng;
use vstd::prelude::*;

verus! {

/// The views of the entries, in their order.
pub open spec fn views_of(entries: Seq<ScenarioOutcome>) -> Seq<(ScenarioView, OutcomeView)> {
    entries.map_values(|entry: ScenarioOutcome| entry@)
}

/// `scenario` stands somewhere in the listing.
pub open spec fn is_listed(listing: Seq<(ScenarioView, OutcomeView)>, scenario: ScenarioView) -> bool {
    exists|i: int| 0 <= i < listing.len() && (#[trigger] listing[i]).0 == scenario
}

/// No scenario stands twice in the listing.
pub open spec fn lists_once(listing: Seq<(ScenarioView, OutcomeView)>) -> bool {
    forall|i: int, j: int|
        0 <= i < j < listing.len() ==> (#[trigger] listing[i]).0 != (#[trigger] listing[j]).0
}

/// The listing is the table written out: every scenario of the table stands
/// in it once, with its outcome, and nothing else does.
pub open spec fn lists_table(
    listing: Seq<(ScenarioView, OutcomeView)>,
    table: Map<ScenarioView, OutcomeView>,
) -> bool {
    &&& lists_once(listing)
    &&& forall|i: int|
        0 <= i < listing.len() ==> {
            &&& table.contains_key((#[trigger] listing[i]).0)
            &&& table[listing[i].0] == listing[i].1
        }
    &&& forall|scenario: ScenarioView| #[trigger]
        table.contains_key(scenario) ==> is_listed(listing, scenario)
}

/// A scenario of the table with its counters.
#[derive(Debug)]
pub struct ScenarioOutcome {
    pub scenario: Scenario,
    pub outcome: Outcome,
}

impl View for ScenarioOutcome {
    type V = (ScenarioView, OutcomeView);

    open spec fn view(&self) -> (ScenarioView, OutcomeView) {
        (self.scenario@, self.outcome@)
    }
}

impl Clone for ScenarioOutcome {
    fn clone(&self) -> (copy: ScenarioOutcome)
        ensures
            copy@ == self@,
    {
        ScenarioOutcome { scenario: self.scenario.clone(), outcome: self.outcome }
    }
}

/// Why a run could not be made.
#[derive(Debug, Clone, Copy, PartialEq, Eq, Structural)]
pub enum SimulationError {
    /// A run of no trials has no rates to report.
    NoIterations,
}

/// The running counters of a simulation: one outcome for all trials and one
/// for each distinct scenario.
#[derive(Debug)]
pub struct Simulation {
    total: Outcome,
    entries: Vec<ScenarioOutcome>,
}

/// Entry `index` of `entries` is the one of `scenario`.
spec fn has_entry(entries: Seq<ScenarioOutcome>, scenario: ScenarioView, index: int) -> bool {
    0 <= index < entries.len() && entries[index].scenario@ == scenario
}

/// The table that the entries stand for.
spec fn table_of(entries: Seq<ScenarioOutcome>) -> Map<ScenarioView, OutcomeView> {
    Map::new(
        |scenario: ScenarioView| exists|index: int| has_entry(entries, scenario, index),
        |scenario: ScenarioView|
            entries[choose|index: int| has_entry(entries, scenario, index)].outcome@,
    )
}

/// No scenario has two entries.
spec fn distinct_scenarios(entries: Seq<ScenarioOutcome>) -> bool {
    forall|i: int, j: int|
        0 <= i < j < entries.len() ==> entries[i].scenario@ != entries[j].scenario@
}

/// Every entry holds a valid scenario that was met at least once and at most
/// `total.occurrences` times.
spec fn bounded_entries(total: OutcomeView, entries: Seq<ScenarioOutcome>) -> bool {
    forall|i: int|
        0 <= i < entries.len() ==> {
            &&& (#[trigger] entries[i]).scenario@.valid()
            &&& entries[i].outcome@.valid()
            &&& 1 <= entries[i].outcome@.occurrences <= total.occurrences
        }
}

/// With one entry for each scenario, the table maps the scenario of each
/// entry to the outcome of that entry.
proof fn lemma_table_of_entry(entries: Seq<ScenarioOutcome>, index: int)
    requires
        distinct_scenarios(entries),
        0 <= index < entries.len(),
    ensures
        table_of(entries).contains_key(entries[index].scenario@),
        table_of(entries)[entries[index].scenario@] == entries[index].outcome@,
{
    let scenario = entries[index].scenario@;
    assert(has_entry(entries, scenario, index));
    let chosen = choose|i: int| has_entry(entries, scenario, i);
    assert(chosen == index);
}

/// Replacing the outcome of an entry replaces the outcome of its scenario in
/// the table.
proof fn lemma_table_of_update(
    before: Seq<ScenarioOutcome>,
    after: Seq<ScenarioOutcome>,
    index: int,
)
    requires
        distinct_scenarios(before),
        0 <= index < before.len(),
        after.len() == before.len(),
        forall|i: int| 0 <= i < before.len() ==> after[i].scenario@ == before[i].scenario@,
        forall|i: int| 0 <= i < before.len() && i != index ==> after[i].outcome@ == before[i].outcome@,
    ensures
        distinct_scenarios(after),
        table_of(after) == table_of(before).insert(
            before[index].scenario@,
            after[index].outcome@,
        ),
{
    let expected = table_of(before).insert(before[index].scenario@, after[index].outcome@);
    assert forall|scenario: ScenarioView|
        table_of(after).contains_key(scenario) <==> expected.contains_key(scenario) by {
        if table_of(after).contains_key(scenario) {
            let i = choose|i: int| has_entry(after, scenario, i);
            assert(has_entry(before, scenario, i));
        }
        if expected.contains_key(scenario) {
            if scenario == before[index].scenario@ {
                assert(has_entry(after, scenario, index));
            } else {
                let i = choose|i: int| has_entry(before, scenario, i);
                assert(has_entry(after, scenario, i));
            }
        }
    }
    assert forall|scenario: ScenarioView| table_of(after).contains_key(scenario) implies table_of(
        after,
    )[scenario] == expected[scenario] by {
        let i = choose|i: int| has_entry(after, scenario, i);
        lemma_table_of_entry(after, i);
        lemma_table_of_entry(before, i);
    }
    assert(table_of(after) =~= expected);
}

/// Adding an entry for a scenario that has none adds it to the table.
proof fn lemma_table_of_push(entries: Seq<ScenarioOutcome>, entry: ScenarioOutcome)
    requires
        distinct_scenarios(entries),
        !table_of(entries).contains_key(entry.scenario@),
    ensures
        distinct_scenarios(entries.push(entry)),
        table_of(entries.push(entry)) == table_of(entries).insert(entry.scenario@, entry.outcome@),
{
    let after = entries.push(entry);
    let expected = table_of(entries).insert(entry.scenario@, entry.outcome@);
    assert forall|i: int, j: int| 0 <= i < j < after.len() implies after[i].scenario@
        != after[j].scenario@ by {
        if j == entries.len() {
            assert(!has_entry(entries, entry.scenario@, i));
        }
    }
    assert forall|scenario: ScenarioView|
        table_of(after).contains_key(scenario) <==> expected.contains_key(scenario) by {
        if table_of(after).contains_key(scenario) {
            let i = choose|i: int| has_entry(after, scenario, i);
            if i < entries.len() {
                assert(has_entry(entries, scenario, i));
            }
        }
        if expected.contains_key(scenario) {
            if scenario == entry.scenario@ {
                assert(has_entry(after, scenario, entries.len() as int));
            } else {
                let i = choose|i: int| has_entry(entries, scenario, i);
                assert(has_entry(after, scenario, i));
            }
        }
    }
    assert forall|scenario: ScenarioView| table_of(after).contains_key(scenario) implies table_of(
        after,
    )[scenario] == expected[scenario] by {
        let i = choose|i: int| has_entry(after, scenario, i);
        lemma_table_of_entry(after, i);
        if i < entries.len() {
            lemma_table_of_entry(entries, i);
        }
    }
    assert(table_of(after) =~= expected);
}

impl Simulation {
    #[verifier::type_invariant]
    spec fn inv(self) -> bool {
        &&& self.total@.valid()
        &&& distinct_scenarios(self.entries@)
        &&& bounded_entries(self.total@, self.entries@)
    }
}

impl View for Simulation {
    type V = SimulationView;

    closed spec fn view(&self) -> SimulationView {
        SimulationView { total: self.total@, table: table_of(self.entries@) }
    }
}

impl Simulation {
    /// A simulation that has seen no trial.
    pub fn new() -> (simulation: Simulation)
        ensures
            simulation@ == SimulationView::empty(),
    {
        let simulation = Simulation { total: Outcome::default(), entries: Vec::new() };
        assert(simulation@.table =~= Map::empty());
        simulation
    }

    /// The position of `scenario` among the entries, or their number if it
    /// was not met yet.
    fn position(&self, scenario: &Scenario) -> (index: usize)
        ensures
            index <= self.entries@.len(),
            index < self.entries@.len() ==> self.entries@[index as int].scenario@ == scenario@,
            index == self.entries@.len() ==> !self@.table.contains_key(scenario@),
    {
        let mut index: usize = 0;
        while index < self.entries.len()
            invariant
                index <= self.entries@.len(),
                forall|below: int|
                    0 <= below < index ==> self.entries@[below].scenario@ != scenario@,
            decreases self.entries@.len() - index,
        {
            if self.entries[index].scenario == *scenario {
                return index;
            }
            index += 1;
        }
        assert forall|any: int| !has_entry(self.entries@, scenario@, any) by {}
        index
    }

    /// Counts one trial, in the total and in the entry of its scenario, which
    /// is made first if the scenario is new.
    pub fn record(&mut self, trial: Trial)
        requires
            old(self)@.total.occurrences < u64::MAX,
        ensures
            final(self)@ == old(self)@.record(trial@),
            final(self)@.valid(),
    {
        let remaining_doors_guess = trial.remaining_doors_guess();
        let swap_guess = trial.swap_guess();
        proof {
            use_type_invariant(&*self);
            lemma_trial_guesses(trial@);
        }
        let index = self.position(trial.scenario());
        let mut total = self.total;
        total.update(trial.scenario(), remaining_doors_guess, swap_guess);
        // The entries leave `self` while they change: between the two steps
        // an entry may have counted a trial that the total has not.
        let mut entries = Vec::new();
        core::mem::swap(&mut self.entries, &mut entries);
        self.total = total;
        if index < entries.len() {
            let mut outcome = entries[index].outcome;
            proof {
                lemma_table_of_entry(entries@, index as int);
            }
            outcome.update(trial.scenario(), remaining_doors_guess, swap_guess);
            entries[index].outcome = outcome;
            proof {
                lemma_table_of_update(old(self).entries@, entries@, index as int);
            }
        } else {
            let mut outcome = Outcome::default();
            outcome.update(trial.scenario(), remaining_doors_guess, swap_guess);
            let entry = ScenarioOutcome { scenario: trial.into_scenario(), outcome };
            proof {
                lemma_table_of_push(entries@, entry);
            }
            entries.push(entry);
        }
        self.entries = entries;
        proof {
            lemma_valid_view(self.total@, self.entries@);
        }
    }

    /// Plays `iterations` trials and counts them. A run of no trials is
    /// refused. Whatever the trials were, they were valid and the result holds
    /// their counters.
    pub fn run(rng: &mut ThreadRng, iterations: usize) -> (result: Result<
        Simulation,
        SimulationError,
    >)
        ensures
            result is Err <==> iterations == 0,
            result matches Ok(simulation) ==> {
                &&& simulation@.valid()
                &&& exists|trials: Seq<TrialView>|
                    {
                        &&& trials.len() == iterations
                        &&& all_valid(trials)
                        &&& simulation@ == #[trigger] counters_of(trials)
                    }
            },
    {
        if iterations == 0 {
            return Err(SimulationError::NoIterations);
        }
        let mut simulation = Simulation::new();
        let ghost mut trials: Seq<TrialView> = Seq::empty();
        for played in 0..iterations
            invariant
                trials.len() == played,
                all_valid(trials),
                simulation@ == replay(trials),
        {
            let trial = Trial::new(rng);
            proof {
                lemma_replay_counts(trials);
                assert(trials.push(trial@).drop_last() =~= trials);
                trials = trials.push(trial@);
            }
            simulation.record(trial);
        }
        proof {
            lemma_replay_counts(trials);
            lemma_counters_valid(trials);
        }
        Ok(simulation)
    }

    /// The counters of all trials.
    pub fn total(&self) -> (total: Outcome)
        ensures
            self@.valid(),
            total@ == self@.total,
    {
        proof {
            use_type_invariant(self);
            lemma_valid_view(self.total@, self.entries@);
        }
        self.total
    }

    /// The scenarios met so far, each once and with its counters.
    pub fn entries(&self) -> (entries: &Vec<ScenarioOutcome>)
        ensures
            self@.valid(),
            lists_table(views_of(entries@), self@.table),
    {
        proof {
            use_type_invariant(self);
            lemma_valid_view(self.total@, self.entries@);
            let listing = views_of(self.entries@);
            assert forall|i: int| 0 <= i < listing.len() implies {
                &&& self@.table.contains_key((#[trigger] listing[i]).0)
                &&& self@.table[listing[i].0] == listing[i].1
            } by {
                lemma_table_of_entry(self.entries@, i);
            }
            assert forall|scenario: ScenarioView| #[trigger]
                self@.table.contains_key(scenario) implies is_listed(listing, scenario) by {
                let i = choose|i: int| has_entry(self.entries@, scenario, i);
                assert(listing[i].0 == scenario);
            }
        }
        &self.entries
    }

    /// The counters of `scenario`, if it was met.
    pub fn outcome_of(&self, scenario: &Scenario) -> (outcome: Option<Outcome>)
        ensures
            self@.valid(),
            outcome is Some <==> self@.table.contains_key(scenario@),
            outcome matches Some(found) ==> found@ == self@.table[scenario@],
    {
        proof {
            use_type_invariant(self);
            lemma_valid_view(self.total@, self.entries@);
        }
        let index = self.position(scenario);
        if index < self.entries.len() {
            proof {
                lemma_table_of_entry(self.entries@, index as int);
            }
            Some(self.entries[index].outcome)
        } else {
            None
        }
    }
}

/// Entries that are distinct and bounded stand for a valid table.
proof fn lemma_valid_view(total: OutcomeView, entries: Seq<ScenarioOutcome>)
    requires
        total.valid(),
        distinct_scenarios(entries),
        bounded_entries(total, entries),
    ensures
        (SimulationView { total, table: table_of(entries) }).valid(),
{
    assert forall|scenario: ScenarioView| #[trigger]
        table_of(entries).contains_key(scenario) implies {
        &&& scenario.valid()
        &&& table_of(entries)[scenario].valid()
        &&& 1 <= table_of(entries)[scenario].occurrences <= total.occurrences
    } by {
        let i = choose|i: int| has_entry(entries, scenario, i);
        lemma_table_of_entry(entries, i);
    }
}

} // verus!
