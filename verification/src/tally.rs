//! What a run computes, as a function of the trials it was made of: the
//! counters are counts of trials, recording the trials one by one arrives at
//! them, and their order does not matter.

use crate::outcome::OutcomeView;
use crate::scenario::ScenarioView;
use crate::trial::{lemma_swap_wins_iff_first_guess_loses, lemma_trial_guesses, TrialView};
use vstd::prelude::*;
use vstd::seq_lib::to_multiset_remove;

verus! {

/// The mathematical content of a [`crate::simulation::Simulation`]: the
/// counters of the whole run and the counters of each scenario met so far.
pub struct SimulationView {
    pub total: OutcomeView,
    pub table: Map<ScenarioView, OutcomeView>,
}

impl SimulationView {
    /// Before the first trial.
    pub open spec fn empty() -> SimulationView {
        SimulationView { total: OutcomeView::zero(), table: Map::empty() }
    }

    /// The counters of `scenario`: those of the table, or zeros for a
    /// scenario that was not met yet.
    pub open spec fn outcome_of(self, scenario: ScenarioView) -> OutcomeView {
        if self.table.contains_key(scenario) {
            self.table[scenario]
        } else {
            OutcomeView::zero()
        }
    }

    /// The counters after one more trial: the total and the entry of the
    /// trial's scenario both count it.
    pub open spec fn record(self, trial: TrialView) -> SimulationView {
        SimulationView {
            total: self.total.updated(
                trial.scenario,
                trial.remaining_doors_guess,
                trial.swap_guess,
            ),
            table: self.table.insert(
                trial.scenario,
                self.outcome_of(trial.scenario).updated(
                    trial.scenario,
                    trial.remaining_doors_guess,
                    trial.swap_guess,
                ),
            ),
        }
    }

    /// What holds after any number of trials: every scenario of the table is
    /// valid and was met at least once, and at most as often as there were
    /// trials; no counter of wins exceeds its counter of trials.
    pub open spec fn valid(self) -> bool {
        &&& self.total.valid()
        &&& forall|scenario: ScenarioView| #[trigger]
            self.table.contains_key(scenario) ==> {
                &&& scenario.valid()
                &&& self.table[scenario].valid()
                &&& 1 <= self.table[scenario].occurrences <= self.total.occurrences
            }
    }
}

/// The trials in which keeping the first guess wins, in their order.
pub open spec fn won_by_first_guess(trials: Seq<TrialView>) -> Seq<TrialView> {
    trials.filter(|trial: TrialView| trial.first_guess_wins())
}

/// The trials in which guessing again between the closed doors wins, in
/// their order.
pub open spec fn won_by_remaining_doors_guess(trials: Seq<TrialView>) -> Seq<TrialView> {
    trials.filter(|trial: TrialView| trial.remaining_doors_guess_wins())
}

/// The trials in which swapping wins, in their order.
pub open spec fn won_by_swap_guess(trials: Seq<TrialView>) -> Seq<TrialView> {
    trials.filter(|trial: TrialView| trial.swap_guess_wins())
}

/// The trials of `scenario`, in their order.
pub open spec fn trials_of(trials: Seq<TrialView>, scenario: ScenarioView) -> Seq<TrialView> {
    trials.filter(|trial: TrialView| trial.scenario == scenario)
}

/// The outcome of the given trials: how many there are, and how many of them
/// each strategy wins.
pub open spec fn tally(trials: Seq<TrialView>) -> OutcomeView {
    OutcomeView {
        occurrences: trials.len(),
        first_guess_win: won_by_first_guess(trials).len(),
        remaining_doors_guess_win: won_by_remaining_doors_guess(trials).len(),
        swap_guess_win: won_by_swap_guess(trials).len(),
    }
}

/// The counters of a run of the given trials: the total is the outcome of
/// all of them, and the table gives to each scenario that occurs among them
/// the outcome of the trials of that scenario.
pub open spec fn counters_of(trials: Seq<TrialView>) -> SimulationView {
    SimulationView {
        total: tally(trials),
        table: Map::new(
            |scenario: ScenarioView| trials_of(trials, scenario).len() > 0,
            |scenario: ScenarioView| tally(trials_of(trials, scenario)),
        ),
    }
}

/// The counters after the given trials, recorded one after the other.
pub open spec fn replay(trials: Seq<TrialView>) -> SimulationView
    decreases trials.len(),
{
    if trials.len() == 0 {
        SimulationView::empty()
    } else {
        replay(trials.drop_last()).record(trials.last())
    }
}

/// Every trial of the sequence is valid.
pub open spec fn all_valid(trials: Seq<TrialView>) -> bool {
    forall|i: int| 0 <= i < trials.len() ==> (#[trigger] trials[i]).valid()
}

/// Recording two trials in either order gives the same counters.
pub proof fn lemma_record_commutes(simulation: SimulationView, a: TrialView, b: TrialView)
    ensures
        simulation.record(a).record(b) == simulation.record(b).record(a),
{
    let ab = simulation.record(a).record(b);
    let ba = simulation.record(b).record(a);
    assert(ab.total == ba.total);
    assert(ab.table =~= ba.table);
}

/// Recording a valid trial keeps the counters valid.
pub proof fn lemma_record_valid(simulation: SimulationView, trial: TrialView)
    requires
        simulation.valid(),
        trial.valid(),
    ensures
        simulation.record(trial).valid(),
{
    lemma_trial_guesses(trial);
}

/// Recording valid trials one after the other keeps the counters valid.
pub proof fn lemma_replay_valid(trials: Seq<TrialView>)
    requires
        all_valid(trials),
    ensures
        replay(trials).valid(),
    decreases trials.len(),
{
    if trials.len() > 0 {
        lemma_replay_valid(trials.drop_last());
        lemma_record_valid(replay(trials.drop_last()), trials.last());
    }
}

/// One more trial adds to the outcome what recording it adds.
pub proof fn lemma_tally_push(trials: Seq<TrialView>, trial: TrialView)
    ensures
        tally(trials.push(trial)) == tally(trials).updated(
            trial.scenario,
            trial.remaining_doors_guess,
            trial.swap_guess,
        ),
{
    reveal(Seq::filter);
    assert(trials.push(trial).drop_last() =~= trials);
}

/// One more trial joins the trials of its scenario, and of no other.
pub proof fn lemma_trials_of_push(trials: Seq<TrialView>, trial: TrialView, scenario: ScenarioView)
    ensures
        trials_of(trials.push(trial), scenario) == if trial.scenario == scenario {
            trials_of(trials, scenario).push(trial)
        } else {
            trials_of(trials, scenario)
        },
{
    reveal(Seq::filter);
    assert(trials.push(trial).drop_last() =~= trials);
}

/// Recording the trials one after the other arrives at their counters.
pub proof fn lemma_replay_counts(trials: Seq<TrialView>)
    ensures
        replay(trials) == counters_of(trials),
    decreases trials.len(),
{
    if trials.len() == 0 {
        reveal(Seq::filter);
        assert(replay(trials).table =~= counters_of(trials).table);
    } else {
        let front = trials.drop_last();
        let last = trials.last();
        assert(trials =~= front.push(last));
        lemma_replay_counts(front);
        lemma_tally_push(front, last);
        let recorded = counters_of(front).record(last);
        assert forall|scenario: ScenarioView|
            recorded.table.contains_key(scenario) <==> counters_of(trials).table.contains_key(
                scenario,
            ) by {
            lemma_trials_of_push(front, last, scenario);
        }
        assert forall|scenario: ScenarioView|
            recorded.table.contains_key(scenario) implies recorded.table[scenario] == counters_of(
            trials,
        ).table[scenario] by {
            lemma_trials_of_push(front, last, scenario);
            if scenario == last.scenario {
                lemma_tally_push(trials_of(front, scenario), last);
                if trials_of(front, scenario).len() == 0 {
                    assert(trials_of(front, scenario) =~= Seq::<TrialView>::empty());
                    lemma_tally_empty();
                }
            }
        }
        assert(recorded.table =~= counters_of(trials).table);
    }
}

/// No trials, no counts.
pub proof fn lemma_tally_empty()
    ensures
        tally(Seq::<TrialView>::empty()) == OutcomeView::zero(),
{
    reveal(Seq::filter);
}

/// Any one trial of a sequence can be taken out and recorded last.
pub proof fn lemma_replay_remove(trials: Seq<TrialView>, index: int)
    requires
        0 <= index < trials.len(),
    ensures
        replay(trials) == replay(trials.remove(index)).record(trials[index]),
    decreases trials.len(),
{
    let last = trials.len() - 1;
    if index == last {
        assert(trials.remove(index) =~= trials.drop_last());
    } else {
        let front = trials.drop_last();
        let rest = trials.remove(index);
        lemma_replay_remove(front, index);
        assert(rest.drop_last() =~= front.remove(index));
        assert(rest.last() == trials.last());
        lemma_record_commutes(replay(front.remove(index)), trials[index], trials.last());
    }
}

/// Recording the same trials in another order arrives at the same counters.
pub proof fn lemma_replay_order_invariant(a: Seq<TrialView>, b: Seq<TrialView>)
    requires
        a.to_multiset() == b.to_multiset(),
    ensures
        replay(a) == replay(b),
    decreases a.len(),
{
    a.to_multiset_ensures();
    b.to_multiset_ensures();
    if a.len() > 0 {
        let trial = a.last();
        assert(a.contains(trial));
        assert(a.to_multiset().count(trial) > 0);
        assert(b.to_multiset().count(trial) > 0);
        assert(b.contains(trial));
        let index = choose|index: int| 0 <= index < b.len() && b[index] == trial;
        assert(a.drop_last() =~= a.remove(a.len() - 1));
        to_multiset_remove(a, a.len() - 1);
        to_multiset_remove(b, index);
        lemma_replay_order_invariant(a.drop_last(), b.remove(index));
        lemma_replay_remove(b, index);
    }
}

/// The counters do not depend on the order of the trials: two sequences that
/// hold the same trials the same number of times have the same total and the
/// same outcome for every scenario.
pub proof fn lemma_counters_order_invariant(a: Seq<TrialView>, b: Seq<TrialView>)
    requires
        a.to_multiset() == b.to_multiset(),
    ensures
        counters_of(a) == counters_of(b),
{
    lemma_replay_order_invariant(a, b);
    lemma_replay_counts(a);
    lemma_replay_counts(b);
}

/// The counters of valid trials are valid.
pub proof fn lemma_counters_valid(trials: Seq<TrialView>)
    requires
        all_valid(trials),
    ensures
        counters_of(trials).valid(),
{
    lemma_replay_valid(trials);
    lemma_replay_counts(trials);
}

/// Among valid trials, keeping the first guess wins exactly the trials that
/// swapping loses.
pub proof fn lemma_tally_swap_complements(trials: Seq<TrialView>)
    requires
        all_valid(trials),
    ensures
        tally(trials).first_guess_win + tally(trials).swap_guess_win == trials.len(),
    decreases trials.len(),
{
    if trials.len() == 0 {
        lemma_tally_empty();
        assert(trials =~= Seq::<TrialView>::empty());
    } else {
        let front = trials.drop_last();
        assert(trials =~= front.push(trials.last()));
        lemma_tally_swap_complements(front);
        lemma_tally_push(front, trials.last());
        lemma_swap_wins_iff_first_guess_loses(trials.last());
    }
}

} // verus!
