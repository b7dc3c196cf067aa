use crate::outcome::{Outcome, OutcomeView};
use crate::scenario::ScenarioView;
use crate::tally::SimulationView;
use crate::simulation::{
    is_listed, lists_once, lists_table, views_of, ScenarioOutcome, Simulation,
};
use vstd::prelude::*;

verus! {

/// `section` is one of the two sections of the report of `table`: it lists,
/// once each and with their outcomes, the scenarios of the table whose first
/// guess wins (`wins`) or loses (`!wins`), and nothing else.
pub open spec fn is_section(
    section: Seq<(ScenarioView, OutcomeView)>,
    table: Map<ScenarioView, OutcomeView>,
    wins: bool,
) -> bool {
    &&& lists_once(section)
    &&& forall|i: int|
        0 <= i < section.len() ==> {
            &&& table.contains_key((#[trigger] section[i]).0)
            &&& table[section[i].0] == section[i].1
            &&& section[i].0.first_guess_win() == wins
        }
    &&& forall|scenario: ScenarioView|
        #[trigger] table.contains_key(scenario) && scenario.first_guess_win() == wins
            ==> is_listed(section, scenario)
}

/// The mathematical content of a [`Report`].
pub struct ReportView {
    pub first_guess_wins: Seq<(ScenarioView, OutcomeView)>,
    pub first_guess_loses: Seq<(ScenarioView, OutcomeView)>,
    pub total: OutcomeView,
}

impl ReportView {
    /// The report is the one of `simulation`: its two sections split the
    /// table by whether the first guess wins, and its total is the total.
    pub open spec fn reports(self, simulation: SimulationView) -> bool {
        &&& is_section(self.first_guess_wins, simulation.table, true)
        &&& is_section(self.first_guess_loses, simulation.table, false)
        &&& self.total == simulation.total
    }
}

/// What a run reports: the scenarios in which the first guess wins, those in
/// which it loses, and the counters of all trials.
#[derive(Debug)]
pub struct Report {
    pub first_guess_wins: Vec<ScenarioOutcome>,
    pub first_guess_loses: Vec<ScenarioOutcome>,
    pub total: Outcome,
}

impl View for Report {
    type V = ReportView;

    open spec fn view(&self) -> ReportView {
        ReportView {
            first_guess_wins: views_of(self.first_guess_wins@),
            first_guess_loses: views_of(self.first_guess_loses@),
            total: self.total@,
        }
    }
}

/// `section` holds the entries of `entries` at the positions `from`, which
/// increase.
spec fn taken_from(section: Seq<ScenarioOutcome>, entries: Seq<ScenarioOutcome>, from: Seq<int>) -> bool {
    &&& section.len() == from.len()
    &&& forall|k: int|
        0 <= k < from.len() ==> 0 <= #[trigger] from[k] < entries.len() && section[k]@
            == entries[from[k]]@
    &&& forall|j: int, k: int| 0 <= j < k < from.len() ==> from[j] < from[k]
}

/// Among the first `seen` entries, the positions `from` are those whose first
/// guess wins (`wins`) or loses (`!wins`).
spec fn selects(entries: Seq<ScenarioOutcome>, from: Seq<int>, seen: int, wins: bool) -> bool {
    &&& forall|k: int|
        0 <= k < from.len() ==> #[trigger] from[k] < seen && entries[from[k]].scenario@.first_guess_win()
            == wins
    &&& forall|i: int|
        0 <= i < seen && (#[trigger] entries[i]).scenario@.first_guess_win() == wins
            ==> from.contains(i)
}

impl Report {
    /// Splits the table of `simulation` into the scenarios in which the first
    /// guess wins and those in which it loses.
    pub fn new(simulation: &Simulation) -> (report: Report)
        ensures
            simulation@.valid(),
            report@.reports(simulation@),
    {
        let entries = simulation.entries();
        let mut first_guess_wins: Vec<ScenarioOutcome> = Vec::new();
        let mut first_guess_loses: Vec<ScenarioOutcome> = Vec::new();
        let ghost mut wins_from: Seq<int> = Seq::empty();
        let ghost mut loses_from: Seq<int> = Seq::empty();
        for index in 0..entries.len()
            invariant
                taken_from(first_guess_wins@, entries@, wins_from),
                taken_from(first_guess_loses@, entries@, loses_from),
                selects(entries@, wins_from, index as int, true),
                selects(entries@, loses_from, index as int, false),
        {
            let entry = &entries[index];
            if entry.scenario.first_guess_win() {
                first_guess_wins.push(entry.clone());
                proof {
                    let before = wins_from;
                    wins_from = wins_from.push(index as int);
                    assert forall|i: int|
                        0 <= i < index + 1 && (#[trigger] entries@[i]).scenario@.first_guess_win()
                            == true implies wins_from.contains(i) by {
                        if i < index {
                            let k = choose|k: int| 0 <= k < before.len() && before[k] == i;
                            assert(wins_from[k] == i);
                        } else {
                            assert(wins_from[before.len() as int] == i);
                        }
                    }
                }
            } else {
                first_guess_loses.push(entry.clone());
                proof {
                    let before = loses_from;
                    loses_from = loses_from.push(index as int);
                    assert forall|i: int|
                        0 <= i < index + 1 && (#[trigger] entries@[i]).scenario@.first_guess_win()
                            == false implies loses_from.contains(i) by {
                        if i < index {
                            let k = choose|k: int| 0 <= k < before.len() && before[k] == i;
                            assert(loses_from[k] == i);
                        } else {
                            assert(loses_from[before.len() as int] == i);
                        }
                    }
                }
            }
        }
        proof {
            lemma_section(first_guess_wins@, entries@, wins_from, simulation@.table, true);
            lemma_section(first_guess_loses@, entries@, loses_from, simulation@.table, false);
        }
        Report { first_guess_wins, first_guess_loses, total: simulation.total() }
    }
}

/// The entries of a table taken at the positions that `wins` selects make
/// the section of `wins`.
proof fn lemma_section(
    section: Seq<ScenarioOutcome>,
    entries: Seq<ScenarioOutcome>,
    from: Seq<int>,
    table: Map<ScenarioView, OutcomeView>,
    wins: bool,
)
    requires
        lists_table(views_of(entries), table),
        taken_from(section, entries, from),
        selects(entries, from, entries.len() as int, wins),
    ensures
        is_section(views_of(section), table, wins),
{
    let listing = views_of(entries);
    let part = views_of(section);
    assert forall|k: int| 0 <= k < part.len() implies {
        &&& table.contains_key((#[trigger] part[k]).0)
        &&& table[part[k].0] == part[k].1
        &&& part[k].0.first_guess_win() == wins
    } by {
        assert(part[k] == listing[from[k]]);
    }
    assert forall|j: int, k: int| 0 <= j < k < part.len() implies (#[trigger] part[j]).0 != (
    #[trigger] part[k]).0 by {
        assert(part[j] == listing[from[j]]);
        assert(part[k] == listing[from[k]]);
    }
    assert forall|scenario: ScenarioView|
        #[trigger] table.contains_key(scenario) && scenario.first_guess_win()
            == wins implies is_listed(part, scenario) by {
        let i = choose|i: int| 0 <= i < listing.len() && (#[trigger] listing[i]).0 == scenario;
        assert(entries[i].scenario@ == scenario);
        assert(from.contains(i));
        let k = choose|k: int| 0 <= k < from.len() && from[k] == i;
        assert(part[k].0 == scenario);
    }
}

/// Every scenario of the table stands in exactly one of the two sections of
/// its report, and once there: in the first if its first guess wins, in the
/// second if it loses.
pub proof fn lemma_report_partitions(
    report: ReportView,
    simulation: SimulationView,
    scenario: ScenarioView,
)
    requires
        report.reports(simulation),
        simulation.table.contains_key(scenario),
    ensures
        is_listed(report.first_guess_wins, scenario) <==> scenario.first_guess_win(),
        is_listed(report.first_guess_loses, scenario) <==> !scenario.first_guess_win(),
        is_listed(report.first_guess_wins, scenario) != is_listed(
            report.first_guess_loses,
            scenario,
        ),
        lists_once(report.first_guess_wins),
        lists_once(report.first_guess_loses),
{
}

} // verus!
