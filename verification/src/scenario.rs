use crate::door::{holds_one_prize, is_only_prize, Door};
use crate::random::{choose_one, sample_below};
use crate::DOOR_COUNT;
use itertools::Itertools;
use rand::rngs::ThreadRng;
use vstd::prelude::*;

verus! {

/// The mathematical content of a [`Scenario`].
pub struct ScenarioView {
    pub doors: Seq<Door>,
    pub first_guess: int,
    pub reveal_door: int,
}

/// Door `index` may be opened after the player guessed `first_guess`: it is
/// another door than the guessed one and it holds a goat.
pub open spec fn may_reveal(doors: Seq<Door>, first_guess: int, index: int) -> bool {
    &&& 0 <= index < doors.len()
    &&& index != first_guess
    &&& doors[index] is Goat
}

impl ScenarioView {
    /// What holds of every scenario: one prize among the doors, a first guess
    /// and a revealed door among them, and the revealed door a goat door other
    /// than the first guess.
    pub open spec fn valid(self) -> bool {
        &&& self.doors.len() == DOOR_COUNT
        &&& holds_one_prize(self.doors)
        &&& 0 <= self.first_guess < self.doors.len()
        &&& may_reveal(self.doors, self.first_guess, self.reveal_door)
    }

    /// The first guess landed on the prize.
    pub open spec fn first_guess_win(self) -> bool {
        self.doors[self.first_guess] is Prize
    }

    /// Door `index` is still closed and was not guessed.
    pub open spec fn is_unrevealed(self, index: int) -> bool {
        &&& 0 <= index < self.doors.len()
        &&& index != self.first_guess
        &&& index != self.reveal_door
    }

    /// The closed door that the player did not guess.
    pub open spec fn unrevealed_door(self) -> int {
        choose|index: int| self.is_unrevealed(index)
    }
}

/// One configuration of the puzzle: what the doors hold, which door the
/// player guessed first and which door was then opened.
#[derive(Debug, Eq, Hash)]
pub struct Scenario {
    doors: Vec<Door>,
    first_guess: usize,
    reveal_door: usize,
}

impl View for Scenario {
    type V = ScenarioView;

    closed spec fn view(&self) -> ScenarioView {
        ScenarioView {
            doors: self.doors@,
            first_guess: self.first_guess as int,
            reveal_door: self.reveal_door as int,
        }
    }
}

/// A valid scenario has exactly one unrevealed door, and it differs from the
/// first guess and from the revealed door.
pub proof fn lemma_unrevealed_door_unique(s: ScenarioView)
    requires
        s.valid(),
    ensures
        s.is_unrevealed(s.unrevealed_door()),
        forall|index: int| s.is_unrevealed(index) ==> index == s.unrevealed_door(),
        s.unrevealed_door() != s.first_guess,
        s.unrevealed_door() != s.reveal_door,
{
    let third = DOOR_COUNT - s.first_guess - s.reveal_door;
    assert(s.is_unrevealed(third));
}

/// Whatever the doors hold and whichever door was guessed, as long as there
/// is exactly one prize among three doors, some door may be revealed.
pub proof fn lemma_some_door_may_be_revealed(doors: Seq<Door>, first_guess: int)
    requires
        doors.len() == DOOR_COUNT,
        holds_one_prize(doors),
        0 <= first_guess < doors.len(),
    ensures
        exists|index: int| may_reveal(doors, first_guess, index),
{
    let p = choose|p: int| is_only_prize(doors, p);
    let a = (first_guess + 1) % 3;
    let b = (first_guess + 2) % 3;
    assert(doors[a] is Prize <==> a == p);
    assert(doors[b] is Prize <==> b == p);
    if a != p {
        assert(may_reveal(doors, first_guess, a));
    } else {
        assert(may_reveal(doors, first_guess, b));
    }
}

/// The doors that may be revealed are those that are neither the first guess
/// nor the prize door: two doors when the first guess is the prize door, one
/// when it is a goat door.
pub proof fn lemma_reveal_choices(doors: Seq<Door>, first_guess: int, prize: int)
    requires
        doors.len() == DOOR_COUNT,
        is_only_prize(doors, prize),
        0 <= first_guess < doors.len(),
    ensures
        forall|index: int|
            may_reveal(doors, first_guess, index) <==> 0 <= index < doors.len() && index
                != first_guess && index != prize,
{
    assert forall|index: int| 0 <= index < doors.len() implies (doors[index] is Goat <==> index
        != prize) by {
        assert(doors[index] is Prize <==> index == prize);
    }
}

/// Three doors with the prize behind door `prize`.
fn doors_with_prize(prize: usize) -> (doors: Vec<Door>)
    requires
        prize < DOOR_COUNT,
    ensures
        doors@.len() == DOOR_COUNT,
        is_only_prize(doors@, prize as int),
{
    let mut doors = vec![Door::Goat; DOOR_COUNT];
    doors[prize] = Door::Prize;
    doors
}

/// Finds the door that holds the only prize, if the doors hold exactly one.
fn find_only_prize(doors: &Vec<Door>) -> (prize: Option<usize>)
    ensures
        prize is Some <==> holds_one_prize(doors@),
        prize matches Some(p) ==> is_only_prize(doors@, p as int),
{
    let mut first: usize = 0;
    while first < doors.len() && doors[first] != Door::Prize
        invariant
            first <= doors.len(),
            forall|below: int| 0 <= below < first ==> doors@[below] is Goat,
        decreases doors.len() - first,
    {
        first += 1;
    }
    if first == doors.len() {
        assert forall|p: int| !is_only_prize(doors@, p) by {
            if 0 <= p < doors@.len() {
                assert(doors@[p] is Goat);
            }
        }
        return None;
    }
    let mut next: usize = first + 1;
    while next < doors.len()
        invariant
            first < next <= doors.len(),
            doors@[first as int] is Prize,
            forall|below: int| 0 <= below < next && below != first ==> doors@[below] is Goat,
        decreases doors.len() - next,
    {
        if doors[next] == Door::Prize {
            assert forall|p: int| !is_only_prize(doors@, p) by {
                if is_only_prize(doors@, p) {
                    assert(doors@[first as int] is Prize <==> first == p);
                    assert(doors@[next as int] is Prize <==> next == p);
                }
            }
            return None;
        }
        next += 1;
    }
    assert(is_only_prize(doors@, first as int));
    Some(first)
}

/// The test that selects the doors that may be revealed.
fn is_reveal_candidate(index: usize, door: &Door, first_guess: usize) -> (candidate: bool)
    ensures
        candidate == (index != first_guess && *door is Goat),
{
    index != first_guess && *door == Door::Goat
}

/// Calls `itertools::Itertools::positions` on the enumerated doors, with
/// [`is_reveal_candidate`] as the predicate. The contract claims what
/// `positions` documents: it yields, in increasing order, the index of every
/// element that satisfies the predicate, and no other.
#[verifier::external_body]
fn reveal_candidates(doors: &Vec<Door>, first_guess: usize) -> (candidates: Vec<usize>)
    ensures
        forall|k: int|
            0 <= k < candidates@.len() ==> may_reveal(
                doors@,
                first_guess as int,
                #[trigger] candidates@[k] as int,
            ),
        forall|index: int| #[trigger]
            may_reveal(doors@, first_guess as int, index) ==> candidates@.contains(index as usize),
        forall|j: int, k: int| 0 <= j < k < candidates@.len() ==> candidates@[j] < candidates@[k],
{
    doors.iter().enumerate().positions(
        |(index, door)| is_reveal_candidate(index, door, first_guess),
    ).collect()
}

impl Scenario {
    #[verifier::type_invariant]
    spec fn inv(self) -> bool {
        self@.valid()
    }

    /// Draws a scenario: the prize goes behind a door drawn uniformly, the
    /// first guess is drawn uniformly and independently, and the revealed
    /// door is chosen uniformly among the doors that may be revealed.
    pub fn new(rng: &mut ThreadRng) -> (scenario: Scenario)
        ensures
            scenario@.valid(),
    {
        let prize = sample_below(rng, DOOR_COUNT);
        let doors = doors_with_prize(prize);
        let first_guess = sample_below(rng, DOOR_COUNT);
        let candidates = reveal_candidates(&doors, first_guess);
        proof {
            lemma_some_door_may_be_revealed(doors@, first_guess as int);
        }
        let reveal_door = choose_one(rng, &candidates).unwrap();
        Scenario { doors, first_guess, reveal_door }
    }

    /// Whether the first guess landed on the prize.
    pub fn first_guess_win(&self) -> (win: bool)
        ensures
            self@.valid(),
            win == self@.first_guess_win(),
    {
        proof {
            use_type_invariant(self);
        }
        self.doors[self.first_guess] == Door::Prize
    }

    /// The door that is neither the first guess nor the revealed one.
    pub fn unrevealed_door(&self) -> (door: usize)
        ensures
            self@.valid(),
            door == self@.unrevealed_door(),
            self@.is_unrevealed(door as int),
            forall|other: int| self@.is_unrevealed(other) ==> other == door,
    {
        proof {
            use_type_invariant(self);
            lemma_unrevealed_door_unique(self@);
        }
        let mut index: usize = 0;
        while index < DOOR_COUNT
            invariant
                self@.valid(),
                index <= DOOR_COUNT,
                forall|below: int| 0 <= below < index ==> !self@.is_unrevealed(below),
                forall|any: int| self@.is_unrevealed(any) ==> any == self@.unrevealed_door(),
                self@.is_unrevealed(self@.unrevealed_door()),
            decreases DOOR_COUNT - index,
        {
            if index != self.first_guess && index != self.reveal_door {
                return index;
            }
            index += 1;
        }
        unreached()
    }

    /// Builds the scenario with the given doors, first guess and revealed
    /// door, if these make a valid scenario.
    pub fn from_parts(doors: Vec<Door>, first_guess: usize, reveal_door: usize) -> (scenario:
        Option<Scenario>)
        ensures
            scenario is Some <==> (ScenarioView {
                doors: doors@,
                first_guess: first_guess as int,
                reveal_door: reveal_door as int,
            }).valid(),
            scenario matches Some(s) ==> s@ == (ScenarioView {
                doors: doors@,
                first_guess: first_guess as int,
                reveal_door: reveal_door as int,
            }),
    {
        if doors.len() != DOOR_COUNT || first_guess >= DOOR_COUNT || reveal_door >= DOOR_COUNT {
            return None;
        }
        if find_only_prize(&doors).is_none() {
            return None;
        }
        if !is_reveal_candidate(reveal_door, &doors[reveal_door], first_guess) {
            return None;
        }
        Some(Scenario { doors, first_guess, reveal_door })
    }

    /// What the doors hold, by index.
    pub fn doors(&self) -> (doors: &Vec<Door>)
        ensures
            self@.valid(),
            doors@ == self@.doors,
    {
        proof {
            use_type_invariant(self);
        }
        &self.doors
    }

    /// The door that the player guessed first.
    pub fn first_guess(&self) -> (door: usize)
        ensures
            self@.valid(),
            door == self@.first_guess,
    {
        proof {
            use_type_invariant(self);
        }
        self.first_guess
    }

    /// The goat door that was opened after the first guess.
    pub fn reveal_door(&self) -> (door: usize)
        ensures
            self@.valid(),
            door == self@.reveal_door,
    {
        proof {
            use_type_invariant(self);
        }
        self.reveal_door
    }
}

/// Scenarios are equal when they are the same configuration: the same doors,
/// the same first guess and the same revealed door.
impl PartialEq for Scenario {
    fn eq(&self, other: &Scenario) -> (same: bool) {
        proof {
            use_type_invariant(self);
            use_type_invariant(other);
        }
        if self.first_guess != other.first_guess || self.reveal_door != other.reveal_door {
            return false;
        }
        let mut index: usize = 0;
        while index < DOOR_COUNT
            invariant
                self@.valid(),
                other@.valid(),
                self@.first_guess == other@.first_guess,
                self@.reveal_door == other@.reveal_door,
                index <= DOOR_COUNT,
                forall|below: int| 0 <= below < index ==> self@.doors[below] == other@.doors[below],
            decreases DOOR_COUNT - index,
        {
            if self.doors[index] != other.doors[index] {
                return false;
            }
            index += 1;
        }
        assert(self@.doors =~= other@.doors);
        true
    }
}

impl vstd::std_specs::cmp::PartialEqSpecImpl for Scenario {
    open spec fn obeys_eq_spec() -> bool {
        true
    }

    open spec fn eq_spec(&self, other: &Scenario) -> bool {
        self@ == other@
    }
}

impl Clone for Scenario {
    fn clone(&self) -> (copy: Scenario)
        ensures
            copy@ == self@,
    {
        proof {
            use_type_invariant(self);
        }
        Scenario {
            doors: self.doors.clone(),
            first_guess: self.first_guess,
            reveal_door: self.reveal_door,
        }
    }
}

} // verus!
