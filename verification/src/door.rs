use vstd::prelude::*;

verus! {

/// What hides behind a door.
#[derive(Debug, Clone, Copy, PartialEq, Eq, Hash, Structural)]
pub enum Door {
    Prize,
    Goat,
}

/// The doors hold exactly one prize: some door holds it and every other door
/// holds a goat.
pub open spec fn holds_one_prize(doors: Seq<Door>) -> bool {
    exists|p: int| is_only_prize(doors, p)
}

/// Door `p` holds the prize and all the others hold goats.
pub open spec fn is_only_prize(doors: Seq<Door>, p: int) -> bool {
    &&& 0 <= p < doors.len()
    &&& forall|i: int| 0 <= i < doors.len() ==> (#[trigger] doors[i] is Prize <==> i == p)
}

} // verus!
