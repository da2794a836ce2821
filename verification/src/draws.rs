//! The draws that were made at random.

use vstd::prelude::*;

verus! {

/// One draw: an index below `range`.
pub struct Draw {
    pub range: nat,
    pub index: nat,
}

/// A record of random draws. Its view is the draws made so far, in order. There is no operation
/// to add one: a record grows only where something is drawn at random.
pub struct Draws {
    made: Ghost<Seq<Draw>>,
}

impl View for Draws {
    type V = Seq<Draw>;

    closed spec fn view(&self) -> Seq<Draw> {
        self.made@
    }
}

impl Draws {
    /// A record without draws.
    pub fn new() -> (r: Self)
        ensures
            r@ == Seq::<Draw>::empty(),
    {
        Draws { made: Ghost(Seq::empty()) }
    }
}

/// Exactly one draw was made, below `range`.
pub open spec fn one_draw(before: Seq<Draw>, after: Seq<Draw>, range: nat) -> bool {
    &&& after.len() == before.len() + 1
    &&& after.drop_last() == before
    &&& after.last().range == range
    &&& after.last().index < range
}

} // verus!
