//! A tally of wins per model.

use vstd::multiset::Multiset;
use vstd::prelude::*;

verus! {

/// How often one model won.
struct Win {
    model: String,
    count: u64,
}

/// The wins of every model. Its view is the multiset of the winners, one per turn.
pub struct WinTally {
    entries: Vec<Win>,
    turns: u64,
    winners: Ghost<Multiset<Seq<char>>>,
}

impl View for WinTally {
    type V = Multiset<Seq<char>>;

    closed spec fn view(&self) -> Multiset<Seq<char>> {
        self.winners@
    }
}

impl WinTally {
    /// No model stands in the tally twice, every entry holds the number of wins of its model,
    /// a model without an entry never won, and there are as many turns as winners.
    pub closed spec fn wf(&self) -> bool {
        &&& self.turns == self.winners@.len()
        &&& forall|i: int, j: int|
            0 <= i < j < self.entries@.len() ==> #[trigger] self.entries@[i].model@
                != #[trigger] self.entries@[j].model@
        &&& forall|i: int|
            0 <= i < self.entries@.len() ==> self.entries@[i].count == self.winners@.count(
                (#[trigger] self.entries@[i]).model@,
            )
        &&& forall|model: Seq<char>|
            (forall|i: int| 0 <= i < self.entries@.len() ==> #[trigger] self.entries@[i].model@ != model)
                ==> #[trigger] self.winners@.count(model) == 0
    }

    /// A tally without wins.
    pub fn new() -> (r: Self)
        ensures
            r.wf(),
            r@ == Multiset::<Seq<char>>::empty(),
    {
        WinTally { entries: Vec::new(), turns: 0, winners: Ghost(Multiset::empty()) }
    }

    /// The number of turns, each of which one model won.
    pub fn turns(&self) -> (r: u64)
        requires
            self.wf(),
        ensures
            r == self@.len(),
    {
        self.turns
    }

    /// The position of a model's entry.
    fn position(&self, model: &String) -> (r: Option<usize>)
        ensures
            match r {
                Some(i) => i < self.entries@.len() && self.entries@[i as int].model@ == model@,
                None => forall|i: int|
                    0 <= i < self.entries@.len() ==> #[trigger] self.entries@[i].model@ != model@,
            },
    {
        for i in 0..self.entries.len()
            invariant
                forall|j: int| 0 <= j < i ==> #[trigger] self.entries@[j].model@ != model@,
        {
            if self.entries[i].model == *model {
                return Some(i);
            }
        }
        None
    }

    /// How often `model` won.
    pub fn count(&self, model: &String) -> (r: u64)
        requires
            self.wf(),
        ensures
            r == self@.count(model@),
    {
        match self.position(model) {
            Some(i) => self.entries[i].count,
            None => 0,
        }
    }

    /// Record a turn that `model` won.
    pub fn record(&mut self, model: String)
        requires
            old(self).wf(),
            old(self)@.len() < u64::MAX,
        ensures
            final(self).wf(),
            final(self)@ == old(self)@.insert(model@),
    {
        broadcast use vstd::multiset::group_multiset_axioms;
        broadcast use vstd::multiset::group_multiset_properties;

        let ghost name = model@;
        let ghost before = self.entries@;
        let ghost winners = self.winners@.insert(name);
        let ghost mut k: int = 0;
        match self.position(&model) {
            Some(i) => {
                let count: u64 = self.entries[i].count;
                assert(count == self.winners@.count(model@));
                let win = Win { model, count: count + 1 };
                self.entries.set(i, win);
                proof {
                    k = i as int;
                }
            },
            None => {
                self.entries.push(Win { model, count: 1 });
                proof {
                    k = before.len() as int;
                }
            },
        }
        self.turns = self.turns + 1;
        self.winners = Ghost(winners);
        proof {
            let after = self.entries@;
            assert(after[k].model@ == name);
            assert forall|other: Seq<char>|
                (forall|i: int| 0 <= i < after.len() ==> #[trigger] after[i].model@ != other)
                    implies #[trigger] winners.count(other) == 0 by {
                assert(after[k].model@ != other);
                assert forall|i: int| 0 <= i < before.len() implies #[trigger] before[i].model@
                    != other by {
                    assert(before[i].model@ == after[i].model@);
                }
                assert(old(self).winners@.count(other) == 0);
            }
        }
    }
}

} // verus!
