//! The edge table: which state may hand over to which.
use vstd::prelude::*;

verus! {

/// Identity of a state in an object's graph.
pub type StateId = u64;

/// A relation of allowed ordered pairs of states, filled before any machine runs.
pub struct EdgeTable {
    pairs: Vec<(StateId, StateId)>,
}

impl View for EdgeTable {
    type V = Set<(StateId, StateId)>;

    closed spec fn view(&self) -> Set<(StateId, StateId)> {
        self.pairs@.to_set()
    }
}

impl EdgeTable {
    /// A table with no edge: not even a state's edge to itself is granted.
    pub fn new() -> (r: EdgeTable)
        ensures
            r@ == Set::<(StateId, StateId)>::empty(),
    {
        let r = EdgeTable { pairs: Vec::new() };
        proof {
            assert(r@ =~= Set::<(StateId, StateId)>::empty());
        }
        r
    }

    /// Declares that `from` may hand over to `to`.
    pub fn declare(&mut self, from: StateId, to: StateId)
        ensures
            final(self)@ == old(self)@.insert((from, to)),
    {
        let ghost before = self.pairs@;
        self.pairs.push((from, to));
        proof {
            assert(self.pairs@ == before.push((from, to)));
            assert forall|p: (StateId, StateId)| #[trigger] self.pairs@.contains(p) <==> (
            before.contains(p) || p == (from, to)) by {
                if self.pairs@.contains(p) {
                    let i = choose|i: int| 0 <= i < self.pairs@.len() && self.pairs@[i] == p;
                    if i < before.len() {
                        assert(before[i] == p);
                    }
                }
                if before.contains(p) {
                    let i = choose|i: int| 0 <= i < before.len() && before[i] == p;
                    assert(self.pairs@[i] == p);
                }
                if p == (from, to) {
                    assert(self.pairs@[before.len() as int] == p);
                }
            }
            assert(self@ =~= old(self)@.insert((from, to)));
        }
    }

    /// Whether the edge `(from, to)` was declared.
    pub fn allows(&self, from: StateId, to: StateId) -> (r: bool)
        ensures
            r == self@.contains((from, to)),
    {
        let mut i: usize = 0;
        while i < self.pairs.len()
            invariant
                0 <= i <= self.pairs@.len(),
                forall|j: int| 0 <= j < i ==> self.pairs@[j] != (from, to),
            decreases self.pairs@.len() - i,
        {
            let p = self.pairs[i];
            if p.0 == from && p.1 == to {
                proof {
                    assert(self.pairs@.contains((from, to)));
                }
                return true;
            }
            i = i + 1;
        }
        proof {
            assert(!self.pairs@.contains((from, to)));
        }
        false
    }
}

} // verus!
