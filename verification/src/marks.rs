//! Match marks: one flag per build row, set once the row has been matched.

use vstd::prelude::*;
use crate::index::all_below;
use crate::model::ints;

verus! {

/// One flag per build row. A flag is set when the row takes part in a match
/// and is read by the tail pass alone.
pub struct MatchMarks {
    flags: Vec<bool>,
}

impl View for MatchMarks {
    type V = Seq<bool>;

    closed spec fn view(&self) -> Seq<bool> {
        self.flags@
    }
}

impl MatchMarks {
    /// Marks for `n` rows, none of them set.
    pub fn new(n: usize) -> (marks: MatchMarks)
        ensures
            marks@.len() == n,
            forall|j: int| 0 <= j < n ==> !marks@[j],
    {
        let mut flags: Vec<bool> = Vec::new();
        let mut i: usize = 0;
        while i < n
            invariant
                0 <= i <= n,
                flags@.len() == i,
                forall|j: int| 0 <= j < i ==> !flags@[j],
            decreases n - i,
        {
            flags.push(false);
            i = i + 1;
        }
        MatchMarks { flags }
    }

    /// Sets the flag of every row in `hits` and leaves the others as they are.
    pub fn mark_all(&mut self, hits: &Vec<usize>)
        requires
            all_below(ints(hits@), old(self)@.len() as int),
        ensures
            final(self)@.len() == old(self)@.len(),
            forall|j: int|
                0 <= j < old(self)@.len() ==> final(self)@[j] == (old(self)@[j] || ints(
                    hits@,
                ).contains(j)),
    {
        let mut t: usize = 0;
        while t < hits.len()
            invariant
                0 <= t <= hits.len(),
                all_below(ints(hits@), old(self)@.len() as int),
                self@.len() == old(self)@.len(),
                forall|j: int|
                    0 <= j < old(self)@.len() ==> self@[j] == (old(self)@[j] || ints(hits@).take(
                        t as int,
                    ).contains(j)),
            decreases hits.len() - t,
        {
            let h = hits[t];
            proof {
                assert(ints(hits@)[t as int] == h);
            }
            let ghost before = self@;
            self.flags[h] = true;
            proof {
                let done = ints(hits@).take(t as int);
                let more = ints(hits@).take(t + 1);
                assert(more =~= done.push(h as int));
                assert forall|j: int| 0 <= j < old(self)@.len() implies self@[j] == (old(self)@[j]
                    || more.contains(j)) by {
                    if j == h {
                        assert(more[t as int] == j);
                    } else {
                        if done.contains(j) {
                            let u = choose|u: int| 0 <= u < done.len() && done[u] == j;
                            assert(more[u] == j);
                        }
                        if more.contains(j) {
                            let u = choose|u: int| 0 <= u < more.len() && more[u] == j;
                            assert(done[u] == j);
                        }
                    }
                }
            }
            t = t + 1;
        }
        proof {
            assert(ints(hits@).take(hits.len() as int) =~= ints(hits@));
        }
    }

    /// Whether the flag of row `j` is set.
    pub fn is_marked(&self, j: usize) -> (b: bool)
        requires
            j < self@.len(),
        ensures
            b == self@[j as int],
    {
        self.flags[j]
    }
}

} // verus!
