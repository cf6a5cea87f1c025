//! The keys-output recorder: the distinct keys that a join classifies, in
//! the order in which they are first seen.

use vstd::prelude::*;
use crate::index::HashIndex;
use crate::key::JoinKey;
use crate::model::{KeyV, RowV};
use crate::rows::lemma_rows_push;

verus! {

/// An insertion-ordered set of keys, each with the key fields of the row
/// that first brought it.
pub struct KeysRecorder {
    seen: HashIndex,
    rows: Vec<Vec<String>>,
}

impl KeysRecorder {
    /// The recorded keys, in the order of their first occurrence.
    pub closed spec fn keys(&self) -> Seq<KeyV> {
        self.seen@
    }

    /// The key fields recorded with each key, as they stood in the row.
    pub closed spec fn rows(&self) -> Seq<RowV> {
        self.rows.deep_view()
    }

    /// The invariant of the recorder: one row per key, and no key twice.
    pub closed spec fn wf(&self) -> bool {
        &&& self.seen.wf()
        &&& self.rows@.len() == self.seen@.len()
        &&& self.seen@.no_duplicates()
    }

    /// Set semantics: in every state of the recorder there is one row for
    /// each recorded key, and no key is recorded twice.
    pub proof fn law_keys_distinct(&self)
        requires
            self.wf(),
        ensures
            self.keys().len() == self.rows().len(),
            self.keys().no_duplicates(),
    {
    }

    /// An empty recorder laid out for about `capacity` keys.
    pub fn new(capacity: usize) -> (rec: KeysRecorder)
        ensures
            rec.wf(),
            rec.keys() == Seq::<KeyV>::empty(),
            rec.rows() == Seq::<RowV>::empty(),
    {
        let rec = KeysRecorder { seen: HashIndex::new(capacity), rows: Vec::new() };
        assert(rec.rows() =~= Seq::<RowV>::empty());
        rec
    }

    /// Records a key with its fields the first time it is seen, and leaves
    /// the recorder as it is when the key is already in it. Returns whether
    /// the key was new.
    pub fn record(&mut self, key: JoinKey, fields: Vec<String>) -> (added: bool)
        requires
            old(self).wf(),
        ensures
            final(self).wf(),
            added == !old(self).keys().contains(key@),
            added ==> final(self).keys() == old(self).keys().push(key@) && final(self).rows()
                == old(self).rows().push(fields.deep_view()),
            !added ==> final(self).keys() == old(self).keys() && final(self).rows() == old(
                self,
            ).rows(),
    {
        if self.seen.contains(&key) {
            return false;
        }
        let ghost before = self.rows;
        self.seen.insert(key);
        self.rows.push(fields);
        proof {
            lemma_rows_push(before, self.rows, fields);
            let was = old(self).seen@;
            let now = self.seen@;
            assert forall|a: int, b: int| 0 <= a < now.len() && 0 <= b < now.len() && a != b implies now[a] != now[b] by {
                if a < was.len() && b < was.len() {
                    assert(was[a] != was[b]);
                } else if a < was.len() {
                    assert(was[a] != key@);
                } else {
                    assert(was[b] != key@);
                }
            }
        }
        true
    }

    /// The recorded rows, in the order in which their keys were first seen.
    pub fn into_rows(self) -> (rows: Vec<Vec<String>>)
        ensures
            rows.deep_view() == self.rows(),
    {
        self.rows
    }
}

} // verus!
