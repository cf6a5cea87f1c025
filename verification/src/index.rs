//! The hash index of the build side: from a key to the rows that have it.

use vstd::prelude::*;
use crate::key::{key_hash, JoinKey};
use crate::model::{ints, lemma_positions, positions, KeyV};

verus! {

/// The bucket of a key in an index of `nb` buckets.
pub open spec fn slot(k: KeyV, nb: int) -> int {
    key_hash(k) % nb
}

/// The positions of the keys that fall into bucket `b`, in ascending order.
pub open spec fn bucket_rows(keys: Seq<KeyV>, nb: int, b: int) -> Seq<int>
    decreases keys.len(),
{
    if keys.len() == 0 {
        Seq::empty()
    } else {
        let rest = bucket_rows(keys.drop_last(), nb, b);
        if slot(keys.last(), nb) == b {
            rest.push(keys.len() - 1)
        } else {
            rest
        }
    }
}

/// The members of `at` whose key is `k`, in the order of `at`.
pub open spec fn pick(at: Seq<int>, keys: Seq<KeyV>, k: KeyV) -> Seq<int>
    decreases at.len(),
{
    if at.len() == 0 {
        Seq::empty()
    } else {
        let rest = pick(at.drop_last(), keys, k);
        if keys[at.last()] == k {
            rest.push(at.last())
        } else {
            rest
        }
    }
}

/// Whether every member of `at` is a position of a table of `n` rows.
pub open spec fn all_below(at: Seq<int>, n: int) -> bool {
    forall|t: int| 0 <= t < at.len() ==> 0 <= #[trigger] at[t] < n
}

/// Every position in a bucket is a position of the table.
pub proof fn lemma_bucket_rows_bound(keys: Seq<KeyV>, nb: int, b: int)
    ensures
        all_below(bucket_rows(keys, nb, b), keys.len() as int),
    decreases keys.len(),
{
    if keys.len() > 0 {
        let rest = bucket_rows(keys.drop_last(), nb, b);
        lemma_bucket_rows_bound(keys.drop_last(), nb, b);
        assert(all_below(rest, keys.len() - 1));
        if slot(keys.last(), nb) == b {
            let full = rest.push(keys.len() - 1);
            assert forall|t: int| 0 <= t < full.len() implies 0 <= #[trigger] full[t]
                < keys.len() by {
                if t < rest.len() {
                    assert(full[t] == rest[t]);
                }
            }
        }
    }
}

/// Picking from positions below the length of `shorter` does not depend on
/// the keys behind them.
pub proof fn lemma_pick_prefix(at: Seq<int>, keys: Seq<KeyV>, shorter: Seq<KeyV>, k: KeyV)
    requires
        shorter.len() <= keys.len(),
        forall|i: int| 0 <= i < shorter.len() ==> shorter[i] == keys[i],
        all_below(at, shorter.len() as int),
    ensures
        pick(at, keys, k) == pick(at, shorter, k),
    decreases at.len(),
{
    if at.len() > 0 {
        lemma_pick_prefix(at.drop_last(), keys, shorter, k);
    }
}

/// The rows with key `k` are found in the bucket of `k`: picking them from
/// that bucket gives every position of `k` in the table.
pub proof fn lemma_pick_bucket(keys: Seq<KeyV>, nb: int, k: KeyV)
    ensures
        pick(bucket_rows(keys, nb, slot(k, nb)), keys, k) == positions(keys, k),
    decreases keys.len(),
{
    if keys.len() > 0 {
        let b = slot(k, nb);
        let shorter = keys.drop_last();
        let rest = bucket_rows(shorter, nb, b);
        lemma_pick_bucket(shorter, nb, k);
        lemma_bucket_rows_bound(shorter, nb, b);
        lemma_pick_prefix(rest, keys, shorter, k);
        if slot(keys.last(), nb) == b {
            assert(rest.push(keys.len() - 1).drop_last() =~= rest);
        }
    }
}

/// An index from keys to the rows that hold them. It owns no row data: a row
/// is known by its position in the table that the index was built from.
pub struct HashIndex {
    keys: Vec<JoinKey>,
    buckets: Vec<Vec<usize>>,
}

impl View for HashIndex {
    type V = Seq<KeyV>;

    /// The keys in the order in which they were inserted.
    closed spec fn view(&self) -> Seq<KeyV> {
        Seq::new(self.keys@.len(), |i: int| self.keys@[i]@)
    }
}

impl HashIndex {
    /// The invariant of the index: bucket `b` lists, in ascending order, the
    /// positions of exactly the keys whose hash falls into `b`.
    pub closed spec fn wf(&self) -> bool {
        &&& self.buckets@.len() >= 1
        &&& forall|b: int|
            0 <= b < self.buckets@.len() ==> ints((#[trigger] self.buckets@[b])@) == bucket_rows(
                self@,
                self.buckets@.len() as int,
                b,
            )
    }

    /// An empty index laid out for about `capacity` keys.
    pub fn new(capacity: usize) -> (index: HashIndex)
        ensures
            index.wf(),
            index@ == Seq::<KeyV>::empty(),
    {
        let mut buckets: Vec<Vec<usize>> = Vec::new();
        buckets.push(Vec::new());
        let mut i: usize = 1;
        while i < capacity
            invariant
                buckets@.len() >= 1,
                forall|b: int| 0 <= b < buckets@.len() ==> (#[trigger] buckets@[b])@.len() == 0,
            decreases capacity - i,
        {
            buckets.push(Vec::new());
            i = i + 1;
        }
        let index = HashIndex { keys: Vec::new(), buckets };
        assert(index@ =~= Seq::<KeyV>::empty());
        assert forall|b: int| 0 <= b < index.buckets@.len() implies ints(
            (#[trigger] index.buckets@[b])@,
        ) == bucket_rows(index@, index.buckets@.len() as int, b) by {
            assert(ints(index.buckets@[b]@) =~= Seq::<int>::empty());
        }
        index
    }

    /// The number of keys in the index.
    pub fn len(&self) -> (n: usize)
        ensures
            n == self@.len(),
    {
        self.keys.len()
    }

    fn slot_of(&self, key: &JoinKey) -> (b: usize)
        requires
            self.buckets@.len() >= 1,
        ensures
            b == slot(key@, self.buckets@.len() as int),
            b < self.buckets@.len(),
    {
        let h = key.hash();
        let nb = self.buckets.len() as u64;
        (h % nb) as usize
    }

    /// Appends a key; its position is the number of keys inserted before it.
    pub fn insert(&mut self, key: JoinKey)
        requires
            old(self).wf(),
        ensures
            final(self).wf(),
            final(self)@ == old(self)@.push(key@),
    {
        let b = self.slot_of(&key);
        let at = self.keys.len();
        let ghost nb = self.buckets@.len() as int;
        self.keys.push(key);
        self.buckets[b].push(at);
        proof {
            assert(self@ =~= old(self)@.push(key@));
            assert(self@.drop_last() =~= old(self)@);
            assert forall|c: int| 0 <= c < self.buckets@.len() implies ints(
                (#[trigger] self.buckets@[c])@,
            ) == bucket_rows(self@, self.buckets@.len() as int, c) by {
                if c == b {
                    assert(ints(self.buckets@[c]@) =~= ints(old(self).buckets@[c]@).push(
                        at as int,
                    ));
                }
            }
        }
    }

    /// The positions of the rows whose key is `key`, in ascending order.
    pub fn lookup(&self, key: &JoinKey) -> (hits: Vec<usize>)
        requires
            self.wf(),
        ensures
            ints(hits@) == positions(self@, key@),
    {
        let b = self.slot_of(key);
        let bucket = &self.buckets[b];
        let ghost at = ints(bucket@);
        let mut hits: Vec<usize> = Vec::new();
        let mut p: usize = 0;
        proof {
            lemma_bucket_rows_bound(self@, self.buckets@.len() as int, b as int);
            assert(ints(hits@) =~= pick(at.take(0), self@, key@));
        }
        while p < bucket.len()
            invariant
                0 <= p <= bucket.len(),
                at == ints(bucket@),
                all_below(at, self@.len() as int),
                ints(hits@) == pick(at.take(p as int), self@, key@),
            decreases bucket.len() - p,
        {
            let i = bucket[p];
            proof {
                assert(at[p as int] == i);
                assert(at.take(p + 1).drop_last() =~= at.take(p as int));
                assert(self@[i as int] == self.keys@[i as int]@);
            }
            if self.keys[i].same(key) {
                hits.push(i);
                proof {
                    assert(ints(hits@) =~= pick(at.take(p as int), self@, key@).push(i as int));
                }
            }
            p = p + 1;
        }
        proof {
            assert(at.take(bucket.len() as int) =~= at);
            lemma_pick_bucket(self@, self.buckets@.len() as int, key@);
        }
        hits
    }

    /// Whether some row has the key `key`.
    pub fn contains(&self, key: &JoinKey) -> (found: bool)
        requires
            self.wf(),
        ensures
            found == self@.contains(key@),
    {
        let hits = self.lookup(key);
        proof {
            lemma_positions(self@, key@);
            assert(ints(hits@).len() == hits@.len());
        }
        hits.len() > 0
    }
}

} // verus!
