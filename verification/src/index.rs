//! The index maintainer: append-only secondary lists keyed by a party
//! identifier.
//!
//! An [`IndexMap`] maps each party key to the ordered sequence of record keys
//! referencing that party.  Lists only grow, and only at the end, so
//! insertion order is chronological write order.

use vstd::prelude::*;

verus! {

/// One party's list of record keys, in the order the records were written.
pub struct IndexEntry<V> {
    pub key: String,
    pub values: Vec<V>,
}

/// An append-only mapping from party keys to ordered lists of record keys.
pub struct IndexMap<V> {
    entries: Vec<IndexEntry<V>>,
}

impl<V> IndexMap<V> {
    /// Some list is stored under key `k` (it may be empty).
    pub closed spec fn contains_key(&self, k: Seq<char>) -> bool {
        exists|j: int| 0 <= j < self.entries@.len() && self.entries@[j].key@ == k
    }

    /// The list stored under key `k`; absent keys read as the empty list.
    pub closed spec fn lookup(&self, k: Seq<char>) -> Seq<V> {
        if self.contains_key(k) {
            let j = choose|j: int| 0 <= j < self.entries@.len() && self.entries@[j].key@ == k;
            self.entries@[j].values@
        } else {
            Seq::empty()
        }
    }

    /// Each key is stored at most once, so `lookup` is unambiguous.
    pub closed spec fn wf(&self) -> bool {
        forall|i: int, j: int|
            0 <= i < j < self.entries@.len() ==> self.entries@[i].key@ != self.entries@[j].key@
    }

    /// With distinct keys, any entry holding key `k` determines `lookup(k)`.
    proof fn lemma_lookup_at(&self, k: Seq<char>, i: int)
        requires
            self.wf(),
            0 <= i < self.entries@.len(),
            self.entries@[i].key@ == k,
        ensures
            self.contains_key(k),
            self.lookup(k) == self.entries@[i].values@,
    {
        assert(self.contains_key(k));
        let j = choose|j: int| 0 <= j < self.entries@.len() && self.entries@[j].key@ == k;
        if j < i {
            assert(self.entries@[j].key@ != self.entries@[i].key@);
        } else if i < j {
            assert(self.entries@[i].key@ != self.entries@[j].key@);
        }
    }

    /// An empty index: every key reads as the empty list.
    pub fn new() -> (r: Self)
        ensures
            r.wf(),
            forall|k: Seq<char>| r.lookup(k) == Seq::<V>::empty(),
    {
        IndexMap { entries: Vec::new() }
    }

    /// Append `value` to the list under `key`, creating the list if the key
    /// is new.  No other key's list changes.
    #[verifier::loop_isolation(false)]
    pub fn append(&mut self, key: &String, value: V)
        requires
            old(self).wf(),
        ensures
            final(self).wf(),
            final(self).lookup(key@) == old(self).lookup(key@).push(value),
            forall|k: Seq<char>|
                k != key@ ==> final(self).lookup(k) == old(self).lookup(k),
    {
        let n = self.entries.len();
        let mut i: usize = 0;
        while i < n
            invariant
                *self == *old(self),
                n == self.entries@.len(),
                i <= n,
                forall|j: int| 0 <= j < i ==> self.entries@[j].key@ != key@,
            decreases n - i,
        {
            if self.entries[i].key == *key {
                self.entries[i].values.push(value);
                proof {
                    let es0 = old(self).entries@;
                    let es1 = self.entries@;
                    assert(es1[i as int].key@ == key@);
                    assert(forall|j: int|
                        0 <= j < es1.len() ==> es1[j].key@ == es0[j].key@);
                    old(self).lemma_lookup_at(key@, i as int);
                    self.lemma_lookup_at(key@, i as int);
                    assert forall|k: Seq<char>| k != key@ implies final(self).lookup(k)
                        == old(self).lookup(k) by {
                        if old(self).contains_key(k) {
                            let j = choose|j: int|
                                0 <= j < es0.len() && es0[j].key@ == k;
                            old(self).lemma_lookup_at(k, j);
                            self.lemma_lookup_at(k, j);
                            assert(es1[j] == es0[j]);
                        } else {
                            assert(!self.contains_key(k));
                        }
                    }
                }
                return;
            }
            i += 1;
        }
        let mut values: Vec<V> = Vec::new();
        values.push(value);
        self.entries.push(IndexEntry { key: key.clone(), values });
        proof {
            let es0 = old(self).entries@;
            let es1 = self.entries@;
            assert(es1.len() == es0.len() + 1);
            assert(forall|j: int| 0 <= j < es0.len() ==> es1[j] == es0[j]);
            assert(es1[es0.len() as int].key@ == key@);
            assert(!old(self).contains_key(key@));
            self.lemma_lookup_at(key@, es0.len() as int);
            assert(final(self).lookup(key@) =~= old(self).lookup(key@).push(value));
            assert forall|k: Seq<char>| k != key@ implies final(self).lookup(k)
                == old(self).lookup(k) by {
                if old(self).contains_key(k) {
                    let j = choose|j: int| 0 <= j < es0.len() && es0[j].key@ == k;
                    old(self).lemma_lookup_at(k, j);
                    self.lemma_lookup_at(k, j);
                } else {
                    assert(!self.contains_key(k)) by {
                        if self.contains_key(k) {
                            let j = choose|j: int|
                                0 <= j < es1.len() && es1[j].key@ == k;
                            assert(j == es0.len());
                        }
                    }
                }
            }
        }
    }

    /// Borrow the list under `key`; `None` when the key was never indexed.
    #[verifier::loop_isolation(false)]
    pub fn get<'a>(&'a self, key: &String) -> (r: Option<&'a Vec<V>>)
        requires
            self.wf(),
        ensures
            match r {
                Some(values) => values@ == self.lookup(key@),
                None => self.lookup(key@) == Seq::<V>::empty(),
            },
    {
        let n = self.entries.len();
        let mut i: usize = 0;
        while i < n
            invariant
                n == self.entries@.len(),
                i <= n,
                forall|j: int| 0 <= j < i ==> self.entries@[j].key@ != key@,
            decreases n - i,
        {
            if self.entries[i].key == *key {
                proof {
                    self.lemma_lookup_at(key@, i as int);
                }
                return Some(&self.entries[i].values);
            }
            i += 1;
        }
        proof {
            assert(!self.contains_key(key@));
        }
        None
    }
}

} // verus!
