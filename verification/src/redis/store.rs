//! The key-value store: binary keys, each with a value and an optional
//! deadline.

use crate::redis::clock::Timestamp;
use crate::redis::resp::BulkString;
use vstd::prelude::*;

verus! {

/// What the store holds for a key.
#[derive(Debug, PartialEq, Eq)]
pub struct StoredData {
    /// The value that was set.
    pub value: BulkString,
    /// The point in time after which the entry counts as expired, if any.
    pub deadline: Option<Timestamp>,
}

/// An entry as mathematics: the bytes of the value, and the deadline in
/// milliseconds since the Unix epoch.
pub struct EntryView {
    pub value: Option<Seq<u8>>,
    pub deadline: Option<u64>,
}

impl View for StoredData {
    type V = EntryView;

    open spec fn view(&self) -> EntryView {
        EntryView {
            value: self.value@,
            deadline: match self.deadline {
                Some(t) => Some(t@),
                None => None,
            },
        }
    }
}

impl Clone for StoredData {
    fn clone(&self) -> (r: Self)
        ensures
            r@ == self@,
    {
        StoredData { value: self.value.clone(), deadline: self.deadline }
    }
}

/// Whether an entry counts as expired at the time `now`: it has a deadline,
/// and `now` lies after it.
pub open spec fn expired_at(entry: EntryView, now: u64) -> bool {
    entry.deadline matches Some(deadline) && now > deadline
}

impl StoredData {
    /// Tells whether the entry counts as expired at the time `now`.
    pub fn has_expired_at(&self, now: Timestamp) -> (r: bool)
        ensures
            r == expired_at(self@, now@),
    {
        match &self.deadline {
            Some(deadline) => now.gt(deadline),
            None => false,
        }
    }

    /// Tells whether the entry counts as expired by the system clock. An
    /// entry without a deadline never does.
    pub fn has_expired(&self) -> (r: bool)
        ensures
            self@.deadline is None ==> !r,
            exists|now: u64| r == expired_at(self@, now),
    {
        let now = Timestamp::now();
        let r = self.has_expired_at(now);
        assert(r == expired_at(self@, now@));
        r
    }
}

/// A map from keys to entries. No key occurs twice, and the order in which
/// keys were set is of no account: the view is a map. Entries are kept in a
/// vector, so looking a key up takes time in proportion to their number.
#[derive(Debug)]
pub struct Store {
    entries: Vec<(BulkString, StoredData)>,
}

impl View for Store {
    type V = Map<Option<Seq<u8>>, EntryView>;

    closed spec fn view(&self) -> Map<Option<Seq<u8>>, EntryView> {
        Map::new(
            |k: Option<Seq<u8>>| self.holds(k),
            |k: Option<Seq<u8>>| self.entries@[self.index_of(k)].1@,
        )
    }
}

impl Store {
    /// The key at index `i`.
    spec fn key_at(self, i: int) -> Option<Seq<u8>> {
        self.entries@[i].0@
    }

    /// Whether some entry has the key `k`.
    spec fn holds(self, k: Option<Seq<u8>>) -> bool {
        exists|i: int| 0 <= i < self.entries@.len() && self.key_at(i) == k
    }

    /// An index at which the key `k` stands.
    spec fn index_of(self, k: Option<Seq<u8>>) -> int {
        choose|i: int| 0 <= i < self.entries@.len() && self.key_at(i) == k
    }

    /// The invariant of the store: no key occurs twice. Every store that
    /// this module hands out is well formed, and its methods keep it so.
    pub closed spec fn wf(&self) -> bool {
        self.keys_distinct()
    }

    /// No key occurs twice.
    spec fn keys_distinct(self) -> bool {
        forall|i: int, j: int|
            0 <= i < j < self.entries@.len() ==> self.key_at(i) != self.key_at(j)
    }

    /// The entry at index `i` is what the view holds for its key.
    proof fn lemma_entry(self, i: int)
        requires
            self.keys_distinct(),
            0 <= i < self.entries@.len(),
        ensures
            self@.contains_key(self.key_at(i)),
            self@[self.key_at(i)] == self.entries@[i].1@,
    {
        let k = self.key_at(i);
        assert(self.holds(k));
        let j = self.index_of(k);
        assert(0 <= j < self.entries@.len() && self.key_at(j) == k);
        if j < i {
            assert(self.key_at(j) != self.key_at(i));
        } else if i < j {
            assert(self.key_at(i) != self.key_at(j));
        }
    }

    /// A store without entries.
    pub fn new() -> (r: Self)
        ensures
            r.wf(),
            r@ == Map::<Option<Seq<u8>>, EntryView>::empty(),
    {
        let r = Store { entries: Vec::new() };
        assert(r@ =~= Map::<Option<Seq<u8>>, EntryView>::empty());
        r
    }

    /// Looks up `key`.
    pub fn get(&self, key: &BulkString) -> (r: Option<&StoredData>)
        requires
            self.wf(),
        ensures
            match r {
                Some(entry) => self@.contains_key(key@) && entry@ == self@[key@],
                None => !self@.contains_key(key@),
            },
    {
        let mut i: usize = 0;
        while i < self.entries.len()
            invariant
                i <= self.entries@.len(),
                self.keys_distinct(),
                forall|j: int| 0 <= j < i ==> self.key_at(j) != key@,
            decreases self.entries@.len() - i,
        {
            if self.entries[i].0 == *key {
                proof {
                    self.lemma_entry(i as int);
                }
                return Some(&self.entries[i].1);
            }
            i = i + 1;
        }
        None
    }

    /// Removes `key` and its entry, if the store holds it.
    pub fn remove(&mut self, key: &BulkString)
        requires
            old(self).wf(),
        ensures
            final(self).wf(),
            final(self)@ == old(self)@.remove(key@),
    {
        let mut i: usize = 0;
        while i < self.entries.len()
            invariant
                i <= self.entries@.len(),
                *self == *old(self),
                self.keys_distinct(),
                forall|j: int| 0 <= j < i ==> self.key_at(j) != key@,
            decreases self.entries@.len() - i,
        {
            if self.entries[i].0 == *key {
                let ghost before = *self;
                self.entries.swap_remove(i);
                proof {
                    let after = *self;
                    assert(after.keys_distinct()) by {
                        assert forall|a: int, b: int|
                            0 <= a < b < after.entries@.len() implies after.key_at(a)
                            != after.key_at(b) by {
                            let a0 = if a == i { before.entries@.len() - 1 } else { a };
                            let b0 = if b == i { before.entries@.len() - 1 } else { b };
                            assert(after.key_at(a) == before.key_at(a0));
                            assert(after.key_at(b) == before.key_at(b0));
                            if a0 < b0 {
                                assert(before.key_at(a0) != before.key_at(b0));
                            } else {
                                assert(before.key_at(b0) != before.key_at(a0));
                            }
                        }
                    }
                    assert forall|k: Option<Seq<u8>>| after.holds(k) <==> (before.holds(k) && k
                        != key@) by {
                        if after.holds(k) {
                            let a = after.index_of(k);
                            let a0 = if a == i { before.entries@.len() - 1 } else { a };
                            assert(before.key_at(a0) == k);
                            if a0 < i {
                                assert(before.key_at(a0) != before.key_at(i as int));
                            } else {
                                assert(before.key_at(i as int) != before.key_at(a0));
                            }
                        }
                        if before.holds(k) && k != key@ {
                            let b = before.index_of(k);
                            let b1 = if b == before.entries@.len() - 1 { i as int } else { b };
                            assert(after.key_at(b1) == k);
                        }
                    }
                    assert forall|k: Option<Seq<u8>>| after.holds(k) implies after@[k]
                        == before@[k] by {
                        let a = after.index_of(k);
                        let a0 = if a == i { before.entries@.len() - 1 } else { a };
                        assert(before.key_at(a0) == k);
                        after.lemma_entry(a);
                        before.lemma_entry(a0);
                    }
                    assert(after@ =~= before@.remove(key@));
                }
                return ;
            }
            i = i + 1;
        }
        proof {
            assert(!self.holds(key@));
            assert(self@ =~= old(self)@.remove(key@));
        }
    }

    /// Sets the entry of `key`, in place of the one that the store held for
    /// it, if any.
    pub fn insert(&mut self, key: BulkString, data: StoredData)
        requires
            old(self).wf(),
        ensures
            final(self).wf(),
            final(self)@ == old(self)@.insert(key@, data@),
    {
        self.remove(&key);
        let ghost before = *self;
        let ghost n = before.entries@.len() as int;
        assert(!before.holds(key@)) by {
            assert(!before@.contains_key(key@));
        }
        self.entries.push((key, data));
        proof {
            let after = *self;
            assert(after.entries@[n].0@ == key@);
            assert(after.keys_distinct()) by {
                assert forall|a: int, b: int|
                    0 <= a < b < after.entries@.len() implies after.key_at(a) != after.key_at(
                    b,
                ) by {
                    assert(after.key_at(a) == before.key_at(a));
                    if b < n {
                        assert(after.key_at(b) == before.key_at(b));
                    } else {
                        assert(before.key_at(a) != key@);
                    }
                }
            }
            assert forall|k: Option<Seq<u8>>| after.holds(k) <==> (before.holds(k) || k
                == key@) by {
                if after.holds(k) {
                    let a = after.index_of(k);
                    if a < n {
                        assert(before.key_at(a) == k);
                    }
                }
                if before.holds(k) {
                    let b = before.index_of(k);
                    assert(after.key_at(b) == k);
                }
                if k == key@ {
                    assert(after.key_at(n) == k);
                }
            }
            assert forall|k: Option<Seq<u8>>| after.holds(k) implies after@[k] == before@.insert(
                key@,
                data@,
            )[k] by {
                let a = after.index_of(k);
                after.lemma_entry(a);
                if a < n {
                    assert(before.key_at(a) == k);
                    before.lemma_entry(a);
                }
            }
            assert(after@ =~= before@.insert(key@, data@));
            assert(before@ == old(self)@.remove(key@));
            assert(old(self)@.remove(key@).insert(key@, data@) =~= old(self)@.insert(
                key@,
                data@,
            ));
        }
    }
}

} // verus!
