//! A table from 32 byte ed25519 public keys to records, the shape of the
//! publisher registry and of the pending registry changes.

use vstd::prelude::*;

verus! {

/// A 32 byte ed25519 public key.
pub type PublisherKey = [u8; 32];

/// Whether two keys hold the same bytes.
pub fn keys_equal(a: &PublisherKey, b: &PublisherKey) -> (r: bool)
    ensures
        r == (a@ == b@),
{
    let mut i: usize = 0;
    while i < 32
        invariant
            i <= 32,
            a@.len() == 32,
            b@.len() == 32,
            forall|k: int| 0 <= k < i ==> a@[k] == b@[k],
        decreases 32 - i,
    {
        if a[i] != b[i] {
            assert(a@[i as int] != b@[i as int]);
            return false;
        }
        i = i + 1;
    }
    assert(a@ =~= b@);
    true
}

/// The table a list of entries describes when they are stored in order, a
/// later entry for a key replacing an earlier one.
pub open spec fn key_entries_map<V>(s: Seq<(PublisherKey, V)>) -> Map<Seq<u8>, V>
    decreases s.len(),
{
    if s.len() == 0 {
        Map::empty()
    } else {
        key_entries_map(s.drop_last()).insert(s.last().0@, s.last().1)
    }
}

/// Records keyed by public key: at most one record per key.
pub struct KeyTable<V> {
    entries: Vec<(PublisherKey, V)>,
    contents: Ghost<Map<Seq<u8>, V>>,
}

impl<V> View for KeyTable<V> {
    type V = Map<Seq<u8>, V>;

    closed spec fn view(&self) -> Map<Seq<u8>, V> {
        self.contents@
    }
}

impl<V: Copy> KeyTable<V> {
    /// The entries and the map agree, and no key occurs twice.
    pub closed spec fn wf(&self) -> bool {
        &&& forall|i: int|
            0 <= i < self.entries@.len() ==> {
                &&& #[trigger] self.contents@.contains_key(self.entries@[i].0@)
                &&& self.contents@[self.entries@[i].0@] == self.entries@[i].1
            }
        &&& forall|k: Seq<u8>|
            #[trigger] self.contents@.contains_key(k) ==> exists|i: int|
                0 <= i < self.entries@.len() && self.entries@[i].0@ == k
        &&& forall|i: int, j: int|
            0 <= i < self.entries@.len() && 0 <= j < self.entries@.len() && i != j
                ==> self.entries@[i].0@ != self.entries@[j].0@
    }

    /// An empty table.
    pub fn new() -> (t: Self)
        ensures
            t.wf(),
            t@ == Map::<Seq<u8>, V>::empty(),
    {
        KeyTable { entries: Vec::new(), contents: Ghost(Map::empty()) }
    }

    /// A table holding `entries`, stored in order.
    pub fn from_entries(entries: &Vec<(PublisherKey, V)>) -> (t: Self)
        ensures
            t.wf(),
            t@ == key_entries_map(entries@),
    {
        let mut t = KeyTable::new();
        let mut i: usize = 0;
        while i < entries.len()
            invariant
                i <= entries@.len(),
                t.wf(),
                t@ == key_entries_map(entries@.subrange(0, i as int)),
            decreases entries@.len() - i,
        {
            let (key, value) = entries[i];
            t.insert(key, value);
            proof {
                let next = entries@.subrange(0, i + 1);
                assert(next.drop_last() =~= entries@.subrange(0, i as int));
                assert(next.last() == (key, value));
            }
            i = i + 1;
        }
        assert(entries@.subrange(0, entries@.len() as int) =~= entries@);
        t
    }

    /// The position of `key` in the table, if present.
    fn find(&self, key: &PublisherKey) -> (r: Option<usize>)
        requires
            self.wf(),
        ensures
            match r {
                Some(i) => i < self.entries@.len() && self.entries@[i as int].0@ == key@,
                None => !self@.contains_key(key@),
            },
    {
        let mut i: usize = 0;
        while i < self.entries.len()
            invariant
                self.wf(),
                i <= self.entries@.len(),
                forall|k: int| 0 <= k < i ==> self.entries@[k].0@ != key@,
            decreases self.entries@.len() - i,
        {
            if keys_equal(&self.entries[i].0, key) {
                return Some(i);
            }
            i = i + 1;
        }
        proof {
            if self@.contains_key(key@) {
                let j = choose|j: int| 0 <= j < self.entries@.len() && self.entries@[j].0@ == key@;
                assert(self.entries@[j].0@ != key@);
            }
        }
        None
    }

    /// The record under `key`, if any.
    pub fn get(&self, key: &PublisherKey) -> (r: Option<V>)
        requires
            self.wf(),
        ensures
            r == (if self@.contains_key(key@) {
                Some(self@[key@])
            } else {
                None::<V>
            }),
    {
        match self.find(key) {
            Some(i) => {
                let v = self.entries[i].1;
                proof {
                    assert(self.contents@.contains_key(self.entries@[i as int].0@));
                }
                Some(v)
            },
            None => None,
        }
    }

    /// Whether `key` has a record.
    pub fn contains(&self, key: &PublisherKey) -> (r: bool)
        requires
            self.wf(),
        ensures
            r == self@.contains_key(key@),
    {
        match self.find(key) {
            Some(i) => {
                proof {
                    assert(self.contents@.contains_key(self.entries@[i as int].0@));
                }
                true
            },
            None => false,
        }
    }

    /// Store `value` under `key`, replacing any record there.
    pub fn insert(&mut self, key: PublisherKey, value: V)
        requires
            old(self).wf(),
        ensures
            final(self).wf(),
            final(self)@ == old(self)@.insert(key@, value),
    {
        match self.find(&key) {
            Some(i) => {
                let ghost old_entries = self.entries@;
                self.entries.set(i, (key, value));
                self.contents = Ghost(self.contents@.insert(key@, value));
                proof {
                    assert forall|k: Seq<u8>| #[trigger] self.contents@.contains_key(k) implies exists|j: int|
                        0 <= j < self.entries@.len() && self.entries@[j].0@ == k by {
                        if k != key@ {
                            let j = choose|j: int| 0 <= j < old_entries.len() && old_entries[j].0@ == k;
                            assert(self.entries@[j].0@ == k);
                        } else {
                            assert(self.entries@[i as int].0@ == k);
                        }
                    }
                    assert forall|j: int| 0 <= j < self.entries@.len() implies {
                        &&& #[trigger] self.contents@.contains_key(self.entries@[j].0@)
                        &&& self.contents@[self.entries@[j].0@] == self.entries@[j].1
                    } by {
                        if j != i {
                            assert(self.entries@[j] == old_entries[j]);
                            assert(old_entries[j].0@ != old_entries[i as int].0@);
                            assert(old(self).contents@.contains_key(old_entries[j].0@));
                        } else {
                            assert(self.entries@[j] == (key, value));
                        }
                    }
                    assert forall|a: int, b: int|
                        0 <= a < self.entries@.len() && 0 <= b < self.entries@.len() && a != b
                        implies self.entries@[a].0@ != self.entries@[b].0@ by {
                        assert(old_entries[a].0@ != old_entries[b].0@);
                        assert(self.entries@[a].0@ == old_entries[a].0@);
                        assert(self.entries@[b].0@ == old_entries[b].0@);
                    }
                }
            },
            None => {
                let ghost old_entries = self.entries@;
                self.entries.push((key, value));
                self.contents = Ghost(self.contents@.insert(key@, value));
                proof {
                    let n = old_entries.len() as int;
                    assert forall|k: Seq<u8>| #[trigger] self.contents@.contains_key(k) implies exists|j: int|
                        0 <= j < self.entries@.len() && self.entries@[j].0@ == k by {
                        if k != key@ {
                            let j = choose|j: int| 0 <= j < old_entries.len() && old_entries[j].0@ == k;
                            assert(self.entries@[j].0@ == k);
                        } else {
                            assert(self.entries@[n].0@ == k);
                        }
                    }
                    assert forall|a: int, b: int|
                        0 <= a < self.entries@.len() && 0 <= b < self.entries@.len() && a != b
                        implies self.entries@[a].0@ != self.entries@[b].0@ by {
                        if a == n {
                            assert(old(self).contents@.contains_key(old_entries[b].0@));
                        } else if b == n {
                            assert(old(self).contents@.contains_key(old_entries[a].0@));
                        }
                    }
                }
            },
        }
    }

    /// Drop the record under `key`, if any.
    pub fn remove(&mut self, key: &PublisherKey)
        requires
            old(self).wf(),
        ensures
            final(self).wf(),
            final(self)@ == old(self)@.remove(key@),
    {
        match self.find(key) {
            Some(i) => {
                let ghost old_entries = self.entries@;
                let ghost last = old_entries.len() - 1;
                self.entries.swap_remove(i);
                self.contents = Ghost(self.contents@.remove(key@));
                proof {
                    assert forall|j: int| 0 <= j < self.entries@.len() implies {
                        &&& #[trigger] self.contents@.contains_key(self.entries@[j].0@)
                        &&& self.contents@[self.entries@[j].0@] == self.entries@[j].1
                    } by {
                        let oj = if j == i { last } else { j };
                        assert(self.entries@[j] == old_entries[oj]);
                        assert(oj != i);
                        assert(old_entries[oj].0@ != old_entries[i as int].0@);
                        assert(old(self).contents@.contains_key(old_entries[oj].0@));
                    }
                    assert forall|k: Seq<u8>| #[trigger] self.contents@.contains_key(k) implies exists|j: int|
                        0 <= j < self.entries@.len() && self.entries@[j].0@ == k by {
                        let j = choose|j: int| 0 <= j < old_entries.len() && old_entries[j].0@ == k;
                        assert(j != i);
                        if j == last {
                            assert(self.entries@[i as int].0@ == k);
                        } else {
                            assert(self.entries@[j].0@ == k);
                        }
                    }
                    assert forall|a: int, b: int|
                        0 <= a < self.entries@.len() && 0 <= b < self.entries@.len() && a != b
                        implies self.entries@[a].0@ != self.entries@[b].0@ by {
                        let oa = if a == i { last } else { a };
                        let ob = if b == i { last } else { b };
                        assert(self.entries@[a] == old_entries[oa]);
                        assert(self.entries@[b] == old_entries[ob]);
                    }
                }
            },
            None => {
                assert(self.contents@.remove(key@) =~= self.contents@);
            },
        }
    }
}

} // verus!
