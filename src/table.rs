//! A bounded table keyed by name fingerprint, without eviction: an insert of
//! a new key into a full table fails.

use vstd::prelude::*;

verus! {

/// Whether slot `i` of `s` holds key `k`.
pub open spec fn key_at<V>(s: Seq<(u32, V)>, k: u32, i: int) -> bool {
    0 <= i < s.len() && s[i].0 == k
}

/// Whether some slot of `s` holds key `k`.
pub open spec fn has_key<V>(s: Seq<(u32, V)>, k: u32) -> bool {
    exists|i: int| key_at(s, k, i)
}

/// No two slots of `s` hold the same key.
pub open spec fn keys_distinct<V>(s: Seq<(u32, V)>) -> bool {
    forall|i: int, j: int| 0 <= i < s.len() && 0 <= j < s.len() && i != j ==> s[i].0 != s[j].0
}

/// The map from key to value that the slots `s` stand for.
pub open spec fn map_of<V>(s: Seq<(u32, V)>) -> Map<u32, V> {
    Map::new(|k: u32| has_key(s, k), |k: u32| s[choose|i: int| key_at(s, k, i)].1)
}

proof fn lemma_map_of_at<V>(s: Seq<(u32, V)>, i: int)
    requires
        keys_distinct(s),
        0 <= i < s.len(),
    ensures
        map_of(s).contains_key(s[i].0),
        map_of(s)[s[i].0] == s[i].1,
{
    assert(key_at(s, s[i].0, i));
    let j = choose|j: int| key_at(s, s[i].0, j);
    assert(j == i);
}

proof fn lemma_map_of_update<V>(s: Seq<(u32, V)>, i: int, v: V)
    requires
        keys_distinct(s),
        0 <= i < s.len(),
    ensures
        keys_distinct(s.update(i, (s[i].0, v))),
        map_of(s.update(i, (s[i].0, v))) == map_of(s).insert(s[i].0, v),
{
    let k = s[i].0;
    let t = s.update(i, (k, v));
    assert(keys_distinct(t));
    lemma_map_of_at(t, i);
    assert forall|k2: u32| #[trigger] has_key(t, k2) == has_key(s, k2) by {
        if has_key(s, k2) {
            let j = choose|j: int| key_at(s, k2, j);
            assert(key_at(t, k2, j));
        }
        if has_key(t, k2) {
            let j = choose|j: int| key_at(t, k2, j);
            assert(key_at(s, k2, j));
        }
    }
    assert forall|k2: u32| k2 != k && has_key(s, k2) implies map_of(t)[k2] == map_of(s)[k2] by {
        let j = choose|j: int| key_at(s, k2, j);
        lemma_map_of_at(s, j);
        lemma_map_of_at(t, j);
    }
    assert(map_of(t) =~= map_of(s).insert(k, v));
}

proof fn lemma_map_of_push<V>(s: Seq<(u32, V)>, k: u32, v: V)
    requires
        keys_distinct(s),
        !has_key(s, k),
    ensures
        keys_distinct(s.push((k, v))),
        map_of(s.push((k, v))) == map_of(s).insert(k, v),
{
    let t = s.push((k, v));
    assert forall|i: int, j: int|
        0 <= i < t.len() && 0 <= j < t.len() && i != j implies t[i].0 != t[j].0 by {
        if i == s.len() {
            assert(!key_at(s, k, j));
        } else if j == s.len() {
            assert(!key_at(s, k, i));
        }
    }
    lemma_map_of_at(t, s.len() as int);
    assert forall|k2: u32| #[trigger] has_key(t, k2) == (has_key(s, k2) || k2 == k) by {
        if has_key(s, k2) {
            let j = choose|j: int| key_at(s, k2, j);
            assert(key_at(t, k2, j));
        }
        if k2 == k {
            assert(key_at(t, k2, s.len() as int));
        }
        if has_key(t, k2) && k2 != k {
            let j = choose|j: int| key_at(t, k2, j);
            assert(key_at(s, k2, j));
        }
    }
    assert forall|k2: u32| k2 != k && has_key(s, k2) implies map_of(t)[k2] == map_of(s)[k2] by {
        let j = choose|j: int| key_at(s, k2, j);
        lemma_map_of_at(s, j);
        lemma_map_of_at(t, j);
    }
    assert(map_of(t) =~= map_of(s).insert(k, v));
}

proof fn lemma_map_of_remove<V>(s: Seq<(u32, V)>, i: int)
    requires
        keys_distinct(s),
        0 <= i < s.len(),
    ensures
        keys_distinct(s.remove(i)),
        map_of(s.remove(i)) == map_of(s).remove(s[i].0),
{
    let k = s[i].0;
    let t = s.remove(i);
    assert forall|a: int, b: int|
        0 <= a < t.len() && 0 <= b < t.len() && a != b implies t[a].0 != t[b].0 by {
        let a2 = if a < i { a } else { a + 1 };
        let b2 = if b < i { b } else { b + 1 };
        assert(t[a] == s[a2] && t[b] == s[b2]);
    }
    assert forall|k2: u32| #[trigger] has_key(t, k2) == (has_key(s, k2) && k2 != k) by {
        if has_key(s, k2) && k2 != k {
            let j = choose|j: int| key_at(s, k2, j);
            if j < i {
                assert(key_at(t, k2, j));
            } else {
                assert(j != i);
                assert(key_at(t, k2, j - 1));
            }
        }
        if has_key(t, k2) {
            let j = choose|j: int| key_at(t, k2, j);
            let j2 = if j < i { j } else { j + 1 };
            assert(key_at(s, k2, j2));
            assert(j2 != i);
        }
    }
    assert forall|k2: u32| k2 != k && has_key(s, k2) implies map_of(t)[k2] == map_of(s)[k2] by {
        let j = choose|j: int| key_at(s, k2, j);
        lemma_map_of_at(s, j);
        assert(j != i);
        let j2 = if j < i { j } else { j - 1 };
        assert(t[j2] == s[j]);
        lemma_map_of_at(t, j2);
    }
    assert(map_of(t) =~= map_of(s).remove(k));
}

/// Error of an insert of a new key into a table that is full.
#[derive(Clone, Copy, Debug, PartialEq, Eq, Structural)]
pub struct TableFull;

/// A table of at most `capacity` values keyed by fingerprint.
pub struct KeyedTable<V> {
    slots: Vec<(u32, V)>,
    capacity: usize,
}

impl<V> KeyedTable<V> {
    /// The key-to-value map the table holds.
    pub closed spec fn view(&self) -> Map<u32, V> {
        map_of(self.slots@)
    }

    /// The number of keys the table holds.
    pub closed spec fn size(&self) -> nat {
        self.slots@.len()
    }

    /// The most keys the table can hold.
    pub closed spec fn cap(&self) -> nat {
        self.capacity as nat
    }

    pub closed spec fn wf(&self) -> bool {
        keys_distinct(self.slots@) && self.slots@.len() <= self.capacity
    }

    /// An empty table that holds at most `capacity` keys.
    pub fn new(capacity: usize) -> (r: KeyedTable<V>)
        ensures
            r.wf(),
            r@ == Map::<u32, V>::empty(),
            r.size() == 0,
            r.cap() == capacity,
    {
        let r = KeyedTable { slots: Vec::new(), capacity };
        assert(r@ =~= Map::<u32, V>::empty());
        r
    }

    /// The number of keys the table holds.
    pub fn len(&self) -> (r: usize)
        ensures
            r == self.size(),
    {
        self.slots.len()
    }

    fn find(&self, k: u32) -> (r: Option<usize>)
        requires
            self.wf(),
        ensures
            r matches Some(i) ==> key_at(self.slots@, k, i as int),
            r is None ==> !has_key(self.slots@, k),
    {
        let mut i: usize = 0;
        while i < self.slots.len()
            invariant
                i <= self.slots@.len(),
                forall|j: int| 0 <= j < i ==> !key_at(self.slots@, k, j),
            decreases self.slots@.len() - i,
        {
            if self.slots[i].0 == k {
                return Some(i);
            }
            i = i + 1;
        }
        None
    }

    /// The value held for `k`, if any.
    pub fn get(&self, k: u32) -> (r: Option<&V>)
        requires
            self.wf(),
        ensures
            r.is_some() == self@.contains_key(k),
            r.is_some() ==> *r->0 == self@[k],
    {
        match self.find(k) {
            Some(i) => {
                proof {
                    lemma_map_of_at(self.slots@, i as int);
                }
                Some(&self.slots[i].1)
            },
            None => None,
        }
    }

    /// Stores `v` under `k`, replacing a value held for `k`. Fails, and
    /// changes nothing, when `k` is new and the table is full.
    pub fn insert(&mut self, k: u32, v: V) -> (r: Result<(), TableFull>)
        requires
            old(self).wf(),
        ensures
            final(self).wf(),
            final(self).cap() == old(self).cap(),
            r.is_ok() == (old(self)@.contains_key(k) || old(self).size() < old(self).cap()),
            r.is_ok() ==> final(self)@ == old(self)@.insert(k, v),
            r.is_ok() ==> final(self).size() == old(self).size() + if old(self)@.contains_key(
                k,
            ) {
                0int
            } else {
                1int
            },
            r.is_err() ==> final(self)@ == old(self)@ && final(self).size() == old(self).size(),
    {
        match self.find(k) {
            Some(i) => {
                proof {
                    lemma_map_of_at(self.slots@, i as int);
                    lemma_map_of_update(self.slots@, i as int, v);
                }
                self.slots.set(i, (k, v));
                Ok(())
            },
            None => {
                if self.slots.len() >= self.capacity {
                    return Err(TableFull);
                }
                proof {
                    lemma_map_of_push(self.slots@, k, v);
                }
                self.slots.push((k, v));
                Ok(())
            },
        }
    }

    /// Removes the value held for `k` and hands it back, if there is one.
    pub fn take(&mut self, k: u32) -> (r: Option<V>)
        requires
            old(self).wf(),
        ensures
            final(self).wf(),
            final(self).cap() == old(self).cap(),
            r.is_some() == old(self)@.contains_key(k),
            r.is_some() ==> r->0 == old(self)@[k],
            final(self)@ == old(self)@.remove(k),
            final(self).size() == old(self).size() - if old(self)@.contains_key(k) {
                1int
            } else {
                0int
            },
    {
        match self.find(k) {
            Some(i) => {
                proof {
                    lemma_map_of_at(self.slots@, i as int);
                    lemma_map_of_remove(self.slots@, i as int);
                }
                let (_, v) = self.slots.remove(i);
                Some(v)
            },
            None => {
                assert(self@ =~= self@.remove(k));
                None
            },
        }
    }
}

} // verus!
