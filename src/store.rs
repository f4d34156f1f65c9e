//! The Content Store: a bounded, recency-ordered cache of Data metadata, and
//! the payload cache beside it.

use vstd::prelude::*;
use crate::table::{KeyedTable, TableFull};
use crate::wire::CacheEntry;

verus! {

/// Most Data entries the Content Store holds.
pub const CONTENT_STORE_CAPACITY: usize = 512;

/// Most payloads the payload cache holds.
pub const PAYLOAD_CACHE_CAPACITY: usize = 512;

/// Most bytes of one cached payload.
pub const PAYLOAD_MAX_LEN: usize = 256;

/// Whether entry `i` of `s` is the one for `k`.
pub open spec fn entry_at(s: Seq<CacheEntry>, k: u32, i: int) -> bool {
    0 <= i < s.len() && s[i].name_hash == k
}

/// Whether `s` holds an entry for `k`.
pub open spec fn holds(s: Seq<CacheEntry>, k: u32) -> bool {
    exists|i: int| entry_at(s, k, i)
}

/// The position of the entry for `k` in `s`, when `s` holds one.
pub open spec fn position(s: Seq<CacheEntry>, k: u32) -> int {
    choose|i: int| entry_at(s, k, i)
}

/// A valid store order: no fingerprint twice, and within capacity.
pub open spec fn valid_order(s: Seq<CacheEntry>) -> bool {
    &&& s.len() <= CONTENT_STORE_CAPACITY
    &&& forall|i: int, j: int|
        0 <= i < s.len() && 0 <= j < s.len() && i != j ==> s[i].name_hash != s[j].name_hash
}

/// The order after a lookup of `k`: its entry, if any, becomes the most
/// recently used.
pub open spec fn touched(s: Seq<CacheEntry>, k: u32) -> Seq<CacheEntry> {
    if holds(s, k) {
        s.remove(position(s, k)).push(s[position(s, k)])
    } else {
        s
    }
}

/// The order after an upsert of `e`: an entry with its fingerprint is
/// replaced; otherwise, at capacity, the least recently used entry is
/// evicted. Either way `e` becomes the most recently used.
pub open spec fn upserted(s: Seq<CacheEntry>, e: CacheEntry) -> Seq<CacheEntry> {
    if holds(s, e.name_hash) {
        s.remove(position(s, e.name_hash)).push(e)
    } else if s.len() >= CONTENT_STORE_CAPACITY {
        s.remove(0).push(e)
    } else {
        s.push(e)
    }
}

proof fn lemma_position(s: Seq<CacheEntry>, i: int)
    requires
        valid_order(s),
        0 <= i < s.len(),
    ensures
        holds(s, s[i].name_hash),
        position(s, s[i].name_hash) == i,
{
    assert(entry_at(s, s[i].name_hash, i));
}

proof fn lemma_remove_push_valid(s: Seq<CacheEntry>, i: int, e: CacheEntry)
    requires
        valid_order(s),
        0 <= i < s.len(),
        forall|j: int| 0 <= j < s.len() && j != i ==> s[j].name_hash != e.name_hash,
    ensures
        valid_order(s.remove(i).push(e)),
{
    let t = s.remove(i).push(e);
    assert forall|a: int, b: int|
        0 <= a < t.len() && 0 <= b < t.len() && a != b implies t[a].name_hash
        != t[b].name_hash by {
        let a2 = if a < i { a } else { a + 1 };
        let b2 = if b < i { b } else { b + 1 };
        if a < t.len() - 1 {
            assert(t[a] == s[a2]);
        }
        if b < t.len() - 1 {
            assert(t[b] == s[b2]);
        }
    }
}

/// At capacity, an upsert of a new fingerprint evicts exactly the least
/// recently used entry and keeps the others in their order.
pub proof fn lemma_full_store_evicts_oldest(s: Seq<CacheEntry>, e: CacheEntry)
    requires
        valid_order(s),
        s.len() == CONTENT_STORE_CAPACITY,
        !holds(s, e.name_hash),
    ensures
        upserted(s, e) == s.subrange(1, s.len() as int).push(e),
        !holds(upserted(s, e), s[0].name_hash),
        forall|i: int| 1 <= i < s.len() ==> holds(upserted(s, e), #[trigger] s[i].name_hash),
{
    let t = upserted(s, e);
    assert(s.remove(0) =~= s.subrange(1, s.len() as int));
    assert forall|i: int| 1 <= i < s.len() implies holds(t, #[trigger] s[i].name_hash) by {
        assert(entry_at(t, s[i].name_hash, i - 1));
    }
    if holds(t, s[0].name_hash) {
        let j = choose|j: int| entry_at(t, s[0].name_hash, j);
        if j == t.len() - 1 {
            assert(entry_at(s, e.name_hash, 0));
        } else {
            assert(t[j] == s[j + 1]);
        }
    }
}

/// A lookup of an entry protects it from the next eviction: after it, an
/// upsert of a new fingerprint into a full store keeps that entry.
pub proof fn lemma_touch_protects(s: Seq<CacheEntry>, k: u32, e: CacheEntry)
    requires
        valid_order(s),
        s.len() == CONTENT_STORE_CAPACITY,
        holds(s, k),
        !holds(s, e.name_hash),
    ensures
        holds(upserted(touched(s, k), e), k),
{
    let i = position(s, k);
    let t = touched(s, k);
    assert(t == s.remove(i).push(s[i]));
    lemma_remove_push_valid(s, i, s[i]);
    assert(t.len() == s.len());
    assert forall|j: int| 0 <= j < t.len() implies t[j].name_hash != e.name_hash by {
        if j < t.len() - 1 {
            let j2 = if j < i { j } else { j + 1 };
            assert(t[j] == s[j2]);
            assert(!entry_at(s, e.name_hash, j2));
        } else {
            assert(!entry_at(s, e.name_hash, i));
        }
    }
    assert(!holds(t, e.name_hash));
    let u = upserted(t, e);
    assert(u == t.remove(0).push(e));
    assert(entry_at(u, k, t.len() - 2));
}

/// Metadata of Data seen before, least recently used first.
pub struct ContentStore {
    entries: Vec<CacheEntry>,
}

impl ContentStore {
    /// The entries, from least to most recently used.
    pub closed spec fn view(&self) -> Seq<CacheEntry> {
        self.entries@
    }

    pub open spec fn wf(&self) -> bool {
        valid_order(self@)
    }

    /// An empty store.
    pub fn new() -> (r: ContentStore)
        ensures
            r.wf(),
            r@ == Seq::<CacheEntry>::empty(),
    {
        ContentStore { entries: Vec::new() }
    }

    /// The number of entries.
    pub fn len(&self) -> (r: usize)
        ensures
            r == self@.len(),
    {
        self.entries.len()
    }

    fn find(&self, k: u32) -> (r: Option<usize>)
        requires
            self.wf(),
        ensures
            r matches Some(i) ==> entry_at(self@, k, i as int) && position(self@, k) == i,
            r is None ==> !holds(self@, k),
    {
        let mut i: usize = 0;
        while i < self.entries.len()
            invariant
                self.wf(),
                i <= self@.len(),
                forall|j: int| 0 <= j < i ==> !entry_at(self@, k, j),
            decreases self@.len() - i,
        {
            if self.entries[i].name_hash == k {
                proof {
                    lemma_position(self@, i as int);
                }
                return Some(i);
            }
            i = i + 1;
        }
        None
    }

    /// The entry for `k`, if any, without changing the order.
    pub fn peek(&self, k: u32) -> (r: Option<CacheEntry>)
        requires
            self.wf(),
        ensures
            r == if holds(self@, k) {
                Some(self@[position(self@, k)])
            } else {
                None
            },
    {
        match self.find(k) {
            Some(i) => Some(self.entries[i]),
            None => None,
        }
    }

    /// The entry for `k`, if any, which becomes the most recently used.
    pub fn touch_lookup(&mut self, k: u32) -> (r: Option<CacheEntry>)
        requires
            old(self).wf(),
        ensures
            final(self).wf(),
            r == if holds(old(self)@, k) {
                Some(old(self)@[position(old(self)@, k)])
            } else {
                None
            },
            final(self)@ == touched(old(self)@, k),
    {
        match self.find(k) {
            Some(i) => {
                let e = self.entries[i];
                proof {
                    lemma_remove_push_valid(self@, i as int, e);
                }
                self.entries.remove(i);
                self.entries.push(e);
                Some(e)
            },
            None => None,
        }
    }

    /// Stores metadata for `name_hash` as the most recently used entry,
    /// replacing an entry for it or, at capacity, evicting the least
    /// recently used one.
    pub fn upsert(&mut self, name_hash: u32, data_size: u16, timestamp: u64)
        requires
            old(self).wf(),
        ensures
            final(self).wf(),
            final(self)@ == upserted(old(self)@, CacheEntry { name_hash, data_size, timestamp }),
    {
        let e = CacheEntry { name_hash, data_size, timestamp };
        match self.find(name_hash) {
            Some(i) => {
                proof {
                    lemma_remove_push_valid(self@, i as int, e);
                }
                self.entries.remove(i);
            },
            None => {
                if self.entries.len() >= CONTENT_STORE_CAPACITY {
                    proof {
                        assert forall|j: int| 0 <= j < self@.len() && j != 0 implies self@[j].name_hash
                            != e.name_hash by {
                            assert(!entry_at(self@, name_hash, j));
                        }
                        lemma_remove_push_valid(self@, 0, e);
                    }
                    self.entries.remove(0);
                } else {
                    assert forall|j: int| 0 <= j < self@.len() implies self@[j].name_hash
                        != e.name_hash by {
                        assert(!entry_at(self@, name_hash, j));
                    }
                }
            },
        }
        self.entries.push(e);
    }
}

/// Content bytes keyed by fingerprint, meant to back Content Store hits with
/// a reply. The Data path does not fill it.
pub struct PayloadCache {
    table: KeyedTable<Vec<u8>>,
}

impl PayloadCache {
    /// The payloads by fingerprint.
    pub closed spec fn view(&self) -> Map<u32, Seq<u8>> {
        self.table@.map_values(|v: Vec<u8>| v@)
    }

    /// The number of payloads held.
    pub closed spec fn size(&self) -> nat {
        self.table.size()
    }

    pub closed spec fn wf(&self) -> bool {
        self.table.wf() && self.table.cap() == PAYLOAD_CACHE_CAPACITY
    }

    /// An empty cache.
    pub fn new() -> (r: PayloadCache)
        ensures
            r.wf(),
            r@ == Map::<u32, Seq<u8>>::empty(),
            r.size() == 0,
    {
        let r = PayloadCache { table: KeyedTable::new(PAYLOAD_CACHE_CAPACITY) };
        assert(r@ =~= Map::<u32, Seq<u8>>::empty());
        r
    }

    /// The payload held for `k`, if any.
    pub fn get(&self, k: u32) -> (r: Option<&Vec<u8>>)
        requires
            self.wf(),
        ensures
            r.is_some() == self@.contains_key(k),
            r.is_some() ==> r->0@ == self@[k],
    {
        self.table.get(k)
    }

    /// Stores `bytes` under `k`, replacing a payload held for it. Fails,
    /// changing nothing, when `k` is new and the cache is full.
    pub fn put(&mut self, k: u32, bytes: Vec<u8>) -> (r: Result<(), TableFull>)
        requires
            old(self).wf(),
            bytes@.len() <= PAYLOAD_MAX_LEN,
        ensures
            final(self).wf(),
            r.is_ok() == (old(self)@.contains_key(k) || old(self).size()
                < PAYLOAD_CACHE_CAPACITY),
            r.is_ok() ==> final(self)@ == old(self)@.insert(k, bytes@),
            r.is_err() ==> final(self)@ == old(self)@,
    {
        let ghost b = bytes@;
        let r = self.table.insert(k, bytes);
        proof {
            if r.is_ok() {
                assert(self@ =~= old(self)@.insert(k, b));
            } else {
                assert(self@ =~= old(self)@);
            }
        }
        r
    }
}

} // verus!
