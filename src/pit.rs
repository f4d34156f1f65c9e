//! The Pending Interest Table: one outstanding Interest per fingerprint.

use vstd::prelude::*;
use crate::table::{KeyedTable, TableFull};
use crate::wire::PitEntry;

verus! {

/// Most Interests the table holds at once.
pub const PIT_CAPACITY: usize = 1024;

/// Outstanding Interests keyed by name fingerprint. A new Interest for a
/// fingerprint replaces the one held; entries never expire by age.
pub struct Pit {
    table: KeyedTable<PitEntry>,
}

impl Pit {
    /// The outstanding Interests by fingerprint.
    pub closed spec fn view(&self) -> Map<u32, PitEntry> {
        self.table@
    }

    /// The number of outstanding Interests.
    pub closed spec fn size(&self) -> nat {
        self.table.size()
    }

    pub closed spec fn wf(&self) -> bool {
        self.table.wf() && self.table.cap() == PIT_CAPACITY
    }

    /// An empty table.
    pub fn new() -> (r: Pit)
        ensures
            r.wf(),
            r@ == Map::<u32, PitEntry>::empty(),
            r.size() == 0,
    {
        Pit { table: KeyedTable::new(PIT_CAPACITY) }
    }

    /// The number of outstanding Interests.
    pub fn len(&self) -> (r: usize)
        ensures
            r == self.size(),
    {
        self.table.len()
    }

    /// The Interest outstanding for `name_hash`, if any.
    pub fn get(&self, name_hash: u32) -> (r: Option<PitEntry>)
        requires
            self.wf(),
        ensures
            r == if self@.contains_key(name_hash) {
                Some(self@[name_hash])
            } else {
                None
            },
    {
        match self.table.get(name_hash) {
            Some(e) => Some(*e),
            None => None,
        }
    }

    /// Records an Interest for `name_hash` from `face_id` at `timestamp`,
    /// replacing one already held for it. Fails, changing nothing, when the
    /// fingerprint is new and the table is full.
    pub fn insert(&mut self, name_hash: u32, face_id: u32, timestamp: u64) -> (r: Result<
        (),
        TableFull,
    >)
        requires
            old(self).wf(),
        ensures
            final(self).wf(),
            r.is_ok() == (old(self)@.contains_key(name_hash) || old(self).size() < PIT_CAPACITY),
            r.is_ok() ==> final(self)@ == old(self)@.insert(
                name_hash,
                PitEntry { name_hash, face_id, timestamp },
            ),
            r.is_ok() ==> final(self).size() == old(self).size() + if old(self)@.contains_key(
                name_hash,
            ) {
                0int
            } else {
                1int
            },
            r.is_err() ==> final(self)@ == old(self)@ && final(self).size() == old(self).size(),
    {
        self.table.insert(name_hash, PitEntry { name_hash, face_id, timestamp })
    }

    /// Removes and returns the Interest outstanding for `name_hash`, if any.
    pub fn take_if_present(&mut self, name_hash: u32) -> (r: Option<PitEntry>)
        requires
            old(self).wf(),
        ensures
            final(self).wf(),
            r == if old(self)@.contains_key(name_hash) {
                Some(old(self)@[name_hash])
            } else {
                None
            },
            final(self)@ == old(self)@.remove(name_hash),
            final(self).size() == old(self).size() - if old(self)@.contains_key(name_hash) {
                1int
            } else {
                0int
            },
    {
        self.table.take(name_hash)
    }
}

} // verus!
