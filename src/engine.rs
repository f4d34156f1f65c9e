//! The forwarding decision engine: one call per inbound frame, composing the
//! classifier, the Pending Interest Table, the Content Store and the counters
//! into one action.

use vstd::prelude::*;
use crate::classify::{classify, ndn_offset, spec_classify, Classification, MIN_FRAME_LEN};
use crate::pit::{Pit, PIT_CAPACITY};
use crate::store::{holds, touched, upserted, ContentStore, PayloadCache};
use crate::wire::{CacheEntry, PacketStats, PitEntry};

verus! {

/// What to do with a frame.
#[derive(Clone, Copy, Debug, PartialEq, Eq, Structural)]
pub enum Action {
    /// Hand the frame on to the full stack.
    Pass,
    /// Discard the frame by policy: no outstanding Interest, or no room.
    Drop,
    /// Send a cached reply back out of the face it came in on.
    Reply,
    /// An internal fault. The engine itself has none; the hook that runs it
    /// reports its own faults this way.
    Abort,
}

/// XDP return codes, as the kernel numbers them.
pub const XDP_ABORTED: u32 = 0;
pub const XDP_DROP: u32 = 1;
pub const XDP_PASS: u32 = 2;
pub const XDP_TX: u32 = 3;

impl Action {
    pub open spec fn spec_xdp_code(self) -> u32 {
        match self {
            Action::Pass => XDP_PASS,
            Action::Drop => XDP_DROP,
            Action::Reply => XDP_TX,
            Action::Abort => XDP_ABORTED,
        }
    }

    /// The XDP return code that carries out this action.
    #[verifier::when_used_as_spec(spec_xdp_code)]
    pub fn xdp_code(self) -> (r: u32)
        ensures
            r == self.spec_xdp_code(),
    {
        match self {
            Action::Pass => XDP_PASS,
            Action::Drop => XDP_DROP,
            Action::Reply => XDP_TX,
            Action::Abort => XDP_ABORTED,
        }
    }
}

/// The engine's state as values: the PIT by fingerprint and its size, the
/// Content Store from least to most recently used, the payloads, and the
/// counters.
pub struct ForwarderModel {
    pub pit: Map<u32, PitEntry>,
    pub pit_size: nat,
    pub store: Seq<CacheEntry>,
    pub payloads: Map<u32, Seq<u8>>,
    pub stats: PacketStats,
}

/// A counter after one more event; it stays at its maximum once there.
pub open spec fn incr(x: u32) -> u32 {
    if x < u32::MAX {
        (x + 1) as u32
    } else {
        x
    }
}

fn incr_counter(x: u32) -> (r: u32)
    ensures
        r == incr(x),
{
    x.saturating_add(1)
}

/// The counters after a frame of classification `c` enters: the entry count
/// (`drops`) always, the port-check count (`forwards`) once the port check is
/// reached, and the Interest or Data count only for a complete Interest or
/// Data packet. A payload cut short of its fields is not intercepted and
/// counts as neither.
pub open spec fn counted(s: PacketStats, c: Classification) -> PacketStats {
    PacketStats {
        drops: incr(s.drops),
        forwards: if c.reached_port_check() {
            incr(s.forwards)
        } else {
            s.forwards
        },
        interest_received: if c is Interest {
            incr(s.interest_received)
        } else {
            s.interest_received
        },
        data_received: if c is Data {
            incr(s.data_received)
        } else {
            s.data_received
        },
        ..s
    }
}

/// The state and action after an Interest for `k` from `face` at `now`.
///
/// A Content Store hit counts a cache hit and refreshes the entry; with a
/// payload behind it the Interest is answered. Otherwise the Interest is
/// recorded in the PIT and passed on, or dropped when the PIT is full.
pub open spec fn interest_step(m: ForwarderModel, k: u32, face: u32, now: u64) -> (
    ForwarderModel,
    Action,
) {
    let hit = holds(m.store, k);
    let m1 = if hit {
        ForwarderModel {
            store: touched(m.store, k),
            stats: PacketStats { cache_hits: incr(m.stats.cache_hits), ..m.stats },
            ..m
        }
    } else {
        m
    };
    if hit && m.payloads.contains_key(k) {
        (m1, Action::Reply)
    } else if m1.pit.contains_key(k) || m1.pit_size < PIT_CAPACITY {
        (
            ForwarderModel {
                pit: m1.pit.insert(k, PitEntry { name_hash: k, face_id: face, timestamp: now }),
                pit_size: if m1.pit.contains_key(k) {
                    m1.pit_size
                } else {
                    m1.pit_size + 1
                },
                ..m1
            },
            Action::Pass,
        )
    } else {
        (
            ForwarderModel {
                stats: PacketStats { drops: incr(m1.stats.drops), ..m1.stats },
                ..m1
            },
            Action::Drop,
        )
    }
}

/// The state and action after a Data packet for `k` announcing `size` bytes
/// at `now`: with an Interest outstanding for `k` it is consumed, a PIT hit is
/// counted, the Content Store records the Data and the frame is passed on;
/// unsolicited Data is dropped.
pub open spec fn data_step(m: ForwarderModel, k: u32, size: u16, now: u64) -> (
    ForwarderModel,
    Action,
) {
    if m.pit.contains_key(k) {
        (
            ForwarderModel {
                pit: m.pit.remove(k),
                pit_size: (m.pit_size - 1) as nat,
                store: upserted(m.store, CacheEntry { name_hash: k, data_size: size, timestamp: now }),
                stats: PacketStats { pit_hits: incr(m.stats.pit_hits), ..m.stats },
                ..m
            },
            Action::Pass,
        )
    } else {
        (
            ForwarderModel { stats: PacketStats { drops: incr(m.stats.drops), ..m.stats }, ..m },
            Action::Drop,
        )
    }
}

/// The state and action after frame `f` arrives on `face` at `now`.
pub open spec fn frame_step(m: ForwarderModel, f: Seq<u8>, face: u32, now: u64) -> (
    ForwarderModel,
    Action,
) {
    let c = spec_classify(f);
    let m0 = ForwarderModel { stats: counted(m.stats, c), ..m };
    match c {
        Classification::Interest { name_hash, .. } => interest_step(m0, name_hash, face, now),
        Classification::Data { name_hash, content_size, .. } => data_step(
            m0,
            name_hash,
            content_size,
            now,
        ),
        _ => (m0, Action::Pass),
    }
}

/// The fast path's shared state: PIT, Content Store, payload cache and
/// counters.
pub struct Forwarder {
    pub pit: Pit,
    pub store: ContentStore,
    pub payloads: PayloadCache,
    pub stats: PacketStats,
}

impl Forwarder {
    pub open spec fn view(&self) -> ForwarderModel {
        ForwarderModel {
            pit: self.pit@,
            pit_size: self.pit.size(),
            store: self.store@,
            payloads: self.payloads@,
            stats: self.stats,
        }
    }

    pub open spec fn wf(&self) -> bool {
        self.pit.wf() && self.store.wf() && self.payloads.wf()
    }

    /// Empty tables and zero counters.
    pub fn new() -> (r: Forwarder)
        ensures
            r.wf(),
            r.pit@ == Map::<u32, PitEntry>::empty(),
            r.pit.size() == 0,
            r.store@ == Seq::<CacheEntry>::empty(),
            r.payloads@ == Map::<u32, Seq<u8>>::empty(),
            r.stats == zero_stats(),
    {
        Forwarder {
            pit: Pit::new(),
            store: ContentStore::new(),
            payloads: PayloadCache::new(),
            stats: PacketStats {
                interest_received: 0,
                data_received: 0,
                cache_hits: 0,
                cache_misses: 0,
                pit_hits: 0,
                forwards: 0,
                drops: 0,
            },
        }
    }

    /// Handles an Interest for `name_hash` that arrived on `face_id` at `now`.
    pub fn handle_interest(&mut self, name_hash: u32, face_id: u32, now: u64) -> (r: Action)
        requires
            old(self).wf(),
        ensures
            final(self).wf(),
            (final(self)@, r) == interest_step(old(self)@, name_hash, face_id, now),
    {
        let hit = self.store.touch_lookup(name_hash);
        if hit.is_some() {
            self.stats.cache_hits = incr_counter(self.stats.cache_hits);
            if self.payloads.get(name_hash).is_some() {
                return Action::Reply;
            }
        }
        match self.pit.insert(name_hash, face_id, now) {
            Ok(()) => Action::Pass,
            Err(_) => {
                self.stats.drops = incr_counter(self.stats.drops);
                Action::Drop
            },
        }
    }

    /// Handles a Data packet for `name_hash` announcing `content_size` bytes,
    /// arrived at `now`.
    pub fn handle_data(&mut self, name_hash: u32, content_size: u16, now: u64) -> (r: Action)
        requires
            old(self).wf(),
        ensures
            final(self).wf(),
            (final(self)@, r) == data_step(old(self)@, name_hash, content_size, now),
    {
        match self.pit.take_if_present(name_hash) {
            Some(_) => {
                self.stats.pit_hits = incr_counter(self.stats.pit_hits);
                self.store.upsert(name_hash, content_size, now);
                Action::Pass
            },
            None => {
                assert(self.pit@ =~= old(self).pit@);
                self.stats.drops = incr_counter(self.stats.drops);
                Action::Drop
            },
        }
    }

    /// Classifies `frame`, which arrived on `face_id` at `now`, updates the
    /// counters and tables, and says what to do with it.
    pub fn process(&mut self, frame: &[u8], face_id: u32, now: u64) -> (r: Action)
        requires
            old(self).wf(),
        ensures
            final(self).wf(),
            (final(self)@, r) == frame_step(old(self)@, frame@, face_id, now),
    {
        let c = classify(frame);
        self.stats.drops = incr_counter(self.stats.drops);
        match c {
            Classification::Unchecked => {},
            _ => {
                self.stats.forwards = incr_counter(self.stats.forwards);
            },
        }
        match c {
            Classification::Interest { .. } => {
                self.stats.interest_received = incr_counter(self.stats.interest_received);
            },
            Classification::Data { .. } => {
                self.stats.data_received = incr_counter(self.stats.data_received);
            },
            _ => {},
        }
        match c {
            Classification::Interest { name_hash, .. } => self.handle_interest(
                name_hash,
                face_id,
                now,
            ),
            Classification::Data { name_hash, content_size, .. } => self.handle_data(
                name_hash,
                content_size,
                now,
            ),
            _ => Action::Pass,
        }
    }
}

/// The ingress hook: runs the engine on one frame that arrived on `face_id`
/// at `now` and returns the XDP code of its action.
pub fn udcn(forwarder: &mut Forwarder, frame: &[u8], face_id: u32, now: u64) -> (r: u32)
    requires
        old(forwarder).wf(),
    ensures
        final(forwarder).wf(),
        final(forwarder)@ == frame_step(old(forwarder)@, frame@, face_id, now).0,
        r == frame_step(old(forwarder)@, frame@, face_id, now).1.xdp_code(),
{
    forwarder.process(frame, face_id, now).xdp_code()
}

/// All counters at zero.
pub open spec fn zero_stats() -> PacketStats {
    PacketStats {
        interest_received: 0,
        data_received: 0,
        cache_hits: 0,
        cache_misses: 0,
        pit_hits: 0,
        forwards: 0,
        drops: 0,
    }
}

/// A frame cut short of any threshold the classifier checks (the minimal
/// Ethernet and IPv4 headers, the UDP header, or the fields of the NDN packet
/// it announces) is passed on, and leaves the tables as they were.
pub proof fn lemma_truncated_frame_passes(m: ForwarderModel, f: Seq<u8>, face: u32, now: u64)
    requires
        f.len() < MIN_FRAME_LEN || f.len() < ndn_offset(f) + 12,
    ensures
        frame_step(m, f, face, now).1 == Action::Pass,
        frame_step(m, f, face, now).0.pit == m.pit,
        frame_step(m, f, face, now).0.pit_size == m.pit_size,
        frame_step(m, f, face, now).0.store == m.store,
        frame_step(m, f, face, now).0.payloads == m.payloads,
        frame_step(m, f, face, now).0.stats == (PacketStats {
            drops: incr(m.stats.drops),
            forwards: if spec_classify(f).reached_port_check() {
                incr(m.stats.forwards)
            } else {
                m.stats.forwards
            },
            ..m.stats
        }),
        f.len() < MIN_FRAME_LEN ==> frame_step(m, f, face, now).0.stats == (PacketStats {
            drops: incr(m.stats.drops),
            ..m.stats
        }),
{
}

/// Whether frame `f` carries an Interest for fingerprint `k`.
pub open spec fn is_interest_for(f: Seq<u8>, k: u32) -> bool {
    spec_classify(f) matches Classification::Interest { name_hash, .. } && name_hash == k
}

/// Whether frame `f` carries a Data packet for fingerprint `k`.
pub open spec fn is_data_for(f: Seq<u8>, k: u32) -> bool {
    spec_classify(f) matches Classification::Data { name_hash, .. } && name_hash == k
}

/// An Interest for `k` that is recorded in the PIT (the frame is passed on
/// without a cached reply) is consumed by the next Data packet for `k`: that
/// packet is passed on, counts exactly one PIT hit, and leaves no entry for
/// `k`; a second Data packet for `k` is then dropped.
pub proof fn lemma_pit_round_trip(
    m: ForwarderModel,
    fi: Seq<u8>,
    fd: Seq<u8>,
    fd2: Seq<u8>,
    k: u32,
    face: u32,
    t1: u64,
    t2: u64,
    t3: u64,
)
    requires
        is_interest_for(fi, k),
        is_data_for(fd, k),
        is_data_for(fd2, k),
        frame_step(m, fi, face, t1).1 == Action::Pass,
        frame_step(m, fi, face, t1).0.stats.pit_hits < u32::MAX,
    ensures
        ({
            let m1 = frame_step(m, fi, face, t1).0;
            let (m2, a2) = frame_step(m1, fd, face, t2);
            &&& m1.pit.contains_key(k)
            &&& a2 == Action::Pass
            &&& m2.stats.pit_hits == m1.stats.pit_hits + 1
            &&& !m2.pit.contains_key(k)
            &&& frame_step(m2, fd2, face, t3).1 == Action::Drop
            &&& frame_step(m2, fd2, face, t3).0.stats.pit_hits == m2.stats.pit_hits
            &&& frame_step(m2, fd2, face, t3).0.pit == m2.pit
            &&& frame_step(m2, fd2, face, t3).0.store == m2.store
        }),
{
}

/// Every counter of `b` is at least the same counter of `a`.
pub open spec fn stats_le(a: PacketStats, b: PacketStats) -> bool {
    &&& a.interest_received <= b.interest_received
    &&& a.data_received <= b.data_received
    &&& a.cache_hits <= b.cache_hits
    &&& a.cache_misses <= b.cache_misses
    &&& a.pit_hits <= b.pit_hits
    &&& a.forwards <= b.forwards
    &&& a.drops <= b.drops
}

/// The state after frames `fs` arrive in order, each on `face` at `now`.
pub open spec fn run(m: ForwarderModel, fs: Seq<Seq<u8>>, face: u32, now: u64) -> ForwarderModel
    decreases fs.len(),
{
    if fs.len() == 0 {
        m
    } else {
        frame_step(run(m, fs.drop_last(), face, now), fs.last(), face, now).0
    }
}

/// No counter ever goes down, whatever frames arrive.
pub proof fn lemma_stats_monotone(m: ForwarderModel, fs: Seq<Seq<u8>>, face: u32, now: u64)
    ensures
        stats_le(m.stats, run(m, fs, face, now).stats),
    decreases fs.len(),
{
    if fs.len() > 0 {
        lemma_stats_monotone(m, fs.drop_last(), face, now);
    }
}

} // verus!
