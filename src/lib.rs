//! A content-centric fast-path forwarder: name fingerprints, the Interest and
//! Data wire codec, the frame classifier, the Pending Interest Table, the
//! Content Store and the forwarding decision engine that ties them together.

pub mod name;
pub mod wire;
pub mod classify;
pub mod table;
pub mod pit;
pub mod store;
pub mod engine;

pub use name::hash_name;
pub use wire::{
    data_reply, is_ndn_packet, parse_data_packet, parse_interest_packet, serialize_data,
    serialize_interest, CacheEntry, DataPacket, InterestPacket, NdnPacketHeader, PacketStats,
    PitEntry, TlvHeader, TlvType, NDN_ETHERTYPE, NDN_UDP_PORT,
};
pub use classify::{classify, Classification};
pub use table::TableFull;
pub use pit::Pit;
pub use store::{ContentStore, PayloadCache};
pub use engine::{udcn, Action, Forwarder};
