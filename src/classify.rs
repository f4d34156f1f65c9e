//! Classification of inbound Ethernet frames.
//!
//! The classifier walks the Ethernet, IPv4 and UDP headers of a frame and
//! decides whether it carries an NDN Interest or Data packet on the
//! well-known port. Every read is preceded by a check that it lies inside the
//! frame; a frame that fails a check is passed through untouched.

use vstd::prelude::*;
use crate::wire::{
    be_u16, le_u16, le_u32, read_be_u16, read_le_u16, read_le_u32, DATA_TYPE, INTEREST_TYPE,
    NDN_UDP_PORT,
};

verus! {

/// Bytes of an Ethernet header plus a minimal IPv4 header.
pub const MIN_FRAME_LEN: usize = 34;

/// Offset of the ethertype field.
pub const ETHERTYPE_OFFSET: usize = 12;

/// Offset of the IPv4 header.
pub const IP_OFFSET: usize = 14;

/// Offset of the IPv4 protocol byte.
pub const IP_PROTOCOL_OFFSET: usize = 23;

/// Ethertype of IPv4.
pub const ETHERTYPE_IPV4: u16 = 0x0800;

/// IPv4 protocol number of UDP.
pub const IP_PROTO_UDP: u8 = 17;

/// Bytes of a UDP header.
pub const UDP_HEADER_LEN: usize = 8;

/// Payload bytes an Interest must have before it is decoded. The Interest
/// fields end at byte 10, so this asks for two bytes more than it reads.
pub const INTEREST_MIN_PAYLOAD: usize = 12;

/// Payload bytes a Data packet must have before it is decoded. Its signature
/// ends at byte 12, so this threshold alone does not cover it; the signature
/// read has a bound check of its own.
pub const DATA_MIN_PAYLOAD: usize = 10;

/// Where the signature of a Data packet ends, from the start of the payload.
pub const DATA_SIGNATURE_END: usize = 12;

/// What the classifier found in a frame.
#[derive(Clone, Copy, Debug, PartialEq, Eq, Structural)]
pub enum Classification {
    /// The frame failed a check before the UDP port check: too short, not
    /// IPv4, headers cut off, or not UDP.
    Unchecked,
    /// The frame reached the port check but carries no NDN packet: neither
    /// port is the NDN port, the payload is under two bytes, or its type byte
    /// is neither Interest nor Data.
    NotNdn,
    /// An Interest type byte with too few payload bytes behind it; the frame
    /// is not intercepted.
    ShortInterest,
    /// A Data type byte with too few payload bytes behind it; the frame is
    /// not intercepted.
    ShortData,
    /// A complete Interest.
    Interest { name_hash: u32, nonce: u32 },
    /// A complete Data header; its packet starts at `payload_offset`.
    Data { name_hash: u32, content_size: u16, signature: u32, payload_offset: usize },
}

impl Classification {
    /// Whether the frame reached the UDP port check.
    pub open spec fn reached_port_check(self) -> bool {
        !(self is Unchecked)
    }
}

/// Bytes of the IPv4 header announced by its header-length nibble.
pub open spec fn ip_header_len(f: Seq<u8>) -> int {
    (f[IP_OFFSET as int] % 16) as int * 4
}

/// Offset of the UDP header.
pub open spec fn udp_offset(f: Seq<u8>) -> int {
    IP_OFFSET + ip_header_len(f)
}

/// Offset of the UDP payload, where an NDN packet starts.
pub open spec fn ndn_offset(f: Seq<u8>) -> int {
    udp_offset(f) + UDP_HEADER_LEN
}

/// The classification of frame `f`.
pub open spec fn spec_classify(f: Seq<u8>) -> Classification {
    if f.len() < MIN_FRAME_LEN {
        Classification::Unchecked
    } else if be_u16(f, ETHERTYPE_OFFSET as int) != ETHERTYPE_IPV4 {
        Classification::Unchecked
    } else if ndn_offset(f) > f.len() {
        Classification::Unchecked
    } else if f[IP_PROTOCOL_OFFSET as int] != IP_PROTO_UDP {
        Classification::Unchecked
    } else if be_u16(f, udp_offset(f) + 2) != NDN_UDP_PORT && be_u16(f, udp_offset(f))
        != NDN_UDP_PORT {
        Classification::NotNdn
    } else {
        let p = ndn_offset(f);
        if p + 2 > f.len() {
            Classification::NotNdn
        } else if f[p] == INTEREST_TYPE {
            if p + INTEREST_MIN_PAYLOAD > f.len() {
                Classification::ShortInterest
            } else {
                Classification::Interest { name_hash: le_u32(f, p + 2), nonce: le_u32(f, p + 6) }
            }
        } else if f[p] == DATA_TYPE {
            if p + DATA_MIN_PAYLOAD > f.len() || p + DATA_SIGNATURE_END > f.len() {
                Classification::ShortData
            } else {
                Classification::Data {
                    name_hash: le_u32(f, p + 2),
                    content_size: le_u16(f, p + 6),
                    signature: le_u32(f, p + 8),
                    payload_offset: p as usize,
                }
            }
        } else {
            Classification::NotNdn
        }
    }
}

/// Classifies an inbound frame, reading only inside it.
pub fn classify(frame: &[u8]) -> (r: Classification)
    ensures
        r == spec_classify(frame@),
{
    let len = frame.len();
    if len < MIN_FRAME_LEN {
        return Classification::Unchecked;
    }
    if read_be_u16(frame, ETHERTYPE_OFFSET) != ETHERTYPE_IPV4 {
        return Classification::Unchecked;
    }
    let ip_hl: usize = (frame[IP_OFFSET] % 16) as usize * 4;
    let udp: usize = IP_OFFSET + ip_hl;
    if udp + UDP_HEADER_LEN > len {
        return Classification::Unchecked;
    }
    if frame[IP_PROTOCOL_OFFSET] != IP_PROTO_UDP {
        return Classification::Unchecked;
    }
    let dst_port = read_be_u16(frame, udp + 2);
    let src_port = read_be_u16(frame, udp);
    if dst_port != NDN_UDP_PORT && src_port != NDN_UDP_PORT {
        return Classification::NotNdn;
    }
    let p: usize = udp + UDP_HEADER_LEN;
    if p + 2 > len {
        return Classification::NotNdn;
    }
    let packet_type = frame[p];
    if packet_type == INTEREST_TYPE {
        if p + INTEREST_MIN_PAYLOAD > len {
            return Classification::ShortInterest;
        }
        let name_hash = read_le_u32(frame, p + 2);
        let nonce = read_le_u32(frame, p + 6);
        Classification::Interest { name_hash, nonce }
    } else if packet_type == DATA_TYPE {
        if p + DATA_MIN_PAYLOAD > len {
            return Classification::ShortData;
        }
        let name_hash = read_le_u32(frame, p + 2);
        let content_size = read_le_u16(frame, p + 6);
        if p + DATA_SIGNATURE_END > len {
            return Classification::ShortData;
        }
        let signature = read_le_u32(frame, p + 8);
        Classification::Data { name_hash, content_size, signature, payload_offset: p }
    } else {
        Classification::NotNdn
    }
}

} // verus!
