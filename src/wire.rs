//! Fixed-layout Interest and Data records and their wire encoding.
//!
//! On the wire an Interest is `[type:1][length:1][name_hash:4][nonce:4]` and a
//! Data packet is `[type:1][length:1][name_hash:4][content_size:2][signature:4]`
//! followed by `content_size` bytes of content. The multi-byte fields of these
//! records are little-endian, the byte order of the hosts that exchange them.

use vstd::prelude::*;
use vstd::layout::size_of;
use vstd::string::StringSliceAdditionalSpecFns;
use crate::name::{fnv1a, hash_name};

verus! {

/// Ethertype reserved for NDN over raw Ethernet.
pub const NDN_ETHERTYPE: u16 = 0x8624;

/// Well-known UDP port of NDN traffic, as source or destination.
pub const NDN_UDP_PORT: u16 = 6363;

/// Type byte of an Interest.
pub const INTEREST_TYPE: u8 = 0x05;

/// Type byte of a Data packet.
pub const DATA_TYPE: u8 = 0x06;

/// Bytes of an encoded Interest.
pub const INTEREST_WIRE_LEN: usize = 10;

/// Bytes of an encoded Data header, before its content.
pub const DATA_WIRE_LEN: usize = 12;

/// Type codes of the NDN TLV elements.
#[derive(Clone, Copy, Debug, PartialEq, Eq, Structural)]
pub enum TlvType {
    Interest,
    Data,
    Name,
    NameComponent,
    Nonce,
    Content,
    MetaInfo,
    SignatureInfo,
    SignatureValue,
}

impl TlvType {
    pub open spec fn spec_code(self) -> u8 {
        match self {
            TlvType::Interest => 0x05,
            TlvType::Data => 0x06,
            TlvType::Name => 0x07,
            TlvType::NameComponent => 0x08,
            TlvType::Nonce => 0x0A,
            TlvType::Content => 0x15,
            TlvType::MetaInfo => 0x14,
            TlvType::SignatureInfo => 0x16,
            TlvType::SignatureValue => 0x17,
        }
    }

    /// The type byte that stands for this element on the wire.
    #[verifier::when_used_as_spec(spec_code)]
    pub fn code(self) -> (r: u8)
        ensures
            r == self.spec_code(),
    {
        match self {
            TlvType::Interest => 0x05,
            TlvType::Data => 0x06,
            TlvType::Name => 0x07,
            TlvType::NameComponent => 0x08,
            TlvType::Nonce => 0x0A,
            TlvType::Content => 0x15,
            TlvType::MetaInfo => 0x14,
            TlvType::SignatureInfo => 0x16,
            TlvType::SignatureValue => 0x17,
        }
    }
}

/// A TLV element's type and length bytes.
#[derive(Clone, Copy, Debug, PartialEq, Eq, Structural)]
pub struct TlvHeader {
    pub tlv_type: u8,
    pub length: u8,
}

/// The two leading bytes of every NDN packet.
#[derive(Clone, Copy, Debug, PartialEq, Eq, Structural)]
pub struct NdnPacketHeader {
    pub packet_type: u8,
    pub packet_length: u8,
}

/// A request for the content whose name has fingerprint `name_hash`.
#[derive(Clone, Copy, Debug, PartialEq, Eq, Structural)]
pub struct InterestPacket {
    pub header: NdnPacketHeader,
    pub name_hash: u32,
    pub nonce: u32,
}

/// The header of a reply carrying `content_size` bytes for `name_hash`.
#[derive(Clone, Copy, Debug, PartialEq, Eq, Structural)]
pub struct DataPacket {
    pub header: NdnPacketHeader,
    pub name_hash: u32,
    pub content_size: u16,
    pub signature: u32,
}

/// An outstanding Interest: which face asked, and when.
#[derive(Clone, Copy, Debug, PartialEq, Eq, Structural)]
pub struct PitEntry {
    pub name_hash: u32,
    pub face_id: u32,
    pub timestamp: u64,
}

/// Metadata of Data seen before: its declared size and recency mark.
#[derive(Clone, Copy, Debug, PartialEq, Eq, Structural)]
pub struct CacheEntry {
    pub name_hash: u32,
    pub data_size: u16,
    pub timestamp: u64,
}

/// Packet counters of the fast path.
///
/// `drops` counts every packet that reaches the fast path and `forwards`
/// every packet that reaches the UDP port check; the engine also adds one
/// to `drops` for each packet it drops.
#[derive(Clone, Copy, Debug, PartialEq, Eq, Structural)]
pub struct PacketStats {
    pub interest_received: u32,
    pub data_received: u32,
    pub cache_hits: u32,
    pub cache_misses: u32,
    pub pit_hits: u32,
    pub forwards: u32,
    pub drops: u32,
}

/// The length byte of an Interest record: its in-memory size.
pub open spec fn interest_record_len() -> u8 {
    size_of::<InterestPacket>() as u8
}

/// The length byte of a Data record: its in-memory size.
pub open spec fn data_record_len() -> u8 {
    size_of::<DataPacket>() as u8
}

/// Little-endian `u16` at byte `i`.
pub open spec fn le_u16(s: Seq<u8>, i: int) -> u16 {
    (s[i] + 256 * s[i + 1]) as u16
}

/// Little-endian `u32` at byte `i`.
pub open spec fn le_u32(s: Seq<u8>, i: int) -> u32 {
    (s[i] + 256 * s[i + 1] + 65536 * s[i + 2] + 16777216 * s[i + 3]) as u32
}

/// Big-endian (network order) `u16` at byte `i`.
pub open spec fn be_u16(s: Seq<u8>, i: int) -> u16 {
    (256 * s[i] + s[i + 1]) as u16
}

/// Little-endian bytes of a `u16`.
pub open spec fn le_bytes_u16(x: u16) -> Seq<u8> {
    seq![(x % 256) as u8, (x / 256) as u8]
}

/// Little-endian bytes of a `u32`.
pub open spec fn le_bytes_u32(x: u32) -> Seq<u8> {
    seq![
        (x % 256) as u8,
        ((x / 256) % 256) as u8,
        ((x / 65536) % 256) as u8,
        (x / 16777216) as u8,
    ]
}

/// The wire bytes of an Interest.
pub open spec fn interest_bytes(p: InterestPacket) -> Seq<u8> {
    seq![p.header.packet_type, p.header.packet_length] + le_bytes_u32(p.name_hash) + le_bytes_u32(
        p.nonce,
    )
}

/// The wire bytes of a Data header.
pub open spec fn data_header_bytes(p: DataPacket) -> Seq<u8> {
    seq![p.header.packet_type, p.header.packet_length] + le_bytes_u32(p.name_hash)
        + le_bytes_u16(p.content_size) + le_bytes_u32(p.signature)
}

pub(crate) fn read_le_u16(s: &[u8], i: usize) -> (r: u16)
    requires
        i + 2 <= s@.len(),
    ensures
        r == le_u16(s@, i as int),
{
    (s[i] as u16) + 256 * (s[i + 1] as u16)
}

pub(crate) fn read_le_u32(s: &[u8], i: usize) -> (r: u32)
    requires
        i + 4 <= s@.len(),
    ensures
        r == le_u32(s@, i as int),
{
    (s[i] as u32) + 256 * (s[i + 1] as u32) + 65536 * (s[i + 2] as u32) + 16777216 * (
    s[i + 3] as u32)
}

pub(crate) fn read_be_u16(s: &[u8], i: usize) -> (r: u16)
    requires
        i + 2 <= s@.len(),
    ensures
        r == be_u16(s@, i as int),
{
    256 * (s[i] as u16) + (s[i + 1] as u16)
}

fn push_le_u16(out: &mut Vec<u8>, x: u16)
    ensures
        final(out)@ == old(out)@ + le_bytes_u16(x),
{
    out.push((x % 256) as u8);
    out.push((x / 256) as u8);
    assert(final(out)@ =~= old(out)@ + le_bytes_u16(x));
}

fn push_le_u32(out: &mut Vec<u8>, x: u32)
    ensures
        final(out)@ == old(out)@ + le_bytes_u32(x),
{
    out.push((x % 256) as u8);
    out.push(((x / 256) % 256) as u8);
    out.push(((x / 65536) % 256) as u8);
    out.push((x / 16777216) as u8);
    assert(final(out)@ =~= old(out)@ + le_bytes_u32(x));
}

impl TlvHeader {
    /// The type and length bytes at the front of `data`; `None` when fewer
    /// than two bytes are given.
    pub fn parse(data: &[u8]) -> (r: Option<TlvHeader>)
        ensures
            data@.len() < 2 ==> r.is_none(),
            data@.len() >= 2 ==> r == Some(TlvHeader { tlv_type: data@[0], length: data@[1] }),
    {
        if data.len() < 2 {
            return None;
        }
        Some(TlvHeader { tlv_type: data[0], length: data[1] })
    }
}

impl InterestPacket {
    /// An Interest for `name_hash` with the given nonce.
    pub fn new(name_hash: u32, nonce: u32) -> (r: InterestPacket)
        ensures
            r.header.packet_type == INTEREST_TYPE,
            r.header.packet_length == interest_record_len(),
            r.name_hash == name_hash,
            r.nonce == nonce,
    {
        #[verifier::truncate]
        let len: u8 = core::mem::size_of::<InterestPacket>() as u8;
        InterestPacket {
            header: NdnPacketHeader { packet_type: TlvType::Interest.code(), packet_length: len },
            name_hash,
            nonce,
        }
    }
}

impl DataPacket {
    /// A Data header for `name_hash` announcing `content_size` content bytes.
    pub fn new(name_hash: u32, content_size: u16, signature: u32) -> (r: DataPacket)
        ensures
            r.header.packet_type == DATA_TYPE,
            r.header.packet_length == data_record_len(),
            r.name_hash == name_hash,
            r.content_size == content_size,
            r.signature == signature,
    {
        #[verifier::truncate]
        let len: u8 = core::mem::size_of::<DataPacket>() as u8;
        DataPacket {
            header: NdnPacketHeader { packet_type: TlvType::Data.code(), packet_length: len },
            name_hash,
            content_size,
            signature,
        }
    }
}

/// What `parse_interest_packet` reads from `s`.
pub open spec fn spec_parse_interest(s: Seq<u8>) -> Option<InterestPacket> {
    if s.len() >= INTEREST_WIRE_LEN && s[0] == INTEREST_TYPE {
        Some(
            InterestPacket {
                header: NdnPacketHeader { packet_type: s[0], packet_length: s[1] },
                name_hash: le_u32(s, 2),
                nonce: le_u32(s, 6),
            },
        )
    } else {
        None
    }
}

/// What `parse_data_packet` reads from `s`.
pub open spec fn spec_parse_data(s: Seq<u8>) -> Option<DataPacket> {
    if s.len() >= DATA_WIRE_LEN && s[0] == DATA_TYPE {
        Some(
            DataPacket {
                header: NdnPacketHeader { packet_type: s[0], packet_length: s[1] },
                name_hash: le_u32(s, 2),
                content_size: le_u16(s, 6),
                signature: le_u32(s, 8),
            },
        )
    } else {
        None
    }
}

/// Whether `s` starts with the type byte of an Interest or a Data packet.
pub open spec fn spec_is_ndn_packet(s: Seq<u8>) -> bool {
    s.len() >= 2 && (s[0] == INTEREST_TYPE || s[0] == DATA_TYPE)
}

/// The Interest that the control plane sends for a name.
pub open spec fn interest_for(name: Seq<u8>, nonce: u32) -> InterestPacket {
    InterestPacket {
        header: NdnPacketHeader { packet_type: INTEREST_TYPE, packet_length: interest_record_len() },
        name_hash: fnv1a(name),
        nonce,
    }
}

/// The Data header that the control plane sends for a name and its content.
pub open spec fn data_for(name: Seq<u8>, content_len: nat, signature: u32) -> DataPacket {
    DataPacket {
        header: NdnPacketHeader { packet_type: DATA_TYPE, packet_length: data_record_len() },
        name_hash: fnv1a(name),
        content_size: content_len as u16,
        signature,
    }
}

/// Decodes an Interest from the front of `data`; `None` when `data` is
/// shorter than an Interest or does not start with the Interest type byte.
pub fn parse_interest_packet(data: &[u8]) -> (r: Option<InterestPacket>)
    ensures
        r == spec_parse_interest(data@),
{
    if data.len() < INTEREST_WIRE_LEN || data[0] != INTEREST_TYPE {
        return None;
    }
    Some(
        InterestPacket {
            header: NdnPacketHeader { packet_type: data[0], packet_length: data[1] },
            name_hash: read_le_u32(data, 2),
            nonce: read_le_u32(data, 6),
        },
    )
}

/// Decodes a Data header from the front of `data`; `None` when `data` is
/// shorter than a Data header or does not start with the Data type byte.
pub fn parse_data_packet(data: &[u8]) -> (r: Option<DataPacket>)
    ensures
        r == spec_parse_data(data@),
{
    if data.len() < DATA_WIRE_LEN || data[0] != DATA_TYPE {
        return None;
    }
    Some(
        DataPacket {
            header: NdnPacketHeader { packet_type: data[0], packet_length: data[1] },
            name_hash: read_le_u32(data, 2),
            content_size: read_le_u16(data, 6),
            signature: read_le_u32(data, 8),
        },
    )
}

/// Whether `data` starts with an Interest or a Data type byte.
pub fn is_ndn_packet(data: &[u8]) -> (r: bool)
    ensures
        r == spec_is_ndn_packet(data@),
{
    data.len() >= 2 && (data[0] == INTEREST_TYPE || data[0] == DATA_TYPE)
}

/// The wire bytes of an Interest for `name` with the given nonce.
pub fn serialize_interest(name: &str, nonce: u32) -> (r: Vec<u8>)
    ensures
        r@ == interest_bytes(interest_for(name.spec_bytes(), nonce)),
{
    let name_hash = hash_name(name.as_bytes());
    let packet = InterestPacket::new(name_hash, nonce);
    let mut out: Vec<u8> = Vec::new();
    out.push(packet.header.packet_type);
    out.push(packet.header.packet_length);
    push_le_u32(&mut out, packet.name_hash);
    push_le_u32(&mut out, packet.nonce);
    assert(out@ =~= interest_bytes(interest_for(name.spec_bytes(), nonce)));
    out
}

/// The wire bytes of a Data packet for `name`: its header, then `content`.
/// The content size field holds two bytes, so `content` is at most 65535
/// bytes long.
pub fn serialize_data(name: &str, content: &[u8], signature: u32) -> (r: Vec<u8>)
    requires
        content@.len() <= u16::MAX,
    ensures
        r@ == data_header_bytes(data_for(name.spec_bytes(), content@.len(), signature))
            + content@,
{
    let name_hash = hash_name(name.as_bytes());
    let packet = DataPacket::new(name_hash, content.len() as u16, signature);
    let mut out: Vec<u8> = Vec::new();
    out.push(packet.header.packet_type);
    out.push(packet.header.packet_length);
    push_le_u32(&mut out, packet.name_hash);
    push_le_u16(&mut out, packet.content_size);
    push_le_u32(&mut out, packet.signature);
    let ghost head = out@;
    assert(head =~= data_header_bytes(data_for(name.spec_bytes(), content@.len(), signature)));
    let mut i: usize = 0;
    while i < content.len()
        invariant
            i <= content@.len(),
            out@ == head + content@.subrange(0, i as int),
        decreases content@.len() - i,
    {
        out.push(content[i]);
        assert(out@ =~= head + content@.subrange(0, i + 1));
        i = i + 1;
    }
    assert(content@.subrange(0, content@.len() as int) =~= content@);
    out
}

/// The reply a producer of `name` gives to `request`: a Data packet carrying
/// `content` when `request` is an Interest for that name's fingerprint, and
/// nothing otherwise.
pub fn data_reply(request: &[u8], name: &str, content: &[u8], signature: u32) -> (r: Option<
    Vec<u8>,
>)
    requires
        content@.len() <= u16::MAX,
    ensures
        r.is_some() <==> (spec_parse_interest(request@) is Some
            && spec_parse_interest(request@)->0.name_hash == fnv1a(name.spec_bytes())),
        r.is_some() ==> r->0@ == data_header_bytes(
            data_for(name.spec_bytes(), content@.len(), signature),
        ) + content@,
{
    match parse_interest_packet(request) {
        Some(interest) => {
            if interest.name_hash == hash_name(name.as_bytes()) {
                Some(serialize_data(name, content, signature))
            } else {
                None
            }
        },
        None => None,
    }
}

proof fn lemma_le_u32_bytes(x: u32)
    ensures
        le_u32(le_bytes_u32(x), 0) == x,
{
    let b = le_bytes_u32(x);
    let xi = x as int;
    assert(xi == (xi % 256) + 256 * ((xi / 256) % 256) + 65536 * ((xi / 65536) % 256) + 16777216
        * (xi / 16777216)) by (nonlinear_arith)
        requires
            0 <= xi < 0x1_0000_0000,
    ;
}

proof fn lemma_le_u16_bytes(x: u16)
    ensures
        le_u16(le_bytes_u16(x), 0) == x,
{
}

/// Decoding an encoded Interest gives the Interest back.
pub proof fn lemma_interest_round_trip(p: InterestPacket)
    requires
        p.header.packet_type == INTEREST_TYPE,
    ensures
        spec_parse_interest(interest_bytes(p)) == Some(p),
{
    let s = interest_bytes(p);
    let a = le_bytes_u32(p.name_hash);
    let b = le_bytes_u32(p.nonce);
    lemma_le_u32_bytes(p.name_hash);
    lemma_le_u32_bytes(p.nonce);
    assert(s.subrange(2, 6) =~= a);
    assert(s.subrange(6, 10) =~= b);
    assert(le_u32(s, 2) == le_u32(a, 0));
    assert(le_u32(s, 6) == le_u32(b, 0));
}

/// Decoding an encoded Data packet gives its header back.
pub proof fn lemma_data_round_trip(p: DataPacket, content: Seq<u8>)
    requires
        p.header.packet_type == DATA_TYPE,
    ensures
        spec_parse_data(data_header_bytes(p) + content) == Some(p),
{
    let s = data_header_bytes(p) + content;
    let a = le_bytes_u32(p.name_hash);
    let c = le_bytes_u16(p.content_size);
    let d = le_bytes_u32(p.signature);
    lemma_le_u32_bytes(p.name_hash);
    lemma_le_u16_bytes(p.content_size);
    lemma_le_u32_bytes(p.signature);
    assert(le_u32(s, 2) == le_u32(a, 0));
    assert(le_u16(s, 6) == le_u16(c, 0));
    assert(le_u32(s, 8) == le_u32(d, 0));
}

} // verus!
