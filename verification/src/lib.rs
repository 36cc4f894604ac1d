//! Zero-copy parsers for the headers of captured network traffic: the
//! libpcap global header, Ethernet II frames, IPv4 packets and UDP datagrams.
//!
//! Every parser takes a byte slice and, on success, returns the decoded header
//! together with the slice of bytes that follows it. Each parser's contract
//! says, over the bytes as a `Seq<u8>`, which inputs it accepts, which error it
//! gives otherwise and what every field holds; the laws that relate a parser to
//! its inputs are proof functions in the module that defines it.
use vstd::prelude::*;

pub mod bytes;
pub mod layers;
pub mod pcap;

use crate::bytes::{be16, lemma_be16_bytes, lemma_be16_injective, read_be16};

verus! {

/// A 48-bit IEEE 802 hardware address, in transmission order.
#[derive(Debug, PartialEq, Eq, Clone, Copy)]
pub struct MacAddress(pub [u8; 6]);

/// The protocol carried in the payload of an Ethernet II frame.
#[derive(Debug, PartialEq, Eq, Clone, Copy)]
pub enum EtherType {
    IPv4,
    Arp,
    IPv6,
    Unknown(u16),
}

impl EtherType {
    /// EtherType value of an IPv4 payload.
    pub const IPV4: u16 = 0x0800;

    /// EtherType value of an ARP payload.
    pub const ARP: u16 = 0x0806;

    /// EtherType value of an IPv6 payload.
    pub const IPV6: u16 = 0x86DD;

    /// The variant that a raw EtherType value names.
    pub open spec fn spec_from_raw(val: u16) -> EtherType {
        if val == 0x0800u16 {
            EtherType::IPv4
        } else if val == 0x0806u16 {
            EtherType::Arp
        } else if val == 0x86DDu16 {
            EtherType::IPv6
        } else {
            EtherType::Unknown(val)
        }
    }

    /// The raw EtherType value of a variant.
    pub open spec fn spec_raw(self) -> u16 {
        match self {
            EtherType::IPv4 => 0x0800u16,
            EtherType::Arp => 0x0806u16,
            EtherType::IPv6 => 0x86DDu16,
            EtherType::Unknown(val) => val,
        }
    }

    /// A variant is canonical when it is the one that its raw value decodes to:
    /// `Unknown` never holds one of the three known values.
    pub open spec fn is_canonical(self) -> bool {
        match self {
            EtherType::Unknown(val) => val != 0x0800u16 && val != 0x0806u16 && val != 0x86DDu16,
            _ => true,
        }
    }
}

impl From<u16> for EtherType {
    fn from(val: u16) -> (res: Self)
        ensures
            val == 0x0800 ==> res == EtherType::IPv4,
            val == 0x0806 ==> res == EtherType::Arp,
            val == 0x86DD ==> res == EtherType::IPv6,
            val != 0x0800 && val != 0x0806 && val != 0x86DD ==> res == EtherType::Unknown(val),
    {
        if val == Self::IPV4 {
            EtherType::IPv4
        } else if val == Self::ARP {
            EtherType::Arp
        } else if val == Self::IPV6 {
            EtherType::IPv6
        } else {
            EtherType::Unknown(val)
        }
    }
}

impl vstd::std_specs::convert::FromSpecImpl<u16> for EtherType {
    open spec fn obeys_from_spec() -> bool {
        true
    }

    open spec fn from_spec(val: u16) -> Self {
        EtherType::spec_from_raw(val)
    }
}

impl From<EtherType> for u16 {
    fn from(ether_type: EtherType) -> (res: Self)
        ensures
            ether_type == EtherType::IPv4 ==> res == 0x0800,
            ether_type == EtherType::Arp ==> res == 0x0806,
            ether_type == EtherType::IPv6 ==> res == 0x86DD,
            ether_type matches EtherType::Unknown(v) ==> res == v,
    {
        match ether_type {
            EtherType::IPv4 => EtherType::IPV4,
            EtherType::Arp => EtherType::ARP,
            EtherType::IPv6 => EtherType::IPV6,
            EtherType::Unknown(val) => val,
        }
    }
}

impl vstd::std_specs::convert::FromSpecImpl<EtherType> for u16 {
    open spec fn obeys_from_spec() -> bool {
        true
    }

    open spec fn from_spec(ether_type: EtherType) -> Self {
        ether_type.spec_raw()
    }
}

/// The link-layer header of an Ethernet II frame.
#[derive(Debug, PartialEq, Eq)]
pub struct EthernetHeader {
    pub dst: MacAddress,
    pub src: MacAddress,
    pub ether_type: EtherType,
}

impl EthernetHeader {
    /// Length in bytes of an Ethernet II header: two addresses and the EtherType.
    pub const HEADER_LEN: usize = 14;

    /// `self` is the header that the first `HEADER_LEN` bytes of `frame` encode:
    /// the destination address, the source address, then the EtherType in
    /// network byte order.
    pub open spec fn decodes_from(self, frame: Seq<u8>) -> bool {
        &&& frame.len() >= Self::HEADER_LEN
        &&& self.dst.0@ == frame.subrange(0, 6)
        &&& self.src.0@ == frame.subrange(6, 12)
        &&& self.ether_type == EtherType::spec_from_raw(be16(frame[12], frame[13]))
    }

    /// Parses an Ethernet header from a raw byte slice without heap allocation,
    /// returning the parsed header and the remaining payload slice.
    pub fn parse(packet: &[u8]) -> (res: Result<(Self, &[u8]), &'static str>)
        ensures
            res is Err <==> packet@.len() < Self::HEADER_LEN,
            res matches Err(e) ==> e@ == "Frame too short for Ethernet header"@,
            res matches Ok((header, payload)) ==> {
                &&& header.decodes_from(packet@)
                &&& payload@ == packet@.skip(Self::HEADER_LEN as int)
            },
            res matches Ok((header, payload)) ==> {
                let raw = packet@[12] as int * 256 + packet@[13] as int;
                &&& header.dst.0@ == packet@.subrange(0, 6)
                &&& header.src.0@ == packet@.subrange(6, 12)
                &&& raw == 0x0800 ==> header.ether_type == EtherType::IPv4
                &&& raw == 0x0806 ==> header.ether_type == EtherType::Arp
                &&& raw == 0x86DD ==> header.ether_type == EtherType::IPv6
                &&& raw != 0x0800 && raw != 0x0806 && raw != 0x86DD ==> header.ether_type
                    == EtherType::Unknown(raw as u16)
                &&& payload@.len() == packet@.len() - 14
                &&& packet@ == packet@.subrange(0, 14) + payload@
            },
    {
        if packet.len() < Self::HEADER_LEN {
            return Err("Frame too short for Ethernet header");
        }
        let dst: [u8; 6] = [packet[0], packet[1], packet[2], packet[3], packet[4], packet[5]];
        let src: [u8; 6] = [packet[6], packet[7], packet[8], packet[9], packet[10], packet[11]];
        assert(dst@ =~= packet@.subrange(0, 6));
        assert(src@ =~= packet@.subrange(6, 12));

        // Convert big-endian bytes (network byte order) to host u16
        let ether_type_raw = read_be16(packet, 12);
        let ether_type = EtherType::from(ether_type_raw);

        let header = EthernetHeader { dst: MacAddress(dst), src: MacAddress(src), ether_type };

        // Return parsed header and zero-copy slice of the payload
        let payload = vstd::slice::slice_subrange(packet, Self::HEADER_LEN, packet.len());
        assert(payload@ =~= packet@.skip(Self::HEADER_LEN as int));
        assert(packet@ =~= packet@.subrange(0, 14) + payload@);
        proof {
            lemma_be16_bytes(packet@[12], packet@[13]);
        }
        Ok((header, payload))
    }
}

/// Decoding a raw EtherType value and encoding the variant again gives the
/// value back, for every 16-bit value.
pub proof fn lemma_ether_type_raw_roundtrip(val: u16)
    ensures
        EtherType::spec_from_raw(val).spec_raw() == val,
        EtherType::spec_from_raw(val).is_canonical(),
{
}

/// What each raw EtherType value decodes to: the three known values name
/// their variants, and every other value is kept, unchanged, in `Unknown`.
pub proof fn lemma_ether_type_from_raw_cases(val: u16)
    ensures
        val == 0x0800 ==> EtherType::spec_from_raw(val) == EtherType::IPv4,
        val == 0x0806 ==> EtherType::spec_from_raw(val) == EtherType::Arp,
        val == 0x86DD ==> EtherType::spec_from_raw(val) == EtherType::IPv6,
        val != 0x0800 && val != 0x0806 && val != 0x86DD ==> EtherType::spec_from_raw(val)
            == EtherType::Unknown(val),
        EtherType::spec_from_raw(val) matches EtherType::Unknown(x) ==> x == val,
{
}

/// What each variant encodes to: the known variants their registered values,
/// and `Unknown` the value it carries.
pub proof fn lemma_ether_type_raw_cases(ether_type: EtherType)
    ensures
        ether_type == EtherType::IPv4 ==> ether_type.spec_raw() == 0x0800,
        ether_type == EtherType::Arp ==> ether_type.spec_raw() == 0x0806,
        ether_type == EtherType::IPv6 ==> ether_type.spec_raw() == 0x86DD,
        ether_type matches EtherType::Unknown(v) ==> ether_type.spec_raw() == v,
{
}

/// Encoding a canonical variant and decoding the value again gives the variant
/// back.
pub proof fn lemma_ether_type_variant_roundtrip(ether_type: EtherType)
    requires
        ether_type.is_canonical(),
    ensures
        EtherType::spec_from_raw(ether_type.spec_raw()) == ether_type,
{
}

/// What a decoded Ethernet header holds, in terms of the frame's bytes: the
/// destination address is bytes 0..6, the source address bytes 6..12, and the
/// EtherType is read from bytes 12 and 13 in network byte order (high byte
/// first).
pub proof fn lemma_ethernet_fields(h: EthernetHeader, frame: Seq<u8>)
    requires
        h.decodes_from(frame),
    ensures
        frame.len() >= 14,
        forall|i: int| 0 <= i < 6 ==> h.dst.0@[i] == frame[i],
        forall|i: int| 0 <= i < 6 ==> h.src.0@[i] == frame[6 + i],
        h.dst.0@.len() == 6 && h.src.0@.len() == 6,
        h.ether_type.spec_raw() as int == frame[12] as int * 256 + frame[13] as int,
        !(frame[12] == 0x08 && (frame[13] == 0x00 || frame[13] == 0x06)) && !(frame[12] == 0x86
            && frame[13] == 0xdd) ==> h.ether_type == EtherType::Unknown(
            (frame[12] as int * 256 + frame[13] as int) as u16,
        ),
{
    lemma_be16_bytes(frame[12], frame[13]);
    assert forall|i: int| 0 <= i < 6 implies h.dst.0@[i] == frame[i] by {
        assert(frame.subrange(0, 6)[i] == frame[i]);
    }
    assert forall|i: int| 0 <= i < 6 implies h.src.0@[i] == frame[6 + i] by {
        assert(frame.subrange(6, 12)[i] == frame[6 + i]);
    }
}

/// A frame decodes to at most one Ethernet header.
pub proof fn lemma_ethernet_decode_unique(h1: EthernetHeader, h2: EthernetHeader, frame: Seq<u8>)
    requires
        h1.decodes_from(frame),
        h2.decodes_from(frame),
    ensures
        h1 == h2,
{
    assert(h1.dst.0 =~= h2.dst.0);
    assert(h1.src.0 =~= h2.src.0);
}

/// Only the first `HEADER_LEN` bytes of a frame decide its header: bytes
/// appended after a frame leave the header unchanged and are appended to the
/// payload.
pub proof fn lemma_ethernet_decode_prefix(h: EthernetHeader, frame: Seq<u8>, more: Seq<u8>)
    requires
        h.decodes_from(frame),
    ensures
        h.decodes_from(frame + more),
        h.decodes_from(frame.take(EthernetHeader::HEADER_LEN as int)),
        (frame + more).skip(EthernetHeader::HEADER_LEN as int) == frame.skip(
            EthernetHeader::HEADER_LEN as int,
        ) + more,
{
    assert((frame + more).subrange(0, 6) =~= frame.subrange(0, 6));
    assert((frame + more).subrange(6, 12) =~= frame.subrange(6, 12));
    assert(frame.take(14).subrange(0, 6) =~= frame.subrange(0, 6));
    assert(frame.take(14).subrange(6, 12) =~= frame.subrange(6, 12));
    assert((frame + more).skip(14) =~= frame.skip(14) + more);
}

/// Two frames that decode to the same header agree on their first
/// `HEADER_LEN` bytes: the header records every one of them.
pub proof fn lemma_ethernet_decode_injective(h: EthernetHeader, f1: Seq<u8>, f2: Seq<u8>)
    requires
        h.decodes_from(f1),
        h.decodes_from(f2),
    ensures
        f1.take(EthernetHeader::HEADER_LEN as int) == f2.take(EthernetHeader::HEADER_LEN as int),
{
    lemma_ether_type_raw_roundtrip(be16(f1[12], f1[13]));
    lemma_ether_type_raw_roundtrip(be16(f2[12], f2[13]));
    lemma_be16_injective(f1[12], f1[13], f2[12], f2[13]);
    assert forall|i: int| 0 <= i < 6 implies f1[i] == f2[i] by {
        assert(f1.subrange(0, 6)[i] == f2.subrange(0, 6)[i]);
    }
    assert forall|i: int| 6 <= i < 12 implies f1[i] == f2[i] by {
        assert(f1.subrange(6, 12)[i - 6] == f2.subrange(6, 12)[i - 6]);
    }
    assert(f1.take(14) =~= f2.take(14));
}

} // verus!
