//! The UDP header (RFC 768).
use vstd::prelude::*;

use crate::bytes::{be16, lemma_be16_bytes, lemma_be16_injective, read_be16};

verus! {

/// A UDP header; all four fields travel in network byte order.
#[derive(Debug, PartialEq, Eq)]
pub struct UdpHeader {
    pub src_port: u16,
    pub dst_port: u16,
    pub length: u16,
    pub checksum: u16,
}

impl UdpHeader {
    /// Length in bytes of a UDP header.
    pub const HEADER_LEN: usize = 8;

    /// The header that the first `HEADER_LEN` bytes of `packet` encode.
    pub open spec fn spec_decode(packet: Seq<u8>) -> UdpHeader {
        UdpHeader {
            src_port: be16(packet[0], packet[1]),
            dst_port: be16(packet[2], packet[3]),
            length: be16(packet[4], packet[5]),
            checksum: be16(packet[6], packet[7]),
        }
    }

    /// Parses the UDP header at the start of `packet`, returning it with the
    /// bytes that follow it.
    pub fn parse(packet: &[u8]) -> (res: Result<(Self, &[u8]), &'static str>)
        ensures
            res is Err <==> packet@.len() < Self::HEADER_LEN,
            res matches Err(e) ==> e@ == "Packet too short for UDP header"@,
            res matches Ok((header, payload)) ==> {
                &&& header == Self::spec_decode(packet@)
                &&& payload@ == packet@.skip(Self::HEADER_LEN as int)
            },
            res matches Ok((header, payload)) ==> {
                &&& header.src_port == packet@[0] as int * 256 + packet@[1] as int
                &&& header.dst_port == packet@[2] as int * 256 + packet@[3] as int
                &&& header.length == packet@[4] as int * 256 + packet@[5] as int
                &&& header.checksum == packet@[6] as int * 256 + packet@[7] as int
                &&& payload@.len() == packet@.len() - 8
                &&& packet@ == packet@.subrange(0, 8) + payload@
            },
    {
        if packet.len() < Self::HEADER_LEN {
            return Err("Packet too short for UDP header");
        }

        let src_port = read_be16(packet, 0);
        let dst_port = read_be16(packet, 2);
        let length = read_be16(packet, 4);
        let checksum = read_be16(packet, 6);

        let header = UdpHeader { src_port, dst_port, length, checksum };

        let payload = vstd::slice::slice_subrange(packet, Self::HEADER_LEN, packet.len());
        assert(payload@ =~= packet@.skip(Self::HEADER_LEN as int));
        assert(packet@ =~= packet@.subrange(0, 8) + payload@);
        Ok((header, payload))
    }
}

/// Each field of a decoded UDP header is the network-byte-order value of its
/// two bytes: divided by 256 it gives the first byte, and the remainder is the
/// second.
pub proof fn lemma_udp_fields(packet: Seq<u8>)
    requires
        packet.len() >= UdpHeader::HEADER_LEN,
    ensures
        UdpHeader::spec_decode(packet).src_port / 256 == packet[0],
        UdpHeader::spec_decode(packet).src_port % 256 == packet[1],
        UdpHeader::spec_decode(packet).dst_port / 256 == packet[2],
        UdpHeader::spec_decode(packet).dst_port % 256 == packet[3],
        UdpHeader::spec_decode(packet).length / 256 == packet[4],
        UdpHeader::spec_decode(packet).length % 256 == packet[5],
        UdpHeader::spec_decode(packet).checksum / 256 == packet[6],
        UdpHeader::spec_decode(packet).checksum % 256 == packet[7],
{
    lemma_be16_bytes(packet[0], packet[1]);
    lemma_be16_bytes(packet[2], packet[3]);
    lemma_be16_bytes(packet[4], packet[5]);
    lemma_be16_bytes(packet[6], packet[7]);
}

/// Only the first `HEADER_LEN` bytes of a packet decide its UDP header, and
/// bytes appended after a packet are appended to its payload.
pub proof fn lemma_udp_decode_prefix(packet: Seq<u8>, more: Seq<u8>)
    requires
        packet.len() >= UdpHeader::HEADER_LEN,
    ensures
        UdpHeader::spec_decode(packet + more) == UdpHeader::spec_decode(packet),
        UdpHeader::spec_decode(packet.take(UdpHeader::HEADER_LEN as int)) == UdpHeader::spec_decode(
            packet,
        ),
        (packet + more).skip(UdpHeader::HEADER_LEN as int) == packet.skip(
            UdpHeader::HEADER_LEN as int,
        ) + more,
{
    let all = packet + more;
    assert(forall|i: int| 0 <= i < 8 ==> all[i] == packet[i]);
    assert(forall|i: int| 0 <= i < 8 ==> packet.take(8)[i] == packet[i]);
    assert(all.skip(8) =~= packet.skip(8) + more);
}

/// Distinct 8-byte prefixes decode to distinct UDP headers.
pub proof fn lemma_udp_decode_injective(p1: Seq<u8>, p2: Seq<u8>)
    requires
        p1.len() >= UdpHeader::HEADER_LEN,
        p2.len() >= UdpHeader::HEADER_LEN,
        UdpHeader::spec_decode(p1) == UdpHeader::spec_decode(p2),
    ensures
        p1.take(UdpHeader::HEADER_LEN as int) == p2.take(UdpHeader::HEADER_LEN as int),
{
    lemma_be16_injective(p1[0], p1[1], p2[0], p2[1]);
    lemma_be16_injective(p1[2], p1[3], p2[2], p2[3]);
    lemma_be16_injective(p1[4], p1[5], p2[4], p2[5]);
    lemma_be16_injective(p1[6], p1[7], p2[6], p2[7]);
    assert(p1.take(8) =~= p2.take(8));
}

} // verus!
