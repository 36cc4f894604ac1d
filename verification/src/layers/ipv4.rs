//! The IPv4 header (RFC 791).
use vstd::prelude::*;

verus! {

/// The fields of an IPv4 header that the capture tools read.
#[derive(Debug, PartialEq, Eq)]
pub struct Ipv4Header {
    pub version: u8,
    pub ihl: u8,
    pub ttl: u8,
    pub protocol: u8,
    pub src_ip: [u8; 4],
    pub dst_ip: [u8; 4],
}

/// The version number: the high nibble of the first byte.
pub open spec fn version_of(first: u8) -> u8 {
    first / 16
}

/// The Internet Header Length, in 32-bit words: the low nibble of the first byte.
pub open spec fn ihl_of(first: u8) -> u8 {
    first % 16
}

impl Ipv4Header {
    /// Length in bytes of an IPv4 header without options.
    pub const MIN_HEADER_LEN: usize = 20;

    /// Length in bytes of the header that `packet` starts with, options included.
    pub open spec fn header_len(packet: Seq<u8>) -> int {
        ihl_of(packet[0]) * 4
    }

    /// `packet` starts with a well-formed IPv4 header: it holds the fixed part,
    /// announces version 4 and a header length of at least five words, and holds
    /// the whole header with its options.
    pub open spec fn accepts(packet: Seq<u8>) -> bool {
        &&& packet.len() >= Self::MIN_HEADER_LEN
        &&& version_of(packet[0]) == 4
        &&& ihl_of(packet[0]) >= 5
        &&& packet.len() >= Self::header_len(packet)
    }

    /// Why `packet` does not start with a well-formed IPv4 header; the checks
    /// are made in this order.
    pub open spec fn rejection(packet: Seq<u8>) -> Seq<char> {
        if packet.len() < Self::MIN_HEADER_LEN {
            "Packet too short for IPv4 header"@
        } else if version_of(packet[0]) != 4 {
            "Unsupported IPv4 version"@
        } else if ihl_of(packet[0]) < 5 {
            "Invalid IPv4 header length (IHL must be >= 5)"@
        } else {
            "Packet too short for IPv4 options"@
        }
    }

    /// `self` is the header that `packet` starts with.
    pub open spec fn decodes_from(self, packet: Seq<u8>) -> bool {
        &&& Self::accepts(packet)
        &&& self.version == version_of(packet[0])
        &&& self.ihl == ihl_of(packet[0])
        &&& self.ttl == packet[8]
        &&& self.protocol == packet[9]
        &&& self.src_ip@ == packet.subrange(12, 16)
        &&& self.dst_ip@ == packet.subrange(16, 20)
    }

    /// Parses the IPv4 header at the start of `packet`, returning it with the
    /// bytes that follow the header and its options.
    pub fn parse(packet: &[u8]) -> (res: Result<(Self, &[u8]), &'static str>)
        ensures
            res is Ok <==> Self::accepts(packet@),
            res matches Err(e) ==> e@ == Self::rejection(packet@),
            res matches Ok((header, payload)) ==> {
                &&& header.decodes_from(packet@)
                &&& payload@ == packet@.skip(Self::header_len(packet@))
            },
            res is Ok <==> {
                &&& packet@.len() >= 20
                &&& packet@[0] / 16 == 4
                &&& packet@[0] % 16 >= 5
                &&& packet@.len() >= (packet@[0] % 16) * 4
            },
            res matches Err(e) ==> {
                &&& packet@.len() < 20 ==> e@ == "Packet too short for IPv4 header"@
                &&& packet@.len() >= 20 && packet@[0] / 16 != 4 ==> e@
                    == "Unsupported IPv4 version"@
                &&& packet@.len() >= 20 && packet@[0] / 16 == 4 && packet@[0] % 16 < 5 ==> e@
                    == "Invalid IPv4 header length (IHL must be >= 5)"@
                &&& packet@.len() >= 20 && packet@[0] / 16 == 4 && packet@[0] % 16 >= 5 ==> e@
                    == "Packet too short for IPv4 options"@
            },
            res matches Ok((header, payload)) ==> {
                &&& header.version == 4
                &&& header.version == packet@[0] / 16
                &&& header.ihl == packet@[0] % 16
                &&& header.ttl == packet@[8]
                &&& header.protocol == packet@[9]
                &&& header.src_ip@ == packet@.subrange(12, 16)
                &&& header.dst_ip@ == packet@.subrange(16, 20)
                &&& payload@ == packet@.skip(header.ihl * 4)
                &&& payload@.len() == packet@.len() - header.ihl * 4
            },
    {
        if packet.len() < Self::MIN_HEADER_LEN {
            return Err("Packet too short for IPv4 header");
        }

        let first = packet[0];
        let version = (first >> 4) & 0x0F;
        let ihl = first & 0x0F;
        assert(version == version_of(first) && ihl == ihl_of(first)) by (bit_vector)
            requires
                version == (first >> 4) & 0x0F,
                ihl == first & 0x0F,
        ;

        if version != 4 {
            return Err("Unsupported IPv4 version");
        }

        if ihl < 5 {
            return Err("Invalid IPv4 header length (IHL must be >= 5)");
        }

        let header_len = (ihl as usize) * 4;
        if packet.len() < header_len {
            return Err("Packet too short for IPv4 options");
        }

        let ttl = packet[8];
        let protocol = packet[9];

        let src_ip: [u8; 4] = [packet[12], packet[13], packet[14], packet[15]];
        let dst_ip: [u8; 4] = [packet[16], packet[17], packet[18], packet[19]];
        assert(src_ip@ =~= packet@.subrange(12, 16));
        assert(dst_ip@ =~= packet@.subrange(16, 20));

        let header = Ipv4Header { version, ihl, ttl, protocol, src_ip, dst_ip };

        let payload = vstd::slice::slice_subrange(packet, header_len, packet.len());
        assert(payload@ =~= packet@.skip(header_len as int));
        Ok((header, payload))
    }
}

/// What a decoded IPv4 header holds, in terms of the packet's bytes: version
/// and header length are the high and low nibbles of byte 0, TTL is byte 8,
/// protocol byte 9, the source address bytes 12..16 and the destination
/// address bytes 16..20; the header spans `ihl * 4` bytes.
pub proof fn lemma_ipv4_fields(h: Ipv4Header, packet: Seq<u8>)
    requires
        h.decodes_from(packet),
    ensures
        packet.len() >= 20,
        h.version == 4,
        h.version as int * 16 + h.ihl as int == packet[0],
        5 <= h.ihl <= 15,
        h.ihl as int * 4 <= packet.len(),
        Ipv4Header::header_len(packet) == h.ihl as int * 4,
        h.ttl == packet[8],
        h.protocol == packet[9],
        h.src_ip@.len() == 4 && h.dst_ip@.len() == 4,
        forall|i: int| 0 <= i < 4 ==> h.src_ip@[i] == packet[12 + i],
        forall|i: int| 0 <= i < 4 ==> h.dst_ip@[i] == packet[16 + i],
{
    assert forall|i: int| 0 <= i < 4 implies h.src_ip@[i] == packet[12 + i] by {
        assert(packet.subrange(12, 16)[i] == packet[12 + i]);
    }
    assert forall|i: int| 0 <= i < 4 implies h.dst_ip@[i] == packet[16 + i] by {
        assert(packet.subrange(16, 20)[i] == packet[16 + i]);
    }
}

/// The decoded addresses record bytes 12..20 of the packet: two packets
/// whose headers decode to the same addresses agree on those bytes, so
/// packets that differ in any address byte give different addresses.
pub proof fn lemma_ipv4_addresses_injective(h1: Ipv4Header, p1: Seq<u8>, h2: Ipv4Header, p2: Seq<u8>)
    requires
        h1.decodes_from(p1),
        h2.decodes_from(p2),
        h1.src_ip == h2.src_ip,
        h1.dst_ip == h2.dst_ip,
    ensures
        p1.subrange(12, 20) == p2.subrange(12, 20),
{
    lemma_ipv4_fields(h1, p1);
    lemma_ipv4_fields(h2, p2);
    assert forall|i: int| 0 <= i < 8 implies p1.subrange(12, 20)[i] == p2.subrange(12, 20)[i] by {
        assert(p1.subrange(12, 20)[i] == p1[12 + i]);
        assert(p2.subrange(12, 20)[i] == p2[12 + i]);
        if i < 4 {
            assert(h1.src_ip@[i] == p1[12 + i]);
            assert(h2.src_ip@[i] == p2[12 + i]);
        } else {
            assert(h1.dst_ip@[i - 4] == p1[16 + (i - 4)]);
            assert(h2.dst_ip@[i - 4] == p2[16 + (i - 4)]);
        }
    }
    assert(p1.subrange(12, 20) =~= p2.subrange(12, 20));
}

/// A packet decodes to at most one IPv4 header.
pub proof fn lemma_ipv4_decode_unique(h1: Ipv4Header, h2: Ipv4Header, packet: Seq<u8>)
    requires
        h1.decodes_from(packet),
        h2.decodes_from(packet),
    ensures
        h1 == h2,
{
    assert(h1.src_ip =~= h2.src_ip);
    assert(h1.dst_ip =~= h2.dst_ip);
}

/// An accepted header spans between 20 and 60 bytes, and the payload is what
/// follows it.
pub proof fn lemma_ipv4_header_len_bounds(packet: Seq<u8>)
    requires
        Ipv4Header::accepts(packet),
    ensures
        Ipv4Header::MIN_HEADER_LEN <= Ipv4Header::header_len(packet) <= 60,
        Ipv4Header::header_len(packet) <= packet.len(),
        packet.skip(Ipv4Header::header_len(packet)).len() == packet.len() - Ipv4Header::header_len(
            packet,
        ),
{
}

/// Bytes appended after an accepted packet leave its header unchanged and are
/// appended to its payload.
pub proof fn lemma_ipv4_decode_prefix(h: Ipv4Header, packet: Seq<u8>, more: Seq<u8>)
    requires
        h.decodes_from(packet),
    ensures
        h.decodes_from(packet + more),
        Ipv4Header::header_len(packet + more) == Ipv4Header::header_len(packet),
        (packet + more).skip(Ipv4Header::header_len(packet)) == packet.skip(
            Ipv4Header::header_len(packet),
        ) + more,
{
    let all = packet + more;
    assert(all[0] == packet[0]);
    assert(all[8] == packet[8]);
    assert(all[9] == packet[9]);
    assert(all.subrange(12, 16) =~= packet.subrange(12, 16));
    assert(all.subrange(16, 20) =~= packet.subrange(16, 20));
    assert(all.skip(Ipv4Header::header_len(packet)) =~= packet.skip(
        Ipv4Header::header_len(packet),
    ) + more);
}

/// A packet that holds the fixed part of the header and is refused for its
/// version or its header length is refused for the same reason whatever
/// bytes follow it: both checks read the first byte only.
pub proof fn lemma_ipv4_first_byte_rejection(packet: Seq<u8>, more: Seq<u8>)
    requires
        packet.len() >= Ipv4Header::MIN_HEADER_LEN,
        version_of(packet[0]) != 4 || ihl_of(packet[0]) < 5,
    ensures
        !Ipv4Header::accepts(packet + more),
        Ipv4Header::rejection(packet + more) == Ipv4Header::rejection(packet),
{
    assert((packet + more)[0] == packet[0]);
}

} // verus!
