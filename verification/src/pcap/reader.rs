//! The global header that opens a libpcap capture file.
use vstd::prelude::*;

use crate::bytes::{
    le16, le32, lemma_le16_bytes, lemma_le32_bytes, lemma_le32_injective,
    read_le16, read_le32,
};

verus! {

/// Magic number of a capture file written in this host's byte order
/// (little-endian, microsecond timestamps).
pub const PCAP_MAGIC_IDENTICAL: u32 = 0xa1b2c3d4;

/// Link-layer type of captures whose packets are Ethernet frames.
pub const LINKTYPE_ETHERNET: u32 = 1;

/// The global header of a libpcap capture file.
#[derive(Debug, PartialEq, Eq)]
pub struct PcapGlobalHeader {
    pub magic_number: u32,
    pub version_major: u16,
    pub version_minor: u16,
    pub thiszone: i32,
    pub sigfigs: u32,
    pub snaplen: u32,
    pub network: u32,
}

impl PcapGlobalHeader {
    /// Length in bytes of the global header.
    pub const HEADER_LEN: usize = 24;

    /// The magic number that `data` starts with.
    pub open spec fn spec_magic(data: Seq<u8>) -> u32 {
        le32(data[0], data[1], data[2], data[3])
    }

    /// `data` starts with a complete global header in the supported byte order.
    pub open spec fn accepts(data: Seq<u8>) -> bool {
        &&& data.len() >= Self::HEADER_LEN
        &&& Self::spec_magic(data) == PCAP_MAGIC_IDENTICAL
    }

    /// Why `data` does not start with a supported global header.
    pub open spec fn rejection(data: Seq<u8>) -> Seq<char> {
        if data.len() < Self::HEADER_LEN {
            "Data too short for PCAP global header"@
        } else {
            "Unsupported PCAP magic number or endianness"@
        }
    }

    /// The header that the first `HEADER_LEN` bytes of `data` encode, every field
    /// little-endian.
    pub open spec fn spec_decode(data: Seq<u8>) -> PcapGlobalHeader {
        PcapGlobalHeader {
            magic_number: Self::spec_magic(data),
            version_major: le16(data[4], data[5]),
            version_minor: le16(data[6], data[7]),
            thiszone: le32(data[8], data[9], data[10], data[11]) as i32,
            sigfigs: le32(data[12], data[13], data[14], data[15]),
            snaplen: le32(data[16], data[17], data[18], data[19]),
            network: le32(data[20], data[21], data[22], data[23]),
        }
    }

    /// Parses the global header at the start of a capture file, returning it
    /// with the bytes that follow it (the packet records).
    pub fn parse(data: &[u8]) -> (res: Result<(Self, &[u8]), &'static str>)
        ensures
            res is Ok <==> Self::accepts(data@),
            res matches Err(e) ==> e@ == Self::rejection(data@),
            res matches Ok((header, remaining)) ==> {
                &&& header == Self::spec_decode(data@)
                &&& remaining@ == data@.skip(Self::HEADER_LEN as int)
            },
            res is Ok <==> data@.len() >= 24 && data@[0] == 0xd4 && data@[1] == 0xc3 && data@[2]
                == 0xb2 && data@[3] == 0xa1,
            res matches Err(e) ==> {
                &&& data@.len() < 24 ==> e@ == "Data too short for PCAP global header"@
                &&& data@.len() >= 24 ==> e@ == "Unsupported PCAP magic number or endianness"@
            },
            res matches Ok((header, remaining)) ==> {
                &&& header.magic_number == 0xa1b2c3d4
                &&& header.version_major == data@[4] as int + data@[5] as int * 256
                &&& header.version_minor == data@[6] as int + data@[7] as int * 256
                &&& header.thiszone == (data@[8] as int + data@[9] as int * 256 + data@[10] as int
                    * 65536 + data@[11] as int * 16777216) as i32
                &&& header.sigfigs == data@[12] as int + data@[13] as int * 256 + data@[14] as int
                    * 65536 + data@[15] as int * 16777216
                &&& header.snaplen == data@[16] as int + data@[17] as int * 256 + data@[18] as int
                    * 65536 + data@[19] as int * 16777216
                &&& header.network == data@[20] as int + data@[21] as int * 256 + data@[22] as int
                    * 65536 + data@[23] as int * 16777216
                &&& remaining@.len() == data@.len() - 24
                &&& data@ == data@.subrange(0, 24) + remaining@
            },
    {
        if data.len() < Self::HEADER_LEN {
            return Err("Data too short for PCAP global header");
        }

        let magic_number = read_le32(data, 0);
        proof {
            lemma_le32_bytes(data@[0], data@[1], data@[2], data@[3]);
            lemma_le32_bytes(data@[8], data@[9], data@[10], data@[11]);
            lemma_le32_bytes(data@[12], data@[13], data@[14], data@[15]);
            lemma_le32_bytes(data@[16], data@[17], data@[18], data@[19]);
            lemma_le32_bytes(data@[20], data@[21], data@[22], data@[23]);
            lemma_le16_bytes(data@[4], data@[5]);
            lemma_le16_bytes(data@[6], data@[7]);
        }
        if magic_number != PCAP_MAGIC_IDENTICAL {
            return Err("Unsupported PCAP magic number or endianness");
        }
        proof {
            lemma_le32_injective(data@[0], data@[1], data@[2], data@[3], 0xd4, 0xc3, 0xb2, 0xa1);
        }

        let version_major = read_le16(data, 4);
        let version_minor = read_le16(data, 6);
        let thiszone = read_le32(data, 8) as i32;
        let sigfigs = read_le32(data, 12);
        let snaplen = read_le32(data, 16);
        let network = read_le32(data, 20);

        let header = PcapGlobalHeader {
            magic_number,
            version_major,
            version_minor,
            thiszone,
            sigfigs,
            snaplen,
            network,
        };

        let remaining = vstd::slice::slice_subrange(data, Self::HEADER_LEN, data.len());
        assert(remaining@ =~= data@.skip(Self::HEADER_LEN as int));
        assert(data@ =~= data@.subrange(0, 24) + remaining@);
        Ok((header, remaining))
    }
}

/// The header that precedes each packet record of a capture file.
#[derive(Debug, PartialEq, Eq, Clone, Copy)]
pub struct PcapPacketHeader {
    pub ts_sec: u32,
    pub ts_usec: u32,
    pub incl_len: u32,
    pub orig_len: u32,
}

impl PcapPacketHeader {
    /// Length in bytes of a packet record header.
    pub const HEADER_LEN: usize = 16;

    /// The record header that the first `HEADER_LEN` bytes of `data` encode,
    /// every field little-endian.
    pub open spec fn spec_decode(data: Seq<u8>) -> PcapPacketHeader {
        PcapPacketHeader {
            ts_sec: le32(data[0], data[1], data[2], data[3]),
            ts_usec: le32(data[4], data[5], data[6], data[7]),
            incl_len: le32(data[8], data[9], data[10], data[11]),
            orig_len: le32(data[12], data[13], data[14], data[15]),
        }
    }

    /// Number of bytes that the record at the start of `data` spans: its header
    /// and the captured bytes it announces.
    pub open spec fn record_len(data: Seq<u8>) -> int {
        Self::HEADER_LEN + Self::spec_decode(data).incl_len
    }
}

/// One packet record: its header and the captured bytes of the packet.
#[derive(Debug, PartialEq, Eq)]
pub struct PcapPacket<'a> {
    pub header: PcapPacketHeader,
    pub data: &'a [u8],
}

/// Walks the packet records of a capture file held in memory.
pub struct PcapReader<'a> {
    /// The global header read when the reader was made.
    pub global_header: PcapGlobalHeader,
    /// The bytes of the capture that have not been read yet.
    pub remaining: &'a [u8],
}

impl<'a> PcapReader<'a> {
    /// The bytes of the capture that have not been read yet.
    pub open spec fn spec_remaining(&self) -> Seq<u8> {
        self.remaining@
    }

    /// Reads the global header of a capture; the reader then stands before the
    /// first packet record.
    pub fn new(data: &'a [u8]) -> (res: Result<Self, &'static str>)
        ensures
            res is Ok <==> PcapGlobalHeader::accepts(data@),
            res matches Err(e) ==> e@ == PcapGlobalHeader::rejection(data@),
            res matches Ok(reader) ==> {
                &&& reader.global_header == PcapGlobalHeader::spec_decode(data@)
                &&& reader.spec_remaining() == data@.skip(PcapGlobalHeader::HEADER_LEN as int)
            },
    {
        let (global_header, remaining) = PcapGlobalHeader::parse(data)?;
        Ok(PcapReader { global_header, remaining })
    }

    /// Reads the next packet record. Returns `None` once the capture is used
    /// up; a record that is cut short is reported once as an error, after which
    /// the reader is used up.
    pub fn next_packet(&mut self) -> (res: Option<Result<PcapPacket<'a>, &'static str>>)
        ensures
            final(self).global_header == old(self).global_header,
            old(self).spec_remaining().len() == 0 ==> res is None,
            old(self).spec_remaining().len() != 0 ==> res is Some,
            res matches Some(Err(e)) ==> {
                &&& old(self).spec_remaining().len() < PcapPacketHeader::HEADER_LEN ==> e@
                    == "Data too short for PCAP packet header"@
                &&& old(self).spec_remaining().len() >= PcapPacketHeader::HEADER_LEN ==> e@
                    == "PCAP packet data truncated"@
            },
            res matches Some(r) ==> (r is Ok <==> {
                &&& old(self).spec_remaining().len() >= PcapPacketHeader::HEADER_LEN
                &&& old(self).spec_remaining().len() >= PcapPacketHeader::record_len(
                    old(self).spec_remaining(),
                )
            }),
            res matches Some(Ok(packet)) ==> {
                let rem = old(self).spec_remaining();
                &&& packet.header == PcapPacketHeader::spec_decode(rem)
                &&& packet.data@ == rem.subrange(
                    PcapPacketHeader::HEADER_LEN as int,
                    PcapPacketHeader::record_len(rem),
                )
                &&& final(self).spec_remaining() == rem.skip(PcapPacketHeader::record_len(rem))
            },
            !(res matches Some(Ok(_))) ==> final(self).spec_remaining().len() == 0,
            res matches Some(r) ==> (r is Ok <==> {
                let rem = old(self).spec_remaining();
                &&& rem.len() >= 16
                &&& rem.len() >= 16 + rem[8] as int + rem[9] as int * 256 + rem[10] as int * 65536
                    + rem[11] as int * 16777216
            }),
            res matches Some(Ok(packet)) ==> {
                let rem = old(self).spec_remaining();
                let incl_len = rem[8] as int + rem[9] as int * 256 + rem[10] as int * 65536
                    + rem[11] as int * 16777216;
                &&& packet.header.ts_sec == rem[0] as int + rem[1] as int * 256 + rem[2] as int
                    * 65536 + rem[3] as int * 16777216
                &&& packet.header.ts_usec == rem[4] as int + rem[5] as int * 256 + rem[6] as int
                    * 65536 + rem[7] as int * 16777216
                &&& packet.header.incl_len == incl_len
                &&& packet.header.orig_len == rem[12] as int + rem[13] as int * 256 + rem[14] as int
                    * 65536 + rem[15] as int * 16777216
                &&& packet.data@.len() == incl_len
                &&& packet.data@ == rem.subrange(16, 16 + incl_len)
                &&& rem == rem.subrange(0, 16) + packet.data@ + final(self).spec_remaining()
            },
    {
        let rem = self.remaining;
        if rem.len() == 0 {
            return None;
        }
        if rem.len() < PcapPacketHeader::HEADER_LEN {
            self.remaining = vstd::slice::slice_subrange(rem, rem.len(), rem.len());
            return Some(Err("Data too short for PCAP packet header"));
        }
        let header = PcapPacketHeader {
            ts_sec: read_le32(rem, 0),
            ts_usec: read_le32(rem, 4),
            incl_len: read_le32(rem, 8),
            orig_len: read_le32(rem, 12),
        };
        proof {
            lemma_le32_bytes(rem@[0], rem@[1], rem@[2], rem@[3]);
            lemma_le32_bytes(rem@[4], rem@[5], rem@[6], rem@[7]);
            lemma_le32_bytes(rem@[8], rem@[9], rem@[10], rem@[11]);
            lemma_le32_bytes(rem@[12], rem@[13], rem@[14], rem@[15]);
        }
        let available = rem.len() - PcapPacketHeader::HEADER_LEN;
        if header.incl_len as u64 > available as u64 {
            self.remaining = vstd::slice::slice_subrange(rem, rem.len(), rem.len());
            return Some(Err("PCAP packet data truncated"));
        }
        let end = PcapPacketHeader::HEADER_LEN + header.incl_len as usize;
        let data = vstd::slice::slice_subrange(rem, PcapPacketHeader::HEADER_LEN, end);
        self.remaining = vstd::slice::slice_subrange(rem, end, rem.len());
        assert(self.remaining@ =~= rem@.skip(end as int));
        assert(rem@ =~= rem@.subrange(0, 16) + data@ + self.remaining@);
        Some(Ok(PcapPacket { header, data }))
    }
}

/// Each record that the reader hands out is cut from the front of the bytes
/// not yet read: the record header, the packet bytes and the bytes left after
/// it make up exactly what was left before.
pub proof fn lemma_pcap_record_split(rem: Seq<u8>)
    requires
        rem.len() >= PcapPacketHeader::HEADER_LEN,
        rem.len() >= PcapPacketHeader::record_len(rem),
    ensures
        rem == rem.take(PcapPacketHeader::HEADER_LEN as int) + rem.subrange(
            PcapPacketHeader::HEADER_LEN as int,
            PcapPacketHeader::record_len(rem),
        ) + rem.skip(PcapPacketHeader::record_len(rem)),
        rem.subrange(
            PcapPacketHeader::HEADER_LEN as int,
            PcapPacketHeader::record_len(rem),
        ).len() == PcapPacketHeader::spec_decode(rem).incl_len,
{
    assert(rem =~= rem.take(16) + rem.subrange(16, PcapPacketHeader::record_len(rem)) + rem.skip(
        PcapPacketHeader::record_len(rem),
    ));
}

/// Each field of a decoded record header is the little-endian value of its
/// four bytes, which it gives back byte by byte.
pub proof fn lemma_pcap_record_fields(data: Seq<u8>)
    requires
        data.len() >= PcapPacketHeader::HEADER_LEN,
    ensures
        ({
            let h = PcapPacketHeader::spec_decode(data);
            &&& h.ts_sec % 256 == data[0] && h.ts_sec / 256 % 256 == data[1]
            &&& h.ts_sec / 65536 % 256 == data[2] && h.ts_sec / 16777216 == data[3]
            &&& h.ts_usec % 256 == data[4] && h.ts_usec / 256 % 256 == data[5]
            &&& h.ts_usec / 65536 % 256 == data[6] && h.ts_usec / 16777216 == data[7]
            &&& h.incl_len % 256 == data[8] && h.incl_len / 256 % 256 == data[9]
            &&& h.incl_len / 65536 % 256 == data[10] && h.incl_len / 16777216 == data[11]
            &&& h.orig_len % 256 == data[12] && h.orig_len / 256 % 256 == data[13]
            &&& h.orig_len / 65536 % 256 == data[14] && h.orig_len / 16777216 == data[15]
        }),
{
    lemma_le32_bytes(data[0], data[1], data[2], data[3]);
    lemma_le32_bytes(data[4], data[5], data[6], data[7]);
    lemma_le32_bytes(data[8], data[9], data[10], data[11]);
    lemma_le32_bytes(data[12], data[13], data[14], data[15]);
}

/// A decoded record header records all of its 16 bytes: records whose headers
/// decode alike start with the same 16 bytes.
pub proof fn lemma_pcap_record_decode_injective(d1: Seq<u8>, d2: Seq<u8>)
    requires
        d1.len() >= PcapPacketHeader::HEADER_LEN,
        d2.len() >= PcapPacketHeader::HEADER_LEN,
        PcapPacketHeader::spec_decode(d1) == PcapPacketHeader::spec_decode(d2),
    ensures
        d1.take(16) == d2.take(16),
{
    lemma_pcap_record_fields(d1);
    lemma_pcap_record_fields(d2);
    assert(d1.take(16) =~= d2.take(16));
}

/// Reinterpreting a 32-bit pattern as signed loses nothing.
proof fn lemma_u32_as_i32_injective(a: u32, b: u32)
    requires
        a as i32 == b as i32,
    ensures
        a == b,
{
    assert(a as i32 == b as i32 ==> a == b) by (bit_vector);
}

/// Each field of a decoded global header is the little-endian value of its
/// bytes, which it gives back byte by byte; the time zone offset is that
/// 32-bit pattern read as a signed number.
pub proof fn lemma_pcap_global_fields(data: Seq<u8>)
    requires
        data.len() >= PcapGlobalHeader::HEADER_LEN,
    ensures
        ({
            let h = PcapGlobalHeader::spec_decode(data);
            &&& h.magic_number % 256 == data[0] && h.magic_number / 256 % 256 == data[1]
            &&& h.magic_number / 65536 % 256 == data[2] && h.magic_number / 16777216 == data[3]
            &&& h.version_major % 256 == data[4] && h.version_major / 256 == data[5]
            &&& h.version_minor % 256 == data[6] && h.version_minor / 256 == data[7]
            &&& h.thiszone == (data[8] as int + data[9] as int * 256 + data[10] as int * 65536
                + data[11] as int * 16777216) as i32
            &&& h.sigfigs % 256 == data[12] && h.sigfigs / 256 % 256 == data[13]
            &&& h.sigfigs / 65536 % 256 == data[14] && h.sigfigs / 16777216 == data[15]
            &&& h.snaplen % 256 == data[16] && h.snaplen / 256 % 256 == data[17]
            &&& h.snaplen / 65536 % 256 == data[18] && h.snaplen / 16777216 == data[19]
            &&& h.network % 256 == data[20] && h.network / 256 % 256 == data[21]
            &&& h.network / 65536 % 256 == data[22] && h.network / 16777216 == data[23]
        }),
{
    lemma_le32_bytes(data[0], data[1], data[2], data[3]);
    lemma_le16_bytes(data[4], data[5]);
    lemma_le16_bytes(data[6], data[7]);
    lemma_le32_bytes(data[8], data[9], data[10], data[11]);
    lemma_le32_bytes(data[12], data[13], data[14], data[15]);
    lemma_le32_bytes(data[16], data[17], data[18], data[19]);
    lemma_le32_bytes(data[20], data[21], data[22], data[23]);
}

/// A decoded global header records all of its 24 bytes: captures whose
/// global headers decode alike start with the same 24 bytes.
pub proof fn lemma_pcap_global_decode_injective(d1: Seq<u8>, d2: Seq<u8>)
    requires
        d1.len() >= PcapGlobalHeader::HEADER_LEN,
        d2.len() >= PcapGlobalHeader::HEADER_LEN,
        PcapGlobalHeader::spec_decode(d1) == PcapGlobalHeader::spec_decode(d2),
    ensures
        d1.take(24) == d2.take(24),
{
    lemma_pcap_global_fields(d1);
    lemma_pcap_global_fields(d2);
    lemma_le32_bytes(d1[8], d1[9], d1[10], d1[11]);
    lemma_le32_bytes(d2[8], d2[9], d2[10], d2[11]);
    lemma_u32_as_i32_injective(
        le32(d1[8], d1[9], d1[10], d1[11]),
        le32(d2[8], d2[9], d2[10], d2[11]),
    );
    lemma_le32_injective(d1[8], d1[9], d1[10], d1[11], d2[8], d2[9], d2[10], d2[11]);
    assert(d1.take(24) =~= d2.take(24));
}

/// Only the first `HEADER_LEN` bytes of a capture decide whether it is accepted
/// and what its global header is; bytes appended after it are appended to the
/// remaining records.
pub proof fn lemma_pcap_decode_prefix(data: Seq<u8>, more: Seq<u8>)
    requires
        data.len() >= PcapGlobalHeader::HEADER_LEN,
    ensures
        PcapGlobalHeader::accepts(data + more) == PcapGlobalHeader::accepts(data),
        PcapGlobalHeader::rejection(data + more) == PcapGlobalHeader::rejection(data),
        PcapGlobalHeader::spec_decode(data + more) == PcapGlobalHeader::spec_decode(data),
        (data + more).skip(PcapGlobalHeader::HEADER_LEN as int) == data.skip(
            PcapGlobalHeader::HEADER_LEN as int,
        ) + more,
{
    let all = data + more;
    assert(forall|i: int| 0 <= i < 24 ==> all[i] == data[i]);
    assert(all.skip(24) =~= data.skip(24) + more);
}

/// An accepted header carries the supported magic number.
pub proof fn lemma_pcap_accepted_magic(data: Seq<u8>)
    requires
        PcapGlobalHeader::accepts(data),
    ensures
        PcapGlobalHeader::spec_decode(data).magic_number == PCAP_MAGIC_IDENTICAL,
        data.take(4) == seq![0xd4u8, 0xc3u8, 0xb2u8, 0xa1u8],
{
    lemma_le32_injective(data[0], data[1], data[2], data[3], 0xd4u8, 0xc3u8, 0xb2u8, 0xa1u8);
    assert(data.take(4) =~= seq![0xd4u8, 0xc3u8, 0xb2u8, 0xa1u8]);
}

} // verus!
