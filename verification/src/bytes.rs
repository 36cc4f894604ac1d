//! Integers read from fixed positions of a byte string, in network (big-endian)
//! and in little-endian byte order.
use vstd::prelude::*;

use vstd::arithmetic::div_mod::lemma_fundamental_div_mod_converse;

verus! {

/// The 16-bit value whose big-endian encoding is `hi`, `lo`.
pub open spec fn be16(hi: u8, lo: u8) -> u16 {
    (hi as int * 0x100 + lo as int) as u16
}

/// The 16-bit value whose little-endian encoding is `b0`, `b1`.
pub open spec fn le16(b0: u8, b1: u8) -> u16 {
    (b0 as int + b1 as int * 0x100) as u16
}

/// The 32-bit value whose little-endian encoding is `b0`, `b1`, `b2`, `b3`.
pub open spec fn le32(b0: u8, b1: u8, b2: u8, b3: u8) -> u32 {
    (b0 as int + b1 as int * 0x100 + b2 as int * 0x1_0000 + b3 as int * 0x100_0000) as u32
}

/// The big-endian value of two bytes gives them back: the high byte is the
/// value divided by 256 and the low byte the remainder.
pub proof fn lemma_be16_bytes(hi: u8, lo: u8)
    ensures
        be16(hi, lo) as int == hi as int * 256 + lo as int,
        be16(hi, lo) / 256 == hi,
        be16(hi, lo) % 256 == lo,
{
}

/// The little-endian value of two bytes gives them back: the first byte is the
/// remainder by 256 and the second the quotient.
pub proof fn lemma_le16_bytes(b0: u8, b1: u8)
    ensures
        le16(b0, b1) as int == b0 as int + b1 as int * 256,
        le16(b0, b1) % 256 == b0,
        le16(b0, b1) / 256 == b1,
{
}

/// The little-endian value of four bytes gives each of them back, least
/// significant first.
pub proof fn lemma_le32_bytes(b0: u8, b1: u8, b2: u8, b3: u8)
    ensures
        le32(b0, b1, b2, b3) as int == b0 as int + b1 as int * 256 + b2 as int * 65536 + b3 as int
            * 16777216,
        le32(b0, b1, b2, b3) % 256 == b0,
        le32(b0, b1, b2, b3) / 256 % 256 == b1,
        le32(b0, b1, b2, b3) / 65536 % 256 == b2,
        le32(b0, b1, b2, b3) / 16777216 == b3,
{
    let v: int = b0 as int + b1 as int * 256 + b2 as int * 65536 + b3 as int * 16777216;
    let q1: int = b1 as int + b2 as int * 256 + b3 as int * 65536;
    let q2: int = b2 as int + b3 as int * 256;
    assert(le32(b0, b1, b2, b3) as int == v);
    lemma_fundamental_div_mod_converse(v, 256, q1, b0 as int);
    lemma_fundamental_div_mod_converse(q1, 256, q2, b1 as int);
    lemma_fundamental_div_mod_converse(q2, 256, b3 as int, b2 as int);
    lemma_fundamental_div_mod_converse(v, 65536, q2, b0 as int + b1 as int * 256);
    lemma_fundamental_div_mod_converse(v, 16777216, b3 as int, b0 as int + b1 as int * 256 + b2 as int * 65536);
}

/// Distinct byte pairs have distinct big-endian values.
pub proof fn lemma_be16_injective(hi1: u8, lo1: u8, hi2: u8, lo2: u8)
    requires
        be16(hi1, lo1) == be16(hi2, lo2),
    ensures
        hi1 == hi2,
        lo1 == lo2,
{
}

/// Distinct byte pairs have distinct little-endian values.
pub proof fn lemma_le16_injective(a0: u8, a1: u8, b0: u8, b1: u8)
    requires
        le16(a0, a1) == le16(b0, b1),
    ensures
        a0 == b0,
        a1 == b1,
{
}

/// Distinct byte quadruples have distinct little-endian values.
pub proof fn lemma_le32_injective(a0: u8, a1: u8, a2: u8, a3: u8, b0: u8, b1: u8, b2: u8, b3: u8)
    requires
        le32(a0, a1, a2, a3) == le32(b0, b1, b2, b3),
    ensures
        a0 == b0,
        a1 == b1,
        a2 == b2,
        a3 == b3,
{
    lemma_le32_bytes(a0, a1, a2, a3);
    lemma_le32_bytes(b0, b1, b2, b3);
}

/// Reads the big-endian 16-bit value at `pos`.
pub fn read_be16(data: &[u8], pos: usize) -> (res: u16)
    requires
        pos + 2 <= data@.len(),
    ensures
        res == be16(data@[pos as int], data@[pos + 1]),
{
    let hi = data[pos] as u16;
    let lo = data[pos + 1] as u16;
    hi * 0x100 + lo
}

/// Reads the little-endian 16-bit value at `pos`.
pub fn read_le16(data: &[u8], pos: usize) -> (res: u16)
    requires
        pos + 2 <= data@.len(),
    ensures
        res == le16(data@[pos as int], data@[pos + 1]),
{
    let b0 = data[pos] as u16;
    let b1 = data[pos + 1] as u16;
    b0 + b1 * 0x100
}

/// Reads the little-endian 32-bit value at `pos`.
pub fn read_le32(data: &[u8], pos: usize) -> (res: u32)
    requires
        pos + 4 <= data@.len(),
    ensures
        res == le32(data@[pos as int], data@[pos + 1], data@[pos + 2], data@[pos + 3]),
{
    let b0 = data[pos] as u32;
    let b1 = data[pos + 1] as u32;
    let b2 = data[pos + 2] as u32;
    let b3 = data[pos + 3] as u32;
    b0 + b1 * 0x100 + b2 * 0x1_0000 + b3 * 0x100_0000
}

} // verus!
