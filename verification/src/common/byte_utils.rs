//! Fixed-width little-endian integers as they appear in binary market data and
//! in the ring segment.

use vstd::prelude::*;
use vstd::slice::slice_subrange;

verus! {

/// The number that four bytes spell in little-endian order.
pub open spec fn le_u32_value(bytes: Seq<u8>) -> int
    recommends
        bytes.len() == 4,
{
    bytes[0] + bytes[1] * 0x100 + bytes[2] * 0x1_0000 + bytes[3] * 0x100_0000
}

/// The number that eight bytes spell in little-endian order.
pub open spec fn le_u64_value(bytes: Seq<u8>) -> int
    recommends
        bytes.len() == 8,
{
    bytes[0] + bytes[1] * 0x100 + bytes[2] * 0x1_0000 + bytes[3] * 0x100_0000 + bytes[4]
        * 0x1_0000_0000 + bytes[5] * 0x100_0000_0000 + bytes[6] * 0x1_0000_0000_0000 + bytes[7]
        * 0x100_0000_0000_0000
}

/// The eight little-endian bytes of a 64-bit number.
pub open spec fn le_u64_bytes(value: u64) -> Seq<u8> {
    seq![
        (value % 0x100) as u8,
        (value / 0x100 % 0x100) as u8,
        (value / 0x1_0000 % 0x100) as u8,
        (value / 0x100_0000 % 0x100) as u8,
        (value / 0x1_0000_0000 % 0x100) as u8,
        (value / 0x100_0000_0000 % 0x100) as u8,
        (value / 0x1_0000_0000_0000 % 0x100) as u8,
        (value / 0x100_0000_0000_0000 % 0x100) as u8,
    ]
}

/// Reading back what `le_u64_bytes` spells gives the number again.
pub proof fn lemma_le_u64_round_trip(value: u64)
    ensures
        le_u64_bytes(value).len() == 8,
        le_u64_value(le_u64_bytes(value)) == value,
{
    assert(value == (value % 0x100) + (value / 0x100 % 0x100) * 0x100 + (value / 0x1_0000 % 0x100)
        * 0x1_0000 + (value / 0x100_0000 % 0x100) * 0x100_0000 + (value / 0x1_0000_0000 % 0x100)
        * 0x1_0000_0000 + (value / 0x100_0000_0000 % 0x100) * 0x100_0000_0000 + (value
        / 0x1_0000_0000_0000 % 0x100) * 0x1_0000_0000_0000 + (value / 0x100_0000_0000_0000
        % 0x100) * 0x100_0000_0000_0000) by (bit_vector);
}

/// Decodes a little-endian `u32` from exactly four bytes.
pub fn le_to_u32(data: &[u8]) -> (value: u32)
    requires
        data@.len() == 4,
    ensures
        value == le_u32_value(data@),
{
    let b0: u32 = data[0] as u32;
    let b1: u32 = data[1] as u32;
    let b2: u32 = data[2] as u32;
    let b3: u32 = data[3] as u32;
    b0 + b1 * 0x100 + b2 * 0x1_0000 + b3 * 0x100_0000
}

/// Decodes a little-endian `u64` from exactly eight bytes.
pub fn le_to_u64(data: &[u8]) -> (value: u64)
    requires
        data@.len() == 8,
    ensures
        value == le_u64_value(data@),
{
    let b0: u64 = data[0] as u64;
    let b1: u64 = data[1] as u64;
    let b2: u64 = data[2] as u64;
    let b3: u64 = data[3] as u64;
    let b4: u64 = data[4] as u64;
    let b5: u64 = data[5] as u64;
    let b6: u64 = data[6] as u64;
    let b7: u64 = data[7] as u64;
    b0 + b1 * 0x100 + b2 * 0x1_0000 + b3 * 0x100_0000 + b4 * 0x1_0000_0000 + b5
        * 0x100_0000_0000 + b6 * 0x1_0000_0000_0000 + b7 * 0x100_0000_0000_0000
}

/// The number spelled by the eight bytes that start at `offset`.
pub open spec fn le_u64_at(bytes: Seq<u8>, offset: int) -> int
    recommends
        0 <= offset,
        offset + 8 <= bytes.len(),
{
    le_u64_value(bytes.subrange(offset, offset + 8))
}

/// `bytes` with the eight bytes from `offset` on replaced by those of `value`.
pub open spec fn with_le_u64(bytes: Seq<u8>, offset: int, value: u64) -> Seq<u8>
    recommends
        0 <= offset,
        offset + 8 <= bytes.len(),
{
    Seq::new(
        bytes.len(),
        |i: int|
            if offset <= i < offset + 8 {
                le_u64_bytes(value)[i - offset]
            } else {
                bytes[i]
            },
    )
}

/// A number written at an offset is the number read back from that offset.
pub proof fn lemma_with_le_u64_reads_back(bytes: Seq<u8>, offset: int, value: u64)
    requires
        0 <= offset,
        offset + 8 <= bytes.len(),
    ensures
        le_u64_at(with_le_u64(bytes, offset, value), offset) == value,
{
    lemma_le_u64_round_trip(value);
    assert(with_le_u64(bytes, offset, value).subrange(offset, offset + 8) =~= le_u64_bytes(value));
}

/// Writing a number leaves every eight-byte field that does not overlap it as it was.
pub proof fn lemma_with_le_u64_keeps_others(bytes: Seq<u8>, offset: int, value: u64, other: int)
    requires
        0 <= offset,
        offset + 8 <= bytes.len(),
        0 <= other,
        other + 8 <= bytes.len(),
        other + 8 <= offset || offset + 8 <= other,
    ensures
        le_u64_at(with_le_u64(bytes, offset, value), other) == le_u64_at(bytes, other),
{
    assert(with_le_u64(bytes, offset, value).subrange(other, other + 8) =~= bytes.subrange(
        other,
        other + 8,
    ));
}

/// Decodes the little-endian `u64` that starts at `offset`.
pub fn read_le_u64(data: &[u8], offset: usize) -> (value: u64)
    requires
        offset + 8 <= data.len(),
    ensures
        value == le_u64_at(data@, offset as int),
{
    le_to_u64(slice_subrange(data, offset, offset + 8))
}

/// Encodes `value` as eight little-endian bytes starting at `offset`.
pub fn write_le_u64(data: &mut [u8], offset: usize, value: u64)
    requires
        offset + 8 <= old(data).len(),
    ensures
        final(data)@ == with_le_u64(old(data)@, offset as int, value),
{
    data[offset] = (value % 0x100) as u8;
    data[offset + 1] = (value / 0x100 % 0x100) as u8;
    data[offset + 2] = (value / 0x1_0000 % 0x100) as u8;
    data[offset + 3] = (value / 0x100_0000 % 0x100) as u8;
    data[offset + 4] = (value / 0x1_0000_0000 % 0x100) as u8;
    data[offset + 5] = (value / 0x100_0000_0000 % 0x100) as u8;
    data[offset + 6] = (value / 0x1_0000_0000_0000 % 0x100) as u8;
    data[offset + 7] = (value / 0x100_0000_0000_0000 % 0x100) as u8;
    assert(data@ =~= with_le_u64(old(data)@, offset as int, value));
}

} // verus!
