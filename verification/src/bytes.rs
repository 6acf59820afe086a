//! Little endian words in byte sequences.
use vstd::prelude::*;

verus! {

/// The sixteen bit word that starts at `at`.
pub open spec fn le16(data: Seq<u8>, at: int) -> int {
    data[at] + 256 * data[at + 1]
}

/// The twenty-four bit word that starts at `at`.
pub open spec fn le24(data: Seq<u8>, at: int) -> int {
    data[at] + 256 * data[at + 1] + 65536 * data[at + 2]
}

/// The thirty-two bit word that starts at `at`.
pub open spec fn le32(data: Seq<u8>, at: int) -> int {
    data[at] + 256 * data[at + 1] + 65536 * data[at + 2] + 16777216 * data[at + 3]
}

/// Reads the sixteen bit word that starts at `at`.
pub fn read_le16(data: &[u8], at: usize) -> (out: u16)
    requires
        at + 2 <= data@.len(),
    ensures
        out == le16(data@, at as int),
{
    data[at] as u16 + 256 * data[at + 1] as u16
}

/// Reads the twenty-four bit word that starts at `at`.
pub fn read_le24(data: &[u8], at: usize) -> (out: u32)
    requires
        at + 3 <= data@.len(),
    ensures
        out == le24(data@, at as int),
{
    data[at] as u32 + 256 * data[at + 1] as u32 + 65536 * data[at + 2] as u32
}

/// Reads the thirty-two bit word that starts at `at`.
pub fn read_le32(data: &[u8], at: usize) -> (out: u32)
    requires
        at + 4 <= data@.len(),
    ensures
        out == le32(data@, at as int),
{
    data[at] as u32 + 256 * data[at + 1] as u32 + 65536 * data[at + 2] as u32 + 16777216 * data[at
        + 3] as u32
}

/// A word of sixteen bits splits into its two bytes, the low one first.
pub proof fn le16_splits_into_bytes(data: Seq<u8>, at: int)
    ensures
        0 <= le16(data, at) <= 0xFFFF,
        le16(data, at) % 256 == data[at],
        le16(data, at) / 256 == data[at + 1],
{
}

/// A word of twenty-four bits splits into its three bytes, the low one first.
pub proof fn le24_splits_into_bytes(data: Seq<u8>, at: int)
    ensures
        0 <= le24(data, at) <= 0xFF_FFFF,
        le24(data, at) % 256 == data[at],
        le24(data, at) / 256 % 256 == data[at + 1],
        le24(data, at) / 65536 == data[at + 2],
{
}

/// A word of thirty-two bits splits into its four bytes, the low one first.
pub proof fn le32_splits_into_bytes(data: Seq<u8>, at: int)
    ensures
        0 <= le32(data, at) <= 0xFFFF_FFFF,
        le32(data, at) % 256 == data[at],
        le32(data, at) / 256 % 256 == data[at + 1],
        le32(data, at) / 65536 % 256 == data[at + 2],
        le32(data, at) / 16777216 == data[at + 3],
{
}

} // verus!
