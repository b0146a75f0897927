//! Little-endian integers at fixed offsets of a byte buffer.

use vstd::prelude::*;

verus! {

/// The 16-bit little-endian integer at offset `at` of `s`.
pub open spec fn le16(s: Seq<u8>, at: int) -> u16 {
    (s[at] as int + s[at + 1] as int * 0x100) as u16
}

/// The 32-bit little-endian integer at offset `at` of `s`.
pub open spec fn le32(s: Seq<u8>, at: int) -> u32 {
    (s[at] as int + s[at + 1] as int * 0x100 + s[at + 2] as int * 0x1_0000 + s[at + 3] as int
        * 0x100_0000) as u32
}

/// The 64-bit little-endian integer at offset `at` of `s`.
pub open spec fn le64(s: Seq<u8>, at: int) -> u64 {
    (le32(s, at) as int + le32(s, at + 4) as int * 0x1_0000_0000) as u64
}

/// Reads the 16-bit little-endian integer at offset `at`.
pub fn read_u16_le(data: &[u8], at: usize) -> (r: u16)
    requires
        at + 2 <= data.len(),
    ensures
        r == le16(data@, at as int),
{
    data[at] as u16 + data[at + 1] as u16 * 0x100
}

/// Reads the 32-bit little-endian integer at offset `at`.
pub fn read_u32_le(data: &[u8], at: usize) -> (r: u32)
    requires
        at + 4 <= data.len(),
    ensures
        r == le32(data@, at as int),
{
    data[at] as u32 + data[at + 1] as u32 * 0x100 + data[at + 2] as u32 * 0x1_0000 + data[at
        + 3] as u32 * 0x100_0000
}

/// Reads the 64-bit little-endian integer at offset `at`.
pub fn read_u64_le(data: &[u8], at: usize) -> (r: u64)
    requires
        at + 8 <= data.len(),
    ensures
        r == le64(data@, at as int),
{
    read_u32_le(data, at) as u64 + read_u32_le(data, at + 4) as u64 * 0x1_0000_0000
}

} // verus!
