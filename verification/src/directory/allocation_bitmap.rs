//! The directory record that locates the allocation bitmap.

use vstd::prelude::*;
use crate::bytes::{le32, le64, read_u32_le, read_u64_le};

verus! {

/// An allocation bitmap directory record.
#[derive(Clone, Copy, Debug)]
pub struct AllocationBitmap {
    /// Bit 0 tells which FAT the bitmap belongs to: 0 the first, 1 the second.
    pub bitmap_flags: u8,
    pub first_cluster: u32,
    pub data_length: u64,
}

impl AllocationBitmap {
    /// The record that the 32 bytes hold.
    pub open spec fn decode(bytes: Seq<u8>) -> AllocationBitmap {
        AllocationBitmap {
            bitmap_flags: bytes[1],
            first_cluster: le32(bytes, 20),
            data_length: le64(bytes, 24),
        }
    }

    /// Convert to this type from the on-disk representation of an
    /// allocation bitmap record.
    pub fn from_bytes(bytes: [u8; 32]) -> (r: Self)
        ensures
            r == Self::decode(bytes@),
    {
        let data = bytes.as_slice();
        AllocationBitmap {
            bitmap_flags: data[1],
            first_cluster: read_u32_le(data, 20),
            data_length: read_u64_le(data, 24),
        }
    }
}

} // verus!
