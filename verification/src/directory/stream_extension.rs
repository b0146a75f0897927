//! The directory record that describes the data of a file.

use vstd::prelude::*;
use crate::bytes::{le16, le32, le64, read_u16_le, read_u32_le, read_u64_le};

verus! {

/// The flag of a stream extension that says the clusters of the file lie
/// one after the other, and the FAT does not describe them.
pub const FLAG_NO_FAT_CHAIN: u8 = 0x02;

/// A stream extension directory record.
#[derive(Clone, Copy, Debug)]
pub struct StreamExtension {
    pub general_secondary_flags: u8,
    /// The length of the UTF-16 string in the subsequent file name records.
    pub name_length: u8,
    pub name_hash: u16,
    pub valid_data_length: u64,
    pub first_cluster: u32,
    pub data_length: u64,
}

impl StreamExtension {
    /// The record that the 32 bytes hold.
    pub open spec fn decode(bytes: Seq<u8>) -> StreamExtension {
        StreamExtension {
            general_secondary_flags: bytes[1],
            name_length: bytes[3],
            name_hash: le16(bytes, 4),
            valid_data_length: le64(bytes, 8),
            first_cluster: le32(bytes, 20),
            data_length: le64(bytes, 24),
        }
    }

    /// Convert to this type from the on-disk representation of a stream
    /// extension record.
    pub fn from_bytes(bytes: [u8; 32]) -> (r: Self)
        ensures
            r == Self::decode(bytes@),
    {
        let data = bytes.as_slice();
        StreamExtension {
            general_secondary_flags: data[1],
            name_length: data[3],
            name_hash: read_u16_le(data, 4),
            valid_data_length: read_u64_le(data, 8),
            first_cluster: read_u32_le(data, 20),
            data_length: read_u64_le(data, 24),
        }
    }

    /// True when the record says that the clusters of the file lie one
    /// after the other.
    pub open spec fn spec_no_fat_chain(&self) -> bool {
        self.general_secondary_flags & FLAG_NO_FAT_CHAIN != 0
    }

    /// True when the record says that the clusters of the file lie one
    /// after the other.
    pub fn no_fat_chain(&self) -> (r: bool)
        ensures
            r == self.spec_no_fat_chain(),
    {
        self.general_secondary_flags & FLAG_NO_FAT_CHAIN != 0
    }
}

} // verus!
