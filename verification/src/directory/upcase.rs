//! The directory record that locates the up-case table.

use vstd::prelude::*;
use crate::bytes::{le32, le64, read_u32_le, read_u64_le};

verus! {

/// An up-case table directory record.
#[derive(Clone, Copy, Debug)]
pub struct UpCaseTable {
    pub table_checksum: u32,
    pub first_cluster: u32,
    pub data_length: u64,
}

impl UpCaseTable {
    /// The record that the 32 bytes hold.
    pub open spec fn decode(bytes: Seq<u8>) -> UpCaseTable {
        UpCaseTable {
            table_checksum: le32(bytes, 4),
            first_cluster: le32(bytes, 20),
            data_length: le64(bytes, 24),
        }
    }

    /// Convert to this type from the on-disk representation of an up-case
    /// table record.
    pub fn from_bytes(bytes: [u8; 32]) -> (r: Self)
        ensures
            r == Self::decode(bytes@),
    {
        let data = bytes.as_slice();
        UpCaseTable {
            table_checksum: read_u32_le(data, 4),
            first_cluster: read_u32_le(data, 20),
            data_length: read_u64_le(data, 24),
        }
    }
}

} // verus!
