//! The directory record that holds the label of the volume.

use vstd::prelude::*;

verus! {

/// A volume label directory record.
#[derive(Clone, Copy, Debug)]
pub struct VolumeLabel {
    /// The number of UTF-16 code units of the label.
    pub character_count: u8,
    /// The label, as the 22 bytes of the record.
    pub volume_label: [u8; 22],
}

impl VolumeLabel {
    /// The number of code units of the label that the 32 bytes hold.
    pub open spec fn decode_count(bytes: Seq<u8>) -> u8 {
        bytes[1]
    }

    /// The bytes of the label that the 32 bytes hold.
    pub open spec fn decode_label(bytes: Seq<u8>) -> Seq<u8> {
        bytes.subrange(2, 24)
    }

    /// The record that the 32 bytes hold.
    pub open spec fn decode(bytes: Seq<u8>) -> VolumeLabel {
        VolumeLabel {
            character_count: Self::decode_count(bytes),
            volume_label: choose|label: [u8; 22]| label@ == Self::decode_label(bytes),
        }
    }

    /// Convert to this type from the on-disk representation of a volume
    /// label record.
    pub fn from_bytes(bytes: [u8; 32]) -> (r: Self)
        ensures
            r == Self::decode(bytes@),
            r.volume_label@ == Self::decode_label(bytes@),
    {
        let r = VolumeLabel {
            character_count: bytes[1],
            volume_label: [
                bytes[2],
                bytes[3],
                bytes[4],
                bytes[5],
                bytes[6],
                bytes[7],
                bytes[8],
                bytes[9],
                bytes[10],
                bytes[11],
                bytes[12],
                bytes[13],
                bytes[14],
                bytes[15],
                bytes[16],
                bytes[17],
                bytes[18],
                bytes[19],
                bytes[20],
                bytes[21],
                bytes[22],
                bytes[23],
            ],
        };
        assert(r.volume_label@ =~= Self::decode_label(bytes@));
        assert(Self::decode(bytes@).volume_label =~= r.volume_label);
        r
    }
}

} // verus!
