//! The two rolling checksums of exFAT, with their field-exclusion rules.

use vstd::prelude::*;

verus! {

/// Which bytes of the buffer a checksum leaves out.
#[derive(Clone, Copy, Debug, PartialEq, Eq, Structural)]
pub enum ChecksumType {
    /// A directory entry set: the stored checksum at offsets 2 and 3 is skipped.
    DirEntry,
    /// The boot sector: the volume flags at offsets 106 and 107 and the
    /// percent-in-use byte at offset 112 are skipped.
    BootSector,
    /// Every byte counts.
    Default,
}

/// True when the byte at offset `index` does not enter a checksum of this mode.
pub open spec fn is_excluded(mode: ChecksumType, index: int) -> bool {
    match mode {
        ChecksumType::DirEntry => index == 2 || index == 3,
        ChecksumType::BootSector => index == 106 || index == 107 || index == 112,
        ChecksumType::Default => false,
    }
}

/// One step of the 16-bit checksum: rotate right by one bit, then add the
/// byte, wrapping.
pub open spec fn checksum16_step(acc: u16, byte: u8) -> u16 {
    ((acc / 2 + (acc % 2) * 0x8000 + byte) % 0x1_0000) as u16
}

/// One step of the 32-bit checksum: rotate right by one bit, then add the
/// byte, wrapping.
pub open spec fn checksum32_step(acc: u32, byte: u8) -> u32 {
    ((acc / 2 + (acc % 2) * 0x8000_0000 + byte) % 0x1_0000_0000) as u32
}

/// The 16-bit checksum of `data`, continued from `seed`.
pub open spec fn checksum16(data: Seq<u8>, seed: u16, mode: ChecksumType) -> u16
    decreases data.len(),
{
    if data.len() == 0 {
        seed
    } else {
        let before = checksum16(data.drop_last(), seed, mode);
        if is_excluded(mode, data.len() - 1) {
            before
        } else {
            checksum16_step(before, data.last())
        }
    }
}

/// The 32-bit checksum of `data`, continued from `seed`.
pub open spec fn checksum32(data: Seq<u8>, seed: u32, mode: ChecksumType) -> u32
    decreases data.len(),
{
    if data.len() == 0 {
        seed
    } else {
        let before = checksum32(data.drop_last(), seed, mode);
        if is_excluded(mode, data.len() - 1) {
            before
        } else {
            checksum32_step(before, data.last())
        }
    }
}

/// True when the two buffers have one length and differ at excluded offsets only.
pub open spec fn agree_outside_excluded(a: Seq<u8>, b: Seq<u8>, mode: ChecksumType) -> bool {
    &&& a.len() == b.len()
    &&& forall|i: int| 0 <= i < a.len() && !is_excluded(mode, i) ==> a[i] == b[i]
}

fn skips(mode: ChecksumType, index: usize) -> (r: bool)
    ensures
        r == is_excluded(mode, index as int),
{
    match mode {
        ChecksumType::DirEntry => index == 2 || index == 3,
        ChecksumType::BootSector => index == 106 || index == 107 || index == 112,
        ChecksumType::Default => false,
    }
}

/// Computes the 16-bit checksum of `data`, continued from `checksum`.
pub fn calc_checksum_16(data: &[u8], checksum: u16, checksum_type: ChecksumType) -> (r: u16)
    ensures
        r == checksum16(data@, checksum, checksum_type),
{
    let mut acc: u16 = checksum;
    let mut i: usize = 0;
    while i < data.len()
        invariant
            i <= data.len(),
            acc == checksum16(data@.take(i as int), checksum, checksum_type),
        decreases data.len() - i,
    {
        let byte: u8 = data[i];
        proof {
            assert(data@.take(i + 1).drop_last() =~= data@.take(i as int));
        }
        if !skips(checksum_type, i) {
            let rotated: u16 = (acc << 15) | (acc >> 1);
            assert(rotated == acc / 2 + (acc % 2) * 0x8000) by (bit_vector)
                requires
                    rotated == (acc << 15) | (acc >> 1),
            ;
            acc = rotated.wrapping_add(byte as u16);
        }
        i += 1;
    }
    proof {
        assert(data@.take(data.len() as int) =~= data@);
    }
    acc
}

/// Computes the 32-bit checksum of `data`, continued from `checksum`.
pub fn calc_checksum_32(data: &[u8], checksum: u32, checksum_type: ChecksumType) -> (r: u32)
    ensures
        r == checksum32(data@, checksum, checksum_type),
{
    let mut acc: u32 = checksum;
    let mut i: usize = 0;
    while i < data.len()
        invariant
            i <= data.len(),
            acc == checksum32(data@.take(i as int), checksum, checksum_type),
        decreases data.len() - i,
    {
        let byte: u8 = data[i];
        proof {
            assert(data@.take(i + 1).drop_last() =~= data@.take(i as int));
        }
        if !skips(checksum_type, i) {
            let rotated: u32 = (acc << 31) | (acc >> 1);
            assert(rotated == acc / 2 + (acc % 2) * 0x8000_0000) by (bit_vector)
                requires
                    rotated == (acc << 31) | (acc >> 1),
            ;
            acc = rotated.wrapping_add(byte as u32);
        }
        i += 1;
    }
    proof {
        assert(data@.take(data.len() as int) =~= data@);
    }
    acc
}

/// The 16-bit checksum does not depend on the bytes its mode excludes: two
/// buffers that differ at excluded offsets only have the same checksum.
pub proof fn lemma_checksum16_ignores_excluded(
    a: Seq<u8>,
    b: Seq<u8>,
    seed: u16,
    mode: ChecksumType,
)
    requires
        agree_outside_excluded(a, b, mode),
    ensures
        checksum16(a, seed, mode) == checksum16(b, seed, mode),
    decreases a.len(),
{
    if a.len() > 0 {
        lemma_checksum16_ignores_excluded(a.drop_last(), b.drop_last(), seed, mode);
    }
}

/// The 32-bit checksum does not depend on the bytes its mode excludes: two
/// buffers that differ at excluded offsets only have the same checksum.
pub proof fn lemma_checksum32_ignores_excluded(
    a: Seq<u8>,
    b: Seq<u8>,
    seed: u32,
    mode: ChecksumType,
)
    requires
        agree_outside_excluded(a, b, mode),
    ensures
        checksum32(a, seed, mode) == checksum32(b, seed, mode),
    decreases a.len(),
{
    if a.len() > 0 {
        lemma_checksum32_ignores_excluded(a.drop_last(), b.drop_last(), seed, mode);
    }
}

/// A checksum of every byte of a concatenation is the checksum of the
/// second part, continued from that of the first.
pub proof fn lemma_checksum32_append(a: Seq<u8>, b: Seq<u8>, seed: u32)
    ensures
        checksum32(a + b, seed, ChecksumType::Default) == checksum32(
            b,
            checksum32(a, seed, ChecksumType::Default),
            ChecksumType::Default,
        ),
    decreases b.len(),
{
    if b.len() == 0 {
    } else {
        assert((a + b).drop_last() =~= a + b.drop_last());
        lemma_checksum32_append(a, b.drop_last(), seed);
    }
}

} // verus!
