//! The boot sector: its validation, the geometry derived from it, and the
//! checksum of the boot region.

use vstd::prelude::*;
use crate::bytes::{le16, le32, le64, read_u16_le, read_u32_le, read_u64_le};
use crate::checksum::{calc_checksum_32, checksum32, ChecksumType};
use crate::device::{disk_wf, BlockReader, Disk, ReadLog, SECTOR_SIZE};
use crate::error::{Error, Result};
use crate::superblock::BootSectorInfo;

verus! {

/// The signature that ends the boot sector.
pub const BOOT_SIGNATURE: u16 = 0xAA55;

/// The signature that ends each of the extended boot sectors.
pub const EXBOOT_SIGNATURE: u32 = 0xAA55_0000;

/// The only sector size this decoder accepts, as a shift.
pub const BYTES_PER_SECTOR_SHIFT: u8 = 9;

/// The largest cluster size, as a shift: 32 MiB.
pub const MAX_CLUSTER_SIZE_SHIFT: u8 = 25;

/// The volume flag that says the volume was not unmounted cleanly.
pub const VOLUME_DIRTY_FLAG: u16 = 0x2;

/// The volume flag that says the medium has reported failures.
pub const MEDIA_FAILURE_FLAG: u16 = 0x4;

/// The first cluster of the cluster heap.
pub const EXFAT_FIRST_CLUSTER: u32 = 2;

/// The count of used clusters while nobody has counted them.
pub const EXFAT_CLUSTERS_UNTRACKED: u32 = 0xFFFF_FFFF;

/// The number of sectors that the boot checksum covers.
pub const BOOT_CHECKSUM_SECTORS: u64 = 11;

/// The number of sectors of the volume.
pub open spec fn bs_volume_length(s: Seq<u8>) -> u64 {
    le64(s, 72)
}

/// The first sector of the first FAT.
pub open spec fn bs_fat_offset(s: Seq<u8>) -> u32 {
    le32(s, 80)
}

/// The length of one FAT in sectors.
pub open spec fn bs_fat_length(s: Seq<u8>) -> u32 {
    le32(s, 84)
}

/// The first sector of the cluster heap.
pub open spec fn bs_cluster_heap_offset(s: Seq<u8>) -> u32 {
    le32(s, 88)
}

/// The number of clusters of the volume.
pub open spec fn bs_cluster_count(s: Seq<u8>) -> u32 {
    le32(s, 92)
}

/// The first cluster of the root directory.
pub open spec fn bs_root_cluster(s: Seq<u8>) -> u32 {
    le32(s, 96)
}

/// The volume flags.
pub open spec fn bs_volume_flags(s: Seq<u8>) -> u16 {
    le16(s, 106)
}

/// The size of a sector, as a shift.
pub open spec fn bs_bytes_per_sector_shift(s: Seq<u8>) -> u8 {
    s[108]
}

/// The number of sectors of a cluster, as a shift.
pub open spec fn bs_sectors_per_cluster_shift(s: Seq<u8>) -> u8 {
    s[109]
}

/// The number of FATs.
pub open spec fn bs_number_of_fats(s: Seq<u8>) -> u8 {
    s[110]
}

/// The signature at the end of the sector.
pub open spec fn bs_boot_signature(s: Seq<u8>) -> u16 {
    le16(s, 510)
}

/// True when the sector starts with the jump instruction of exFAT.
pub open spec fn has_jump_boot(s: Seq<u8>) -> bool {
    s[0] == 0xEB && s[1] == 0x76 && s[2] == 0x90
}

/// True when the sector names the file system `"EXFAT   "`.
pub open spec fn has_filesystem_name(s: Seq<u8>) -> bool {
    &&& s[3] == 0x45
    &&& s[4] == 0x58
    &&& s[5] == 0x46
    &&& s[6] == 0x41
    &&& s[7] == 0x54
    &&& s[8] == 0x20
    &&& s[9] == 0x20
    &&& s[10] == 0x20
}

/// True when the 53 bytes that hold the parameter block on a FAT volume
/// are all zero.
pub open spec fn must_be_zero_holds(s: Seq<u8>) -> bool {
    forall|i: int| 11 <= i < 64 ==> s[i] == 0
}

/// True when the fields of the sector pass every check on a single field.
pub open spec fn boot_fields_valid(s: Seq<u8>) -> bool {
    &&& s.len() == SECTOR_SIZE
    &&& has_jump_boot(s)
    &&& has_filesystem_name(s)
    &&& must_be_zero_holds(s)
    &&& (bs_number_of_fats(s) == 1 || bs_number_of_fats(s) == 2)
    &&& bs_bytes_per_sector_shift(s) == BYTES_PER_SECTOR_SHIFT
    &&& bs_sectors_per_cluster_shift(s) <= MAX_CLUSTER_SIZE_SHIFT - BYTES_PER_SECTOR_SHIFT
    &&& bs_boot_signature(s) == BOOT_SIGNATURE
}

/// True when the geometry that the sector describes is consistent: there
/// are the two reserved clusters, each FAT has an entry for every data
/// cluster, and the cluster heap starts behind the FATs.
pub open spec fn boot_geometry_consistent(s: Seq<u8>) -> bool {
    &&& bs_cluster_count(s) >= 2
    &&& bs_fat_length(s) * 512 >= (bs_cluster_count(s) - 2) * 4
    &&& bs_cluster_heap_offset(s) >= bs_fat_offset(s) + bs_fat_length(s) * bs_number_of_fats(s)
}

/// True when the sector is the boot sector of a volume this decoder accepts.
pub open spec fn boot_sector_valid(s: Seq<u8>) -> bool {
    boot_fields_valid(s) && boot_geometry_consistent(s)
}

/// The geometry that a boot sector describes.
pub open spec fn boot_sector_geometry(s: Seq<u8>) -> BootSectorInfo {
    let shift = bs_sectors_per_cluster_shift(s) as u32;
    BootSectorInfo {
        num_sectors: bs_volume_length(s),
        num_clusters: bs_cluster_count(s),
        cluster_size: 1u32 << ((shift + 9) as u32),
        cluster_size_bits: (shift + 9) as u32,
        sect_per_clus: 1u32 << shift,
        sect_per_clus_bits: shift,
        fat1_start_sector: bs_fat_offset(s) as u64,
        fat2_start_sector: if bs_number_of_fats(s) == 1 {
            None
        } else {
            Some((bs_fat_offset(s) + bs_fat_length(s)) as u64)
        },
        data_start_sector: bs_cluster_heap_offset(s) as u64,
        num_fat_sectors: bs_fat_length(s),
        root_dir: bs_root_cluster(s),
        dentries_per_clu: 1u32 << ((shift + 4) as u32),
        vol_flags: bs_volume_flags(s) as u32,
        vol_flags_persistent: (bs_volume_flags(s) & (VOLUME_DIRTY_FLAG | MEDIA_FAILURE_FLAG)) as u32,
        clu_srch_ptr: EXFAT_FIRST_CLUSTER,
        used_clusters: EXFAT_CLUSTERS_UNTRACKED,
    }
}

proof fn lemma_shift_sizes(shift: u32)
    by (bit_vector)
    requires
        shift <= 16,
    ensures
        1 <= (1u32 << shift) <= 0x1_0000,
        (1u32 << ((shift + 9) as u32)) == (1u32 << shift) * 512,
        (1u32 << ((shift + 4) as u32)) == (1u32 << shift) * 16,
{
}

/// The geometry of a valid boot sector is well formed.
pub proof fn lemma_geometry_wf(s: Seq<u8>)
    requires
        boot_sector_valid(s),
    ensures
        boot_sector_geometry(s).wf(),
{
    lemma_shift_sizes(bs_sectors_per_cluster_shift(s) as u32);
}

fn fields_valid(data: &[u8]) -> (r: bool)
    ensures
        r == boot_fields_valid(data@),
{
    if data.len() != SECTOR_SIZE {
        return false;
    }
    if !(data[0] == 0xEB && data[1] == 0x76 && data[2] == 0x90) {
        return false;
    }
    if !(data[3] == 0x45 && data[4] == 0x58 && data[5] == 0x46 && data[6] == 0x41 && data[7]
        == 0x54 && data[8] == 0x20 && data[9] == 0x20 && data[10] == 0x20) {
        return false;
    }
    let mut i: usize = 11;
    while i < 64
        invariant
            11 <= i <= 64,
            data.len() == SECTOR_SIZE,
            forall|j: int| 11 <= j < i ==> data@[j] == 0,
        decreases 64 - i,
    {
        if data[i] != 0 {
            return false;
        }
        i += 1;
    }
    let number_of_fats: u8 = data[110];
    if number_of_fats != 1 && number_of_fats != 2 {
        return false;
    }
    if data[108] != BYTES_PER_SECTOR_SHIFT {
        return false;
    }
    if data[109] > MAX_CLUSTER_SIZE_SHIFT - BYTES_PER_SECTOR_SHIFT {
        return false;
    }
    read_u16_le(data, 510) == BOOT_SIGNATURE
}

/// Validates a boot sector and derives the geometry of its volume.
///
/// Every violation is reported as `InvalidFormat`.
pub fn decode_boot_sector(data: &[u8]) -> (r: Result<BootSectorInfo>)
    ensures
        boot_sector_valid(data@) ==> r == Ok::<BootSectorInfo, Error>(boot_sector_geometry(data@)),
        !boot_sector_valid(data@) ==> r == Err::<BootSectorInfo, Error>(Error::InvalidFormat),
        r is Ok ==> r->Ok_0.wf(),
{
    if !fields_valid(data) {
        return Err(Error::InvalidFormat);
    }
    let fat_offset: u32 = read_u32_le(data, 80);
    let fat_length: u32 = read_u32_le(data, 84);
    let cluster_heap_offset: u32 = read_u32_le(data, 88);
    let cluster_count: u32 = read_u32_le(data, 92);
    let volume_flags: u16 = read_u16_le(data, 106);
    let shift: u32 = data[109] as u32;
    let number_of_fats: u8 = data[110];

    if cluster_count < 2 {
        return Err(Error::InvalidFormat);
    }
    if (fat_length as u64) * 512 < (cluster_count as u64 - 2) * 4 {
        return Err(Error::InvalidFormat);
    }
    let fats_length: u64 = if number_of_fats == 1 {
        fat_length as u64
    } else {
        2 * (fat_length as u64)
    };
    assert(fats_length == fat_length * number_of_fats) by (nonlinear_arith)
        requires
            number_of_fats == 1 || number_of_fats == 2,
            fats_length == (if number_of_fats == 1 {
                fat_length as int
            } else {
                2 * fat_length
            }),
    ;
    if (cluster_heap_offset as u64) < fat_offset as u64 + fats_length {
        return Err(Error::InvalidFormat);
    }
    proof {
        lemma_shift_sizes(shift);
        lemma_geometry_wf(data@);
    }
    Ok(
        BootSectorInfo {
            num_sectors: read_u64_le(data, 72),
            num_clusters: cluster_count,
            cluster_size: 1u32 << (shift + 9),
            cluster_size_bits: shift + 9,
            sect_per_clus: 1u32 << shift,
            sect_per_clus_bits: shift,
            fat1_start_sector: fat_offset as u64,
            fat2_start_sector: if number_of_fats == 1 {
                None
            } else {
                Some(fat_offset as u64 + fat_length as u64)
            },
            data_start_sector: cluster_heap_offset as u64,
            num_fat_sectors: fat_length,
            root_dir: read_u32_le(data, 96),
            dentries_per_clu: 1u32 << (shift + 4),
            vol_flags: volume_flags as u32,
            vol_flags_persistent: (volume_flags & (VOLUME_DIRTY_FLAG | MEDIA_FAILURE_FLAG)) as u32,
            clu_srch_ptr: EXFAT_FIRST_CLUSTER,
            used_clusters: EXFAT_CLUSTERS_UNTRACKED,
        },
    )
}

/// What reading the boot sector of a disk gives: the geometry of the
/// volume, an `IoError` where sector 0 cannot be read, and `InvalidFormat`
/// where it is no boot sector that this decoder accepts.
pub open spec fn boot_sector_result(disk: Disk) -> Result<BootSectorInfo> {
    if !disk.contains_key(0) {
        Err(Error::IoError)
    } else if boot_sector_valid(disk[0]) {
        Ok(boot_sector_geometry(disk[0]))
    } else {
        Err(Error::InvalidFormat)
    }
}

/// Reads sector 0 of the device and decodes it as a boot sector.
pub fn read_boot_sector<D: BlockReader>(dev: &D) -> (r: Result<BootSectorInfo>)
    ensures
        r == boot_sector_result(dev@),
        r is Ok ==> r->Ok_0.wf(),
{
    let mut log = ReadLog::new();
    match dev.read_sector(0, &mut log) {
        None => Err(Error::IoError),
        Some(sector) => decode_boot_sector(sector.as_slice()),
    }
}

/// The checksum over the first `count` sectors of the disk: the boot
/// sector without its volatile fields, every other sector whole.
pub open spec fn boot_checksum(disk: Disk, count: nat) -> u32
    decreases count,
{
    if count == 0 {
        0
    } else {
        let n = (count - 1) as nat;
        checksum32(
            disk[n as u64],
            boot_checksum(disk, n),
            if n == 0 {
                ChecksumType::BootSector
            } else {
                ChecksumType::Default
            },
        )
    }
}

/// True when the sector ends with the signature of an extended boot sector.
pub open spec fn has_exboot_signature(sector: Seq<u8>) -> bool {
    le32(sector, 508) == EXBOOT_SIGNATURE
}

/// The number of extended boot sectors, which are the sectors 1 to 8, that
/// lack their signature, counted among the sectors 1 to `upto`.
pub open spec fn missing_exboot_signatures(disk: Disk, upto: nat) -> nat
    decreases upto,
{
    if upto == 0 {
        0
    } else {
        missing_exboot_signatures(disk, (upto - 1) as nat) + if upto <= 8 && !has_exboot_signature(
            disk[upto as u64],
        ) {
            1nat
        } else {
            0nat
        }
    }
}

/// The 32-bit word with number `w` of a sector.
pub open spec fn sector_word(sector: Seq<u8>, w: int) -> u32 {
    le32(sector, 4 * w)
}

/// True when every 32-bit word of the sector is `checksum`.
pub open spec fn checksum_sector_holds(sector: Seq<u8>, checksum: u32) -> bool {
    forall|w: int| 0 <= w < 128 ==> #[trigger] sector_word(sector, w) == checksum
}

/// True when the twelve sectors of the boot region can be read.
pub open spec fn boot_region_readable(disk: Disk) -> bool {
    forall|n: u64| n < 12 ==> disk.contains_key(n)
}

fn checksum_sector_ok(sector: &[u8], checksum: u32) -> (r: bool)
    requires
        sector.len() == SECTOR_SIZE,
    ensures
        r == checksum_sector_holds(sector@, checksum),
{
    let mut w: usize = 0;
    while w < 128
        invariant
            w <= 128,
            sector.len() == SECTOR_SIZE,
            forall|v: int| 0 <= v < w ==> #[trigger] sector_word(sector@, v) == checksum,
        decreases 128 - w,
    {
        if read_u32_le(sector, 4 * w) != checksum {
            assert(sector_word(sector@, w as int) != checksum);
            return false;
        }
        w += 1;
    }
    true
}

/// What verifying the boot region of a disk gives: the number of extended
/// boot sectors without their signature, an `IoError` where one of the
/// twelve sectors cannot be read, and `ChecksumMismatch` where a word of
/// sector 11 is not the checksum of the sectors 0 to 10.
pub open spec fn boot_region_result(disk: Disk) -> Result<u32> {
    if !boot_region_readable(disk) {
        Err(Error::IoError)
    } else if !checksum_sector_holds(disk[11], boot_checksum(disk, BOOT_CHECKSUM_SECTORS as nat)) {
        Err(Error::ChecksumMismatch)
    } else {
        Ok(missing_exboot_signatures(disk, 10) as u32)
    }
}

/// Verifies the boot region: computes the boot checksum over sectors 0 to 10
/// and compares it with every word of sector 11.
///
/// A missing signature on one of the extended boot sectors 1 to 8 is
/// tolerated; the result counts them, for the caller to report.
pub fn verify_boot_region<D: BlockReader>(dev: &D) -> (r: Result<u32>)
    ensures
        r == boot_region_result(dev@),
{
    proof {
        dev.lemma_view_wf();
    }
    let mut log = ReadLog::new();
    let mut checksum: u32 = 0;
    let mut missing: u32 = 0;
    let mut sn: u64 = 0;
    while sn < BOOT_CHECKSUM_SECTORS
        invariant
            sn <= BOOT_CHECKSUM_SECTORS,
            disk_wf(dev@),
            forall|n: u64| n < sn ==> dev@.contains_key(n),
            checksum == boot_checksum(dev@, sn as nat),
            sn > 0 ==> missing == missing_exboot_signatures(dev@, (sn - 1) as nat),
            sn == 0 ==> missing == 0,
            missing <= sn,
        decreases BOOT_CHECKSUM_SECTORS - sn,
    {
        let sector = match dev.read_sector(sn, &mut log) {
            Some(sector) => sector,
            None => {
                return Err(Error::IoError);
            },
        };
        if 0 < sn && sn <= 8 {
            if read_u32_le(sector.as_slice(), SECTOR_SIZE - 4) != EXBOOT_SIGNATURE {
                missing += 1;
            }
        }
        checksum =
        calc_checksum_32(
            sector.as_slice(),
            checksum,
            if sn == 0 {
                ChecksumType::BootSector
            } else {
                ChecksumType::Default
            },
        );
        sn += 1;
    }
    let sector = match dev.read_sector(BOOT_CHECKSUM_SECTORS, &mut log) {
        Some(sector) => sector,
        None => {
            return Err(Error::IoError);
        },
    };
    if checksum_sector_ok(sector.as_slice(), checksum) {
        Ok(missing)
    } else {
        Err(Error::ChecksumMismatch)
    }
}

} // verus!
