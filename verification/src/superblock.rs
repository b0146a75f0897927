//! The geometry of a mounted volume and the options it was mounted with.

use vstd::prelude::*;
use crate::error::{Error, Result};

verus! {

/// Clusters 0 and 1 do not exist: the first cluster of the heap is cluster 2.
pub const NUM_RESERVED_CLUSTERS: u32 = 2;

/// The geometry of a volume, derived once from its boot sector.
#[derive(Clone, Copy, Debug)]
pub struct BootSectorInfo {
    /// The number of sectors of the volume.
    pub num_sectors: u64,
    /// The number of clusters of the volume, the two reserved ones included.
    pub num_clusters: u32,
    /// The size of a cluster in bytes.
    pub cluster_size: u32,
    pub cluster_size_bits: u32,
    /// The size of a cluster in sectors.
    pub sect_per_clus: u32,
    pub sect_per_clus_bits: u32,
    /// The first sector of the first FAT.
    pub fat1_start_sector: u64,
    /// The first sector of the second FAT, where the volume has one.
    pub fat2_start_sector: Option<u64>,
    /// The first sector of the cluster heap.
    pub data_start_sector: u64,
    /// The length of one FAT in sectors.
    pub num_fat_sectors: u32,
    /// The first cluster of the root directory.
    pub root_dir: u32,
    /// The number of directory records that fit in a cluster.
    pub dentries_per_clu: u32,
    /// The volume flags.
    pub vol_flags: u32,
    /// The volume flags that are kept over a mount.
    pub vol_flags_persistent: u32,
    /// Where a search for a free cluster starts.
    pub clu_srch_ptr: u32,
    /// The number of clusters in use, or all ones while nobody has counted.
    pub used_clusters: u32,
}

impl BootSectorInfo {
    /// The invariant of a geometry: the sizes fit together, the FATs lie
    /// before the cluster heap and have an entry for every data cluster.
    pub open spec fn wf(&self) -> bool {
        &&& self.sect_per_clus_bits <= 16
        &&& self.cluster_size_bits == self.sect_per_clus_bits + 9
        &&& self.sect_per_clus == 1u32 << self.sect_per_clus_bits
        &&& 1 <= self.sect_per_clus <= 0x1_0000
        &&& self.cluster_size == self.sect_per_clus * 512
        &&& self.dentries_per_clu == self.sect_per_clus * 16
        &&& self.num_clusters >= NUM_RESERVED_CLUSTERS
        &&& self.fat1_start_sector <= u32::MAX
        &&& self.data_start_sector <= u32::MAX
        &&& (self.fat2_start_sector matches Some(s) ==> s == self.fat1_start_sector
            + self.num_fat_sectors)
        &&& self.data_start_sector >= self.fat1_start_sector + self.num_fat_sectors
            * self.spec_num_fats()
        &&& self.num_fat_sectors * 512 >= self.spec_cluster_count() * 4
    }

    /// The number of FATs of the volume.
    pub open spec fn spec_num_fats(&self) -> int {
        if self.fat2_start_sector is Some {
            2
        } else {
            1
        }
    }

    /// The number of data clusters: all clusters but the two reserved ones.
    pub open spec fn spec_cluster_count(&self) -> int {
        self.num_clusters - NUM_RESERVED_CLUSTERS
    }

    /// The number of data clusters: all clusters but the two reserved ones.
    pub fn cluster_count(&self) -> (r: u32)
        requires
            self.num_clusters >= NUM_RESERVED_CLUSTERS,
        ensures
            r == self.spec_cluster_count(),
    {
        self.num_clusters - NUM_RESERVED_CLUSTERS
    }
}

/// The size of a cluster is a power of two.
pub proof fn lemma_cluster_size_power_of_two(boot: BootSectorInfo)
    requires
        boot.wf(),
    ensures
        crate::math::is_power_of_two(boot.cluster_size as u64),
{
    let bits = boot.sect_per_clus_bits;
    let size = boot.cluster_size as u64;
    assert(size != 0 && size & ((size - 1) as u64) == 0) by (bit_vector)
        requires
            bits <= 16,
            size == ((1u32 << bits) as u64) * 512,
    ;
}

/// What the volume does when it finds itself corrupted.
#[derive(Clone, Copy, Debug, PartialEq, Eq, Structural)]
pub enum ExfatErrorMode {
    Continue,
    Panic,
    RemountRo,
}

impl ExfatErrorMode {
    /// The error mode with the given number.
    pub fn from_c_int(val: u32) -> (r: Result<Self>)
        ensures
            val == 0 ==> r == Ok::<Self, Error>(ExfatErrorMode::Continue),
            val == 1 ==> r == Ok::<Self, Error>(ExfatErrorMode::Panic),
            val == 2 ==> r == Ok::<Self, Error>(ExfatErrorMode::RemountRo),
            val > 2 ==> r == Err::<Self, Error>(Error::InvalidFormat),
    {
        match val {
            0 => Ok(ExfatErrorMode::Continue),
            1 => Ok(ExfatErrorMode::Panic),
            2 => Ok(ExfatErrorMode::RemountRo),
            _ => Err(Error::InvalidFormat),
        }
    }

    /// The name of the mode as a mount option spells it.
    pub fn get_name(self) -> (r: &'static str)
        ensures
            r@ == match self {
                ExfatErrorMode::Continue => "continue"@,
                ExfatErrorMode::Panic => "panic"@,
                ExfatErrorMode::RemountRo => "remount-ro"@,
            },
    {
        match self {
            ExfatErrorMode::Continue => "continue",
            ExfatErrorMode::Panic => "panic",
            ExfatErrorMode::RemountRo => "remount-ro",
        }
    }
}

impl Default for ExfatErrorMode {
    fn default() -> (r: Self)
        ensures
            r == ExfatErrorMode::Continue,
    {
        ExfatErrorMode::Continue
    }
}

/// The options a volume is mounted with.
#[derive(Clone, Debug)]
pub struct ExfatMountOptions {
    /// The owner of every file.
    pub fs_uid: u32,
    /// The group of every file.
    pub fs_gid: u32,
    /// The permission bits that no regular file gets.
    pub fs_fmask: u16,
    /// The permission bits that no directory gets.
    pub fs_dmask: u16,
    /// Who may set the times of a file.
    pub allow_utime: u16,
    /// The name of the character set that names are exchanged in.
    pub iocharset: Vec<u8>,
    pub errors: ExfatErrorMode,
    /// True when names are exchanged with the host in UTF-8.
    pub utf8: bool,
    pub discard: bool,
    /// The offset of local time from UTC in minutes, for timestamps that
    /// carry no time zone.
    pub time_offset: i32,
}

/// What a mounted volume knows of itself.
pub struct SbInfo {
    pub boot_sector_info: BootSectorInfo,
    pub options: ExfatMountOptions,
    /// The up-case table: for each UTF-16 code unit its upper-case form.
    pub upcase_table: Vec<u16>,
}

} // verus!
