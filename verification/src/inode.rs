//! What the volume knows of a file that was looked up.

pub mod hash_table;

use vstd::prelude::*;
use crate::directory::file::FileAttributes;
use crate::directory::{DirEntry, DirEntryView};
use crate::error::{Error, Result};
use crate::device::BlockReader;
use crate::directory::count_subdirectories;
use crate::directory::file::ROOT_FILE_ATTRIBUTE;
use crate::fat::ClusterIndex;
use crate::heap::chain_length;
use crate::math::truncate_atime;
use crate::hint::ClusterHint;
use crate::inode::hash_table::InodeHashTable;
use crate::math::{round_up, round_up_to_next_multiple, TimeSpec64};
use crate::superblock::SbInfo;

verus! {

/// The number of the root directory.
pub const EXFAT_ROOT_INO: u64 = 1;

/// The links of an empty directory: its entries `.` and `..`.
pub const EXFAT_MIN_SUBDIR: u32 = 2;

/// The largest size of a file: it fits a signed offset of 64 bits.
pub const MAX_FILE_SIZE: u64 = 0x7FFF_FFFF_FFFF_FFFF;

/// The number that identifies a directory entry: the index of the entry in
/// the high half, the first cluster of its directory in the low half.
pub open spec fn spec_unique_num(cluster: u32, entry: u32) -> u64 {
    (entry as int * 0x1_0000_0000 + cluster as int) as u64
}

/// The number that identifies a directory entry.
pub fn inode_unique_num(cluster: u32, entry: u32) -> (r: u64)
    ensures
        r == spec_unique_num(cluster, entry),
{
    let r: u64 = (entry as u64) << 32 | cluster as u64;
    assert(r == entry as u64 * 0x1_0000_0000 + cluster as u64) by (bit_vector)
        requires
            r == (entry as u64) << 32 | cluster as u64,
    ;
    r
}

/// A file or a directory that was looked up.
#[derive(Clone, Copy, Debug)]
pub struct InodeInfo {
    /// The number of the file with the host.
    pub ino: u64,
    /// The file mode: the type of the file and its permission bits.
    pub mode: u16,
    pub uid: u32,
    pub gid: u32,
    /// A number that tells this file from an earlier one with the same
    /// number: even for a directory, odd for a regular file.
    pub generation: u32,
    /// The number of links to the file.
    pub nlink: u32,
    /// The size of the file in bytes.
    pub size: u64,
    /// The number of sectors that the clusters of the file have.
    pub blocks: u64,
    /// The number of changes that the host has seen.
    pub version: u64,
    pub mtime: TimeSpec64,
    pub ctime: TimeSpec64,
    pub atime: TimeSpec64,
    /// The start of the cluster chain that contains the directory entry.
    pub dir_cluster: ClusterIndex,
    /// The index of the directory entry in that chain.
    pub entry_index: u32,
    /// The last cluster that was accessed in this file or directory.
    pub hint_last_cluster: Option<ClusterHint>,
    /// The index of the last file that was looked up in this directory.
    pub hint_last_dentry_index: u32,
    /// Where the last file that was looked up in this directory lies.
    pub hint_last_dentry: Option<ClusterHint>,
    /// The start of the cluster chain that contains the data.
    pub data_cluster: ClusterIndex,
    /// True when the clusters of the data lie one after the other, and the
    /// FAT does not describe them.
    pub data_contiguous: bool,
    /// The size of the file, rounded up to whole sectors.
    pub size_aligned: u64,
    pub size_ondisk: u64,
}

impl InodeInfo {
    /// The number that identifies the directory entry of this file.
    pub open spec fn spec_unique_num(&self) -> u64 {
        spec_unique_num(self.dir_cluster, self.entry_index)
    }

    /// Get the unique number that identifies this file.
    pub fn unique_num(&self) -> (r: u64)
        ensures
            r == self.spec_unique_num(),
    {
        inode_unique_num(self.dir_cluster, self.entry_index)
    }

    /// The record of no file: everything is zero.
    pub fn init() -> (r: Self)
        ensures
            r == Self::spec_init(),
    {
        let zero = TimeSpec64 { tv_sec: 0, tv_nsec: 0 };
        InodeInfo {
            ino: 0,
            mode: 0,
            uid: 0,
            gid: 0,
            generation: 0,
            nlink: 0,
            size: 0,
            blocks: 0,
            version: 0,
            mtime: zero,
            ctime: zero,
            atime: zero,
            dir_cluster: 0,
            entry_index: 0,
            hint_last_cluster: None,
            hint_last_dentry_index: 0,
            hint_last_dentry: None,
            data_cluster: 0,
            data_contiguous: false,
            size_aligned: 0,
            size_ondisk: 0,
        }
    }

    /// The record of no file: everything is zero.
    pub open spec fn spec_init() -> InodeInfo {
        let zero = TimeSpec64 { tv_sec: 0, tv_nsec: 0 };
        InodeInfo {
            ino: 0,
            mode: 0,
            uid: 0,
            gid: 0,
            generation: 0,
            nlink: 0,
            size: 0,
            blocks: 0,
            version: 0,
            mtime: zero,
            ctime: zero,
            atime: zero,
            dir_cluster: 0,
            entry_index: 0,
            hint_last_cluster: None,
            hint_last_dentry_index: 0,
            hint_last_dentry: None,
            data_cluster: 0,
            data_contiguous: false,
            size_aligned: 0,
            size_ondisk: 0,
        }
    }

    /// The record filled from a directory entry.
    ///
    /// A directory gets the links `num_subdirs` and an even generation, a
    /// regular file keeps its links and gets an odd generation. The sizes
    /// are the length of the data, rounded up to sectors for the aligned
    /// sizes and to clusters for the blocks.
    pub open spec fn filled(
        self,
        sb_info: SbInfo,
        entry: DirEntryView,
        generation: u32,
        num_subdirs: u32,
    ) -> InodeInfo {
        let directory = entry.attrs.spec_directory();
        InodeInfo {
            dir_cluster: entry.chain_start,
            entry_index: entry.index,
            data_cluster: entry.data_cluster,
            data_contiguous: entry.contiguous,
            uid: sb_info.options.fs_uid,
            gid: sb_info.options.fs_gid,
            version: if self.version == u64::MAX {
                0
            } else {
                (self.version + 1) as u64
            },
            generation: if directory {
                generation & !1u32
            } else {
                generation | 1u32
            },
            mode: entry.attrs.unix_mode(0o777, sb_info.options.fs_fmask, sb_info.options.fs_dmask),
            nlink: if directory {
                num_subdirs
            } else {
                self.nlink
            },
            size: entry.data_length,
            size_aligned: round_up(entry.data_length, 512),
            size_ondisk: round_up(entry.data_length, 512),
            blocks: round_up(entry.data_length, sb_info.boot_sector_info.cluster_size as u64) / 512,
            mtime: entry.modified_time,
            ctime: entry.modified_time,
            atime: entry.access_time,
            ..self
        }
    }

    /// Fills the record from a directory entry. `generation` is a number
    /// that the caller has drawn at random, `num_subdirs` the number of
    /// links of a directory.
    pub fn fill(&mut self, sb_info: &SbInfo, entry: &DirEntry, generation: u32, num_subdirs: u32)
        requires
            sb_info.boot_sector_info.wf(),
            entry.data_length <= MAX_FILE_SIZE,
        ensures
            *final(self) == old(self).filled(*sb_info, entry@, generation, num_subdirs),
    {
        self.dir_cluster = entry.chain_start;
        self.entry_index = entry.index;
        self.data_cluster = entry.data_cluster;
        self.data_contiguous = entry.contiguous;

        self.uid = sb_info.options.fs_uid;
        self.gid = sb_info.options.fs_gid;
        self.version = self.version.wrapping_add(1);
        self.generation = generation;

        if entry.attrs.directory() {
            self.generation = self.generation & !1u32;
            self.mode = entry.attrs.to_unix(0o777, sb_info);
            self.nlink = num_subdirs;
        } else {
            self.generation = self.generation | 1u32;
            self.mode = entry.attrs.to_unix(0o777, sb_info);
        }

        let size: u64 = entry.data_length;
        self.size = size;

        // the size on disk and the aligned size are whole sectors
        proof {
            crate::superblock::lemma_cluster_size_power_of_two(sb_info.boot_sector_info);
            assert(crate::math::is_power_of_two(512)) by (bit_vector);
        }
        let aligned: u64 = round_up_to_next_multiple(size, 512);
        self.size_aligned = aligned;
        self.size_ondisk = aligned;

        let clusters_size: u64 = round_up_to_next_multiple(
            size,
            sb_info.boot_sector_info.cluster_size as u64,
        );
        assert(clusters_size >> 9 == clusters_size / 512) by (bit_vector);
        self.blocks = clusters_size >> 9;

        self.mtime = entry.modified_time;
        self.ctime = entry.modified_time;
        self.atime = entry.access_time;
    }

    /// The record of a new file with the number `ino`, filled from a
    /// directory entry. A new file has one link.
    pub open spec fn built(
        sb_info: SbInfo,
        entry: DirEntryView,
        ino: u64,
        generation: u32,
        num_subdirs: u32,
    ) -> InodeInfo {
        (InodeInfo { ino, version: 1, nlink: 1, ..Self::spec_init() }).filled(
            sb_info,
            entry,
            generation,
            num_subdirs,
        )
    }

    /// Get the record of a file from the cache, or create a new one if
    /// the cache holds none.
    ///
    /// A new record gets the number `ino` and is added to the cache. An entry
    /// whose data is longer than a file can be is `Corruption`.
    pub fn build(
        inode_hashtable: &mut InodeHashTable,
        sb_info: &SbInfo,
        dir: &DirEntry,
        ino: u64,
        generation: u32,
        num_subdirs: u32,
    ) -> (r: Result<InodeInfo>)
        requires
            old(inode_hashtable).inv(),
            sb_info.boot_sector_info.wf(),
        ensures
            final(inode_hashtable).inv(),
            match old(inode_hashtable).lookup(spec_unique_num(dir.chain_start, dir.index)) {
                Some(found) => r == Ok::<InodeInfo, Error>(found) && *final(inode_hashtable)
                    == *old(inode_hashtable),
                None => if dir.data_length > MAX_FILE_SIZE {
                    r == Err::<InodeInfo, Error>(Error::Corruption) && *final(inode_hashtable)
                        == *old(inode_hashtable)
                } else {
                    let made = Self::built(*sb_info, dir@, ino, generation, num_subdirs);
                    let key = spec_unique_num(dir.chain_start, dir.index);
                    &&& r == Ok::<InodeInfo, Error>(made)
                    &&& final(inode_hashtable).lookup(key) == Some(made)
                    &&& forall|b: int|
                        0 <= b < crate::inode::hash_table::HASH_TABLE_SIZE ==> final(inode_hashtable).bucket(
                            b,
                        ) == (if b == crate::inode::hash_table::spec_hash_inode_key(key) {
                            old(inode_hashtable).bucket(b).push(made)
                        } else {
                            old(inode_hashtable).bucket(b)
                        })
                },
            },
    {
        if let Some(inode) = inode_hashtable.get(dir.chain_start, dir.index) {
            return Ok(inode);
        }
        if dir.data_length > MAX_FILE_SIZE {
            return Err(Error::Corruption);
        }
        let mut inode = InodeInfo::init();
        inode.ino = ino;
        inode.version = 1;
        inode.nlink = 1;
        inode.fill(sb_info, dir, generation, num_subdirs);
        proof {
            crate::inode::hash_table::lemma_find_after_push(
                inode_hashtable.bucket(
                    crate::inode::hash_table::spec_hash_inode_key(inode.spec_unique_num()),
                ),
                inode,
            );
        }
        inode_hashtable.insert(&inode);
        Ok(inode)
    }
}

/// The record of the root directory of a volume whose root directory has
/// `clusters` clusters and `num_subdirs` directories in it, read at the
/// time `now`.
pub open spec fn root_inode(
    inode: InodeInfo,
    sb_info: SbInfo,
    clusters: u32,
    num_subdirs: u32,
    now: TimeSpec64,
) -> InodeInfo {
    let size = (clusters as int * sb_info.boot_sector_info.cluster_size as int) as u64;
    InodeInfo {
        dir_cluster: 0,
        data_cluster: sb_info.boot_sector_info.root_dir,
        data_contiguous: false,
        size,
        nlink: if num_subdirs + EXFAT_MIN_SUBDIR <= u32::MAX {
            (num_subdirs + EXFAT_MIN_SUBDIR) as u32
        } else {
            u32::MAX
        },
        uid: sb_info.options.fs_uid,
        gid: sb_info.options.fs_gid,
        version: if inode.version == u64::MAX {
            0
        } else {
            (inode.version + 1) as u64
        },
        generation: 0,
        mode: (FileAttributes { bits: ROOT_FILE_ATTRIBUTE }).unix_mode(
            0o777,
            sb_info.options.fs_fmask,
            sb_info.options.fs_dmask,
        ),
        blocks: round_up(size, sb_info.boot_sector_info.cluster_size as u64) / 512,
        mtime: now,
        ctime: now,
        atime: TimeSpec64 { tv_sec: (now.tv_sec - now.tv_sec % 2) as i64, tv_nsec: 0 },
        ..inode
    }
}

/// What walking the root directory of a volume gives: the number of the
/// clusters of its chain and the number of the directories in it, or the
/// error of the walk along the chain or of the scan of the entries.
pub open spec fn root_walk_result(
    disk: crate::device::Disk,
    boot: crate::superblock::BootSectorInfo,
    time_offset: int,
) -> Result<(u32, u32)> {
    let root = crate::heap::Chain { disk, boot, contiguous: false, start: boot.root_dir };
    if !(crate::superblock::NUM_RESERVED_CLUSTERS <= boot.root_dir < boot.num_clusters) {
        Err(Error::Corruption)
    } else {
        match crate::heap::chain_length_result(root) {
            Err(e) => Err(e),
            Ok(clusters) => match crate::directory::count_directories(
                crate::directory::RawDirPos::start(root),
                time_offset,
            ) {
                Err(e) => Err(e),
                Ok(num_subdirs) => Ok((clusters, num_subdirs)),
            },
        }
    }
}

/// What filling the record of the root directory gives: the record, or the
/// error of the walk of the root directory.
pub open spec fn root_inode_result(
    disk: crate::device::Disk,
    sb_info: SbInfo,
    inode: InodeInfo,
    now: TimeSpec64,
) -> Result<InodeInfo> {
    match root_walk_result(disk, sb_info.boot_sector_info, sb_info.options.time_offset as int) {
        Err(e) => Err(e),
        Ok((clusters, num_subdirs)) => Ok(root_inode(inode, sb_info, clusters, num_subdirs, now)),
    }
}

/// Fills the record of the root directory: its size is that of the clusters
/// of its chain, its links are the directories in it and two more.
///
/// On an error the record is left as it was.
pub fn read_root_inode<D: BlockReader>(
    inode: &mut InodeInfo,
    sb_info: &SbInfo,
    dev: &D,
    now: TimeSpec64,
) -> (r: Result<()>)
    requires
        sb_info.boot_sector_info.wf(),
    ensures
        match root_inode_result(dev@, *sb_info, *old(inode), now) {
            Ok(filled) => r == Ok::<(), Error>(()) && *final(inode) == filled,
            Err(e) => r == Err::<(), Error>(e) && *final(inode) == *old(inode),
        },
{
    let boot = &sb_info.boot_sector_info;
    let root_dir = boot.root_dir;
    if root_dir < crate::superblock::NUM_RESERVED_CLUSTERS || root_dir >= boot.num_clusters {
        return Err(Error::Corruption);
    }
    let num_clusters: u32 = match chain_length(boot, dev, root_dir) {
        Err(e) => {
            return Err(e);
        },
        Ok(n) => n,
    };
    let num_subdirs: u32 = match count_subdirectories(sb_info, dev, root_dir) {
        Err(e) => {
            return Err(e);
        },
        Ok(n) => n,
    };
    assert(num_clusters * boot.cluster_size <= 0x1_0000_0000 * 0x200_0000) by (nonlinear_arith)
        requires
            0 <= num_clusters <= 0x1_0000_0000,
            0 <= boot.cluster_size <= 0x200_0000,
    ;
    let clusters_size: u64 = num_clusters as u64 * boot.cluster_size as u64;
    proof {
        crate::superblock::lemma_cluster_size_power_of_two(sb_info.boot_sector_info);
    }
    let rounded: u64 = round_up_to_next_multiple(clusters_size, boot.cluster_size as u64);
    assert(rounded >> 9 == rounded / 512) by (bit_vector);

    inode.dir_cluster = 0;
    inode.data_cluster = root_dir;
    inode.data_contiguous = false;
    inode.size = clusters_size;
    inode.nlink = if num_subdirs <= u32::MAX - EXFAT_MIN_SUBDIR {
        num_subdirs + EXFAT_MIN_SUBDIR
    } else {
        u32::MAX
    };
    inode.uid = sb_info.options.fs_uid;
    inode.gid = sb_info.options.fs_gid;
    inode.version = inode.version.wrapping_add(1);
    inode.generation = 0;
    inode.mode = FileAttributes::from_u16(ROOT_FILE_ATTRIBUTE).to_unix(0o777, sb_info);
    inode.blocks = rounded >> 9;
    inode.mtime = now;
    inode.atime = now;
    inode.ctime = now;
    truncate_atime(&mut inode.atime);
    Ok(())
}

} // verus!
