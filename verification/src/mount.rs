//! Mounting a volume: what is read of it once.

use vstd::prelude::*;
use crate::allocation_bitmap::{bitmap_result, load_allocation_bitmap, AllocationBitmap};
use crate::boot_sector::{
    boot_region_result, boot_sector_result, read_boot_sector, verify_boot_region,
};
use crate::device::{BlockReader, Disk};
use crate::error::{Error, Result};
use crate::fs_parameter::{complete_options, completed};
use crate::inode::hash_table::{spec_hash_inode_key, InodeHashTable, HASH_TABLE_SIZE};
use crate::inode::{read_root_inode, root_inode, root_walk_result, InodeInfo, EXFAT_ROOT_INO};
use crate::math::TimeSpec64;
use crate::superblock::{ExfatMountOptions, SbInfo};
use crate::upcase::{create_result, create_upcase_table, upcase_record_result, UTBL_COUNT};

verus! {

/// What is known of a mounted volume.
pub struct SuperBlockInfo {
    pub info: SbInfo,
    /// The allocation bitmap.
    pub allocation_bitmap: AllocationBitmap,
    /// The files that were looked up.
    pub inode_hashtable: InodeHashTable,
    /// The root directory.
    pub root: InodeInfo,
    /// The number of extended boot sectors without their signature, for the
    /// host to report.
    pub missing_exboot_signatures: u32,
}

/// The record of the root directory before it is filled.
pub open spec fn fresh_root() -> InodeInfo {
    InodeInfo { ino: EXFAT_ROOT_INO, version: 1, ..InodeInfo::spec_init() }
}

/// True when `r` is what mounting the volume on a disk gives.
///
/// The boot sector is decoded, the boot region is verified, the up-case
/// table and the allocation bitmap are loaded and the root directory is
/// walked, in this order: the first error is the result. The cache of a
/// mounted volume holds the root directory and nothing else.
pub open spec fn is_mounted(
    r: Result<SuperBlockInfo>,
    disk: Disk,
    options: ExfatMountOptions,
    device_discards: bool,
    now: TimeSpec64,
) -> bool {
    let options = completed(options, device_discards);
    match boot_sector_result(disk) {
        Err(e) => r matches Err(err) && err == e,
        Ok(boot) => match boot_region_result(disk) {
            Err(e) => r matches Err(err) && err == e,
            Ok(missing) => match create_result(disk, boot) {
                Err(e) => r matches Err(err) && err == e,
                Ok(table) => match bitmap_result(disk, boot) {
                    Err(e) => r matches Err(err) && err == e,
                    Ok(bytes) => match root_walk_result(disk, boot, options.time_offset as int) {
                        Err(e) => r matches Err(err) && err == e,
                        Ok((clusters, num_subdirs)) => r matches Ok(sbi) && {
                            &&& sbi.info.boot_sector_info == boot
                            &&& sbi.info.boot_sector_info.wf()
                            &&& sbi.info.options == options
                            &&& sbi.info.upcase_table@ == table
                            &&& sbi.info.upcase_table@.len() == UTBL_COUNT
                            &&& sbi.allocation_bitmap.bytes() == bytes
                            &&& sbi.allocation_bitmap.clusters() == boot.spec_cluster_count()
                            &&& sbi.allocation_bitmap.wf()
                            &&& sbi.root == root_inode(
                                fresh_root(),
                                sbi.info,
                                clusters,
                                num_subdirs,
                                now,
                            )
                            &&& sbi.inode_hashtable.inv()
                            &&& forall|b: int|
                                0 <= b < HASH_TABLE_SIZE ==> sbi.inode_hashtable.bucket(b) == (if b
                                    == spec_hash_inode_key(sbi.root.spec_unique_num()) {
                                    seq![sbi.root]
                                } else {
                                    Seq::<InodeInfo>::empty()
                                })
                            &&& sbi.missing_exboot_signatures == missing
                        },
                    },
                },
            },
        },
    }
}

/// Mounts the volume on a device with the given options, at the time `now`.
///
/// A boot sector or a boot region that is not accepted, and a root
/// directory that cannot be read in the search for the up-case table, are
/// reported as they are: no memory is asked for before. Behind that,
/// without the memory for the up-case table or the allocation bitmap this
/// is `ResourceExhaustion`, whatever the disk holds.
pub fn fill_super<D: BlockReader>(
    dev: &D,
    options: ExfatMountOptions,
    device_discards: bool,
    now: TimeSpec64,
) -> (r: Result<SuperBlockInfo>)
    ensures
        boot_sector_result(dev@) is Err ==> is_mounted(r, dev@, options, device_discards, now),
        boot_region_result(dev@) is Err ==> is_mounted(r, dev@, options, device_discards, now),
        boot_sector_result(dev@) matches Ok(boot) && upcase_record_result(dev@, boot) is Err
            ==> is_mounted(r, dev@, options, device_discards, now),
        r matches Err(Error::ResourceExhaustion) || is_mounted(
            r,
            dev@,
            options,
            device_discards,
            now,
        ),
{
    let mut options = options;
    complete_options(&mut options, device_discards);

    let boot_sector_info = match read_boot_sector(dev) {
        Err(e) => {
            return Err(e);
        },
        Ok(boot) => boot,
    };
    let missing_exboot_signatures = match verify_boot_region(dev) {
        Err(e) => {
            return Err(e);
        },
        Ok(missing) => missing,
    };
    let upcase_table = match create_upcase_table(&boot_sector_info, dev) {
        Err(e) => {
            return Err(e);
        },
        Ok(table) => table,
    };
    let allocation_bitmap = match load_allocation_bitmap(&boot_sector_info, dev) {
        Err(e) => {
            return Err(e);
        },
        Ok(bitmap) => bitmap,
    };
    let info = SbInfo { boot_sector_info, options, upcase_table };

    let mut root = InodeInfo::init();
    root.ino = EXFAT_ROOT_INO;
    root.version = 1;
    match read_root_inode(&mut root, &info, dev, now) {
        Err(e) => {
            return Err(e);
        },
        Ok(()) => {},
    }
    let mut inode_hashtable = InodeHashTable::new();
    inode_hashtable.insert(&root);
    Ok(SuperBlockInfo { info, allocation_bitmap, inode_hashtable, root, missing_exboot_signatures })
}

} // verus!
