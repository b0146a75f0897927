use exfat::device::MemoryDisk;
use exfat::directory::file::FileAttributes;
use exfat::directory::DirEntry;
use exfat::error::Error;
use exfat::inode::hash_table::{hash_inode_key, InodeHashTable};
use exfat::inode::{inode_unique_num, read_root_inode, InodeInfo};
use exfat::math::TimeSpec64;
use exfat::superblock::{BootSectorInfo, ExfatErrorMode, ExfatMountOptions, SbInfo};

const EOF: u32 = 0xFFFF_FFFF;

// eight sectors per cluster
fn geometry() -> BootSectorInfo {
    BootSectorInfo {
        num_sectors: 1024,
        num_clusters: 20,
        cluster_size: 4096,
        cluster_size_bits: 12,
        sect_per_clus: 8,
        sect_per_clus_bits: 3,
        fat1_start_sector: 1,
        fat2_start_sector: None,
        data_start_sector: 2,
        num_fat_sectors: 1,
        root_dir: 2,
        dentries_per_clu: 128,
        vol_flags: 0,
        vol_flags_persistent: 0,
        clu_srch_ptr: 2,
        used_clusters: 0xFFFF_FFFF,
    }
}

fn sb_info() -> SbInfo {
    SbInfo {
        boot_sector_info: geometry(),
        options: ExfatMountOptions {
            fs_uid: 1000,
            fs_gid: 100,
            fs_fmask: 0o133,
            fs_dmask: 0o022,
            allow_utime: 0,
            iocharset: b"utf8".to_vec(),
            errors: ExfatErrorMode::RemountRo,
            utf8: true,
            discard: false,
            time_offset: 0,
        },
        upcase_table: Vec::new(),
    }
}

fn entry(name: &str, attrs: u16, chain_start: u32, index: u32, data_length: u64) -> DirEntry {
    DirEntry {
        data_cluster: 9,
        data_length,
        contiguous: false,
        chain_start,
        cluster_index: chain_start,
        index,
        next_index: index + 3,
        name: name.to_string(),
        attrs: FileAttributes::from_u16(attrs),
        create_time: TimeSpec64 { tv_sec: 10, tv_nsec: 1 },
        access_time: TimeSpec64 { tv_sec: 20, tv_nsec: 2 },
        modified_time: TimeSpec64 { tv_sec: 30, tv_nsec: 3 },
    }
}

#[test]
fn the_unique_number_holds_the_entry_and_the_cluster() {
    assert_eq!(inode_unique_num(5, 7), (7u64 << 32) | 5);
    assert_eq!(inode_unique_num(0xFFFF_FFFF, 0), 0xFFFF_FFFF);
    assert_eq!(inode_unique_num(0, 0xFFFF_FFFF), 0xFFFF_FFFF_0000_0000);
    let mut inode = InodeInfo::init();
    inode.dir_cluster = 5;
    inode.entry_index = 7;
    assert_eq!(inode.unique_num(), 0x0000_0007_0000_0005);
}

#[test]
fn the_hash_takes_the_high_bits_of_the_product() {
    assert_eq!(hash_inode_key(0), 0);
    assert_eq!(hash_inode_key(1), 97);
    assert_eq!(hash_inode_key(2), 195);
    assert_eq!(hash_inode_key((7 << 32) | 5), 109);
    assert_eq!(hash_inode_key(u64::MAX), 158);
}

#[test]
fn a_regular_file_is_filled_from_its_entry() {
    let info = sb_info();
    let mut inode = InodeInfo::init();
    inode.nlink = 1;
    inode.version = 1;
    inode.fill(&info, &entry("f", 0x21, 5, 7, 5000), 0x1234_5678, 99);
    assert_eq!(inode.dir_cluster, 5);
    assert_eq!(inode.entry_index, 7);
    assert_eq!(inode.data_cluster, 9);
    assert_eq!((inode.uid, inode.gid), (1000, 100));
    assert_eq!(inode.version, 2);
    assert_eq!(inode.generation, 0x1234_5679);
    assert_eq!(inode.mode, 0o100444);
    assert_eq!(inode.nlink, 1);
    assert_eq!(inode.size, 5000);
    assert_eq!(inode.size_aligned, 5120);
    assert_eq!(inode.size_ondisk, 5120);
    assert_eq!(inode.blocks, 16);
    assert_eq!(inode.mtime, TimeSpec64 { tv_sec: 30, tv_nsec: 3 });
    assert_eq!(inode.ctime, TimeSpec64 { tv_sec: 30, tv_nsec: 3 });
    assert_eq!(inode.atime, TimeSpec64 { tv_sec: 20, tv_nsec: 2 });
}

#[test]
fn a_directory_is_filled_from_its_entry() {
    let info = sb_info();
    let mut inode = InodeInfo::init();
    inode.fill(&info, &entry("d", 0x10, 5, 7, 8192), 0x1234_5679, 4);
    assert_eq!(inode.generation, 0x1234_5678);
    assert_eq!(inode.mode, 0o040755);
    assert_eq!(inode.nlink, 4);
    assert_eq!(inode.size, 8192);
    assert_eq!(inode.size_aligned, 8192);
    assert_eq!(inode.blocks, 16);
}

#[test]
fn an_empty_file_has_no_blocks() {
    let info = sb_info();
    let mut inode = InodeInfo::init();
    inode.fill(&info, &entry("e", 0x20, 5, 7, 0), 0, 0);
    assert_eq!((inode.size, inode.size_aligned, inode.blocks), (0, 0, 0));
    assert_eq!(inode.mode, 0o100644);
}

#[test]
fn the_cache_finds_what_was_inserted() {
    let mut table = InodeHashTable::new();
    assert!(table.get(5, 7).is_none());
    let mut a = InodeInfo::init();
    a.dir_cluster = 5;
    a.entry_index = 7;
    a.ino = 11;
    let mut b = InodeInfo::init();
    b.dir_cluster = 5;
    b.entry_index = 8;
    b.ino = 12;
    table.insert(&a);
    table.insert(&b);
    assert_eq!(table.get(5, 7).unwrap().ino, 11);
    assert_eq!(table.get(5, 8).unwrap().ino, 12);
    assert!(table.get(7, 5).is_none());
    table.evict(&a);
    assert!(table.get(5, 7).is_none());
    assert_eq!(table.get(5, 8).unwrap().ino, 12);
    table.evict(&a);
    assert_eq!(table.get(5, 8).unwrap().ino, 12);
}

#[test]
fn the_cache_keeps_the_first_of_two_records_with_one_key() {
    let mut table = InodeHashTable::default();
    let mut a = InodeInfo::init();
    a.dir_cluster = 5;
    a.ino = 1;
    let mut b = a;
    b.ino = 2;
    table.insert(&a);
    table.insert(&b);
    assert_eq!(table.get(5, 0).unwrap().ino, 1);
    table.evict(&b);
    assert_eq!(table.get(5, 0).unwrap().ino, 2);
}

#[test]
fn records_of_one_bucket_are_told_apart() {
    // find two keys of one bucket
    let first = inode_unique_num(2, 0);
    let mut other = 3;
    while hash_inode_key(inode_unique_num(other, 0)) != hash_inode_key(first) {
        other += 1;
    }
    let mut table = InodeHashTable::new();
    let mut a = InodeInfo::init();
    a.dir_cluster = 2;
    a.ino = 1;
    let mut b = InodeInfo::init();
    b.dir_cluster = other;
    b.ino = 2;
    table.insert(&a);
    table.insert(&b);
    assert_eq!(table.get(other, 0).unwrap().ino, 2);
    assert_eq!(table.get(2, 0).unwrap().ino, 1);
    table.evict(&a);
    assert_eq!(table.get(other, 0).unwrap().ino, 2);
    assert!(table.get(2, 0).is_none());
}

#[test]
fn build_makes_a_record_once() {
    let info = sb_info();
    let mut table = InodeHashTable::new();
    let dir = entry("f", 0x20, 5, 7, 100);
    let made = InodeInfo::build(&mut table, &info, &dir, 42, 6, 0).unwrap();
    assert_eq!(made.ino, 42);
    assert_eq!(made.nlink, 1);
    assert_eq!(made.version, 2);
    assert_eq!(made.generation, 7);
    assert_eq!(made.size, 100);
    assert_eq!(made.blocks, 8);
    assert_eq!(table.get(5, 7).unwrap().ino, 42);
    // the second time the record of the cache is returned
    let again = InodeInfo::build(&mut table, &info, &dir, 43, 8, 0).unwrap();
    assert_eq!(again.ino, 42);
    assert_eq!(again.generation, 7);
    table.evict(&again);
    let third = InodeInfo::build(&mut table, &info, &dir, 44, 8, 0).unwrap();
    assert_eq!(third.ino, 44);
}

#[test]
fn build_rejects_a_file_that_is_too_long() {
    let info = sb_info();
    let mut table = InodeHashTable::new();
    let dir = entry("f", 0x20, 5, 7, 1 << 63);
    assert_eq!(InodeInfo::build(&mut table, &info, &dir, 42, 6, 0).err(), Some(Error::Corruption));
    assert!(table.get(5, 7).is_none());
    let dir = entry("f", 0x20, 5, 7, (1 << 63) - 1);
    let made = InodeInfo::build(&mut table, &info, &dir, 42, 6, 0).unwrap();
    assert_eq!(made.size_aligned, 1 << 63);
}

fn root_image(chain: &[u32], directories: usize) -> MemoryDisk {
    let mut image = vec![0u8; (2 + 18 * 8) * 512];
    for (i, &cluster) in chain.iter().enumerate() {
        let next = if i + 1 < chain.len() { chain[i + 1] } else { EOF };
        let at = 512 + cluster as usize * 4;
        image[at..at + 4].copy_from_slice(&next.to_le_bytes());
    }
    let root = 2 * 512;
    for d in 0..directories {
        let at = root + d * 96;
        image[at] = 0x85;
        image[at + 1] = 2;
        image[at + 4] = 0x10;
        image[at + 32] = 0xC0;
        image[at + 32 + 3] = 1;
        image[at + 64] = 0xC1;
        image[at + 66] = b'a' + d as u8;
    }
    MemoryDisk::new(image)
}

#[test]
fn the_root_directory_gets_its_size_from_its_chain() {
    let info = sb_info();
    let disk = root_image(&[2, 3, 8], 3);
    let mut inode = InodeInfo::init();
    inode.ino = 1;
    inode.version = 1;
    let now = TimeSpec64 { tv_sec: 1_700_000_001, tv_nsec: 5 };
    assert_eq!(read_root_inode(&mut inode, &info, &disk, now), Ok(()));
    assert_eq!(inode.dir_cluster, 0);
    assert_eq!(inode.data_cluster, 2);
    assert_eq!(inode.size, 3 * 4096);
    assert_eq!(inode.blocks, 24);
    assert_eq!(inode.nlink, 5);
    assert_eq!(inode.mode, 0o040755);
    assert_eq!(inode.generation, 0);
    assert_eq!(inode.version, 2);
    assert_eq!((inode.uid, inode.gid), (1000, 100));
    assert_eq!(inode.mtime, now);
    assert_eq!(inode.ctime, now);
    assert_eq!(inode.atime, TimeSpec64 { tv_sec: 1_700_000_000, tv_nsec: 0 });
}

#[test]
fn a_broken_root_chain_leaves_the_record_as_it_was() {
    let info = sb_info();
    let mut image = vec![0u8; (2 + 18 * 8) * 512];
    image[512 + 8..512 + 12].copy_from_slice(&2u32.to_le_bytes());
    let disk = MemoryDisk::new(image);
    let mut inode = InodeInfo::init();
    inode.ino = 1;
    let now = TimeSpec64 { tv_sec: 1, tv_nsec: 0 };
    assert_eq!(read_root_inode(&mut inode, &info, &disk, now), Err(Error::Corruption));
    assert_eq!(inode.data_cluster, 0);
    assert_eq!(inode.size, 0);
    let mut outside = sb_info();
    outside.boot_sector_info.root_dir = 20;
    assert_eq!(read_root_inode(&mut inode, &outside, &disk, now), Err(Error::Corruption));
}
