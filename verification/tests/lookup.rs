use exfat::device::MemoryDisk;
use exfat::error::Error;
use exfat::inode::InodeInfo;
use exfat::inode_dir_operations::{find, find_dir, resolve_path, LookupError};
use exfat::inode_file_operations::{bytes_to_sectors, get_block, sectors_to_bytes};
use exfat::superblock::{BootSectorInfo, ExfatErrorMode, ExfatMountOptions, SbInfo};

const EOF: u32 = 0xFFFF_FFFF;

// two sectors per cluster, the FAT in sector 1, the heap from sector 2 on
fn sb_info() -> SbInfo {
    SbInfo {
        boot_sector_info: BootSectorInfo {
            num_sectors: 64,
            num_clusters: 20,
            cluster_size: 1024,
            cluster_size_bits: 10,
            sect_per_clus: 2,
            sect_per_clus_bits: 1,
            fat1_start_sector: 1,
            fat2_start_sector: None,
            data_start_sector: 2,
            num_fat_sectors: 1,
            root_dir: 2,
            dentries_per_clu: 32,
            vol_flags: 0,
            vol_flags_persistent: 0,
            clu_srch_ptr: 2,
            used_clusters: 0xFFFF_FFFF,
        },
        options: ExfatMountOptions {
            fs_uid: 0,
            fs_gid: 0,
            fs_fmask: 0,
            fs_dmask: 0,
            allow_utime: 0,
            iocharset: b"utf8".to_vec(),
            errors: ExfatErrorMode::RemountRo,
            utf8: true,
            discard: false,
            time_offset: 0,
        },
        upcase_table: Vec::new(),
    }
}

fn entry_set(name: &str, first_cluster: u32) -> Vec<[u8; 32]> {
    let units: Vec<u16> = name.encode_utf16().collect();
    let mut file = [0u8; 32];
    file[0] = 0x85;
    file[4] = 0x20;
    let mut stream = [0u8; 32];
    stream[0] = 0xC0;
    stream[3] = units.len() as u8;
    stream[20..24].copy_from_slice(&first_cluster.to_le_bytes());
    let mut out = vec![file, stream];
    for chunk in units.chunks(15) {
        let mut r = [0u8; 32];
        r[0] = 0xC1;
        for (i, u) in chunk.iter().enumerate() {
            r[2 + 2 * i..4 + 2 * i].copy_from_slice(&u.to_le_bytes());
        }
        out.push(r);
    }
    out
}

/// A directory in the clusters 3 and 6 with the files a, b, ..., and two
/// files that are both named `twice`.
fn directory() -> MemoryDisk {
    let mut image = vec![0u8; 40 * 512];
    for (cluster, next) in [(3u32, 6u32), (6, EOF), (10, 12), (12, 13), (13, EOF)] {
        let at = 512 + cluster as usize * 4;
        image[at..at + 4].copy_from_slice(&next.to_le_bytes());
    }
    let mut records = Vec::new();
    for (i, name) in ["a", "twice", "b", "c", "d", "e", "f", "g", "h", "i", "j", "twice", "k"]
        .iter()
        .enumerate()
    {
        records.extend(entry_set(name, 10 + i as u32));
    }
    assert!(records.len() > 32 && records.len() < 64);
    for (i, record) in records.iter().enumerate() {
        let cluster = if i < 32 { 3 } else { 6 };
        let at = (2 + (cluster - 2) * 2) * 512 + (i % 32) * 32;
        image[at..at + 32].copy_from_slice(record);
    }
    MemoryDisk::new(image)
}

fn dir_inode() -> InodeInfo {
    let mut inode = InodeInfo::init();
    inode.data_cluster = 3;
    inode
}

#[test]
fn a_name_is_found_in_a_directory() {
    let info = sb_info();
    let disk = directory();
    let mut inode = dir_inode();
    let found = find_dir(&info, &disk, &mut inode, &"e".to_string()).unwrap();
    assert_eq!(found.name, "e");
    assert_eq!(found.data_cluster, 15);
    assert_eq!(found.index, 15);
    assert_eq!(inode.hint_last_dentry_index, 15);
}

#[test]
fn a_name_that_is_not_there_is_not_found() {
    let info = sb_info();
    let disk = directory();
    let mut inode = dir_inode();
    assert_eq!(
        find_dir(&info, &disk, &mut inode, &"z".to_string()).err(),
        Some(LookupError::NotFound)
    );
    assert_eq!(inode.hint_last_dentry_index, 0);
    inode.hint_last_dentry_index = 15;
    assert_eq!(
        find_dir(&info, &disk, &mut inode, &"E".to_string()).err(),
        Some(LookupError::NotFound)
    );
    assert_eq!(inode.hint_last_dentry_index, 15);
}

#[test]
fn a_lookup_starts_at_the_hint() {
    let info = sb_info();
    let disk = directory();
    let mut inode = dir_inode();
    // from the start the first of the two is found
    let first = find_dir(&info, &disk, &mut inode, &"twice".to_string()).unwrap();
    assert_eq!(first.data_cluster, 11);
    assert_eq!(inode.hint_last_dentry_index, 3);
    // the entry at the hint is found again
    let again = find_dir(&info, &disk, &mut inode, &"twice".to_string()).unwrap();
    assert_eq!(again.data_cluster, 11);
    // from behind the first one the second one is found
    inode.hint_last_dentry_index = 6;
    let second = find_dir(&info, &disk, &mut inode, &"twice".to_string()).unwrap();
    assert_eq!(second.data_cluster, 21);
    assert_eq!(second.index, 33);
    assert_eq!(second.cluster_index, 6);
    assert_eq!(second.chain_start, 3);
    // what lies before the hint is found on the way round
    let before = find_dir(&info, &disk, &mut inode, &"a".to_string()).unwrap();
    assert_eq!(before.index, 0);
    assert_eq!(inode.hint_last_dentry_index, 0);
}

#[test]
fn a_lookup_in_a_directory_outside_the_heap_fails() {
    let info = sb_info();
    let disk = directory();
    let mut inode = InodeInfo::init();
    inode.data_cluster = 1;
    assert_eq!(
        find_dir(&info, &disk, &mut inode, &"a".to_string()).err(),
        Some(LookupError::Failed(Error::Corruption))
    );
}

#[test]
fn names_are_checked_before_they_are_looked_up() {
    assert_eq!(resolve_path(String::new()), Err(LookupError::NotFound));
    assert_eq!(resolve_path(".".to_string()), Err(LookupError::NotFound));
    assert_eq!(resolve_path("....".to_string()), Err(LookupError::NotFound));
    assert_eq!(resolve_path("a.".to_string()), Ok("a.".to_string()));
    assert_eq!(resolve_path(".a".to_string()), Ok(".a".to_string()));
    let long = "x".repeat(255 * 6);
    assert_eq!(resolve_path(long.clone()), Ok(long));
    assert_eq!(resolve_path("x".repeat(255 * 6 + 1)), Err(LookupError::NameTooLong));
    let info = sb_info();
    let disk = directory();
    let mut inode = dir_inode();
    assert_eq!(find(&info, &disk, &mut inode, "..".to_string()).err(), Some(LookupError::NotFound));
    assert_eq!(find(&info, &disk, &mut inode, String::new()).err(), Some(LookupError::NotFound));
    assert_eq!(find(&info, &disk, &mut inode, "k".to_string()).unwrap().data_cluster, 22);
}

#[test]
fn sectors_and_bytes() {
    assert_eq!(bytes_to_sectors(0), 0);
    assert_eq!(bytes_to_sectors(1), 1);
    assert_eq!(bytes_to_sectors(512), 1);
    assert_eq!(bytes_to_sectors(513), 2);
    assert_eq!(bytes_to_sectors(u64::MAX), 1 << 55);
    assert_eq!(sectors_to_bytes(3), 1536);
}

#[test]
fn blocks_of_a_file_are_mapped_to_sectors() {
    let info = sb_info();
    let disk = directory();
    let mut inode = InodeInfo::init();
    inode.data_cluster = 10;
    inode.size = 2048 + 100;
    // cluster 10 starts at sector 18, cluster 12 at sector 22
    assert_eq!(get_block(&inode, &info, &disk, 0), Ok(Some(18)));
    assert_eq!(get_block(&inode, &info, &disk, 1), Ok(Some(19)));
    assert_eq!(get_block(&inode, &info, &disk, 2), Ok(Some(22)));
    assert_eq!(get_block(&inode, &info, &disk, 3), Ok(Some(23)));
    assert_eq!(get_block(&inode, &info, &disk, 4), Ok(Some(24)));
    // behind the last block of the file
    assert_eq!(get_block(&inode, &info, &disk, 5), Ok(None));
    assert_eq!(get_block(&inode, &info, &disk, u64::MAX), Ok(None));
}

#[test]
fn a_file_that_is_longer_than_its_chain_is_an_io_error() {
    let info = sb_info();
    let disk = directory();
    let mut inode = InodeInfo::init();
    inode.data_cluster = 12;
    inode.size = 1 << 40;
    assert_eq!(get_block(&inode, &info, &disk, 3), Ok(Some(25)));
    assert_eq!(get_block(&inode, &info, &disk, 4), Err(Error::IoError));
    assert_eq!(get_block(&inode, &info, &disk, 1 << 30), Err(Error::IoError));
    inode.data_cluster = 1;
    assert_eq!(get_block(&inode, &info, &disk, 0), Err(Error::Corruption));
}

#[test]
fn a_contiguous_file_needs_no_fat() {
    let info = sb_info();
    let disk = directory();
    let mut inode = InodeInfo::init();
    inode.data_cluster = 14;
    inode.data_contiguous = true;
    inode.size = 8 * 512;
    assert_eq!(get_block(&inode, &info, &disk, 0), Ok(Some(26)));
    assert_eq!(get_block(&inode, &info, &disk, 7), Ok(Some(33)));
    inode.data_contiguous = false;
    assert_eq!(get_block(&inode, &info, &disk, 7), Err(Error::IoError));
}
