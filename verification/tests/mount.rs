use exfat::charsets::UTF16String;
use exfat::checksum::{calc_checksum_32, ChecksumType};
use exfat::device::MemoryDisk;
use exfat::directory::DirEntryReader;
use exfat::error::Error;
use exfat::fs_parameter::read_mount_options;
use exfat::inode::hash_table::InodeHashTable;
use exfat::inode_dir_operations::{lookup, LookupError};
use exfat::math::TimeSpec64;
use exfat::mount::fill_super;

const EOF: u32 = 0xFFFF_FFFF;
const FAT: usize = 24;
const HEAP: usize = 32;

fn cluster_at(cluster: u32) -> usize {
    (HEAP + (cluster as usize - 2) * 2) * 512
}

fn entry_set(name: &str, attrs: u16, first_cluster: u32, data_length: u64) -> Vec<[u8; 32]> {
    let units: Vec<u16> = name.encode_utf16().collect();
    let mut file = [0u8; 32];
    file[0] = 0x85;
    file[4..6].copy_from_slice(&attrs.to_le_bytes());
    let mut stream = [0u8; 32];
    stream[0] = 0xC0;
    stream[3] = units.len() as u8;
    stream[20..24].copy_from_slice(&first_cluster.to_le_bytes());
    stream[24..32].copy_from_slice(&data_length.to_le_bytes());
    let mut out = vec![file, stream];
    for chunk in units.chunks(15) {
        let mut r = [0u8; 32];
        r[0] = 0xC1;
        for (i, u) in chunk.iter().enumerate() {
            r[2 + 2 * i..4 + 2 * i].copy_from_slice(&u.to_le_bytes());
        }
        out.push(r);
    }
    out
}

/// A volume of 40 clusters of two sectors: the bitmap in cluster 2, the
/// up-case table in cluster 3, the root directory in the clusters 4 and 9,
/// and the directory `sub` in cluster 6.
fn volume() -> Vec<u8> {
    let mut image = vec![0u8; (HEAP + 38 * 2) * 512];
    // the boot sector
    image[0] = 0xEB;
    image[1] = 0x76;
    image[2] = 0x90;
    image[3..11].copy_from_slice(b"EXFAT   ");
    image[72..80].copy_from_slice(&((HEAP + 38 * 2) as u64).to_le_bytes());
    image[80..84].copy_from_slice(&(FAT as u32).to_le_bytes());
    image[84..88].copy_from_slice(&8u32.to_le_bytes());
    image[88..92].copy_from_slice(&(HEAP as u32).to_le_bytes());
    image[92..96].copy_from_slice(&40u32.to_le_bytes());
    image[96..100].copy_from_slice(&4u32.to_le_bytes());
    image[108] = 9;
    image[109] = 1;
    image[110] = 1;
    image[510] = 0x55;
    image[511] = 0xAA;
    // the extended boot sectors, all but one with their signature
    for n in 1..9 {
        if n != 3 {
            image[n * 512 + 508..n * 512 + 512].copy_from_slice(&0xAA55_0000u32.to_le_bytes());
        }
    }
    // the FAT
    for (cluster, next) in [(2u32, EOF), (3, EOF), (4, 9), (9, EOF), (6, EOF), (10, 11), (11, EOF)] {
        let at = FAT * 512 + cluster as usize * 4;
        image[at..at + 4].copy_from_slice(&next.to_le_bytes());
    }
    // the allocation bitmap: 38 clusters in five bytes
    let bitmap = [0xFFu8, 0x03, 0, 0, 0xFF];
    image[cluster_at(2)..cluster_at(2) + 5].copy_from_slice(&bitmap);
    // the up-case table: a to z, and everything else as it is
    let mut units: Vec<u16> = vec![0xFFFF, 0x61];
    units.extend(0x41..=0x5Au16);
    units.extend_from_slice(&[0xFFFF, 0xFF85]);
    let table: Vec<u8> = units.iter().flat_map(|u| u.to_le_bytes()).collect();
    image[cluster_at(3)..cluster_at(3) + table.len()].copy_from_slice(&table);
    let table_checksum = calc_checksum_32(&table, 0, ChecksumType::Default);
    // the root directory
    let mut records: Vec<[u8; 32]> = Vec::new();
    let mut label = [0u8; 32];
    label[0] = 0x83;
    records.push(label);
    let mut bitmap_record = [0u8; 32];
    bitmap_record[0] = 0x81;
    bitmap_record[20..24].copy_from_slice(&2u32.to_le_bytes());
    bitmap_record[24..32].copy_from_slice(&5u64.to_le_bytes());
    records.push(bitmap_record);
    let mut upcase_record = [0u8; 32];
    upcase_record[0] = 0x82;
    upcase_record[4..8].copy_from_slice(&table_checksum.to_le_bytes());
    upcase_record[20..24].copy_from_slice(&3u32.to_le_bytes());
    upcase_record[24..32].copy_from_slice(&(table.len() as u64).to_le_bytes());
    records.push(upcase_record);
    for i in 0..9 {
        records.extend(entry_set(&format!("file number {i}"), 0x20, 10, 1500));
    }
    records.extend(entry_set("sub", 0x10, 6, 1024));
    records.extend(entry_set("more", 0x10, 6, 1024));
    assert!(records.len() > 32 && records.len() <= 64);
    for (i, record) in records.iter().enumerate() {
        let at = cluster_at(if i < 32 { 4 } else { 9 }) + (i % 32) * 32;
        image[at..at + 32].copy_from_slice(record);
    }
    // the directory sub
    for (i, record) in entry_set("inner", 0x10, 7, 0).iter().enumerate() {
        let at = cluster_at(6) + i * 32;
        image[at..at + 32].copy_from_slice(record);
    }
    // the boot checksum
    let mut sum = calc_checksum_32(&image[..512], 0, ChecksumType::BootSector);
    sum = calc_checksum_32(&image[512..11 * 512], sum, ChecksumType::Default);
    for w in 0..128 {
        image[11 * 512 + 4 * w..11 * 512 + 4 * w + 4].copy_from_slice(&sum.to_le_bytes());
    }
    image
}

fn now() -> TimeSpec64 {
    TimeSpec64 { tv_sec: 1_700_000_003, tv_nsec: 9 }
}

#[test]
fn a_volume_is_mounted() {
    let disk = MemoryDisk::new(volume());
    let mut options = read_mount_options();
    options.fs_dmask = 0o022;
    options.discard = true;
    let sbi = fill_super(&disk, options, false, now()).unwrap();
    assert_eq!(sbi.missing_exboot_signatures, 1);
    let boot = &sbi.info.boot_sector_info;
    assert_eq!((boot.cluster_size, boot.num_clusters, boot.root_dir), (1024, 40, 4));
    assert_eq!(boot.cluster_count(), 38);
    assert_eq!(sbi.info.options.allow_utime, 0);
    assert!(!sbi.info.options.discard);
    assert_eq!(sbi.info.upcase_table.len(), 0x10000);
    assert_eq!(sbi.info.upcase_table[0x61], 0x41);
    assert_eq!(sbi.info.upcase_table[0x7A], 0x5A);
    assert_eq!(sbi.info.upcase_table[0x7B], 0x7B);
    assert_eq!(sbi.allocation_bitmap.as_bytes(), &[0xFF, 0x03, 0, 0, 0x3F]);
    assert_eq!(sbi.allocation_bitmap.allocated_cluster_count(), 16);
    assert_eq!(sbi.root.ino, 1);
    assert_eq!(sbi.root.size, 2048);
    assert_eq!(sbi.root.blocks, 4);
    assert_eq!(sbi.root.nlink, 4);
    assert_eq!(sbi.root.mode, 0o040755);
    assert_eq!(sbi.root.data_cluster, 4);
    assert_eq!(sbi.root.atime, TimeSpec64 { tv_sec: 1_700_000_002, tv_nsec: 0 });
    assert_eq!(sbi.inode_hashtable.get(0, 0).unwrap().ino, 1);
}

#[test]
fn a_volume_with_a_wrong_boot_checksum_is_not_mounted() {
    let mut image = volume();
    image[600] ^= 1;
    let disk = MemoryDisk::new(image);
    assert_eq!(
        fill_super(&disk, read_mount_options(), false, now()).err(),
        Some(Error::ChecksumMismatch)
    );
}

#[test]
fn a_volume_without_a_boot_sector_is_not_mounted() {
    let mut image = volume();
    image[3] = b'X';
    let disk = MemoryDisk::new(image);
    assert_eq!(
        fill_super(&disk, read_mount_options(), false, now()).err(),
        Some(Error::InvalidFormat)
    );
    let disk = MemoryDisk::new(Vec::new());
    assert_eq!(fill_super(&disk, read_mount_options(), false, now()).err(), Some(Error::IoError));
}

#[test]
fn a_volume_without_a_bitmap_is_not_mounted() {
    let mut image = volume();
    image[cluster_at(4) + 32] = 0x01;
    // the boot region does not cover the root directory
    let disk = MemoryDisk::new(image);
    assert_eq!(
        fill_super(&disk, read_mount_options(), false, now()).err(),
        Some(Error::InvalidFormat)
    );
}

#[test]
fn a_volume_with_a_broken_root_chain_is_not_mounted() {
    let mut image = volume();
    let at = FAT * 512 + 9 * 4;
    image[at..at + 4].copy_from_slice(&5u32.to_le_bytes());
    let disk = MemoryDisk::new(image);
    assert_eq!(
        fill_super(&disk, read_mount_options(), false, now()).err(),
        Some(Error::Corruption)
    );
}

#[test]
fn names_are_looked_up_through_the_cache() {
    let disk = MemoryDisk::new(volume());
    let mut sbi = fill_super(&disk, read_mount_options(), false, now()).unwrap();
    let mut root = sbi.root;
    let file = lookup(
        &sbi.info,
        &disk,
        &mut sbi.inode_hashtable,
        &mut root,
        "file number 7".to_string(),
        20,
        4,
    )
    .unwrap();
    assert_eq!((file.ino, file.size, file.generation, file.nlink), (20, 1500, 5, 1));
    assert_eq!(file.blocks, 4);
    assert_eq!(file.dir_cluster, 4);
    assert_eq!(root.hint_last_dentry_index, file.entry_index);
    let sub =
        lookup(&sbi.info, &disk, &mut sbi.inode_hashtable, &mut root, "sub".to_string(), 21, 5)
            .unwrap();
    assert_eq!((sub.ino, sub.generation, sub.nlink, sub.mode), (21, 4, 1, 0o040777));
    assert_eq!(sub.data_cluster, 6);
    // the second lookup gives the record of the cache
    let again =
        lookup(&sbi.info, &disk, &mut sbi.inode_hashtable, &mut root, "sub".to_string(), 22, 7)
            .unwrap();
    assert_eq!((again.ino, again.generation), (21, 4));
    let missing =
        lookup(&sbi.info, &disk, &mut sbi.inode_hashtable, &mut root, "none".to_string(), 23, 7);
    assert_eq!(missing.err(), Some(LookupError::NotFound));
    let dots =
        lookup(&sbi.info, &disk, &mut sbi.inode_hashtable, &mut root, "...".to_string(), 23, 7);
    assert_eq!(dots.err(), Some(LookupError::NotFound));
    assert!(sbi.inode_hashtable.get(4, file.entry_index).is_some());
}

#[test]
fn a_directory_whose_entries_cannot_be_counted_is_not_built() {
    let disk = MemoryDisk::new(volume());
    let sbi = fill_super(&disk, read_mount_options(), false, now()).unwrap();
    let mut table = InodeHashTable::new();
    let mut sub = sbi.root;
    sub.data_cluster = 6;
    sub.hint_last_dentry_index = 0;
    // the directory `inner` lies in cluster 7, which holds a file record and
    // nothing behind it
    let mut image = volume();
    image[cluster_at(7)] = 0x85;
    let disk = MemoryDisk::new(image);
    let r = lookup(&sbi.info, &disk, &mut table, &mut sub, "inner".to_string(), 30, 1);
    assert_eq!(r.err(), Some(LookupError::Failed(Error::Corruption)));
    assert!(table.get(6, 0).is_none());
}

#[test]
fn entries_are_passed_over() {
    let disk = MemoryDisk::new(volume());
    let sbi = fill_super(&disk, read_mount_options(), false, now()).unwrap();
    let mut reader = DirEntryReader::new(&sbi.info, &disk, 4).unwrap();
    assert_eq!(reader.nth(0).unwrap().unwrap().name, "file number 0");
    assert_eq!(reader.nth(2).unwrap().unwrap().name, "file number 3");
    assert_eq!(reader.nth(5).unwrap().unwrap().name, "sub");
    assert_eq!(reader.nth(0).unwrap().unwrap().name, "more");
    assert!(reader.nth(0).is_none());
    let mut reader = DirEntryReader::new(&sbi.info, &disk, 4).unwrap();
    assert!(reader.nth(11).is_none());
}

#[test]
fn names_in_utf16_are_folded() {
    let disk = MemoryDisk::new(volume());
    let sbi = fill_super(&disk, read_mount_options(), false, now()).unwrap();
    let name = UTF16String::from_utf16(&sbi.info, "Read me.txt".encode_utf16().collect()).unwrap();
    assert_eq!(String::from_utf16(&name.uppercase).unwrap(), "READ ME.TXT");
    assert_eq!(String::from_utf16(&name.units).unwrap(), "Read me.txt");
    assert!(!name.lossy);
    let name = UTF16String::from_utf16(&sbi.info, "a:b".encode_utf16().collect()).unwrap();
    assert!(name.lossy);
    let name = UTF16String::from_utf16(&sbi.info, vec![0x41, 0x1F]).unwrap();
    assert!(name.lossy);
    assert!(UTF16String::from_utf16(&sbi.info, vec![0x41; 255]).is_some());
    assert!(UTF16String::from_utf16(&sbi.info, vec![0x41; 256]).is_none());
}
