use exfat::charsets::to_upper;
use exfat::checksum::{calc_checksum_32, ChecksumType};
use exfat::device::MemoryDisk;
use exfat::error::Error;
use exfat::superblock::{BootSectorInfo, ExfatErrorMode, ExfatMountOptions, SbInfo};
use exfat::upcase::{
    create_upcase_table, default_upcase_table_into, read_upcase_table, load_default_upcase_table,
    load_upcase_table, load_upcase_table_into, locate_upcase_table, read_upcase_record,
    zeroed_units,
};

const EOF: u32 = 0xFFFF_FFFF;

// one sector per cluster, the FAT in sector 1, the heap from sector 2 on
fn geometry() -> BootSectorInfo {
    BootSectorInfo {
        num_sectors: 64,
        num_clusters: 20,
        cluster_size: 512,
        cluster_size_bits: 9,
        sect_per_clus: 1,
        sect_per_clus_bits: 0,
        fat1_start_sector: 1,
        fat2_start_sector: None,
        data_start_sector: 2,
        num_fat_sectors: 1,
        root_dir: 2,
        dentries_per_clu: 16,
        vol_flags: 0,
        vol_flags_persistent: 0,
        clu_srch_ptr: 2,
        used_clusters: 0xFFFF_FFFF,
    }
}

/// Compresses a table: runs of code units that fold to themselves become
/// the mark and the length of the run.
fn encode(table: &[u16]) -> Vec<u16> {
    let mut out = Vec::new();
    let mut u = 0usize;
    while u < table.len() {
        if table[u] as usize == u {
            let mut run = 0usize;
            while u + run < table.len() && table[u + run] as usize == u + run && run < 0xFFFF {
                run += 1;
            }
            out.push(0xFFFF);
            out.push(run as u16);
            u += run;
        } else {
            out.push(table[u]);
            u += 1;
        }
    }
    out
}

fn bytes_of(units: &[u16]) -> Vec<u8> {
    units.iter().flat_map(|u| u.to_le_bytes()).collect()
}

fn sample_table() -> Vec<u16> {
    let mut table: Vec<u16> = (0..=0xFFFFu32).map(|i| i as u16).collect();
    for c in 0x61..=0x7A {
        table[c] = c as u16 - 0x20;
    }
    for c in 0xE0..=0xFE {
        if c != 0xF7 {
            table[c] = c as u16 - 0x20;
        }
    }
    for c in 0x400..0x600 {
        table[c] = c as u16 ^ 1;
    }
    table[0xFF] = 0x178;
    table[0x101] = 0x100;
    table[0xFFFE] = 0x1234;
    table
}

/// An image with the table in the clusters of `chain` and a root directory
/// in cluster 2 that holds `record`.
fn image(chain: &[u32], data: &[u8], record: Option<[u8; 32]>) -> MemoryDisk {
    let mut image = vec![0u8; 22 * 512];
    let mut links: Vec<(u32, u32)> = vec![(2, EOF)];
    for (i, &cluster) in chain.iter().enumerate() {
        links.push((cluster, if i + 1 < chain.len() { chain[i + 1] } else { EOF }));
    }
    for (cluster, next) in links {
        let at = 512 + cluster as usize * 4;
        image[at..at + 4].copy_from_slice(&next.to_le_bytes());
    }
    for (i, part) in data.chunks(512).enumerate() {
        let at = chain[i] as usize * 512;
        image[at..at + part.len()].copy_from_slice(part);
    }
    if let Some(record) = record {
        image[2 * 512 + 32..2 * 512 + 64].copy_from_slice(&record);
        image[2 * 512] = 0x83;
    }
    MemoryDisk::new(image)
}

fn upcase_record(checksum: u32, first_cluster: u32, data_length: u64) -> [u8; 32] {
    let mut r = [0u8; 32];
    r[0] = 0x82;
    r[4..8].copy_from_slice(&checksum.to_le_bytes());
    r[20..24].copy_from_slice(&first_cluster.to_le_bytes());
    r[24..32].copy_from_slice(&data_length.to_le_bytes());
    r
}

#[test]
fn a_compressed_table_round_trips() {
    let table = sample_table();
    let data = bytes_of(&encode(&table));
    assert!(data.len() > 1024 && data.len() < 1536);
    let checksum = calc_checksum_32(&data, 0, ChecksumType::Default);
    let boot = geometry();
    let disk = image(&[4, 7, 9], &data, None);
    let sectors = (data.len() as u64 + 511) / 512;
    let loaded = load_upcase_table(&boot, &disk, 4, sectors, checksum).unwrap();
    assert_eq!(loaded.len(), 0x10000);
    assert_eq!(loaded, table);
}

#[test]
fn the_checksum_covers_the_consumed_bytes_only() {
    // what follows the table in its last sector does not count
    let table = sample_table();
    let mut data = bytes_of(&encode(&table));
    let checksum = calc_checksum_32(&data, 0, ChecksumType::Default);
    data.extend_from_slice(&[0xAB; 20]);
    let boot = geometry();
    let disk = image(&[4, 7, 9], &data, None);
    assert_eq!(load_upcase_table(&boot, &disk, 4, 3, checksum).unwrap(), table);
    // more sectors than the table needs are not read
    assert_eq!(load_upcase_table(&boot, &disk, 4, 9, checksum).unwrap(), table);
    // fewer sectors do not cover the code units
    assert_eq!(load_upcase_table(&boot, &disk, 4, 2, checksum).err(), Some(Error::InvalidFormat));
}

#[test]
fn a_wrong_checksum_is_a_checksum_mismatch() {
    let table = sample_table();
    let data = bytes_of(&encode(&table));
    let checksum = calc_checksum_32(&data, 0, ChecksumType::Default);
    let boot = geometry();
    let disk = image(&[4, 7, 9], &data, None);
    assert_eq!(
        load_upcase_table(&boot, &disk, 4, 3, checksum ^ 1).err(),
        Some(Error::ChecksumMismatch)
    );
}

#[test]
fn a_table_that_does_not_cover_the_code_units_is_invalid() {
    let data = bytes_of(&[0xFFFF, 0x61, 0x41, 0x42, 0xFFFF, 0xFF00]);
    let checksum = calc_checksum_32(&data, 0, ChecksumType::Default);
    let boot = geometry();
    let disk = image(&[4], &data, None);
    // only a part of the sector is asked for: nothing is read
    assert_eq!(load_upcase_table(&boot, &disk, 4, 0, checksum).err(), Some(Error::InvalidFormat));
}

#[test]
fn a_table_that_stops_at_the_last_code_unit_is_accepted() {
    // the decoder is at 0xFFFF when the data ends
    let mut units = vec![0xFFFF, 0x61, 0x41];
    for u in 0x62..0x62 + 251 {
        units.push(u);
    }
    units.extend_from_slice(&[0xFFFF, 0xFFFF - (0x62 + 251)]);
    assert_eq!(units.len(), 256);
    let data = bytes_of(&units);
    let boot = geometry();
    let disk = image(&[4], &data, None);
    let checksum = calc_checksum_32(&data, 0, ChecksumType::Default);
    let table = load_upcase_table(&boot, &disk, 4, 1, checksum).unwrap();
    assert_eq!(table[0x61], 0x41);
    assert_eq!(table[0x62], 0x62);
    assert_eq!(table[0xFFFF], 0xFFFF);
    // one code unit less is not enough
    let mut units = units;
    units[255] -= 1;
    let data = bytes_of(&units);
    let disk = image(&[4], &data, None);
    let checksum = calc_checksum_32(&data, 0, ChecksumType::Default);
    assert_eq!(load_upcase_table(&boot, &disk, 4, 1, checksum).err(), Some(Error::InvalidFormat));
}

#[test]
fn what_follows_the_table_in_its_sector_is_decoded_while_code_units_are_left() {
    // the table ends at 0xFFFF; the zero behind it is the entry of 0xFFFF
    let data = bytes_of(&[0xFFFF, 0x61, 0x41, 0xFFFF, 0xFF9D]);
    let boot = geometry();
    let disk = image(&[4], &data, None);
    let mut consumed = data.clone();
    consumed.extend_from_slice(&[0, 0]);
    let checksum = calc_checksum_32(&consumed, 0, ChecksumType::Default);
    let table = load_upcase_table(&boot, &disk, 4, 1, checksum).unwrap();
    assert_eq!(table[0x61], 0x41);
    assert_eq!(table[0xFFFF], 0);
    let checksum = calc_checksum_32(&data, 0, ChecksumType::Default);
    assert_eq!(
        load_upcase_table(&boot, &disk, 4, 1, checksum).err(),
        Some(Error::ChecksumMismatch)
    );
}

#[test]
fn a_table_outside_the_heap_is_corruption() {
    let boot = geometry();
    let disk = image(&[4], &[], None);
    assert_eq!(load_upcase_table(&boot, &disk, 1, 1, 0).err(), Some(Error::Corruption));
    assert_eq!(load_upcase_table(&boot, &disk, 20, 1, 0).err(), Some(Error::Corruption));
}

#[test]
fn a_table_in_a_sector_that_cannot_be_read_is_an_io_error() {
    let mut boot = geometry();
    boot.data_start_sector = 1000;
    let disk = image(&[4], &[], None);
    assert_eq!(load_upcase_table(&boot, &disk, 4, 1, 0).err(), Some(Error::IoError));
}

#[test]
fn the_default_table_folds_the_ascii_letters() {
    let table = load_default_upcase_table().unwrap();
    assert_eq!(table.len(), 0x10000);
    assert_eq!(table[0x61], 0x41);
    assert_eq!(table[0x7A], 0x5A);
    assert_eq!(table[0x60], 0x60);
    assert_eq!(table[0x7B], 0x7B);
    assert_eq!(table[0x41], 0x41);
    assert_eq!(table[0xE9], 0xE9);
    assert_eq!(table[0xFFFF], 0xFFFF);
    assert_eq!(table[0], 0);
}

#[test]
fn the_table_of_the_root_directory_is_loaded() {
    let table = sample_table();
    let data = bytes_of(&encode(&table));
    let checksum = calc_checksum_32(&data, 0, ChecksumType::Default);
    let boot = geometry();
    let disk = image(&[4, 7, 9], &data, Some(upcase_record(checksum, 4, data.len() as u64)));
    assert_eq!(create_upcase_table(&boot, &disk).unwrap(), table);
}

#[test]
fn a_table_that_cannot_be_used_gives_the_default_table() {
    let table = sample_table();
    let data = bytes_of(&encode(&table));
    let checksum = calc_checksum_32(&data, 0, ChecksumType::Default);
    let boot = geometry();
    let default = load_default_upcase_table().unwrap();
    let disk = image(&[4, 7, 9], &data, Some(upcase_record(checksum + 1, 4, data.len() as u64)));
    assert_eq!(create_upcase_table(&boot, &disk).unwrap(), default);
    let disk = image(&[4, 7, 9], &data, Some(upcase_record(checksum, 4, 0)));
    assert_eq!(create_upcase_table(&boot, &disk).unwrap(), default);
    let disk = image(&[4, 7, 9], &data, Some(upcase_record(checksum, 1, data.len() as u64)));
    assert_eq!(create_upcase_table(&boot, &disk).unwrap(), default);
    let disk = image(&[4, 7, 9], &data, None);
    assert_eq!(create_upcase_table(&boot, &disk).unwrap(), default);
}

#[test]
fn a_table_that_cannot_be_read_is_an_io_error() {
    let table = sample_table();
    let data = bytes_of(&encode(&table));
    let checksum = calc_checksum_32(&data, 0, ChecksumType::Default);
    let boot = geometry();
    // the chain of the table ends before the table does
    let disk = image(&[4], &data[..512], Some(upcase_record(checksum, 4, data.len() as u64)));
    assert_eq!(create_upcase_table(&boot, &disk).err(), Some(Error::IoError));
}

#[test]
fn a_root_directory_outside_the_heap_is_corruption() {
    let mut boot = geometry();
    boot.root_dir = 1;
    let disk = image(&[4], &[], None);
    assert_eq!(create_upcase_table(&boot, &disk).err(), Some(Error::Corruption));
}

#[test]
fn to_upper_reads_the_table() {
    let mut table = load_default_upcase_table().unwrap();
    table[0x100] = 0;
    let info = SbInfo {
        boot_sector_info: geometry(),
        options: ExfatMountOptions {
            fs_uid: 0,
            fs_gid: 0,
            fs_fmask: 0,
            fs_dmask: 0,
            allow_utime: 0,
            iocharset: b"utf8".to_vec(),
            errors: ExfatErrorMode::Continue,
            utf8: true,
            discard: false,
            time_offset: 0,
        },
        upcase_table: table,
    };
    assert_eq!(to_upper(&info, 0x61), 0x41);
    assert_eq!(to_upper(&info, 0x41), 0x41);
    assert_eq!(to_upper(&info, 0x100), 0x100);
    assert_eq!(to_upper(&info, 0), 0);
    assert_eq!(to_upper(&info, 0xFFFF), 0xFFFF);
}

#[test]
fn a_table_is_loaded_into_memory_that_was_used_before() {
    let table = sample_table();
    let data = bytes_of(&encode(&table));
    let checksum = calc_checksum_32(&data, 0, ChecksumType::Default);
    let boot = geometry();
    let disk = image(&[4, 7, 9], &data, Some(upcase_record(checksum, 4, data.len() as u64)));
    let used = vec![0xABCDu16; 0x10000];
    assert_eq!(load_upcase_table_into(&boot, &disk, 4, 3, checksum, used.clone()).unwrap(), table);
    assert_eq!(read_upcase_table(&boot, &disk, used.clone()).unwrap(), Some(table));
    assert_eq!(default_upcase_table_into(used.clone()), load_default_upcase_table().unwrap());
    let disk = image(&[4, 7, 9], &data, Some(upcase_record(checksum ^ 2, 4, data.len() as u64)));
    assert_eq!(read_upcase_table(&boot, &disk, used.clone()).unwrap(), None);
    let disk = image(&[4, 7, 9], &data, None);
    assert_eq!(read_upcase_table(&boot, &disk, used).unwrap(), None);
}

#[test]
fn room_for_a_table_is_filled_with_zeros() {
    assert_eq!(zeroed_units(Ok(()), Vec::new(), 4), Some(vec![0u16; 4]));
    assert_eq!(zeroed_units(Ok(()), vec![9], 2), Some(vec![9, 0, 0]));
    // more memory than there can be
    let refused = Vec::<u16>::new().try_reserve(usize::MAX);
    assert!(refused.is_err());
    assert_eq!(zeroed_units(refused, Vec::new(), 4), None);
}

#[test]
fn the_table_is_looked_for_and_then_read() {
    let table = sample_table();
    let data = bytes_of(&encode(&table));
    let checksum = calc_checksum_32(&data, 0, ChecksumType::Default);
    let boot = geometry();
    let disk = image(&[4, 7, 9], &data, Some(upcase_record(checksum, 4, data.len() as u64)));
    let record = locate_upcase_table(&boot, &disk).unwrap().unwrap();
    assert_eq!(record.first_cluster, 4);
    assert_eq!(record.table_checksum, checksum);
    assert_eq!(record.data_length, data.len() as u64);
    let used = vec![7u16; 0x10000];
    assert_eq!(read_upcase_record(&boot, &disk, &record, used.clone()).unwrap(), Some(table));
    let mut wrong = record;
    wrong.table_checksum ^= 1;
    assert_eq!(read_upcase_record(&boot, &disk, &wrong, used.clone()).unwrap(), None);
    wrong.first_cluster = 9;
    wrong.data_length = 5000;
    assert_eq!(read_upcase_record(&boot, &disk, &wrong, used).err(), Some(Error::IoError));
    let disk = image(&[4, 7, 9], &data, None);
    assert!(locate_upcase_table(&boot, &disk).unwrap().is_none());
    let mut outside = geometry();
    outside.root_dir = 20;
    assert_eq!(locate_upcase_table(&outside, &disk).err(), Some(Error::Corruption));
}
