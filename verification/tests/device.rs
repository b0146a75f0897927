use exfat::device::{BlockReader, MemoryDisk, ReadLog, SECTOR_SIZE, SECTOR_SIZE_BITS};

#[test]
fn a_memory_disk_hands_out_its_sectors() {
    let mut image = vec![0u8; 3 * 512 + 100];
    for (i, b) in image.iter_mut().enumerate() {
        *b = (i / 512) as u8 * 16 + (i % 7) as u8;
    }
    let disk = MemoryDisk::new(image.clone());
    let mut log = ReadLog::new();
    assert_eq!(log.count(), 0);
    assert_eq!(disk.sector_count(), 3);
    for n in 0..3u64 {
        let sector = disk.read_sector(n, &mut log).unwrap();
        assert_eq!(sector.len(), SECTOR_SIZE);
        assert_eq!(sector, &image[n as usize * 512..(n as usize + 1) * 512]);
    }
    // what lies behind the last whole sector cannot be read
    assert!(disk.read_sector(3, &mut log).is_none());
    assert!(disk.read_sector(u64::MAX, &mut log).is_none());
    disk.readahead(1);
    assert_eq!(disk.read_sector(1, &mut log).unwrap(), &image[512..1024]);
    // every request is counted, the ones that fail too
    assert_eq!(log.count(), 6);
    log.record(77);
    assert_eq!(log.count(), 7);
}

#[test]
fn an_empty_disk_has_no_sector() {
    let disk = MemoryDisk::new(Vec::new());
    assert_eq!(disk.sector_count(), 0);
    assert!(disk.read_sector(0, &mut ReadLog::new()).is_none());
}

#[test]
fn a_sector_has_512_bytes() {
    assert_eq!(SECTOR_SIZE, 512);
    assert_eq!(1usize << SECTOR_SIZE_BITS, SECTOR_SIZE);
}
