use exfat::device::MemoryDisk;
use exfat::error::Error;
use exfat::heap::{chain_length, cluster_to_sector, ClusterChain};
use exfat::superblock::BootSectorInfo;

const EOF: u32 = 0xFFFF_FFFF;

// two sectors per cluster, the FAT in sector 1, the heap from sector 2 on
fn geometry() -> BootSectorInfo {
    BootSectorInfo {
        num_sectors: 64,
        num_clusters: 20,
        cluster_size: 1024,
        cluster_size_bits: 10,
        sect_per_clus: 2,
        sect_per_clus_bits: 1,
        fat1_start_sector: 1,
        fat2_start_sector: None,
        data_start_sector: 2,
        num_fat_sectors: 1,
        root_dir: 2,
        dentries_per_clu: 32,
        vol_flags: 0,
        vol_flags_persistent: 0,
        clu_srch_ptr: 2,
        used_clusters: 0xFFFF_FFFF,
    }
}

fn byte_of(cluster: u32, offset: usize) -> u8 {
    (cluster as usize * 31 + offset * 7 + offset / 256) as u8
}

fn image(entries: &[(u32, u32)]) -> Vec<u8> {
    let mut image = vec![0u8; (2 + 18 * 2) * 512];
    for &(cluster, value) in entries {
        let at = 512 + cluster as usize * 4;
        image[at..at + 4].copy_from_slice(&value.to_le_bytes());
    }
    for cluster in 2..20u32 {
        let start = (2 + (cluster as usize - 2) * 2) * 512;
        for offset in 0..1024 {
            image[start + offset] = byte_of(cluster, offset);
        }
    }
    image
}

fn stream(chain: &[u32]) -> Vec<u8> {
    let mut out = Vec::new();
    for &cluster in chain {
        for offset in 0..1024 {
            out.push(byte_of(cluster, offset));
        }
    }
    out
}

fn links(chain: &[u32]) -> Vec<(u32, u32)> {
    let mut out = Vec::new();
    for (i, &cluster) in chain.iter().enumerate() {
        out.push((cluster, if i + 1 < chain.len() { chain[i + 1] } else { EOF }));
    }
    out
}

#[test]
fn cluster_to_sector_counts_from_cluster_two() {
    let boot = geometry();
    assert_eq!(cluster_to_sector(&boot, 2), 2);
    assert_eq!(cluster_to_sector(&boot, 3), 4);
    assert_eq!(cluster_to_sector(&boot, 10), 18);
}

#[test]
fn a_chain_that_starts_outside_the_heap_is_corruption() {
    let boot = geometry();
    let disk = MemoryDisk::new(image(&[]));
    assert_eq!(ClusterChain::new(&boot, &disk, 0).err(), Some(Error::Corruption));
    assert_eq!(ClusterChain::new(&boot, &disk, 1).err(), Some(Error::Corruption));
    assert_eq!(ClusterChain::new(&boot, &disk, 20).err(), Some(Error::Corruption));
    assert!(ClusterChain::new(&boot, &disk, 2).is_ok());
    assert!(ClusterChain::new(&boot, &disk, 19).is_ok());
}

#[test]
fn read_stops_at_the_end_of_a_sector() {
    let boot = geometry();
    let chain = [2, 4, 7];
    let disk = MemoryDisk::new(image(&links(&chain)));
    let expected = stream(&chain);
    let mut reader = ClusterChain::new(&boot, &disk, 2).unwrap();
    assert_eq!(reader.start_cluster(), 2);
    let mut buf = [0xEEu8; 700];
    assert_eq!(reader.read(&mut buf), Ok(512));
    assert_eq!(&buf[..512], &expected[..512]);
    assert!(buf[512..].iter().all(|&b| b == 0xEE));
    let mut small = [0u8; 100];
    assert_eq!(reader.read(&mut small), Ok(100));
    assert_eq!(&small[..], &expected[512..612]);
    assert_eq!(reader.read(&mut buf), Ok(412));
    assert_eq!(&buf[..412], &expected[612..1024]);
    // the next read crosses into cluster 4
    assert_eq!(reader.index(), Ok(Some(4)));
    assert_eq!(reader.read(&mut buf), Ok(512));
    assert_eq!(&buf[..512], &expected[1024..1536]);
}

#[test]
fn read_returns_zero_at_the_end_of_the_chain() {
    let boot = geometry();
    let chain = [3];
    let disk = MemoryDisk::new(image(&links(&chain)));
    let mut reader = ClusterChain::new(&boot, &disk, 3).unwrap();
    let mut buf = [0u8; 512];
    assert_eq!(reader.read(&mut buf), Ok(512));
    assert_eq!(reader.read(&mut buf), Ok(512));
    assert_eq!(reader.read(&mut buf), Ok(0));
    assert_eq!(reader.read(&mut buf), Ok(0));
    assert_eq!(reader.index(), Ok(None));
}

#[test]
fn read_exact_fills_a_buffer_across_clusters() {
    let boot = geometry();
    let chain = [2, 4, 7, 9];
    let disk = MemoryDisk::new(image(&links(&chain)));
    let expected = stream(&chain);
    let mut reader = ClusterChain::new(&boot, &disk, 2).unwrap();
    let mut buf = vec![0u8; 3000];
    assert_eq!(reader.read_exact(&mut buf), Ok(()));
    assert_eq!(buf, &expected[..3000]);
    let mut rest = vec![0u8; 1096];
    assert_eq!(reader.read_exact(&mut rest), Ok(()));
    assert_eq!(rest, &expected[3000..]);
    let mut more = [0u8; 1];
    assert_eq!(reader.read_exact(&mut more), Err(Error::IoError));
}

#[test]
fn read_exact_beyond_the_end_is_an_io_error() {
    let boot = geometry();
    let disk = MemoryDisk::new(image(&links(&[2, 4])));
    let mut reader = ClusterChain::new(&boot, &disk, 2).unwrap();
    let mut buf = vec![0u8; 2049];
    assert_eq!(reader.read_exact(&mut buf), Err(Error::IoError));
}

#[test]
fn read_exact_of_nothing_is_an_io_error() {
    let boot = geometry();
    let disk = MemoryDisk::new(image(&links(&[2, 4])));
    let mut reader = ClusterChain::new(&boot, &disk, 2).unwrap();
    let mut buf = [0u8; 0];
    assert_eq!(reader.read_exact(&mut buf), Err(Error::IoError));
}

#[test]
fn a_chain_that_runs_backward_is_corruption() {
    let boot = geometry();
    let disk = MemoryDisk::new(image(&[(5, 3), (3, EOF)]));
    let mut reader = ClusterChain::new(&boot, &disk, 5).unwrap();
    let mut buf = vec![0u8; 1024];
    assert_eq!(reader.read_exact(&mut buf), Ok(()));
    assert_eq!(reader.read(&mut buf), Err(Error::Corruption));
    assert_eq!(reader.read(&mut buf), Ok(0));
}

#[test]
fn an_unreadable_sector_is_an_io_error() {
    let boot = geometry();
    let mut image = image(&links(&[2, 19]));
    image.truncate((2 + 17 * 2) * 512);
    let disk = MemoryDisk::new(image);
    let mut reader = ClusterChain::new(&boot, &disk, 2).unwrap();
    let mut buf = vec![0u8; 1024];
    assert_eq!(reader.read_exact(&mut buf), Ok(()));
    assert_eq!(reader.read(&mut buf), Err(Error::IoError));
}

#[test]
fn skip_then_read_equals_read_and_discard() {
    let boot = geometry();
    let chain = [2, 4, 7, 9];
    let disk = MemoryDisk::new(image(&links(&chain)));
    let expected = stream(&chain);
    for &before in &[0usize, 10, 512, 700, 1024, 1030] {
        for &n in &[0usize, 1, 31, 500, 511, 512, 513, 1000, 1024, 1025, 2047, 2048, 2500] {
            if before + n + 40 > expected.len() {
                continue;
            }
            let mut skipping = ClusterChain::new(&boot, &disk, 2).unwrap();
            let mut reading = ClusterChain::new(&boot, &disk, 2).unwrap();
            if before > 0 {
                let mut head = vec![0u8; before];
                skipping.read_exact(&mut head).unwrap();
                reading.read_exact(&mut head).unwrap();
            }
            assert_eq!(skipping.skip(n), Ok(()));
            let mut left = n;
            while left > 0 {
                let mut scratch = vec![0u8; left.min(200)];
                let got = reading.read(&mut scratch).unwrap();
                assert!(got > 0);
                left -= got;
            }
            let mut a = [0u8; 40];
            let mut b = [0u8; 40];
            let got_a = skipping.read(&mut a).unwrap();
            let got_b = reading.read(&mut b).unwrap();
            assert_eq!(got_a, got_b, "before {before} n {n}");
            assert_eq!(a, b);
            assert_eq!(&a[..got_a], &expected[before + n..before + n + got_a]);
            assert_eq!(skipping.index(), reading.index());
        }
    }
}

#[test]
fn skip_from_inside_a_cluster_to_the_next_one() {
    // the current cluster is held and the skip leads exactly one cluster on
    let boot = geometry();
    let chain = [2, 4, 7];
    let disk = MemoryDisk::new(image(&links(&chain)));
    let expected = stream(&chain);
    let mut reader = ClusterChain::new(&boot, &disk, 2).unwrap();
    let mut buf = [0u8; 16];
    reader.read_exact(&mut buf).unwrap();
    assert_eq!(reader.skip(1024), Ok(()));
    assert_eq!(reader.index(), Ok(Some(4)));
    reader.read_exact(&mut buf).unwrap();
    assert_eq!(&buf[..], &expected[1040..1056]);
}

#[test]
fn skip_to_the_end_of_the_chain() {
    let boot = geometry();
    let disk = MemoryDisk::new(image(&links(&[2, 4])));
    let mut reader = ClusterChain::new(&boot, &disk, 2).unwrap();
    assert_eq!(reader.skip(2048), Ok(()));
    let mut buf = [0u8; 8];
    assert_eq!(reader.read(&mut buf), Ok(0));
    let mut reader = ClusterChain::new(&boot, &disk, 2).unwrap();
    assert_eq!(reader.skip(1_000_000), Ok(()));
    assert_eq!(reader.read(&mut buf), Ok(0));
    assert_eq!(reader.skip(5), Ok(()));
}

#[test]
fn skip_over_a_broken_chain_reports_the_error() {
    let boot = geometry();
    let disk = MemoryDisk::new(image(&[(5, 6), (6, 3)]));
    let mut reader = ClusterChain::new(&boot, &disk, 5).unwrap();
    assert_eq!(reader.skip(5000), Err(Error::Corruption));
    let mut buf = [0u8; 8];
    assert_eq!(reader.read(&mut buf), Ok(0));
}

#[test]
fn a_contiguous_chain_follows_free_entries() {
    let boot = geometry();
    let disk = MemoryDisk::new(image(&[(8, EOF)]));
    let expected = stream(&[6, 7, 8]);
    let mut reader = ClusterChain::new(&boot, &disk, 6).unwrap().set_contiguous(true);
    let mut buf = vec![0u8; 3072];
    assert_eq!(reader.read_exact(&mut buf), Ok(()));
    assert_eq!(buf, expected);
    assert_eq!(reader.read(&mut buf), Ok(0));
    // without the flag the chain ends with its first cluster
    let mut reader = ClusterChain::new(&boot, &disk, 6).unwrap();
    assert_eq!(reader.read_exact(&mut buf), Err(Error::IoError));
}

#[test]
fn chain_length_counts_the_clusters() {
    let boot = geometry();
    let disk = MemoryDisk::new(image(&links(&[2, 4, 7, 9])));
    assert_eq!(chain_length(&boot, &disk, 2), Ok(4));
    assert_eq!(chain_length(&boot, &disk, 7), Ok(2));
    let broken = MemoryDisk::new(image(&[(5, 6), (6, 3)]));
    assert_eq!(chain_length(&boot, &broken, 5), Err(Error::Corruption));
}

#[test]
fn a_skip_asks_for_the_sector_it_lands_in_and_no_other() {
    let boot = geometry();
    let disk = MemoryDisk::new(image(&links(&[2, 5, 9])));
    let mut chain = ClusterChain::new(&boot, &disk, 2).unwrap();
    assert_eq!(chain.read_count(), 0);
    // from the start into the last sector of the chain, five sectors on
    assert_eq!(chain.skip(5 * 512 + 100), Ok(()));
    assert_eq!(chain.read_count(), 1);
    let mut buf = [0u8; 4];
    assert_eq!(chain.read(&mut buf), Ok(4));
    assert_eq!(buf.to_vec(), stream(&[9])[612..616].to_vec());
    assert_eq!(chain.read_count(), 1);
}

#[test]
fn a_skip_within_the_sector_in_hand_asks_for_none() {
    let boot = geometry();
    let disk = MemoryDisk::new(image(&links(&[2, 5, 9])));
    let mut chain = ClusterChain::new(&boot, &disk, 2).unwrap();
    let mut buf = [0u8; 8];
    assert_eq!(chain.read(&mut buf), Ok(8));
    assert_eq!(chain.read_count(), 1);
    assert_eq!(chain.skip(200), Ok(()));
    assert_eq!(chain.read_count(), 1);
    assert_eq!(chain.read(&mut buf), Ok(8));
    assert_eq!(buf.to_vec(), stream(&[2])[208..216].to_vec());
    assert_eq!(chain.read_count(), 1);
    // the next sector is another one
    assert_eq!(chain.skip(512), Ok(()));
    assert_eq!(chain.read_count(), 2);
}

#[test]
fn a_skip_to_the_end_of_the_chain_asks_for_no_sector() {
    let boot = geometry();
    let disk = MemoryDisk::new(image(&links(&[2, 5])));
    let mut chain = ClusterChain::new(&boot, &disk, 2).unwrap();
    assert_eq!(chain.skip(2048), Ok(()));
    assert_eq!(chain.read_count(), 0);
}

#[test]
fn read_exact_asks_for_each_sector_once() {
    let boot = geometry();
    let disk = MemoryDisk::new(image(&links(&[2, 5, 9])));
    let mut chain = ClusterChain::new(&boot, &disk, 2).unwrap();
    let mut buf = vec![0u8; 1300];
    assert_eq!(chain.read_exact(&mut buf), Ok(()));
    assert_eq!(buf, stream(&[2, 5])[..1300].to_vec());
    assert_eq!(chain.read_count(), 3);
    // the rest of the third sector is in hand
    let mut rest = vec![0u8; 236];
    assert_eq!(chain.read_exact(&mut rest), Ok(()));
    assert_eq!(rest, stream(&[2, 5])[1300..1536].to_vec());
    assert_eq!(chain.read_count(), 3);
    let mut next = [0u8; 1];
    assert_eq!(chain.read(&mut next), Ok(1));
    assert_eq!(chain.read_count(), 4);
}

#[test]
fn a_sector_that_cannot_be_read_was_asked_for() {
    let boot = geometry();
    let mut bytes = image(&links(&[2, 17, 19]));
    bytes.truncate((2 + 17 * 2) * 512);
    let disk = MemoryDisk::new(bytes);
    let mut chain = ClusterChain::new(&boot, &disk, 2).unwrap();
    assert_eq!(chain.skip(2048 + 10), Err(Error::IoError));
    assert_eq!(chain.read_count(), 1);
}
