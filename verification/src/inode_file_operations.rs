//! Where the blocks of a file lie on the device.

use vstd::prelude::*;
use crate::device::{BlockReader, Disk};
use crate::error::{Error, Result};
use crate::fat::{stop_error, FatChainReader};
use crate::heap::{cluster_to_sector, lemma_chain_link, lemma_walk_nth, Chain};
use crate::inode::InodeInfo;
use crate::superblock::{SbInfo, NUM_RESERVED_CLUSTERS};

verus! {

/// The number of sectors that hold `bytes` bytes.
pub open spec fn spec_bytes_to_sectors(bytes: u64) -> u64 {
    ((bytes + 511) / 512) as u64
}

/// The number of sectors that hold `bytes` bytes.
pub fn bytes_to_sectors(bytes: u64) -> (r: u64)
    ensures
        r == spec_bytes_to_sectors(bytes),
{
    bytes / 512 + if bytes % 512 == 0 {
        0
    } else {
        1
    }
}

/// The number of bytes of `sectors` sectors.
pub fn sectors_to_bytes(sectors: u64) -> (r: u64)
    requires
        sectors * 512 <= u64::MAX,
    ensures
        r == sectors * 512,
{
    sectors * 512
}

/// Where block `iblock` of a file lies: `None` behind the last block of the
/// file, and else the sector of the disk that holds the block.
///
/// A file whose chain ends before the block is an `IoError`.
pub open spec fn block_sector(disk: Disk, sb_info: SbInfo, inode: InodeInfo, iblock: u64) -> Result<
    Option<u64>,
> {
    let boot = sb_info.boot_sector_info;
    let chain = Chain {
        disk,
        boot,
        contiguous: inode.data_contiguous,
        start: inode.data_cluster,
    };
    if iblock >= spec_bytes_to_sectors(inode.size) {
        Ok(None)
    } else if !(NUM_RESERVED_CLUSTERS <= inode.data_cluster < boot.num_clusters) {
        Err(Error::Corruption)
    } else if iblock as int * 512 < chain.len() {
        Ok(Some(chain.sector_of((iblock * 512) as nat)))
    } else {
        match stop_error(chain.stop()) {
            Some(e) => Err(e),
            None => Err(Error::IoError),
        }
    }
}

/// Maps block `iblock` of a file to the sector of the disk that holds it.
pub fn get_block<D: BlockReader>(inode: &InodeInfo, sb_info: &SbInfo, dev: &D, iblock: u64) -> (r:
    Result<Option<u64>>)
    requires
        sb_info.boot_sector_info.wf(),
    ensures
        r == block_sector(dev@, *sb_info, *inode, iblock),
{
    let boot = &sb_info.boot_sector_info;
    let last_block = bytes_to_sectors(inode.size);
    if iblock >= last_block {
        return Ok(None);
    }
    if inode.data_cluster < NUM_RESERVED_CLUSTERS || inode.data_cluster >= boot.num_clusters {
        return Err(Error::Corruption);
    }
    let ghost chain = Chain {
        disk: dev@,
        boot: *boot,
        contiguous: inode.data_contiguous,
        start: inode.data_cluster,
    };
    let cluster_offset: u64 = iblock / boot.sect_per_clus as u64;
    let sec_offset: u64 = iblock % boot.sect_per_clus as u64;
    proof {
        crate::heap::lemma_offset_parts(*boot, cluster_offset as nat, sec_offset as nat, 0);
        vstd::arithmetic::div_mod::lemma_fundamental_div_mod(
            iblock as int,
            boot.sect_per_clus as int,
        );
        assert(boot.sect_per_clus * cluster_offset == cluster_offset * boot.sect_per_clus)
            by (nonlinear_arith);
        assert(iblock * 512 == cluster_offset * boot.cluster_size + sec_offset * 512)
            by (nonlinear_arith)
            requires
                iblock == cluster_offset * boot.sect_per_clus + sec_offset,
                boot.cluster_size == boot.sect_per_clus * 512,
        ;
        crate::heap::lemma_chain_len_bound(dev@, *boot, inode.data_contiguous, inode.data_cluster);
        if cluster_offset < chain.clusters().len() {
            crate::heap::lemma_cluster_within(chain, cluster_offset as nat);
            lemma_chain_link(
                dev@,
                *boot,
                inode.data_contiguous,
                inode.data_cluster,
                cluster_offset as int,
            );
        } else {
            assert(cluster_offset * boot.cluster_size >= chain.clusters().len() * boot.cluster_size)
                by (nonlinear_arith)
                requires
                    cluster_offset >= chain.clusters().len(),
                    boot.cluster_size >= 0,
            ;
        }
        lemma_walk_nth(chain, 0, cluster_offset as nat);
    }
    if cluster_offset > 0xFFFF_FFFF {
        // no chain has that many clusters
        let mut reader = FatChainReader::new(boot, dev, inode.data_cluster).set_contiguous(
            inode.data_contiguous,
        );
        proof {
            lemma_walk_nth(chain, 0, 0xFFFF_FFFF);
        }
        return match reader.nth(0xFFFF_FFFF) {
            Some(Err(e)) => Err(e),
            _ => Err(Error::IoError),
        };
    }
    let mut reader = FatChainReader::new(boot, dev, inode.data_cluster).set_contiguous(
        inode.data_contiguous,
    );
    match reader.nth(cluster_offset as usize) {
        None => Err(Error::IoError),
        Some(Err(e)) => Err(e),
        Some(Ok(cluster)) => Ok(Some(cluster_to_sector(boot, cluster) + sec_offset)),
    }
}

} // verus!
