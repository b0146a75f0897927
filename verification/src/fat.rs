//! The file allocation table: the linked list of the clusters of a file.

use vstd::prelude::*;
use crate::bytes::{le32, read_u32_le};
use crate::device::{disk_wf, BlockReader, Disk, ReadLog, SECTOR_SIZE};
use crate::error::{Error, Result};
use crate::superblock::BootSectorInfo;

verus! {

/// The index of a cluster. Clusters 0 and 1 do not exist.
pub type ClusterIndex = u32;

/// The FAT entry of a cluster that belongs to no chain.
pub const FAT_ENTRY_FREE: u32 = 0;

/// The FAT entry of a cluster that must not be used.
pub const FAT_ENTRY_BAD: u32 = 0xFFFF_FFF7;

/// The FAT entry of the last cluster of a chain.
pub const FAT_ENTRY_EOF: u32 = 0xFFFF_FFFF;

/// The size of a FAT entry in bytes.
pub const FAT_ENTRY_SIZE: u64 = 4;

/// The sector that holds the FAT entry of cluster `index`.
pub open spec fn fat_entry_sector(boot: BootSectorInfo, index: u32) -> u64 {
    (boot.fat1_start_sector + (index as int * 4) / 512) as u64
}

/// The offset of the FAT entry of cluster `index` within its sector.
pub open spec fn fat_entry_offset(index: u32) -> int {
    (index as int * 4) % 512
}

/// The FAT entry of cluster `index`, or `None` where its sector cannot be read.
pub open spec fn fat_entry(disk: Disk, boot: BootSectorInfo, index: u32) -> Option<u32> {
    let sector = fat_entry_sector(boot, index);
    if disk.contains_key(sector) {
        Some(le32(disk[sector], fat_entry_offset(index)))
    } else {
        None
    }
}

/// What the FAT says comes after a cluster.
pub enum FatLink {
    /// The chain goes on with this cluster, whose index is larger.
    Next(u32),
    /// The chain ends here.
    End,
    /// The entry marks a bad cluster.
    Bad,
    /// The entry does not point forward.
    Backward,
    /// The sector of the entry cannot be read.
    Unreadable,
}

/// What comes after cluster `index`.
///
/// A free entry ends the chain, unless the chain is known to be allocated
/// contiguously: then the next cluster follows.
pub open spec fn fat_link(disk: Disk, boot: BootSectorInfo, contiguous: bool, index: u32) -> FatLink {
    match fat_entry(disk, boot, index) {
        None => FatLink::Unreadable,
        Some(entry) => if entry == FAT_ENTRY_FREE {
            if !contiguous {
                FatLink::End
            } else if index < u32::MAX {
                FatLink::Next((index + 1) as u32)
            } else {
                FatLink::Backward
            }
        } else if entry == FAT_ENTRY_EOF {
            FatLink::End
        } else if entry == FAT_ENTRY_BAD {
            FatLink::Bad
        } else if entry > index {
            FatLink::Next(entry)
        } else {
            FatLink::Backward
        },
    }
}

/// The clusters that follow cluster `index` in its chain, up to the first
/// entry that is not a link forward.
pub open spec fn chain_after(disk: Disk, boot: BootSectorInfo, contiguous: bool, index: u32) -> Seq<
    u32,
>
    decreases u32::MAX - index,
{
    match fat_link(disk, boot, contiguous, index) {
        FatLink::Next(next) => if next > index {
            seq![next] + chain_after(disk, boot, contiguous, next)
        } else {
            seq![]
        },
        _ => seq![],
    }
}

/// The chain that starts at cluster `start`: `start` and what follows it.
pub open spec fn chain_clusters(disk: Disk, boot: BootSectorInfo, contiguous: bool, start: u32) -> Seq<
    u32,
> {
    seq![start] + chain_after(disk, boot, contiguous, start)
}

/// The entry that stops the chain of cluster `index`: never `Next`.
pub open spec fn chain_stop(disk: Disk, boot: BootSectorInfo, contiguous: bool, index: u32) -> FatLink
    decreases u32::MAX - index,
{
    match fat_link(disk, boot, contiguous, index) {
        FatLink::Next(next) => if next > index {
            chain_stop(disk, boot, contiguous, next)
        } else {
            FatLink::Backward
        },
        link => link,
    }
}

/// The error that a stop of the chain is reported as, if it is one.
pub open spec fn stop_error(link: FatLink) -> Option<Error> {
    match link {
        FatLink::Next(_) => None,
        FatLink::End => None,
        FatLink::Bad => Some(Error::IoError),
        FatLink::Unreadable => Some(Error::IoError),
        FatLink::Backward => Some(Error::Corruption),
    }
}

/// What a walk holds of the FAT and what it has asked the device for.
pub struct FatCache {
    /// The FAT sector that the walk holds, where it holds one.
    pub held: Option<u64>,
    /// The FAT sectors that the walk has asked the device for, in order.
    pub reads: Seq<u64>,
}

/// The state of a walk along a chain.
pub struct FatWalk {
    pub disk: Disk,
    pub boot: BootSectorInfo,
    /// True when the chain is known to be allocated contiguously.
    pub contiguous: bool,
    /// The cluster that the walk yields first, until it has done so.
    pub first: Option<u32>,
    /// The cluster whose FAT entry is read next; `None` once the walk has stopped.
    pub read_next: Option<u32>,
}

impl FatWalk {
    /// The walk that is about to yield `start`.
    pub open spec fn start(disk: Disk, boot: BootSectorInfo, contiguous: bool, start: u32) -> FatWalk {
        FatWalk { disk, boot, contiguous, first: Some(start), read_next: Some(start) }
    }

    /// The walk that has yielded cluster `index` last.
    pub open spec fn at(disk: Disk, boot: BootSectorInfo, contiguous: bool, index: u32) -> FatWalk {
        FatWalk { disk, boot, contiguous, first: None, read_next: Some(index) }
    }

    /// The walk that has stopped.
    pub open spec fn stopped(disk: Disk, boot: BootSectorInfo, contiguous: bool) -> FatWalk {
        FatWalk { disk, boot, contiguous, first: None, read_next: None }
    }

    /// One step of the walk: the state after it and what it yields. `None`
    /// ends the sequence; an error ends it too, after it was reported once.
    pub open spec fn next(self) -> (FatWalk, Option<Result<u32>>) {
        if self.first is Some {
            (FatWalk { first: None, ..self }, Some(Ok(self.first->Some_0)))
        } else if self.read_next is None {
            (self, None)
        } else {
            let stopped = FatWalk { read_next: None, ..self };
            match fat_link(self.disk, self.boot, self.contiguous, self.read_next->Some_0) {
                FatLink::Next(next) => (FatWalk { read_next: Some(next), ..self }, Some(Ok(next))),
                FatLink::End => (stopped, None),
                FatLink::Bad => (stopped, Some(Err(Error::IoError))),
                FatLink::Unreadable => (stopped, Some(Err(Error::IoError))),
                FatLink::Backward => (stopped, Some(Err(Error::Corruption))),
            }
        }
    }

    /// The FAT sector that the next step of the walk needs, where it
    /// needs one: the sector of the FAT entry that it decodes.
    pub open spec fn wanted(self) -> Option<u64> {
        if self.first is Some || self.read_next is None {
            None
        } else {
            Some(fat_entry_sector(self.boot, self.read_next->Some_0))
        }
    }

    /// What a walk holds and has asked for after its next step. The step
    /// asks the device for the FAT sector that it needs, unless this is the
    /// sector that the walk holds; it holds the sector that it needed, where
    /// that could be read.
    pub open spec fn cache_next(self, cache: FatCache) -> FatCache {
        match self.wanted() {
            None => cache,
            Some(sector) => FatCache {
                held: if self.disk.contains_key(sector) {
                    Some(sector)
                } else {
                    None
                },
                reads: if cache.held == Some(sector) {
                    cache.reads
                } else {
                    cache.reads.push(sector)
                },
            },
        }
    }

    /// What a walk holds and has asked for after `n + 1` steps, or after the
    /// first of them that yields no cluster.
    pub open spec fn cache_nth(self, cache: FatCache, n: nat) -> FatCache
        decreases n,
    {
        let (after, yielded) = self.next();
        if n == 0 || !(yielded matches Some(Ok(_))) {
            self.cache_next(cache)
        } else {
            after.cache_nth(self.cache_next(cache), (n - 1) as nat)
        }
    }

    /// `n + 1` steps of the walk, of which the last one counts: the state
    /// after them and what the last step yields. The first step that yields
    /// no cluster ends the run and is the result.
    pub open spec fn nth(self, n: nat) -> (FatWalk, Option<Result<u32>>)
        decreases n,
    {
        let (after, yielded) = self.next();
        if n == 0 || !(yielded matches Some(Ok(_))) {
            (after, yielded)
        } else {
            after.nth((n - 1) as nat)
        }
    }
}

/// A FAT sector that a walk holds on to.
struct FatBlock {
    sector: u64,
    data: Vec<u8>,
}

/// Yields the clusters of a chain, one FAT entry at a time.
pub struct FatChainReader<'a, D: BlockReader> {
    boot: &'a BootSectorInfo,
    dev: &'a D,
    contiguous: bool,
    /// The index which is returned on the first call to next.
    first: Option<ClusterIndex>,
    /// The index at which the next index is located.
    read_next: Option<ClusterIndex>,
    /// The FAT sector that was read last.
    block: Option<FatBlock>,
    /// The FAT sectors that the walk has asked the device for.
    log: ReadLog,
}

impl<'a, D: BlockReader> View for FatChainReader<'a, D> {
    type V = FatWalk;

    closed spec fn view(&self) -> FatWalk {
        FatWalk {
            disk: self.dev@,
            boot: *self.boot,
            contiguous: self.contiguous,
            first: self.first,
            read_next: self.read_next,
        }
    }
}

impl<'a, D: BlockReader> FatChainReader<'a, D> {
    /// The invariant of the reader: the geometry is well formed and the
    /// sector it holds on to is a copy of the disk's.
    pub closed spec fn inv(&self) -> bool {
        &&& self.boot.wf()
        &&& disk_wf(self.dev@)
        &&& (self.block matches Some(block) ==> self.dev@.contains_key(block.sector)
            && block.data@ == self.dev@[block.sector])
    }

    /// What the walk holds of the FAT and what it has asked the device for.
    pub closed spec fn cache(&self) -> FatCache {
        FatCache {
            held: match self.block {
                Some(block) => Some(block.sector),
                None => None,
            },
            reads: self.log@,
        }
    }

    /// The number of FAT sectors that the walk has asked the device for.
    pub fn read_count(&self) -> (r: u64)
        ensures
            r == crate::device::spec_count(self.cache().reads),
    {
        self.log.count()
    }

    /// A walk along the chain that starts at cluster `index`. It holds no
    /// FAT sector and has asked for none.
    pub fn new(boot: &'a BootSectorInfo, dev: &'a D, index: ClusterIndex) -> (r: Self)
        requires
            boot.wf(),
        ensures
            r.inv(),
            r@ == FatWalk::start(dev@, *boot, false, index),
            r.cache() == (FatCache { held: None, reads: Seq::empty() }),
    {
        proof {
            dev.lemma_view_wf();
        }
        FatChainReader {
            boot,
            dev,
            contiguous: false,
            first: Some(index),
            read_next: Some(index),
            block: None,
            log: ReadLog::new(),
        }
    }

    /// Tells the walk whether its chain is known to be allocated
    /// contiguously, so that a free FAT entry leads to the next cluster.
    pub fn set_contiguous(self, contiguous: bool) -> (r: Self)
        requires
            self.inv(),
        ensures
            r.inv(),
            r@ == (FatWalk { contiguous, ..self@ }),
            r.cache() == self.cache(),
    {
        FatChainReader { contiguous, ..self }
    }

    /// True once the walk has stopped: it yields nothing any more.
    pub fn is_stopped(&self) -> (r: bool)
        ensures
            r == (self@.first is None && self@.read_next is None),
    {
        self.first.is_none() && self.read_next.is_none()
    }

    /// Asks the device for a FAT sector.
    fn fetch(dev: &D, sector: u64, log: &mut ReadLog) -> (r: Option<FatBlock>)
        ensures
            r.is_some() == dev@.contains_key(sector),
            r matches Some(block) ==> block.sector == sector && block.data@ == dev@[sector],
            final(log)@ == old(log)@.push(sector),
    {
        match dev.read_sector(sector, log) {
            Some(data) => Some(FatBlock { sector, data }),
            None => None,
        }
    }

    /// Yields the next cluster of the chain.
    ///
    /// `None` ends the sequence. An error ends it too: a bad cluster or an
    /// unreadable FAT sector is an `IoError`, an entry that does not point
    /// forward is `Corruption`.
    ///
    /// The device is asked for the FAT sector of the entry only where the
    /// walk does not hold that sector already.
    pub fn next(&mut self) -> (r: Option<Result<ClusterIndex>>)
        requires
            old(self).inv(),
        ensures
            final(self).inv(),
            (final(self)@, r) == old(self)@.next(),
            final(self).cache() == old(self)@.cache_next(old(self).cache()),
    {
        if let Some(first) = self.first.take() {
            return Some(Ok(first));
        }
        let index: u32 = match self.read_next.take() {
            Some(index) => index,
            None => {
                return None;
            },
        };
        let total_byte_offset: u64 = FAT_ENTRY_SIZE * index as u64;
        let sector: u64 = self.boot.fat1_start_sector + total_byte_offset / SECTOR_SIZE as u64;
        let byte_offset: usize = (total_byte_offset % SECTOR_SIZE as u64) as usize;

        let block = match self.block.take() {
            Some(block) => if block.sector == sector {
                block
            } else {
                match Self::fetch(self.dev, sector, &mut self.log) {
                    Some(block) => block,
                    None => {
                        return Some(Err(Error::IoError));
                    },
                }
            },
            None => match Self::fetch(self.dev, sector, &mut self.log) {
                Some(block) => block,
                None => {
                    return Some(Err(Error::IoError));
                },
            },
        };
        let next: u32 = read_u32_le(block.data.as_slice(), byte_offset);
        self.block = Some(block);

        if next == FAT_ENTRY_FREE {
            if !self.contiguous {
                None
            } else if index < u32::MAX {
                self.read_next = Some(index + 1);
                Some(Ok(index + 1))
            } else {
                Some(Err(Error::Corruption))
            }
        } else if next == FAT_ENTRY_EOF {
            None
        } else if next == FAT_ENTRY_BAD {
            Some(Err(Error::IoError))
        } else if next > index {
            self.read_next = Some(next);
            Some(Ok(next))
        } else {
            Some(Err(Error::Corruption))
        }
    }

    /// Skips `n` clusters of the chain and yields the one after them.
    ///
    /// The first step that yields no cluster ends the skip and is the result.
    pub fn nth(&mut self, n: usize) -> (r: Option<Result<ClusterIndex>>)
        requires
            old(self).inv(),
        ensures
            final(self).inv(),
            (final(self)@, r) == old(self)@.nth(n as nat),
            final(self).cache() == old(self)@.cache_nth(old(self).cache(), n as nat),
    {
        let mut left: usize = n;
        loop
            invariant
                self.inv(),
                left <= n,
                self@.nth(left as nat) == old(self)@.nth(n as nat),
                self@.cache_nth(self.cache(), left as nat) == old(self)@.cache_nth(
                    old(self).cache(),
                    n as nat,
                ),
            decreases left,
        {
            let yielded = self.next();
            if left == 0 {
                return yielded;
            }
            match yielded {
                Some(Ok(_)) => {},
                _ => {
                    return yielded;
                },
            }
            left -= 1;
        }
    }
}

/// The clusters of a chain are strictly increasing: no cluster occurs twice,
/// and a chain cannot run in a cycle.
pub proof fn lemma_chain_strictly_increasing(
    disk: Disk,
    boot: BootSectorInfo,
    contiguous: bool,
    start: u32,
)
    ensures
        forall|i: int, j: int|
            0 <= i < j < chain_clusters(disk, boot, contiguous, start).len() ==> chain_clusters(
                disk,
                boot,
                contiguous,
                start,
            )[i] < chain_clusters(disk, boot, contiguous, start)[j],
    decreases u32::MAX - start,
{
    let chain = chain_clusters(disk, boot, contiguous, start);
    if let FatLink::Next(next) = fat_link(disk, boot, contiguous, start) {
        if next > start {
            lemma_chain_strictly_increasing(disk, boot, contiguous, next);
            let rest = chain_clusters(disk, boot, contiguous, next);
            assert forall|i: int, j: int| 0 <= i < j < chain.len() implies chain[i] < chain[j] by {
                if i == 0 {
                    assert(rest[0] <= rest[j - 1]);
                } else {
                }
            }
        }
    }
}

} // verus!
