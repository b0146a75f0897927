//! The cluster heap: byte streams over the clusters of a chain.

use vstd::prelude::*;
use vstd::arithmetic::div_mod::lemma_fundamental_div_mod_converse;
use crate::device::{disk_wf, spec_count, BlockReader, Disk, ReadLog, SECTOR_SIZE};
use crate::error::{Error, Result};
use crate::fat::{
    chain_clusters, chain_stop, fat_link, stop_error, ClusterIndex, FatChainReader, FatLink,
    FatWalk,
};
use crate::superblock::{BootSectorInfo, NUM_RESERVED_CLUSTERS};
use crate::util::count_oks;

verus! {

/// The first sector of a cluster.
pub open spec fn spec_cluster_to_sector(boot: BootSectorInfo, cluster: u32) -> u64 {
    ((cluster - NUM_RESERVED_CLUSTERS) * boot.sect_per_clus + boot.data_start_sector) as u64
}

/// The first sector of a cluster.
pub fn cluster_to_sector(boot: &BootSectorInfo, cluster: ClusterIndex) -> (r: u64)
    requires
        boot.wf(),
        cluster >= NUM_RESERVED_CLUSTERS,
    ensures
        r == spec_cluster_to_sector(*boot, cluster),
        r + boot.sect_per_clus <= u64::MAX,
{
    assert((cluster - NUM_RESERVED_CLUSTERS) * boot.sect_per_clus <= 0x1_0000_0000 * 0x1_0000)
        by (nonlinear_arith)
        requires
            0 <= cluster - NUM_RESERVED_CLUSTERS <= 0x1_0000_0000,
            0 <= boot.sect_per_clus <= 0x1_0000,
    ;
    (cluster - NUM_RESERVED_CLUSTERS) as u64 * boot.sect_per_clus as u64 + boot.data_start_sector
}

/// A chain of clusters on a disk, seen as one stream of bytes.
pub struct Chain {
    pub disk: Disk,
    pub boot: BootSectorInfo,
    /// True when the chain is known to be allocated contiguously.
    pub contiguous: bool,
    /// The first cluster of the chain.
    pub start: u32,
}

impl Chain {
    /// The clusters of the chain, in order.
    pub open spec fn clusters(self) -> Seq<u32> {
        chain_clusters(self.disk, self.boot, self.contiguous, self.start)
    }

    /// The FAT entry that stops the chain.
    pub open spec fn stop(self) -> FatLink {
        chain_stop(self.disk, self.boot, self.contiguous, self.start)
    }

    /// The length of the stream in bytes.
    pub open spec fn len(self) -> nat {
        self.clusters().len() * self.boot.cluster_size as nat
    }

    /// The sector of the disk that holds the byte at `offset` of the stream.
    pub open spec fn sector_of(self, offset: nat) -> u64 {
        (spec_cluster_to_sector(
            self.boot,
            self.clusters()[offset as int / self.boot.cluster_size as int],
        ) + (offset as int % self.boot.cluster_size as int) / 512) as u64
    }

    /// True when the byte at `offset` of the stream can be read.
    pub open spec fn readable(self, offset: nat) -> bool {
        self.disk.contains_key(self.sector_of(offset))
    }

    /// The byte at `offset` of the stream.
    pub open spec fn byte(self, offset: nat) -> u8 {
        self.disk[self.sector_of(offset)][offset as int % 512]
    }

    /// The bytes of the stream from offset `from` up to offset `to`.
    pub open spec fn bytes(self, from: nat, to: nat) -> Seq<u8> {
        Seq::new((to - from) as nat, |i: int| self.byte((from + i) as nat))
    }

    /// The offset at which the cluster after the one of `offset` begins.
    pub open spec fn next_cluster(self, offset: nat) -> nat {
        ((offset / self.boot.cluster_size as nat + 1) * self.boot.cluster_size) as nat
    }

    /// What reaching the end of the stream is reported as.
    pub open spec fn end_result(self) -> Result<()> {
        match stop_error(self.stop()) {
            Some(e) => Err(e),
            None => Ok(()),
        }
    }
}

/// A position in the stream of a chain.
pub struct ChainPos {
    pub chain: Chain,
    /// The number of bytes of the stream that lie behind the position.
    pub offset: nat,
    /// True once the end of the chain was reached and reported.
    pub exhausted: bool,
}

impl ChainPos {
    /// The position at the start of a chain.
    pub open spec fn start(chain: Chain) -> ChainPos {
        ChainPos { chain, offset: 0, exhausted: false }
    }

    /// The number of bytes that a read into a buffer of `len` bytes copies:
    /// as many as the sector at the position still holds, and `len` at most.
    pub open spec fn read_len(self, len: nat) -> nat {
        if len <= 512 - self.offset % 512 {
            len
        } else {
            (512 - self.offset % 512) as nat
        }
    }

    /// A read into a buffer of `len` bytes: the position after it and the
    /// number of bytes it copies.
    ///
    /// At the end of the chain it reports how the chain stopped, once. An
    /// unreadable sector is an `IoError`, and the stream goes on with the
    /// next cluster.
    pub open spec fn read(self, len: nat) -> (ChainPos, Result<usize>) {
        if self.exhausted {
            (self, Ok(0))
        } else if self.offset >= self.chain.len() {
            (
                ChainPos { exhausted: true, ..self },
                match self.chain.end_result() {
                    Err(e) => Err(e),
                    Ok(_) => Ok(0),
                },
            )
        } else if !self.chain.readable(self.offset) {
            (ChainPos { offset: self.chain.next_cluster(self.offset), ..self }, Err(Error::IoError))
        } else {
            (
                ChainPos { offset: self.offset + self.read_len(len), ..self },
                Ok(self.read_len(len) as usize),
            )
        }
    }

    /// Skipping `n` bytes: the position after it and what is reported.
    ///
    /// The sector at the new position is fetched, so an unreadable one is
    /// reported here. A skip to the end of the chain or beyond it reports
    /// how the chain stopped.
    pub open spec fn skip(self, n: nat) -> (ChainPos, Result<()>) {
        if self.exhausted {
            (self, Ok(()))
        } else if self.offset + n >= self.chain.len() {
            (ChainPos { offset: self.chain.len(), exhausted: true, ..self }, self.chain.end_result())
        } else if !self.chain.readable(self.offset + n) {
            (
                ChainPos { offset: self.chain.next_cluster(self.offset + n), ..self },
                Err(Error::IoError),
            )
        } else {
            (ChainPos { offset: self.offset + n, ..self }, Ok(()))
        }
    }

    /// The cluster at the position, where there is one.
    pub open spec fn index(self) -> (ChainPos, Result<Option<u32>>) {
        if self.exhausted {
            (self, Ok(None))
        } else if self.offset >= self.chain.len() {
            (
                ChainPos { exhausted: true, ..self },
                match self.chain.end_result() {
                    Err(e) => Err(e),
                    Ok(_) => Ok(None),
                },
            )
        } else {
            (
                self,
                Ok(Some(self.chain.clusters()[self.offset as int / self.chain.boot.cluster_size as int])),
            )
        }
    }

    /// Filling a buffer of `len` bytes by reads: the position after it and
    /// what is reported. A read of no bytes before the buffer is full is an
    /// `IoError`.
    pub open spec fn read_exact(self, len: nat) -> (ChainPos, Result<()>)
        decreases len,
    {
        let (after, r) = self.read(len);
        match r {
            Err(e) => (after, Err(e)),
            Ok(n) => if n == 0 {
                (after, Err(Error::IoError))
            } else if n >= len {
                (after, Ok(()))
            } else {
                after.read_exact((len - n) as nat)
            },
        }
    }

    /// The number of bytes that filling a buffer of `len` bytes by reads
    /// copies: all of them where it succeeds, and else those before the read
    /// that failed or read nothing.
    pub open spec fn read_exact_len(self, len: nat) -> nat
        decreases len,
    {
        let (after, r) = self.read(len);
        match r {
            Err(e) => 0,
            Ok(n) => if n == 0 {
                0
            } else if n >= len {
                len
            } else {
                n as nat + after.read_exact_len((len - n) as nat)
            },
        }
    }

    /// Reading and discarding `n` bytes, `chunk` bytes at a time at most: the
    /// position after it. It ends early where a read fails or reads nothing.
    pub open spec fn discard(self, n: nat, chunk: nat) -> ChainPos
        decreases n,
    {
        if n == 0 || chunk == 0 {
            self
        } else {
            let (after, r) = self.read(if n < chunk {
                n
            } else {
                chunk
            });
            match r {
                Ok(m) => if 0 < m <= n {
                    after.discard((n - m) as nat, chunk)
                } else {
                    after
                },
                Err(_) => after,
            }
        }
    }

    /// The invariant of a position: it lies within its chain, and at the end
    /// of it once the chain is exhausted.
    pub open spec fn wf(self) -> bool {
        &&& self.chain.boot.wf()
        &&& self.offset <= self.chain.len()
        &&& (self.exhausted ==> self.offset == self.chain.len())
    }

    /// True when `len` bytes can be read from the position on: they lie
    /// within the chain and in sectors that can be read.
    pub open spec fn can_read(self, len: nat) -> bool {
        &&& !self.exhausted
        &&& self.offset + len <= self.chain.len()
        &&& forall|o: nat| self.offset <= o < self.offset + len ==> self.chain.readable(o)
    }

    /// The sectors that a read at the position asks of the device: the
    /// sector of the position, unless the stream holds it already or the
    /// position lies at the end of the chain.
    pub open spec fn read_fetches(self, held: bool) -> Seq<u64> {
        if held || self.exhausted || self.offset >= self.chain.len() {
            Seq::empty()
        } else {
            seq![self.chain.sector_of(self.offset)]
        }
    }

    /// True when a read into a buffer of `len` bytes leaves the stream with
    /// the sector of its position in hand: the read succeeds and leaves
    /// bytes of that sector unread.
    pub open spec fn read_holds(self, len: nat) -> bool {
        &&& !self.exhausted
        &&& self.offset < self.chain.len()
        &&& self.chain.readable(self.offset)
        &&& self.offset % 512 + self.read_len(len) < 512
    }

    /// The sectors that filling a buffer of `len` bytes by reads asks of the
    /// device, in order: each sector once, the first one only where the
    /// stream does not hold it, and none behind a read that fails.
    pub open spec fn read_exact_fetches(self, held: bool, len: nat) -> Seq<u64>
        decreases len,
    {
        let (after, r) = self.read(len);
        match r {
            Ok(n) => if 0 < n && n < len {
                self.read_fetches(held) + after.read_exact_fetches(false, (len - n) as nat)
            } else {
                self.read_fetches(held)
            },
            Err(_) => self.read_fetches(held),
        }
    }

    /// True when filling a buffer of `len` bytes by reads leaves the stream
    /// with the sector of its position in hand.
    pub open spec fn read_exact_holds(self, len: nat) -> bool
        decreases len,
    {
        let (after, r) = self.read(len);
        match r {
            Ok(n) => if 0 < n && n < len {
                after.read_exact_holds((len - n) as nat)
            } else {
                self.read_holds(len)
            },
            Err(_) => false,
        }
    }

    /// The sectors that skipping `n` bytes asks of the device: the sector of
    /// the new position, unless the stream holds it already or the new
    /// position lies at the end of the chain. No sector between the two
    /// positions is asked for.
    pub open spec fn skip_fetches(self, held: bool, n: nat) -> Seq<u64> {
        if self.exhausted || self.offset + n >= self.chain.len() || (held && (self.offset + n) / 512
            == self.offset / 512) {
            Seq::empty()
        } else {
            seq![self.chain.sector_of(self.offset + n)]
        }
    }

    /// True when skipping `n` bytes leaves the stream with the sector of
    /// its position in hand: the new position lies in a sector that was
    /// read.
    pub open spec fn skip_holds(self, n: nat) -> bool {
        &&& !self.exhausted
        &&& self.offset + n < self.chain.len()
        &&& self.chain.readable(self.offset + n)
    }
}

/// The link behind each cluster of a chain: the next cluster of the chain,
/// and behind the last one the entry that stops the chain.
pub proof fn lemma_chain_link(disk: Disk, boot: BootSectorInfo, contiguous: bool, start: u32, k: int)
    requires
        0 <= k < chain_clusters(disk, boot, contiguous, start).len(),
    ensures
        fat_link(disk, boot, contiguous, chain_clusters(disk, boot, contiguous, start)[k]) == (if k
            + 1 < chain_clusters(disk, boot, contiguous, start).len() {
            FatLink::Next(chain_clusters(disk, boot, contiguous, start)[k + 1])
        } else {
            chain_stop(disk, boot, contiguous, start)
        }),
        !(chain_stop(disk, boot, contiguous, start) is Next),
        chain_clusters(disk, boot, contiguous, start)[k] >= start,
    decreases k,
{
    lemma_stop_is_no_link(disk, boot, contiguous, start);
    if let FatLink::Next(next) = fat_link(disk, boot, contiguous, start) {
        assert(next > start);
        if k > 0 {
            lemma_chain_link(disk, boot, contiguous, next, k - 1);
        }
    } else {
    }
}

proof fn lemma_stop_is_no_link(disk: Disk, boot: BootSectorInfo, contiguous: bool, start: u32)
    ensures
        !(chain_stop(disk, boot, contiguous, start) is Next),
    decreases u32::MAX - start,
{
    if let FatLink::Next(next) = fat_link(disk, boot, contiguous, start) {
        if next > start {
            lemma_stop_is_no_link(disk, boot, contiguous, next);
        }
    }
}

/// The walk along a chain that has yielded `taken` clusters of it.
pub open spec fn walk_after(chain: Chain, taken: nat) -> FatWalk {
    if taken == 0 {
        FatWalk::start(chain.disk, chain.boot, chain.contiguous, chain.start)
    } else {
        FatWalk::at(chain.disk, chain.boot, chain.contiguous, chain.clusters()[taken - 1])
    }
}

/// What a walk yields when it finds the stop of its chain.
pub open spec fn stop_yield(chain: Chain) -> Option<Result<u32>> {
    match stop_error(chain.stop()) {
        Some(e) => Some(Err(e)),
        None => None,
    }
}

/// A walk that has yielded `taken` clusters yields, `n` clusters further,
/// the cluster with number `taken + n` of the chain, or finds the stop.
pub proof fn lemma_walk_nth(chain: Chain, taken: nat, n: nat)
    requires
        taken <= chain.clusters().len(),
    ensures
        taken + n < chain.clusters().len() ==> walk_after(chain, taken).nth(n) == (
            walk_after(chain, taken + n + 1),
            Some(Ok::<u32, Error>(chain.clusters()[taken as int + n as int])),
        ),
        taken + n >= chain.clusters().len() ==> walk_after(chain, taken).nth(n) == (
            FatWalk::stopped(chain.disk, chain.boot, chain.contiguous),
            stop_yield(chain),
        ),
    decreases n,
{
    if taken > 0 {
        lemma_chain_link(chain.disk, chain.boot, chain.contiguous, chain.start, taken - 1);
    }
    if taken < chain.clusters().len() && n > 0 {
        lemma_walk_nth(chain, taken + 1, (n - 1) as nat);
    }
}


/// The parts of an offset: the cluster it lies in, the sector within the
/// cluster, and the byte within the sector.
pub proof fn lemma_offset_parts(boot: BootSectorInfo, k: nat, sector: nat, byte: nat)
    requires
        boot.wf(),
        sector < boot.sect_per_clus,
        byte < 512,
    ensures
        (k * boot.cluster_size + sector * 512 + byte) / boot.cluster_size as int == k,
        ((k * boot.cluster_size + sector * 512 + byte) % boot.cluster_size as int) / 512 == sector,
        (k * boot.cluster_size + sector * 512 + byte) % 512 == byte,
        (k * boot.cluster_size + sector * 512 + byte) % boot.cluster_size as int == sector * 512
            + byte,
        k * boot.cluster_size + sector * 512 + byte < (k + 1) * boot.cluster_size,
{
    let cs = boot.cluster_size as int;
    let within = (sector * 512 + byte) as int;
    let o = k * cs + within;
    assert((k + 1) * cs == k * cs + cs) by (nonlinear_arith);
    lemma_fundamental_div_mod_converse(o, cs, k as int, within);
    assert(k * cs == (k * boot.sect_per_clus) * 512) by (nonlinear_arith)
        requires
            cs == boot.sect_per_clus * 512,
    ;
}

/// The clusters before the end of a chain lie before its length.
pub proof fn lemma_cluster_within(chain: Chain, k: nat)
    requires
        k <= chain.clusters().len(),
    ensures
        k * chain.boot.cluster_size <= chain.len(),
        k < chain.clusters().len() ==> (k + 1) * chain.boot.cluster_size <= chain.len(),
        k < chain.clusters().len() ==> k * chain.boot.cluster_size + chain.boot.cluster_size
            <= chain.len(),
{
    let n = chain.clusters().len();
    let cs = chain.boot.cluster_size as int;
    assert(k * cs <= n * cs) by (nonlinear_arith)
        requires
            k <= n,
            cs >= 0,
    ;
    if k < n {
        assert((k + 1) * cs <= n * cs) by (nonlinear_arith)
            requires
                k + 1 <= n,
                cs >= 0,
        ;
        assert((k + 1) * cs == k * cs + cs) by (nonlinear_arith);
    }
}

/// Two offsets in one sector-sized block of a stream lie in one sector of
/// the disk, and before the end of the chain together.
pub proof fn lemma_same_sector(chain: Chain, a: nat, b: nat)
    requires
        chain.boot.wf(),
        a / 512 == b / 512,
    ensures
        chain.sector_of(a) == chain.sector_of(b),
        a < chain.len() <==> b < chain.len(),
{
    let spc = chain.boot.sect_per_clus as int;
    let cs = chain.boot.cluster_size as int;
    let count = chain.clusters().len() as int;
    vstd::arithmetic::div_mod::lemma_div_denominator(a as int, 512, spc);
    vstd::arithmetic::div_mod::lemma_div_denominator(b as int, 512, spc);
    vstd::arithmetic::div_mod::lemma_breakdown(a as int, 512, spc);
    vstd::arithmetic::div_mod::lemma_breakdown(b as int, 512, spc);
    let block = a as int / 512;
    vstd::arithmetic::div_mod::lemma_mod_bound(block, spc);
    lemma_fundamental_div_mod_converse(a as int % cs, 512, block % spc, a as int % 512);
    lemma_fundamental_div_mod_converse(b as int % cs, 512, block % spc, b as int % 512);
    assert(count * cs == (count * spc) * 512) by (nonlinear_arith)
        requires
            cs == spc * 512,
    ;
}

/// Filling a buffer succeeds exactly when the buffer is not empty and its
/// length can be read, and then leaves the position behind what it read.
pub proof fn lemma_read_exact(pos: ChainPos, len: nat)
    requires
        pos.wf(),
    ensures
        pos.read_exact(len).1 is Ok <==> len > 0 && pos.can_read(len),
        pos.read_exact(len).1 is Ok ==> pos.read_exact(len).0 == (ChainPos {
            offset: pos.offset + len,
            ..pos
        }),
        pos.read_exact(len).0.wf(),
    decreases len,
{
    let chain = pos.chain;
    if pos.exhausted {
    } else if pos.offset >= chain.len() {
    } else if !chain.readable(pos.offset) {
        lemma_next_cluster_within(chain, pos.offset);
    } else {
        let n = pos.read_len(len);
        let after = ChainPos { offset: pos.offset + n, ..pos };
        if n > 0 {
            let last = (pos.offset + n - 1) as nat;
            lemma_same_sector(chain, pos.offset, last);
            assert forall|o: nat| pos.offset <= o < pos.offset + n implies chain.readable(o) by {
                lemma_same_sector(chain, pos.offset, o);
            }
            if n < len {
                lemma_read_exact(after, (len - n) as nat);
            }
        }
    }
}

/// The cluster after the one of an offset begins within the chain.
pub proof fn lemma_next_cluster_within(chain: Chain, offset: nat)
    requires
        chain.boot.wf(),
        offset < chain.len(),
    ensures
        offset < chain.next_cluster(offset) <= chain.len(),
{
    let cs = chain.boot.cluster_size as int;
    let k = offset as int / cs;
    let count = chain.clusters().len() as int;
    vstd::arithmetic::div_mod::lemma_fundamental_div_mod(offset as int, cs);
    vstd::arithmetic::div_mod::lemma_mod_bound(offset as int, cs);
    assert((k + 1) * cs == cs * k + cs) by (nonlinear_arith);
    assert(k < count) by (nonlinear_arith)
        requires
            cs * k <= offset,
            offset < count * cs,
            cs > 0,
    ;
    assert((k + 1) * cs <= count * cs) by (nonlinear_arith)
        requires
            k + 1 <= count,
            cs >= 0,
    ;
}

/// Reading and discarding bytes that can be read leaves the position
/// behind them.
pub proof fn lemma_discard(pos: ChainPos, n: nat, chunk: nat)
    requires
        pos.wf(),
        chunk > 0,
        pos.can_read(n),
    ensures
        pos.discard(n, chunk) == (ChainPos { offset: pos.offset + n, ..pos }),
    decreases n,
{
    if n > 0 {
        let want = if n < chunk {
            n
        } else {
            chunk
        };
        let m = pos.read_len(want);
        let after = ChainPos { offset: pos.offset + m, ..pos };
        lemma_discard(after, (n - m) as nat, chunk);
    }
}

/// A skip leads where reading and discarding the same number of bytes
/// leads: the read that follows finds the same bytes, reports the same and
/// leaves the same position.
///
/// This holds for a skip within the chain to a sector that can be read, and
/// for a skip to the very end of a chain that ends properly.
pub proof fn lemma_skip_is_read_and_discard(pos: ChainPos, n: nat, chunk: nat, len: nat)
    requires
        pos.wf(),
        chunk > 0,
        pos.can_read(n),
        pos.offset + n < pos.chain.len() ==> pos.chain.readable(pos.offset + n),
        pos.offset + n == pos.chain.len() ==> pos.chain.stop() is End,
    ensures
        pos.skip(n).1 is Ok,
        pos.skip(n).0.read(len) == pos.discard(n, chunk).read(len),
        pos.offset + n < pos.chain.len() ==> pos.skip(n).0 == pos.discard(n, chunk),
{
    lemma_discard(pos, n, chunk);
}

/// The sector of a cluster that a stream holds on to.
struct Sector {
    /// The sector data.
    data: Vec<u8>,
    /// The current byte within the sector.
    byte_cursor: usize,
}

/// The cluster that a stream is reading.
struct Cluster {
    /// The index of the cluster.
    index: ClusterIndex,
    /// The current relative sector within the cluster.
    sector_index: u64,
    /// The current sector.
    sector: Option<Sector>,
}

impl Cluster {
    /// The current byte within the current sector.
    spec fn cursor(self) -> nat {
        match self.sector {
            Some(s) => s.byte_cursor as nat,
            None => 0,
        }
    }
}

/// The sector of the disk that is the current one of a cluster.
spec fn spec_sector_number(boot: BootSectorInfo, c: Cluster) -> u64 {
    (spec_cluster_to_sector(boot, c.index) + c.sector_index) as u64
}

/// A stream of bytes over the clusters of a chain.
pub struct ClusterChain<'a, D: BlockReader> {
    boot: &'a BootSectorInfo,
    dev: &'a D,
    /// The cluster index for the start of the chain.
    start_cluster: ClusterIndex,
    fat_reader: FatChainReader<'a, D>,
    /// The current cluster.
    cluster: Option<Cluster>,
    /// True when the block reader is asked to read ahead.
    readahead: bool,
    /// The number of clusters that the walk has yielded.
    taken: Ghost<nat>,
    /// The sectors of the cluster heap that the stream has asked for.
    log: ReadLog,
}

impl<'a, D: BlockReader> View for ClusterChain<'a, D> {
    type V = ChainPos;

    closed spec fn view(&self) -> ChainPos {
        ChainPos {
            chain: self.chain(),
            offset: self.offset_with(self.cluster),
            exhausted: self.fat_reader@.first is None && self.fat_reader@.read_next is None,
        }
    }
}

impl<'a, D: BlockReader> ClusterChain<'a, D> {
    /// The chain that the stream reads.
    pub closed spec fn chain(&self) -> Chain {
        Chain {
            disk: self.dev@,
            boot: *self.boot,
            contiguous: self.fat_reader@.contiguous,
            start: self.start_cluster,
        }
    }

    /// True when the stream asks the block reader to read ahead.
    pub closed spec fn spec_readahead(&self) -> bool {
        self.readahead
    }

    /// The sectors of the cluster heap that the stream has asked the device
    /// for, in order. The sectors of the FAT are not among them.
    pub closed spec fn data_reads(&self) -> Seq<u64> {
        self.log@
    }

    /// True when the stream has the sector of its position in hand: a read
    /// then takes its bytes from there.
    pub closed spec fn holds(&self) -> bool {
        self.cluster matches Some(c) && c.sector is Some
    }

    spec fn sector_number(&self, c: Cluster) -> u64 {
        spec_sector_number(*self.boot, c)
    }

    spec fn offset_with(&self, cluster: Option<Cluster>) -> nat {
        match cluster {
            Some(c) => ((self.taken@ - 1) * self.boot.cluster_size + c.sector_index * 512
                + c.cursor()) as nat,
            None => self.taken@ * self.boot.cluster_size as nat,
        }
    }

    spec fn cluster_wf(&self, c: Cluster) -> bool {
        &&& self.taken@ >= 1
        &&& c.index == self.chain().clusters()[self.taken@ - 1]
        &&& c.sector_index < self.boot.sect_per_clus
        &&& (c.sector matches Some(s) ==> s.byte_cursor < SECTOR_SIZE && self.dev@.contains_key(
            self.sector_number(c),
        ) && s.data@ == self.dev@[self.sector_number(c)])
    }

    spec fn walker_wf(&self) -> bool {
        &&& self.boot.wf()
        &&& disk_wf(self.dev@)
        &&& self.start_cluster >= NUM_RESERVED_CLUSTERS
        &&& self.fat_reader.inv()
        &&& self.fat_reader@.disk == self.dev@
        &&& self.fat_reader@.boot == *self.boot
        &&& self.taken@ <= self.chain().clusters().len()
    }

    /// The invariant of the stream: its walk and the sector it holds on to
    /// agree with the disk and with its position.
    pub closed spec fn inv(&self) -> bool {
        &&& self.walker_wf()
        &&& (self.fat_reader@ == walk_after(self.chain(), self.taken@) || (self.fat_reader@
            == FatWalk::stopped(self.dev@, *self.boot, self.fat_reader@.contiguous)
            && self.cluster is None && self.taken@ == self.chain().clusters().len()))
        &&& (self.cluster matches Some(c) ==> self.cluster_wf(c))
    }

    /// A stream over the chain that starts at cluster `index`.
    ///
    /// A start outside the cluster heap is `Corruption`.
    pub fn new(boot: &'a BootSectorInfo, dev: &'a D, index: ClusterIndex) -> (r: Result<Self>)
        requires
            boot.wf(),
        ensures
            r is Ok <==> NUM_RESERVED_CLUSTERS <= index < boot.num_clusters,
            r matches Ok(chain) ==> chain.inv() && !chain.spec_readahead() && chain@
                == ChainPos::start(Chain { disk: dev@, boot: *boot, contiguous: false, start: index }),
            r matches Ok(chain) ==> !chain.holds() && chain.data_reads() == Seq::<u64>::empty(),
            r matches Err(e) ==> e == Error::Corruption,
    {
        let cluster_count = boot.cluster_count();
        let cluster_end: u64 = cluster_count as u64 + NUM_RESERVED_CLUSTERS as u64;
        if index < NUM_RESERVED_CLUSTERS || index as u64 >= cluster_end {
            return Err(Error::Corruption);
        }
        proof {
            dev.lemma_view_wf();
        }
        Ok(
            ClusterChain {
                start_cluster: index,
                fat_reader: FatChainReader::new(boot, dev, index),
                cluster: None,
                boot,
                dev,
                readahead: false,
                taken: Ghost(0),
                log: ReadLog::new(),
            },
        )
    }

    /// Asks the block reader to read ahead of the stream.
    pub fn enable_readahead(self) -> (r: Self)
        requires
            self.inv(),
        ensures
            r.inv(),
            r@ == self@,
            r.spec_readahead(),
            r.holds() == self.holds(),
            r.data_reads() == self.data_reads(),
    {
        ClusterChain { readahead: true, ..self }
    }

    /// The number of sectors of the cluster heap that the stream has asked
    /// the device for.
    pub fn read_count(&self) -> (r: u64)
        ensures
            r == spec_count(self.data_reads()),
    {
        self.log.count()
    }

    /// Get the cluster index of the start of the chain.
    pub fn start_cluster(&self) -> (r: ClusterIndex)
        ensures
            r == self@.chain.start,
    {
        self.start_cluster
    }

    fn take_cluster(&mut self) -> (r: Result<Option<Cluster>>)
        requires
            old(self).inv(),
        ensures
            final(self).inv(),
            final(self).cluster is None,
            final(self).chain() == old(self).chain(),
            final(self).boot == old(self).boot,
            final(self).dev == old(self).dev,
            final(self).readahead == old(self).readahead,
            final(self).log@ == old(self).log@,
            old(self).holds() ==> r is Ok && r->Ok_0 is Some,
            match r {
                Ok(Some(c)) => {
                    &&& final(self).cluster_wf(c)
                    &&& c.sector is Some == old(self).holds()
                    &&& final(self).offset_with(Some(c)) == old(self)@.offset
                    &&& !old(self)@.exhausted
                    &&& old(self)@.offset < old(self)@.chain.len()
                    &&& !final(self)@.exhausted
                },
                Ok(None) => old(self)@.index() == (final(self)@, Ok::<Option<u32>, Error>(None)),
                Err(e) => old(self)@.index() == (final(self)@, Err::<Option<u32>, Error>(e)),
            },
    {
        proof {
            lemma_walk_nth(self.chain(), self.taken@, 0);
            lemma_cluster_within(self.chain(), self.taken@);
        }
        match self.cluster.take() {
            Some(cluster) => {
                proof {
                    lemma_offset_parts(
                        *self.boot,
                        (self.taken@ - 1) as nat,
                        cluster.sector_index as nat,
                        cluster.cursor(),
                    );
                    lemma_cluster_within(self.chain(), (self.taken@ - 1) as nat);
                }
                Ok(Some(cluster))
            },
            None => match self.fat_reader.next() {
                Some(Ok(index)) => {
                    proof {
                        self.taken@ = self.taken@ + 1;
                    }
                    Ok(Some(Cluster { index, sector_index: 0, sector: None }))
                },
                Some(Err(e)) => Err(e),
                None => Ok(None),
            },
        }
    }

    proof fn lemma_cluster_offset(&self, c: Cluster, byte: nat)
        requires
            self.walker_wf(),
            self.cluster_wf(c),
            byte < 512,
        ensures
            ({
                let o = ((self.taken@ - 1) * self.boot.cluster_size + c.sector_index * 512
                    + byte) as nat;
                &&& o < self.chain().len()
                &&& o / self.boot.cluster_size as nat == self.taken@ - 1
                &&& o % 512 == byte
                &&& self.chain().sector_of(o) == self.sector_number(c)
                &&& self.chain().next_cluster(o) == self.taken@ * self.boot.cluster_size
                &&& self.chain().byte(o) == self.dev@[self.sector_number(c)][byte as int]
                &&& c.index >= NUM_RESERVED_CLUSTERS
            }),
    {
        lemma_offset_parts(*self.boot, (self.taken@ - 1) as nat, c.sector_index as nat, byte);
        lemma_cluster_within(self.chain(), (self.taken@ - 1) as nat);
        lemma_chain_link(
            self.dev@,
            *self.boot,
            self.fat_reader@.contiguous,
            self.start_cluster,
            self.taken@ - 1,
        );
    }

    /// Hands out the current sector of `cluster`, fetched unless the cluster
    /// holds it already. `None` when the sector cannot be read.
    fn open_sector(
        boot: &BootSectorInfo,
        dev: &D,
        readahead: bool,
        cluster: Cluster,
        log: &mut ReadLog,
    ) -> (r: Option<(Cluster, Sector)>)
        requires
            boot.wf(),
            cluster.index >= NUM_RESERVED_CLUSTERS,
            cluster.sector_index < boot.sect_per_clus,
            cluster.sector matches Some(s) ==> dev@.contains_key(spec_sector_number(*boot, cluster))
                && s.data@ == dev@[spec_sector_number(*boot, cluster)],
        ensures
            r.is_some() == dev@.contains_key(spec_sector_number(*boot, cluster)),
            r matches Some((c, s)) ==> {
                &&& c.index == cluster.index
                &&& c.sector_index == cluster.sector_index
                &&& c.sector is None
                &&& s.byte_cursor == cluster.cursor()
                &&& s.data@ == dev@[spec_sector_number(*boot, cluster)]
            },
            final(log)@ == (if cluster.sector is Some {
                old(log)@
            } else {
                old(log)@.push(spec_sector_number(*boot, cluster))
            }),
    {
        let Cluster { index, sector_index, sector } = cluster;
        match sector {
            Some(sector) => Some((Cluster { index, sector_index, sector: None }, sector)),
            None => {
                let number: u64 = cluster_to_sector(boot, index) + sector_index;
                match dev.read_sector(number, log) {
                    None => None,
                    Some(data) => {
                        if readahead {
                            dev.readahead(number);
                        }
                        Some((Cluster { index, sector_index, sector: None }, Sector { data, byte_cursor: 0 }))
                    },
                }
            },
        }
    }

    /// Get the current cluster index.
    ///
    /// Might result in reading the next FAT entry: at the end of the chain
    /// this reports how the chain stopped.
    pub fn index(&mut self) -> (r: Result<Option<ClusterIndex>>)
        requires
            old(self).inv(),
        ensures
            final(self).inv(),
            final(self).spec_readahead() == old(self).spec_readahead(),
            (final(self)@, r) == old(self)@.index(),
            final(self).holds() == old(self).holds(),
            final(self).data_reads() == old(self).data_reads(),
    {
        match self.take_cluster() {
            Ok(Some(cluster)) => {
                proof {
                    self.lemma_cluster_offset(cluster, cluster.cursor());
                }
                let index = cluster.index;
                self.cluster = Some(cluster);
                Ok(Some(index))
            },
            Ok(None) => Ok(None),
            Err(e) => Err(e),
        }
    }

    /// Reads into `buf` from offset `at` of the buffer on.
    fn read_at(&mut self, buf: &mut [u8], at: usize) -> (r: Result<usize>)
        requires
            old(self).inv(),
            at <= old(buf)@.len(),
        ensures
            final(self).inv(),
            final(self).spec_readahead() == old(self).spec_readahead(),
            final(buf)@.len() == old(buf)@.len(),
            (final(self)@, r) == old(self)@.read((old(buf)@.len() - at) as nat),
            r matches Ok(n) ==> final(buf)@ == old(buf)@.take(at as int) + old(self)@.chain.bytes(
                old(self)@.offset,
                old(self)@.offset + n as nat,
            ) + old(buf)@.skip(at + n),
            r is Err ==> final(buf)@ == old(buf)@,
            final(self).holds() == old(self)@.read_holds((old(buf)@.len() - at) as nat),
            final(self).data_reads() == old(self).data_reads() + old(self)@.read_fetches(
                old(self).holds(),
            ),
    {
        let cluster = match self.take_cluster() {
            Ok(Some(cluster)) => cluster,
            Ok(None) => {
                return Ok(0);
            },
            Err(e) => {
                return Err(e);
            },
        };
        let ghost offset = old(self)@.offset;
        let ghost chain = self.chain();
        proof {
            self.lemma_cluster_offset(cluster, cluster.cursor());
        }
        let opened = Self::open_sector(self.boot, self.dev, self.readahead, cluster, &mut self.log);
        let (mut cluster, mut sector) = match opened {
            Some(opened) => opened,
            None => {
                return Err(Error::IoError);
            },
        };
        let start: usize = sector.byte_cursor;
        let available: usize = SECTOR_SIZE - start;
        let wanted: usize = buf.len() - at;
        let write_len: usize = if wanted < available {
            wanted
        } else {
            available
        };
        let mut i: usize = 0;
        while i < write_len
            invariant
                i <= write_len,
                start + write_len <= SECTOR_SIZE,
                at + write_len <= buf@.len(),
                at + write_len <= usize::MAX,
                buf@.len() == old(buf)@.len(),
                sector.data@.len() == SECTOR_SIZE,
                forall|j: int|
                    0 <= j < buf@.len() ==> buf@[j] == (if at <= j < at + i {
                        sector.data@[start + j - at]
                    } else {
                        old(buf)@[j]
                    }),
            decreases write_len - i,
        {
            buf[at + i] = sector.data[start + i];
            i += 1;
        }
        proof {
            assert forall|j: int| 0 <= j < write_len implies #[trigger] chain.bytes(
                offset,
                offset + write_len as nat,
            )[j] == sector.data@[start + j] by {
                self.lemma_cluster_offset(cluster, (start + j) as nat);
            }
        }
        sector.byte_cursor = start + write_len;
        if sector.byte_cursor < SECTOR_SIZE {
            cluster.sector = Some(sector);
            self.cluster = Some(cluster);
        } else {
            cluster.sector_index = cluster.sector_index + 1;
            if cluster.sector_index < self.boot.sect_per_clus as u64 {
                self.cluster = Some(cluster);
            } else {
                assert(self.taken@ * self.boot.cluster_size == (self.taken@ - 1)
                    * self.boot.cluster_size + self.boot.sect_per_clus * 512) by (nonlinear_arith)
                    requires
                        self.boot.cluster_size == self.boot.sect_per_clus * 512,
                ;
            }
        }
        Ok(write_len)
    }

    /// Read some amount of bytes from the cluster chain into `buf`: as many
    /// as the current sector still holds, and the length of `buf` at most.
    /// The sector is asked of the device unless the stream has it in hand.
    ///
    /// Returns the number of bytes read, or `0` if everything has been read.
    pub fn read(&mut self, buf: &mut [u8]) -> (r: Result<usize>)
        requires
            old(self).inv(),
        ensures
            final(self).inv(),
            final(self).spec_readahead() == old(self).spec_readahead(),
            final(buf)@.len() == old(buf)@.len(),
            (final(self)@, r) == old(self)@.read(old(buf)@.len()),
            r matches Ok(n) ==> final(buf)@ == old(self)@.chain.bytes(
                old(self)@.offset,
                old(self)@.offset + n as nat,
            ) + old(buf)@.skip(n as int),
            r is Err ==> final(buf)@ == old(buf)@,
            final(self).holds() == old(self)@.read_holds(old(buf)@.len()),
            final(self).data_reads() == old(self).data_reads() + old(self)@.read_fetches(
                old(self).holds(),
            ),
    {
        self.read_at(buf, 0)
    }

    /// The position of a stream is well formed.
    pub proof fn lemma_pos_wf(&self)
        requires
            self.inv(),
        ensures
            self@.wf(),
    {
        lemma_cluster_within(self.chain(), self.taken@);
        if let Some(c) = self.cluster {
            self.lemma_cluster_offset(c, c.cursor());
        }
    }

    /// Read the exact amount of bytes to fill `buf`.
    ///
    /// This succeeds when `buf` is not empty and as many bytes as it holds
    /// lie before the end of the chain, in sectors that can be read. A chain
    /// that ends early is an `IoError`, unless it stops at a FAT entry that
    /// is reported as `Corruption`.
    pub fn read_exact(&mut self, buf: &mut [u8]) -> (r: Result<()>)
        requires
            old(self).inv(),
        ensures
            final(self).inv(),
            final(self).spec_readahead() == old(self).spec_readahead(),
            final(buf)@.len() == old(buf)@.len(),
            (final(self)@, r) == old(self)@.read_exact(old(buf)@.len()),
            r is Ok <==> old(buf)@.len() > 0 && old(self)@.can_read(old(buf)@.len()),
            r is Ok ==> final(self)@ == (ChainPos {
                offset: old(self)@.offset + old(buf)@.len(),
                ..old(self)@
            }),
            final(buf)@ == old(self)@.chain.bytes(
                old(self)@.offset,
                old(self)@.offset + old(self)@.read_exact_len(old(buf)@.len()),
            ) + old(buf)@.skip(old(self)@.read_exact_len(old(buf)@.len()) as int),
            r is Ok ==> final(buf)@ == old(self)@.chain.bytes(
                old(self)@.offset,
                old(self)@.offset + old(buf)@.len(),
            ),
            final(self).holds() == old(self)@.read_exact_holds(old(buf)@.len()),
            final(self).data_reads() == old(self).data_reads() + old(self)@.read_exact_fetches(
                old(self).holds(),
                old(buf)@.len(),
            ),
    {
        let ghost start = self@;
        let ghost len = buf@.len();
        proof {
            self.lemma_pos_wf();
            lemma_read_exact(start, len);
        }
        let mut at: usize = 0;
        loop
            invariant
                self.inv(),
                self.spec_readahead() == old(self).spec_readahead(),
                start == old(self)@,
                len == old(buf)@.len(),
                start.wf(),
                start.read_exact(len).1 is Ok <==> len > 0 && start.can_read(len),
                start.read_exact(len).1 is Ok ==> start.read_exact(len).0 == (ChainPos {
                    offset: start.offset + len,
                    ..start
                }),
                buf@.len() == len,
                at <= len,
                at == 0 ==> self@ == start,
                at > 0 ==> at < len && self@ == (ChainPos { offset: start.offset + at as nat, ..start }),
                self@.read_exact((len - at) as nat) == start.read_exact(len),
                at + self@.read_exact_len((len - at) as nat) == start.read_exact_len(len),
                buf@.take(at as int) == start.chain.bytes(start.offset, start.offset + at as nat),
                buf@.skip(at as int) == old(buf)@.skip(at as int),
                at > 0 ==> !self.holds(),
                at == 0 ==> self.holds() == old(self).holds(),
                self@.read_exact_holds((len - at) as nat) == start.read_exact_holds(len),
                self.data_reads() + self@.read_exact_fetches(self.holds(), (len - at) as nat)
                    == old(self).data_reads() + start.read_exact_fetches(old(self).holds(), len),
            decreases len - at,
        {
            let ghost pos = self@;
            let ghost held = self.holds();
            let ghost reads = self.data_reads();
            let ghost rest = (len - at) as nat;
            match self.read_at(buf, at) {
                Err(e) => {
                    return Err(e);
                },
                Ok(n) => {
                    if n == 0 {
                        return Err(Error::IoError);
                    }
                    if n >= buf.len() - at {
                        return Ok(());
                    }
                    proof {
                        assert(old(buf)@.skip(at + n) =~= old(buf)@.skip(at as int).skip(n as int));
                        assert(pos.read_exact_fetches(held, rest) == pos.read_fetches(held)
                            + self@.read_exact_fetches(false, (rest - n) as nat));
                        assert((reads + pos.read_fetches(held)) + self@.read_exact_fetches(
                            false,
                            (rest - n) as nat,
                        ) =~= reads + (pos.read_fetches(held) + self@.read_exact_fetches(
                            false,
                            (rest - n) as nat,
                        )));
                    }
                    at = at + n;
                },
            }
        }
    }

    /// Starts the stream over, and tells it whether its chain is known to be
    /// allocated contiguously.
    pub fn set_contiguous(self, contiguous: bool) -> (r: Self)
        requires
            self.inv(),
        ensures
            r.inv(),
            r.spec_readahead() == self.spec_readahead(),
            r@ == ChainPos::start(Chain { contiguous, ..self@.chain }),
            !r.holds(),
            r.data_reads() == self.data_reads(),
    {
        ClusterChain {
            boot: self.boot,
            dev: self.dev,
            start_cluster: self.start_cluster,
            fat_reader: FatChainReader::new(self.boot, self.dev, self.start_cluster).set_contiguous(
                contiguous,
            ),
            cluster: None,
            readahead: self.readahead,
            taken: Ghost(0),
            log: self.log,
        }
    }

    /// Moves from the cluster `current`, or from the cluster boundary where
    /// there is none, `cluster_offset` clusters on, to the sector
    /// `sector_index` of the cluster found there.
    fn seek(&mut self, current: Option<Cluster>, cluster_offset: u64, sector_index: u64) -> (r:
        Result<Option<Cluster>>)
        requires
            old(self).walker_wf(),
            old(self).cluster is None,
            old(self).fat_reader@ == walk_after(old(self).chain(), old(self).taken@),
            current matches Some(c) ==> old(self).cluster_wf(c),
            sector_index < old(self).boot.sect_per_clus,
            cluster_offset <= usize::MAX,
        ensures
            final(self).inv(),
            final(self).cluster is None,
            final(self).chain() == old(self).chain(),
            final(self).boot == old(self).boot,
            final(self).dev == old(self).dev,
            final(self).readahead == old(self).readahead,
            final(self).log@ == old(self).log@,
            r matches Ok(Some(c)) ==> c.sector is Some == (cluster_offset == 0 && current is Some
                && current->Some_0.sector is Some && current->Some_0.sector_index == sector_index),
            ({
                let base = if current is Some {
                    old(self).taken@ - 1
                } else {
                    old(self).taken@ as int
                };
                let k = base + cluster_offset;
                &&& k < old(self).chain().clusters().len() ==> {
                    &&& r matches Ok(Some(c))
                    &&& final(self).cluster_wf(c)
                    &&& final(self).taken@ == k + 1
                    &&& c.sector_index == sector_index
                    &&& !final(self)@.exhausted
                }
                &&& k >= old(self).chain().clusters().len() ==> {
                    &&& final(self)@.exhausted
                    &&& final(self).taken@ == old(self).chain().clusters().len()
                    &&& r == match old(self).chain().end_result() {
                        Ok(_) => Ok::<Option<Cluster>, Error>(None),
                        Err(e) => Err::<Option<Cluster>, Error>(e),
                    }
                }
            }),
    {
        let ghost chain = self.chain();
        let ghost taken = self.taken@;
        let steps: u64 = match current {
            Some(c) => {
                if cluster_offset == 0 {
                    if c.sector_index == sector_index {
                        return Ok(Some(c));
                    } else {
                        return Ok(Some(Cluster { index: c.index, sector_index, sector: None }));
                    }
                }
                cluster_offset - 1
            },
            None => cluster_offset,
        };
        proof {
            lemma_walk_nth(chain, taken, steps as nat);
        }
        match self.fat_reader.nth(steps as usize) {
            Some(Ok(index)) => {
                proof {
                    self.taken@ = taken + steps as nat + 1;
                }
                Ok(Some(Cluster { index, sector_index, sector: None }))
            },
            Some(Err(e)) => {
                proof {
                    self.taken@ = chain.clusters().len();
                }
                Err(e)
            },
            None => {
                proof {
                    self.taken@ = chain.clusters().len();
                }
                Ok(None)
            },
        }
    }

    /// Skip `n` number of bytes.
    ///
    /// The sector at the new position is fetched, unless the stream has it
    /// in hand already; no sector between the two positions is asked for. A
    /// skip to the end of the chain or beyond it reports how the chain
    /// stopped.
    #[verifier::rlimit(40)]
    pub fn skip(&mut self, n: usize) -> (r: Result<()>)
        requires
            old(self).inv(),
        ensures
            final(self).inv(),
            final(self).spec_readahead() == old(self).spec_readahead(),
            (final(self)@, r) == old(self)@.skip(n as nat),
            final(self).holds() == old(self)@.skip_holds(n as nat),
            final(self).data_reads() == old(self).data_reads() + old(self)@.skip_fetches(
                old(self).holds(),
                n as nat,
            ),
    {
        let ghost held = self.holds();
        let ghost reads = self.data_reads();
        let ghost from = self@;
        proof {
            assert(reads + Seq::<u64>::empty() =~= reads);
        }
        if self.fat_reader.is_stopped() {
            return Ok(());
        }
        let cluster_size: u64 = self.boot.cluster_size as u64;
        let mut cluster_offset: u64 = n as u64 / cluster_size;
        let rest: u64 = n as u64 % cluster_size;
        let ghost chain = self.chain();
        let ghost taken = self.taken@;
        proof {
            vstd::arithmetic::div_mod::lemma_div_is_ordered_by_denominator(
                n as int,
                512,
                cluster_size as int,
            );
        }

        let current = self.cluster.take();
        let ghost base: nat = if current is Some {
            (taken - 1) as nat
        } else {
            taken
        };
        let within: u64 = match &current {
            Some(c) => c.sector_index * SECTOR_SIZE as u64 + (match &c.sector {
                Some(s) => s.byte_cursor as u64,
                None => 0,
            }),
            None => 0,
        };
        let mut target_within: u64 = within + rest;
        if target_within >= cluster_size {
            cluster_offset = cluster_offset + 1;
            target_within = target_within - cluster_size;
        }
        let sector_index: u64 = target_within / SECTOR_SIZE as u64;
        let byte: usize = (target_within % SECTOR_SIZE as u64) as usize;
        proof {
            lemma_skip_target(
                chain,
                base,
                within as nat,
                n as nat,
                cluster_offset as nat,
                target_within as nat,
            );
        }
        let cluster = match self.seek(current, cluster_offset, sector_index) {
            Ok(Some(cluster)) => cluster,
            Ok(None) => {
                return Ok(());
            },
            Err(e) => {
                return Err(e);
            },
        };
        proof {
            self.lemma_cluster_offset(cluster, byte as nat);
            assert(cluster.sector is Some == (held && (from.offset + n) / 512 == from.offset / 512));
            assert(reads.push(self.sector_number(cluster)) =~= reads + seq![
                self.sector_number(cluster),
            ]);
        }
        let opened = Self::open_sector(self.boot, self.dev, self.readahead, cluster, &mut self.log);
        match opened {
            None => Err(Error::IoError),
            Some((mut cluster, mut sector)) => {
                sector.byte_cursor = byte;
                cluster.sector = Some(sector);
                self.cluster = Some(cluster);
                Ok(())
            },
        }
    }
}

/// Where a skip leads: `n` bytes behind the offset `within` of the cluster
/// with number `base` lies the offset `target_within` of the cluster with
/// number `base + cluster_offset`.
proof fn lemma_skip_target(
    chain: Chain,
    base: nat,
    within: nat,
    n: nat,
    cluster_offset: nat,
    target_within: nat,
)
    requires
        chain.boot.wf(),
        base <= chain.clusters().len(),
        within < chain.boot.cluster_size,
        within + n % (chain.boot.cluster_size as nat) >= chain.boot.cluster_size ==> cluster_offset
            == n / (chain.boot.cluster_size as nat) + 1 && target_within == within + n % (
        chain.boot.cluster_size as nat) - chain.boot.cluster_size,
        within + n % (chain.boot.cluster_size as nat) < chain.boot.cluster_size ==> cluster_offset
            == n / (chain.boot.cluster_size as nat) && target_within == within + n % (
        chain.boot.cluster_size as nat),
    ensures
        target_within < chain.boot.cluster_size,
        target_within / 512 < chain.boot.sect_per_clus,
        base * chain.boot.cluster_size + within + n == (base + cluster_offset)
            * chain.boot.cluster_size + (target_within / 512) * 512 + target_within % 512,
        base + cluster_offset < chain.clusters().len() <==> base * chain.boot.cluster_size + within
            + n < chain.len(),
        (base * chain.boot.cluster_size + within + n) / 512 == (base * chain.boot.cluster_size
            + within) / 512 <==> cluster_offset == 0 && target_within / 512 == within / 512,
{
    let cs = chain.boot.cluster_size as int;
    let q = n as int / cs;
    let k = base + cluster_offset;
    let spc = chain.boot.sect_per_clus as int;
    let from = base * cs + within;
    let to = (base + cluster_offset) * cs + target_within;
    vstd::arithmetic::div_mod::lemma_fundamental_div_mod(within as int, 512);
    vstd::arithmetic::div_mod::lemma_fundamental_div_mod(target_within as int, 512);
    assert(base * cs == 512 * (base * spc) && (base + cluster_offset) * cs == 512 * (base * spc
        + cluster_offset * spc)) by (nonlinear_arith)
        requires
            cs == spc * 512,
    ;
    lemma_fundamental_div_mod_converse(
        from,
        512,
        base * spc + within as int / 512,
        within as int % 512,
    );
    lemma_fundamental_div_mod_converse(
        to,
        512,
        base * spc + cluster_offset * spc + target_within as int / 512,
        target_within as int % 512,
    );
    assert(cluster_offset >= 1 ==> cluster_offset * spc >= spc) by (nonlinear_arith)
        requires
            spc >= 0,
    ;
    assert(within as int / 512 < spc) by (nonlinear_arith)
        requires
            within < spc * 512,
            within == 512 * (within as int / 512) + within as int % 512,
            0 <= within as int % 512,
    ;
    vstd::arithmetic::div_mod::lemma_fundamental_div_mod(n as int, cs);
    assert(base * cs + q * cs == (base + q) * cs) by (nonlinear_arith);
    assert((base + q) * cs + cs == (base + q + 1) * cs) by (nonlinear_arith);
    assert(cs * q == q * cs) by (nonlinear_arith);
    if k < chain.clusters().len() {
        lemma_cluster_within(chain, k);
    } else {
        assert(k * cs >= chain.clusters().len() * cs) by (nonlinear_arith)
            requires
                k >= chain.clusters().len(),
                cs >= 0,
        ;
    }
}

/// A chain has no more clusters than there are indices from its start on.
pub proof fn lemma_chain_len_bound(disk: Disk, boot: BootSectorInfo, contiguous: bool, start: u32)
    ensures
        chain_clusters(disk, boot, contiguous, start).len() <= u32::MAX - start + 1,
    decreases u32::MAX - start,
{
    if let FatLink::Next(next) = fat_link(disk, boot, contiguous, start) {
        if next > start {
            lemma_chain_len_bound(disk, boot, contiguous, next);
        }
    }
}

/// What counting the clusters of a chain gives: their number, or the error
/// that the chain stops with.
pub open spec fn chain_length_result(chain: Chain) -> Result<u32> {
    match stop_error(chain.stop()) {
        Some(e) => Err(e),
        None => Ok(chain.clusters().len() as u32),
    }
}

/// Counts the clusters of the chain that starts at cluster `start`, which
/// is not cluster zero.
pub fn chain_length<D: BlockReader>(boot: &BootSectorInfo, dev: &D, start: ClusterIndex) -> (r:
    Result<u32>)
    requires
        boot.wf(),
        start >= 1,
    ensures
        r == chain_length_result(Chain { disk: dev@, boot: *boot, contiguous: false, start }),
{
    let ghost chain = Chain { disk: dev@, boot: *boot, contiguous: false, start };
    let mut reader = FatChainReader::new(boot, dev, start);
    let mut count: Result<u32> = Ok(0);
    let ghost mut taken: nat = 0;
    proof {
        lemma_chain_len_bound(dev@, *boot, false, start);
    }
    loop
        invariant
            reader.inv(),
            chain == (Chain { disk: dev@, boot: *boot, contiguous: false, start }),
            chain.clusters().len() <= u32::MAX,
            taken <= chain.clusters().len(),
            reader@ == walk_after(chain, taken),
            count == Ok::<u32, Error>(taken as u32),
        decreases chain.clusters().len() - taken,
    {
        proof {
            lemma_walk_nth(chain, taken, 0);
        }
        match reader.next() {
            None => {
                return count;
            },
            Some(Err(e)) => {
                return Err(e);
            },
            Some(item) => {
                count = count_oks(count, item);
                proof {
                    taken = taken + 1;
                }
            },
        }
    }
}

} // verus!
