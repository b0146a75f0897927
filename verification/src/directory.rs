//! Directories: the raw records of a directory and the entries built of them.

pub mod allocation_bitmap;
pub mod file;
pub mod file_name;
pub mod resume;
pub mod stream_extension;
pub mod upcase;
pub mod volume_label;

use vstd::prelude::*;
use crate::device::BlockReader;
use crate::directory::allocation_bitmap::AllocationBitmap;
use crate::directory::file::{File, FileAttributes};
use crate::directory::file_name::FileName;
use crate::directory::stream_extension::StreamExtension;
use crate::directory::upcase::UpCaseTable;
use crate::directory::volume_label::VolumeLabel;
use crate::error::{Error, Result};
use crate::fat::ClusterIndex;
use crate::heap::{Chain, ChainPos, ClusterChain};
use crate::hint::ClusterHint;
use crate::math::TimeSpec64;
use crate::superblock::{BootSectorInfo, SbInfo, NUM_RESERVED_CLUSTERS};

verus! {

/// The size of a directory record in bytes.
pub const EXFAT_DIR_ENTRY_SIZE: usize = 32;

/// The number of bits of `EXFAT_DIR_ENTRY_SIZE`.
pub const EXFAT_DIR_ENTRY_SIZE_BITS: usize = 5;

/// The type of the record that ends a directory.
pub const ENTRY_TYPE_END_OF_DIRECTORY: u8 = 0x00;

/// The first type above those of deleted records.
pub const ENTRY_TYPE_INVAL: u8 = 0x80;

/// The type of an allocation bitmap record.
pub const ENTRY_TYPE_BITMAP: u8 = 0x81;

/// The type of an up-case table record.
pub const ENTRY_TYPE_UPCASE: u8 = 0x82;

/// The type of a volume label record.
pub const ENTRY_TYPE_VOLUME: u8 = 0x83;

/// The type of a file record.
pub const ENTRY_TYPE_FILE: u8 = 0x85;

/// The type of a stream extension record.
pub const ENTRY_TYPE_STREAM: u8 = 0xC0;

/// The type of a file name record.
pub const ENTRY_TYPE_NAME: u8 = 0xC1;

/// What a raw directory record holds.
#[derive(Clone, Copy, Debug)]
pub enum ExFatDirEntryKind {
    /// A record that is not in use any more.
    Deleted,
    AllocationBitmap(AllocationBitmap),
    UpCaseTable(UpCaseTable),
    VolumeLabel(VolumeLabel),
    File(File),
    StreamExtension(StreamExtension),
    FileName(FileName),
}

/// A raw directory record and where it lies.
#[derive(Clone, Copy, Debug)]
pub struct ExFatDirEntry {
    /// The start of the cluster chain which contains this entry.
    pub chain_start: u32,
    /// The cluster which contains this entry.
    pub cluster_index: u32,
    /// The index of this entry within the directory set.
    pub index: u32,
    pub kind: ExFatDirEntryKind,
}

/// What the type byte of a record says of it.
pub enum RecordClass {
    /// The record that ends the directory.
    End,
    /// A record of a type that this decoder passes over.
    Unknown,
    Known(ExFatDirEntryKind),
}

/// The class of the record that the 32 bytes hold.
pub open spec fn classify(bytes: Seq<u8>) -> RecordClass {
    let entry_type = bytes[0];
    if entry_type == ENTRY_TYPE_END_OF_DIRECTORY {
        RecordClass::End
    } else if entry_type < ENTRY_TYPE_INVAL {
        RecordClass::Known(ExFatDirEntryKind::Deleted)
    } else if entry_type == ENTRY_TYPE_UPCASE {
        RecordClass::Known(ExFatDirEntryKind::UpCaseTable(UpCaseTable::decode(bytes)))
    } else if entry_type == ENTRY_TYPE_BITMAP {
        RecordClass::Known(ExFatDirEntryKind::AllocationBitmap(AllocationBitmap::decode(bytes)))
    } else if entry_type == ENTRY_TYPE_FILE {
        RecordClass::Known(ExFatDirEntryKind::File(File::decode(bytes)))
    } else if entry_type == ENTRY_TYPE_STREAM {
        RecordClass::Known(ExFatDirEntryKind::StreamExtension(StreamExtension::decode(bytes)))
    } else if entry_type == ENTRY_TYPE_NAME {
        RecordClass::Known(ExFatDirEntryKind::FileName(FileName::decode(bytes)))
    } else if entry_type == ENTRY_TYPE_VOLUME {
        RecordClass::Known(ExFatDirEntryKind::VolumeLabel(VolumeLabel::decode(bytes)))
    } else {
        RecordClass::Unknown
    }
}

/// What the record with the given bytes leads to, which is record `index`
/// of the directory at `chain_start` and lies in the cluster
/// `cluster_index`: the end of the directory for the record that ends it,
/// nothing for a record of a type that is passed over, and else the record.
#[verifier::opaque]
pub open spec fn record_step(bytes: Seq<u8>, chain_start: u32, cluster_index: u32, index: u32) -> RawStep {
    match classify(bytes) {
        RecordClass::End => RawStep::End,
        RecordClass::Unknown => RawStep::Skip,
        RecordClass::Known(kind) => RawStep::Entry(
            ExFatDirEntry { chain_start, cluster_index, index, kind },
        ),
    }
}

/// What reading one record leads to.
pub enum RawStep {
    /// The directory has ended.
    End,
    /// The chain has ended where a record is due.
    Truncated,
    /// The record could not be read.
    Fail(Error),
    /// The record is of a type that is passed over.
    Skip,
    Entry(ExFatDirEntry),
}

/// What a record that cannot be read at a position leads to. At the end
/// of the chain it is how the chain stopped: the error of the stop, and a
/// truncated directory where the chain has ended properly. Before the end
/// of the chain the sector cannot be read, which is an `IoError`.
pub open spec fn record_failure(pos: ChainPos) -> RawStep {
    if pos.exhausted {
        RawStep::Truncated
    } else if pos.offset >= pos.chain.len() {
        match pos.chain.end_result() {
            Err(e) => RawStep::Fail(e),
            Ok(_) => RawStep::Truncated,
        }
    } else {
        RawStep::Fail(Error::IoError)
    }
}

/// What a step yields to a reader of the records of a directory: a
/// directory that the end of its chain cuts short is an `IoError`.
pub open spec fn yielded(step: RawStep) -> Option<Result<ExFatDirEntry>> {
    match step {
        RawStep::End => None,
        RawStep::Skip => None,
        RawStep::Truncated => Some(Err(Error::IoError)),
        RawStep::Fail(e) => Some(Err(e)),
        RawStep::Entry(entry) => Some(Ok(entry)),
    }
}

/// What a step yields inside an entry set: an entry set that the end of
/// its chain cuts short is `Corruption`.
pub open spec fn yielded_in_set(step: RawStep) -> Option<Result<ExFatDirEntry>> {
    match step {
        RawStep::Truncated => Some(Err(Error::Corruption)),
        _ => yielded(step),
    }
}

/// The state of a reader of raw records.
pub enum RawDirPos {
    /// The reader has ended: it yields nothing any more.
    Fused,
    /// The reader is about to read the record with number `index` at `pos`,
    /// in the directory whose first cluster is `chain_start`.
    At { pos: ChainPos, index: u32, chain_start: u32 },
}

impl RawDirPos {
    /// The reader at the start of the directory whose chain is `chain`.
    pub open spec fn start(chain: Chain) -> RawDirPos {
        RawDirPos::At { pos: ChainPos::start(chain), index: 0, chain_start: chain.start }
    }

    /// A bound on the number of bytes that the reader can still read.
    pub open spec fn remaining(self) -> nat {
        match self {
            RawDirPos::Fused => 0,
            RawDirPos::At { pos, index, chain_start } => if pos.offset <= pos.chain.len() {
                (pos.chain.len() - pos.offset) as nat
            } else {
                0
            },
        }
    }

    /// Reading one record: the state after it and what was read.
    #[verifier::opaque]
    pub open spec fn step(self) -> (RawDirPos, RawStep) {
        match self {
            RawDirPos::Fused => (RawDirPos::Fused, RawStep::End),
            RawDirPos::At { pos, index, chain_start } => if index == u32::MAX {
                (RawDirPos::Fused, RawStep::Fail(Error::Corruption))
            } else if !pos.can_read(32) {
                (RawDirPos::Fused, record_failure(pos))
            } else {
                let after = RawDirPos::At {
                    pos: ChainPos { offset: pos.offset + 32, ..pos },
                    index: (index + 1) as u32,
                    chain_start,
                };
                let step = record_step(
                    pos.chain.bytes(pos.offset, pos.offset + 32),
                    chain_start,
                    pos.chain.clusters()[pos.offset as int / pos.chain.boot.cluster_size as int],
                    index,
                );
                if step is End {
                    (RawDirPos::Fused, step)
                } else {
                    (after, step)
                }
            },
        }
    }

    /// Reading on to the first record that is not passed over: the state
    /// after it and what was read.
    pub open spec fn next_step(self) -> (RawDirPos, RawStep)
        decreases self.remaining(),
    {
        let (after, step) = self.step();
        if step is Skip {
            if after.remaining() < self.remaining() {
                after.next_step()
            } else {
                (RawDirPos::Fused, RawStep::End)
            }
        } else {
            (after, step)
        }
    }

    /// The next record of a known type: the state after it and the record.
    /// `None` ends the sequence, and so does an error.
    pub open spec fn next(self) -> (RawDirPos, Option<Result<ExFatDirEntry>>) {
        (self.next_step().0, yielded(self.next_step().1))
    }

    /// The next record of a known type inside an entry set: a chain that
    /// ends where the record is due is `Corruption`.
    pub open spec fn next_in_set(self) -> (RawDirPos, Option<Result<ExFatDirEntry>>) {
        (self.next_step().0, yielded_in_set(self.next_step().1))
    }

    /// Passing over `n` records without decoding them: the state after it
    /// and what is reported. More records than the index can count are
    /// `Corruption`.
    pub open spec fn advance_by(self, n: nat) -> (RawDirPos, Result<()>) {
        match self {
            RawDirPos::Fused => (RawDirPos::Fused, Ok(())),
            RawDirPos::At { pos, index, chain_start } => if n == 0 {
                (self, Ok(()))
            } else {
                self.seek(n)
            },
        }
    }

    /// Moving `n` records on and fetching the sector of the record there:
    /// the state after it and what is reported. A record whose index or
    /// whose offset in the directory cannot be counted is `Corruption`.
    pub open spec fn seek(self, n: nat) -> (RawDirPos, Result<()>) {
        match self {
            RawDirPos::Fused => (RawDirPos::Fused, Ok(())),
            RawDirPos::At { pos, index, chain_start } => if index + n > u32::MAX || 32 * (index
                + n) > usize::MAX {
                (RawDirPos::Fused, Err(Error::Corruption))
            } else {
                let (after, r) = pos.skip(32 * n);
                match r {
                    Err(e) => (RawDirPos::Fused, Err(e)),
                    Ok(_) => (
                        RawDirPos::At { pos: after, index: (index + n) as u32, chain_start },
                        Ok(()),
                    ),
                }
            },
        }
    }

    /// Passing over `n` records and reading the next one.
    pub open spec fn nth(self, n: nat) -> (RawDirPos, Option<Result<ExFatDirEntry>>) {
        let (after, r) = self.advance_by(n);
        match r {
            Err(e) => (after, Some(Err(e))),
            Ok(_) => after.next(),
        }
    }

    /// Where a reader for record `index` of the directory at `cluster`
    /// starts to walk: at the cluster of the hint, where the hint lies
    /// before the record and in the cluster heap, and at `cluster`
    /// otherwise. The second part is the number of the first record there.
    pub open spec fn resume_at(
        boot: BootSectorInfo,
        cluster: u32,
        index: u32,
        hint: Option<ClusterHint>,
    ) -> (u32, u32) {
        match hint {
            Some(h) => if h.offset > 0 && index / boot.dentries_per_clu >= h.offset
                && NUM_RESERVED_CLUSTERS <= h.index < boot.num_clusters {
                (h.index, (h.offset * boot.dentries_per_clu) as u32)
            } else {
                (cluster, 0)
            },
            None => (cluster, 0),
        }
    }

    /// The reader that is about to read record `index` of the directory at
    /// `cluster`, with the sector of that record fetched. It walks from the
    /// cluster of the hint where the hint lies before the record; the
    /// records it yields are those of the directory at `cluster` all the
    /// same. A directory outside the cluster heap is `Corruption`.
    pub open spec fn open_at(
        disk: crate::device::Disk,
        boot: BootSectorInfo,
        cluster: u32,
        index: u32,
        hint: Option<ClusterHint>,
    ) -> Result<RawDirPos> {
        let (start, base) = Self::resume_at(boot, cluster, index, hint);
        if !(NUM_RESERVED_CLUSTERS <= cluster < boot.num_clusters) {
            Err(Error::Corruption)
        } else {
            let first = RawDirPos::At {
                pos: ChainPos::start(Chain { disk, boot, contiguous: false, start }),
                index: base,
                chain_start: cluster,
            };
            let (state, r) = first.seek((index - base) as nat);
            match r {
                Err(e) => Err(e),
                Ok(_) => Ok(state),
            }
        }
    }

    /// The index of the record that is read next.
    pub open spec fn index(self) -> u32 {
        match self {
            RawDirPos::Fused => 0,
            RawDirPos::At { pos, index, chain_start } => index,
        }
    }
}

/// A step that yields a record leaves less to read.
pub proof fn lemma_next_decreases(raw: RawDirPos)
    ensures
        raw.next_step().1 is Entry ==> raw.next_step().0.remaining() < raw.remaining()
            && raw.next_step().0 is At,
        !(raw.next_step().1 is Skip),
    decreases raw.remaining(),
{
    reveal(RawDirPos::step);
    let (after, step) = raw.step();
    if step is Skip && after.remaining() < raw.remaining() {
        lemma_next_decreases(after);
    }
}

/// The length of a chain is a multiple of the record size.
pub proof fn lemma_chain_len_aligned(chain: Chain)
    requires
        chain.boot.wf(),
    ensures
        chain.len() % 32 == 0,
{
    let count = chain.clusters().len() as int;
    let spc = chain.boot.sect_per_clus as int;
    assert(count * (spc * 512) == (count * spc * 16) * 32) by (nonlinear_arith);
}

/// Yields the raw records of a directory.
pub struct ExFatDirEntryReader<'a, D: BlockReader> {
    chain: ClusterChain<'a, D>,
    /// The first cluster of the directory.
    dir_start: ClusterIndex,
    fused: bool,
    /// Tracks indices of the records we're reading.
    index: u32,
}

impl<'a, D: BlockReader> View for ExFatDirEntryReader<'a, D> {
    type V = RawDirPos;

    closed spec fn view(&self) -> RawDirPos {
        if self.fused {
            RawDirPos::Fused
        } else {
            RawDirPos::At { pos: self.chain@, index: self.index, chain_start: self.dir_start }
        }
    }
}

fn decode_kind(buf: [u8; 32]) -> (r: Option<ExFatDirEntryKind>)
    requires
        buf@[0] != ENTRY_TYPE_END_OF_DIRECTORY,
    ensures
        match classify(buf@) {
            RecordClass::Known(kind) => r == Some(kind),
            _ => r is None,
        },
{
    let entry_type = buf[0];
    if entry_type < ENTRY_TYPE_INVAL {
        Some(ExFatDirEntryKind::Deleted)
    } else if entry_type == ENTRY_TYPE_UPCASE {
        Some(ExFatDirEntryKind::UpCaseTable(UpCaseTable::from_bytes(buf)))
    } else if entry_type == ENTRY_TYPE_BITMAP {
        Some(ExFatDirEntryKind::AllocationBitmap(AllocationBitmap::from_bytes(buf)))
    } else if entry_type == ENTRY_TYPE_FILE {
        Some(ExFatDirEntryKind::File(File::from_bytes(buf)))
    } else if entry_type == ENTRY_TYPE_STREAM {
        Some(ExFatDirEntryKind::StreamExtension(StreamExtension::from_bytes(buf)))
    } else if entry_type == ENTRY_TYPE_NAME {
        Some(ExFatDirEntryKind::FileName(FileName::from_bytes(buf)))
    } else if entry_type == ENTRY_TYPE_VOLUME {
        Some(ExFatDirEntryKind::VolumeLabel(VolumeLabel::from_bytes(buf)))
    } else {
        None
    }
}

/// What the record in `buf` leads to, which is record `index` of the
/// directory at `chain_start` and lies in the cluster `cluster_index`.
fn decode_record(buf: [u8; 32], chain_start: u32, cluster_index: u32, index: u32) -> (r: RawStep)
    ensures
        r == record_step(buf@, chain_start, cluster_index, index),
{
    reveal(record_step);
    if buf[0] == ENTRY_TYPE_END_OF_DIRECTORY {
        return RawStep::End;
    }
    match decode_kind(buf) {
        Some(kind) => RawStep::Entry(ExFatDirEntry { chain_start, index, kind, cluster_index }),
        None => RawStep::Skip,
    }
}

impl<'a, D: BlockReader> ExFatDirEntryReader<'a, D> {
    /// The invariant of the reader.
    pub closed spec fn inv(&self) -> bool {
        &&& self.chain.inv()
        &&& (!self.fused ==> self.chain@.offset % 32 == 0)
    }

    /// A reader of the directory whose first cluster is `cluster`.
    ///
    /// A cluster outside the cluster heap is `Corruption`.
    pub fn new(boot: &'a BootSectorInfo, dev: &'a D, cluster: ClusterIndex) -> (r: Result<Self>)
        requires
            boot.wf(),
        ensures
            r is Ok <==> NUM_RESERVED_CLUSTERS <= cluster < boot.num_clusters,
            r matches Ok(reader) ==> reader.inv() && reader@ == RawDirPos::start(
                Chain { disk: dev@, boot: *boot, contiguous: false, start: cluster },
            ),
            r matches Err(e) ==> e == Error::Corruption,
    {
        match ClusterChain::new(boot, dev, cluster) {
            Err(e) => Err(e),
            Ok(chain) => {
                let chain = chain.enable_readahead();
                Ok(ExFatDirEntryReader { chain, dir_start: cluster, fused: false, index: 0 })
            },
        }
    }

    /// A reader that is about to read record `index` of the directory whose
    /// first cluster is `cluster`. The sector of the record is fetched.
    ///
    /// Where the hint names a cluster of the directory that lies before the
    /// record, the reader walks from there and not from `cluster`; the
    /// records are those of the directory at `cluster` all the same.
    pub fn new_at(
        sb_info: &'a SbInfo,
        dev: &'a D,
        cluster: ClusterIndex,
        index: u32,
        hint: Option<ClusterHint>,
    ) -> (r: Result<Self>)
        requires
            sb_info.boot_sector_info.wf(),
        ensures
            match RawDirPos::open_at(dev@, sb_info.boot_sector_info, cluster, index, hint) {
                Ok(state) => r matches Ok(reader) && reader.inv() && reader@ == state,
                Err(e) => r matches Err(err) && err == e,
            },
    {
        let boot = &sb_info.boot_sector_info;
        if cluster < NUM_RESERVED_CLUSTERS || cluster >= boot.num_clusters {
            return Err(Error::Corruption);
        }
        let dentries_per_clu: u32 = boot.dentries_per_clu;
        let cluster_offset: u32 = index / dentries_per_clu;
        let mut advance_by: u32 = index;
        let mut base: u32 = 0;
        let mut start: u32 = cluster;
        if let Some(hint) = hint {
            if hint.offset > 0 && cluster_offset >= hint.offset && hint.index
                >= NUM_RESERVED_CLUSTERS && hint.index < boot.num_clusters {
                assert(hint.offset * dentries_per_clu <= index) by (nonlinear_arith)
                    requires
                        hint.offset <= index / dentries_per_clu,
                        dentries_per_clu > 0,
                ;
                start = hint.index;
                let dir_entries_skipped: u32 = hint.offset * dentries_per_clu;
                advance_by = advance_by - dir_entries_skipped;
                base = dir_entries_skipped;
            }
        }
        let chain = match ClusterChain::new(&sb_info.boot_sector_info, dev, start) {
            Err(e) => {
                return Err(e);
            },
            Ok(chain) => chain.enable_readahead(),
        };
        let mut reader = ExFatDirEntryReader { chain, dir_start: cluster, fused: false, index: base };
        match reader.seek(advance_by as usize) {
            Err(e) => Err(e),
            Ok(()) => Ok(reader),
        }
    }

    /// Moves `n` records on and fetches the sector of the record there.
    fn seek(&mut self, n: usize) -> (r: Result<()>)
        requires
            old(self).inv(),
        ensures
            final(self).inv(),
            (final(self)@, r) == old(self)@.seek(n as nat),
    {
        if self.fused {
            return Ok(());
        }
        if n > (u32::MAX - self.index) as usize || self.index as usize + n > usize::MAX
            / EXFAT_DIR_ENTRY_SIZE {
            self.fused = true;
            return Err(Error::Corruption);
        }
        proof {
            self.chain.lemma_pos_wf();
            lemma_chain_len_aligned(self.chain@.chain);
        }
        match self.chain.skip(EXFAT_DIR_ENTRY_SIZE * n) {
            Err(e) => {
                self.fused = true;
                Err(e)
            },
            Ok(()) => {
                self.index = self.index + n as u32;
                Ok(())
            },
        }
    }

    /// Passes over `n` records without decoding them.
    ///
    /// An error ends the reader.
    pub fn advance_by(&mut self, n: usize) -> (r: Result<()>)
        requires
            old(self).inv(),
        ensures
            final(self).inv(),
            (final(self)@, r) == old(self)@.advance_by(n as nat),
    {
        if self.fused || n == 0 {
            return Ok(());
        }
        self.seek(n)
    }

    /// Reads the 32 bytes of the record at the position of the chain, and
    /// tells the cluster that holds them.
    fn read_record(&mut self) -> (r: core::result::Result<([u8; 32], u32), RawStep>)
        requires
            old(self).inv(),
            !old(self).fused,
        ensures
            final(self).inv(),
            final(self).fused == r is Err,
            final(self).index == old(self).index,
            final(self).dir_start == old(self).dir_start,
            r is Ok <==> old(self).chain@.can_read(32),
            r matches Ok((buf, cluster)) ==> {
                &&& final(self).chain@ == (ChainPos {
                    offset: old(self).chain@.offset + 32,
                    ..old(self).chain@
                })
                &&& buf@ == old(self).chain@.chain.bytes(
                    old(self).chain@.offset,
                    old(self).chain@.offset + 32,
                )
                &&& cluster == old(self).chain@.chain.clusters()[old(self).chain@.offset as int
                    / old(self).chain@.chain.boot.cluster_size as int]
            },
            r matches Err(failure) ==> failure == record_failure(old(self).chain@),
    {
        proof {
            self.chain.lemma_pos_wf();
        }
        let cluster = match self.chain.index() {
            Err(e) => {
                self.fused = true;
                return Err(RawStep::Fail(e));
            },
            Ok(None) => {
                self.fused = true;
                return Err(RawStep::Truncated);
            },
            Ok(Some(cluster)) => cluster,
        };
        let mut buf = [0u8; 32];
        match self.chain.read_exact(&mut buf) {
            Err(e) => {
                self.fused = true;
                Err(RawStep::Fail(e))
            },
            Ok(()) => Ok((buf, cluster)),
        }
    }

    /// Reads one record.
    fn step(&mut self) -> (r: RawStep)
        requires
            old(self).inv(),
        ensures
            final(self).inv(),
            (final(self)@, r) == old(self)@.step(),
    {
        reveal(RawDirPos::step);
        if self.fused {
            return RawStep::End;
        }
        if self.index == u32::MAX {
            self.fused = true;
            return RawStep::Fail(Error::Corruption);
        }
        let index = self.index;
        let (buf, cluster_index) = match self.read_record() {
            Err(failure) => {
                return failure;
            },
            Ok(read) => read,
        };
        self.index = index + 1;
        let step = decode_record(buf, self.dir_start, cluster_index, index);
        match step {
            RawStep::End => {
                self.fused = true;
            },
            _ => {},
        }
        step
    }

    /// Reads on to the first record that is not passed over.
    fn next_step(&mut self) -> (r: RawStep)
        requires
            old(self).inv(),
        ensures
            final(self).inv(),
            (final(self)@, r) == old(self)@.next_step(),
    {
        loop
            invariant
                self.inv(),
                self@.next_step() == old(self)@.next_step(),
            decreases self@.remaining(),
        {
            proof {
                reveal(RawDirPos::step);
            }
            match self.step() {
                RawStep::Skip => {},
                step => {
                    return step;
                },
            }
        }
    }

    /// Yields the next record of a known type.
    ///
    /// `None` ends the sequence: after the record that ends the directory,
    /// and after an error was reported. A chain that ends without a record
    /// that ends the directory is an `IoError`.
    pub fn next(&mut self) -> (r: Option<Result<ExFatDirEntry>>)
        requires
            old(self).inv(),
        ensures
            final(self).inv(),
            (final(self)@, r) == old(self)@.next(),
    {
        match self.next_step() {
            RawStep::End => None,
            RawStep::Skip => None,
            RawStep::Truncated => Some(Err(Error::IoError)),
            RawStep::Fail(e) => Some(Err(e)),
            RawStep::Entry(entry) => Some(Ok(entry)),
        }
    }

    /// Yields the next record of a known type inside an entry set: a chain
    /// that ends where the record is due is `Corruption`.
    pub fn next_in_set(&mut self) -> (r: Option<Result<ExFatDirEntry>>)
        requires
            old(self).inv(),
        ensures
            final(self).inv(),
            (final(self)@, r) == old(self)@.next_in_set(),
    {
        match self.next_step() {
            RawStep::End => None,
            RawStep::Skip => None,
            RawStep::Truncated => Some(Err(Error::Corruption)),
            RawStep::Fail(e) => Some(Err(e)),
            RawStep::Entry(entry) => Some(Ok(entry)),
        }
    }

    /// Passes over `n` records and yields the next one of a known type.
    pub fn nth(&mut self, n: usize) -> (r: Option<Result<ExFatDirEntry>>)
        requires
            old(self).inv(),
        ensures
            final(self).inv(),
            (final(self)@, r) == old(self)@.nth(n as nat),
    {
        match self.advance_by(n) {
            Err(e) => Some(Err(e)),
            Ok(()) => self.next(),
        }
    }

    /// Reads on to the next allocation bitmap record.
    pub fn find_allocation_bitmap(&mut self) -> (r: Option<Result<AllocationBitmap>>)
        requires
            old(self).inv(),
        ensures
            final(self).inv(),
            (final(self)@, r) == next_bitmap(old(self)@),
    {
        loop
            invariant
                self.inv(),
                next_bitmap(self@) == next_bitmap(old(self)@),
            decreases self@.remaining(),
        {
            proof {
                lemma_next_decreases(self@);
            }
            match self.next() {
                None => {
                    return None;
                },
                Some(Err(e)) => {
                    return Some(Err(e));
                },
                Some(Ok(entry)) => {
                    if let ExFatDirEntryKind::AllocationBitmap(bitmap) = entry.kind {
                        return Some(Ok(bitmap));
                    }
                },
            }
        }
    }

    /// Reads on to the next up-case table record.
    pub fn find_upcase_table(&mut self) -> (r: Option<Result<UpCaseTable>>)
        requires
            old(self).inv(),
        ensures
            final(self).inv(),
            (final(self)@, r) == next_upcase(old(self)@),
    {
        loop
            invariant
                self.inv(),
                next_upcase(self@) == next_upcase(old(self)@),
            decreases self@.remaining(),
        {
            proof {
                lemma_next_decreases(self@);
            }
            match self.next() {
                None => {
                    return None;
                },
                Some(Err(e)) => {
                    return Some(Err(e));
                },
                Some(Ok(entry)) => {
                    if let ExFatDirEntryKind::UpCaseTable(table) = entry.kind {
                        return Some(Ok(table));
                    }
                },
            }
        }
    }

    /// The index of the record that is read next.
    pub fn index(&self) -> (r: u32)
        ensures
            !(self@ is Fused) ==> r == self@.index(),
    {
        self.index
    }
}

/// `String::push` of the standard library: appends the character to the end
/// of the string.
pub assume_specification[ String::push ](s: &mut String, ch: char)
    ensures
        final(s)@ == old(s)@.push(ch),
;

/// A file or a directory, as its directory entry set describes it.
pub struct DirEntry {
    /// The start of the cluster chain which contains the data for this entry.
    pub data_cluster: ClusterIndex,
    /// The length of the data in the cluster chain.
    pub data_length: u64,
    /// True when the entry set says that the clusters of the data lie one
    /// after the other, and the FAT does not describe them.
    pub contiguous: bool,
    /// The start of the cluster chain which has the directory set that
    /// contains this entry.
    pub chain_start: ClusterIndex,
    /// The cluster which has the start of the directory set that contains
    /// this entry.
    pub cluster_index: ClusterIndex,
    /// The index of the file record that starts the entry set.
    pub index: u32,
    /// The index of the record behind the entry set.
    pub next_index: u32,
    pub name: String,
    pub attrs: FileAttributes,
    pub create_time: TimeSpec64,
    pub access_time: TimeSpec64,
    pub modified_time: TimeSpec64,
}

/// What a [`DirEntry`] holds, with the name as its characters.
pub struct DirEntryView {
    pub data_cluster: ClusterIndex,
    pub data_length: u64,
    pub contiguous: bool,
    pub chain_start: ClusterIndex,
    pub cluster_index: ClusterIndex,
    pub index: u32,
    pub next_index: u32,
    pub name: Seq<char>,
    pub attrs: FileAttributes,
    pub create_time: TimeSpec64,
    pub access_time: TimeSpec64,
    pub modified_time: TimeSpec64,
}

impl View for DirEntry {
    type V = DirEntryView;

    open spec fn view(&self) -> DirEntryView {
        DirEntryView {
            data_cluster: self.data_cluster,
            data_length: self.data_length,
            contiguous: self.contiguous,
            chain_start: self.chain_start,
            cluster_index: self.cluster_index,
            index: self.index,
            next_index: self.next_index,
            name: self.name@,
            attrs: self.attrs,
            create_time: self.create_time,
            access_time: self.access_time,
            modified_time: self.modified_time,
        }
    }
}

/// What a step of a reader of entries yields, with the entry as its view.
pub open spec fn yield_view(r: Option<Result<DirEntry>>) -> Option<Result<DirEntryView>> {
    match r {
        None => None,
        Some(Err(e)) => Some(Err(e)),
        Some(Ok(entry)) => Some(Ok(entry@)),
    }
}

/// The number of file name records that hold a name of `name_length`
/// code units: fifteen code units fit in one.
pub open spec fn name_records(name_length: u8) -> nat {
    ((name_length + 14) / 15) as nat
}

/// The next file record: the state behind it, the record and where it
/// lies. Records of other types are passed over.
pub open spec fn next_file(raw: RawDirPos) -> (RawDirPos, Option<Result<(ExFatDirEntry, File)>>)
    decreases raw.remaining(),
{
    let (after, r) = raw.next();
    match r {
        None => (after, None),
        Some(Err(e)) => (after, Some(Err(e))),
        Some(Ok(entry)) => match entry.kind {
            ExFatDirEntryKind::File(file) => (after, Some(Ok((entry, file)))),
            _ => if after.remaining() < raw.remaining() {
                next_file(after)
            } else {
                (RawDirPos::Fused, None)
            },
        },
    }
}

/// The next allocation bitmap record: the state behind it and the record.
/// Records of other types are passed over.
pub open spec fn next_bitmap(raw: RawDirPos) -> (RawDirPos, Option<Result<AllocationBitmap>>)
    decreases raw.remaining(),
{
    let (after, r) = raw.next();
    match r {
        None => (after, None),
        Some(Err(e)) => (after, Some(Err(e))),
        Some(Ok(entry)) => match entry.kind {
            ExFatDirEntryKind::AllocationBitmap(bitmap) => (after, Some(Ok(bitmap))),
            _ => if after.remaining() < raw.remaining() {
                next_bitmap(after)
            } else {
                (RawDirPos::Fused, None)
            },
        },
    }
}

/// The next up-case table record: the state behind it and the record.
/// Records of other types are passed over.
pub open spec fn next_upcase(raw: RawDirPos) -> (RawDirPos, Option<Result<UpCaseTable>>)
    decreases raw.remaining(),
{
    let (after, r) = raw.next();
    match r {
        None => (after, None),
        Some(Err(e)) => (after, Some(Err(e))),
        Some(Ok(entry)) => match entry.kind {
            ExFatDirEntryKind::UpCaseTable(table) => (after, Some(Ok(table))),
            _ => if after.remaining() < raw.remaining() {
                next_upcase(after)
            } else {
                (RawDirPos::Fused, None)
            },
        },
    }
}

/// The name that the next `count` records hold, which must be file name
/// records: the state behind them and the characters of all of them. A
/// record of another type, the end of the directory and a record that is not
/// valid UTF-16 are `Corruption`.
pub open spec fn collect_name(raw: RawDirPos, count: nat) -> (RawDirPos, Result<Seq<char>>)
    decreases count,
{
    if count == 0 {
        (raw, Ok(Seq::empty()))
    } else {
        let (after, r) = raw.next_in_set();
        match r {
            Some(Err(e)) => (after, Err(e)),
            Some(Ok(entry)) => match entry.kind {
                ExFatDirEntryKind::FileName(file_name) => match file_name.spec_chars() {
                    None => (after, Err(Error::Corruption)),
                    Some(chars) => {
                        let (last, rest) = collect_name(after, (count - 1) as nat);
                        match rest {
                            Ok(tail) => (last, Ok(chars + tail)),
                            Err(e) => (last, Err(e)),
                        }
                    },
                },
                _ => (after, Err(Error::Corruption)),
            },
            None => (after, Err(Error::Corruption)),
        }
    }
}

/// A name that was collected leaves the reader behind a record, or where
/// it was.
pub proof fn lemma_collect_name_state(raw: RawDirPos, count: nat)
    ensures
        collect_name(raw, count).1 is Ok ==> (collect_name(raw, count).0 is At || collect_name(
            raw,
            count,
        ).0 == raw),
    decreases count,
{
    if count > 0 {
        lemma_next_decreases(raw);
        lemma_collect_name_state(raw.next_in_set().0, (count - 1) as nat);
    }
}

/// The characters `head` before the name of a result.
pub open spec fn with_prefix(head: Seq<char>, tail: (RawDirPos, Result<Seq<char>>)) -> (
    RawDirPos,
    Result<Seq<char>>,
) {
    match tail.1 {
        Ok(rest) => (tail.0, Ok(head + rest)),
        Err(e) => (tail.0, Err(e)),
    }
}

/// The next entry of a directory: the state behind its entry set and the
/// entry. The entry set is a file record, the stream extension that follows
/// it at once, and the file name records that the length of the name asks
/// for; anything else in their place is `Corruption`.
#[verifier::opaque]
pub open spec fn next_entry(raw: RawDirPos, time_offset: int) -> (
    RawDirPos,
    Option<Result<DirEntryView>>,
) {
    let (at_stream, found) = next_file(raw);
    match found {
        None => (at_stream, None),
        Some(Err(e)) => (at_stream, Some(Err(e))),
        Some(Ok((file_entry, file))) => {
            let (at_name, second) = at_stream.next_in_set();
            match second {
                Some(Err(e)) => (at_name, Some(Err(e))),
                None => (at_name, Some(Err(Error::Corruption))),
                Some(Ok(entry)) => match entry.kind {
                    ExFatDirEntryKind::StreamExtension(stream) => {
                        let (behind, name) = collect_name(at_name, name_records(stream.name_length));
                        match name {
                            Err(e) => (behind, Some(Err(e))),
                            Ok(chars) => (
                                behind,
                                Some(
                                    Ok(
                                        DirEntryView {
                                            data_cluster: stream.first_cluster,
                                            data_length: stream.data_length,
                                            contiguous: stream.spec_no_fat_chain(),
                                            chain_start: file_entry.chain_start,
                                            cluster_index: file_entry.cluster_index,
                                            index: file_entry.index,
                                            next_index: behind.index(),
                                            name: chars,
                                            attrs: file.file_attributes,
                                            create_time: file.spec_create_time(time_offset),
                                            access_time: file.spec_access_time(time_offset),
                                            modified_time: file.spec_modified_time(time_offset),
                                        },
                                    ),
                                ),
                            ),
                        }
                    },
                    _ => (at_name, Some(Err(Error::Corruption))),
                },
            }
        },
    }
}

/// Passing over `n` entries and reading the next one: the state behind it
/// and the entry. The first step that yields no entry ends the run and is
/// the result.
pub open spec fn nth_entry(raw: RawDirPos, time_offset: int, n: nat) -> (
    RawDirPos,
    Option<Result<DirEntryView>>,
)
    decreases n,
{
    let (after, r) = next_entry(raw, time_offset);
    if n == 0 || !(r matches Some(Ok(_))) {
        (after, r)
    } else {
        nth_entry(after, time_offset, (n - 1) as nat)
    }
}

/// Yields the entries of a directory.
pub struct DirEntryReader<'a, D: BlockReader> {
    pub sb_info: &'a SbInfo,
    pub entries: ExFatDirEntryReader<'a, D>,
}

impl<'a, D: BlockReader> DirEntryReader<'a, D> {
    /// The invariant of the reader.
    pub open spec fn inv(&self) -> bool {
        self.entries.inv()
    }

    /// The offset of local time from UTC that the reader reads timestamps with.
    pub open spec fn time_offset(&self) -> int {
        self.sb_info.options.time_offset as int
    }

    /// A reader of the directory whose first cluster is `cluster`.
    ///
    /// A cluster outside the cluster heap is `Corruption`.
    pub fn new(sb_info: &'a SbInfo, dev: &'a D, cluster: ClusterIndex) -> (r: Result<Self>)
        requires
            sb_info.boot_sector_info.wf(),
        ensures
            r is Ok <==> NUM_RESERVED_CLUSTERS <= cluster < sb_info.boot_sector_info.num_clusters,
            r matches Ok(reader) ==> reader.inv() && reader.sb_info == sb_info && reader.entries@
                == RawDirPos::start(
                Chain {
                    disk: dev@,
                    boot: sb_info.boot_sector_info,
                    contiguous: false,
                    start: cluster,
                },
            ),
            r matches Err(e) ==> e == Error::Corruption,
    {
        match ExFatDirEntryReader::new(&sb_info.boot_sector_info, dev, cluster) {
            Err(e) => Err(e),
            Ok(entries) => Ok(DirEntryReader { sb_info, entries }),
        }
    }

    /// A reader that is about to read record `exfat_dir_entry_index` of the
    /// directory whose first cluster is `cluster`, resumed from the hint
    /// where the hint lies before the record.
    pub fn new_at(
        sb_info: &'a SbInfo,
        dev: &'a D,
        cluster: ClusterIndex,
        exfat_dir_entry_index: u32,
        hint: Option<ClusterHint>,
    ) -> (r: Result<Self>)
        requires
            sb_info.boot_sector_info.wf(),
        ensures
            match RawDirPos::open_at(
                dev@,
                sb_info.boot_sector_info,
                cluster,
                exfat_dir_entry_index,
                hint,
            ) {
                Ok(state) => r matches Ok(reader) && reader.inv() && reader.sb_info == sb_info
                    && reader.entries@ == state,
                Err(e) => r matches Err(err) && err == e,
            },
    {
        match ExFatDirEntryReader::new_at(sb_info, dev, cluster, exfat_dir_entry_index, hint) {
            Err(e) => Err(e),
            Ok(entries) => Ok(DirEntryReader { sb_info, entries }),
        }
    }

    /// Reads on to the next file record.
    fn next_file(&mut self) -> (r: Option<Result<(ExFatDirEntry, File)>>)
        requires
            old(self).inv(),
        ensures
            final(self).inv(),
            final(self).sb_info == old(self).sb_info,
            (final(self).entries@, r) == next_file(old(self).entries@),
    {
        loop
            invariant
                self.inv(),
                self.sb_info == old(self).sb_info,
                next_file(self.entries@) == next_file(old(self).entries@),
            decreases self.entries@.remaining(),
        {
            proof {
                lemma_next_decreases(self.entries@);
            }
            match self.entries.next() {
                None => {
                    return None;
                },
                Some(Err(e)) => {
                    return Some(Err(e));
                },
                Some(Ok(entry)) => {
                    if let ExFatDirEntryKind::File(file) = entry.kind {
                        return Some(Ok((entry, file)));
                    }
                },
            }
        }
    }

    /// Reads the `count` file name records of an entry set.
    fn collect_name(&mut self, count: usize) -> (r: Result<String>)
        requires
            old(self).inv(),
        ensures
            final(self).inv(),
            final(self).sb_info == old(self).sb_info,
            match collect_name(old(self).entries@, count as nat) {
                (state, Ok(chars)) => final(self).entries@ == state && (r matches Ok(name)
                    && name@ == chars),
                (state, Err(e)) => final(self).entries@ == state && (r matches Err(err) && err
                    == e),
            },
    {
        let mut name = String::new();
        let mut left: usize = count;
        while left > 0
            invariant
                self.inv(),
                self.sb_info == old(self).sb_info,
                collect_name(old(self).entries@, count as nat) == with_prefix(
                    name@,
                    collect_name(self.entries@, left as nat),
                ),
            decreases left,
        {
            let ghost before = name@;
            let file_name = match self.entries.next_in_set() {
                Some(Err(e)) => {
                    return Err(e);
                },
                Some(Ok(entry)) => match entry.kind {
                    ExFatDirEntryKind::FileName(file_name) => file_name,
                    _ => {
                        return Err(Error::Corruption);
                    },
                },
                None => {
                    return Err(Error::Corruption);
                },
            };
            let chars = match file_name.chars() {
                Err(e) => {
                    return Err(Error::Corruption);
                },
                Ok(chars) => chars,
            };
            let mut i: usize = 0;
            while i < chars.len()
                invariant
                    i <= chars.len(),
                    name@ == before + chars@.take(i as int),
                decreases chars.len() - i,
            {
                name.push(chars[i]);
                i += 1;
            }
            left -= 1;
            proof {
                assert(chars@.take(chars.len() as int) =~= chars@);
                let tail = collect_name(self.entries@, left as nat);
                if let Ok(rest) = tail.1 {
                    assert(before + (chars@ + rest) =~= (before + chars@) + rest);
                }
            }
        }
        Ok(name)
    }

    /// Passes over `n` entries and yields the next one.
    ///
    /// The first step that yields no entry ends the run and is the result.
    pub fn nth(&mut self, n: usize) -> (r: Option<Result<DirEntry>>)
        requires
            old(self).inv(),
        ensures
            final(self).inv(),
            final(self).sb_info == old(self).sb_info,
            (final(self).entries@, yield_view(r)) == nth_entry(
                old(self).entries@,
                old(self).time_offset(),
                n as nat,
            ),
    {
        let mut left: usize = n;
        loop
            invariant
                self.inv(),
                self.sb_info == old(self).sb_info,
                left <= n,
                nth_entry(self.entries@, self.time_offset(), left as nat) == nth_entry(
                    old(self).entries@,
                    old(self).time_offset(),
                    n as nat,
                ),
            decreases left,
        {
            let yielded = self.next();
            if left == 0 {
                return yielded;
            }
            match yielded {
                Some(Ok(_)) => {},
                _ => {
                    return yielded;
                },
            }
            left -= 1;
        }
    }

    /// Yields the next entry of the directory.
    ///
    /// `None` ends the sequence. An entry set that is cut short or holds a
    /// record that does not belong there is `Corruption`.
    pub fn next(&mut self) -> (r: Option<Result<DirEntry>>)
        requires
            old(self).inv(),
        ensures
            final(self).inv(),
            final(self).sb_info == old(self).sb_info,
            (final(self).entries@, yield_view(r)) == next_entry(
                old(self).entries@,
                old(self).time_offset(),
            ),
    {
        reveal(next_entry);
        let (file_entry, file) = match self.next_file() {
            None => {
                return None;
            },
            Some(Err(e)) => {
                return Some(Err(e));
            },
            Some(Ok(found)) => found,
        };
        proof {
            lemma_next_decreases(self.entries@);
        }
        let stream_ext = match self.entries.next_in_set() {
            Some(Err(e)) => {
                return Some(Err(e));
            },
            Some(Ok(entry)) => match entry.kind {
                ExFatDirEntryKind::StreamExtension(stream_ext) => stream_ext,
                _ => {
                    return Some(Err(Error::Corruption));
                },
            },
            None => {
                return Some(Err(Error::Corruption));
            },
        };
        // one file name record contains up to 15 UTF-16 code units
        let number_of_file_name_entries: usize = (stream_ext.name_length as usize + 14) / 15;
        proof {
            lemma_collect_name_state(self.entries@, number_of_file_name_entries as nat);
        }
        let name = match self.collect_name(number_of_file_name_entries) {
            Err(e) => {
                return Some(Err(e));
            },
            Ok(name) => name,
        };
        Some(
            Ok(
                DirEntry {
                    data_cluster: stream_ext.first_cluster,
                    data_length: stream_ext.data_length,
                    contiguous: stream_ext.no_fat_chain(),
                    chain_start: file_entry.chain_start,
                    cluster_index: file_entry.cluster_index,
                    index: file_entry.index,
                    next_index: self.entries.index(),
                    attrs: file.file_attributes,
                    name,
                    create_time: file.create_time(self.sb_info),
                    access_time: file.access_time(self.sb_info),
                    modified_time: file.modified_time(self.sb_info),
                },
            ),
        )
    }
}


/// What `n` steps of a reader of entries yield, one after the other.
pub open spec fn scan(raw: RawDirPos, time_offset: int, n: nat) -> Seq<Option<Result<DirEntryView>>>
    decreases n,
{
    if n == 0 {
        Seq::empty()
    } else {
        let (after, r) = next_entry(raw, time_offset);
        seq![r] + scan(after, time_offset, (n - 1) as nat)
    }
}

/// Scanning a directory is repeatable: two readers that start in one state
/// yield the same entries in the same order, however many steps are taken.
/// What a reader yields depends on its state and on what the disk holds,
/// which is part of the state, and on nothing else.
pub proof fn lemma_scan_repeatable(first: RawDirPos, second: RawDirPos, time_offset: int, n: nat)
    requires
        first == second,
    ensures
        scan(first, time_offset, n) == scan(second, time_offset, n),
{
}

/// An entry that was read leaves less to read.
pub proof fn lemma_next_entry_decreases(raw: RawDirPos, time_offset: int)
    ensures
        next_entry(raw, time_offset).1 matches Some(Ok(_)) ==> next_entry(
            raw,
            time_offset,
        ).0.remaining() < raw.remaining(),
{
    reveal(next_entry);
    lemma_next_file_decreases(raw);
    let (at_stream, found) = next_file(raw);
    if let Some(Ok((file_entry, file))) = found {
        lemma_next_stays(at_stream);
        let (at_name, second) = at_stream.next_in_set();
        if let Some(Ok(entry)) = second {
            if let ExFatDirEntryKind::StreamExtension(stream) = entry.kind {
                lemma_collect_name_stays(at_name, name_records(stream.name_length));
            }
        }
    }
}

/// A file record that was found leaves less to read.
pub proof fn lemma_next_file_decreases(raw: RawDirPos)
    ensures
        next_file(raw).1 matches Some(Ok(_)) ==> next_file(raw).0.remaining() < raw.remaining(),
    decreases raw.remaining(),
{
    lemma_next_decreases(raw);
    lemma_next_stays(raw);
    let (after, r) = raw.next();
    if let Some(Ok(entry)) = r {
        if !(entry.kind is File) {
            lemma_next_file_decreases(after);
        }
    }
}

/// A step of a reader leaves no more to read than there was.
pub proof fn lemma_next_stays(raw: RawDirPos)
    ensures
        raw.next_step().0.remaining() <= raw.remaining(),
    decreases raw.remaining(),
{
    reveal(RawDirPos::step);
    let (after, step) = raw.step();
    if step is Skip && after.remaining() < raw.remaining() {
        lemma_next_stays(after);
    }
}

/// Collecting a name leaves no more to read than there was.
pub proof fn lemma_collect_name_stays(raw: RawDirPos, count: nat)
    ensures
        collect_name(raw, count).0.remaining() <= raw.remaining(),
    decreases count,
{
    if count > 0 {
        lemma_next_stays(raw);
        lemma_collect_name_stays(raw.next_in_set().0, (count - 1) as nat);
    }
}

/// The number of directories among the entries of a directory from a state
/// of its reader on, or the first error of the scan. The count stops at the
/// largest number that it can hold.
pub open spec fn count_directories(raw: RawDirPos, time_offset: int) -> Result<u32>
    decreases raw.remaining(),
{
    let (after, r) = next_entry(raw, time_offset);
    match r {
        None => Ok(0),
        Some(Err(e)) => Err(e),
        Some(Ok(entry)) => if after.remaining() < raw.remaining() {
            add_count(
                if entry.attrs.spec_directory() {
                    1
                } else {
                    0
                },
                count_directories(after, time_offset),
            )
        } else {
            Ok(0)
        },
    }
}

/// The count `n` of a part of a scan, added to the count of the rest.
pub open spec fn add_count(n: u32, rest: Result<u32>) -> Result<u32> {
    match rest {
        Err(e) => Err(e),
        Ok(m) => if n + m <= u32::MAX {
            Ok((n + m) as u32)
        } else {
            Ok(u32::MAX)
        },
    }
}

/// Counts the directories among the entries of the directory whose first
/// cluster is `cluster`.
///
/// Two scans of one directory on one disk give one result: the count
/// depends on what the disk holds and on nothing else.
pub fn count_subdirectories<D: BlockReader>(sb_info: &SbInfo, dev: &D, cluster: ClusterIndex) -> (r:
    Result<u32>)
    requires
        sb_info.boot_sector_info.wf(),
    ensures
        !(NUM_RESERVED_CLUSTERS <= cluster < sb_info.boot_sector_info.num_clusters) ==> r == Err::<
            u32,
            Error,
        >(Error::Corruption),
        NUM_RESERVED_CLUSTERS <= cluster < sb_info.boot_sector_info.num_clusters ==> r
            == count_directories(
            RawDirPos::start(
                Chain {
                    disk: dev@,
                    boot: sb_info.boot_sector_info,
                    contiguous: false,
                    start: cluster,
                },
            ),
            sb_info.options.time_offset as int,
        ),
{
    let mut reader = match DirEntryReader::new(sb_info, dev, cluster) {
        Err(e) => {
            return Err(e);
        },
        Ok(reader) => reader,
    };
    let ghost start = reader.entries@;
    let ghost time_offset = sb_info.options.time_offset as int;
    let mut count: u32 = 0;
    loop
        invariant
            reader.inv(),
            reader.sb_info == sb_info,
            time_offset == sb_info.options.time_offset as int,
            NUM_RESERVED_CLUSTERS <= cluster < sb_info.boot_sector_info.num_clusters,
            start == RawDirPos::start(
                Chain {
                    disk: dev@,
                    boot: sb_info.boot_sector_info,
                    contiguous: false,
                    start: cluster,
                },
            ),
            count_directories(start, time_offset) == add_count(
                count,
                count_directories(reader.entries@, time_offset),
            ),
        decreases reader.entries@.remaining(),
    {
        proof {
            lemma_next_entry_decreases(reader.entries@, time_offset);
        }
        match reader.next() {
            None => {
                return Ok(count);
            },
            Some(Err(e)) => {
                return Err(e);
            },
            Some(Ok(entry)) => {
                if entry.attrs.directory() && count < u32::MAX {
                    count = count + 1;
                }
            },
        }
    }
}

} // verus!
