//! The block reader: the one primitive the decoders consume from their host.

use vstd::prelude::*;

verus! {

/// The size of a sector in bytes.
pub const SECTOR_SIZE: usize = 512;

/// The number of bits of `SECTOR_SIZE`.
pub const SECTOR_SIZE_BITS: u32 = 9;

/// What a device holds: for each sector that can be read, its bytes. A sector
/// that is absent cannot be read.
pub type Disk = Map<u64, Seq<u8>>;

/// True when every readable sector of the disk holds exactly one sector's
/// worth of bytes.
pub open spec fn disk_wf(disk: Disk) -> bool {
    forall|n: u64| #[trigger] disk.contains_key(n) ==> disk[n].len() == SECTOR_SIZE
}

/// The sectors that a reader has asked a device for, in the order of the
/// requests.
pub struct ReadLog {
    count: u64,
    sectors: Ghost<Seq<u64>>,
}

impl View for ReadLog {
    type V = Seq<u64>;

    closed spec fn view(&self) -> Seq<u64> {
        self.sectors@
    }
}

impl ReadLog {
    #[verifier::type_invariant]
    spec fn counted(self) -> bool {
        self.count == spec_count(self.sectors@)
    }

    /// A log without requests.
    pub fn new() -> (r: Self)
        ensures
            r@ == Seq::<u64>::empty(),
    {
        ReadLog { count: 0, sectors: Ghost(Seq::empty()) }
    }

    /// Adds the request for `sector` to the log.
    pub fn record(&mut self, sector: u64)
        ensures
            final(self)@ == old(self)@.push(sector),
    {
        proof {
            use_type_invariant(&*self);
        }
        let count: u64 = if self.count < u64::MAX {
            self.count + 1
        } else {
            u64::MAX
        };
        *self = ReadLog { count, sectors: Ghost(self.sectors@.push(sector)) };
    }

    /// The number of requests in the log; it stops at the largest number
    /// that it can hold.
    pub fn count(&self) -> (r: u64)
        ensures
            r == spec_count(self@),
    {
        proof {
            use_type_invariant(self);
        }
        self.count
    }
}

/// The number of the requests of a log, as far as it can be counted.
pub open spec fn spec_count(sectors: Seq<u64>) -> u64 {
    if sectors.len() <= u64::MAX {
        sectors.len() as u64
    } else {
        u64::MAX
    }
}

/// A read-only source of sectors. The contents never change while a decoder
/// looks at them.
pub trait BlockReader {
    /// The contents of the device.
    spec fn view(&self) -> Disk;

    /// Every sector that the device can read has the sector size.
    proof fn lemma_view_wf(&self)
        ensures
            disk_wf(self@),
    ;

    /// Reads one sector. `None` reports that the device could not read it.
    /// The request is added to the log.
    fn read_sector(&self, sector: u64, log: &mut ReadLog) -> (r: Option<Vec<u8>>)
        ensures
            r.is_some() == self@.contains_key(sector),
            r.is_some() ==> r.unwrap()@ == self@[sector],
            final(log)@ == old(log)@.push(sector),
    ;

    /// Tells the device that the sectors behind `sector` are likely to be
    /// read next. What the device holds does not change.
    fn readahead(&self, sector: u64);
}

/// A volume image held in memory, sector after sector.
pub struct MemoryDisk {
    data: Vec<u8>,
}

impl MemoryDisk {
    /// The bytes of the image.
    pub closed spec fn bytes(&self) -> Seq<u8> {
        self.data@
    }

    /// The number of whole sectors in the image.
    pub open spec fn sectors(&self) -> nat {
        self.bytes().len() / SECTOR_SIZE as nat
    }

    /// Wraps an image. Bytes after the last whole sector are never read.
    pub fn new(data: Vec<u8>) -> (r: Self)
        ensures
            r.bytes() == data@,
    {
        MemoryDisk { data }
    }

    /// The number of whole sectors in the image.
    pub fn sector_count(&self) -> (r: u64)
        ensures
            r == self.sectors(),
    {
        (self.data.len() / SECTOR_SIZE) as u64
    }
}

impl BlockReader for MemoryDisk {
    open spec fn view(&self) -> Disk {
        Map::new(
            |n: u64| (n as nat) < self.sectors(),
            |n: u64| self.bytes().subrange(n * SECTOR_SIZE as int, (n + 1) * SECTOR_SIZE as int),
        )
    }

    proof fn lemma_view_wf(&self) {
    }

    fn read_sector(&self, sector: u64, log: &mut ReadLog) -> (r: Option<Vec<u8>>) {
        log.record(sector);
        if sector >= (self.data.len() / SECTOR_SIZE) as u64 {
            return None;
        }
        let start: usize = sector as usize * SECTOR_SIZE;
        let mut out: Vec<u8> = Vec::with_capacity(SECTOR_SIZE);
        let mut i: usize = 0;
        while i < SECTOR_SIZE
            invariant
                i <= SECTOR_SIZE,
                start + SECTOR_SIZE <= self.data.len(),
                out@ == self.data@.subrange(start as int, start + i),
            decreases SECTOR_SIZE - i,
        {
            out.push(self.data[start + i]);
            i += 1;
        }
        Some(out)
    }

    fn readahead(&self, sector: u64) {
    }
}

} // verus!
