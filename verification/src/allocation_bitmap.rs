//! The allocation bitmap: which clusters of the heap are in use.

use vstd::prelude::*;
use crate::device::{BlockReader, Disk};
use crate::directory::allocation_bitmap::AllocationBitmap as BitmapRecord;
use crate::directory::{next_bitmap, ExFatDirEntryReader, RawDirPos};
use crate::error::{Error, Result};
use crate::heap::{Chain, ChainPos, ClusterChain};
use crate::superblock::{BootSectorInfo, NUM_RESERVED_CLUSTERS};

verus! {

/// The number of clusters that one byte of the bitmap covers.
pub const BITS_PER_BYTE: usize = 8;

/// The number of bits that are set in a byte.
pub open spec fn popcount(byte: u8) -> nat {
    (byte as nat % 2 + (byte as nat / 2) % 2 + (byte as nat / 4) % 2 + (byte as nat / 8) % 2 + (
    byte as nat / 16) % 2 + (byte as nat / 32) % 2 + (byte as nat / 64) % 2 + byte as nat / 128)
}

/// The number of bits that are set in the bytes.
pub open spec fn count_set(bytes: Seq<u8>) -> nat
    decreases bytes.len(),
{
    if bytes.len() == 0 {
        0
    } else {
        count_set(bytes.drop_last()) + popcount(bytes.last())
    }
}

/// Bit `i` of the bytes, the lowest bit of a byte first.
pub open spec fn bit_at(bytes: Seq<u8>, i: int) -> bool {
    (bytes[i / 8] as int / pow2_of(i % 8)) % 2 == 1
}

/// Two to the power of `e`, for `e` up to eight.
pub open spec fn pow2_of(e: int) -> int {
    if e <= 0 {
        1
    } else if e == 1 {
        2
    } else if e == 2 {
        4
    } else if e == 3 {
        8
    } else if e == 4 {
        16
    } else if e == 5 {
        32
    } else if e == 6 {
        64
    } else if e == 7 {
        128
    } else {
        256
    }
}

/// The number of bytes that hold one bit for each of `cluster_count` clusters.
pub open spec fn bitmap_size(cluster_count: int) -> int {
    (cluster_count + 7) / 8
}

/// The bytes with the bits from bit `cluster_count` on cleared in the last byte.
pub open spec fn mask_trailing(bytes: Seq<u8>, cluster_count: int) -> Seq<u8> {
    if bytes.len() == 0 {
        bytes
    } else {
        bytes.update(
            bytes.len() - 1,
            (bytes.last() as int % pow2_of(8 - (bytes.len() * 8 - cluster_count))) as u8,
        )
    }
}

/// The allocation bitmap of a volume: one bit per data cluster, bit `i` for
/// cluster `i + 2`.
pub struct AllocationBitmap {
    bitmap: Vec<u8>,
    allocation_count: u64,
    cluster_count: u32,
}

impl AllocationBitmap {
    /// The bytes of the bitmap.
    pub closed spec fn bytes(&self) -> Seq<u8> {
        self.bitmap@
    }

    /// The number of data clusters that the bitmap covers.
    pub closed spec fn clusters(&self) -> u32 {
        self.cluster_count
    }

    /// The number of clusters that the bitmap marks as in use.
    pub closed spec fn allocated(&self) -> u64 {
        self.allocation_count
    }

    /// The invariant of the bitmap: it has a bit for each cluster, the bits
    /// behind the last cluster are zero, and the count is the number of
    /// bits that are set.
    pub open spec fn wf(&self) -> bool {
        &&& self.bytes().len() == bitmap_size(self.clusters() as int)
        &&& forall|i: int| self.clusters() <= i < self.bytes().len() * 8 ==> !bit_at(self.bytes(), i)
        &&& self.allocated() == count_set(self.bytes())
    }

    /// The number of clusters that are in use.
    pub fn allocated_cluster_count(&self) -> (r: u64)
        ensures
            r == self.allocated(),
    {
        self.allocation_count
    }

    /// The bytes of the bitmap.
    pub fn as_bytes(&self) -> (r: &[u8])
        ensures
            r@ == self.bytes(),
    {
        self.bitmap.as_slice()
    }

    /// The number of data clusters that the bitmap covers.
    pub fn cluster_count(&self) -> (r: u32)
        ensures
            r == self.clusters(),
    {
        self.cluster_count
    }

    /// True when the bitmap marks `cluster` as in use.
    pub fn is_allocated(&self, cluster: u32) -> (r: bool)
        requires
            self.wf(),
            NUM_RESERVED_CLUSTERS <= cluster < self.clusters() + NUM_RESERVED_CLUSTERS,
        ensures
            r == bit_at(self.bytes(), cluster - NUM_RESERVED_CLUSTERS),
    {
        let bit: u32 = cluster - NUM_RESERVED_CLUSTERS;
        let byte: u8 = self.bitmap[(bit / 8) as usize];
        let shift: u32 = bit % 8;
        let divisor: u8 = if shift == 0 {
            1
        } else if shift == 1 {
            2
        } else if shift == 2 {
            4
        } else if shift == 3 {
            8
        } else if shift == 4 {
            16
        } else if shift == 5 {
            32
        } else if shift == 6 {
            64
        } else {
            128
        };
        (byte / divisor) % 2 == 1
    }

    fn count_allocations(&mut self)
        requires
            old(self).bitmap@.len() * 8 <= u64::MAX,
        ensures
            final(self).bitmap == old(self).bitmap,
            final(self).cluster_count == old(self).cluster_count,
            final(self).allocation_count == count_set(final(self).bitmap@),
    {
        let mut count: u64 = 0;
        let mut i: usize = 0;
        while i < self.bitmap.len()
            invariant
                i <= self.bitmap@.len(),
                self.bitmap@.len() * 8 <= u64::MAX,
                self.bitmap == old(self).bitmap,
                self.cluster_count == old(self).cluster_count,
                count == count_set(self.bitmap@.take(i as int)),
                count <= 8 * i,
            decreases self.bitmap@.len() - i,
        {
            let b: u8 = self.bitmap[i];
            proof {
                assert(self.bitmap@.take(i + 1).drop_last() =~= self.bitmap@.take(i as int));
            }
            let ones: u8 = b % 2 + (b / 2) % 2 + (b / 4) % 2 + (b / 8) % 2 + (b / 16) % 2 + (b / 32)
                % 2 + (b / 64) % 2 + b / 128;
            count = count + ones as u64;
            i += 1;
        }
        proof {
            assert(self.bitmap@.take(self.bitmap@.len() as int) =~= self.bitmap@);
        }
        self.allocation_count = count;
    }
}

/// What looking for the allocation bitmap of a volume gives: the first
/// bitmap record of the root directory.
///
/// No bitmap record, a record for the second FAT and a bitmap that is too
/// short are `InvalidFormat`; a bitmap outside the cluster heap is
/// `Corruption`.
pub open spec fn bitmap_record_result(disk: Disk, boot: BootSectorInfo) -> Result<BitmapRecord> {
    if !(NUM_RESERVED_CLUSTERS <= boot.root_dir < boot.num_clusters) {
        Err(Error::Corruption)
    } else {
        let root = Chain { disk, boot, contiguous: false, start: boot.root_dir };
        match next_bitmap(RawDirPos::start(root)).1 {
            None => Err(Error::InvalidFormat),
            Some(Err(e)) => Err(e),
            Some(Ok(record)) => if record.bitmap_flags != 0 || record.data_length < bitmap_size(
                boot.spec_cluster_count(),
            ) {
                Err(Error::InvalidFormat)
            } else if !(NUM_RESERVED_CLUSTERS <= record.first_cluster < boot.num_clusters) {
                Err(Error::Corruption)
            } else {
                Ok(record)
            },
        }
    }
}

/// What reading the allocation bitmap whose chain starts at `first_cluster`
/// gives: its bytes, with the bits behind the last cluster cleared.
pub open spec fn bitmap_read_result(disk: Disk, boot: BootSectorInfo, first_cluster: u32) -> Result<
    Seq<u8>,
> {
    let size = bitmap_size(boot.spec_cluster_count());
    if !(NUM_RESERVED_CLUSTERS <= first_cluster < boot.num_clusters) {
        Err(Error::Corruption)
    } else {
        let chain = Chain { disk, boot, contiguous: false, start: first_cluster };
        match ChainPos::start(chain).read_exact(size as nat).1 {
            Err(e) => Err(e),
            Ok(_) => Ok(mask_trailing(chain.bytes(0, size as nat), boot.spec_cluster_count())),
        }
    }
}

/// What loading the allocation bitmap of a volume gives: the bytes of the
/// bitmap that the first bitmap record of the root directory leads to, with
/// the bits behind the last cluster cleared.
pub open spec fn bitmap_result(disk: Disk, boot: BootSectorInfo) -> Result<Seq<u8>> {
    match bitmap_record_result(disk, boot) {
        Err(e) => Err(e),
        Ok(record) => bitmap_read_result(disk, boot, record.first_cluster),
    }
}

proof fn lemma_mask(byte: u8, keep: int, j: int)
    requires
        1 <= keep <= 8,
        0 <= j < 8,
    ensures
        byte as int % pow2_of(keep) < 256,
        j >= keep ==> ((byte as int % pow2_of(keep)) / pow2_of(j)) % 2 == 0,
{
}

/// True when `r` is the bitmap with the given bytes, or the given error.
pub open spec fn is_bitmap(r: Result<AllocationBitmap>, bytes: Result<Seq<u8>>, boot: BootSectorInfo) -> bool {
    match bytes {
        Ok(bytes) => r matches Ok(bitmap) && bitmap.bytes() == bytes && bitmap.clusters()
            == boot.spec_cluster_count() && bitmap.wf(),
        Err(e) => r matches Err(err) && err == e,
    }
}

/// True when `r` is what loading the allocation bitmap of a volume gives.
pub open spec fn is_bitmap_result(r: Result<AllocationBitmap>, disk: Disk, boot: BootSectorInfo) -> bool {
    is_bitmap(r, bitmap_result(disk, boot), boot)
}

/// Looks for the allocation bitmap of a volume: the first bitmap record of
/// the root directory, which has to be the one of the first FAT, long
/// enough for the clusters of the volume, and in the cluster heap.
pub fn locate_allocation_bitmap<D: BlockReader>(boot: &BootSectorInfo, dev: &D) -> (r: Result<
    BitmapRecord,
>)
    requires
        boot.wf(),
    ensures
        r == bitmap_record_result(dev@, *boot),
{
    let mut reader = match ExFatDirEntryReader::new(boot, dev, boot.root_dir) {
        Err(e) => {
            return Err(e);
        },
        Ok(reader) => reader,
    };
    let bitmap_entry = match reader.find_allocation_bitmap() {
        None => {
            return Err(Error::InvalidFormat);
        },
        Some(Err(e)) => {
            return Err(e);
        },
        Some(Ok(entry)) => entry,
    };
    // the flags tell which FAT the bitmap belongs to
    if bitmap_entry.bitmap_flags != 0 {
        return Err(Error::InvalidFormat);
    }
    let required_size: u32 = ((boot.cluster_count() as u64 + 7) / 8) as u32;
    // a bitmap that is larger than it has to be is accepted
    if bitmap_entry.data_length < required_size as u64 {
        return Err(Error::InvalidFormat);
    }
    if bitmap_entry.first_cluster < NUM_RESERVED_CLUSTERS || bitmap_entry.first_cluster
        >= boot.num_clusters {
        return Err(Error::Corruption);
    }
    Ok(bitmap_entry)
}

/// Loads the allocation bitmap of a volume into the memory of `bitmap`,
/// which has the size of the bitmap.
pub fn load_allocation_bitmap_into<D: BlockReader>(
    boot: &BootSectorInfo,
    dev: &D,
    bitmap: Vec<u8>,
) -> (r: Result<AllocationBitmap>)
    requires
        boot.wf(),
        bitmap@.len() == bitmap_size(boot.spec_cluster_count()),
    ensures
        is_bitmap_result(r, dev@, *boot),
{
    match locate_allocation_bitmap(boot, dev) {
        Err(e) => Err(e),
        Ok(record) => read_allocation_bitmap(boot, dev, record.first_cluster, bitmap),
    }
}

/// Reads the allocation bitmap whose chain starts at `first_cluster` into
/// the memory of `bitmap`, which has the size of the bitmap.
pub fn read_allocation_bitmap<D: BlockReader>(
    boot: &BootSectorInfo,
    dev: &D,
    first_cluster: u32,
    bitmap: Vec<u8>,
) -> (r: Result<AllocationBitmap>)
    requires
        boot.wf(),
        bitmap@.len() == bitmap_size(boot.spec_cluster_count()),
    ensures
        is_bitmap(r, bitmap_read_result(dev@, *boot, first_cluster), *boot),
{
    let mut bitmap = bitmap;
    let cluster_count: u32 = boot.cluster_count();
    let required_size: u32 = ((cluster_count as u64 + 7) / 8) as u32;
    let mut chain = match ClusterChain::new(boot, dev, first_cluster) {
        Err(e) => {
            return Err(e);
        },
        Ok(chain) => chain,
    };
    match chain.read_exact(bitmap.as_mut_slice()) {
        Err(e) => {
            return Err(e);
        },
        Ok(()) => {},
    }
    // make sure that the trailing bits are zero
    let last: usize = required_size as usize - 1;
    let trailing_bits: u32 = (required_size as u64 * 8 - cluster_count as u64) as u32;
    let keep: u32 = 8 - trailing_bits;
    let modulus: u16 = if keep == 1 {
        2
    } else if keep == 2 {
        4
    } else if keep == 3 {
        8
    } else if keep == 4 {
        16
    } else if keep == 5 {
        32
    } else if keep == 6 {
        64
    } else if keep == 7 {
        128
    } else {
        256
    };
    let ghost read = bitmap@;
    let masked: u8 = (bitmap[last] as u16 % modulus) as u8;
    bitmap[last] = masked;
    proof {
        assert forall|i: int| cluster_count <= i < bitmap@.len() * 8 implies !bit_at(bitmap@, i) by {
            lemma_mask(read[last as int], keep as int, i % 8);
        }
    }
    let mut bitmap = AllocationBitmap { bitmap, cluster_count, allocation_count: 0 };
    bitmap.count_allocations();
    Ok(bitmap)
}


/// Makes room for `size` bytes, all of them zero. `None` when the memory
/// for them cannot be had; a buffer of no bytes needs none.
fn try_bytes(size: usize) -> (r: Option<Vec<u8>>)
    ensures
        r matches Some(bytes) ==> bytes@ == zero_bytes(size as nat),
        size == 0 ==> r is Some,
{
    let mut bytes: Vec<u8> = Vec::new();
    if size == 0 {
        assert(bytes@ =~= zero_bytes(0));
        return Some(bytes);
    }
    let reserved = bytes.try_reserve(size);
    let r = zeroed_bytes(reserved, bytes, size);
    assert(r matches Some(filled) ==> filled@ =~= zero_bytes(size as nat));
    r
}

/// A buffer of `size` zeros.
pub open spec fn zero_bytes(size: nat) -> Seq<u8> {
    Seq::new(size, |i: int| 0u8)
}

/// What making room for `size` more bytes gives, for what reserving the
/// memory has given: the buffer with `size` zeros behind what it held where
/// the memory was had, and `None` where it was not.
pub fn zeroed_bytes(
    reserved: core::result::Result<(), std::collections::TryReserveError>,
    bytes: Vec<u8>,
    size: usize,
) -> (r: Option<Vec<u8>>)
    ensures
        reserved is Ok ==> (r matches Some(filled) && filled@ == bytes@ + zero_bytes(size as nat)),
        reserved is Err ==> r is None,
{
    match reserved {
        Ok(()) => {},
        Err(_) => {
            return None;
        },
    }
    let mut filled = bytes;
    let mut i: usize = 0;
    while i < size
        invariant
            i <= size,
            filled@ == bytes@ + zero_bytes(i as nat),
        decreases size - i,
    {
        filled.push(0);
        i += 1;
        assert(filled@ =~= bytes@ + zero_bytes(i as nat));
    }
    Some(filled)
}

/// Loads the allocation bitmap of a volume.
///
/// The bitmap is looked for first: what is wrong with its record is
/// reported as it is. Behind that, without the memory for the bitmap this
/// is `ResourceExhaustion`, whatever the bitmap holds. A volume without
/// data clusters has a bitmap of no bytes, which needs no memory.
pub fn load_allocation_bitmap<D: BlockReader>(boot: &BootSectorInfo, dev: &D) -> (r: Result<
    AllocationBitmap,
>)
    requires
        boot.wf(),
    ensures
        bitmap_record_result(dev@, *boot) is Err ==> is_bitmap_result(r, dev@, *boot),
        boot.spec_cluster_count() == 0 ==> is_bitmap_result(r, dev@, *boot),
        r matches Err(Error::ResourceExhaustion) || is_bitmap_result(r, dev@, *boot),
{
    let record = match locate_allocation_bitmap(boot, dev) {
        Err(e) => {
            return Err(e);
        },
        Ok(record) => record,
    };
    let size: u32 = ((boot.cluster_count() as u64 + 7) / 8) as u32;
    match try_bytes(size as usize) {
        None => Err(Error::ResourceExhaustion),
        Some(bitmap) => read_allocation_bitmap(boot, dev, record.first_cluster, bitmap),
    }
}

} // verus!
