//! The identity cache: the files that were looked up, by where their
//! directory entry lies.

use vstd::prelude::*;
use crate::inode::{inode_unique_num, spec_unique_num, InodeInfo};

verus! {

/// The number of bits of a bucket number.
pub const HASH_TABLE_BITS: u32 = 8;

/// The number of buckets.
pub const HASH_TABLE_SIZE: usize = 256;

/// The multiplier of the hash: two to the power of 64, divided by the
/// golden ratio.
pub const GOLDEN_RATIO_64: u64 = 0x61C8_8646_80B5_83EB;

/// The bucket of a key: the highest bits of the key times the golden ratio.
pub open spec fn spec_hash_inode_key(key: u64) -> int {
    ((key as int * GOLDEN_RATIO_64 as int) % 0x1_0000_0000_0000_0000) / 0x100_0000_0000_0000
}

/// The bucket of a key.
pub fn hash_inode_key(key: u64) -> (r: usize)
    ensures
        r == spec_hash_inode_key(key),
        r < HASH_TABLE_SIZE,
{
    let hash: u64 = key.wrapping_mul(GOLDEN_RATIO_64);
    let high: u64 = hash >> 56;
    assert(high == hash / 0x100_0000_0000_0000 && high < 256) by (bit_vector)
        requires
            high == hash >> 56,
    ;
    high as usize
}

/// The first record of a bucket with the given key.
pub open spec fn find_in(bucket: Seq<InodeInfo>, key: u64) -> Option<InodeInfo>
    decreases bucket.len(),
{
    if bucket.len() == 0 {
        None
    } else if bucket[0].spec_unique_num() == key {
        Some(bucket[0])
    } else {
        find_in(bucket.drop_first(), key)
    }
}

/// The bucket without its first record with the given key.
pub open spec fn remove_first(bucket: Seq<InodeInfo>, key: u64) -> Seq<InodeInfo>
    decreases bucket.len(),
{
    if bucket.len() == 0 {
        bucket
    } else if bucket[0].spec_unique_num() == key {
        bucket.drop_first()
    } else {
        seq![bucket[0]] + remove_first(bucket.drop_first(), key)
    }
}

/// A record that is added to a bucket without its key is found there.
pub proof fn lemma_find_after_push(bucket: Seq<InodeInfo>, inode: InodeInfo)
    requires
        find_in(bucket, inode.spec_unique_num()) is None,
    ensures
        find_in(bucket.push(inode), inode.spec_unique_num()) == Some(inode),
    decreases bucket.len(),
{
    if bucket.len() > 0 {
        lemma_find_after_push(bucket.drop_first(), inode);
        assert(bucket.push(inode).drop_first() =~= bucket.drop_first().push(inode));
    } else {
    }
}

/// The cache of the files that were looked up: a fixed number of buckets,
/// each a list of records.
pub struct InodeHashTable {
    table: Vec<Vec<InodeInfo>>,
}

impl Default for InodeHashTable {
    /// An empty cache.
    fn default() -> (r: Self)
        ensures
            r.inv(),
            forall|b: int| 0 <= b < HASH_TABLE_SIZE ==> r.bucket(b) == Seq::<InodeInfo>::empty(),
    {
        InodeHashTable::new()
    }
}

impl InodeHashTable {
    /// The records of the bucket with number `bucket`.
    pub closed spec fn bucket(&self, bucket: int) -> Seq<InodeInfo> {
        self.table@[bucket]@
    }

    /// The invariant of the cache: it has all its buckets.
    pub closed spec fn inv(&self) -> bool {
        self.table@.len() == HASH_TABLE_SIZE
    }

    /// The record that the cache holds for a key: the first one with the key
    /// in the bucket of the key.
    pub open spec fn lookup(&self, key: u64) -> Option<InodeInfo> {
        find_in(self.bucket(spec_hash_inode_key(key)), key)
    }

    /// An empty cache.
    pub fn new() -> (r: Self)
        ensures
            r.inv(),
            forall|b: int| 0 <= b < HASH_TABLE_SIZE ==> r.bucket(b) == Seq::<InodeInfo>::empty(),
    {
        let mut table: Vec<Vec<InodeInfo>> = Vec::new();
        let mut i: usize = 0;
        while i < HASH_TABLE_SIZE
            invariant
                i <= HASH_TABLE_SIZE,
                table@.len() == i,
                forall|b: int| 0 <= b < i ==> table@[b]@ == Seq::<InodeInfo>::empty(),
            decreases HASH_TABLE_SIZE - i,
        {
            table.push(Vec::new());
            i += 1;
        }
        InodeHashTable { table }
    }

    /// Adds a record to the end of the bucket of its key.
    pub fn insert(&mut self, inode: &InodeInfo)
        requires
            old(self).inv(),
        ensures
            final(self).inv(),
            forall|b: int|
                0 <= b < HASH_TABLE_SIZE ==> final(self).bucket(b) == (if b == spec_hash_inode_key(
                    inode.spec_unique_num(),
                ) {
                    old(self).bucket(b).push(*inode)
                } else {
                    old(self).bucket(b)
                }),
    {
        let bucket = hash_inode_key(inode.unique_num());
        let mut list: Vec<InodeInfo> = Vec::new();
        core::mem::swap(&mut list, &mut self.table[bucket]);
        list.push(*inode);
        self.table[bucket] = list;
    }

    /// The record for the directory entry with number `dir_index` of the
    /// directory at `cluster_index`, where the cache holds one.
    pub fn get(&self, cluster_index: u32, dir_index: u32) -> (r: Option<InodeInfo>)
        requires
            self.inv(),
        ensures
            r == self.lookup(spec_unique_num(cluster_index, dir_index)),
    {
        let key = inode_unique_num(cluster_index, dir_index);
        let bucket = &self.table[hash_inode_key(key)];
        let mut i: usize = 0;
        proof {
            assert(bucket@.skip(0) =~= bucket@);
        }
        while i < bucket.len()
            invariant
                i <= bucket@.len(),
                key == spec_unique_num(cluster_index, dir_index),
                bucket@ == self.bucket(spec_hash_inode_key(key)),
                find_in(bucket@, key) == find_in(bucket@.skip(i as int), key),
            decreases bucket@.len() - i,
        {
            let inode = bucket[i];
            proof {
                assert(bucket@.skip(i as int).drop_first() =~= bucket@.skip(i + 1));
            }
            if inode.unique_num() == key {
                return Some(inode);
            }
            i += 1;
        }
        None
    }

    /// Removes the first record with the key of `inode` from the cache.
    pub fn evict(&mut self, inode: &InodeInfo)
        requires
            old(self).inv(),
        ensures
            final(self).inv(),
            forall|b: int|
                0 <= b < HASH_TABLE_SIZE ==> final(self).bucket(b) == (if b == spec_hash_inode_key(
                    inode.spec_unique_num(),
                ) {
                    remove_first(old(self).bucket(b), inode.spec_unique_num())
                } else {
                    old(self).bucket(b)
                }),
    {
        let key = inode.unique_num();
        let bucket = hash_inode_key(key);
        let mut list: Vec<InodeInfo> = Vec::new();
        core::mem::swap(&mut list, &mut self.table[bucket]);
        let ghost before = list@;
        let mut i: usize = 0;
        proof {
            assert(before.skip(0) =~= before);
        }
        while i < list.len()
            invariant
                i <= list@.len(),
                list@ == before,
                bucket < HASH_TABLE_SIZE,
                bucket == spec_hash_inode_key(inode.spec_unique_num()),
                key == inode.spec_unique_num(),
                before == old(self).bucket(bucket as int),
                self.table@.len() == HASH_TABLE_SIZE,
                forall|b: int|
                    0 <= b < HASH_TABLE_SIZE && b != bucket ==> self.table@[b] == old(self).table@[b],
                remove_first(before, key) == before.take(i as int) + remove_first(
                    before.skip(i as int),
                    key,
                ),
            decreases list@.len() - i,
        {
            proof {
                assert(before.skip(i as int).drop_first() =~= before.skip(i + 1));
            }
            if list[i].unique_num() == key {
                list.remove(i);
                self.table[bucket] = list;
                return ;
            }
            i += 1;
        }
        self.table[bucket] = list;
    }
}

} // verus!
