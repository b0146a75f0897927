//! Looking up a name in a directory.

use vstd::prelude::*;
use vstd::utf8::encode_utf8;
use crate::charsets::{MAX_CHARSET_SIZE, MAX_NAME_LEN};
use crate::device::{BlockReader, Disk};
use crate::directory::{
    count_directories, count_subdirectories, lemma_next_entry_decreases, next_entry, DirEntry,
    DirEntryReader, DirEntryView, RawDirPos,
};
use crate::inode::hash_table::{spec_hash_inode_key, InodeHashTable, HASH_TABLE_SIZE};
use crate::inode::{spec_unique_num, MAX_FILE_SIZE};
use crate::error::Error;
use crate::heap::Chain;
use crate::inode::InodeInfo;
use crate::superblock::{SbInfo, NUM_RESERVED_CLUSTERS};

verus! {

/// Why a lookup found nothing.
#[derive(Clone, Copy, Debug, PartialEq, Eq, Structural)]
pub enum LookupError {
    /// The directory has no entry with the name.
    NotFound,
    /// The name is longer than a name can be.
    NameTooLong,
    /// The directory could not be read.
    Failed(Error),
}

/// The largest number of bytes of a name that is looked up.
pub const MAX_PATH_BYTES: usize = 255 * 6;

/// The first entry with the given name that a scan from a state of a
/// reader on finds, before it reaches an entry whose index is `limit` or
/// more.
pub open spec fn find_in_scan(
    raw: RawDirPos,
    time_offset: int,
    name: Seq<char>,
    limit: Option<u32>,
) -> Result<Option<DirEntryView>, Error>
    decreases raw.remaining(),
{
    let (after, r) = next_entry(raw, time_offset);
    match r {
        None => Ok(None),
        Some(Err(e)) => Err(e),
        Some(Ok(entry)) => if limit is Some && entry.index >= limit->Some_0 {
            Ok(None)
        } else if entry.name == name {
            Ok(Some(entry))
        } else if after.remaining() < raw.remaining() {
            find_in_scan(after, time_offset, name, limit)
        } else {
            Ok(None)
        },
    }
}

/// What looking up a name in a directory finds: the first entry with the
/// name from the hinted record on, and where there is none, the first one
/// before the hinted record.
pub open spec fn find_dir_result(disk: Disk, sb_info: SbInfo, inode: InodeInfo, name: Seq<char>) -> Result<
    Option<DirEntryView>,
    Error,
> {
    let boot = sb_info.boot_sector_info;
    let hint = inode.hint_last_dentry_index;
    let time_offset = sb_info.options.time_offset as int;
    let start = RawDirPos::start(
        Chain { disk, boot, contiguous: false, start: inode.data_cluster },
    );
    if !(NUM_RESERVED_CLUSTERS <= inode.data_cluster < boot.num_clusters) {
        Err(Error::Corruption)
    } else if hint == 0 {
        find_in_scan(start, time_offset, name, None)
    } else {
        match RawDirPos::open_at(disk, boot, inode.data_cluster, hint, None) {
            Err(e) => Err(e),
            Ok(state) => match find_in_scan(state, time_offset, name, None) {
                Err(e) => Err(e),
                Ok(Some(entry)) => Ok(Some(entry)),
                Ok(None) => find_in_scan(start, time_offset, name, Some(hint)),
            },
        }
    }
}

fn find_entry<'a, D: BlockReader>(
    reader: &mut DirEntryReader<'a, D>,
    name: &String,
    limit: Option<u32>,
) -> (r: Result<Option<DirEntry>, Error>)
    requires
        old(reader).inv(),
    ensures
        match find_in_scan(old(reader).entries@, old(reader).time_offset(), name@, limit) {
            Ok(Some(entry)) => r matches Ok(Some(found)) && found@ == entry,
            Ok(None) => r matches Ok(None),
            Err(e) => r matches Err(err) && err == e,
        },
{
    let ghost time_offset = reader.time_offset();
    loop
        invariant
            reader.inv(),
            reader.time_offset() == time_offset,
            time_offset == old(reader).time_offset(),
            find_in_scan(reader.entries@, time_offset, name@, limit) == find_in_scan(
                old(reader).entries@,
                time_offset,
                name@,
                limit,
            ),
        decreases reader.entries@.remaining(),
    {
        proof {
            lemma_next_entry_decreases(reader.entries@, time_offset);
        }
        match reader.next() {
            None => {
                return Ok(None);
            },
            Some(Err(e)) => {
                return Err(e);
            },
            Some(Ok(entry)) => {
                if let Some(limit) = limit {
                    if entry.index >= limit {
                        return Ok(None);
                    }
                }
                if entry.name == *name {
                    return Ok(Some(entry));
                }
            },
        }
    }
}

/// Looks up a name in the directory of `inode`.
///
/// The scan starts at the record where the last lookup in the directory
/// found its entry, and goes on from the start of the directory up to that
/// record. The index of the entry that was found is kept for the next lookup.
pub fn find_dir<D: BlockReader>(sb_info: &SbInfo, dev: &D, inode: &mut InodeInfo, name: &String) -> (r:
    Result<DirEntry, LookupError>)
    requires
        sb_info.boot_sector_info.wf(),
    ensures
        match find_dir_result(dev@, *sb_info, *old(inode), name@) {
            Ok(Some(entry)) => (r matches Ok(found) && found@ == entry) && *final(inode) == (InodeInfo {
                hint_last_dentry_index: entry.index,
                ..*old(inode)
            }),
            Ok(None) => r == Err::<DirEntry, LookupError>(LookupError::NotFound) && *final(inode)
                == *old(inode),
            Err(e) => r == Err::<DirEntry, LookupError>(LookupError::Failed(e)) && *final(inode)
                == *old(inode),
        },
{
    let hint = inode.hint_last_dentry_index;
    let mut reader = match DirEntryReader::new(sb_info, dev, inode.data_cluster) {
        Err(e) => {
            return Err(LookupError::Failed(e));
        },
        Ok(reader) => reader,
    };
    let found = if hint > 0 {
        let mut hinted = match DirEntryReader::new_at(sb_info, dev, inode.data_cluster, hint, None) {
            Err(e) => {
                return Err(LookupError::Failed(e));
            },
            Ok(hinted) => hinted,
        };
        match find_entry(&mut hinted, name, None) {
            Err(e) => {
                return Err(LookupError::Failed(e));
            },
            Ok(Some(entry)) => Some(entry),
            Ok(None) => match find_entry(&mut reader, name, Some(hint)) {
                Err(e) => {
                    return Err(LookupError::Failed(e));
                },
                Ok(found) => found,
            },
        }
    } else {
        match find_entry(&mut reader, name, None) {
            Err(e) => {
                return Err(LookupError::Failed(e));
            },
            Ok(found) => found,
        }
    };
    match found {
        None => Err(LookupError::NotFound),
        Some(entry) => {
            inode.hint_last_dentry_index = entry.index;
            Ok(entry)
        },
    }
}

/// True when the bytes are periods and nothing else.
pub open spec fn only_periods(bytes: Seq<u8>) -> bool {
    forall|i: int| 0 <= i < bytes.len() ==> bytes[i] == 0x2E
}

/// Checks a name that is looked up: a name of nothing but periods names
/// nothing, and a name of more bytes than a name can have is too long.
pub fn resolve_path(path: String) -> (r: Result<String, LookupError>)
    ensures
        only_periods(encode_utf8(path@)) ==> r == Err::<String, LookupError>(
            LookupError::NotFound,
        ),
        !only_periods(encode_utf8(path@)) && encode_utf8(path@).len()
            > MAX_PATH_BYTES ==> r == Err::<String, LookupError>(LookupError::NameTooLong),
        !only_periods(encode_utf8(path@)) && encode_utf8(path@).len()
            <= MAX_PATH_BYTES ==> r == Ok::<String, LookupError>(path),
{
    let bytes = path.as_str().as_bytes();
    let mut i: usize = 0;
    while i < bytes.len() && bytes[i] == 0x2E
        invariant
            i <= bytes@.len(),
            forall|j: int| 0 <= j < i ==> bytes@[j] == 0x2E,
        decreases bytes@.len() - i,
    {
        i += 1;
    }
    if i == bytes.len() {
        return Err(LookupError::NotFound);
    }
    if bytes.len() > MAX_NAME_LEN as usize * MAX_CHARSET_SIZE as usize {
        return Err(LookupError::NameTooLong);
    }
    Ok(path)
}

/// Looks up a name in the directory of `inode`, after it has checked the name.
pub fn find<D: BlockReader>(sb_info: &SbInfo, dev: &D, inode: &mut InodeInfo, name: String) -> (r:
    Result<DirEntry, LookupError>)
    requires
        sb_info.boot_sector_info.wf(),
    ensures
        only_periods(encode_utf8(name@)) ==> r == Err::<DirEntry, LookupError>(
            LookupError::NotFound,
        ) && *final(inode) == *old(inode),
        !only_periods(encode_utf8(name@)) && encode_utf8(name@).len()
            > MAX_PATH_BYTES ==> r == Err::<DirEntry, LookupError>(LookupError::NameTooLong)
            && *final(inode) == *old(inode),
        !only_periods(encode_utf8(name@)) && encode_utf8(name@).len()
            <= MAX_PATH_BYTES ==> match find_dir_result(dev@, *sb_info, *old(inode), name@) {
            Ok(Some(entry)) => (r matches Ok(found) && found@ == entry) && *final(inode) == (InodeInfo {
                hint_last_dentry_index: entry.index,
                ..*old(inode)
            }),
            Ok(None) => r == Err::<DirEntry, LookupError>(LookupError::NotFound) && *final(inode)
                == *old(inode),
            Err(e) => r == Err::<DirEntry, LookupError>(LookupError::Failed(e)) && *final(inode)
                == *old(inode),
        },
{
    let name = match resolve_path(name) {
        Err(e) => {
            return Err(e);
        },
        Ok(name) => name,
    };
    find_dir(sb_info, dev, inode, &name)
}

/// The links of a new record for a directory entry: for a directory the
/// number of the directories in it, and none for a regular file.
pub open spec fn links_of(disk: Disk, sb_info: SbInfo, entry: DirEntryView) -> Result<u32, Error> {
    let boot = sb_info.boot_sector_info;
    if !entry.attrs.spec_directory() {
        Ok(0)
    } else if !(NUM_RESERVED_CLUSTERS <= entry.data_cluster < boot.num_clusters) {
        Err(Error::Corruption)
    } else {
        count_directories(
            RawDirPos::start(Chain { disk, boot, contiguous: false, start: entry.data_cluster }),
            sb_info.options.time_offset as int,
        )
    }
}

/// True when `r` and the cache `after` are what building the record of a
/// directory entry gives, with the cache `before`: the record of the cache,
/// or a new record with the number `ino`, which is added to the cache.
pub open spec fn is_built(
    r: Result<InodeInfo, LookupError>,
    before: InodeHashTable,
    after: InodeHashTable,
    disk: Disk,
    sb_info: SbInfo,
    entry: DirEntryView,
    ino: u64,
    generation: u32,
) -> bool {
    let key = spec_unique_num(entry.chain_start, entry.index);
    match before.lookup(key) {
        Some(found) => r == Ok::<InodeInfo, LookupError>(found) && after == before,
        None => match links_of(disk, sb_info, entry) {
            Err(e) => r == Err::<InodeInfo, LookupError>(LookupError::Failed(e)) && after == before,
            Ok(links) => if entry.data_length > MAX_FILE_SIZE {
                r == Err::<InodeInfo, LookupError>(LookupError::Failed(Error::Corruption)) && after
                    == before
            } else {
                let made = InodeInfo::built(sb_info, entry, ino, generation, links);
                &&& r == Ok::<InodeInfo, LookupError>(made)
                &&& forall|b: int|
                    0 <= b < HASH_TABLE_SIZE ==> after.bucket(b) == (if b == spec_hash_inode_key(
                        key,
                    ) {
                        before.bucket(b).push(made)
                    } else {
                        before.bucket(b)
                    })
            },
        },
    }
}

/// Looks up a name in the directory of `dir_inode` and gives the record of
/// the file that it names: the one of the cache, and where the cache has
/// none, a new one with the number `ino` and the generation `generation`,
/// which is added to the cache.
pub fn lookup<D: BlockReader>(
    sb_info: &SbInfo,
    dev: &D,
    inode_hashtable: &mut InodeHashTable,
    dir_inode: &mut InodeInfo,
    name: String,
    ino: u64,
    generation: u32,
) -> (r: Result<InodeInfo, LookupError>)
    requires
        sb_info.boot_sector_info.wf(),
        old(inode_hashtable).inv(),
    ensures
        final(inode_hashtable).inv(),
        only_periods(encode_utf8(name@)) ==> {
            &&& r == Err::<InodeInfo, LookupError>(LookupError::NotFound)
            &&& *final(dir_inode) == *old(dir_inode)
            &&& *final(inode_hashtable) == *old(inode_hashtable)
        },
        !only_periods(encode_utf8(name@)) && encode_utf8(name@).len() > MAX_PATH_BYTES ==> {
            &&& r == Err::<InodeInfo, LookupError>(LookupError::NameTooLong)
            &&& *final(dir_inode) == *old(dir_inode)
            &&& *final(inode_hashtable) == *old(inode_hashtable)
        },
        !only_periods(encode_utf8(name@)) && encode_utf8(name@).len() <= MAX_PATH_BYTES
            ==> match find_dir_result(dev@, *sb_info, *old(dir_inode), name@) {
            Ok(Some(entry)) => {
                &&& *final(dir_inode) == (InodeInfo {
                    hint_last_dentry_index: entry.index,
                    ..*old(dir_inode)
                })
                &&& is_built(
                    r,
                    *old(inode_hashtable),
                    *final(inode_hashtable),
                    dev@,
                    *sb_info,
                    entry,
                    ino,
                    generation,
                )
            },
            Ok(None) => {
                &&& r == Err::<InodeInfo, LookupError>(LookupError::NotFound)
                &&& *final(dir_inode) == *old(dir_inode)
                &&& *final(inode_hashtable) == *old(inode_hashtable)
            },
            Err(e) => {
                &&& r == Err::<InodeInfo, LookupError>(LookupError::Failed(e))
                &&& *final(dir_inode) == *old(dir_inode)
                &&& *final(inode_hashtable) == *old(inode_hashtable)
            },
        },
{
    let dir_entry = match find(sb_info, dev, dir_inode, name) {
        Err(e) => {
            return Err(e);
        },
        Ok(entry) => entry,
    };
    if let Some(inode) = inode_hashtable.get(dir_entry.chain_start, dir_entry.index) {
        return Ok(inode);
    }
    let num_subdirs: u32 = if dir_entry.attrs.directory() {
        match count_subdirectories(sb_info, dev, dir_entry.data_cluster) {
            Err(e) => {
                return Err(LookupError::Failed(e));
            },
            Ok(n) => n,
        }
    } else {
        0
    };
    match InodeInfo::build(inode_hashtable, sb_info, &dir_entry, ino, generation, num_subdirs) {
        Err(e) => Err(LookupError::Failed(e)),
        Ok(inode) => Ok(inode),
    }
}

} // verus!
