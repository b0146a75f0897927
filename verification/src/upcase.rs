//! The up-case table: the case folding of the volume, stored compressed.

use vstd::prelude::*;
use vstd::slice::slice_subrange;
use crate::bytes::{le16, read_u16_le};
use crate::checksum::{calc_checksum_32, checksum32, lemma_checksum32_append, ChecksumType};
use crate::device::BlockReader;
use crate::directory::upcase::UpCaseTable as UpcaseRecord;
use crate::error::{Error, Result};
use crate::heap::{lemma_read_exact, Chain, ChainPos, ClusterChain};
use crate::directory::{next_upcase, ExFatDirEntryReader, RawDirPos};
use crate::superblock::{BootSectorInfo, NUM_RESERVED_CLUSTERS};

verus! {

/// For each UTF-16 code unit its upper-case form.
pub type UpcaseTable = Vec<u16>;

/// The number of entries of an up-case table: one for each code unit.
pub const UTBL_COUNT: usize = 0x1_0000;

/// The code unit that announces a run of code units that fold to themselves.
pub const UPCASE_RUN_MARK: u16 = 0xFFFF;

/// The table that folds every code unit to itself.
pub open spec fn identity_table() -> Seq<u16> {
    Seq::new(UTBL_COUNT as nat, |i: int| i as u16)
}

/// The state of the decoder of a compressed table.
pub struct UpcaseState {
    /// The code unit whose entry comes next.
    pub index: nat,
    /// True when the next value is the length of a run.
    pub pending_skip: bool,
    pub table: Seq<u16>,
    /// The number of values that the decoder has consumed.
    pub consumed: nat,
}

impl UpcaseState {
    /// The decoder before its first value: every code unit folds to itself.
    pub open spec fn initial() -> UpcaseState {
        UpcaseState { index: 0, pending_skip: false, table: identity_table(), consumed: 0 }
    }

    /// True once every code unit is behind the decoder: it consumes no more.
    pub open spec fn done(self) -> bool {
        self.index > 0xFFFF
    }

    /// The decoder after one more value.
    pub open spec fn step(self, value: u16) -> UpcaseState {
        if self.done() {
            self
        } else if self.pending_skip {
            UpcaseState {
                index: self.index + value as nat,
                pending_skip: false,
                consumed: self.consumed + 1,
                ..self
            }
        } else if value == UPCASE_RUN_MARK {
            UpcaseState { pending_skip: true, consumed: self.consumed + 1, ..self }
        } else if value == self.index {
            UpcaseState { index: self.index + 1, consumed: self.consumed + 1, ..self }
        } else {
            UpcaseState {
                index: self.index + 1,
                table: self.table.update(self.index as int, value),
                consumed: self.consumed + 1,
                ..self
            }
        }
    }

    /// The decoder after the values `units`.
    pub open spec fn run(self, units: Seq<u16>) -> UpcaseState
        decreases units.len(),
    {
        if units.len() == 0 {
            self
        } else {
            self.step(units[0]).run(units.drop_first())
        }
    }
}

/// The 16-bit little-endian values that the bytes hold.
pub open spec fn units_of(bytes: Seq<u8>) -> Seq<u16> {
    Seq::new(bytes.len() / 2, |i: int| le16(bytes, 2 * i))
}

/// The number of code units from `from` on that fold to themselves, one
/// after the other; a run counts 0xFFFF at most.
pub open spec fn identity_run(table: Seq<u16>, from: nat, limit: nat) -> nat
    decreases limit,
{
    if limit == 0 || from >= table.len() || table[from as int] != from {
        0
    } else {
        1 + identity_run(table, from + 1, (limit - 1) as nat)
    }
}

/// The compressed form of the entries of `table` from `from` on: a run of
/// code units that fold to themselves is the mark and the length of the run,
/// any other entry stands for itself.
pub open spec fn encode_from(table: Seq<u16>, from: nat) -> Seq<u16>
    decreases table.len() - from,
{
    if from >= table.len() {
        Seq::empty()
    } else if table[from as int] == from {
        let run = identity_run(table, from, 0xFFFF);
        if 1 <= run <= 0xFFFF && from + run <= table.len() {
            seq![UPCASE_RUN_MARK, run as u16] + encode_from(table, from + run)
        } else {
            Seq::empty()
        }
    } else {
        seq![table[from as int]] + encode_from(table, from + 1)
    }
}

/// The compressed form of a table.
pub open spec fn encode_table(table: Seq<u16>) -> Seq<u16> {
    encode_from(table, 0)
}

/// True for a table that has a compressed form: it has an entry for each
/// code unit, and no code unit folds to the mark but the mark itself.
pub open spec fn encodable(table: Seq<u16>) -> bool {
    &&& table.len() == UTBL_COUNT
    &&& forall|i: int| 0 <= i < table.len() && table[i] == UPCASE_RUN_MARK ==> i == 0xFFFF
}

proof fn lemma_identity_run(table: Seq<u16>, from: nat, limit: nat)
    requires
        from <= table.len(),
    ensures
        identity_run(table, from, limit) <= limit,
        from + identity_run(table, from, limit) <= table.len(),
        forall|i: int|
            from <= i < from + identity_run(table, from, limit) ==> table[i] == i,
    decreases limit,
{
    if !(limit == 0 || from >= table.len() || table[from as int] != from) {
        lemma_identity_run(table, from + 1, (limit - 1) as nat);
    }
}

/// A decoder that is done stays as it is.
pub proof fn lemma_done_absorbs(state: UpcaseState, units: Seq<u16>)
    requires
        state.done(),
    ensures
        state.run(units) == state,
    decreases units.len(),
{
    if units.len() > 0 {
        lemma_done_absorbs(state, units.drop_first());
    }
}

/// Decoding a sequence of values is decoding its first part and then the rest.
pub proof fn lemma_run_append(state: UpcaseState, a: Seq<u16>, b: Seq<u16>)
    ensures
        state.run(a + b) == state.run(a).run(b),
    decreases a.len(),
{
    if a.len() == 0 {
    } else {
        assert((a + b).drop_first() =~= a.drop_first() + b);
        lemma_run_append(state.step(a[0]), a.drop_first(), b);
    }
}

proof fn lemma_round_trip_from(table: Seq<u16>, state: UpcaseState)
    requires
        encodable(table),
        state.index <= UTBL_COUNT,
        !state.pending_skip,
        state.table.len() == UTBL_COUNT,
        forall|i: int| 0 <= i < state.index ==> state.table[i] == table[i],
        forall|i: int| state.index <= i < UTBL_COUNT ==> state.table[i] == i,
    ensures
        state.run(encode_from(table, state.index)) == (UpcaseState {
            index: UTBL_COUNT as nat,
            pending_skip: false,
            table,
            consumed: state.consumed + encode_from(table, state.index).len(),
        }),
    decreases UTBL_COUNT - state.index,
{
    let from = state.index;
    reveal_with_fuel(UpcaseState::run, 3);
    if from >= UTBL_COUNT {
        assert(state.table =~= table);
    } else if table[from as int] == from {
        let run = identity_run(table, from, 0xFFFF);
        lemma_identity_run(table, from, 0xFFFF);
        let head = seq![UPCASE_RUN_MARK, run as u16];
        let tail = encode_from(table, from + run);
        let marked = state.step(UPCASE_RUN_MARK);
        let after = marked.step(run as u16);
        lemma_run_append(state, head, tail);
        lemma_round_trip_from(table, after);
    } else {
        let value = table[from as int];
        let head = seq![value];
        let tail = encode_from(table, from + 1);
        let after = state.step(value);
        lemma_run_append(state, head, tail);
        lemma_round_trip_from(table, after);
    }
}

/// Decoding the compressed form of a table gives the table back, whatever
/// follows the compressed form: the decoder covers every code unit and
/// consumes the compressed form and nothing else.
pub proof fn lemma_upcase_round_trip(table: Seq<u16>, rest: Seq<u16>)
    requires
        encodable(table),
    ensures
        UpcaseState::initial().run(encode_table(table) + rest) == (UpcaseState {
            index: UTBL_COUNT as nat,
            pending_skip: false,
            table,
            consumed: encode_table(table).len(),
        }),
{
    let start = UpcaseState::initial();
    lemma_round_trip_from(table, start);
    lemma_run_append(start, encode_table(table), rest);
    lemma_done_absorbs(start.run(encode_table(table)), rest);
}


/// The table that is used where the volume has none that can be used: the
/// letters `a` to `z` fold to `A` to `Z`, every other code unit to itself.
/// These are the foldings that every up-case table of a volume must hold.
/// No letter outside ASCII is folded: with this table two names that differ
/// only in the case of such a letter are two names.
pub open spec fn default_table() -> Seq<u16> {
    Seq::new(
        UTBL_COUNT as nat,
        |i: int|
            if 0x61 <= i <= 0x7A {
                (i - 0x20) as u16
            } else {
                i as u16
            },
    )
}

/// Makes room for a table, with every entry zero. `None` when the memory
/// for it cannot be had.
fn try_table() -> (r: Option<Vec<u16>>)
    ensures
        r matches Some(table) ==> table@ == zero_units(UTBL_COUNT as nat),
{
    let mut table: Vec<u16> = Vec::new();
    let reserved = table.try_reserve(UTBL_COUNT);
    let r = zeroed_units(reserved, table, UTBL_COUNT);
    assert(r matches Some(filled) ==> filled@ =~= zero_units(UTBL_COUNT as nat));
    r
}

/// A table of `size` entries, every one of them zero.
pub open spec fn zero_units(size: nat) -> Seq<u16> {
    Seq::new(size, |i: int| 0u16)
}

/// What making room for `size` more entries gives, for what reserving the
/// memory has given: the table with `size` zeros behind what it held where
/// the memory was had, and `None` where it was not.
pub fn zeroed_units(
    reserved: core::result::Result<(), std::collections::TryReserveError>,
    table: Vec<u16>,
    size: usize,
) -> (r: Option<Vec<u16>>)
    ensures
        reserved is Ok ==> (r matches Some(filled) && filled@ == table@ + zero_units(size as nat)),
        reserved is Err ==> r is None,
{
    match reserved {
        Ok(()) => {},
        Err(_) => {
            return None;
        },
    }
    let mut filled = table;
    let mut i: usize = 0;
    while i < size
        invariant
            i <= size,
            filled@ == table@ + zero_units(i as nat),
        decreases size - i,
    {
        filled.push(0);
        i += 1;
        assert(filled@ =~= table@ + zero_units(i as nat));
    }
    Some(filled)
}

/// Fills a table with the entries of the default table.
pub fn default_upcase_table_into(table: Vec<u16>) -> (r: UpcaseTable)
    requires
        table@.len() == UTBL_COUNT,
    ensures
        r@ == default_table(),
{
    let mut table = table;
    let mut i: usize = 0;
    while i < UTBL_COUNT
        invariant
            i <= UTBL_COUNT,
            table@.len() == UTBL_COUNT,
            forall|j: int| 0 <= j < i ==> table@[j] == default_table()[j],
        decreases UTBL_COUNT - i,
    {
        if 0x61 <= i && i <= 0x7A {
            table[i] = (i - 0x20) as u16;
        } else {
            table[i] = i as u16;
        }
        i += 1;
    }
    table
}

/// Builds the table that is used where the volume has none that can be
/// used. Without the memory for it this is `ResourceExhaustion`.
pub fn load_default_upcase_table() -> (r: Result<UpcaseTable>)
    ensures
        r matches Ok(table) ==> table@ == default_table() && table@.len() == UTBL_COUNT,
        r matches Err(e) ==> e == Error::ResourceExhaustion,
{
    match try_table() {
        None => Err(Error::ResourceExhaustion),
        Some(table) => Ok(default_upcase_table_into(table)),
    }
}

/// The decoder of a compressed table, fed with the bytes of the table.
struct Decoder {
    table: Vec<u16>,
    unicode_index: usize,
    read_skip: bool,
    consumed: Ghost<nat>,
}

impl View for Decoder {
    type V = UpcaseState;

    closed spec fn view(&self) -> UpcaseState {
        UpcaseState {
            index: self.unicode_index as nat,
            pending_skip: self.read_skip,
            table: self.table@,
            consumed: self.consumed@,
        }
    }
}

impl Decoder {
    spec fn inv(&self) -> bool {
        &&& self.table@.len() == UTBL_COUNT
        &&& self.unicode_index <= 0x1_FFFE
    }

    /// A decoder before its first value, with its table in `table`.
    fn new(table: Vec<u16>) -> (r: Self)
        requires
            table@.len() == UTBL_COUNT,
        ensures
            r.inv(),
            r@ == UpcaseState::initial(),
    {
        let mut table = table;
        let mut i: usize = 0;
        while i < UTBL_COUNT
            invariant
                i <= UTBL_COUNT,
                table@.len() == UTBL_COUNT,
                forall|j: int| 0 <= j < i ==> table@[j] == j as u16,
            decreases UTBL_COUNT - i,
        {
            table[i] = i as u16;
            i += 1;
        }
        assert(table@ =~= identity_table());
        Decoder { table, unicode_index: 0, read_skip: false, consumed: Ghost(0) }
    }

    /// Feeds the decoder the values that `data` holds, as long as it is not
    /// done. Returns the number of bytes that it consumed.
    fn feed(&mut self, data: &[u8]) -> (used: usize)
        requires
            old(self).inv(),
            data@.len() % 2 == 0,
        ensures
            final(self).inv(),
            final(self)@ == old(self)@.run(units_of(data@)),
            used == 2 * (final(self)@.consumed - old(self)@.consumed),
            used <= data@.len(),
    {
        let count: usize = data.len() / 2;
        let ghost units = units_of(data@);
        let mut i: usize = 0;
        proof {
            assert(units.skip(0) =~= units);
        }
        while i < count && self.unicode_index <= 0xFFFF
            invariant
                self.inv(),
                i <= count,
                count == data@.len() / 2,
                data@.len() <= usize::MAX,
                units == units_of(data@),
                self@.run(units.skip(i as int)) == old(self)@.run(units),
                self@.consumed == old(self)@.consumed + i,
            decreases count - i,
        {
            let entry: u16 = read_u16_le(data, 2 * i);
            proof {
                assert(units.skip(i as int).drop_first() =~= units.skip(i + 1));
            }
            if self.read_skip {
                // the entry is the length of a run of code units that fold
                // to themselves
                self.unicode_index = self.unicode_index + entry as usize;
                self.read_skip = false;
            } else if entry == UPCASE_RUN_MARK {
                self.read_skip = true;
            } else if entry as usize == self.unicode_index {
                self.unicode_index = self.unicode_index + 1;
            } else {
                self.table[self.unicode_index] = entry;
                self.unicode_index = self.unicode_index + 1;
            }
            proof {
                self.consumed@ = self.consumed@ + 1;
            }
            i += 1;
        }
        proof {
            if self.unicode_index > 0xFFFF {
                lemma_done_absorbs(self@, units.skip(i as int));
            }
        }
        2 * i
    }
}

/// Decoding a table from the sectors of a stream: the decoder and the
/// checksum after `sectors` more sectors, or after as many as the decoder
/// needs to be done. The checksum covers the bytes that the decoder consumed.
pub open spec fn load_from(pos: ChainPos, sectors: nat, state: UpcaseState, checksum: u32) -> Result<
    (UpcaseState, u32),
>
    decreases sectors,
{
    if sectors == 0 || state.done() {
        Ok((state, checksum))
    } else {
        let (after, r) = pos.read_exact(512);
        match r {
            Err(e) => Err(e),
            Ok(_) => {
                let data = pos.chain.bytes(pos.offset, pos.offset + 512);
                let next = state.run(units_of(data));
                load_from(
                    after,
                    (sectors - 1) as nat,
                    next,
                    checksum32(
                        data.take(2 * (next.consumed - state.consumed)),
                        checksum,
                        ChecksumType::Default,
                    ),
                )
            },
        }
    }
}

/// What loading the table at `cluster` gives: the table, where the first
/// `num_sectors` sectors of its chain cover at least the code units up to
/// 0xFFFE and have the checksum `checksum`.
pub open spec fn load_result(chain: Chain, num_sectors: u64, checksum: u32) -> Result<Seq<u16>> {
    if !(NUM_RESERVED_CLUSTERS <= chain.start < chain.boot.num_clusters) {
        Err(Error::Corruption)
    } else {
        match load_from(ChainPos::start(chain), num_sectors as nat, UpcaseState::initial(), 0) {
            Err(e) => Err(e),
            Ok((state, sum)) => if state.index < 0xFFFF {
                Err(Error::InvalidFormat)
            } else if sum != checksum {
                Err(Error::ChecksumMismatch)
            } else {
                Ok(state.table)
            },
        }
    }
}

/// True when `r` is what loading the table of a chain gives.
pub open spec fn is_load_result(
    r: Result<UpcaseTable>,
    chain: Chain,
    num_sectors: u64,
    checksum: u32,
) -> bool {
    match load_result(chain, num_sectors, checksum) {
        Ok(table) => r matches Ok(t) && t@ == table && t@.len() == UTBL_COUNT,
        Err(e) => r matches Err(err) && err == e,
    }
}

/// Loads the up-case table whose chain starts at `cluster`, from the first
/// `num_sectors` sectors of the chain, into the memory of `table`.
///
/// A table that does not cover the code units is `InvalidFormat`; one whose
/// checksum is not `utbl_checksum` is `ChecksumMismatch`.
pub fn load_upcase_table_into<D: BlockReader>(
    boot: &BootSectorInfo,
    dev: &D,
    cluster: u32,
    num_sectors: u64,
    utbl_checksum: u32,
    table: Vec<u16>,
) -> (r: Result<UpcaseTable>)
    requires
        boot.wf(),
        table@.len() == UTBL_COUNT,
    ensures
        is_load_result(
            r,
            Chain { disk: dev@, boot: *boot, contiguous: false, start: cluster },
            num_sectors,
            utbl_checksum,
        ),
{
    let mut chain = match ClusterChain::new(boot, dev, cluster) {
        Err(e) => {
            return Err(e);
        },
        Ok(chain) => chain,
    };
    let mut decoder = Decoder::new(table);
    let mut checksum: u32 = 0;
    let mut left: u64 = num_sectors;
    let ghost start = chain@;
    while left > 0 && decoder.unicode_index <= 0xFFFF
        invariant
            chain.inv(),
            decoder.inv(),
            NUM_RESERVED_CLUSTERS <= cluster < boot.num_clusters,
            start == ChainPos::start(
                Chain { disk: dev@, boot: *boot, contiguous: false, start: cluster },
            ),
            load_from(chain@, left as nat, decoder@, checksum) == load_from(
                start,
                num_sectors as nat,
                UpcaseState::initial(),
                0,
            ),
        decreases left,
    {
        let mut buf = [0u8; 512];
        match chain.read_exact(&mut buf) {
            Err(e) => {
                return Err(e);
            },
            Ok(()) => {},
        }
        let used = decoder.feed(buf.as_slice());
        checksum = calc_checksum_32(slice_subrange(buf.as_slice(), 0, used), checksum, ChecksumType::Default);
        left -= 1;
    }
    if decoder.unicode_index < 0xFFFF {
        Err(Error::InvalidFormat)
    } else if checksum != utbl_checksum {
        Err(Error::ChecksumMismatch)
    } else {
        Ok(decoder.table)
    }
}

/// Loads the up-case table whose chain starts at `cluster`, from the first
/// `num_sectors` sectors of the chain.
///
/// A table outside the cluster heap is `Corruption`. Behind that, without
/// the memory for the table this is `ResourceExhaustion`, whatever the
/// table holds.
pub fn load_upcase_table<D: BlockReader>(
    boot: &BootSectorInfo,
    dev: &D,
    cluster: u32,
    num_sectors: u64,
    utbl_checksum: u32,
) -> (r: Result<UpcaseTable>)
    requires
        boot.wf(),
    ensures
        !(NUM_RESERVED_CLUSTERS <= cluster < boot.num_clusters) ==> is_load_result(
            r,
            Chain { disk: dev@, boot: *boot, contiguous: false, start: cluster },
            num_sectors,
            utbl_checksum,
        ),
        r matches Err(Error::ResourceExhaustion) || is_load_result(
            r,
            Chain { disk: dev@, boot: *boot, contiguous: false, start: cluster },
            num_sectors,
            utbl_checksum,
        ),
{
    if cluster < NUM_RESERVED_CLUSTERS || cluster >= boot.num_clusters {
        return Err(Error::Corruption);
    }
    match try_table() {
        None => Err(Error::ResourceExhaustion),
        Some(table) => load_upcase_table_into(boot, dev, cluster, num_sectors, utbl_checksum, table),
    }
}

/// The number of sectors that hold `data_length` bytes.
pub open spec fn sectors_for(data_length: u64) -> u64 {
    if data_length == 0 {
        0
    } else {
        ((data_length - 1) / 512 + 1) as u64
    }
}

/// What looking for the up-case table of a volume gives: the first
/// up-case record of the root directory, `None` where there is none, and
/// the error where the root directory cannot be read.
pub open spec fn upcase_record_result(disk: crate::device::Disk, boot: BootSectorInfo) -> Result<
    Option<UpcaseRecord>,
> {
    if !(NUM_RESERVED_CLUSTERS <= boot.root_dir < boot.num_clusters) {
        Err(Error::Corruption)
    } else {
        let root = Chain { disk, boot, contiguous: false, start: boot.root_dir };
        match next_upcase(RawDirPos::start(root)).1 {
            Some(Err(e)) => Err(e),
            None => Ok(None),
            Some(Ok(record)) => Ok(Some(record)),
        }
    }
}

/// What an up-case record leads to: its table, `None` where the table
/// cannot be used, and an `IoError` where it cannot be read.
pub open spec fn record_table(disk: crate::device::Disk, boot: BootSectorInfo, record: UpcaseRecord) -> Result<
    Option<Seq<u16>>,
> {
    match load_result(
        Chain { disk, boot, contiguous: false, start: record.first_cluster },
        sectors_for(record.data_length),
        record.table_checksum,
    ) {
        Ok(table) => Ok(Some(table)),
        Err(e) => if e == Error::IoError {
            Err(Error::IoError)
        } else {
            Ok(None)
        },
    }
}

/// What the root directory says of the up-case table of a volume: the
/// table that its first up-case record leads to, `None` where there is no
/// such record or its table cannot be used, and the error where the volume
/// cannot be read.
pub open spec fn find_result(disk: crate::device::Disk, boot: BootSectorInfo) -> Result<
    Option<Seq<u16>>,
> {
    match upcase_record_result(disk, boot) {
        Err(e) => Err(e),
        Ok(None) => Ok(None),
        Ok(Some(record)) => record_table(disk, boot, record),
    }
}

/// What creating the up-case table of a volume gives: the table of the
/// volume, or the default table where the volume has none that can be used.
pub open spec fn create_result(disk: crate::device::Disk, boot: BootSectorInfo) -> Result<Seq<u16>> {
    match find_result(disk, boot) {
        Err(e) => Err(e),
        Ok(None) => Ok(default_table()),
        Ok(Some(table)) => Ok(table),
    }
}

/// True when `r` is the table with the given entries, `None` where there
/// is none, or the given error.
pub open spec fn is_table(r: Result<Option<UpcaseTable>>, table: Result<Option<Seq<u16>>>) -> bool {
    match table {
        Ok(Some(found)) => r matches Ok(Some(t)) && t@ == found && t@.len() == UTBL_COUNT,
        Ok(None) => r matches Ok(None),
        Err(e) => r matches Err(err) && err == e,
    }
}

/// True when `r` is what creating the up-case table of a volume gives.
pub open spec fn is_create_result(r: Result<UpcaseTable>, disk: crate::device::Disk, boot: BootSectorInfo) -> bool {
    match create_result(disk, boot) {
        Ok(table) => r matches Ok(t) && t@ == table && t@.len() == UTBL_COUNT,
        Err(e) => r matches Err(err) && err == e,
    }
}

/// Looks for the up-case table of a volume: the first up-case record of
/// the root directory.
pub fn locate_upcase_table<D: BlockReader>(boot: &BootSectorInfo, dev: &D) -> (r: Result<
    Option<UpcaseRecord>,
>)
    requires
        boot.wf(),
    ensures
        r == upcase_record_result(dev@, *boot),
{
    let mut reader = match ExFatDirEntryReader::new(boot, dev, boot.root_dir) {
        Err(e) => {
            return Err(e);
        },
        Ok(reader) => reader,
    };
    match reader.find_upcase_table() {
        Some(Err(e)) => Err(e),
        None => Ok(None),
        Some(Ok(record)) => Ok(Some(record)),
    }
}

/// Loads the table that an up-case record names into the memory of
/// `table`. `None` says that the table cannot be used.
pub fn read_upcase_record<D: BlockReader>(
    boot: &BootSectorInfo,
    dev: &D,
    record: &UpcaseRecord,
    table: Vec<u16>,
) -> (r: Result<Option<UpcaseTable>>)
    requires
        boot.wf(),
        table@.len() == UTBL_COUNT,
    ensures
        is_table(r, record_table(dev@, *boot, *record)),
{
    let num_sectors: u64 = if record.data_length == 0 {
        0
    } else {
        (record.data_length - 1) / 512 + 1
    };
    match load_upcase_table_into(
        boot,
        dev,
        record.first_cluster,
        num_sectors,
        record.table_checksum,
        table,
    ) {
        Ok(upcase_table) => Ok(Some(upcase_table)),
        Err(Error::IoError) => Err(Error::IoError),
        Err(_) => Ok(None),
    }
}

/// Loads the table that the root directory names into the memory of
/// `table`. `None` says that the default table has to be used.
pub fn read_upcase_table<D: BlockReader>(boot: &BootSectorInfo, dev: &D, table: Vec<u16>) -> (r:
    Result<Option<UpcaseTable>>)
    requires
        boot.wf(),
        table@.len() == UTBL_COUNT,
    ensures
        is_table(r, find_result(dev@, *boot)),
{
    match locate_upcase_table(boot, dev) {
        Err(e) => Err(e),
        Ok(None) => Ok(None),
        Ok(Some(record)) => read_upcase_record(boot, dev, &record, table),
    }
}

/// Creates the up-case table of a volume: loads the table that the root
/// directory names, and falls back to the default table where there is
/// none or it cannot be used.
///
/// The record of the table is looked for first: a root directory that
/// cannot be read is reported as it is. Behind that, without the memory for
/// a table this is `ResourceExhaustion`, whatever the disk holds.
pub fn create_upcase_table<D: BlockReader>(boot: &BootSectorInfo, dev: &D) -> (r: Result<
    UpcaseTable,
>)
    requires
        boot.wf(),
    ensures
        upcase_record_result(dev@, *boot) is Err ==> is_create_result(r, dev@, *boot),
        r matches Err(Error::ResourceExhaustion) || is_create_result(r, dev@, *boot),
{
    let record = match locate_upcase_table(boot, dev) {
        Err(e) => {
            return Err(e);
        },
        Ok(None) => {
            return load_default_upcase_table();
        },
        Ok(Some(record)) => record,
    };
    let table = match try_table() {
        None => {
            return Err(Error::ResourceExhaustion);
        },
        Some(table) => table,
    };
    match read_upcase_record(boot, dev, &record, table) {
        Err(e) => Err(e),
        Ok(Some(table)) => Ok(table),
        Ok(None) => load_default_upcase_table(),
    }
}

/// The bytes of 16-bit values, each in little-endian order.
pub open spec fn bytes_of(units: Seq<u16>) -> Seq<u8> {
    Seq::new(
        2 * units.len(),
        |i: int|
            if i % 2 == 0 {
                (units[i / 2] % 0x100) as u8
            } else {
                (units[i / 2] / 0x100) as u8
            },
    )
}

/// The values that follow bytes of values are the values and what the
/// bytes behind them hold.
proof fn lemma_units_of_bytes(units: Seq<u16>, tail: Seq<u8>)
    ensures
        units_of(bytes_of(units) + tail) == units + units_of(tail),
{
    let whole = bytes_of(units) + tail;
    assert forall|i: int| 0 <= i < units_of(whole).len() implies units_of(whole)[i] == (units
        + units_of(tail))[i] by {
    }
}

/// The values of bytes are the values of a part of them of even length and
/// the values of the rest.
proof fn lemma_units_split(bytes: Seq<u8>, at: int)
    requires
        0 <= at <= bytes.len(),
        at % 2 == 0,
    ensures
        units_of(bytes) == units_of(bytes.take(at)) + units_of(bytes.skip(at)),
{
    let left = units_of(bytes.take(at));
    let right = units_of(bytes.skip(at));
    assert forall|i: int| 0 <= i < units_of(bytes).len() implies units_of(bytes)[i] == (left
        + right)[i] by {
    }
}

/// A decoder consumes each value that it is given, until it is done.
proof fn lemma_run_consumed(state: UpcaseState, units: Seq<u16>)
    ensures
        state.consumed <= state.run(units).consumed <= state.consumed + units.len(),
        !state.run(units).done() ==> state.run(units).consumed == state.consumed + units.len(),
    decreases units.len(),
{
    if units.len() > 0 {
        lemma_run_consumed(state.step(units[0]), units.drop_first());
        if state.done() {
            lemma_done_absorbs(state, units);
        }
    }
}

/// A decoder is not done before it has consumed the whole compressed form
/// of a table.
proof fn lemma_prefix_not_done(table: Seq<u16>, count: int)
    requires
        encodable(table),
        0 <= count < encode_table(table).len(),
    ensures
        !UpcaseState::initial().run(encode_table(table).take(count)).done(),
{
    let encoded = encode_table(table);
    let start = UpcaseState::initial();
    let head = encoded.take(count);
    let tail = encoded.skip(count);
    if start.run(head).done() {
        assert(encoded =~= head + tail);
        lemma_run_append(start, head, tail);
        lemma_done_absorbs(start.run(head), tail);
        lemma_run_consumed(start, head);
        lemma_upcase_round_trip(table, Seq::empty());
    }
}

/// The state of loading a table that the first `done` sectors of `data`
/// have led to.
spec fn loaded(data: Seq<u8>, done: nat) -> (UpcaseState, u32) {
    let state = UpcaseState::initial().run(units_of(data.take(512 * done as int)));
    (state, checksum32(data.take(2 * state.consumed as int), 0, ChecksumType::Default))
}

/// Once every sector of the data is loaded, the table is decoded and the
/// checksum is that of the compressed form.
proof fn lemma_loaded_all(table: Seq<u16>, tail: Seq<u8>, done: nat)
    requires
        encodable(table),
        512 * done == (bytes_of(encode_table(table)) + tail).len(),
    ensures
        loaded(bytes_of(encode_table(table)) + tail, done) == (
            UpcaseState {
                index: UTBL_COUNT as nat,
                pending_skip: false,
                table,
                consumed: encode_table(table).len(),
            },
            checksum32(bytes_of(encode_table(table)), 0, ChecksumType::Default),
        ),
{
    let encoded = encode_table(table);
    let data = bytes_of(encoded) + tail;
    assert(data.take(512 * done as int) =~= data);
    lemma_units_of_bytes(encoded, tail);
    lemma_upcase_round_trip(table, units_of(tail));
    assert(data.take(2 * encoded.len() as int) =~= bytes_of(encoded));
}

/// Before every sector of the data is loaded, the decoder is not done, and
/// one more sector leads from one state of loading to the next.
proof fn lemma_loaded_next(table: Seq<u16>, tail: Seq<u8>, done: nat)
    requires
        encodable(table),
        tail.len() < 512,
        512 * (done + 1) <= (bytes_of(encode_table(table)) + tail).len(),
    ensures
        ({
            let data = bytes_of(encode_table(table)) + tail;
            let sector = data.subrange(512 * done as int, 512 * done as int + 512);
            let (state, sum) = loaded(data, done);
            let next = state.run(units_of(sector));
            &&& !state.done()
            &&& next == loaded(data, done + 1).0
            &&& checksum32(
                sector.take(2 * (next.consumed - state.consumed)),
                sum,
                ChecksumType::Default,
            ) == loaded(data, done + 1).1
        }),
{
    let encoded = encode_table(table);
    let data = bytes_of(encoded) + tail;
    let start = UpcaseState::initial();
    let (state, sum) = loaded(data, done);
    let at = 512 * done as int;
    let head = data.take(at);
    let sector = data.subrange(at, at + 512);
    lemma_units_of_bytes(encoded, tail);
    lemma_units_split(data, at);
    assert(units_of(head) =~= encoded.take(256 * done as int));
    lemma_prefix_not_done(table, 256 * done as int);
    lemma_run_consumed(start, units_of(head));

    let more = data.take(at + 512);
    lemma_units_split(more, at);
    assert(more.take(at) =~= head);
    assert(more.skip(at) =~= sector);
    lemma_run_append(start, units_of(head), units_of(sector));
    let next = state.run(units_of(sector));
    lemma_run_consumed(state, units_of(sector));
    let used = 2 * (next.consumed - state.consumed);
    assert(data.take(2 * next.consumed as int) =~= head + sector.take(used));
    lemma_checksum32_append(head, sector.take(used), 0);
}

proof fn lemma_load_steps(chain: Chain, table: Seq<u16>, tail: Seq<u8>, left: nat, done: nat)
    requires
        chain.boot.wf(),
        encodable(table),
        tail.len() < 512,
        (bytes_of(encode_table(table)) + tail).len() % 512 == 0,
        ChainPos::start(chain).can_read((bytes_of(encode_table(table)) + tail).len()),
        chain.bytes(0, (bytes_of(encode_table(table)) + tail).len()) == bytes_of(
            encode_table(table),
        ) + tail,
        512 * done <= (bytes_of(encode_table(table)) + tail).len(),
        512 * (done + left) >= (bytes_of(encode_table(table)) + tail).len(),
    ensures
        load_from(
            ChainPos { chain, offset: 512 * done, exhausted: false },
            left,
            loaded(bytes_of(encode_table(table)) + tail, done).0,
            loaded(bytes_of(encode_table(table)) + tail, done).1,
        ) == Ok::<(UpcaseState, u32), Error>(
            (
                UpcaseState {
                    index: UTBL_COUNT as nat,
                    pending_skip: false,
                    table,
                    consumed: encode_table(table).len(),
                },
                checksum32(bytes_of(encode_table(table)), 0, ChecksumType::Default),
            ),
        ),
    decreases (bytes_of(encode_table(table)) + tail).len() - 512 * done,
{
    let data = bytes_of(encode_table(table)) + tail;
    let at = 512 * done as int;
    if at == data.len() {
        lemma_loaded_all(table, tail, done);
    } else {
        lemma_loaded_next(table, tail, done);
        let pos = ChainPos { chain, offset: 512 * done, exhausted: false };
        lemma_read_exact(pos, 512);
        let sector = chain.bytes(512 * done, 512 * done + 512);
        assert(sector =~= data.subrange(at, at + 512));
        lemma_load_steps(chain, table, tail, (left - 1) as nat, done + 1);
    }
}

/// Loading the compressed form of a table gives the table back, and the
/// checksum that is compared is the checksum of the bytes of the compressed
/// form: a table whose compressed form lies at the start of a chain, in
/// sectors that can be read, is loaded when the checksum of these bytes is
/// the one that is asked for. What follows the compressed form in its last
/// sector does not count.
pub proof fn lemma_load_round_trip(chain: Chain, table: Seq<u16>, tail: Seq<u8>, num_sectors: u64)
    requires
        chain.boot.wf(),
        NUM_RESERVED_CLUSTERS <= chain.start < chain.boot.num_clusters,
        encodable(table),
        tail.len() < 512,
        (bytes_of(encode_table(table)) + tail).len() % 512 == 0,
        (bytes_of(encode_table(table)) + tail).len() <= num_sectors * 512,
        ChainPos::start(chain).can_read((bytes_of(encode_table(table)) + tail).len()),
        chain.bytes(0, (bytes_of(encode_table(table)) + tail).len()) == bytes_of(
            encode_table(table),
        ) + tail,
    ensures
        load_result(
            chain,
            num_sectors,
            checksum32(bytes_of(encode_table(table)), 0, ChecksumType::Default),
        ) == Ok::<Seq<u16>, Error>(table),
{
    lemma_load_steps(chain, table, tail, num_sectors as nat, 0);
}

} // verus!
