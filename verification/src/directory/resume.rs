//! A hint changes what a scan costs, and nothing of what it reads.

use vstd::prelude::*;
use vstd::arithmetic::div_mod::{
    lemma_fundamental_div_mod, lemma_fundamental_div_mod_converse, lemma_mod_multiples_vanish,
};
use crate::device::Disk;
use crate::directory::{
    collect_name, name_records, next_entry, next_file, record_failure, scan, ExFatDirEntryKind,
    RawDirPos,
};
use crate::fat::{chain_clusters, fat_link, FatLink};
use crate::heap::{Chain, ChainPos};
use crate::hint::ClusterHint;
use crate::superblock::BootSectorInfo;

verus! {

/// True when the hint names a cluster of the directory at `cluster`: the
/// cluster with number `hint.offset` of its chain.
pub open spec fn hint_holds(disk: Disk, boot: BootSectorInfo, cluster: u32, hint: ClusterHint) -> bool {
    let clusters = chain_clusters(disk, boot, false, cluster);
    hint.offset < clusters.len() && clusters[hint.offset as int] == hint.index
}

/// The chain that starts at the cluster with number `k` of a chain.
pub open spec fn chain_from(chain: Chain, k: int) -> Chain {
    Chain { start: chain.clusters()[k], ..chain }
}

/// The chain from a cluster of a chain on is the rest of that chain, and
/// stops as that chain stops.
pub proof fn lemma_chain_suffix(chain: Chain, k: int)
    requires
        0 <= k < chain.clusters().len(),
    ensures
        chain_from(chain, k).clusters() == chain.clusters().skip(k),
        chain_from(chain, k).stop() == chain.stop(),
        chain_from(chain, k).len() + k * chain.boot.cluster_size == chain.len(),
    decreases k,
{
    let cs = chain.boot.cluster_size as int;
    if k == 0 {
        assert(chain_from(chain, 0) == chain);
        assert(chain.clusters().skip(0) =~= chain.clusters());
    } else {
        match fat_link(chain.disk, chain.boot, chain.contiguous, chain.start) {
            FatLink::Next(next) => {
                let rest = Chain { start: next, ..chain };
                assert(chain.clusters() =~= seq![chain.start] + rest.clusters());
                lemma_chain_suffix(rest, k - 1);
                assert(chain.clusters()[k] == rest.clusters()[k - 1]);
                assert(chain_from(chain, k) == chain_from(rest, k - 1));
                assert(chain.clusters().skip(k) =~= rest.clusters().skip(k - 1));
                assert((rest.clusters().len() + 1) * cs == rest.clusters().len() * cs + cs)
                    by (nonlinear_arith);
                assert((k - 1) * cs + cs == k * cs) by (nonlinear_arith);
            },
            _ => {
                assert(chain.clusters() =~= seq![chain.start]);
            },
        }
    }
}

/// A byte of the chain from a cluster of a chain on is the byte of that
/// chain that lies as many clusters further.
pub proof fn lemma_suffix_offset(chain: Chain, k: int, o: nat)
    requires
        chain.boot.wf(),
        0 <= k < chain.clusters().len(),
        o < chain_from(chain, k).len(),
    ensures
        chain_from(chain, k).sector_of(o) == chain.sector_of(
            (o + k * chain.boot.cluster_size) as nat,
        ),
        chain_from(chain, k).readable(o) == chain.readable((o + k * chain.boot.cluster_size) as nat),
        chain_from(chain, k).byte(o) == chain.byte((o + k * chain.boot.cluster_size) as nat),
        chain_from(chain, k).clusters()[o as int / chain.boot.cluster_size as int]
            == chain.clusters()[(o + k * chain.boot.cluster_size) / chain.boot.cluster_size as int],
{
    let cs = chain.boot.cluster_size as int;
    let spc = chain.boot.sect_per_clus as int;
    let part = chain_from(chain, k);
    lemma_chain_suffix(chain, k);
    let q = o as int / cs;
    let r = o as int % cs;
    lemma_fundamental_div_mod(o as int, cs);
    assert(cs * q + k * cs == (q + k) * cs) by (nonlinear_arith);
    lemma_fundamental_div_mod_converse(o + k * cs, cs, q + k, r);
    assert(q < part.clusters().len()) by (nonlinear_arith)
        requires
            cs * q <= o,
            o < part.clusters().len() * cs,
            cs > 0,
    ;
    assert(part.clusters()[q] == chain.clusters()[k + q]);
    assert(k * cs == 512 * (k * spc)) by (nonlinear_arith)
        requires
            cs == spc * 512,
    ;
    lemma_mod_multiples_vanish(k * spc, o as int, 512);
}

/// The number of clusters that lie between two positions.
pub open spec fn clusters_between(a: ChainPos, b: ChainPos) -> int {
    (b.offset - a.offset) / (b.chain.boot.cluster_size as int)
}

/// True when the position `a` reads what the position `b` reads: `a` lies
/// in the chain from a cluster of the chain of `b` on, as far into it as `b`
/// lies behind that cluster.
pub open spec fn same_stream(a: ChainPos, b: ChainPos) -> bool {
    let k = clusters_between(a, b);
    &&& a.wf()
    &&& b.wf()
    &&& 0 <= k < b.chain.clusters().len()
    &&& a.chain == chain_from(b.chain, k)
    &&& b.offset == a.offset + k * b.chain.boot.cluster_size
    &&& a.exhausted == b.exhausted
}

/// True when the reader `a` reads what the reader `b` reads.
pub open spec fn same_records(a: RawDirPos, b: RawDirPos) -> bool {
    match a {
        RawDirPos::Fused => b is Fused,
        RawDirPos::At { pos, index, chain_start } => b matches RawDirPos::At {
            pos: other,
            index: other_index,
            chain_start: other_start,
        } && index == other_index && chain_start == other_start && same_stream(pos, other),
    }
}

/// Two positions that read the same find the same record, or the same
/// failure, and read the same behind the record.
pub proof fn lemma_same_stream_record(a: ChainPos, b: ChainPos)
    requires
        same_stream(a, b),
    ensures
        a.can_read(32) == b.can_read(32),
        record_failure(a) == record_failure(b),
        a.chain.len() - a.offset == b.chain.len() - b.offset,
        a.can_read(32) ==> {
            &&& a.chain.bytes(a.offset, a.offset + 32) == b.chain.bytes(b.offset, b.offset + 32)
            &&& a.chain.clusters()[a.offset as int / a.chain.boot.cluster_size as int]
                == b.chain.clusters()[b.offset as int / b.chain.boot.cluster_size as int]
            &&& same_stream(
                ChainPos { offset: a.offset + 32, ..a },
                ChainPos { offset: b.offset + 32, ..b },
            )
        },
{
    let k = clusters_between(a, b);
    let cs = b.chain.boot.cluster_size as int;
    let shift = k * cs;
    lemma_chain_suffix(b.chain, k);
    if a.can_read(32) {
        assert forall|o: nat| b.offset <= o < b.offset + 32 implies b.chain.readable(o) by {
            lemma_suffix_offset(b.chain, k, (o - shift) as nat);
            assert(a.chain.readable((o - shift) as nat));
        }
    }
    if b.can_read(32) {
        assert forall|o: nat| a.offset <= o < a.offset + 32 implies a.chain.readable(o) by {
            lemma_suffix_offset(b.chain, k, o);
            assert(b.chain.readable((o + shift) as nat));
        }
    }
    if a.can_read(32) {
        assert forall|i: int| 0 <= i < 32 implies #[trigger] a.chain.bytes(
            a.offset,
            a.offset + 32,
        )[i] == b.chain.bytes(b.offset, b.offset + 32)[i] by {
            lemma_suffix_offset(b.chain, k, (a.offset + i) as nat);
        }
        assert(a.chain.bytes(a.offset, a.offset + 32) =~= b.chain.bytes(b.offset, b.offset + 32));
        lemma_suffix_offset(b.chain, k, a.offset);
    }
}

/// Two readers that read the same take the same step.
pub proof fn lemma_same_records_step(a: RawDirPos, b: RawDirPos)
    requires
        same_records(a, b),
    ensures
        a.step().1 == b.step().1,
        same_records(a.step().0, b.step().0),
        a.remaining() == b.remaining(),
{
    reveal(RawDirPos::step);
    if let RawDirPos::At { pos, index, chain_start } = a {
        if let RawDirPos::At { pos: other, index: other_index, chain_start: other_start } = b {
            lemma_same_stream_record(pos, other);
        }
    }
}

/// Two readers that read the same find the same record next.
pub proof fn lemma_same_records_next(a: RawDirPos, b: RawDirPos)
    requires
        same_records(a, b),
    ensures
        a.next_step().1 == b.next_step().1,
        same_records(a.next_step().0, b.next_step().0),
        a.next().1 == b.next().1,
        a.next_in_set().1 == b.next_in_set().1,
    decreases a.remaining(),
{
    lemma_same_records_step(a, b);
    let (after, step) = a.step();
    let (other, _) = b.step();
    lemma_same_records_step(after, other);
    if step is Skip && after.remaining() < a.remaining() {
        lemma_same_records_next(after, other);
    }
}

/// Two readers that read the same find the same file record next.
pub proof fn lemma_same_records_next_file(a: RawDirPos, b: RawDirPos)
    requires
        same_records(a, b),
    ensures
        next_file(a).1 == next_file(b).1,
        same_records(next_file(a).0, next_file(b).0),
    decreases a.remaining(),
{
    lemma_same_records_next(a, b);
    lemma_same_records_step(a, b);
    let (after, r) = a.next();
    let (other, _) = b.next();
    lemma_same_records_step(after, other);
    if let Some(Ok(entry)) = r {
        if !(entry.kind is File) && after.remaining() < a.remaining() {
            lemma_same_records_next_file(after, other);
        }
    }
}

/// Two readers that read the same collect the same name.
pub proof fn lemma_same_records_collect_name(a: RawDirPos, b: RawDirPos, count: nat)
    requires
        same_records(a, b),
    ensures
        collect_name(a, count).1 == collect_name(b, count).1,
        same_records(collect_name(a, count).0, collect_name(b, count).0),
    decreases count,
{
    if count > 0 {
        lemma_same_records_next(a, b);
        lemma_same_records_collect_name(
            a.next_in_set().0,
            b.next_in_set().0,
            (count - 1) as nat,
        );
    }
}

/// Two readers that read the same yield the same entry next: the same
/// name, the same indices, the same clusters.
pub proof fn lemma_same_records_next_entry(a: RawDirPos, b: RawDirPos, time_offset: int)
    requires
        same_records(a, b),
    ensures
        next_entry(a, time_offset).1 == next_entry(b, time_offset).1,
        same_records(next_entry(a, time_offset).0, next_entry(b, time_offset).0),
{
    reveal(next_entry);
    lemma_same_records_next_file(a, b);
    let (at_stream, found) = next_file(a);
    let (other_stream, _) = next_file(b);
    if let Some(Ok((file_entry, file))) = found {
        lemma_same_records_next(at_stream, other_stream);
        let (at_name, second) = at_stream.next_in_set();
        let (other_name, _) = other_stream.next_in_set();
        if let Some(Ok(entry)) = second {
            if let ExFatDirEntryKind::StreamExtension(stream) = entry.kind {
                lemma_same_records_collect_name(
                    at_name,
                    other_name,
                    name_records(stream.name_length),
                );
            }
        }
    }
}

/// A hint that holds changes nothing of what a reader reads: the reader
/// that is opened with it reads what the reader that is opened without it
/// reads, and where one of them cannot be opened, the other one cannot be
/// opened either, for the same reason.
pub proof fn lemma_hint_changes_nothing(
    disk: Disk,
    boot: BootSectorInfo,
    cluster: u32,
    index: u32,
    hint: ClusterHint,
)
    requires
        boot.wf(),
        hint_holds(disk, boot, cluster, hint),
    ensures
        match RawDirPos::open_at(disk, boot, cluster, index, Some(hint)) {
            Ok(hinted) => RawDirPos::open_at(disk, boot, cluster, index, None) matches Ok(plain)
                && same_records(hinted, plain),
            Err(e) => RawDirPos::open_at(disk, boot, cluster, index, None) matches Err(other)
                && other == e,
        },
{
    let whole = Chain { disk, boot, contiguous: false, start: cluster };
    let (start, base) = RawDirPos::resume_at(boot, cluster, index, Some(hint));
    let cs = boot.cluster_size as int;
    let k = hint.offset as int;
    crate::heap::lemma_cluster_within(whole, 0);
    if crate::superblock::NUM_RESERVED_CLUSTERS <= cluster < boot.num_clusters {
        if start == cluster && base == 0 {
            // the hint is not taken
            let first = ChainPos::start(whole);
            let (after, r) = first.skip(32 * index as nat);
            assert(chain_from(whole, 0) == whole);
            if r is Ok {
                crate::heap::lemma_next_cluster_within(whole, 0);
                assert(0int / cs == 0);
            }
        } else {
            let part = chain_from(whole, k);
            lemma_chain_suffix(whole, k);
            assert(hint.offset * boot.dentries_per_clu <= index) by (nonlinear_arith)
                requires
                    hint.offset <= index / boot.dentries_per_clu,
                    boot.dentries_per_clu > 0,
            ;
            assert(32 * (hint.offset * boot.dentries_per_clu) == k * cs) by (nonlinear_arith)
                requires
                    boot.dentries_per_clu == boot.sect_per_clus * 16,
                    cs == boot.sect_per_clus * 512,
                    k == hint.offset,
            ;
            let target = (32 * (index - base)) as nat;
            if target < part.len() {
                lemma_suffix_offset(whole, k, target);
                lemma_fundamental_div_mod_converse(k * cs, cs, k, 0);
            } else {
                lemma_fundamental_div_mod_converse(k * cs, cs, k, 0);
            }
        }
    }
}

/// Two readers that read the same yield the same entries in the same
/// order, however many steps are taken.
pub proof fn lemma_same_records_scan(a: RawDirPos, b: RawDirPos, time_offset: int, n: nat)
    requires
        same_records(a, b),
    ensures
        scan(a, time_offset, n) == scan(b, time_offset, n),
    decreases n,
{
    if n > 0 {
        lemma_same_records_next_entry(a, b, time_offset);
        lemma_same_records_scan(
            next_entry(a, time_offset).0,
            next_entry(b, time_offset).0,
            time_offset,
            (n - 1) as nat,
        );
    }
}

/// A hint that holds changes no entry of a scan: the reader that is opened
/// at a record with the hint yields, step by step, what the reader yields
/// that is opened at that record without it.
pub proof fn lemma_hint_changes_no_entry(
    disk: Disk,
    boot: BootSectorInfo,
    cluster: u32,
    index: u32,
    hint: ClusterHint,
    time_offset: int,
    n: nat,
)
    requires
        boot.wf(),
        hint_holds(disk, boot, cluster, hint),
    ensures
        match RawDirPos::open_at(disk, boot, cluster, index, Some(hint)) {
            Ok(hinted) => RawDirPos::open_at(disk, boot, cluster, index, None) matches Ok(plain)
                && scan(hinted, time_offset, n) == scan(plain, time_offset, n),
            Err(_) => true,
        },
{
    lemma_hint_changes_nothing(disk, boot, cluster, index, hint);
    if let Ok(hinted) = RawDirPos::open_at(disk, boot, cluster, index, Some(hint)) {
        if let Ok(plain) = RawDirPos::open_at(disk, boot, cluster, index, None) {
            lemma_same_records_scan(hinted, plain, time_offset, n);
        }
    }
}

} // verus!
