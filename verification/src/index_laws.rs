//! What the metadata indexer promises.

use crate::bytes::{u16_bytes, u16_round_trip};
use crate::commit_entry::{entry_round_trip, CommitEntry};
use crate::commit_log::{
    all_entries, collected_entries, commit_logs, is_rolled_list, last_ordinal, log_entries,
    ordinal_follows, ordinals_follow, rolled_indexes,
};
use crate::error::ArchiveFile;
use crate::history::{same_logs, same_logs_chain, same_logs_same_entries};
use crate::indexer::{
    answered, caught_up, empty_indexer, emptied, ingest_limit, ingested, new_records,
    queried_locator, queried_sequence, rebuild_store, reindexed, IndexerModel,
};
use crate::metadata::{
    core_entries_written, core_entry, core_index_appended, core_index_header, core_index_loaded,
    core_index_reset, core_record, core_records, entry_of, loaded_watermark, record_of,
    watermark_persisted, ArchiveMetadataIndexerError, ArchiveMetadataSinkError, MetadataCommitRecord, MetadataQueryError, MetadataWatermark,
    CORE_LOCATOR_INDEX_ENTRY_MAGIC, CORE_LOCATOR_INDEX_HEADER_MAGIC,
};
use crate::order::increasing;
use crate::replayer::all_sequences;
use crate::store::{overwritten, StoreModel, MAX_FILE_LEN};
use crate::types::ArchiveLocator;
use vstd::prelude::*;

verus! {

/// New records lie behind the ordinal where the search starts.
proof fn new_records_lie_behind(
    log_id: [u8; 16],
    entries: Seq<CommitEntry>,
    behind: u64,
    limit: int,
    n: int,
)
    requires
        0 <= n <= entries.len(),
    ensures
        ({
            let records = new_records(log_id, entries, behind, limit, n);
            &&& records.len() <= n
            &&& forall|i: int|
                #![trigger records[i]]
                0 <= i < records.len() ==> records[i].commit_ordinal > behind
                    && records[i].log_id == log_id
        }),
    decreases n,
{
    if n > 0 {
        new_records_lie_behind(log_id, entries, behind, limit, n - 1);
    }
}

/// Catching up never goes back: the watermark stays or moves on, and tells the last commit.
pub proof fn catching_up_moves_on(
    indexer: IndexerModel,
    store: StoreModel,
    max_new_records: Option<usize>,
)
    requires
        caught_up(indexer, store, max_new_records).result is Ok,
    ensures
        ({
            let cycle = caught_up(indexer, store, max_new_records);
            &&& all_entries(store) is Ok
            &&& cycle.indexer.watermark.last_indexed_commit_ordinal
                >= indexer.watermark.last_indexed_commit_ordinal
            &&& cycle.indexer.watermark.last_commit_ordinal == last_ordinal(
                all_entries(store)->Ok_0,
            )
            &&& max_new_records is Some ==> cycle.result->Ok_0 <= max_new_records->Some_0
        }),
{
    let entries = all_entries(store)->Ok_0;
    new_records_lie_behind(
        indexer.log_id,
        entries,
        indexer.watermark.last_indexed_commit_ordinal,
        ingest_limit(max_new_records),
        entries.len() as int,
    );
    new_records_keep_limit(
        indexer.log_id,
        entries,
        indexer.watermark.last_indexed_commit_ordinal,
        ingest_limit(max_new_records),
        entries.len() as int,
    );
}

/// No more records than the limit are taken.
proof fn new_records_keep_limit(
    log_id: [u8; 16],
    entries: Seq<CommitEntry>,
    behind: u64,
    limit: int,
    n: int,
)
    requires
        0 <= limit,
    ensures
        new_records(log_id, entries, behind, limit, n).len() <= limit,
    decreases n,
{
    if n > 0 {
        new_records_keep_limit(log_id, entries, behind, limit, n - 1);
    }
}

/// Every ordinal is larger than the ones before it that are not zero.
pub open spec fn ordinals_grow(entries: Seq<CommitEntry>) -> bool {
    forall|i: int, j: int|
        #![trigger entries[i], entries[j]]
        0 <= i < j < entries.len() ==> entries[i].commit_ordinal == 0 || entries[i].commit_ordinal
            < entries[j].commit_ordinal
}

/// Where every ordinal follows the one before it, the ordinals grow.
proof fn following_ordinals_grow(entries: Seq<CommitEntry>, i: int, j: int)
    requires
        ordinals_follow(entries),
        0 <= i < j < entries.len(),
    ensures
        entries[i].commit_ordinal == 0 || entries[i].commit_ordinal < entries[j].commit_ordinal,
    decreases j - i,
{
    assert(ordinal_follows(entries, j));
    if i < j - 1 {
        following_ordinals_grow(entries, i, j - 1);
    }
}

/// What is collected from several logs has ordinals that follow one another.
proof fn collected_ordinals_follow(
    store: StoreModel,
    logs: Seq<ArchiveFile>,
    i: int,
    before: Seq<CommitEntry>,
)
    requires
        ordinals_follow(before),
        collected_entries(store, logs, i, before) is Ok,
    ensures
        ordinals_follow(collected_entries(store, logs, i, before)->Ok_0),
    decreases logs.len() - i,
{
    if i < logs.len() {
        let part = log_entries(store, logs[i])->Ok_0;
        collected_ordinals_follow(store, logs, i + 1, before + part);
    }
}

/// The commit ordinals of every log that reads grow, once they are not zero.
pub proof fn read_ordinals_grow(store: StoreModel)
    requires
        all_entries(store) is Ok,
    ensures
        ordinals_grow(all_entries(store)->Ok_0),
{
    let entries = all_entries(store)->Ok_0;
    collected_ordinals_follow(store, commit_logs(store), 0, Seq::empty());
    assert forall|i: int, j: int|
        #![trigger entries[i], entries[j]]
        0 <= i < j < entries.len() implies entries[i].commit_ordinal == 0
        || entries[i].commit_ordinal < entries[j].commit_ordinal by {
        following_ordinals_grow(entries, i, j);
    }
}

/// Writing the core-locator index and the watermark leaves the commit logs alone.
proof fn index_files_leave_logs(
    store: StoreModel,
    records: Seq<MetadataCommitRecord>,
    n: int,
    watermark: MetadataWatermark,
)
    ensures
        same_logs(store, core_entries_written(store, records, n).0),
        same_logs(store, core_index_reset(store)),
        same_logs(store, watermark_persisted(store, watermark)),
    decreases n,
{
    if n > 0 {
        index_files_leave_logs(store, records, n - 1, watermark);
        let before = core_entries_written(store, records, n - 1).0;
        let after = core_entries_written(store, records, n).0;
        assert(same_logs(before, after));
        same_logs_chain(store, before, after);
    }
}

/// A catch-up cycle leaves the commit logs alone.
pub proof fn catching_up_leaves_logs(
    indexer: IndexerModel,
    store: StoreModel,
    max_new_records: Option<usize>,
)
    ensures
        same_logs(store, caught_up(indexer, store, max_new_records).store),
{
    let ingest = ingested(indexer, store, max_new_records);
    let cycle = caught_up(indexer, store, max_new_records);
    let started = if store.has(ArchiveFile::CoreLocatorIndex) {
        store
    } else {
        core_index_reset(store)
    };
    let n = ingest.records.len() as int;
    let zero = MetadataWatermark::zero();
    index_files_leave_logs(store, ingest.records, n, zero);
    index_files_leave_logs(started, ingest.records, n, zero);
    same_logs_chain(
        store,
        started,
        core_entries_written(started, ingest.records, n).0,
    );
    assert(same_logs(store, ingest.store));
    index_files_leave_logs(ingest.store, ingest.records, 0, cycle.indexer.watermark);
    if ingest.result is Ok {
        same_logs_chain(store, ingest.store, cycle.store);
    }
}

/// With growing ordinals and room for all, the new records are those of all entries behind the
/// ordinal, and the last of them is the last entry.
pub(crate) proof fn all_new_records(
    log_id: [u8; 16],
    entries: Seq<CommitEntry>,
    behind: u64,
    limit: int,
    n: int,
)
    requires
        0 <= n <= entries.len() <= limit,
        ordinals_grow(entries),
    ensures
        ({
            let records = new_records(log_id, entries, behind, limit, n);
            &&& records.len() <= n
            &&& n > 0 && entries[n - 1].commit_ordinal > behind ==> records.len() > 0
                && records.last() == record_of(log_id, entries[n - 1])
            &&& n == 0 || entries[n - 1].commit_ordinal <= behind ==> records.len() == 0
        }),
    decreases n,
{
    if n > 0 {
        all_new_records(log_id, entries, behind, limit, n - 1);
        if n > 1 {
            assert(entries[n - 2].commit_ordinal == 0 || entries[n - 2].commit_ordinal
                < entries[n - 1].commit_ordinal);
        }
    }
}

/// Catching up twice is catching up once: the second time there is nothing new, and the indexer
/// stays as it is.
pub proof fn catching_up_is_idempotent(indexer: IndexerModel, store: StoreModel)
    requires
        is_rolled_list(store, rolled_indexes(store)),
        caught_up(indexer, store, None).result is Ok,
        all_entries(store)->Ok_0.len() <= usize::MAX,
    ensures
        ({
            let first = caught_up(indexer, store, None);
            let second = caught_up(first.indexer, first.store, None);
            &&& second.result == Ok::<usize, ArchiveMetadataIndexerError>(0)
            &&& second.indexer == first.indexer
        }),
{
    let first = caught_up(indexer, store, None);
    read_ordinals_grow(store);
    catching_up_leaves_logs(indexer, store, None);
    same_logs_same_entries(store, first.store);
    let entries = all_entries(store)->Ok_0;
    let n = entries.len() as int;
    let behind = indexer.watermark.last_indexed_commit_ordinal;
    all_new_records(indexer.log_id, entries, behind, usize::MAX as int, n);
    with_records_keep(
        indexer,
        new_records(indexer.log_id, entries, behind, usize::MAX as int, n),
        new_records(indexer.log_id, entries, behind, usize::MAX as int, n).len() as int,
    );
    let later = first.indexer.watermark.last_indexed_commit_ordinal;
    all_new_records(indexer.log_id, entries, later, usize::MAX as int, n);
    let second = caught_up(first.indexer, first.store, None);
    assert(second.indexer =~= first.indexer);
}

/// Taking in records changes what is indexed and nothing else.
proof fn with_records_keep(indexer: IndexerModel, records: Seq<MetadataCommitRecord>, n: int)
    requires
        0 <= n <= records.len(),
    ensures
        ({
            let more = indexer.with_records(records, n);
            &&& more.keeps_core_index == indexer.keeps_core_index
            &&& more.mode == indexer.mode
            &&& more.log_id == indexer.log_id
            &&& more.watermark == indexer.watermark
        }),
    decreases n,
{
    if n > 0 {
        with_records_keep(indexer, records, n - 1);
    }
}

/// Records with growing sequences are all found by their sequences.
pub(crate) proof fn records_are_indexed(
    indexer: IndexerModel,
    records: Seq<MetadataCommitRecord>,
    n: int,
    i: int,
)
    requires
        0 <= i < n <= records.len(),
        forall|a: int, b: int|
            #![trigger records[a], records[b]]
            0 <= a < b < records.len() ==> records[a].sequence < records[b].sequence,
    ensures
        indexer.with_records(records, n).by_sequence.contains_key(records[i].sequence),
        indexer.with_records(records, n).by_sequence[records[i].sequence] == records[i],
    decreases n,
{
    if i < n - 1 {
        records_are_indexed(indexer, records, n - 1, i);
        assert(records[i].sequence < records[n - 1].sequence);
    }
}

/// The new records are those of the last entries.
pub(crate) proof fn new_records_are_last(
    log_id: [u8; 16],
    entries: Seq<CommitEntry>,
    behind: u64,
    limit: int,
    n: int,
)
    requires
        0 <= n <= entries.len() <= limit,
        ordinals_grow(entries),
    ensures
        ({
            let records = new_records(log_id, entries, behind, limit, n);
            let first = n - records.len();
            &&& 0 <= first
            &&& first > 0 ==> entries[first - 1].commit_ordinal <= behind
            &&& forall|a: int|
                #![trigger records[a]]
                0 <= a < records.len() ==> records[a] == record_of(log_id, entries[first + a])
        }),
    decreases n,
{
    if n > 0 {
        new_records_are_last(log_id, entries, behind, limit, n - 1);
        all_new_records(log_id, entries, behind, limit, n);
        let before = new_records(log_id, entries, behind, limit, n - 1);
        let records = new_records(log_id, entries, behind, limit, n);
        if entries[n - 1].commit_ordinal > behind {
            let first = n - records.len();
            assert forall|a: int| #![trigger records[a]] 0 <= a < records.len() implies records[a]
                == record_of(log_id, entries[first + a]) by {
                if a < before.len() {
                    assert(records[a] == before[a]);
                }
            }
        }
    }
}

/// What was committed is found: after a catch-up, the query for the sequence of any entry that was
/// new gives the metadata of that entry. Sequences do not run ahead of commit ordinals.
pub proof fn caught_up_entry_is_found(indexer: IndexerModel, store: StoreModel, k: int)
    requires
        caught_up(indexer, store, None).result is Ok,
        increasing(all_sequences(all_entries(store)->Ok_0)),
        all_entries(store)->Ok_0.len() <= usize::MAX,
        0 <= k < all_entries(store)->Ok_0.len(),
        ({
            let entry = all_entries(store)->Ok_0[k];
            &&& entry.commit_ordinal > indexer.watermark.last_indexed_commit_ordinal
            &&& entry.sequence <= entry.commit_ordinal
        }),
    ensures
        ({
            let entry = all_entries(store)->Ok_0[k];
            let cycle = caught_up(indexer, store, None);
            queried_sequence(cycle.indexer, entry.sequence) == Ok::<
                MetadataCommitRecord,
                MetadataQueryError,
            >(record_of(indexer.log_id, entry))
        }),
{
    let entries = all_entries(store)->Ok_0;
    let n = entries.len() as int;
    let behind = indexer.watermark.last_indexed_commit_ordinal;
    let limit = usize::MAX as int;
    let records = new_records(indexer.log_id, entries, behind, limit, n);
    read_ordinals_grow(store);
    new_records_are_last(indexer.log_id, entries, behind, limit, n);
    all_new_records(indexer.log_id, entries, behind, limit, n);
    let first = n - records.len();
    if k < first {
        assert(entries[k].commit_ordinal <= entries[first - 1].commit_ordinal);
    }
    assert(records[k - first] == record_of(indexer.log_id, entries[k]));
    let sequences = all_sequences(entries);
    assert forall|a: int, b: int|
        #![trigger records[a], records[b]]
        0 <= a < b < records.len() implies records[a].sequence < records[b].sequence by {
        assert(sequences[first + a] < sequences[first + b]);
    }
    records_are_indexed(indexer, records, records.len() as int, k - first);
    if k < n - 1 {
        assert(entries[k].commit_ordinal < entries[n - 1].commit_ordinal);
    }
}

/// The entry of a record in the core-locator index reads as that record.
proof fn core_entry_reads_back(record: MetadataCommitRecord)
    ensures
        core_entry(record).len() == 104,
        core_record(core_entry(record), record.log_id) == Ok::<MetadataCommitRecord, &'static str>(
            record,
        ),
{
    entry_round_trip(entry_of(record), CORE_LOCATOR_INDEX_ENTRY_MAGIC@);
}

/// Records in front read as before where only bytes behind them change.
proof fn core_records_prefix(s: Seq<u8>, t: Seq<u8>, log_id: [u8; 16], n: int)
    requires
        0 <= n,
        16 + 104 * n <= s.len(),
        16 + 104 * n <= t.len(),
        s.subrange(0, 16 + 104 * n) == t.subrange(0, 16 + 104 * n),
    ensures
        core_records(s, log_id, n) == core_records(t, log_id, n),
    decreases n,
{
    if n > 0 {
        let p = s.subrange(0, 16 + 104 * n);
        assert(s.subrange(0, 16 + 104 * (n - 1)) =~= p.subrange(0, 16 + 104 * (n - 1)));
        assert(t.subrange(0, 16 + 104 * (n - 1)) =~= p.subrange(0, 16 + 104 * (n - 1)));
        core_records_prefix(s, t, log_id, n - 1);
        assert(s.subrange(16 + 104 * (n - 1), 16 + 104 * n) =~= p.subrange(
            16 + 104 * (n - 1),
            16 + 104 * n,
        ));
        assert(t.subrange(16 + 104 * (n - 1), 16 + 104 * n) =~= p.subrange(
            16 + 104 * (n - 1),
            16 + 104 * n,
        ));
    }
}

/// Bytes that are written at the end stand there.
proof fn entry_behind(b: Seq<u8>, e: Seq<u8>)
    requires
        e.len() == 104,
    ensures
        ({
            let end = b.len() as int;
            let t = overwritten(b, b.len(), e);
            &&& t.len() == end + 104
            &&& t.subrange(0, end) == b.subrange(0, end)
            &&& t.subrange(end, end + 104) == e
        }),
{
    let t = overwritten(b, b.len(), e);
    assert(t.subrange(0, b.len() as int) =~= b.subrange(0, b.len() as int));
    assert(t.subrange(b.len() as int, b.len() as int + 104) =~= e);
}

/// What was written behind a core-locator index reads back behind what it held.
#[verifier::spinoff_prover]
#[verifier::rlimit(60)]
proof fn core_entries_read_back(
    store: StoreModel,
    records: Seq<MetadataCommitRecord>,
    log_id: [u8; 16],
    m: int,
    n: int,
)
    requires
        0 <= n <= records.len(),
        0 <= m,
        store.has(ArchiveFile::CoreLocatorIndex),
        store.bytes(ArchiveFile::CoreLocatorIndex).len() == 16 + 104 * m,
        core_records(store.bytes(ArchiveFile::CoreLocatorIndex), log_id, m) is Ok,
        core_entries_written(store, records, n).1 is Ok,
        16 + 104 * (m + records.len()) <= MAX_FILE_LEN,
        forall|i: int|
            #![trigger records[i]]
            0 <= i < records.len() ==> records[i].log_id == log_id,
    ensures
        ({
            let s = store.bytes(ArchiveFile::CoreLocatorIndex);
            let after = core_entries_written(store, records, n).0;
            let t = after.bytes(ArchiveFile::CoreLocatorIndex);
            &&& after.has(ArchiveFile::CoreLocatorIndex)
            &&& t.len() == 16 + 104 * (m + n)
            &&& t.subrange(0, 16) == s.subrange(0, 16)
            &&& core_records(t, log_id, m + n) == Ok::<Seq<MetadataCommitRecord>, &'static str>(
                core_records(s, log_id, m)->Ok_0 + records.subrange(0, n),
            )
        }),
    decreases n,
{
    let file = ArchiveFile::CoreLocatorIndex;
    let s = store.bytes(file);
    if n > 0 {
        core_entries_read_back(store, records, log_id, m, n - 1);
        let before = core_entries_written(store, records, n - 1).0;
        let after = core_entries_written(store, records, n).0;
        let b = before.bytes(file);
        let t = after.bytes(file);
        let end = b.len() as int;
        let e = core_entry(records[n - 1]);
        core_entry_reads_back(records[n - 1]);
        entry_behind(b, e);
        assert(t == overwritten(b, end as nat, e));
        assert(t.subrange(0, 16) =~= b.subrange(0, 16)) by {
            assert(t.subrange(0, end).subrange(0, 16) =~= t.subrange(0, 16));
            assert(b.subrange(0, end).subrange(0, 16) =~= b.subrange(0, 16));
        }
        core_records_prefix(b, t, log_id, m + n - 1);
        let old_records = core_records(s, log_id, m)->Ok_0;
        assert((old_records + records.subrange(0, n - 1)).push(records[n - 1]) =~= old_records
            + records.subrange(0, n));
    } else {
        let old_records = core_records(s, log_id, m)->Ok_0;
        assert(old_records + records.subrange(0, 0) =~= old_records);
    }
}

/// The core-locator index gives back what was put into it: after records of the log were appended
/// to a sound index, loading it gives what it held before and then those records.
pub proof fn core_index_round_trip(
    store: StoreModel,
    records: Seq<MetadataCommitRecord>,
    log_id: [u8; 16],
)
    requires
        store.has(ArchiveFile::CoreLocatorIndex),
        core_index_loaded(store, log_id) is Ok,
        core_index_appended(store, records).1 is Ok,
        store.bytes(ArchiveFile::CoreLocatorIndex).len() + 104 * records.len() <= MAX_FILE_LEN,
        forall|i: int|
            #![trigger records[i]]
            0 <= i < records.len() ==> records[i].log_id == log_id,
    ensures
        core_index_loaded(core_index_appended(store, records).0, log_id) == Ok::<
            Seq<MetadataCommitRecord>,
            ArchiveMetadataIndexerError,
        >(core_index_loaded(store, log_id)->Ok_0 + records),
{
    let file = ArchiveFile::CoreLocatorIndex;
    let s = store.bytes(file);
    let m = (s.len() - 16) / 104;
    let n = records.len() as int;
    assert(s.len() == 16 + 104 * m);
    core_entries_read_back(store, records, log_id, m, n);
    let after = core_index_appended(store, records).0;
    let t = after.bytes(file);
    assert(records.subrange(0, n) =~= records);
    assert(t.subrange(0, 4) =~= t.subrange(0, 16).subrange(0, 4));
    assert(s.subrange(0, 4) =~= s.subrange(0, 16).subrange(0, 4));
    assert(t[4] == t.subrange(0, 16)[4] && t[5] == t.subrange(0, 16)[5]);
    assert(s[4] == s.subrange(0, 16)[4] && s[5] == s.subrange(0, 16)[5]);
    assert(t[8] == t.subrange(0, 16)[8] && t[9] == t.subrange(0, 16)[9]);
    assert(s[8] == s.subrange(0, 16)[8] && s[9] == s.subrange(0, 16)[9]);
    assert((t.len() - 16) / 104 == m + n);
    assert((t.len() - 16) % 104 == 0);
}

/// A core-locator index that was just started loads as no record.
pub proof fn new_core_index_is_empty(store: StoreModel, log_id: [u8; 16])
    ensures
        core_index_loaded(core_index_reset(store), log_id) == Ok::<
            Seq<MetadataCommitRecord>,
            ArchiveMetadataIndexerError,
        >(Seq::empty()),
{
    let h = core_index_header();
    let s = core_index_reset(store).bytes(ArchiveFile::CoreLocatorIndex);
    assert(s =~= h);
    assert(s.len() == 16);
    assert(s.subrange(0, 4) =~= CORE_LOCATOR_INDEX_HEADER_MAGIC@);
    assert(s.subrange(4, 6) =~= u16_bytes(1));
    assert(s.subrange(8, 10) =~= u16_bytes(104));
    u16_round_trip(s, 4, 1);
    u16_round_trip(s, 8, 104);
}

/// What comes of writing to the core-locator index goes by its bytes alone.
proof fn core_entries_alike(
    a: StoreModel,
    b: StoreModel,
    records: Seq<MetadataCommitRecord>,
    n: int,
)
    requires
        a.has(ArchiveFile::CoreLocatorIndex),
        b.has(ArchiveFile::CoreLocatorIndex),
        a.bytes(ArchiveFile::CoreLocatorIndex) == b.bytes(ArchiveFile::CoreLocatorIndex),
    ensures
        ({
            let (left, first) = core_entries_written(a, records, n);
            let (right, second) = core_entries_written(b, records, n);
            &&& first == second
            &&& left.has(ArchiveFile::CoreLocatorIndex)
            &&& right.has(ArchiveFile::CoreLocatorIndex)
            &&& left.bytes(ArchiveFile::CoreLocatorIndex) == right.bytes(
                ArchiveFile::CoreLocatorIndex,
            )
        }),
    decreases n,
{
    if n > 0 {
        core_entries_alike(a, b, records, n - 1);
    }
}

/// Rebuilding starts from the same commit logs.
proof fn rebuild_leaves_logs(indexer: IndexerModel, store: StoreModel)
    ensures
        same_logs(store, rebuild_store(indexer, store)),
        same_logs(store, reindexed(indexer, store).store),
{
    let none = Seq::<MetadataCommitRecord>::empty();
    let zero = MetadataWatermark::zero();
    let reset = if indexer.keeps_core_index {
        core_index_reset(store)
    } else {
        store
    };
    index_files_leave_logs(store, none, 0, zero);
    index_files_leave_logs(reset, none, 0, zero);
    same_logs_chain(store, reset, rebuild_store(indexer, store));
    let empty = empty_indexer(indexer.keeps_core_index, indexer.mode, indexer.log_id);
    catching_up_leaves_logs(empty, rebuild_store(indexer, store), None);
    same_logs_chain(store, rebuild_store(indexer, store), reindexed(indexer, store).store);
}

/// Rebuilding the index twice is rebuilding it once: the same records are counted and the indexer
/// is the same.
pub proof fn reindexing_is_idempotent(indexer: IndexerModel, store: StoreModel)
    requires
        is_rolled_list(store, rolled_indexes(store)),
        reindexed(indexer, store).result is Ok,
    ensures
        ({
            let first = reindexed(indexer, store);
            let second = reindexed(first.indexer, first.store);
            &&& second.indexer == first.indexer
            &&& second.result == first.result
        }),
{
    let first = reindexed(indexer, store);
    let a = rebuild_store(indexer, store);
    let empty = empty_indexer(indexer.keeps_core_index, indexer.mode, indexer.log_id);
    let entries = all_entries(a)->Ok_0;
    let records = new_records(
        indexer.log_id,
        entries,
        0,
        usize::MAX as int,
        entries.len() as int,
    );
    with_records_keep(empty, records, records.len() as int);
    let b = rebuild_store(first.indexer, first.store);
    rebuild_leaves_logs(indexer, store);
    rebuild_leaves_logs(first.indexer, first.store);
    same_logs_same_entries(store, a);
    same_logs_chain(store, first.store, b);
    same_logs_same_entries(store, b);
    if indexer.keeps_core_index {
        core_entries_alike(a, b, records, records.len() as int);
    }
    let second = reindexed(first.indexer, first.store);
    assert(second.indexer =~= first.indexer);
}

/// One of the first `n` records has this locator.
spec fn has_record(records: Seq<MetadataCommitRecord>, n: int, locator: ArchiveLocator) -> bool {
    exists|i: int| 0 <= i < n && (#[trigger] records[i]).locator == locator
}

/// An entry with an ordinal has this locator, and its metadata is this record.
pub open spec fn describes_entry(
    log_id: [u8; 16],
    entries: Seq<CommitEntry>,
    locator: ArchiveLocator,
    record: MetadataCommitRecord,
) -> bool {
    exists|k: int|
        0 <= k < entries.len() && (#[trigger] entries[k]).commit_ordinal != 0 && entries[k].locator
            == locator && record_of(log_id, entries[k]) == record
}

/// An entry with an ordinal has this locator.
pub open spec fn has_entry(entries: Seq<CommitEntry>, locator: ArchiveLocator) -> bool {
    exists|k: int|
        0 <= k < entries.len() && (#[trigger] entries[k]).commit_ordinal != 0 && entries[k].locator
            == locator
}

/// An index without a locator gets it exactly with a record that has it, and keeps one of those.
proof fn index_gets_records(
    indexer: IndexerModel,
    records: Seq<MetadataCommitRecord>,
    n: int,
    locator: ArchiveLocator,
) -> (place: int)
    requires
        0 <= n <= records.len(),
        !indexer.by_locator.contains_key(locator),
    ensures
        ({
            let found = indexer.with_records(records, n).by_locator;
            &&& found.contains_key(locator) <==> has_record(records, n, locator)
            &&& found.contains_key(locator) ==> 0 <= place < n && records[place].locator == locator
                && found[locator] == records[place]
        }),
    decreases n,
{
    if n <= 0 {
        0
    } else {
        let place = index_gets_records(indexer, records, n - 1, locator);
        if records[n - 1].locator == locator {
            n - 1
        } else {
            if has_record(records, n, locator) {
                let i = choose|i: int| 0 <= i < n && (#[trigger] records[i]).locator == locator;
                assert(records[i].locator == locator);
            }
            place
        }
    }
}

/// From the start on, the new records are those of exactly the entries that have an ordinal.
proof fn whole_log_is_new(log_id: [u8; 16], entries: Seq<CommitEntry>, place: int, locator: ArchiveLocator)
    requires
        ordinals_grow(entries),
        entries.len() <= usize::MAX,
    ensures
        ({
            let n = entries.len() as int;
            let records = new_records(log_id, entries, 0, usize::MAX as int, n);
            &&& has_entry(entries, locator) ==> has_record(records, records.len() as int, locator)
            &&& 0 <= place < records.len() && records[place].locator == locator ==> has_entry(
                entries,
                locator,
            ) && describes_entry(log_id, entries, locator, records[place])
        }),
{
    let n = entries.len() as int;
    let limit = usize::MAX as int;
    let records = new_records(log_id, entries, 0, limit, n);
    let first = n - records.len();
    new_records_are_last(log_id, entries, 0, limit, n);
    new_records_lie_behind(log_id, entries, 0, limit, n);
    if has_entry(entries, locator) {
        let k = choose|k: int|
            0 <= k < entries.len() && (#[trigger] entries[k]).commit_ordinal != 0
                && entries[k].locator == locator;
        if k < first {
            assert(entries[k].commit_ordinal <= entries[first - 1].commit_ordinal);
        }
        assert(records[k - first] == record_of(log_id, entries[first + (k - first)]));
        assert(records[k - first].locator == locator);
    }
    if 0 <= place < records.len() && records[place].locator == locator {
        assert(records[place] == record_of(log_id, entries[first + place]));
        assert(entries[first + place].locator == locator);
    }
}

/// Rebuilding the index leaves nothing out and keeps nothing old: both numbers of the watermark are
/// the last ordinal of the log, and the query by a locator succeeds exactly for the locators of
/// those entries of the log that have an ordinal. It gives the metadata of such an entry.
pub proof fn reindexing_covers_the_log(
    indexer: IndexerModel,
    store: StoreModel,
    locator: ArchiveLocator,
)
    requires
        is_rolled_list(store, rolled_indexes(store)),
        reindexed(indexer, store).result is Ok,
        all_entries(store)->Ok_0.len() <= usize::MAX,
    ensures
        ({
            let entries = all_entries(store)->Ok_0;
            let after = reindexed(indexer, store).indexer;
            let found = queried_locator(after, locator);
            &&& all_entries(store) is Ok
            &&& after.watermark == (MetadataWatermark {
                last_commit_ordinal: last_ordinal(entries),
                last_indexed_commit_ordinal: last_ordinal(entries),
            })
            &&& found is Ok <==> has_entry(entries, locator)
            &&& found is Ok ==> describes_entry(indexer.log_id, entries, locator, found->Ok_0)
        }),
{
    let cleared = rebuild_store(indexer, store);
    rebuild_leaves_logs(indexer, store);
    same_logs_same_entries(store, cleared);
    let entries = all_entries(store)->Ok_0;
    let n = entries.len() as int;
    let empty = emptied(indexer);
    let records = new_records(indexer.log_id, entries, 0, usize::MAX as int, n);
    let m = records.len() as int;
    read_ordinals_grow(store);
    all_new_records(indexer.log_id, entries, 0, usize::MAX as int, n);
    with_records_keep(empty, records, m);
    let place = index_gets_records(empty, records, m, locator);
    whole_log_is_new(indexer.log_id, entries, place, locator);
    let ingest = ingested(empty, cleared, None);
    assert(ingest.records == records);
    assert(ingest.indexer == empty.with_records(records, m));
}

/// Writing the core-locator index leaves the watermark file alone.
proof fn core_index_leaves_watermark(
    store: StoreModel,
    records: Seq<MetadataCommitRecord>,
    n: int,
)
    ensures
        ({
            let file = ArchiveFile::Watermark;
            let written = core_entries_written(store, records, n).0;
            let reset = core_index_reset(store);
            &&& written.has(file) == store.has(file)
            &&& written.bytes(file) == store.bytes(file)
            &&& reset.has(file) == store.has(file)
            &&& reset.bytes(file) == store.bytes(file)
        }),
    decreases n,
{
    if n > 0 {
        core_index_leaves_watermark(store, records, n - 1);
    }
}

/// A sink that refuses the records loses none of them: the cycle fails with the sink's error, the
/// watermark stays where it was, in the indexer and on file, and the next cycle hands over the same
/// records again.
pub proof fn refused_records_come_again(
    indexer: IndexerModel,
    store: StoreModel,
    max_new_records: Option<usize>,
    error: ArchiveMetadataSinkError,
)
    requires
        is_rolled_list(store, rolled_indexes(store)),
        ingested(indexer, store, max_new_records).result is Ok,
    ensures
        ({
            let ingest = ingested(indexer, store, max_new_records);
            let cycle = answered(ingest, Err(error));
            &&& cycle.result == Err::<usize, ArchiveMetadataIndexerError>(
                ArchiveMetadataIndexerError::Sink(error),
            )
            &&& cycle.indexer.watermark == indexer.watermark
            &&& loaded_watermark(cycle.store) == loaded_watermark(store)
            &&& ingested(cycle.indexer, cycle.store, max_new_records).records == ingest.records
        }),
{
    let ingest = ingested(indexer, store, max_new_records);
    let records = ingest.records;
    let n = records.len() as int;
    let zero = MetadataWatermark::zero();
    let started = if store.has(ArchiveFile::CoreLocatorIndex) {
        store
    } else {
        core_index_reset(store)
    };
    with_records_keep(indexer, records, n);
    index_files_leave_logs(store, records, n, zero);
    index_files_leave_logs(started, records, n, zero);
    same_logs_chain(store, started, core_entries_written(started, records, n).0);
    core_index_leaves_watermark(store, records, n);
    core_index_leaves_watermark(started, records, n);
    same_logs_same_entries(store, ingest.store);
}

} // verus!
