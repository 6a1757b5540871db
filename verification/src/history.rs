//! The commit logs tell the whole history: every append adds one entry to what all of them
//! together hold.

use crate::bytes::all_zero;
use crate::catalog::{
    header_written, new_header, new_header_reads_back, next_number, preallocated_len,
};
use crate::commit_entry::{decode_entry, entry_round_trip, CommitEntry, COMMIT_ENTRY_MAGIC};
use crate::commit_log::{
    all_entries, collected_entries, commit_logs, file_header, is_rolled_list, log_entries,
    ordinal_follows, prepended, rolled_indexes, rolled_list_unique, strict_entries,
    written_entry_reads_back, zeros_read_as_no_entry,
};
use crate::error::{ArchiveFile, ArchiveReplayError};
use crate::header::ArchiveFileKind;
use crate::guarantees::{
    append_shape, appended_record_reads_back, needs_roll, numbered, replayed,
};
use crate::order::{increasing, lower_bound_of, lower_bound_splits};
use crate::replayer::{
    all_sequences, entry_frame, indexed_entry, is_hot, replay_index, replay_index_is_ordered,
    replayer_opened, unverified_reads_never_mismatch, ArchiveReplayerBuilder,
};
use crate::startup::{archive_created, archive_files_created, effective_backend, fresh_state};
use crate::adapter::{adapter_len, adapter_metadata, adapter_round_trip, adapter_user_header};
use crate::frame::{aligned_is_next_multiple, encoded_len, hot_data, FrameInput};
use crate::order::SegmentKey;
use crate::recorder::{
    entry_room_made, entry_written, frame_written, next_sequence, publish_subscribe_appended,
    publish_subscribe_source, record_appended, record_entry, record_written, refusal,
    retention_enforced, retention_pass, retention_step, sealed, sealed_keeps, segment_closed,
    summary_written, RecordModel, RecorderModel, RetentionProgress,
};
use crate::retention::{attached, detached, detached_deleted, retention, segment_states};
use crate::state::{
    commit_log_ensured, commit_log_rolled, commit_log_rolled_if_needed, free_roll_index,
    opened_segment, preallocation_counted, saturating_sum, segment_opened, spare_created,
    spares_created, spares_keep_state, ActiveSegment, DiskRecorderState, RecorderConfig,
    RecorderState, Step,
};
use crate::types::{ArchiveSegmentState, ArchiveSegmentTier, ArchiveSourceMetadata, FrameModel,
    PublishSubscribeRecordInput};
use crate::store::{overwritten, resized, StoreModel};
use vstd::prelude::*;

verus! {

/// The file is a commit log.
pub open spec fn is_log(file: ArchiveFile) -> bool {
    file is CommitLog || file is RolledCommitLog
}

/// The two stores have the same bytes in the same commit logs.
pub open spec fn same_logs(a: StoreModel, b: StoreModel) -> bool {
    forall|file: ArchiveFile|
        is_log(file) ==> #[trigger] a.has(file) == b.has(file) && a.bytes(file) == b.bytes(file)
}

/// The two states agree on where the commit log goes on.
pub open spec fn same_log_state(a: RecorderState, b: RecorderState) -> bool {
    &&& a.disk is Some
    &&& b.disk is Some
    &&& a.disk->Some_0.commit_log_write_offset == b.disk->Some_0.commit_log_write_offset
    &&& a.disk->Some_0.commit_log_preallocated_len == b.disk->Some_0.commit_log_preallocated_len
    &&& a.disk->Some_0.commit_log_roll_index == b.disk->Some_0.commit_log_roll_index
    &&& a.next_commit_ordinal == b.next_commit_ordinal
    &&& a.last_sequence == b.last_sequence
    &&& a.config == b.config
}

/// A commit log with a sound header that holds these entries, and nothing but zeros behind them.
pub open spec fn log_image(s: Seq<u8>, entries: Seq<CommitEntry>) -> bool {
    let end = 76 + 104 * entries.len() as int;
    &&& end <= s.len()
    &&& file_header(s) is Ok
    &&& file_header(s)->Ok_0.file_kind == ArchiveFileKind::CommitIdxLog
    &&& strict_entries(s.subrange(0, end), 76) == Ok::<Seq<CommitEntry>, &'static str>(entries)
    &&& all_zero(s.subrange(end, s.len() as int))
}

/// The entries of the active commit log.
pub open spec fn active_entries(store: StoreModel) -> Seq<CommitEntry> {
    log_entries(store, ArchiveFile::CommitLog)->Ok_0
}

/// The log that is rolled next gets an index above those of all rolled logs.
pub open spec fn roll_ready(state: RecorderState, store: StoreModel) -> bool {
    match free_roll_index(store, state.disk->Some_0.commit_log_roll_index) {
        None => true,
        Some(free) => forall|index: u64|
            #[trigger] store.has(ArchiveFile::RolledCommitLog { index }) ==> index < free,
    }
}

/// The commit logs of the store hold exactly these entries, and the recorder goes on behind
/// them.
#[verifier::opaque]
pub open spec fn history(
    state: RecorderState,
    store: StoreModel,
    entries: Seq<CommitEntry>,
) -> bool {
    &&& state.disk is Some
    &&& is_rolled_list(store, rolled_indexes(store))
    &&& store.has(ArchiveFile::CommitLog)
    &&& log_image(store.bytes(ArchiveFile::CommitLog), active_entries(store))
    &&& state.disk->Some_0.commit_log_write_offset == 76 + 104 * active_entries(store).len()
    &&& all_entries(store) == Ok::<Seq<CommitEntry>, ArchiveReplayError>(entries)
    &&& roll_ready(state, store)
    &&& increasing(all_sequences(entries))
    &&& entries.len() > 0 ==> {
        &&& entries.last().commit_ordinal < state.next_commit_ordinal
        &&& state.last_sequence is Some
        &&& entries.last().sequence <= state.last_sequence->Some_0
    }
}

/// A log whose entries reach up to its end reads as those entries and what is put behind it.
pub proof fn strict_entries_extend(p: Seq<u8>, t: Seq<u8>, at: int)
    requires
        0 <= at <= p.len(),
        strict_entries(p, at) is Ok,
        at + 104 * strict_entries(p, at)->Ok_0.len() == p.len(),
    ensures
        strict_entries(p + t, at) == prepended(
            strict_entries(p, at)->Ok_0,
            strict_entries(p + t, p.len() as int),
        ),
    decreases p.len() - at,
{
    let s = p + t;
    let entries = strict_entries(p, at)->Ok_0;
    if at < p.len() {
        assert(entries.len() > 0);
        assert(p.len() - at >= 104);
        assert(s.subrange(at, at + 8) =~= p.subrange(at, at + 8));
        assert(s.subrange(at, at + 4) =~= p.subrange(at, at + 4));
        assert(s.subrange(at, at + 104) =~= p.subrange(at, at + 104));
        let rest = strict_entries(p, at + 104)->Ok_0;
        let entry = decode_entry(p.subrange(at, at + 104))->Ok_0;
        assert(entries == seq![entry] + rest);
        strict_entries_extend(p, t, at + 104);
        if let Ok(more) = strict_entries(s, p.len() as int) {
            assert(seq![entry] + (rest + more) =~= entries + more);
        }
    } else {
        if let Ok(more) = strict_entries(s, p.len() as int) {
            assert(entries + more =~= more);
        }
    }
}

/// A log reads as the entries that it holds.
pub proof fn image_reads_back(store: StoreModel, file: ArchiveFile, entries: Seq<CommitEntry>)
    requires
        store.has(file),
        log_image(store.bytes(file), entries),
    ensures
        log_entries(store, file) == Ok::<Seq<CommitEntry>, ArchiveReplayError>(entries),
{
    let s = store.bytes(file);
    let end = 76 + 104 * entries.len() as int;
    let p = s.subrange(0, end);
    let t = s.subrange(end, s.len() as int);
    assert(p + t =~= s);
    strict_entries_extend(p, t, 76);
    zeros_read_as_no_entry(s, end);
    assert(entries + Seq::<CommitEntry>::empty() =~= entries);
}

/// The index that is free stays free where the rolled logs stay.
proof fn free_index_kept(a: StoreModel, b: StoreModel, index: u64)
    requires
        same_logs(a, b),
    ensures
        free_roll_index(a, index) == free_roll_index(b, index),
    decreases u64::MAX - index,
{
    assert(a.has(ArchiveFile::RolledCommitLog { index }) == b.has(
        ArchiveFile::RolledCommitLog { index },
    ));
    if a.has(ArchiveFile::RolledCommitLog { index }) && index < u64::MAX {
        free_index_kept(a, b, (index + 1) as u64);
    }
}

/// Logs that stay are read as before.
pub proof fn collected_kept(
    a: StoreModel,
    b: StoreModel,
    logs: Seq<ArchiveFile>,
    i: int,
    before: Seq<CommitEntry>,
)
    requires
        0 <= i,
        forall|k: int| #![trigger logs[k]] 0 <= k < logs.len() ==> log_entries(a, logs[k]) == log_entries(b, logs[k]),
    ensures
        collected_entries(a, logs, i, before) == collected_entries(b, logs, i, before),
    decreases logs.len() - i,
{
    if i < logs.len() {
        assert(log_entries(a, logs[i]) == log_entries(b, logs[i]));
        if let Ok(part) = log_entries(a, logs[i]) {
            collected_kept(a, b, logs, i + 1, before + part);
        }
    }
}

/// Every listed log is a commit log.
proof fn listed_are_logs(store: StoreModel)
    ensures
        forall|k: int| #![trigger commit_logs(store)[k]] 0 <= k < commit_logs(store).len() ==> is_log(commit_logs(store)[k]),
{
}

/// Stores with the same commit logs list the same logs and hold the same entries.
pub proof fn same_logs_same_entries(a: StoreModel, b: StoreModel)
    requires
        same_logs(a, b),
        is_rolled_list(a, rolled_indexes(a)),
    ensures
        is_rolled_list(b, rolled_indexes(b)),
        commit_logs(a) == commit_logs(b),
        all_entries(a) == all_entries(b),
        log_entries(a, ArchiveFile::CommitLog) == log_entries(b, ArchiveFile::CommitLog),
{
    let r = rolled_indexes(a);
    assert(is_rolled_list(b, r)) by {
        assert forall|index: u64| #[trigger] r.contains(index) <==> b.has(
            ArchiveFile::RolledCommitLog { index },
        ) by {
            assert(a.has(ArchiveFile::RolledCommitLog { index }) == b.has(
                ArchiveFile::RolledCommitLog { index },
            ));
        }
    }
    rolled_list_unique(b, r);
    assert(a.has(ArchiveFile::CommitLog) == b.has(ArchiveFile::CommitLog));
    assert(commit_logs(a) == commit_logs(b));
    listed_are_logs(a);
    let logs = commit_logs(a);
    assert forall|k: int| #![trigger logs[k]] 0 <= k < logs.len() implies log_entries(a, logs[k]) == log_entries(
        b,
        logs[k],
    ) by {
        assert(is_log(logs[k]));
        assert(a.has(logs[k]) == b.has(logs[k]));
    }
    collected_kept(a, b, logs, 0, Seq::empty());
}

/// The history stays what it is where neither the logs nor the recorder's place in them change.
pub proof fn history_kept(
    state: RecorderState,
    store: StoreModel,
    later: RecorderState,
    after: StoreModel,
    entries: Seq<CommitEntry>,
)
    requires
        history(state, store, entries),
        same_logs(store, after),
        same_log_state(state, later),
    ensures
        history(later, after, entries),
{
    reveal(history);
    same_logs_same_entries(store, after);
    free_index_kept(store, after, state.disk->Some_0.commit_log_roll_index);
    assert(store.has(ArchiveFile::CommitLog) == after.has(ArchiveFile::CommitLog));
    assert forall|index: u64| #[trigger] after.has(ArchiveFile::RolledCommitLog { index }) implies store.has(
        ArchiveFile::RolledCommitLog { index },
    ) by {
        assert(store.has(ArchiveFile::RolledCommitLog { index }) == after.has(
            ArchiveFile::RolledCommitLog { index },
        ));
    }
}

/// A log that is cut off or filled up behind its entries holds the same entries.
pub proof fn image_resized(s: Seq<u8>, entries: Seq<CommitEntry>, n: nat)
    requires
        log_image(s, entries),
        76 + 104 * entries.len() <= n,
    ensures
        log_image(resized(s, n), entries),
{
    let t = resized(s, n);
    let end = 76 + 104 * entries.len() as int;
    assert(t.subrange(0, 76) =~= s.subrange(0, 76));
    assert(t.subrange(0, end) =~= s.subrange(0, end));
    assert forall|i: int| 0 <= i < n - end implies #[trigger] t.subrange(end, n as int)[i] == 0 by {
        if end + i < s.len() {
            assert(s.subrange(end, s.len() as int)[i] == 0);
        }
    }
}

/// Entries with one more behind them read as the entries and that one.
proof fn prefix_grows(p: Seq<u8>, entries: Seq<CommitEntry>, entry: CommitEntry)
    requires
        strict_entries(p, 76) == Ok::<Seq<CommitEntry>, &'static str>(entries),
        76 + 104 * entries.len() == p.len(),
    ensures
        entry.encoded().len() == 104,
        strict_entries(p + entry.encoded(), 76) == Ok::<Seq<CommitEntry>, &'static str>(
            entries.push(entry),
        ),
{
    let end = p.len() as int;
    assert(entry.encoded().len() == 104) by {
        entry_round_trip(entry, COMMIT_ENTRY_MAGIC@);
    }
    let q = p + entry.encoded();
    strict_entries_extend(p, entry.encoded(), 76);
    assert(q.subrange(end, end + 104) =~= entry.encoded());
    written_entry_reads_back(q, end, entry);
    assert(strict_entries(q, end + 104) == Ok::<Seq<CommitEntry>, &'static str>(Seq::empty()));
    assert(seq![entry] + Seq::<CommitEntry>::empty() =~= seq![entry]);
    assert(entries + seq![entry] =~= entries.push(entry));
}

/// Bytes that are put behind the entries of a log follow them, and zeros follow the bytes.
proof fn image_overwritten(s: Seq<u8>, end: int, e: Seq<u8>)
    requires
        76 <= end <= s.len(),
        e.len() == 104,
        all_zero(s.subrange(end, s.len() as int)),
    ensures
        ({
            let t = overwritten(s, end as nat, e);
            &&& end + 104 <= t.len()
            &&& t.subrange(0, 76) == s.subrange(0, 76)
            &&& t.subrange(0, end + 104) == s.subrange(0, end) + e
            &&& all_zero(t.subrange(end + 104, t.len() as int))
        }),
{
    let t = overwritten(s, end as nat, e);
    assert(t.subrange(0, 76) =~= s.subrange(0, 76));
    assert(t.subrange(0, end + 104) =~= s.subrange(0, end) + e);
    assert forall|i: int| 0 <= i < t.len() - end - 104 implies #[trigger] t.subrange(
        end + 104,
        t.len() as int,
    )[i] == 0 by {
        if end + 104 + i < s.len() {
            assert(s.subrange(end, s.len() as int)[104 + i] == 0);
        }
    }
}

/// An entry that is written behind the entries of a log is its last entry.
proof fn image_grows(s: Seq<u8>, entries: Seq<CommitEntry>, entry: CommitEntry)
    requires
        log_image(s, entries),
    ensures
        log_image(
            overwritten(s, (76 + 104 * entries.len()) as nat, entry.encoded()),
            entries.push(entry),
        ),
{
    let end = 76 + 104 * entries.len() as int;
    prefix_grows(s.subrange(0, end), entries, entry);
    image_overwritten(s, end, entry.encoded());
}

/// A log with a new header holds no entry.
proof fn image_starts(log_id: [u8; 16], now_ns: u64)
    ensures
        ({
            let header = new_header(ArchiveFileKind::CommitIdxLog, log_id@, 0, 0, now_ns);
            &&& header.len() == 76
            &&& log_image(overwritten(Seq::empty(), 0, header), Seq::empty())
        }),
{
    new_header_reads_back(ArchiveFileKind::CommitIdxLog, log_id, 0, 0, now_ns);
    let header = new_header(ArchiveFileKind::CommitIdxLog, log_id@, 0, 0, now_ns);
    let s = overwritten(Seq::empty(), 0, header);
    assert(s =~= header);
    assert(s.subrange(0, 76) =~= header);
}

/// One more entry in the last log is one more entry in all.
proof fn collected_grows(
    a: StoreModel,
    b: StoreModel,
    logs: Seq<ArchiveFile>,
    i: int,
    before: Seq<CommitEntry>,
    entry: CommitEntry,
)
    requires
        0 <= i < logs.len(),
        forall|k: int|
            #![trigger logs[k]]
            0 <= k < logs.len() - 1 ==> log_entries(a, logs[k]) == log_entries(b, logs[k]),
        log_entries(a, logs.last()) is Ok,
        log_entries(b, logs.last()) == Ok::<Seq<CommitEntry>, ArchiveReplayError>(
            log_entries(a, logs.last())->Ok_0.push(entry),
        ),
        collected_entries(a, logs, i, before) is Ok,
        ({
            let all = collected_entries(a, logs, i, before)->Ok_0;
            all.len() == 0 || all.last().commit_ordinal < entry.commit_ordinal
        }),
    ensures
        collected_entries(b, logs, i, before) == Ok::<Seq<CommitEntry>, ArchiveReplayError>(
            collected_entries(a, logs, i, before)->Ok_0.push(entry),
        ),
    decreases logs.len() - i,
{
    let part = log_entries(a, logs[i])->Ok_0;
    if i < logs.len() - 1 {
        assert(log_entries(a, logs[i]) == log_entries(b, logs[i]));
        collected_grows(a, b, logs, i + 1, before + part, entry);
    } else {
        let all = before + part;
        assert(collected_entries(a, logs, i + 1, all) == Ok::<Seq<CommitEntry>, ArchiveReplayError>(all));
        assert(before + part.push(entry) =~= all.push(entry));
        assert forall|k: int| 0 <= k < all.push(entry).len() implies #[trigger] ordinal_follows(
            all.push(entry),
            k,
        ) by {
            if k < all.len() {
                assert(ordinal_follows(all, k));
            }
        }
        assert(collected_entries(b, logs, i + 1, all.push(entry)) == Ok::<
            Seq<CommitEntry>,
            ArchiveReplayError,
        >(all.push(entry)));
    }
}

/// Moving the last log in front of a new, empty one changes nothing of what all of them hold.
proof fn collected_rolled(
    a: StoreModel,
    b: StoreModel,
    logs: Seq<ArchiveFile>,
    moved: ArchiveFile,
    i: int,
    before: Seq<CommitEntry>,
)
    requires
        0 <= i < logs.len(),
        logs.last() == ArchiveFile::CommitLog,
        forall|k: int|
            #![trigger logs[k]]
            0 <= k < logs.len() - 1 ==> log_entries(a, logs[k]) == log_entries(b, logs[k]),
        log_entries(a, ArchiveFile::CommitLog) is Ok,
        log_entries(b, moved) == log_entries(a, ArchiveFile::CommitLog),
        log_entries(b, ArchiveFile::CommitLog) == Ok::<Seq<CommitEntry>, ArchiveReplayError>(
            Seq::empty(),
        ),
    ensures
        collected_entries(b, logs.drop_last().push(moved).push(ArchiveFile::CommitLog), i, before)
            == collected_entries(a, logs, i, before),
    decreases logs.len() - i,
{
    let longer = logs.drop_last().push(moved).push(ArchiveFile::CommitLog);
    if i < logs.len() - 1 {
        assert(longer[i] == logs[i]);
        assert(log_entries(a, logs[i]) == log_entries(b, logs[i]));
        if let Ok(part) = log_entries(a, logs[i]) {
            collected_rolled(a, b, logs, moved, i + 1, before + part);
        }
    } else {
        let part = log_entries(a, ArchiveFile::CommitLog)->Ok_0;
        let all = before + part;
        assert(longer[i] == moved);
        assert(longer[i + 1] == ArchiveFile::CommitLog);
        assert(all + Seq::<CommitEntry>::empty() =~= all);
        reveal_with_fuel(collected_entries, 3);
    }
}

/// The index that is found free is free, and not below the one where the search starts.
pub proof fn free_index_is_free(store: StoreModel, index: u64)
    ensures
        match free_roll_index(store, index) {
            None => true,
            Some(free) => index <= free && !store.has(ArchiveFile::RolledCommitLog { index: free }),
        },
    decreases u64::MAX - index,
{
    if store.has(ArchiveFile::RolledCommitLog { index }) && index < u64::MAX {
        free_index_is_free(store, (index + 1) as u64);
    }
}

/// The store after the commit log was moved to a rolled one and a new one was started.
spec fn rolled_store(
    state: RecorderState,
    store: StoreModel,
    index: u64,
    now_ns: u64,
) -> StoreModel {
    let log = ArchiveFile::CommitLog;
    let header = new_header(ArchiveFileKind::CommitIdxLog, state.config.log_id@, 0, 0, now_ns);
    let len = preallocated_len(
        76,
        state.config.metadata_log_preallocate_entries,
        state.config.metadata_log_roll_bytes,
    )->Ok_0;
    store.synced(log).with_len(log, state.disk->Some_0.commit_log_write_offset).moved(
        log,
        ArchiveFile::RolledCommitLog { index },
    ).with_empty(log).written(log, 0, header).with_len(log, len)
}

/// What rolling the commit log does, where it succeeds.
proof fn roll_shape(state: RecorderState, store: StoreModel, now_ns: u64)
    requires
        state.disk is Some,
        commit_log_rolled(state, store, now_ns).result is Ok,
    ensures
        ({
            let step = commit_log_rolled(state, store, now_ns);
            let free = free_roll_index(store, state.disk->Some_0.commit_log_roll_index);
            &&& free is Some
            &&& preallocated_len(
                76,
                state.config.metadata_log_preallocate_entries,
                state.config.metadata_log_roll_bytes,
            ) is Ok
            &&& step.store == rolled_store(state, store, free->Some_0, now_ns)
            &&& step.state.disk is Some
            &&& step.state.disk->Some_0.commit_log_write_offset == 76
            &&& step.state.disk->Some_0.commit_log_roll_index == next_number(free->Some_0)
            &&& step.state.next_commit_ordinal == state.next_commit_ordinal
            &&& step.state.last_sequence == state.last_sequence
        }),
{
    let log = ArchiveFile::CommitLog;
    let cut = store.synced(log).with_len(log, state.disk->Some_0.commit_log_write_offset);
    free_index_untouched(store, cut, state.disk->Some_0.commit_log_roll_index);
    let index = free_roll_index(cut, state.disk->Some_0.commit_log_roll_index)->Some_0;
    let moved = cut.moved(log, ArchiveFile::RolledCommitLog { index });
    let header = new_header(ArchiveFileKind::CommitIdxLog, state.config.log_id@, 0, 0, now_ns);
    let headed = header_written(
        moved.with_empty(log),
        log,
        ArchiveFileKind::CommitIdxLog,
        state.config.log_id@,
        0,
        0,
        now_ns,
    );
    assert(headed.1 is Ok ==> headed.0 == moved.with_empty(log).written(log, 0, header));
}

/// What the logs hold after the commit log was rolled.
proof fn roll_images(
    state: RecorderState,
    store: StoreModel,
    index: u64,
    now_ns: u64,
    active: Seq<CommitEntry>,
)
    requires
        store.has(ArchiveFile::CommitLog),
        log_image(store.bytes(ArchiveFile::CommitLog), active),
        state.disk->Some_0.commit_log_write_offset == 76 + 104 * active.len(),
        preallocated_len(
            76,
            state.config.metadata_log_preallocate_entries,
            state.config.metadata_log_roll_bytes,
        ) is Ok,
    ensures
        ({
            let after = rolled_store(state, store, index, now_ns);
            &&& after.has(ArchiveFile::CommitLog)
            &&& after.has(ArchiveFile::RolledCommitLog { index })
            &&& log_image(after.bytes(ArchiveFile::CommitLog), Seq::empty())
            &&& log_entries(after, ArchiveFile::CommitLog) == Ok::<
                Seq<CommitEntry>,
                ArchiveReplayError,
            >(Seq::empty())
            &&& log_entries(after, ArchiveFile::RolledCommitLog { index }) == Ok::<
                Seq<CommitEntry>,
                ArchiveReplayError,
            >(active)
            &&& forall|x: u64|
                #![trigger after.has(ArchiveFile::RolledCommitLog { index: x })]
                x != index ==> after.has(ArchiveFile::RolledCommitLog { index: x }) == store.has(
                    ArchiveFile::RolledCommitLog { index: x },
                ) && after.bytes(ArchiveFile::RolledCommitLog { index: x }) == store.bytes(
                    ArchiveFile::RolledCommitLog { index: x },
                )
        }),
{
    let log = ArchiveFile::CommitLog;
    let rolled = ArchiveFile::RolledCommitLog { index };
    let offset = state.disk->Some_0.commit_log_write_offset;
    let cut = store.synced(log).with_len(log, offset);
    image_resized(store.bytes(log), active, offset as nat);
    let header = new_header(ArchiveFileKind::CommitIdxLog, state.config.log_id@, 0, 0, now_ns);
    image_starts(state.config.log_id, now_ns);
    let headed = cut.moved(log, rolled).with_empty(log).written(log, 0, header);
    assert(headed.bytes(log) == overwritten(Seq::empty(), 0, header));
    let len = preallocated_len(
        76,
        state.config.metadata_log_preallocate_entries,
        state.config.metadata_log_roll_bytes,
    )->Ok_0;
    let after = headed.with_len(log, len);
    image_resized(headed.bytes(log), Seq::empty(), len as nat);
    assert(after.bytes(rolled) == cut.bytes(log));
    image_reads_back(after, rolled, active);
    image_reads_back(after, log, Seq::empty());
}

/// The list of the rolled logs with one more at its end.
proof fn rolled_list_grows(a: StoreModel, b: StoreModel, index: u64)
    requires
        is_rolled_list(a, rolled_indexes(a)),
        b.has(ArchiveFile::RolledCommitLog { index }),
        forall|x: u64|
            #![trigger b.has(ArchiveFile::RolledCommitLog { index: x })]
            x != index ==> b.has(ArchiveFile::RolledCommitLog { index: x }) == a.has(
                ArchiveFile::RolledCommitLog { index: x },
            ),
        forall|x: u64| #[trigger] a.has(ArchiveFile::RolledCommitLog { index: x }) ==> x < index,
    ensures
        is_rolled_list(b, rolled_indexes(b)),
        rolled_indexes(b) == rolled_indexes(a).push(index),
{
    let r = rolled_indexes(a);
    let q = r.push(index);
    assert forall|i: int, j: int| #![trigger q[i], q[j]] 0 <= i < j < q.len() implies q[i]
        < q[j] by {
        if j == r.len() {
            assert(r.contains(r[i]));
            assert(a.has(ArchiveFile::RolledCommitLog { index: r[i] }));
        }
    }
    assert forall|x: u64| #[trigger] q.contains(x) <==> b.has(
        ArchiveFile::RolledCommitLog { index: x },
    ) by {
        assert(r.contains(x) <==> a.has(ArchiveFile::RolledCommitLog { index: x }));
        if q.contains(x) {
            let k = choose|k: int| 0 <= k < q.len() && q[k] == x;
            if k < r.len() {
                assert(r[k] == x);
            }
        }
        if r.contains(x) {
            let k = choose|k: int| 0 <= k < r.len() && r[k] == x;
            assert(q[k] == x);
        }
        assert(q[r.len() as int] == index);
    }
    rolled_list_unique(b, q);
}

/// Rolling the commit log changes nothing of what all logs together hold.
#[verifier::spinoff_prover]
#[verifier::rlimit(60)]
pub proof fn history_rolled(
    state: RecorderState,
    store: StoreModel,
    now_ns: u64,
    entries: Seq<CommitEntry>,
)
    requires
        history(state, store, entries),
        commit_log_rolled(state, store, now_ns).result is Ok,
    ensures
        ({
            let step = commit_log_rolled(state, store, now_ns);
            &&& history(step.state, step.store, entries)
            &&& step.state.next_commit_ordinal == state.next_commit_ordinal
            &&& step.state.last_sequence == state.last_sequence
        }),
{
    reveal(history);
    let log = ArchiveFile::CommitLog;
    let active = active_entries(store);
    let start = state.disk->Some_0.commit_log_roll_index;
    roll_shape(state, store, now_ns);
    let index = free_roll_index(store, start)->Some_0;
    free_index_is_free(store, start);
    let rolled = ArchiveFile::RolledCommitLog { index };
    let after = rolled_store(state, store, index, now_ns);
    image_reads_back(store, log, active);
    roll_images(state, store, index, now_ns, active);
    rolled_list_grows(store, after, index);
    let logs = commit_logs(store);
    let r = rolled_indexes(store);
    assert(commit_logs(after) =~= logs.drop_last().push(rolled).push(log));
    assert forall|k: int| #![trigger logs[k]] 0 <= k < logs.len() - 1 implies log_entries(
        store,
        logs[k],
    ) == log_entries(after, logs[k]) by {
        assert(r.contains(r[k]));
        assert(store.has(ArchiveFile::RolledCommitLog { index: r[k] }));
        assert(after.has(ArchiveFile::RolledCommitLog { index: r[k] }));
    }
    collected_rolled(store, after, logs, rolled, 0, Seq::empty());
    free_index_is_free(after, next_number(index));
    let later = commit_log_rolled(state, store, now_ns).state;
    assert(roll_ready(later, after)) by {
        assert forall|x: u64| #[trigger]
            after.has(ArchiveFile::RolledCommitLog { index: x }) implies x <= index by {
            if x != index {
                assert(store.has(ArchiveFile::RolledCommitLog { index: x }));
            }
        }
    }
}

/// A search for a free index goes by the rolled logs alone.
pub proof fn free_index_untouched(a: StoreModel, b: StoreModel, index: u64)
    requires
        forall|x: u64|
            #[trigger] a.has(ArchiveFile::RolledCommitLog { index: x }) == b.has(
                ArchiveFile::RolledCommitLog { index: x },
            ),
    ensures
        free_roll_index(a, index) == free_roll_index(b, index),
    decreases u64::MAX - index,
{
    assert(a.has(ArchiveFile::RolledCommitLog { index }) == b.has(
        ArchiveFile::RolledCommitLog { index },
    ));
    if a.has(ArchiveFile::RolledCommitLog { index }) && index < u64::MAX {
        free_index_untouched(a, b, (index + 1) as u64);
    }
}

/// What all logs hold goes by the bytes of the rolled logs and the entries of the active one.
proof fn entries_kept(a: StoreModel, b: StoreModel)
    requires
        is_rolled_list(a, rolled_indexes(a)),
        a.has(ArchiveFile::CommitLog),
        b.has(ArchiveFile::CommitLog),
        forall|x: u64|
            #[trigger] a.has(ArchiveFile::RolledCommitLog { index: x }) == b.has(
                ArchiveFile::RolledCommitLog { index: x },
            ) && a.bytes(ArchiveFile::RolledCommitLog { index: x }) == b.bytes(
                ArchiveFile::RolledCommitLog { index: x },
            ),
    ensures
        is_rolled_list(b, rolled_indexes(b)),
        commit_logs(a) == commit_logs(b),
        commit_logs(a).len() > 0,
        commit_logs(a).last() == ArchiveFile::CommitLog,
        forall|k: int|
            #![trigger commit_logs(a)[k]]
            0 <= k < commit_logs(a).len() - 1 ==> log_entries(a, commit_logs(a)[k]) == log_entries(
                b,
                commit_logs(a)[k],
            ),
{
    let r = rolled_indexes(a);
    assert(is_rolled_list(b, r)) by {
        assert forall|index: u64| #[trigger] r.contains(index) <==> b.has(
            ArchiveFile::RolledCommitLog { index },
        ) by {
            assert(a.has(ArchiveFile::RolledCommitLog { index }) == b.has(
                ArchiveFile::RolledCommitLog { index },
            ));
        }
    }
    rolled_list_unique(b, r);
    let logs = commit_logs(a);
    assert forall|k: int| #![trigger logs[k]] 0 <= k < logs.len() - 1 implies log_entries(
        a,
        logs[k],
    ) == log_entries(b, logs[k]) by {
        assert(a.has(ArchiveFile::RolledCommitLog { index: r[k] }) == b.has(
            ArchiveFile::RolledCommitLog { index: r[k] },
        ));
    }
}

/// Reserving room in the commit log changes nothing of what all logs together hold.
pub proof fn history_reserved(
    state: RecorderState,
    store: StoreModel,
    entries: Seq<CommitEntry>,
)
    requires
        history(state, store, entries),
        state.wf(),
        commit_log_ensured(state, store).result is Ok,
    ensures
        ({
            let step = commit_log_ensured(state, store);
            &&& history(step.state, step.store, entries)
            &&& step.state.next_commit_ordinal == state.next_commit_ordinal
            &&& step.state.last_sequence == state.last_sequence
        }),
{
    reveal(history);
    let log = ArchiveFile::CommitLog;
    let step = commit_log_ensured(state, store);
    let active = active_entries(store);
    let required = state.disk->Some_0.commit_log_write_offset + 104;
    if required > state.disk->Some_0.commit_log_preallocated_len {
        let len = preallocated_len(
            required as u64,
            state.config.metadata_log_preallocate_entries,
            state.config.metadata_log_roll_bytes,
        )->Ok_0;
        image_resized(store.bytes(log), active, len as nat);
        image_reads_back(store, log, active);
        image_reads_back(step.store, log, active);
        entries_kept(store, step.store);
        collected_kept(store, step.store, commit_logs(store), 0, Seq::empty());
        free_index_untouched(
            store,
            step.store,
            state.disk->Some_0.commit_log_roll_index,
        );
        assert(roll_ready(step.state, step.store)) by {
            assert forall|index: u64| #[trigger]
                step.store.has(ArchiveFile::RolledCommitLog { index }) implies store.has(
                ArchiveFile::RolledCommitLog { index },
            ) by {}
        }
    }
}

/// An entry behind the last one extends the history.
proof fn history_grows(
    state: RecorderState,
    store: StoreModel,
    later: RecorderState,
    entry: CommitEntry,
    entries: Seq<CommitEntry>,
)
    requires
        history(state, store, entries),
        entries.len() > 0 ==> entries.last().commit_ordinal < entry.commit_ordinal
            && entries.last().sequence < entry.sequence,
        entry.commit_ordinal < state.next_commit_ordinal,
        state.last_sequence == Some(entry.sequence),
        later.disk is Some,
        later.disk->Some_0.commit_log_write_offset
            == state.disk->Some_0.commit_log_write_offset + 104,
        later.disk->Some_0.commit_log_roll_index == state.disk->Some_0.commit_log_roll_index,
        later.next_commit_ordinal == state.next_commit_ordinal,
        later.last_sequence == state.last_sequence,
    ensures
        history(
            later,
            store.written(
                ArchiveFile::CommitLog,
                state.disk->Some_0.commit_log_write_offset,
                entry.encoded(),
            ),
            entries.push(entry),
        ),
{
    reveal(history);
    let log = ArchiveFile::CommitLog;
    let active = active_entries(store);
    let offset = state.disk->Some_0.commit_log_write_offset;
    let after = store.written(log, offset, entry.encoded());
    image_grows(store.bytes(log), active, entry);
    image_reads_back(store, log, active);
    image_reads_back(after, log, active.push(entry));
    entries_kept(store, after);
    collected_grows(store, after, commit_logs(store), 0, Seq::empty(), entry);
    free_index_untouched(store, after, state.disk->Some_0.commit_log_roll_index);
    assert(roll_ready(later, after)) by {
        assert forall|index: u64| #[trigger]
            after.has(ArchiveFile::RolledCommitLog { index }) implies store.has(
            ArchiveFile::RolledCommitLog { index },
        ) by {}
    }
    sequences_grow(entries, entry);
}

/// Making room for an entry changes nothing of what all logs together hold.
proof fn history_with_room(
    state: RecorderState,
    store: StoreModel,
    now_ns: u64,
    entries: Seq<CommitEntry>,
)
    requires
        history(state, store, entries),
        state.wf(),
        entry_room_made(state, store, now_ns).result is Ok,
    ensures
        ({
            let room = entry_room_made(state, store, now_ns);
            &&& history(room.state, room.store, entries)
            &&& room.state.next_commit_ordinal == state.next_commit_ordinal
            &&& room.state.last_sequence == state.last_sequence
        }),
{
    history_has_files(state, store, entries);
    let rolled = commit_log_rolled_if_needed(state, store, now_ns);
    assert(rolled.result is Ok);
    if state.disk->Some_0.commit_log_write_offset + 104 > state.config.metadata_log_roll_bytes {
        history_rolled(state, store, now_ns, entries);
    }
    roll_keeps(state, store, now_ns);
    let room = commit_log_ensured(rolled.state, rolled.store);
    assert(room.result is Ok);
    history_reserved(rolled.state, rolled.store, entries);
}

/// Rolling the commit log keeps the state well-formed.
pub proof fn roll_keeps(state: RecorderState, store: StoreModel, now_ns: u64)
    requires
        state.wf(),
        state.disk is Some,
    ensures
        commit_log_rolled_if_needed(state, store, now_ns).state.wf(),
{
}

/// An entry that was written is the last one of the history.
proof fn history_written(
    state: RecorderState,
    store: StoreModel,
    entry: CommitEntry,
    now_ns: u64,
    entries: Seq<CommitEntry>,
)
    requires
        history(state, store, entries),
        state.wf(),
        entry_written(state, store, entry, now_ns).result is Ok,
        entries.len() > 0 ==> entries.last().commit_ordinal < entry.commit_ordinal
            && entries.last().sequence < entry.sequence,
        entry.commit_ordinal < state.next_commit_ordinal,
        state.last_sequence == Some(entry.sequence),
    ensures
        ({
            let step = entry_written(state, store, entry, now_ns);
            &&& history(step.state, step.store, entries.push(entry))
            &&& step.state.next_commit_ordinal == state.next_commit_ordinal
            &&& step.state.last_sequence == state.last_sequence
        }),
{
    history_with_room(state, store, now_ns, entries);
    let room = entry_room_made(state, store, now_ns);
    let step = entry_written(state, store, entry, now_ns);
    history_grows(room.state, room.store, step.state, entry, entries);
}

/// A larger sequence at the end keeps the sequences increasing.
proof fn sequences_grow(entries: Seq<CommitEntry>, entry: CommitEntry)
    requires
        increasing(all_sequences(entries)),
        entries.len() > 0 ==> entries.last().sequence < entry.sequence,
    ensures
        increasing(all_sequences(entries.push(entry))),
{
    let a = all_sequences(entries);
    let b = all_sequences(entries.push(entry));
    assert forall|i: int, j: int| #![trigger b[i], b[j]] 0 <= i < j < b.len() implies b[i]
        < b[j] by {
        if j < a.len() {
            assert(a[i] < a[j]);
        } else if i < a.len() - 1 {
            assert(a[i] < a[a.len() - 1]);
        }
    }
}

/// Preparing spare segments leaves the commit logs alone.
proof fn spares_leave_logs(
    state: RecorderState,
    store: StoreModel,
    segment_id: u64,
    end: u64,
    now_ns: u64,
)
    ensures
        same_logs(store, spares_created(state, store, segment_id, end, now_ns).store),
    decreases end - segment_id,
{
    if segment_id < end {
        let first = spare_created(state, store, segment_id, now_ns);
        assert(same_logs(store, first.store));
        if first.result is Ok {
            spares_leave_logs(first.state, first.store, next_number(segment_id), end, now_ns);
            same_logs_chain(
                store,
                first.store,
                spares_created(state, store, segment_id, end, now_ns).store,
            );
        }
    }
}

/// What leaves the commit logs alone twice leaves them alone.
pub proof fn same_logs_chain(a: StoreModel, b: StoreModel, c: StoreModel)
    requires
        same_logs(a, b),
        same_logs(b, c),
    ensures
        same_logs(a, c),
{
    assert forall|file: ArchiveFile| is_log(file) implies #[trigger] a.has(file) == c.has(file)
        && a.bytes(file) == c.bytes(file) by {
        assert(a.has(file) == b.has(file));
        assert(b.has(file) == c.has(file));
    }
}

/// Opening a segment leaves the commit logs and the recorder's place in them alone.
pub proof fn segment_opened_leaves_logs(
    state: RecorderState,
    store: StoreModel,
    segment_id: u64,
    now_ns: u64,
)
    requires
        state.disk is Some,
    ensures
        ({
            let step = segment_opened(state, store, segment_id, now_ns);
            same_logs(store, step.store) && same_log_state(state, step.state)
        }),
{
    let config = state.config;
    let file = hot_data(segment_id, config.segment_generation);
    let created_new = !store.has(file);
    let placed = if created_new {
        store.with_empty(file)
    } else {
        store
    };
    let headed = header_written(
        placed,
        file,
        ArchiveFileKind::SegmentData,
        config.log_id@,
        segment_id,
        config.segment_generation,
        now_ns,
    ).0;
    assert(same_logs(store, headed));
    let sized = if config.segment_preallocate {
        headed.with_len(file, config.segment_bytes as u64)
    } else {
        headed
    };
    assert(same_logs(store, sized));
    let noted = if config.segment_preallocate && created_new {
        preallocation_counted(state)
    } else {
        state
    };
    let ready = noted.with_active(Some(opened_segment(config, segment_id, now_ns)));
    let start = next_number(segment_id);
    let end = saturating_sum(start, config.spare_preallocated_segments as int);
    spares_leave_logs(ready, sized, start, end, now_ns);
    spares_keep_state(ready, sized, start, end, now_ns);
    same_logs_chain(store, sized, spares_created(ready, sized, start, end, now_ns).store);
}

/// Closing a segment leaves the commit logs and the recorder's place in them alone.
proof fn segment_closed_leaves_logs(
    state: RecorderState,
    store: StoreModel,
    open_next: bool,
    now_ns: u64,
)
    requires
        state.is_open(),
    ensures
        ({
            let step = segment_closed(state, store, open_next, now_ns);
            same_logs(store, step.store) && same_log_state(state, step.state)
        }),
{
    let active = state.disk->Some_0.active_segment->Some_0;
    let file = hot_data(active.segment_id, active.segment_generation);
    let closed = state.with_active(None);
    let synced = store.synced(file);
    let noted = if active.records > 0 {
        summary_written(closed, synced, active, now_ns)
    } else {
        Step { state: closed, store: synced, result: Ok(()) }
    };
    assert(store.has(file) ==> same_logs(store, synced));
    if store.has(file) {
        summary_leaves_logs(closed, synced, active, now_ns);
        same_logs_chain(store, synced, noted.store);
        segment_opened_leaves_logs(
            noted.state,
            noted.store,
            next_number(active.segment_id),
            now_ns,
        );
        same_logs_chain(
            store,
            noted.store,
            segment_opened(noted.state, noted.store, next_number(active.segment_id), now_ns).store,
        );
    }
}

/// Writing a summary leaves the commit logs and the recorder's place in them alone.
proof fn summary_leaves_logs(
    state: RecorderState,
    store: StoreModel,
    active: ActiveSegment,
    now_ns: u64,
)
    requires
        state.disk is Some,
    ensures
        ({
            let step = summary_written(state, store, active, now_ns);
            same_logs(store, step.store) && same_log_state(state, step.state)
        }),
{
}

/// Moving a file between tiers leaves the commit logs alone.
proof fn tier_moves_leave_logs(state: RecorderState, store: StoreModel, key: SegmentKey)
    ensures
        same_logs(store, detached(state, store, key).0),
        same_logs(store, attached(state, store, key).0),
        same_logs(store, detached_deleted(state, store, key).0),
{
}

/// The retention pass leaves the commit logs alone.
proof fn retention_leaves_logs(
    state: RecorderState,
    cap: u64,
    start: RetentionProgress,
    segments: Seq<ArchiveSegmentState>,
    n: int,
)
    ensures
        same_logs(start.store, retention_pass(state, cap, start, segments, n).store),
    decreases n,
{
    if n > 0 {
        retention_leaves_logs(state, cap, start, segments, n - 1);
        let before = retention_pass(state, cap, start, segments, n - 1);
        let segment = segments[n - 1];
        let key = (segment.segment_id, segment.segment_generation);
        tier_moves_leave_logs(state, before.store, key);
        let cold = if segment.tier == ArchiveSegmentTier::HotAttached {
            detached(state, before.store, key).0
        } else {
            before.store
        };
        tier_moves_leave_logs(state, cold, key);
        same_logs_chain(before.store, cold, detached_deleted(state, cold, key).0);
        let after = retention_step(state, cap, before, segment);
        assert(same_logs(before.store, after.store));
        same_logs_chain(start.store, before.store, after.store);
    }
}

/// Sealing a segment leaves the commit logs and the recorder's place in them alone.
pub proof fn sealed_leaves_logs(
    recorder: RecorderModel,
    store: StoreModel,
    open_next: bool,
    now_ns: u64,
)
    requires
        recorder.state.is_open(),
    ensures
        ({
            let outcome = sealed(recorder, store, open_next, now_ns);
            same_logs(store, outcome.store) && same_log_state(
                recorder.state,
                outcome.recorder.state,
            )
        }),
{
    let step = segment_closed(recorder.state, store, open_next, now_ns);
    segment_closed_leaves_logs(recorder.state, store, open_next, now_ns);
    let later = recorder.with_state(step.state);
    retention_enforced_leaves_logs(later, step.store);
    same_logs_chain(store, step.store, retention_enforced(later, step.store).store);
}

/// Enforcing the cap on retained bytes leaves the commit logs and the state alone.
pub proof fn retention_enforced_leaves_logs(recorder: RecorderModel, store: StoreModel)
    ensures
        same_logs(store, retention_enforced(recorder, store).store),
        retention_enforced(recorder, store).recorder.state == recorder.state,
{
    let state = recorder.state;
    if state.config.max_disk_bytes is Some && retention(state, store) is Ok {
        let cap = state.config.max_disk_bytes->Some_0;
        let status = retention(state, store)->Ok_0;
        let segments = segment_states(state, store)->Ok_0;
        retention_leaves_logs(
            state,
            cap,
            RetentionProgress {
                index: recorder.index,
                store,
                retained: status.retained_bytes_total,
            },
            segments,
            segments.len() as int,
        );
    }
}

/// The history goes on: a record whose append succeeded is the last entry that the commit logs
/// together hold, behind all entries that they held before. It has the commit ordinal and the
/// locator that the append returned, and the source that was handed in.
pub proof fn append_extends_history(
    recorder: RecorderModel,
    store: StoreModel,
    record: RecordModel,
    source: ArchiveSourceMetadata,
    now_ns: u64,
    entries: Seq<CommitEntry>,
)
    requires
        recorder.accepts_calls(),
        history(recorder.state, store, entries),
        record_appended(recorder, store, record, source, now_ns).result is Ok,
    ensures
        ({
            let outcome = record_appended(recorder, store, record, source, now_ns);
            history(
                outcome.recorder.state,
                outcome.store,
                entries.push(appended_entry(recorder, store, record, source, now_ns)),
            )
        }),
{
    let numbered = numbered(recorder, record.sequence);
    let frame = record.frame(recorder.state.next_commit_ordinal, now_ns);
    history_has_files(recorder.state, store, entries);
    append_shape(recorder, store, record, source, now_ns);
    history_numbered(recorder, store, record.sequence, entries);
    if needs_roll(numbered, frame) {
        let rolled = sealed(numbered, store, true, now_ns);
        sealed_keeps(numbered, store, true, now_ns);
        sealed_leaves_logs(numbered, store, true, now_ns);
        history_kept(numbered.state, store, rolled.recorder.state, rolled.store, entries);
        record_extends_history(rolled.recorder, rolled.store, frame, source, entries);
    } else {
        record_extends_history(numbered, store, frame, source, entries);
    }
}

/// The history of a recorder that gave a record its ordinal.
pub proof fn history_numbered(
    recorder: RecorderModel,
    store: StoreModel,
    sequence: u64,
    entries: Seq<CommitEntry>,
)
    requires
        history(recorder.state, store, entries),
        refusal(recorder.state, sequence) is None,
        recorder.state.next_commit_ordinal < u64::MAX,
    ensures
        history(numbered(recorder, sequence).state, store, entries),
        entries.len() > 0 ==> entries.last().commit_ordinal < recorder.state.next_commit_ordinal
            && entries.last().sequence < sequence,
        recorder.state.disk is Some,
{
    reveal(history);
}

/// A recorder with a history has files.
pub proof fn history_has_files(state: RecorderState, store: StoreModel, entries: Seq<CommitEntry>)
    requires
        history(state, store, entries),
    ensures
        state.disk is Some,
        store.has(ArchiveFile::CommitLog),
{
    reveal(history);
}

/// The commit entry of a record whose append succeeded.
pub open spec fn appended_entry(
    recorder: RecorderModel,
    store: StoreModel,
    record: RecordModel,
    source: ArchiveSourceMetadata,
    now_ns: u64,
) -> CommitEntry {
    let commit = record_appended(recorder, store, record, source, now_ns).result->Ok_0;
    let frame = record.frame(recorder.state.next_commit_ordinal, now_ns);
    record_entry(
        frame,
        commit.locator,
        frame.checksum(recorder.state.config.checksum_mode),
        source,
    )
}

/// A record that was written is the last entry of the history.
proof fn record_extends_history(
    recorder: RecorderModel,
    store: StoreModel,
    frame: FrameInput,
    source: ArchiveSourceMetadata,
    entries: Seq<CommitEntry>,
)
    requires
        recorder.state.wf(),
        recorder.state.is_open(),
        history(recorder.state, store, entries),
        entries.len() > 0 ==> entries.last().commit_ordinal < frame.commit_ordinal
            && entries.last().sequence < frame.sequence,
        frame.commit_ordinal < recorder.state.next_commit_ordinal,
        recorder.state.last_sequence == Some(frame.sequence),
        recorder.state.disk->Some_0.active_segment->Some_0.write_offset + frame.frame_len()
            <= recorder.state.config.segment_bytes,
        record_written(recorder, store, frame, source).result is Ok,
    ensures
        ({
            let outcome = record_written(recorder, store, frame, source);
            let entry = record_entry(
                frame,
                outcome.result->Ok_0.locator,
                frame.checksum(recorder.state.config.checksum_mode),
                source,
            );
            history(outcome.recorder.state, outcome.store, entries.push(entry))
        }),
{
    let mode = recorder.state.config.checksum_mode;
    let data = frame.encoded(mode);
    let placed = frame_written(recorder.state, store, frame.sequence, data);
    let locator = placed.result->Ok_0;
    let entry = record_entry(frame, locator, frame.checksum(mode), source);
    assert(same_logs(store, placed.store));
    history_kept(recorder.state, store, placed.state, placed.store, entries);
    encoded_len(frame, mode);
    assert(placed.state.wf());
    history_written(placed.state, placed.store, entry, frame.commit_time_ns, entries);
    let logged = entry_written(placed.state, placed.store, entry, frame.commit_time_ns);
    let outcome = record_written(recorder, store, frame, source);
    assert(same_logs(logged.store, outcome.store));
    assert(same_log_state(logged.state, outcome.recorder.state));
    history_kept(
        logged.state,
        logged.store,
        outcome.recorder.state,
        outcome.store,
        entries.push(entry),
    );
}

/// A new archive starts with an empty history, where no rolled commit log is left of another.
pub proof fn created_archive_has_no_history(
    config: RecorderConfig,
    store: StoreModel,
    ring_available: bool,
    now_ns: u64,
)
    requires
        forall|index: u64| !#[trigger] store.has(ArchiveFile::RolledCommitLog { index }),
        archive_created(config, store, ring_available, now_ns).result is Ok,
    ensures
        ({
            let startup = archive_created(config, store, ring_available, now_ns);
            history(startup.result->Ok_0.state, startup.store, Seq::empty())
        }),
{
    reveal(archive_created);
    let (prepared, reserved) = archive_files_created(config, store, now_ns);
    let disk = DiskRecorderState {
        commit_log_write_offset: 76,
        commit_log_preallocated_len: reserved->Ok_0,
        commit_log_roll_index: 1,
        active_segment: None,
    };
    let backend = effective_backend(config.async_io_backend, ring_available)->Ok_0;
    let fresh = fresh_state(config, backend, Some(disk));
    let empty = Seq::<CommitEntry>::empty();
    files_have_no_history(config, store, fresh, now_ns);
    segment_opened_leaves_logs(fresh, prepared, 1, now_ns);
    let opened = segment_opened(fresh, prepared, 1, now_ns);
    history_kept(fresh, prepared, opened.state, opened.store, empty);
}

/// The files of a new archive.
proof fn files_shape(config: RecorderConfig, store: StoreModel, now_ns: u64)
    requires
        archive_files_created(config, store, now_ns).1 is Ok,
    ensures
        ({
            let (prepared, reserved) = archive_files_created(config, store, now_ns);
            let log = ArchiveFile::CommitLog;
            let header = new_header(ArchiveFileKind::CommitIdxLog, config.log_id@, 0, 0, now_ns);
            &&& prepared.has(log)
            &&& prepared.bytes(log) == resized(
                overwritten(Seq::empty(), 0, header),
                reserved->Ok_0 as nat,
            )
            &&& 76 <= reserved->Ok_0
            &&& forall|index: u64|
                #[trigger] prepared.has(ArchiveFile::RolledCommitLog { index }) == store.has(
                    ArchiveFile::RolledCommitLog { index },
                )
        }),
{
}

/// The files of a new archive hold no entry.
#[verifier::spinoff_prover]
#[verifier::rlimit(60)]
proof fn files_have_no_history(
    config: RecorderConfig,
    store: StoreModel,
    fresh: RecorderState,
    now_ns: u64,
)
    requires
        forall|index: u64| !#[trigger] store.has(ArchiveFile::RolledCommitLog { index }),
        archive_files_created(config, store, now_ns).1 is Ok,
        fresh.disk is Some,
        fresh.disk->Some_0.commit_log_write_offset == 76,
    ensures
        history(fresh, archive_files_created(config, store, now_ns).0, Seq::empty()),
{
    files_shape(config, store, now_ns);
    let log = ArchiveFile::CommitLog;
    let (prepared, reserved) = archive_files_created(config, store, now_ns);
    let header = new_header(ArchiveFileKind::CommitIdxLog, config.log_id@, 0, 0, now_ns);
    image_starts(config.log_id, now_ns);
    image_resized(overwritten(Seq::empty(), 0, header), Seq::empty(), reserved->Ok_0 as nat);
    empty_log_alone(prepared, fresh);
}

/// An archive whose only commit log holds no entry has no history.
proof fn empty_log_alone(store: StoreModel, state: RecorderState)
    requires
        forall|index: u64| !#[trigger] store.has(ArchiveFile::RolledCommitLog { index }),
        store.has(ArchiveFile::CommitLog),
        log_image(store.bytes(ArchiveFile::CommitLog), Seq::empty()),
        state.disk is Some,
        state.disk->Some_0.commit_log_write_offset == 76,
    ensures
        history(state, store, Seq::empty()),
{
    reveal(history);
    let log = ArchiveFile::CommitLog;
    image_reads_back(store, log, Seq::empty());
    let none = Seq::<u64>::empty();
    assert(is_rolled_list(store, none));
    rolled_list_unique(store, none);
    assert(commit_logs(store) =~= seq![log]);
    let empty = Seq::<CommitEntry>::empty();
    assert(empty + empty =~= empty);
    reveal_with_fuel(collected_entries, 2);
    assert(all_entries(store) == Ok::<Seq<CommitEntry>, ArchiveReplayError>(empty));
}

/// Entries with increasing sequences all have a place in the replayer's index.
proof fn history_is_indexed(store: StoreModel, entries: Seq<CommitEntry>, n: int)
    requires
        0 <= n <= entries.len(),
        increasing(all_sequences(entries)),
    ensures
        replay_index(store, entries, n) is Ok,
    decreases n,
{
    if n > 0 {
        history_is_indexed(store, entries, n - 1);
        replay_index_is_ordered(store, entries, n - 1);
        let before = replay_index(store, entries, n - 1)->Ok_0;
        let entry = entries[n - 1];
        let at = lower_bound_of(all_sequences(before), entry.sequence);
        lower_bound_splits(all_sequences(before), entry.sequence);
        if at < before.len() {
            assert(before.contains(before[at]));
            let i = choose|i: int|
                0 <= i < n - 1 && #[trigger] entries[i] == before[at] && is_hot(store, before[at]);
            assert(all_sequences(entries)[i] < all_sequences(entries)[n - 1]);
            assert(all_sequences(before)[at] == before[at].sequence);
        }
    }
}

/// A replayer finds every entry of the history whose segment is attached, by its sequence.
pub proof fn history_is_replayed(
    state: RecorderState,
    store: StoreModel,
    entries: Seq<CommitEntry>,
    builder: ArchiveReplayerBuilder,
    i: int,
)
    requires
        history(state, store, entries),
        0 <= i < entries.len(),
        is_hot(store, entries[i]),
    ensures
        ({
            let opened = replayer_opened(builder, store);
            &&& opened is Ok
            &&& opened->Ok_0.entries == entries
            &&& indexed_entry(opened->Ok_0.index, entries[i].sequence) == Some(entries[i])
        }),
{
    reveal(history);
    let n = entries.len() as int;
    history_is_indexed(store, entries, n);
    replay_index_is_ordered(store, entries, n);
    let index = replay_index(store, entries, n)->Ok_0;
    let sequence = entries[i].sequence;
    let at = lower_bound_of(all_sequences(index), sequence);
    lower_bound_splits(all_sequences(index), sequence);
    assert(index.contains(entries[i]));
    let k = choose|k: int| 0 <= k < index.len() && index[k] == entries[i];
    assert(all_sequences(index)[k] == sequence);
    if at < k {
        assert(all_sequences(index)[at] < all_sequences(index)[k]);
        assert(all_sequences(index)[at] >= sequence);
    }
    assert(at == k);
}

/// Write, then replay: a replayer that is opened on the store after an append succeeded finds the
/// record by the sequence that the append returned, and reads from its frame what was handed in.
#[verifier::spinoff_prover]
#[verifier::rlimit(60)]
pub proof fn appended_record_is_replayed(
    recorder: RecorderModel,
    store: StoreModel,
    record: RecordModel,
    source: ArchiveSourceMetadata,
    now_ns: u64,
    entries: Seq<CommitEntry>,
    builder: ArchiveReplayerBuilder,
)
    requires
        recorder.accepts_calls(),
        history(recorder.state, store, entries),
        record.wf(),
        record.frame(recorder.state.next_commit_ordinal, now_ns).frame_len() <= u32::MAX,
        record_appended(recorder, store, record, source, now_ns).result is Ok,
    ensures
        ({
            let outcome = record_appended(recorder, store, record, source, now_ns);
            let commit = outcome.result->Ok_0;
            let entry = appended_entry(recorder, store, record, source, now_ns);
            let opened = replayer_opened(builder, outcome.store);
            &&& opened is Ok
            &&& opened->Ok_0.entries == entries.push(entry)
            &&& indexed_entry(opened->Ok_0.index, commit.sequence) == Some(entry)
            &&& entry_frame(outcome.store, entry, builder.verify_checksums) == Ok::<FrameModel, ArchiveReplayError>(
                replayed(
                    record.frame(recorder.state.next_commit_ordinal, now_ns),
                    recorder.state.config.checksum_mode,
                    commit.locator,
                ),
            )
        }),
{
    let outcome = record_appended(recorder, store, record, source, now_ns);
    let entry = appended_entry(recorder, store, record, source, now_ns);
    history_has_files(recorder.state, store, entries);
    append_extends_history(recorder, store, record, source, now_ns, entries);
    appended_record_reads_back(recorder, store, record, source, now_ns);
    unverified_reads_never_mismatch(outcome.store, entry, entry.locator);
    let more = entries.push(entry);
    assert(more[entries.len() as int] == entry);
    history_is_replayed(
        outcome.recorder.state,
        outcome.store,
        more,
        builder,
        entries.len() as int,
    );
}

/// What was published is what is replayed: a replayer that is opened after a sample was appended
/// finds it by the sequence that the append returned. The frame has the payload and the event
/// time of the sample, and its user header tells the source and then holds the user header of the
/// sample.
#[verifier::spinoff_prover]
#[verifier::rlimit(60)]
pub proof fn published_sample_is_replayed(
    recorder: RecorderModel,
    store: StoreModel,
    input: PublishSubscribeRecordInput<'_>,
    now_ns: u64,
    entries: Seq<CommitEntry>,
    builder: ArchiveReplayerBuilder,
)
    requires
        recorder.accepts_calls(),
        history(recorder.state, store, entries),
        64 + 40 + input.user_header@.len() + input.payload@.len() + 7 <= u32::MAX,
        publish_subscribe_appended(recorder, store, input, now_ns).result is Ok,
    ensures
        ({
            let outcome = publish_subscribe_appended(recorder, store, input, now_ns);
            let commit = outcome.result->Ok_0;
            let opened = replayer_opened(builder, outcome.store);
            let entry = indexed_entry(opened->Ok_0.index, commit.sequence);
            let frame = entry_frame(outcome.store, entry->Some_0, builder.verify_checksums);
            let source = publish_subscribe_source(
                input.source_service_id,
                input.source_publisher_id,
                input.source_sequence,
            );
            &&& opened is Ok
            &&& entry is Some
            &&& frame is Ok
            &&& frame->Ok_0.sequence == commit.sequence
            &&& frame->Ok_0.commit_ordinal == commit.commit_ordinal
            &&& frame->Ok_0.event_time_ns == input.event_time_ns
            &&& frame->Ok_0.payload == input.payload@
            &&& adapter_metadata(frame->Ok_0.user_header) == Some(source)
            &&& frame->Ok_0.user_header.subrange(40, frame->Ok_0.user_header.len() as int)
                == input.user_header@
        }),
{
    let source = publish_subscribe_source(
        input.source_service_id,
        input.source_publisher_id,
        input.source_sequence,
    );
    let user_header = adapter_user_header(source, input.user_header@);
    adapter_round_trip(source, input.user_header@);
    assert(user_header.len() == 40 + input.user_header@.len()) by {
        adapter_len(source, input.user_header@);
    }
    let record = RecordModel {
        sequence: next_sequence(recorder.state)->Some_0,
        event_time_ns: input.event_time_ns,
        user_header,
        payload: input.payload@,
    };
    let frame = record.frame(recorder.state.next_commit_ordinal, now_ns);
    aligned_is_next_multiple(64int + user_header.len() + input.payload@.len(), 8);
    history_has_files(recorder.state, store, entries);
    appended_record_is_replayed(recorder, store, record, source, now_ns, entries, builder);
    appended_record_reads_back(recorder, store, record, source, now_ns);
}

} // verus!
