//! What a recorder promises of its counters, its segments and its acknowledgments.

use crate::catalog::{
    appended_summary_reads_back, catalog_summaries, header_written, hot_meta, next_number,
};
use crate::error::ArchiveFile;
use crate::frame::{aligned_is_next_multiple, encoded_len, hot_data, FrameInput};
use crate::guarantees::{append_shape, is_durable, needs_roll, numbered};
use crate::header::ArchiveFileKind;
use crate::history::retention_enforced_leaves_logs;
use crate::recorder::{
    ack_awaited, entry_room_keeps, finalized, frame_written, record_appended, record_written,
    seal_summary, sealed, sealed_keeps, segment_closed, summary_written, RecordModel, RecorderModel,
};
use crate::refused_append::{counts_kept, seal_attempted, sealing_commits_nothing};
use crate::state::{
    ack_timeout, opened_segment, preallocation_counted, saturating_sum, segment_opened,
    spare_created, spares_created, spares_keep_state, ActiveSegment, RecorderState, Step,
};
use crate::store::{overwritten, StoreModel, MAX_FILE_LEN};
use crate::types::{ArchiveSourceMetadata, RecordedCommit, RecorderAckLevel};
use vstd::prelude::*;

verus! {

/// The mark is there and not below the value.
pub open spec fn is_at_least(mark: Option<u64>, value: u64) -> bool {
    mark is Some && value <= mark->Some_0
}

/// What a wait that succeeds is worth: for durable data the data of the commit is told as durable,
/// for data and commit log its entry too; to be accepted needs nothing, and changes nothing.
pub proof fn wait_reaches_its_level(
    recorder: RecorderModel,
    store: StoreModel,
    commit: RecordedCommit,
    requested: RecorderAckLevel,
    timeout_ns: u128,
)
    ensures
        ({
            let outcome = ack_awaited(recorder, store, commit, requested, timeout_ns);
            let after = outcome.recorder.state;
            &&& requested == RecorderAckLevel::Accepted ==> outcome.result is Ok
                && outcome.recorder == recorder && outcome.store == store
            &&& outcome.result is Ok && requested != RecorderAckLevel::Accepted ==> is_at_least(
                after.last_durable_data_sequence,
                commit.sequence,
            )
            &&& outcome.result is Ok && requested == RecorderAckLevel::DurableDataAndCommitLog
                ==> is_at_least(after.last_durable_commit_ordinal, commit.commit_ordinal)
            &&& timeout_ns == 0 ==> outcome.recorder == recorder && outcome.store == store
            &&& timeout_ns == 0 && requested == RecorderAckLevel::DurableData ==> (outcome.result
                is Ok <==> is_at_least(
                recorder.state.last_durable_data_sequence,
                commit.sequence,
            ))
            &&& timeout_ns == 0 && requested == RecorderAckLevel::DurableDataAndCommitLog ==> (
            outcome.result is Ok <==> is_at_least(
                recorder.state.last_durable_data_sequence,
                commit.sequence,
            ) && is_at_least(
                recorder.state.last_durable_commit_ordinal,
                commit.commit_ordinal,
            ))
        }),
{
}

/// What is told as durable is durable: a wait moves the mark of durable data only after the segment
/// of the commit was synced, and only up to its sequence; the mark of durable entries only after the
/// commit log and the catalog were synced too, and only up to its ordinal. Marks never go back.
pub proof fn durable_marks_follow_syncs(
    recorder: RecorderModel,
    store: StoreModel,
    commit: RecordedCommit,
    requested: RecorderAckLevel,
    timeout_ns: u128,
)
    ensures
        ({
            let outcome = ack_awaited(recorder, store, commit, requested, timeout_ns);
            let before = recorder.state;
            let after = outcome.recorder.state;
            &&& after.last_durable_data_sequence != before.last_durable_data_sequence ==> {
                &&& after.last_durable_data_sequence == Some(commit.sequence)
                &&& before.last_durable_data_sequence is Some
                    ==> before.last_durable_data_sequence->Some_0 < commit.sequence
                &&& is_durable(
                    outcome.store,
                    hot_data(commit.locator.segment_id, commit.locator.segment_generation),
                )
            }
            &&& after.last_durable_commit_ordinal != before.last_durable_commit_ordinal ==> {
                &&& requested == RecorderAckLevel::DurableDataAndCommitLog
                &&& after.last_durable_commit_ordinal == Some(commit.commit_ordinal)
                &&& before.last_durable_commit_ordinal is Some
                    ==> before.last_durable_commit_ordinal->Some_0 < commit.commit_ordinal
                &&& is_durable(outcome.store, ArchiveFile::CommitLog)
                &&& is_durable(outcome.store, ArchiveFile::Catalog)
            }
            &&& after.stats == before.stats
            &&& after.next_commit_ordinal == before.next_commit_ordinal
            &&& outcome.recorder.index == recorder.index
        }),
{
}

/// The active segment of a recorder.
pub open spec fn active_of(state: RecorderState) -> ActiveSegment {
    state.disk->Some_0.active_segment->Some_0
}

/// What writing a record does to the recorder.
#[verifier::spinoff_prover]
#[verifier::rlimit(60)]
proof fn written_record_counts(
    recorder: RecorderModel,
    store: StoreModel,
    frame: FrameInput,
    source: ArchiveSourceMetadata,
)
    requires
        recorder.state.wf(),
        recorder.state.is_open(),
        frame.frame_len() <= u32::MAX,
        active_of(recorder.state).write_offset + frame.frame_len()
            <= recorder.state.config.segment_bytes,
        record_written(recorder, store, frame, source).result is Ok,
    ensures
        ({
            let outcome = record_written(recorder, store, frame, source);
            let commit = outcome.result->Ok_0;
            let before = active_of(recorder.state);
            let after = active_of(outcome.recorder.state);
            let stats = recorder.state.stats;
            let counted = outcome.recorder.state.stats;
            &&& outcome.recorder.state.is_open()
            &&& commit.sequence == frame.sequence
            &&& commit.commit_ordinal == frame.commit_ordinal
            &&& commit.locator.segment_id == before.segment_id
            &&& commit.locator.segment_generation == before.segment_generation
            &&& commit.locator.file_offset == before.write_offset
            &&& commit.locator.frame_len == frame.frame_len()
            &&& after.segment_id == before.segment_id
            &&& after.segment_generation == before.segment_generation
            &&& after.created_at_ns == before.created_at_ns
            &&& after.write_offset == before.write_offset + frame.frame_len()
            &&& after.sequence_end == Some(frame.sequence)
            &&& before.sequence_start is Some ==> after.sequence_start == before.sequence_start
            &&& before.sequence_start is None ==> after.sequence_start == Some(frame.sequence)
            &&& before.records < u64::MAX ==> after.records == before.records + 1
            &&& stats.committed_records < u64::MAX ==> counted.committed_records
                == stats.committed_records + 1
            &&& stats.payload_bytes_committed + frame.payload.len() <= u64::MAX
                ==> counted.payload_bytes_committed == stats.payload_bytes_committed
                + frame.payload.len()
            &&& stats.data_bytes_written + frame.frame_len() <= u64::MAX
                ==> counted.data_bytes_written == stats.data_bytes_written + frame.frame_len()
            &&& stats.metadata_bytes_written + 104 <= u64::MAX ==> counted.metadata_bytes_written
                == stats.metadata_bytes_written + 104
            &&& outcome.recorder.index == recorder.index.push((frame.sequence, commit.locator))
            &&& outcome.recorder.volatile == recorder.volatile
        }),
{
    let mode = recorder.state.config.checksum_mode;
    encoded_len(frame, mode);
    let data = frame.encoded(mode);
    let placed = frame_written(recorder.state, store, frame.sequence, data);
    entry_room_keeps(placed.state, placed.store, frame.commit_time_ns);
}

/// The record gets the next ordinal and its own sequence, and the frame takes the place behind the
/// last one, or the first place of the next segment where it does not fit: frames of a segment lie
/// one behind the other without a gap, each as long as its content rounded up to eight bytes. The
/// committed records, the bytes of payloads and the bytes of frames are counted by exactly this
/// record, and the index ends with it.
#[verifier::spinoff_prover]
#[verifier::rlimit(60)]
pub proof fn append_takes_the_next_place_and_counts(
    recorder: RecorderModel,
    store: StoreModel,
    record: RecordModel,
    source: ArchiveSourceMetadata,
    now_ns: u64,
)
    requires
        recorder.accepts_calls(),
        recorder.state.disk is Some,
        record.frame(recorder.state.next_commit_ordinal, now_ns).frame_len() <= u32::MAX,
        record_appended(recorder, store, record, source, now_ns).result is Ok,
        recorder.state.stats.committed_records < u64::MAX,
        recorder.state.stats.payload_bytes_committed + record.payload.len() <= u64::MAX,
        recorder.state.stats.data_bytes_written + u32::MAX <= u64::MAX,
    ensures
        ({
            let outcome = record_appended(recorder, store, record, source, now_ns);
            let commit = outcome.result->Ok_0;
            let before = active_of(recorder.state);
            let after = active_of(outcome.recorder.state);
            let stats = recorder.state.stats;
            let counted = outcome.recorder.state.stats;
            let content = 64 + record.user_header.len() + record.payload.len();
            let len = commit.locator.frame_len;
            let fits = before.write_offset + len <= recorder.state.config.segment_bytes;
            &&& recorder.state.is_open()
            &&& outcome.recorder.state.is_open()
            &&& commit.commit_ordinal == recorder.state.next_commit_ordinal
            &&& commit.sequence == record.sequence
            &&& len % 8 == 0 && content <= len < content + 8
            &&& fits ==> {
                &&& commit.locator.segment_id == before.segment_id
                &&& commit.locator.segment_generation == before.segment_generation
                &&& commit.locator.file_offset == before.write_offset
                &&& before.sequence_start is Some ==> after.sequence_start == before.sequence_start
                &&& before.sequence_start is None ==> after.sequence_start == Some(record.sequence)
                &&& before.records < u64::MAX ==> after.records == before.records + 1
            }
            &&& !fits ==> {
                &&& before.segment_id < u64::MAX ==> commit.locator.segment_id == before.segment_id
                    + 1
                &&& commit.locator.file_offset == 76
                &&& after.sequence_start == Some(record.sequence)
                &&& after.records == 1
            }
            &&& after.segment_id == commit.locator.segment_id
            &&& after.segment_generation == commit.locator.segment_generation
            &&& after.sequence_end == Some(record.sequence)
            &&& after.write_offset == commit.locator.file_offset + len
            &&& after.write_offset <= recorder.state.config.segment_bytes
            &&& counted.committed_records == stats.committed_records + 1
            &&& counted.payload_bytes_committed == stats.payload_bytes_committed
                + record.payload.len()
            &&& counted.data_bytes_written == stats.data_bytes_written + len
            &&& outcome.recorder.index.len() > 0
            &&& outcome.recorder.index.last() == (record.sequence, commit.locator)
        }),
{
    let given = numbered(recorder, record.sequence);
    let frame = record.frame(recorder.state.next_commit_ordinal, now_ns);
    append_shape(recorder, store, record, source, now_ns);
    aligned_is_next_multiple(64int + record.user_header.len() + record.payload.len(), 8);
    if needs_roll(given, frame) {
        let rolled = sealed(given, store, true, now_ns);
        sealed_keeps(given, store, true, now_ns);
        sealing_opens_the_next_segment(given, store, now_ns);
        written_record_counts(rolled.recorder, rolled.store, frame, source);
    } else {
        written_record_counts(given, store, frame, source);
    }
}

/// A segment that was opened is empty.
proof fn opened_segment_is_empty(
    state: RecorderState,
    store: StoreModel,
    segment_id: u64,
    now_ns: u64,
)
    requires
        state.disk is Some,
        segment_opened(state, store, segment_id, now_ns).result is Ok,
    ensures
        ({
            let step = segment_opened(state, store, segment_id, now_ns);
            let active = active_of(step.state);
            &&& step.state.is_open()
            &&& active.segment_id == segment_id
            &&& active.segment_generation == state.config.segment_generation
            &&& active.created_at_ns == now_ns
            &&& active.write_offset == 76
            &&& active.sequence_start is None
            &&& active.sequence_end is None
            &&& active.records == 0
            &&& step.store.has(ArchiveFile::Catalog) == store.has(ArchiveFile::Catalog)
            &&& step.store.files[ArchiveFile::Catalog] == store.files[ArchiveFile::Catalog]
        }),
{
    let config = state.config;
    let file = hot_data(segment_id, config.segment_generation);
    let created_new = !store.has(file);
    let placed = if created_new {
        store.with_empty(file)
    } else {
        store
    };
    let headed = header_written(
        placed,
        file,
        ArchiveFileKind::SegmentData,
        config.log_id@,
        segment_id,
        config.segment_generation,
        now_ns,
    ).0;
    let sized = if config.segment_preallocate {
        headed.with_len(file, config.segment_bytes as u64)
    } else {
        headed
    };
    let noted = if config.segment_preallocate && created_new {
        preallocation_counted(state)
    } else {
        state
    };
    let ready = noted.with_active(Some(opened_segment(config, segment_id, now_ns)));
    let start = next_number(segment_id);
    let end = saturating_sum(start, config.spare_preallocated_segments as int);
    spares_keep_state(ready, sized, start, end, now_ns);
    spares_leave_catalog(ready, sized, start, end, now_ns);
}

/// Preparing spare segments leaves the catalog alone.
proof fn spares_leave_catalog(
    state: RecorderState,
    store: StoreModel,
    segment_id: u64,
    end: u64,
    now_ns: u64,
)
    ensures
        ({
            let after = spares_created(state, store, segment_id, end, now_ns).store;
            &&& after.has(ArchiveFile::Catalog) == store.has(ArchiveFile::Catalog)
            &&& after.files[ArchiveFile::Catalog] == store.files[ArchiveFile::Catalog]
        }),
    decreases end - segment_id,
{
    if segment_id < end {
        let first = spare_created(state, store, segment_id, now_ns);
        if first.result is Ok {
            spares_leave_catalog(first.state, first.store, next_number(segment_id), end, now_ns);
        }
    }
}

/// Where a full segment is sealed, the next one is open and empty, and nothing counts as committed.
proof fn sealing_opens_the_next_segment(recorder: RecorderModel, store: StoreModel, now_ns: u64)
    requires
        recorder.state.wf(),
        recorder.state.is_open(),
        sealed(recorder, store, true, now_ns).result is Ok,
    ensures
        ({
            let outcome = sealed(recorder, store, true, now_ns);
            let active = active_of(outcome.recorder.state);
            &&& outcome.recorder.state.is_open()
            &&& active.segment_id == next_number(active_of(recorder.state).segment_id)
            &&& active.write_offset == 76
            &&& active.sequence_start is None
            &&& active.records == 0
            &&& counts_kept(recorder, outcome.recorder)
        }),
{
    let state = recorder.state;
    let active = active_of(state);
    let file = hot_data(active.segment_id, active.segment_generation);
    let closed = state.with_active(None);
    let synced = store.synced(file);
    let noted = if active.records > 0 {
        summary_written(closed, synced, active, now_ns)
    } else {
        Step { state: closed, store: synced, result: Ok(()) }
    };
    let step = segment_closed(state, store, true, now_ns);
    assert(step.result is Ok);
    opened_segment_is_empty(noted.state, noted.store, next_number(active.segment_id), now_ns);
    retention_enforced_leaves_logs(recorder.with_state(step.state), step.store);
    sealing_commits_nothing(recorder, store, now_ns, None);
    reveal(seal_attempted);
}

/// A segment that was closed with records is the last one in the catalog, with its own sequences,
/// number of records and bytes, behind all that the catalog listed before.
#[verifier::spinoff_prover]
#[verifier::rlimit(60)]
pub proof fn closed_segment_is_listed_as_it_was(
    state: RecorderState,
    store: StoreModel,
    open_next: bool,
    now_ns: u64,
)
    requires
        state.wf(),
        state.is_open(),
        active_of(state).records > 0,
        active_of(state).sequence_start is Some,
        active_of(state).sequence_end is Some,
        store.bytes(ArchiveFile::Catalog).len() >= 76,
        (store.bytes(ArchiveFile::Catalog).len() - 76) % 88 == 0,
        store.bytes(ArchiveFile::Catalog).len() + 88 <= MAX_FILE_LEN,
        segment_closed(state, store, open_next, now_ns).result is Ok,
    ensures
        ({
            let active = active_of(state);
            let after = segment_closed(state, store, open_next, now_ns);
            let listed = catalog_summaries(after.store.bytes(ArchiveFile::Catalog));
            let before = catalog_summaries(store.bytes(ArchiveFile::Catalog));
            &&& listed.len() == before.len() + 1
            &&& listed.drop_last() == before
            &&& listed.last().segment_id == active.segment_id
            &&& listed.last().segment_generation == active.segment_generation
            &&& listed.last().sequence_start == active.sequence_start->Some_0
            &&& listed.last().sequence_end == active.sequence_end->Some_0
            &&& listed.last().records == active.records
            &&& listed.last().created_at_ns == active.created_at_ns
            &&& listed.last().sealed_at_ns == now_ns
            &&& listed.last().data_bytes_used == active.write_offset
            &&& state.stats.rolled_segments < u64::MAX && !open_next
                ==> after.state.stats.rolled_segments == state.stats.rolled_segments + 1
        }),
{
    let active = active_of(state);
    let file = hot_data(active.segment_id, active.segment_generation);
    let meta = hot_meta(active.segment_id, active.segment_generation);
    let closed = state.with_active(None);
    let synced = store.synced(file);
    let noted = summary_written(closed, synced, active, now_ns);
    let catalog = ArchiveFile::Catalog;
    let summary = seal_summary(active, now_ns);
    assert(noted.result is Ok);
    assert(synced.bytes(catalog) == store.bytes(catalog));
    appended_summary_reads_back(store.bytes(catalog), summary);
    assert(noted.store.bytes(catalog) == overwritten(
        store.bytes(catalog),
        store.bytes(catalog).len(),
        summary.encoded(),
    ));
    let before = catalog_summaries(store.bytes(catalog));
    assert(before.push(summary).drop_last() =~= before);
    if open_next {
        opened_segment_is_empty(noted.state, noted.store, next_number(active.segment_id), now_ns);
    }
}

/// A wait that runs out of time tells what was asked for, the whole milliseconds of the wait, and
/// how far the recorder had come.
pub proof fn timed_out_wait_tells_how_far_it_came(
    state: RecorderState,
    requested: RecorderAckLevel,
    timeout_ns: u128,
)
    requires
        timeout_ns <= u64::MAX,
    ensures
        ({
            let error = ack_timeout(state, requested, timeout_ns);
            &&& error is AckTimeout
            &&& error->requested == requested
            &&& 1_000_000 * error->timeout_ms <= timeout_ns < 1_000_000 * (error->timeout_ms + 1)
            &&& error->AckTimeout_last_durable_data_sequence == state.last_durable_data_sequence
            &&& error->AckTimeout_last_durable_commit_ordinal == state.last_durable_commit_ordinal
        }),
{
}

/// A record that is kept in memory is the last of the records there, under a locator of its own
/// that tells its place, and is counted with the bytes of its payload.
pub proof fn volatile_record_takes_the_next_place_and_counts(
    recorder: RecorderModel,
    store: StoreModel,
    record: RecordModel,
    source: ArchiveSourceMetadata,
    now_ns: u64,
)
    requires
        recorder.state.config.persistence_mode is Volatile,
        recorder.volatile.len() <= u64::MAX,
        recorder.state.stats.committed_records < u64::MAX,
        recorder.state.stats.payload_bytes_committed + record.payload.len() <= u64::MAX,
        record_appended(recorder, store, record, source, now_ns).result is Ok,
    ensures
        ({
            let outcome = record_appended(recorder, store, record, source, now_ns);
            let commit = outcome.result->Ok_0;
            let kept = outcome.recorder.volatile.last();
            let before = recorder.state.stats;
            let stats = outcome.recorder.state.stats;
            &&& outcome.store == store
            &&& commit.sequence == record.sequence
            &&& commit.commit_ordinal == recorder.state.next_commit_ordinal
            &&& commit.locator.file_offset == recorder.volatile.len()
            &&& outcome.recorder.volatile.len() == recorder.volatile.len() + 1
            &&& kept.locator == commit.locator
            &&& kept.record.sequence == record.sequence
            &&& kept.record.event_time_ns == record.event_time_ns
            &&& kept.record.commit_time_ns == now_ns
            &&& kept.record.user_header == record.user_header
            &&& kept.record.payload == record.payload
            &&& outcome.recorder.index.last() == (record.sequence, commit.locator)
            &&& outcome.recorder.index.drop_last() == recorder.index
            &&& stats.committed_records == before.committed_records + 1
            &&& stats.payload_bytes_committed == before.payload_bytes_committed
                + record.payload.len()
            &&& outcome.recorder.state.last_sequence == Some(record.sequence)
        }),
{
    let outcome = record_appended(recorder, store, record, source, now_ns);
    assert(outcome.recorder.index.drop_last() =~= recorder.index);
}

/// A recorder that is finalized gives up the room behind the last entry of its commit log: the log
/// ends where the next entry would have gone. It takes no more calls.
pub proof fn finalized_log_ends_with_its_last_entry(
    recorder: RecorderModel,
    store: StoreModel,
    now_ns: u64,
)
    requires
        !recorder.state.finalized,
        finalized(recorder, store, now_ns).result is Ok,
    ensures
        ({
            let outcome = finalized(recorder, store, now_ns);
            let disk = outcome.recorder.state.disk;
            &&& outcome.recorder.state.finalized
            &&& recorder.state.disk is None ==> outcome.store == store
            &&& disk is Some ==> outcome.store.bytes(ArchiveFile::CommitLog).len()
                == disk->Some_0.commit_log_write_offset
            &&& disk is Some ==> disk->Some_0.commit_log_preallocated_len
                == disk->Some_0.commit_log_write_offset
        }),
{
}

} // verus!
