//! What the recorder, the store and the replayer promise together.

use crate::catalog::{header_written, next_number};
use crate::commit_entry::CommitEntry;
use crate::error::{ArchiveFile, ArchiveRecorderError, ArchiveReplayError};
use crate::frame::{content_checksum, decode_frame, encoded_fields, encoded_len, frame_at, frame_round_trip, hot_data, FrameInput};
use crate::header::ArchiveFileKind;
use crate::history::sealed_leaves_logs;
use crate::recorder::{
    ack_awaited, commit_counted, data_files_synced, disk_appended, entry_room_made, entry_written, finalized,
    frame_written, record_appended, record_entry, record_written, record_written_keeps, refusal,
    sealed, sealed_keeps, segment_closed_keeps, summary_written, RecordModel, RecorderModel,
};
use crate::replayer::{entry_frame, located_frame};
use crate::segment::locator_is_sound;
use crate::state::{
    acknowledged, opened_segment, preallocation_counted, saturating_sum, segment_opened,
    spare_created, spares_created, spares_keep_state, RecorderState, Step,
};
use crate::store::StoreModel;
use crate::types::{
    ArchiveLocator, ArchiveSourceMetadata, ChecksumMode, FrameModel, PersistenceMode,
    RecordedCommit, RecorderAckLevel,
};
use vstd::prelude::*;

verus! {

/// The two stores have the same bytes in the same segment files.
pub open spec fn same_data(a: StoreModel, b: StoreModel) -> bool {
    forall|file: ArchiveFile|
        file is SegmentData ==> #[trigger] a.has(file) == b.has(file) && a.bytes(file) == b.bytes(
            file,
        )
}

/// The frame of a record as the replayer hands it out.
pub open spec fn replayed(
    frame: FrameInput,
    mode: ChecksumMode,
    locator: ArchiveLocator,
) -> FrameModel {
    FrameModel {
        commit_ordinal: frame.commit_ordinal,
        sequence: frame.sequence,
        event_time_ns: frame.event_time_ns,
        commit_time_ns: frame.commit_time_ns,
        user_header: frame.user_header,
        payload: frame.payload,
        frame_checksum: frame.checksum(mode),
        locator,
    }
}

/// The recorder after it gave a record its ordinal and took its sequence.
pub open spec fn numbered(recorder: RecorderModel, sequence: u64) -> RecorderModel {
    recorder.with_state(
        RecorderState {
            next_commit_ordinal: next_number(recorder.state.next_commit_ordinal),
            last_sequence: Some(sequence),
            ..recorder.state
        },
    )
}

/// The frame does not fit in the active segment any more.
pub open spec fn needs_roll(recorder: RecorderModel, frame: FrameInput) -> bool {
    recorder.state.disk->Some_0.active_segment->Some_0.write_offset + frame.frame_len()
        > recorder.state.config.segment_bytes
}

/// What an append that succeeded did: it sealed a full segment, and wrote the record.
#[verifier::spinoff_prover]
#[verifier::rlimit(60)]
pub proof fn append_shape(
    recorder: RecorderModel,
    store: StoreModel,
    record: RecordModel,
    source: ArchiveSourceMetadata,
    now_ns: u64,
)
    requires
        recorder.accepts_calls(),
        recorder.state.disk is Some,
        record_appended(recorder, store, record, source, now_ns).result is Ok,
    ensures
        refusal(recorder.state, record.sequence) is None,
        ({
            let numbered = numbered(recorder, record.sequence);
            let frame = record.frame(recorder.state.next_commit_ordinal, now_ns);
            let outcome = record_appended(recorder, store, record, source, now_ns);
            let rolled = sealed(numbered, store, true, now_ns);
            &&& numbered.state.is_open()
            &&& numbered.state.wf()
            &&& 76 + frame.frame_len() <= recorder.state.config.segment_bytes
            &&& if needs_roll(numbered, frame) {
                &&& rolled.result is Ok
                &&& outcome == record_written(rolled.recorder, rolled.store, frame, source)
            } else {
                outcome == record_written(numbered, store, frame, source)
            }
        }),
{
    reveal(disk_appended);
}

/// Writing the entry of a record leaves the segment files alone.
proof fn entry_leaves_data(
    state: RecorderState,
    store: StoreModel,
    entry: CommitEntry,
    now_ns: u64,
)
    requires
        state.disk is Some,
    ensures
        same_data(store, entry_room_made(state, store, now_ns).store),
        same_data(store, entry_written(state, store, entry, now_ns).store),
{
}

/// Syncing files leaves their bytes alone.
proof fn syncs_leave_data(state: RecorderState, store: StoreModel)
    requires
        state.disk is Some,
    ensures
        same_data(store, data_files_synced(state, store).0),
{
}

/// A record that was written can be read at its locator, by itself and through its commit entry.
proof fn written_record_reads_back(
    recorder: RecorderModel,
    store: StoreModel,
    frame: FrameInput,
    source: ArchiveSourceMetadata,
)
    requires
        recorder.state.is_open(),
        frame.frame_len() <= u32::MAX,
        64 + frame.user_header.len() + frame.payload.len() + 7 <= usize::MAX,
        record_written(recorder, store, frame, source).result is Ok,
    ensures
        ({
            let outcome = record_written(recorder, store, frame, source);
            let commit = outcome.result->Ok_0;
            let mode = recorder.state.config.checksum_mode;
            let content = replayed(frame, mode, commit.locator);
            &&& commit.commit_ordinal == frame.commit_ordinal
            &&& commit.sequence == frame.sequence
            &&& frame_at(outcome.store, commit.locator, true) == Ok::<FrameModel, ArchiveReplayError>(
                content,
            )
            &&& entry_frame(
                outcome.store,
                record_entry(frame, commit.locator, frame.checksum(mode), source),
                true,
            ) == Ok::<FrameModel, ArchiveReplayError>(content)
            &&& locator_is_sound(outcome.store, commit.locator)
        }),
{
    let mode = recorder.state.config.checksum_mode;
    let data = frame.encoded(mode);
    let active = recorder.state.disk->Some_0.active_segment->Some_0;
    let file = hot_data(active.segment_id, active.segment_generation);
    let placed = frame_written(recorder.state, store, frame.sequence, data);
    let locator = placed.result->Ok_0;
    let entry = record_entry(frame, locator, frame.checksum(mode), source);
    let logged = entry_written(placed.state, placed.store, entry, frame.commit_time_ns);
    let outcome = record_written(recorder, store, frame, source);
    encoded_fields(
        frame,
        if mode is Crc32c {
            1
        } else {
            0
        },
        frame.checksum(mode),
    );
    let at = active.write_offset as int;
    assert(placed.store.bytes(file).subrange(at, at + data.len()) =~= data);
    entry_leaves_data(placed.state, placed.store, entry, frame.commit_time_ns);
    assert(placed.store.has(file));
    syncs_leave_data(logged.state, logged.store);
    assert(logged.store.has(file));
    assert(outcome.store.has(file));
    assert(outcome.store.bytes(file) == placed.store.bytes(file));
    frame_round_trip(frame, mode, outcome.store.bytes(file), locator, true);
}

/// Read after write: a record whose append succeeded can be read at the locator that the append
/// returned, with the sequence, the timestamps, the user header and the payload that were handed
/// in, and its commit entry passes the replayer's checksum test. A recovery finds the frame sound.
pub proof fn appended_record_reads_back(
    recorder: RecorderModel,
    store: StoreModel,
    record: RecordModel,
    source: ArchiveSourceMetadata,
    now_ns: u64,
)
    requires
        recorder.accepts_calls(),
        recorder.state.config.persistence_mode != PersistenceMode::Volatile,
        record.wf(),
        record.frame(recorder.state.next_commit_ordinal, now_ns).frame_len() <= u32::MAX,
        record_appended(recorder, store, record, source, now_ns).result is Ok,
    ensures
        ({
            let outcome = record_appended(recorder, store, record, source, now_ns);
            let commit = outcome.result->Ok_0;
            let frame = record.frame(recorder.state.next_commit_ordinal, now_ns);
            let mode = recorder.state.config.checksum_mode;
            let content = replayed(frame, mode, commit.locator);
            &&& commit.commit_ordinal == recorder.state.next_commit_ordinal
            &&& commit.sequence == record.sequence
            &&& frame_at(outcome.store, commit.locator, true) == Ok::<FrameModel, ArchiveReplayError>(
                content,
            )
            &&& commit.locator.segment_generation != 0 ==> located_frame(
                outcome.store,
                commit.locator,
                true,
            ) == Ok::<FrameModel, ArchiveReplayError>(content)
            &&& entry_frame(
                outcome.store,
                record_entry(frame, commit.locator, frame.checksum(mode), source),
                true,
            ) == Ok::<FrameModel, ArchiveReplayError>(content)
            &&& locator_is_sound(outcome.store, commit.locator)
        }),
{
    let numbered = numbered(recorder, record.sequence);
    let frame = record.frame(recorder.state.next_commit_ordinal, now_ns);
    append_shape(recorder, store, record, source, now_ns);
    if needs_roll(numbered, frame) {
        let rolled = sealed(numbered, store, true, now_ns);
        sealed_keeps(numbered, store, true, now_ns);
        written_record_reads_back(rolled.recorder, rolled.store, frame, source);
    } else {
        written_record_reads_back(numbered, store, frame, source);
    }
}

/// A file is durable: all its bytes were synced.
pub open spec fn is_durable(store: StoreModel, file: ArchiveFile) -> bool {
    store.has(file) && store.files[file].synced == store.bytes(file)
}

/// What a sync of all files of a commit leaves durable.
proof fn syncs_make_durable(state: RecorderState, store: StoreModel)
    requires
        state.is_open(),
        data_files_synced(state, store).1 is Ok,
    ensures
        ({
            let synced = data_files_synced(state, store).0;
            let active = state.disk->Some_0.active_segment->Some_0;
            &&& is_durable(synced, hot_data(active.segment_id, active.segment_generation))
            &&& is_durable(synced, ArchiveFile::CommitLog)
            &&& is_durable(synced, ArchiveFile::Catalog)
        }),
{
}

/// A record that was written in the mode that syncs every record is durable, and so is its entry.
proof fn written_record_is_durable(
    recorder: RecorderModel,
    store: StoreModel,
    frame: FrameInput,
    source: ArchiveSourceMetadata,
)
    requires
        recorder.state.is_open(),
        recorder.state.wf(),
        recorder.state.config.persistence_mode == PersistenceMode::Sync,
        record_written(recorder, store, frame, source).result is Ok,
    ensures
        ({
            let outcome = record_written(recorder, store, frame, source);
            let commit = outcome.result->Ok_0;
            &&& is_durable(
                outcome.store,
                hot_data(commit.locator.segment_id, commit.locator.segment_generation),
            )
            &&& is_durable(outcome.store, ArchiveFile::CommitLog)
            &&& is_durable(outcome.store, ArchiveFile::Catalog)
            &&& acknowledged(
                outcome.recorder.state,
                commit,
                RecorderAckLevel::DurableDataAndCommitLog,
            )
        }),
{
    let mode = recorder.state.config.checksum_mode;
    let data = frame.encoded(mode);
    let placed = frame_written(recorder.state, store, frame.sequence, data);
    let locator = placed.result->Ok_0;
    let entry = record_entry(frame, locator, frame.checksum(mode), source);
    let logged = entry_written(placed.state, placed.store, entry, frame.commit_time_ns);
    assert(logged.state.is_open() && logged.state.disk->Some_0.active_segment
        == placed.state.disk->Some_0.active_segment);
    let commit = RecordedCommit {
        commit_ordinal: frame.commit_ordinal,
        sequence: frame.sequence,
        locator,
    };
    let counted = commit_counted(
        recorder.with_state(logged.state),
        commit,
        frame.payload.len(),
        data.len(),
    );
    assert(logged.state.config == recorder.state.config);
    syncs_make_durable(counted.state, logged.store);
}

/// Synchronous mode keeps its word: when an append returns, the segment that holds the record,
/// the commit log and the catalog are durable, and every acknowledgment level holds of the
/// commit.
pub proof fn sync_append_is_durable(
    recorder: RecorderModel,
    store: StoreModel,
    record: RecordModel,
    source: ArchiveSourceMetadata,
    now_ns: u64,
)
    requires
        recorder.accepts_calls(),
        recorder.state.config.persistence_mode == PersistenceMode::Sync,
        record_appended(recorder, store, record, source, now_ns).result is Ok,
    ensures
        ({
            let outcome = record_appended(recorder, store, record, source, now_ns);
            let commit = outcome.result->Ok_0;
            &&& is_durable(
                outcome.store,
                hot_data(commit.locator.segment_id, commit.locator.segment_generation),
            )
            &&& is_durable(outcome.store, ArchiveFile::CommitLog)
            &&& is_durable(outcome.store, ArchiveFile::Catalog)
            &&& forall|level: RecorderAckLevel|
                acknowledged(outcome.recorder.state, commit, level)
        }),
{
    let numbered = numbered(recorder, record.sequence);
    let frame = record.frame(recorder.state.next_commit_ordinal, now_ns);
    append_shape(recorder, store, record, source, now_ns);
    if needs_roll(numbered, frame) {
        let rolled = sealed(numbered, store, true, now_ns);
        sealed_keeps(numbered, store, true, now_ns);
        written_record_is_durable(rolled.recorder, rolled.store, frame, source);
    } else {
        written_record_is_durable(numbered, store, frame, source);
    }
}

/// What an acknowledgment that was waited for means: it holds of the commit when the wait
/// returns. Where it did not hold before, the segment of the commit was made durable, and the
/// commit log and the catalog too where that was asked for.
pub proof fn awaited_acknowledgment_holds(
    recorder: RecorderModel,
    store: StoreModel,
    commit: RecordedCommit,
    requested: RecorderAckLevel,
    timeout_ns: u128,
)
    requires
        ack_awaited(recorder, store, commit, requested, timeout_ns).result is Ok,
    ensures
        ({
            let outcome = ack_awaited(recorder, store, commit, requested, timeout_ns);
            &&& acknowledged(outcome.recorder.state, commit, requested)
            &&& !acknowledged(recorder.state, commit, requested) ==> {
                &&& is_durable(
                    outcome.store,
                    hot_data(commit.locator.segment_id, commit.locator.segment_generation),
                )
                &&& requested == RecorderAckLevel::DurableDataAndCommitLog ==> is_durable(
                    outcome.store,
                    ArchiveFile::CommitLog,
                ) && is_durable(outcome.store, ArchiveFile::Catalog)
            }
        }),
{
}

/// Waiting for an acknowledgment never takes one back, whatever comes of the wait.
pub proof fn acknowledgments_stay(
    recorder: RecorderModel,
    store: StoreModel,
    commit: RecordedCommit,
    requested: RecorderAckLevel,
    timeout_ns: u128,
    other: RecordedCommit,
    level: RecorderAckLevel,
)
    requires
        acknowledged(recorder.state, other, level),
    ensures
        acknowledged(
            ack_awaited(recorder, store, commit, requested, timeout_ns).recorder.state,
            other,
            level,
        ),
{
}

/// A refused record leaves no trace: a recorder that was finalized, that failed, or that is handed
/// a sequence which does not grow returns the error and changes nothing.
pub proof fn refused_append_changes_nothing(
    recorder: RecorderModel,
    store: StoreModel,
    record: RecordModel,
    source: ArchiveSourceMetadata,
    now_ns: u64,
)
    requires
        recorder.state.finalized || recorder.state.degraded || (recorder.state.last_sequence is Some
            && record.sequence <= recorder.state.last_sequence->Some_0),
    ensures
        ({
            let outcome = record_appended(recorder, store, record, source, now_ns);
            &&& outcome.recorder == recorder
            &&& outcome.store == store
            &&& outcome.result == Err::<RecordedCommit, ArchiveRecorderError>(
                if recorder.state.finalized {
                    ArchiveRecorderError::Finalized
                } else if recorder.state.degraded {
                    ArchiveRecorderError::Degraded
                } else {
                    ArchiveRecorderError::SequenceNotMonotonic {
                        previous: recorder.state.last_sequence->Some_0,
                        next: record.sequence,
                    }
                },
            )
        }),
{
}

/// A volatile recorder leaves the store alone and keeps its records in order.
pub proof fn volatile_append_stays_in_memory(
    recorder: RecorderModel,
    store: StoreModel,
    record: RecordModel,
    source: ArchiveSourceMetadata,
    now_ns: u64,
)
    requires
        recorder.state.config.persistence_mode == PersistenceMode::Volatile,
        refusal(recorder.state, record.sequence) is None,
    ensures
        ({
            let outcome = record_appended(recorder, store, record, source, now_ns);
            &&& outcome.result is Ok
            &&& outcome.store == store
            &&& outcome.recorder.volatile.len() == recorder.volatile.len() + 1
            &&& outcome.recorder.volatile.drop_last() == recorder.volatile
            &&& outcome.recorder.volatile.last().record == record.frame(
                recorder.state.next_commit_ordinal,
                now_ns,
            )
        }),
{
    let outcome = record_appended(recorder, store, record, source, now_ns);
    assert(outcome.recorder.volatile.drop_last() =~= recorder.volatile);
}

/// Finalizing a recorder twice is finalizing it once, and a finalized recorder takes no record.
pub proof fn finalizing_is_final(
    recorder: RecorderModel,
    store: StoreModel,
    now_ns: u64,
    later_ns: u64,
    record: RecordModel,
    source: ArchiveSourceMetadata,
)
    requires
        finalized(recorder, store, now_ns).result is Ok,
    ensures
        ({
            let done = finalized(recorder, store, now_ns);
            &&& finalized(done.recorder, done.store, later_ns) == done
            &&& record_appended(done.recorder, done.store, record, source, later_ns).result == Err::<
                RecordedCommit,
                ArchiveRecorderError,
            >(ArchiveRecorderError::Finalized)
        }),
{
}

/// A recorder whose append succeeded takes the next record too, as long as ordinals are left. The
/// record got the next ordinal and the sequence that was asked for, and sequences grow.
pub proof fn append_keeps_recorder_ready(
    recorder: RecorderModel,
    store: StoreModel,
    record: RecordModel,
    source: ArchiveSourceMetadata,
    now_ns: u64,
)
    requires
        recorder.accepts_calls(),
        recorder.state.next_commit_ordinal + 1 < u64::MAX,
        record_appended(recorder, store, record, source, now_ns).result is Ok,
    ensures
        ({
            let outcome = record_appended(recorder, store, record, source, now_ns);
            &&& outcome.recorder.accepts_calls()
            &&& outcome.result->Ok_0.commit_ordinal == recorder.state.next_commit_ordinal
            &&& outcome.result->Ok_0.sequence == record.sequence
            &&& outcome.recorder.state.next_commit_ordinal == recorder.state.next_commit_ordinal + 1
            &&& outcome.recorder.state.last_sequence == Some(record.sequence)
            &&& recorder.state.last_sequence is Some ==> recorder.state.last_sequence->Some_0
                < record.sequence
        }),
{
    let frame = record.frame(recorder.state.next_commit_ordinal, now_ns);
    if recorder.state.disk is Some {
        let numbered = numbered(recorder, record.sequence);
        append_shape(recorder, store, record, source, now_ns);
        encoded_len(frame, recorder.state.config.checksum_mode);
        if needs_roll(numbered, frame) {
            let rolled = sealed(numbered, store, true, now_ns);
            sealed_keeps(numbered, store, true, now_ns);
            sealed_leaves_logs(numbered, store, true, now_ns);
            record_written_keeps(rolled.recorder, rolled.store, frame, source);
            record_keeps_numbers(rolled.recorder, rolled.store, frame, source);
        } else {
            record_written_keeps(numbered, store, frame, source);
            record_keeps_numbers(numbered, store, frame, source);
        }
    }
}

/// Writing a record keeps the next ordinal and the last sequence.
proof fn record_keeps_numbers(
    recorder: RecorderModel,
    store: StoreModel,
    frame: FrameInput,
    source: ArchiveSourceMetadata,
)
    requires
        recorder.state.is_open(),
    ensures
        ({
            let state = record_written(recorder, store, frame, source).recorder.state;
            &&& state.next_commit_ordinal == recorder.state.next_commit_ordinal
            &&& state.last_sequence == recorder.state.last_sequence
        }),
        record_written(recorder, store, frame, source).result matches Ok(commit)
            ==> commit.commit_ordinal == frame.commit_ordinal && commit.sequence == frame.sequence,
{
}

/// A frame that is read through its commit entry is the frame at the entry's locator, and where the
/// entry keeps a checksum the frame's content has that checksum. A frame whose content has another
/// is refused.
pub proof fn replayed_frame_has_entry_checksum(store: StoreModel, entry: CommitEntry)
    ensures
        ({
            let read = entry_frame(store, entry, true);
            let found = frame_at(store, entry.locator, true);
            &&& read is Ok ==> found == read
            &&& read is Ok && entry.frame_checksum != 0 ==> content_checksum(read->Ok_0)
                == entry.frame_checksum
            &&& found is Ok && entry.frame_checksum != 0 && content_checksum(found->Ok_0)
                != entry.frame_checksum ==> read is Err
        }),
{
}

/// A file that is there keeps its bytes.
spec fn keeps_bytes(a: StoreModel, b: StoreModel, file: ArchiveFile) -> bool {
    b.has(file) && b.bytes(file) == a.bytes(file)
}

/// Preparing spare segments leaves the files that are there alone.
proof fn spares_keep_files(
    state: RecorderState,
    store: StoreModel,
    segment_id: u64,
    end: u64,
    now_ns: u64,
    file: ArchiveFile,
)
    requires
        store.has(file),
    ensures
        keeps_bytes(store, spares_created(state, store, segment_id, end, now_ns).store, file),
    decreases end - segment_id,
{
    if segment_id < end {
        let first = spare_created(state, store, segment_id, now_ns);
        assert(keeps_bytes(store, first.store, file));
        if first.result is Ok {
            spares_keep_files(
                first.state,
                first.store,
                next_number(segment_id),
                end,
                now_ns,
                file,
            );
        }
    }
}

/// Opening a segment leaves the other segment files that are there alone.
proof fn segment_opened_keeps_files(
    state: RecorderState,
    store: StoreModel,
    segment_id: u64,
    now_ns: u64,
    file: ArchiveFile,
)
    requires
        store.has(file),
        file != hot_data(segment_id, state.config.segment_generation),
    ensures
        keeps_bytes(store, segment_opened(state, store, segment_id, now_ns).store, file),
{
    let config = state.config;
    let own = hot_data(segment_id, config.segment_generation);
    let created_new = !store.has(own);
    let placed = if created_new {
        store.with_empty(own)
    } else {
        store
    };
    let headed = header_written(
        placed,
        own,
        ArchiveFileKind::SegmentData,
        config.log_id@,
        segment_id,
        config.segment_generation,
        now_ns,
    ).0;
    let sized = if config.segment_preallocate {
        headed.with_len(own, config.segment_bytes as u64)
    } else {
        headed
    };
    assert(keeps_bytes(store, headed, file));
    assert(keeps_bytes(store, sized, file));
    let noted = if config.segment_preallocate && created_new {
        preallocation_counted(state)
    } else {
        state
    };
    let ready = noted.with_active(Some(opened_segment(config, segment_id, now_ns)));
    let start = next_number(segment_id);
    let end = saturating_sum(start, config.spare_preallocated_segments as int);
    spares_keep_files(ready, sized, start, end, now_ns, file);
}

/// Sealing a segment without a cap on retained bytes leaves the segment files that are there
/// alone, but for the next one.
proof fn sealed_keeps_files(
    recorder: RecorderModel,
    store: StoreModel,
    now_ns: u64,
    file: ArchiveFile,
)
    requires
        recorder.state.wf(),
        recorder.state.is_open(),
        recorder.state.config.max_disk_bytes is None,
        store.has(file),
        file is SegmentData,
        file != hot_data(
            next_number(recorder.state.disk->Some_0.active_segment->Some_0.segment_id),
            recorder.state.config.segment_generation,
        ),
    ensures
        keeps_bytes(store, sealed(recorder, store, true, now_ns).store, file),
{
    let state = recorder.state;
    let active = state.disk->Some_0.active_segment->Some_0;
    let own = hot_data(active.segment_id, active.segment_generation);
    let closed = state.with_active(None);
    let synced = store.synced(own);
    let noted = if active.records > 0 {
        summary_written(closed, synced, active, now_ns)
    } else {
        Step { state: closed, store: synced, result: Ok(()) }
    };
    segment_closed_keeps(state, store, true, now_ns);
    if store.has(own) {
        assert(keeps_bytes(store, synced, file));
        assert(keeps_bytes(store, noted.store, file));
        assert(noted.state.config == state.config);
        segment_opened_keeps_files(
            noted.state,
            noted.store,
            next_number(active.segment_id),
            now_ns,
            file,
        );
    }
}

/// A frame decodes the same where its bytes are the same.
proof fn frame_decodes_alike(s: Seq<u8>, t: Seq<u8>, locator: ArchiveLocator)
    requires
        decode_frame(s, locator, true) is Ok,
        locator.file_offset + locator.frame_len <= t.len(),
        s.subrange(0, locator.file_offset + locator.frame_len) == t.subrange(
            0,
            locator.file_offset + locator.frame_len,
        ),
    ensures
        decode_frame(t, locator, true) == decode_frame(s, locator, true),
{
    let at = locator.file_offset as int;
    let end = at + locator.frame_len;
    let p = s.subrange(0, end);
    assert(s.subrange(at, at + 64) =~= p.subrange(at, at + 64));
    assert(t.subrange(at, at + 64) =~= p.subrange(at, at + 64));
    assert(s.subrange(at, end) =~= p.subrange(at, end));
    assert(t.subrange(at, end) =~= p.subrange(at, end));
}

/// The archive is append-only: a frame that could be read before an append can be read after it,
/// with the same content. No cap on retained bytes is set, the frame does not lie behind the end
/// of the active segment, nor in the file that the next segment takes over.
pub proof fn append_keeps_earlier_frames(
    recorder: RecorderModel,
    store: StoreModel,
    record: RecordModel,
    source: ArchiveSourceMetadata,
    now_ns: u64,
    locator: ArchiveLocator,
)
    requires
        recorder.accepts_calls(),
        recorder.state.disk is Some,
        recorder.state.config.max_disk_bytes is None,
        record_appended(recorder, store, record, source, now_ns).result is Ok,
        frame_at(store, locator, true) is Ok,
        ({
            let active = recorder.state.disk->Some_0.active_segment->Some_0;
            let file = hot_data(locator.segment_id, locator.segment_generation);
            &&& file == hot_data(active.segment_id, active.segment_generation)
                ==> locator.file_offset + locator.frame_len <= active.write_offset
            &&& file != hot_data(
                next_number(active.segment_id),
                recorder.state.config.segment_generation,
            )
        }),
    ensures
        frame_at(record_appended(recorder, store, record, source, now_ns).store, locator, true)
            == frame_at(store, locator, true),
{
    let numbered = numbered(recorder, record.sequence);
    let frame = record.frame(recorder.state.next_commit_ordinal, now_ns);
    let active = recorder.state.disk->Some_0.active_segment->Some_0;
    let file = hot_data(locator.segment_id, locator.segment_generation);
    append_shape(recorder, store, record, source, now_ns);
    if needs_roll(numbered, frame) {
        let rolled = sealed(numbered, store, true, now_ns);
        sealed_keeps(numbered, store, true, now_ns);
        sealed_keeps_files(numbered, store, now_ns, file);
        sealed_opens_next(numbered, store, now_ns);
        writing_keeps_frame(rolled.recorder, rolled.store, frame, source, locator);
    } else {
        writing_keeps_frame(numbered, store, frame, source, locator);
    }
}

/// The segment that is active after sealing is the next one.
proof fn sealed_opens_next(recorder: RecorderModel, store: StoreModel, now_ns: u64)
    requires
        recorder.state.wf(),
        recorder.state.is_open(),
        sealed(recorder, store, true, now_ns).result is Ok,
    ensures
        ({
            let state = sealed(recorder, store, true, now_ns).recorder.state;
            let active = recorder.state.disk->Some_0.active_segment->Some_0;
            &&& state.is_open()
            &&& state.disk->Some_0.active_segment->Some_0.segment_id == next_number(
                active.segment_id,
            )
            &&& state.disk->Some_0.active_segment->Some_0.segment_generation
                == recorder.state.config.segment_generation
        }),
{
    let state = recorder.state;
    let active = state.disk->Some_0.active_segment->Some_0;
    let own = hot_data(active.segment_id, active.segment_generation);
    let closed = state.with_active(None);
    let synced = store.synced(own);
    let noted = if active.records > 0 {
        summary_written(closed, synced, active, now_ns)
    } else {
        Step { state: closed, store: synced, result: Ok(()) }
    };
    segment_opened_is_active(noted.state, noted.store, next_number(active.segment_id), now_ns);
}

/// A segment that was opened is the active one, in the generation of the configuration.
proof fn segment_opened_is_active(
    state: RecorderState,
    store: StoreModel,
    segment_id: u64,
    now_ns: u64,
)
    requires
        state.disk is Some,
        segment_opened(state, store, segment_id, now_ns).result is Ok,
    ensures
        ({
            let later = segment_opened(state, store, segment_id, now_ns).state;
            &&& later.is_open()
            &&& later.disk->Some_0.active_segment == Some(
                opened_segment(state.config, segment_id, now_ns),
            )
        }),
{
    let config = state.config;
    let own = hot_data(segment_id, config.segment_generation);
    let created_new = !store.has(own);
    let placed = if created_new {
        store.with_empty(own)
    } else {
        store
    };
    let headed = header_written(
        placed,
        own,
        ArchiveFileKind::SegmentData,
        config.log_id@,
        segment_id,
        config.segment_generation,
        now_ns,
    ).0;
    let sized = if config.segment_preallocate {
        headed.with_len(own, config.segment_bytes as u64)
    } else {
        headed
    };
    let noted = if config.segment_preallocate && created_new {
        preallocation_counted(state)
    } else {
        state
    };
    let ready = noted.with_active(Some(opened_segment(config, segment_id, now_ns)));
    let start = next_number(segment_id);
    let end = saturating_sum(start, config.spare_preallocated_segments as int);
    spares_keep_state(ready, sized, start, end, now_ns);
}

/// Writing a record keeps the frames in other segments, and those before it in its own.
proof fn writing_keeps_frame(
    recorder: RecorderModel,
    store: StoreModel,
    frame: FrameInput,
    source: ArchiveSourceMetadata,
    locator: ArchiveLocator,
)
    requires
        recorder.state.is_open(),
        record_written(recorder, store, frame, source).result is Ok,
        frame_at(store, locator, true) is Ok,
        ({
            let active = recorder.state.disk->Some_0.active_segment->Some_0;
            hot_data(locator.segment_id, locator.segment_generation) == hot_data(
                active.segment_id,
                active.segment_generation,
            ) ==> locator.file_offset + locator.frame_len <= active.write_offset
        }),
    ensures
        frame_at(record_written(recorder, store, frame, source).store, locator, true) == frame_at(
            store,
            locator,
            true,
        ),
{
    let mode = recorder.state.config.checksum_mode;
    let data = frame.encoded(mode);
    let active = recorder.state.disk->Some_0.active_segment->Some_0;
    let file = hot_data(locator.segment_id, locator.segment_generation);
    let own = hot_data(active.segment_id, active.segment_generation);
    let placed = frame_written(recorder.state, store, frame.sequence, data);
    let entry = record_entry(frame, placed.result->Ok_0, frame.checksum(mode), source);
    let logged = entry_written(placed.state, placed.store, entry, frame.commit_time_ns);
    let outcome = record_written(recorder, store, frame, source);
    entry_leaves_data(placed.state, placed.store, entry, frame.commit_time_ns);
    syncs_leave_data(logged.state, logged.store);
    assert(placed.store.has(file));
    assert(logged.store.has(file));
    assert(outcome.store.bytes(file) == placed.store.bytes(file));
    let s = store.bytes(file);
    let t = placed.store.bytes(file);
    if file == own {
        let end = locator.file_offset + locator.frame_len;
        frame_fits(s, locator);
        encoded_len(frame, mode);
        assert(s.subrange(0, end) =~= t.subrange(0, end));
        frame_decodes_alike(s, t, locator);
    }
}

/// A frame that decodes lies within its segment.
proof fn frame_fits(s: Seq<u8>, locator: ArchiveLocator)
    requires
        decode_frame(s, locator, true) is Ok,
    ensures
        locator.file_offset + locator.frame_len <= s.len(),
{
}

} // verus!
