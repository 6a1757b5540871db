//! Appending records, sealing segments and acknowledging commits.

use crate::adapter::{adapter_user_header, encode_adapter_user_header};
use crate::bytes::copy_range;
use crate::catalog::{following, header_written, hot_meta, next_number, write_archive_header};
use crate::commit_entry::CommitEntry;
use crate::error::{ArchiveFile, ArchivePath, ArchiveRecorderError, IoFault};
use crate::frame::{align_up, aligned_is_next_multiple, hot_data, EncodedFrame, FrameInput};
use crate::header::{ArchiveFileKind, ARCHIVE_FILE_HEADER_V1_LEN};
use crate::refused_append::{
    append_refused, disk_append_refused, nothing_refused, record_refused, refusal_in, retaining,
    seal_attempted, seal_attempted_keeps, AppendStep, RefusedChange,
};
use crate::retention::{
    count_retention, detached, detached_deleted, is_active, remove_sequence_range, retention, segment_states,
    without_range, SequenceIndex,
};
use crate::state::{
    ack_timeout, acknowledged, bounded_sum, commit_durable, commit_log_ensured,
    commit_log_rolled_if_needed, commit_log_truncated, counted, create_new_file, data_durable,
    file_created, file_error, file_fault, file_synced, metadata_cap_enforced, saturating_sum,
    segment_opened, spares_keep_state, write_failed, ActiveSegment, DiskRecorderState,
    RecorderState, Step,
};
use crate::store::{ArchiveStore, StoreModel};
use crate::summary::SegmentSummary;
use crate::types::{
    ArchiveLocator, ArchiveRecorderStats, ArchiveRecoveryStatus, ArchiveSegmentState,
    ArchiveSegmentTier, ArchiveSourceMetadata, ArchiveSourcePattern, AsyncIoBackend,
    EffectiveAsyncIoBackend, PersistenceMode, PublishSubscribeExternalPayloadInput,
    PublishSubscribeRecordInput, RecordedCommit, RecorderAckLevel, RecorderProfile,
    DEFAULT_WAIT_DURABLE_DATA_AND_COMMIT_LOG_TIMEOUT_MS, DEFAULT_WAIT_DURABLE_DATA_TIMEOUT_MS,
};
use vstd::prelude::*;

verus! {

/// A record that is kept in memory only.
#[derive(Debug)]
pub struct VolatileFrame {
    /// Commit ordinal.
    pub commit_ordinal: u64,
    /// Sequence.
    pub sequence: u64,
    /// Event timestamp in nanoseconds.
    pub event_time_ns: u64,
    /// Commit timestamp in nanoseconds.
    pub commit_time_ns: u64,
    /// User header bytes.
    pub user_header: Vec<u8>,
    /// Payload bytes.
    pub payload: Vec<u8>,
    /// Locator.
    pub locator: ArchiveLocator,
}

/// The mathematical value of a [`VolatileFrame`].
#[verifier::ext_equal]
pub struct VolatileModel {
    pub record: FrameInput,
    pub locator: ArchiveLocator,
}

impl View for VolatileFrame {
    type V = VolatileModel;

    open spec fn view(&self) -> VolatileModel {
        VolatileModel {
            record: FrameInput {
                commit_ordinal: self.commit_ordinal,
                sequence: self.sequence,
                event_time_ns: self.event_time_ns,
                commit_time_ns: self.commit_time_ns,
                user_header: self.user_header@,
                payload: self.payload@,
            },
            locator: self.locator,
        }
    }
}

/// The models of a sequence of volatile records.
pub open spec fn volatile_models(records: Seq<VolatileFrame>) -> Seq<VolatileModel> {
    Seq::new(records.len(), |i: int| records[i]@)
}

/// Recorder core for log archive segment files.
#[derive(Debug)]
pub struct ArchiveRecorder {
    /// State.
    pub(crate) state: RecorderState,
    /// Locators by sequence.
    pub(crate) index_by_sequence: SequenceIndex,
    /// Records that are kept in memory only.
    pub(crate) volatile_records: Vec<VolatileFrame>,
}

/// The mathematical value of an [`ArchiveRecorder`].
#[verifier::ext_equal]
pub struct RecorderModel {
    pub state: RecorderState,
    pub index: Seq<(u64, ArchiveLocator)>,
    pub volatile: Seq<VolatileModel>,
}

impl View for ArchiveRecorder {
    type V = RecorderModel;

    closed spec fn view(&self) -> RecorderModel {
        RecorderModel {
            state: self.state,
            index: self.index_by_sequence@,
            volatile: volatile_models(self.volatile_records@),
        }
    }
}

/// A recorder, a store and a result: what an operation leaves behind.
#[verifier::ext_equal]
pub struct Outcome<T> {
    pub recorder: RecorderModel,
    pub store: StoreModel,
    pub result: Result<T, ArchiveRecorderError>,
}

impl RecorderModel {
    /// The recorder with another state.
    pub open spec fn with_state(self, state: RecorderState) -> RecorderModel {
        RecorderModel { state, ..self }
    }

    /// What is left behind by a step of the state alone.
    pub open spec fn after<T>(self, step: Step<T>) -> Outcome<T> {
        Outcome { recorder: self.with_state(step.state), store: step.store, result: step.result }
    }

    /// The recorder can append a record, or refuses it.
    pub open spec fn accepts_calls(self) -> bool {
        &&& self.state.wf()
        &&& self.state.next_commit_ordinal < u64::MAX
        &&& self.state.disk is Some ==> self.state.is_open() || self.state.finalized
            || self.state.degraded
    }
}

/// What the retention pass has done to the index and the store, and the bytes still retained.
pub struct RetentionProgress {
    pub index: Seq<(u64, ArchiveLocator)>,
    pub store: StoreModel,
    pub retained: u64,
}

/// One segment is considered: while too much is retained, an unpinned segment is detached and
/// deleted.
pub open spec fn retention_step(
    state: RecorderState,
    cap: u64,
    before: RetentionProgress,
    segment: ArchiveSegmentState,
) -> RetentionProgress {
    let key = (segment.segment_id, segment.segment_generation);
    if before.retained <= cap || segment.pinned {
        before
    } else {
        let cold = if segment.tier == ArchiveSegmentTier::HotAttached {
            detached(state, before.store, key).0
        } else {
            before.store
        };
        let (rest, deleted) = detached_deleted(state, cold, key);
        if deleted {
            RetentionProgress {
                index: without_range(before.index, segment.sequence_start, segment.sequence_end),
                store: rest,
                retained: if before.retained < segment.data_bytes_used {
                    0
                } else {
                    (before.retained - segment.data_bytes_used) as u64
                },
            }
        } else {
            RetentionProgress { store: rest, ..before }
        }
    }
}

/// The first `n` segments are considered, oldest first.
pub open spec fn retention_pass(
    state: RecorderState,
    cap: u64,
    start: RetentionProgress,
    segments: Seq<ArchiveSegmentState>,
    n: int,
) -> RetentionProgress
    decreases n,
{
    if n <= 0 {
        start
    } else {
        retention_step(
            state,
            cap,
            retention_pass(state, cap, start, segments, n - 1),
            segments[n - 1],
        )
    }
}

/// The cap on retained bytes is enforced.
pub open spec fn retention_enforced(recorder: RecorderModel, store: StoreModel) -> Outcome<()> {
    let state = recorder.state;
    match (state.config.max_disk_bytes, retention(state, store)) {
        (None, _) => Outcome { recorder, store, result: Ok(()) },
        (Some(cap), Err(error)) => Outcome { recorder, store, result: Err(error) },
        (Some(cap), Ok(status)) => if state.config.persistence_mode == PersistenceMode::Volatile
            || status.retained_bytes_total <= cap {
            Outcome { recorder, store, result: Ok(()) }
        } else {
            let segments = segment_states(state, store)->Ok_0;
            let end = retention_pass(
                state,
                cap,
                RetentionProgress {
                    index: recorder.index,
                    store,
                    retained: status.retained_bytes_total,
                },
                segments,
                segments.len() as int,
            );
            Outcome {
                recorder: RecorderModel { index: end.index, ..recorder },
                store: end.store,
                result: if end.retained > cap {
                    Err(
                        ArchiveRecorderError::RetentionBlockedByPins {
                            max_disk_bytes: cap,
                            retained_bytes: end.retained,
                        },
                    )
                } else {
                    Ok(())
                },
            }
        },
    }
}

/// The value, or zero.
pub open spec fn or_zero(value: Option<u64>) -> u64 {
    match value {
        Some(x) => x,
        None => 0,
    }
}

/// The summary of a segment that is sealed now.
pub open spec fn seal_summary(active: ActiveSegment, now_ns: u64) -> SegmentSummary {
    SegmentSummary {
        segment_id: active.segment_id,
        segment_generation: active.segment_generation,
        sequence_start: or_zero(active.sequence_start),
        sequence_end: or_zero(active.sequence_end),
        records: active.records,
        created_at_ns: active.created_at_ns,
        sealed_at_ns: now_ns,
        data_bytes_used: active.write_offset,
        segment_checksum: 0,
    }
}

/// The summary of a segment is written to its summary file and to the catalog.
pub open spec fn summary_written(
    state: RecorderState,
    store: StoreModel,
    active: ActiveSegment,
    now_ns: u64,
) -> Step<()> {
    let meta = hot_meta(active.segment_id, active.segment_generation);
    let data = seal_summary(active, now_ns).encoded();
    let (created, creation) = file_created(store, meta);
    let (headed, heading) = header_written(
        created,
        meta,
        ArchiveFileKind::SegmentMeta,
        state.config.log_id@,
        active.segment_id,
        active.segment_generation,
        now_ns,
    );
    let noted = headed.written(meta, 76, data);
    let first = state.with_stats(
        ArchiveRecorderStats {
            metadata_bytes_written: saturating_sum(state.stats.metadata_bytes_written, 164),
            ..state.stats
        },
    );
    let catalog = ArchiveFile::Catalog;
    let end = noted.bytes(catalog).len() as u64;
    match (creation, heading) {
        (Err(error), _) => Step { state, store: created, result: Err(error) },
        (Ok(()), Err(error)) => Step { state, store: headed, result: Err(error) },
        (Ok(()), Ok(())) => if !noted.has(catalog) {
            Step {
                state: first,
                store: noted,
                result: Err(file_fault("read catalog metadata", catalog, IoFault::NotFound)),
            }
        } else {
            match noted.write_fault(catalog, end, 88) {
                Some(source) => Step {
                    state: first,
                    store: noted,
                    result: Err(file_fault("append catalog segment summary", catalog, source)),
                },
                None => Step {
                    state: first.with_stats(
                        ArchiveRecorderStats {
                            metadata_bytes_written: saturating_sum(
                                first.stats.metadata_bytes_written,
                                88,
                            ),
                            rolled_segments: counted(first.stats.rolled_segments),
                            ..first.stats
                        },
                    ),
                    store: noted.written(catalog, end, data),
                    result: Ok(()),
                },
            }
        },
    }
}

/// The active segment is closed: it is synced, its summary is written where it has records, and
/// the next segment is opened where that is asked for.
pub open spec fn segment_closed(
    state: RecorderState,
    store: StoreModel,
    open_next: bool,
    now_ns: u64,
) -> Step<()> {
    let active = state.disk->Some_0.active_segment->Some_0;
    let file = hot_data(active.segment_id, active.segment_generation);
    let closed = state.with_active(None);
    let (synced, syncing) = file_synced(
        store,
        file,
        "sync segment before seal",
        "sync segment before seal",
    );
    match syncing {
        Err(error) => Step { state: closed, store: synced, result: Err(error) },
        Ok(()) => {
            let noted = if active.records > 0 {
                summary_written(closed, synced, active, now_ns)
            } else {
                Step { state: closed, store: synced, result: Ok(()) }
            };
            if noted.result is Err || !open_next {
                noted
            } else {
                segment_opened(noted.state, noted.store, next_number(active.segment_id), now_ns)
            }
        },
    }
}

/// The active segment, if there is one, is sealed, and the cap on retained bytes is enforced.
pub open spec fn sealed(
    recorder: RecorderModel,
    store: StoreModel,
    open_next: bool,
    now_ns: u64,
) -> Outcome<()> {
    if !recorder.state.is_open() {
        Outcome { recorder, store, result: Ok(()) }
    } else {
        let step = segment_closed(recorder.state, store, open_next, now_ns);
        match step.result {
            Err(error) => recorder.after(step),
            Ok(()) => retention_enforced(recorder.with_state(step.state), step.store),
        }
    }
}

/// A record as it is handed to the recorder.
#[derive(Debug, Clone, Copy)]
pub struct RecordInput<'a> {
    /// Sequence.
    pub sequence: u64,
    /// Event timestamp in nanoseconds.
    pub event_time_ns: u64,
    /// User header bytes.
    pub user_header: &'a [u8],
    /// Payload bytes.
    pub payload: &'a [u8],
}

/// The mathematical value of a [`RecordInput`].
pub struct RecordModel {
    pub sequence: u64,
    pub event_time_ns: u64,
    pub user_header: Seq<u8>,
    pub payload: Seq<u8>,
}

impl View for RecordInput<'_> {
    type V = RecordModel;

    open spec fn view(&self) -> RecordModel {
        RecordModel {
            sequence: self.sequence,
            event_time_ns: self.event_time_ns,
            user_header: self.user_header@,
            payload: self.payload@,
        }
    }
}

impl RecordModel {
    /// The frame of the record.
    pub open spec fn frame(self, commit_ordinal: u64, commit_time_ns: u64) -> FrameInput {
        FrameInput {
            commit_ordinal,
            sequence: self.sequence,
            event_time_ns: self.event_time_ns,
            commit_time_ns,
            user_header: self.user_header,
            payload: self.payload,
        }
    }

    /// The length of the frame is a machine word.
    pub open spec fn wf(self) -> bool {
        64 + self.user_header.len() + self.payload.len() + 7 <= usize::MAX
    }
}

/// The commit entry of a record.
pub open spec fn record_entry(
    frame: FrameInput,
    locator: ArchiveLocator,
    checksum: u32,
    source: ArchiveSourceMetadata,
) -> CommitEntry {
    CommitEntry {
        commit_ordinal: frame.commit_ordinal,
        sequence: frame.sequence,
        locator,
        frame_checksum: checksum,
        event_time_ns: frame.event_time_ns,
        commit_time_ns: frame.commit_time_ns,
        source_pattern: source.source_pattern,
        source_service_id: source.source_service_id,
        source_instance_id: source.source_instance_id,
        source_sequence: source.source_sequence,
    }
}

/// Where the next frame goes.
pub open spec fn next_locator(state: RecorderState, frame_len: nat) -> ArchiveLocator {
    let active = state.disk->Some_0.active_segment->Some_0;
    ArchiveLocator {
        segment_id: active.segment_id,
        segment_generation: active.segment_generation,
        file_offset: active.write_offset,
        frame_len: frame_len as u32,
    }
}

/// The frame is written to the active segment.
pub open spec fn frame_written(
    state: RecorderState,
    store: StoreModel,
    sequence: u64,
    data: Seq<u8>,
) -> Step<ArchiveLocator> {
    let active = state.disk->Some_0.active_segment->Some_0;
    let file = hot_data(active.segment_id, active.segment_generation);
    match store.write_fault(file, active.write_offset, data.len()) {
        Some(source) => {
            let (failed, error) = write_failed(
                state,
                file_fault("write active segment", file, source),
            );
            Step { state: failed, store, result: Err(error) }
        },
        None => Step {
            state: state.with_active(
                Some(
                    ActiveSegment {
                        write_offset: (active.write_offset + data.len()) as u64,
                        sequence_start: match active.sequence_start {
                            Some(first) => Some(first),
                            None => Some(sequence),
                        },
                        sequence_end: Some(sequence),
                        records: counted(active.records),
                        ..active
                    },
                ),
            ),
            store: store.written(file, active.write_offset, data),
            result: Ok(next_locator(state, data.len())),
        },
    }
}

/// Room for one entry is made in the commit log.
pub open spec fn entry_room_made(state: RecorderState, store: StoreModel, now_ns: u64) -> Step<
    bool,
> {
    let rolled = commit_log_rolled_if_needed(state, store, now_ns);
    match rolled.result {
        Err(error) => Step { state: rolled.state, store: rolled.store, result: Err(error) },
        Ok(()) => {
            let ensured = commit_log_ensured(rolled.state, rolled.store);
            if ensured.result == Ok::<bool, ArchiveRecorderError>(true) {
                let capped = metadata_cap_enforced(ensured.state, ensured.store);
                match capped.result {
                    Err(error) => Step {
                        state: capped.state,
                        store: capped.store,
                        result: Err(error),
                    },
                    Ok(()) => ensured,
                }
            } else {
                ensured
            }
        },
    }
}

/// The entry is written to the commit log.
pub open spec fn entry_written(
    state: RecorderState,
    store: StoreModel,
    entry: CommitEntry,
    now_ns: u64,
) -> Step<()> {
    let room = entry_room_made(state, store, now_ns);
    let log = ArchiveFile::CommitLog;
    let disk = room.state.disk->Some_0;
    match room.result {
        Err(error) => Step { state: room.state, store: room.store, result: Err(error) },
        Ok(_) => match room.store.write_fault(log, disk.commit_log_write_offset, 104) {
            Some(source) => {
                let (failed, error) = write_failed(
                    room.state,
                    file_fault("append commit idxlog entry", log, source),
                );
                Step { state: failed, store: room.store, result: Err(error) }
            },
            None => Step {
                state: room.state.with_disk(
                    DiskRecorderState {
                        commit_log_write_offset: (disk.commit_log_write_offset + 104) as u64,
                        ..disk
                    },
                ),
                store: room.store.written(log, disk.commit_log_write_offset, entry.encoded()),
                result: Ok(()),
            },
        },
    }
}

/// The active segment, the commit log and the catalog are synced.
pub open spec fn data_files_synced(state: RecorderState, store: StoreModel) -> (
    StoreModel,
    Result<(), ArchiveRecorderError>,
) {
    let (first, segment) = match state.disk->Some_0.active_segment {
        None => (store, Ok(())),
        Some(active) => file_synced(
            store,
            hot_data(active.segment_id, active.segment_generation),
            "sync active segment",
            "sync active segment",
        ),
    };
    let (second, log) = file_synced(
        first,
        ArchiveFile::CommitLog,
        "sync commit idxlog",
        "sync commit idxlog",
    );
    match (segment, log) {
        (Err(error), _) => (first, Err(error)),
        (Ok(()), Err(error)) => (second, Err(error)),
        (Ok(()), Ok(())) => file_synced(
            second,
            ArchiveFile::Catalog,
            "sync catalog",
            "sync catalog",
        ),
    }
}

/// The counters and the index after a record was committed.
pub open spec fn commit_counted(
    recorder: RecorderModel,
    commit: RecordedCommit,
    payload_len: nat,
    frame_len: nat,
) -> RecorderModel {
    let stats = recorder.state.stats;
    RecorderModel {
        state: recorder.state.with_stats(
            ArchiveRecorderStats {
                committed_records: counted(stats.committed_records),
                payload_bytes_committed: saturating_sum(
                    stats.payload_bytes_committed,
                    payload_len as int,
                ),
                data_bytes_written: saturating_sum(stats.data_bytes_written, frame_len as int),
                metadata_bytes_written: saturating_sum(stats.metadata_bytes_written, 104),
                ..stats
            },
        ),
        index: recorder.index.push((commit.sequence, commit.locator)),
        volatile: recorder.volatile,
    }
}

/// A committed record is made durable where the durability mode asks for it.
pub open spec fn commit_settled(
    recorder: RecorderModel,
    store: StoreModel,
    commit: RecordedCommit,
) -> Outcome<RecordedCommit> {
    if recorder.state.config.persistence_mode == PersistenceMode::Sync {
        let (synced, result) = data_files_synced(recorder.state, store);
        match result {
            Err(error) => Outcome { recorder, store: synced, result: Err(error) },
            Ok(()) => Outcome {
                recorder: recorder.with_state(commit_durable(recorder.state, commit)),
                store: synced,
                result: Ok(commit),
            },
        }
    } else {
        Outcome { recorder, store, result: Ok(commit) }
    }
}

/// A record is written to the active segment and the commit log.
pub open spec fn record_written(
    recorder: RecorderModel,
    store: StoreModel,
    frame: FrameInput,
    source: ArchiveSourceMetadata,
) -> Outcome<RecordedCommit> {
    let mode = recorder.state.config.checksum_mode;
    let data = frame.encoded(mode);
    let placed = frame_written(recorder.state, store, frame.sequence, data);
    match placed.result {
        Err(error) => Outcome {
            recorder: recorder.with_state(placed.state),
            store: placed.store,
            result: Err(error),
        },
        Ok(locator) => {
            let logged = entry_written(
                placed.state,
                placed.store,
                record_entry(frame, locator, frame.checksum(mode), source),
                frame.commit_time_ns,
            );
            let commit = RecordedCommit {
                commit_ordinal: frame.commit_ordinal,
                sequence: frame.sequence,
                locator,
            };
            match logged.result {
                Err(error) => Outcome {
                    recorder: recorder.with_state(logged.state),
                    store: logged.store,
                    result: Err(error),
                },
                Ok(()) => commit_settled(
                    commit_counted(
                        recorder.with_state(logged.state),
                        commit,
                        frame.payload.len(),
                        data.len(),
                    ),
                    logged.store,
                    commit,
                ),
            }
        },
    }
}

/// A record is appended to the files of the archive. A full segment is sealed first.
#[verifier::opaque]
pub open spec fn disk_appended(
    recorder: RecorderModel,
    store: StoreModel,
    frame: FrameInput,
    source: ArchiveSourceMetadata,
) -> Outcome<RecordedCommit> {
    let config = recorder.state.config;
    let len = frame.frame_len();
    let active = recorder.state.disk->Some_0.active_segment->Some_0;
    if len > config.segment_bytes - 76 {
        Outcome {
            recorder,
            store,
            result: Err(
                ArchiveRecorderError::FrameTooLarge {
                    required: len as usize,
                    segment_bytes: config.segment_bytes,
                },
            ),
        }
    } else if active.write_offset + len > config.segment_bytes {
        let rolled = sealed(recorder, store, true, frame.commit_time_ns);
        match rolled.result {
            Err(error) => Outcome {
                recorder: rolled.recorder,
                store: rolled.store,
                result: Err(error),
            },
            Ok(()) => record_written(rolled.recorder, rolled.store, frame, source),
        }
    } else {
        record_written(recorder, store, frame, source)
    }
}

/// A record is kept in memory.
pub open spec fn memory_appended(recorder: RecorderModel, frame: FrameInput) -> (
    RecorderModel,
    RecordedCommit,
) {
    let stats = recorder.state.stats;
    let locator = ArchiveLocator {
        segment_id: 0,
        segment_generation: 0,
        file_offset: recorder.volatile.len() as u64,
        frame_len: frame.frame_len() as u32,
    };
    (
        RecorderModel {
            state: recorder.state.with_stats(
                ArchiveRecorderStats {
                    committed_records: counted(stats.committed_records),
                    payload_bytes_committed: saturating_sum(
                        stats.payload_bytes_committed,
                        frame.payload.len() as int,
                    ),
                    ..stats
                },
            ),
            index: recorder.index.push((frame.sequence, locator)),
            volatile: recorder.volatile.push(VolatileModel { record: frame, locator }),
        },
        RecordedCommit { commit_ordinal: frame.commit_ordinal, sequence: frame.sequence, locator },
    )
}

/// Why the recorder refuses a record with this sequence, if it does.
pub open spec fn refusal(state: RecorderState, sequence: u64) -> Option<ArchiveRecorderError> {
    if state.finalized {
        Some(ArchiveRecorderError::Finalized)
    } else if state.degraded {
        Some(ArchiveRecorderError::Degraded)
    } else if state.last_sequence is Some && sequence <= state.last_sequence->Some_0 {
        Some(
            ArchiveRecorderError::SequenceNotMonotonic {
                previous: state.last_sequence->Some_0,
                next: sequence,
            },
        )
    } else {
        None
    }
}

/// A record is appended. It takes the next commit ordinal, also where writing it fails.
pub open spec fn record_appended(
    recorder: RecorderModel,
    store: StoreModel,
    record: RecordModel,
    source: ArchiveSourceMetadata,
    now_ns: u64,
) -> Outcome<RecordedCommit> {
    match refusal(recorder.state, record.sequence) {
        Some(error) => Outcome { recorder, store, result: Err(error) },
        None => {
            let numbered = recorder.with_state(
                RecorderState {
                    next_commit_ordinal: next_number(recorder.state.next_commit_ordinal),
                    last_sequence: Some(record.sequence),
                    ..recorder.state
                },
            );
            let frame = record.frame(recorder.state.next_commit_ordinal, now_ns);
            if recorder.state.config.persistence_mode == PersistenceMode::Volatile {
                let (kept, commit) = memory_appended(numbered, frame);
                Outcome { recorder: kept, store, result: Ok(commit) }
            } else {
                disk_appended(numbered, store, frame, source)
            }
        },
    }
}

/// The steps of the commit log keep the state well-formed and the active segment as it was.
pub proof fn entry_room_keeps(state: RecorderState, store: StoreModel, now_ns: u64)
    requires
        state.wf(),
        state.disk is Some,
    ensures
        ({
            let room = entry_room_made(state, store, now_ns).state;
            &&& room.wf()
            &&& room.disk is Some
            &&& room.config == state.config
            &&& room.disk->Some_0.active_segment == state.disk->Some_0.active_segment
        }),
{
}

/// Closing a segment keeps the state well-formed; where the next one was opened, it is the
/// active one.
pub proof fn segment_closed_keeps(
    state: RecorderState,
    store: StoreModel,
    open_next: bool,
    now_ns: u64,
)
    requires
        state.wf(),
        state.is_open(),
    ensures
        ({
            let step = segment_closed(state, store, open_next, now_ns);
            &&& step.state.wf()
            &&& step.state.disk is Some
            &&& step.state.config == state.config
            &&& open_next && step.result is Ok ==> {
                &&& step.state.is_open()
                &&& step.state.disk->Some_0.active_segment->Some_0.write_offset == 76
            }
        }),
{
    let active = state.disk->Some_0.active_segment->Some_0;
    let file = hot_data(active.segment_id, active.segment_generation);
    let closed = state.with_active(None);
    let synced = store.synced(file);
    let noted = if active.records > 0 {
        summary_written(closed, synced, active, now_ns)
    } else {
        Step { state: closed, store: synced, result: Ok(()) }
    };
    segment_opened_keeps(noted.state, noted.store, next_number(active.segment_id), now_ns);
}

/// Opening a segment keeps the state well-formed; where it succeeds the segment is active.
pub proof fn segment_opened_keeps(
    state: RecorderState,
    store: StoreModel,
    segment_id: u64,
    now_ns: u64,
)
    requires
        state.wf(),
        state.disk is Some,
    ensures
        ({
            let step = segment_opened(state, store, segment_id, now_ns);
            &&& step.state.wf()
            &&& step.state.disk is Some
            &&& step.state.config == state.config
            &&& step.result is Ok ==> {
                &&& step.state.is_open()
                &&& step.state.disk->Some_0.active_segment->Some_0.write_offset == 76
                &&& step.state.disk->Some_0.active_segment->Some_0.segment_id == segment_id
            }
        }),
{
    let config = state.config;
    let file = hot_data(segment_id, config.segment_generation);
    let created_new = !store.has(file);
    let placed = if created_new {
        store.with_empty(file)
    } else {
        store
    };
    let headed = header_written(
        placed,
        file,
        ArchiveFileKind::SegmentData,
        config.log_id@,
        segment_id,
        config.segment_generation,
        now_ns,
    ).0;
    let sized = if config.segment_preallocate {
        headed.with_len(file, config.segment_bytes as u64)
    } else {
        headed
    };
    let noted = if config.segment_preallocate && created_new {
        crate::state::preallocation_counted(state)
    } else {
        state
    };
    let ready = noted.with_active(
        Some(crate::state::opened_segment(config, segment_id, now_ns)),
    );
    let start = next_number(segment_id);
    spares_keep_state(
        ready,
        sized,
        start,
        saturating_sum(start, config.spare_preallocated_segments as int),
        now_ns,
    );
}

/// Tells whether a file could be synced, with the error where not.
fn sync_file(
    store: &mut ArchiveStore,
    file: ArchiveFile,
    operation: &'static str,
    missing: &'static str,
) -> (result: Result<(), ArchiveRecorderError>)
    ensures
        final(store).base() == old(store).base(),
        (final(store)@, result) == file_synced(old(store)@, file, operation, missing),
{
    match store.sync_data(file, operation) {
        Ok(()) => Ok(()),
        Err(source) => Err(file_error(missing, file, source)),
    }
}

impl RecorderState {
    /// Writes the summary of a segment to its summary file and to the catalog.
    fn write_summary(
        &mut self,
        store: &mut ArchiveStore,
        active: ActiveSegment,
        now_ns: u64,
    ) -> (result: Result<(), ArchiveRecorderError>)
        ensures
            final(store).base() == old(store).base(),
            (Step { state: *final(self), store: final(store)@, result }) == summary_written(
                *old(self),
                old(store)@,
                active,
                now_ns,
            ),
    {
        let summary = SegmentSummary {
            segment_id: active.segment_id,
            segment_generation: active.segment_generation,
            sequence_start: match active.sequence_start {
                Some(sequence) => sequence,
                None => 0,
            },
            sequence_end: match active.sequence_end {
                Some(sequence) => sequence,
                None => 0,
            },
            records: active.records,
            created_at_ns: active.created_at_ns,
            sealed_at_ns: now_ns,
            data_bytes_used: active.write_offset,
            segment_checksum: 0,
        };
        let meta = ArchiveFile::SegmentMeta {
            tier: ArchiveSegmentTier::HotAttached,
            segment_id: active.segment_id,
            segment_generation: active.segment_generation,
        };
        match create_new_file(store, meta) {
            Ok(()) => {},
            Err(error) => {
                return Err(error);
            },
        }
        match write_archive_header(
            store,
            meta,
            ArchiveFileKind::SegmentMeta,
            self.config.log_id,
            active.segment_id,
            active.segment_generation,
            now_ns,
        ) {
            Ok(()) => {},
            Err(error) => {
                return Err(error);
            },
        }
        let summary_bytes = summary.to_bytes();
        match store.write_at(
            meta,
            ARCHIVE_FILE_HEADER_V1_LEN as u64,
            &summary_bytes,
            "write segment summary",
        ) {
            Ok(()) => {},
            Err(source) => {
                return Err(file_error("write segment summary", meta, source));
            },
        }
        self.stats.metadata_bytes_written = bounded_sum(self.stats.metadata_bytes_written, 164);
        let catalog = ArchiveFile::Catalog;
        let end: u64 = match store.file_len(catalog) {
            Some(len) => len,
            None => {
                return Err(file_error("read catalog metadata", catalog, IoFault::NotFound));
            },
        };
        match store.write_at(catalog, end, &summary_bytes, "append catalog segment summary") {
            Ok(()) => {},
            Err(source) => {
                return Err(file_error("append catalog segment summary", catalog, source));
            },
        }
        self.stats.metadata_bytes_written = bounded_sum(self.stats.metadata_bytes_written, 88);
        self.stats.rolled_segments = following(self.stats.rolled_segments);
        Ok(())
    }

    /// Closes the active segment.
    pub(crate) fn close_active_segment(
        &mut self,
        store: &mut ArchiveStore,
        active: ActiveSegment,
        open_next: bool,
        now_ns: u64,
    ) -> (result: Result<(), ArchiveRecorderError>)
        requires
            old(self).is_open(),
            old(self).disk->Some_0.active_segment == Some(active),
        ensures
            final(store).base() == old(store).base(),
            (Step { state: *final(self), store: final(store)@, result }) == segment_closed(
                *old(self),
                old(store)@,
                open_next,
                now_ns,
            ),
    {
        if let Some(disk) = self.disk {
            self.disk = Some(DiskRecorderState { active_segment: None, ..disk });
        }
        let file = ArchiveFile::SegmentData {
            tier: ArchiveSegmentTier::HotAttached,
            segment_id: active.segment_id,
            segment_generation: active.segment_generation,
        };
        match sync_file(store, file, "sync segment before seal", "sync segment before seal") {
            Ok(()) => {},
            Err(error) => {
                return Err(error);
            },
        }
        if active.records > 0 {
            match self.write_summary(store, active, now_ns) {
                Ok(()) => {},
                Err(error) => {
                    return Err(error);
                },
            }
        }
        if open_next {
            return self.open_new_active_segment(store, following(active.segment_id), now_ns);
        }
        Ok(())
    }

    /// Writes a frame to the active segment.
    pub(crate) fn write_frame(&mut self, store: &mut ArchiveStore, sequence: u64, data: &[u8]) -> (result:
        Result<ArchiveLocator, ArchiveRecorderError>)
        requires
            old(self).wf(),
            old(self).is_open(),
            old(self).disk->Some_0.active_segment->Some_0.write_offset + data@.len()
                <= old(self).config.segment_bytes,
        ensures
            final(store).base() == old(store).base(),
            (Step { state: *final(self), store: final(store)@, result }) == frame_written(
                *old(self),
                old(store)@,
                sequence,
                data@,
            ),
    {
        let disk = match self.disk {
            Some(disk) => disk,
            None => {
                return Err(ArchiveRecorderError::Degraded);
            },
        };
        let mut active = match disk.active_segment {
            Some(active) => active,
            None => {
                return Err(ArchiveRecorderError::Degraded);
            },
        };
        let file = ArchiveFile::SegmentData {
            tier: ArchiveSegmentTier::HotAttached,
            segment_id: active.segment_id,
            segment_generation: active.segment_generation,
        };
        let locator = ArchiveLocator {
            segment_id: active.segment_id,
            segment_generation: active.segment_generation,
            file_offset: active.write_offset,
            frame_len: data.len() as u32,
        };
        match store.write_at(file, active.write_offset, data, "write active segment") {
            Ok(()) => {},
            Err(source) => {
                return Err(
                    self.handle_commit_write_failure(
                        file_error("write active segment", file, source),
                    ),
                );
            },
        }
        active.write_offset = active.write_offset + data.len() as u64;
        if active.sequence_start.is_none() {
            active.sequence_start = Some(sequence);
        }
        active.sequence_end = Some(sequence);
        active.records = following(active.records);
        self.disk = Some(DiskRecorderState { active_segment: Some(active), ..disk });
        Ok(locator)
    }

    /// Syncs the active segment, the commit log and the catalog.
    pub(crate) fn sync_data_files(&self, store: &mut ArchiveStore) -> (result: Result<
        (),
        ArchiveRecorderError,
    >)
        requires
            self.disk is Some,
        ensures
            final(store).base() == old(store).base(),
            (final(store)@, result) == data_files_synced(*self, old(store)@),
    {
        if let Some(disk) = self.disk {
            if let Some(active) = disk.active_segment {
                let file = ArchiveFile::SegmentData {
                    tier: ArchiveSegmentTier::HotAttached,
                    segment_id: active.segment_id,
                    segment_generation: active.segment_generation,
                };
                match sync_file(store, file, "sync active segment", "sync active segment") {
                    Ok(()) => {},
                    Err(error) => {
                        return Err(error);
                    },
                }
            }
        }
        match sync_file(
            store,
            ArchiveFile::CommitLog,
            "sync commit idxlog",
            "sync commit idxlog",
        ) {
            Ok(()) => {},
            Err(error) => {
                return Err(error);
            },
        }
        sync_file(store, ArchiveFile::Catalog, "sync catalog", "sync catalog")
    }
}

/// The recorder after waiting for an acknowledgment, and what comes of the wait.
///
/// A recorder without files never reaches a durable level, so waiting for one runs out of time.
pub open spec fn ack_awaited(
    recorder: RecorderModel,
    store: StoreModel,
    commit: RecordedCommit,
    requested: RecorderAckLevel,
    timeout_ns: u128,
) -> Outcome<()> {
    let state = recorder.state;
    if acknowledged(state, commit, requested) {
        Outcome { recorder, store, result: Ok(()) }
    } else if timeout_ns == 0 || state.config.persistence_mode == PersistenceMode::Volatile {
        Outcome { recorder, store, result: Err(ack_timeout(state, requested, timeout_ns)) }
    } else {
        let (first, data) = segment_synced(state, store, commit.locator);
        match data {
            Err(error) => Outcome { recorder, store: first, result: Err(error) },
            Ok(()) => if requested == RecorderAckLevel::DurableDataAndCommitLog {
                let (second, log) = logs_synced(first);
                match log {
                    Err(error) => Outcome {
                        recorder: recorder.with_state(data_durable(state, commit)),
                        store: second,
                        result: Err(error),
                    },
                    Ok(()) => Outcome {
                        recorder: recorder.with_state(
                            commit_durable(data_durable(state, commit), commit),
                        ),
                        store: second,
                        result: Ok(()),
                    },
                }
            } else {
                Outcome {
                    recorder: recorder.with_state(data_durable(state, commit)),
                    store: first,
                    result: Ok(()),
                }
            },
        }
    }
}

/// The segment that a locator names is synced.
pub open spec fn segment_synced(
    state: RecorderState,
    store: StoreModel,
    locator: ArchiveLocator,
) -> (StoreModel, Result<(), ArchiveRecorderError>) {
    let key = (locator.segment_id, locator.segment_generation);
    file_synced(
        store,
        hot_data(locator.segment_id, locator.segment_generation),
        "sync durable data segment",
        if is_active(state, key) {
            "sync durable data segment"
        } else {
            "open segment for durable data sync"
        },
    )
}

/// The commit log and the catalog are synced.
pub open spec fn logs_synced(store: StoreModel) -> (StoreModel, Result<(), ArchiveRecorderError>) {
    let (first, log) = file_synced(
        store,
        ArchiveFile::CommitLog,
        "sync durable commit idxlog",
        "sync durable commit idxlog",
    );
    match log {
        Err(error) => (first, Err(error)),
        Ok(()) => file_synced(
            first,
            ArchiveFile::Catalog,
            "sync durable catalog",
            "sync durable catalog",
        ),
    }
}

/// The recorder is finalized: its active segment is sealed and the reserved room of the commit
/// log is given up.
pub open spec fn finalized(recorder: RecorderModel, store: StoreModel, now_ns: u64) -> Outcome<()> {
    let done = |m: RecorderModel| m.with_state(RecorderState { finalized: true, ..m.state });
    if recorder.state.finalized {
        Outcome { recorder, store, result: Ok(()) }
    } else if recorder.state.disk is None {
        Outcome { recorder: done(recorder), store, result: Ok(()) }
    } else {
        let closed = sealed(recorder, store, false, now_ns);
        match closed.result {
            Err(error) => closed,
            Ok(()) => {
                let cut = commit_log_truncated(closed.recorder.state, closed.store);
                match cut.result {
                    Err(error) => closed.recorder.after(cut),
                    Ok(()) => Outcome {
                        recorder: done(closed.recorder.with_state(cut.state)),
                        store: cut.store,
                        result: Ok(()),
                    },
                }
            },
        }
    }
}

/// Sealing keeps the state well-formed; where the next segment was opened, it is the active one.
pub proof fn sealed_keeps(
    recorder: RecorderModel,
    store: StoreModel,
    open_next: bool,
    now_ns: u64,
)
    requires
        recorder.state.wf(),
    ensures
        ({
            let outcome = sealed(recorder, store, open_next, now_ns);
            &&& outcome.recorder.state.wf()
            &&& outcome.recorder.state.config == recorder.state.config
            &&& outcome.recorder.state.disk is Some == recorder.state.disk is Some
            &&& recorder.state.is_open() && open_next && outcome.result is Ok ==> {
                &&& outcome.recorder.state.is_open()
                &&& outcome.recorder.state.disk->Some_0.active_segment->Some_0.write_offset == 76
            }
        }),
{
    if recorder.state.is_open() {
        segment_closed_keeps(recorder.state, store, open_next, now_ns);
    }
}

/// Writing a record keeps the state well-formed.
pub proof fn record_written_keeps(
    recorder: RecorderModel,
    store: StoreModel,
    frame: FrameInput,
    source: ArchiveSourceMetadata,
)
    requires
        recorder.state.wf(),
        recorder.state.is_open(),
        recorder.state.disk->Some_0.active_segment->Some_0.write_offset + frame.encoded(
            recorder.state.config.checksum_mode,
        ).len() <= recorder.state.config.segment_bytes,
    ensures
        ({
            let outcome = record_written(recorder, store, frame, source);
            &&& outcome.recorder.state.wf()
            &&& outcome.recorder.state.is_open()
            &&& outcome.recorder.state.config == recorder.state.config
        }),
{
    let data = frame.encoded(recorder.state.config.checksum_mode);
    let placed = frame_written(recorder.state, store, frame.sequence, data);
    assert(placed.state.wf() && placed.state.is_open());
    entry_room_keeps(placed.state, placed.store, frame.commit_time_ns);
}

impl ArchiveRecorder {
    /// Considers the first `n` segments: while too much is retained, an unpinned one is detached
    /// and deleted. Tells the bytes that are still retained.
    pub(crate) fn retain_segments(
        &mut self,
        store: &mut ArchiveStore,
        cap: u64,
        segments: &Vec<ArchiveSegmentState>,
        n: usize,
        retained_before: u64,
    ) -> (retained: u64)
        requires
            n <= segments@.len(),
        ensures
            final(store).base() == old(store).base(),
            final(self)@.state == old(self)@.state,
            final(self)@.volatile == old(self)@.volatile,
            (RetentionProgress { index: final(self)@.index, store: final(store)@, retained })
                == retention_pass(
                old(self)@.state,
                cap,
                RetentionProgress {
                    index: old(self)@.index,
                    store: old(store)@,
                    retained: retained_before,
                },
                segments@,
                n as int,
            ),
    {
        let mut retained: u64 = retained_before;
        let ghost start = RetentionProgress {
            index: self.index_by_sequence@,
            store: store@,
            retained,
        };
        for i in 0..n
            invariant
                n <= segments@.len(),
                self.state == old(self).state,
                self.volatile_records@ == old(self).volatile_records@,
                store.base() == old(store).base(),
                (RetentionProgress { index: self.index_by_sequence@, store: store@, retained })
                    == retention_pass(self.state, cap, start, segments@, i as int),
        {
            let segment = segments[i];
            if retained > cap && !segment.pinned {
                if segment.tier == ArchiveSegmentTier::HotAttached {
                    let _ = self.state.detach_segment(
                        store,
                        segment.segment_id,
                        segment.segment_generation,
                    );
                }
                if self.state.delete_detached_segment(
                    store,
                    segment.segment_id,
                    segment.segment_generation,
                ) {
                    remove_sequence_range(
                        &mut self.index_by_sequence,
                        segment.sequence_start,
                        segment.sequence_end,
                    );
                    retained = if retained < segment.data_bytes_used {
                        0
                    } else {
                        retained - segment.data_bytes_used
                    };
                }
            }
        }
        retained
    }

    /// Detaches and deletes the oldest unpinned segments until the cap on retained bytes holds.
    pub(crate) fn enforce_retention_cap(&mut self, store: &mut ArchiveStore) -> (result: Result<
        (),
        ArchiveRecorderError,
    >)
        ensures
            final(store).base() == old(store).base(),
            (Outcome { recorder: final(self)@, store: final(store)@, result })
                == retention_enforced(old(self)@, old(store)@),
    {
        let cap: u64 = match self.state.config.max_disk_bytes {
            Some(cap) => cap,
            None => {
                return Ok(());
            },
        };
        if self.state.config.persistence_mode == PersistenceMode::Volatile {
            return Ok(());
        }
        let segments = match self.state.collect_segment_states(store) {
            Ok(segments) => segments,
            Err(error) => {
                return Err(error);
            },
        };
        let mut retained: u64 = count_retention(Some(cap), &segments).retained_bytes_total;
        if retained <= cap {
            return Ok(());
        }
        let n: usize = segments.len();
        retained = self.retain_segments(store, cap, &segments, n, retained);
        if retained > cap {
            return Err(
                ArchiveRecorderError::RetentionBlockedByPins {
                    max_disk_bytes: cap,
                    retained_bytes: retained,
                },
            );
        }
        Ok(())
    }

    /// Seals the active segment, if there is one.
    pub(crate) fn seal_active_segment_internal(
        &mut self,
        store: &mut ArchiveStore,
        open_next: bool,
        now_ns: u64,
    ) -> (result: Result<(), ArchiveRecorderError>)
        ensures
            final(store).base() == old(store).base(),
            (Outcome { recorder: final(self)@, store: final(store)@, result }) == sealed(
                old(self)@,
                old(store)@,
                open_next,
                now_ns,
            ),
    {
        let disk = match self.state.disk {
            Some(disk) => disk,
            None => {
                return Ok(());
            },
        };
        let active = match disk.active_segment {
            Some(active) => active,
            None => {
                return Ok(());
            },
        };
        match self.state.close_active_segment(store, active, open_next, now_ns) {
            Ok(()) => {},
            Err(error) => {
                return Err(error);
            },
        }
        self.enforce_retention_cap(store)
    }

    /// Keeps a record in memory.
    pub(crate) fn append_volatile(
        &mut self,
        input: RecordInput<'_>,
        commit_ordinal: u64,
        now_ns: u64,
    ) -> (commit: RecordedCommit)
        requires
            input@.wf(),
        ensures
            (final(self)@, commit) == memory_appended(
                old(self)@,
                input@.frame(commit_ordinal, now_ns),
            ),
    {
        let used: usize = 64 + input.user_header.len() + input.payload.len();
        proof {
            aligned_is_next_multiple(used as int, 8);
        }
        let locator = ArchiveLocator {
            segment_id: 0,
            segment_generation: 0,
            file_offset: self.volatile_records.len() as u64,
            frame_len: align_up(used, 8) as u32,
        };
        self.index_by_sequence.push((input.sequence, locator));
        let user_header = copy_range(input.user_header, 0, input.user_header.len());
        let payload = copy_range(input.payload, 0, input.payload.len());
        assert(user_header@ =~= input.user_header@);
        assert(payload@ =~= input.payload@);
        self.volatile_records.push(
            VolatileFrame {
                commit_ordinal,
                sequence: input.sequence,
                event_time_ns: input.event_time_ns,
                commit_time_ns: now_ns,
                user_header,
                payload,
                locator,
            },
        );
        self.state.stats.committed_records = following(self.state.stats.committed_records);
        self.state.stats.payload_bytes_committed =
        bounded_sum(self.state.stats.payload_bytes_committed, input.payload.len() as u64);
        assert(self@.volatile =~= old(self)@.volatile.push(
            VolatileModel { record: input@.frame(commit_ordinal, now_ns), locator },
        ));
        RecordedCommit { commit_ordinal, sequence: input.sequence, locator }
    }

    /// Notes that the removal of an old segment was refused.
    fn refuse_retention(&mut self, store: &mut ArchiveStore, considered: usize)
        ensures
            final(store).base() == old(store).base(),
            (final(self)@, final(store)@) == retaining(old(self)@, old(store)@, considered),
    {
        let cap: u64 = match self.state.config.max_disk_bytes {
            Some(cap) => cap,
            None => {
                return;
            },
        };
        if let Ok(segments) = self.state.collect_segment_states(store) {
            let retained: u64 = count_retention(Some(cap), &segments).retained_bytes_total;
            let n: usize = if considered < segments.len() {
                considered
            } else {
                segments.len()
            };
            let _ = self.retain_segments(store, cap, &segments, n, retained);
        }
    }

    /// Writes a record to the active segment and the commit log, unless a change is refused on the
    /// way.
    fn write_record(
        &mut self,
        store: &mut ArchiveStore,
        input: RecordInput<'_>,
        commit_ordinal: u64,
        source_metadata: ArchiveSourceMetadata,
        now_ns: u64,
        frame: &EncodedFrame,
        change: Option<RefusedChange>,
    ) -> (result: Result<RecordedCommit, ArchiveRecorderError>)
        requires
            old(self)@.state.wf(),
            old(self)@.state.is_open(),
            ({
                let model = input@.frame(commit_ordinal, now_ns);
                let config = old(self)@.state.config;
                &&& frame.bytes@ == model.encoded(config.checksum_mode)
                &&& frame.checksum == model.checksum(config.checksum_mode)
                &&& old(self)@.state.disk->Some_0.active_segment->Some_0.write_offset
                    + frame.bytes@.len() <= config.segment_bytes
            }),
        ensures
            final(store).base() == old(store).base(),
            (Outcome { recorder: final(self)@, store: final(store)@, result }) == record_refused(
                old(self)@,
                old(store)@,
                input@.frame(commit_ordinal, now_ns),
                source_metadata,
                change,
            ),
    {
        reveal(record_refused);
        if let Some(error) = refusal_in(change, AppendStep::Frame) {
            return Err(self.state.handle_commit_write_failure(error));
        }
        let locator = match self.state.write_frame(store, input.sequence, &frame.bytes) {
            Ok(locator) => locator,
            Err(error) => {
                return Err(error);
            },
        };
        let entry = CommitEntry {
            commit_ordinal,
            sequence: input.sequence,
            locator,
            frame_checksum: frame.checksum,
            event_time_ns: input.event_time_ns,
            commit_time_ns: now_ns,
            source_pattern: source_metadata.source_pattern,
            source_service_id: source_metadata.source_service_id,
            source_instance_id: source_metadata.source_instance_id,
            source_sequence: source_metadata.source_sequence,
        };
        proof {
            entry_room_keeps(self.state, store@, now_ns);
        }
        match self.state.write_entry(store, entry, now_ns, change) {
            Ok(()) => {},
            Err(error) => {
                return Err(error);
            },
        }
        self.state.stats.committed_records = following(self.state.stats.committed_records);
        self.state.stats.payload_bytes_committed =
        bounded_sum(self.state.stats.payload_bytes_committed, input.payload.len() as u64);
        self.state.stats.data_bytes_written =
        bounded_sum(self.state.stats.data_bytes_written, frame.bytes.len() as u64);
        self.state.stats.metadata_bytes_written =
        bounded_sum(self.state.stats.metadata_bytes_written, 104);
        self.index_by_sequence.push((input.sequence, locator));
        let commit = RecordedCommit { commit_ordinal, sequence: input.sequence, locator };
        if self.state.config.persistence_mode == PersistenceMode::Sync {
            if let Some(error) = refusal_in(change, AppendStep::Sync) {
                return Err(error);
            }
            match self.state.sync_data_files(store) {
                Ok(()) => {},
                Err(error) => {
                    return Err(error);
                },
            }
            self.state.note_durable_commit_log(commit);
        }
        Ok(commit)
    }

    /// Seals the full active segment, unless a change is refused on the way.
    fn seal_full_segment(
        &mut self,
        store: &mut ArchiveStore,
        now_ns: u64,
        change: Option<RefusedChange>,
    ) -> (result: Result<(), ArchiveRecorderError>)
        requires
            old(self)@.state.wf(),
            old(self)@.state.is_open(),
        ensures
            final(store).base() == old(store).base(),
            (Outcome { recorder: final(self)@, store: final(store)@, result }) == seal_attempted(
                old(self)@,
                old(store)@,
                now_ns,
                change,
            ),
    {
        reveal(seal_attempted);
        if let Some(refused) = change {
            match refused.step {
                AppendStep::SpareSegment { made } => {
                    self.state = self.state.while_opening(store, made, now_ns);
                    return Err(refused.error);
                },
                AppendStep::Retention { considered } => {
                    if let Some(disk) = self.state.disk {
                        if let Some(active) = disk.active_segment {
                            let _ = self.state.close_active_segment(store, active, true, now_ns);
                        }
                    }
                    self.refuse_retention(store, considered);
                    return Err(refused.error);
                },
                _ => {
                    if let Some(state) = self.state.while_closing(refused.step) {
                        self.state = state;
                        return Err(refused.error);
                    }
                },
            }
        }
        self.seal_active_segment_internal(store, true, now_ns)
    }

    /// Appends a record to the files of the archive, unless a change is refused on the way.
    fn append_disk(
        &mut self,
        store: &mut ArchiveStore,
        input: RecordInput<'_>,
        commit_ordinal: u64,
        source_metadata: ArchiveSourceMetadata,
        now_ns: u64,
        change: Option<RefusedChange>,
    ) -> (result: Result<RecordedCommit, ArchiveRecorderError>)
        requires
            old(self)@.state.wf(),
            old(self)@.state.is_open(),
            input@.wf(),
        ensures
            final(store).base() == old(store).base(),
            (Outcome { recorder: final(self)@, store: final(store)@, result })
                == disk_append_refused(
                old(self)@,
                old(store)@,
                input@.frame(commit_ordinal, now_ns),
                source_metadata,
                change,
            ),
    {
        reveal(disk_append_refused);
        let frame = EncodedFrame::new(
            commit_ordinal,
            input.sequence,
            input.event_time_ns,
            now_ns,
            input.user_header,
            input.payload,
            self.state.config.checksum_mode,
        );
        let segment_bytes: usize = self.state.config.segment_bytes;
        let required: usize = frame.bytes.len();
        if required > segment_bytes - ARCHIVE_FILE_HEADER_V1_LEN {
            return Err(ArchiveRecorderError::FrameTooLarge { required, segment_bytes });
        }
        let write_offset: u64 = match self.state.disk {
            Some(disk) => match disk.active_segment {
                Some(active) => active.write_offset,
                None => 0,
            },
            None => 0,
        };
        if write_offset as usize > segment_bytes - required {
            proof {
                seal_attempted_keeps(self@, store@, now_ns, change);
            }
            match self.seal_full_segment(store, now_ns, change) {
                Ok(()) => {},
                Err(error) => {
                    return Err(error);
                },
            }
        }
        self.write_record(
            store,
            input,
            commit_ordinal,
            source_metadata,
            now_ns,
            &frame,
            change,
        )
    }

    /// Appends a record while the disk refuses `change`, if any.
    pub(crate) fn append_record_refused(
        &mut self,
        store: &mut ArchiveStore,
        input: RecordInput<'_>,
        source_metadata: ArchiveSourceMetadata,
        now_ns: u64,
        change: Option<RefusedChange>,
    ) -> (result: Result<RecordedCommit, ArchiveRecorderError>)
        requires
            old(self)@.accepts_calls(),
            input@.wf(),
        ensures
            final(store).base() == old(store).base(),
            (Outcome { recorder: final(self)@, store: final(store)@, result }) == append_refused(
                old(self)@,
                old(store)@,
                input@,
                source_metadata,
                now_ns,
                change,
            ),
    {
        if self.state.finalized {
            return Err(ArchiveRecorderError::Finalized);
        }
        if self.state.degraded {
            return Err(ArchiveRecorderError::Degraded);
        }
        if let Some(previous) = self.state.last_sequence {
            if input.sequence <= previous {
                return Err(
                    ArchiveRecorderError::SequenceNotMonotonic { previous, next: input.sequence },
                );
            }
        }
        let commit_ordinal: u64 = self.state.next_commit_ordinal;
        self.state.next_commit_ordinal = commit_ordinal + 1;
        self.state.last_sequence = Some(input.sequence);
        match self.state.config.persistence_mode {
            PersistenceMode::Volatile => Ok(self.append_volatile(input, commit_ordinal, now_ns)),
            PersistenceMode::Async | PersistenceMode::Sync => self.append_disk(
                store,
                input,
                commit_ordinal,
                source_metadata,
                now_ns,
                change,
            ),
        }
    }

    /// Appends a record.
    pub(crate) fn append_record_internal(
        &mut self,
        store: &mut ArchiveStore,
        input: RecordInput<'_>,
        source_metadata: ArchiveSourceMetadata,
        now_ns: u64,
    ) -> (result: Result<RecordedCommit, ArchiveRecorderError>)
        requires
            old(self)@.accepts_calls(),
            input@.wf(),
        ensures
            final(store).base() == old(store).base(),
            (Outcome { recorder: final(self)@, store: final(store)@, result }) == record_appended(
                old(self)@,
                old(store)@,
                input@,
                source_metadata,
                now_ns,
            ),
    {
        proof {
            nothing_refused(self@, store@, input@, source_metadata, now_ns);
        }
        self.append_record_refused(store, input, source_metadata, now_ns, None)
    }
}

/// The sequence that the recorder gives to the next adapted record, if there is one left.
pub open spec fn next_sequence(state: RecorderState) -> Option<u64> {
    match state.last_sequence {
        None => Some(1),
        Some(previous) => if previous == u64::MAX {
            None
        } else {
            Some((previous + 1) as u64)
        },
    }
}

/// A record of a pattern adapter is appended: the recorder gives it a sequence, and its source is
/// kept in front of the user header.
pub open spec fn adapted_appended(
    recorder: RecorderModel,
    store: StoreModel,
    source: ArchiveSourceMetadata,
    event_time_ns: u64,
    user_header: Seq<u8>,
    payload: Seq<u8>,
    now_ns: u64,
) -> Outcome<RecordedCommit> {
    match next_sequence(recorder.state) {
        None => Outcome {
            recorder,
            store,
            result: Err(
                ArchiveRecorderError::InvalidConfiguration("archive sequence space exhausted"),
            ),
        },
        Some(sequence) => record_appended(
            recorder,
            store,
            RecordModel {
                sequence,
                event_time_ns,
                user_header: adapter_user_header(source, user_header),
                payload,
            },
            source,
            now_ns,
        ),
    }
}

/// The source of a publish-subscribe record.
pub open spec fn publish_subscribe_source(
    source_service_id: u64,
    source_publisher_id: u64,
    source_sequence: Option<u64>,
) -> ArchiveSourceMetadata {
    ArchiveSourceMetadata {
        source_pattern: ArchiveSourcePattern::PublishSubscribe,
        source_service_id,
        source_instance_id: source_publisher_id,
        source_sequence,
    }
}

/// What appending a publish-subscribe record leaves behind.
pub open spec fn publish_subscribe_appended(
    recorder: RecorderModel,
    store: StoreModel,
    input: PublishSubscribeRecordInput<'_>,
    now_ns: u64,
) -> Outcome<RecordedCommit> {
    adapted_appended(
        recorder,
        store,
        publish_subscribe_source(
            input.source_service_id,
            input.source_publisher_id,
            input.source_sequence,
        ),
        input.event_time_ns,
        input.user_header@,
        input.payload@,
        now_ns,
    )
}

impl ArchiveRecorder {
    /// The sequence that the next adapted record gets.
    pub(crate) fn next_pattern_adapter_sequence(&self) -> (result: Result<
        u64,
        ArchiveRecorderError,
    >)
        ensures
            result == (match next_sequence(self@.state) {
                Some(sequence) => Ok::<u64, ArchiveRecorderError>(sequence),
                None => Err(
                    ArchiveRecorderError::InvalidConfiguration("archive sequence space exhausted"),
                ),
            }),
    {
        match self.state.last_sequence {
            Some(previous) => if previous == u64::MAX {
                Err(ArchiveRecorderError::InvalidConfiguration("archive sequence space exhausted"))
            } else {
                Ok(previous + 1)
            },
            None => Ok(1),
        }
    }

    /// Appends a record of a pattern adapter.
    pub(crate) fn append_adapted_record(
        &mut self,
        store: &mut ArchiveStore,
        source_metadata: ArchiveSourceMetadata,
        event_time_ns: u64,
        user_header: &[u8],
        payload: &[u8],
        now_ns: u64,
    ) -> (result: Result<RecordedCommit, ArchiveRecorderError>)
        requires
            old(self)@.accepts_calls(),
            104 + user_header@.len() + payload@.len() + 7 <= usize::MAX,
        ensures
            final(store).base() == old(store).base(),
            (Outcome { recorder: final(self)@, store: final(store)@, result }) == adapted_appended(
                old(self)@,
                old(store)@,
                source_metadata,
                event_time_ns,
                user_header@,
                payload@,
                now_ns,
            ),
    {
        let adapted = encode_adapter_user_header(source_metadata, user_header);
        let sequence: u64 = match self.next_pattern_adapter_sequence() {
            Ok(sequence) => sequence,
            Err(error) => {
                return Err(error);
            },
        };
        self.append_record_internal(
            store,
            RecordInput { sequence, event_time_ns, user_header: &adapted, payload },
            source_metadata,
            now_ns,
        )
    }

    /// Appends one publish-subscribe record through the canonical adapter contract.
    ///
    /// The persisted archive sequence is recorder-local and monotonic. Optional source-sequence
    /// metadata is preserved in the adapter user-header prefix. `now_ns` is the current time.
    pub fn append_publish_subscribe_record(
        &mut self,
        store: &mut ArchiveStore,
        input: PublishSubscribeRecordInput<'_>,
        now_ns: u64,
    ) -> (result: Result<RecordedCommit, ArchiveRecorderError>)
        requires
            old(self)@.accepts_calls(),
            104 + input.user_header@.len() + input.payload@.len() + 7 <= usize::MAX,
        ensures
            final(store).base() == old(store).base(),
            (Outcome { recorder: final(self)@, store: final(store)@, result })
                == publish_subscribe_appended(old(self)@, old(store)@, input, now_ns),
    {
        let source_metadata = ArchiveSourceMetadata {
            source_pattern: ArchiveSourcePattern::PublishSubscribe,
            source_service_id: input.source_service_id,
            source_instance_id: input.source_publisher_id,
            source_sequence: input.source_sequence,
        };
        self.append_adapted_record(
            store,
            source_metadata,
            input.event_time_ns,
            input.user_header,
            input.payload,
            now_ns,
        )
    }

    /// Appends one publish-subscribe record whose payload bytes are handed over.
    pub fn append_publish_subscribe_external_payload_record(
        &mut self,
        store: &mut ArchiveStore,
        input: PublishSubscribeExternalPayloadInput<'_>,
        now_ns: u64,
    ) -> (result: Result<RecordedCommit, ArchiveRecorderError>)
        requires
            old(self)@.accepts_calls(),
            104 + input.user_header@.len() + input.payload_owner@.len() + 7 <= usize::MAX,
        ensures
            final(store).base() == old(store).base(),
            (Outcome { recorder: final(self)@, store: final(store)@, result }) == adapted_appended(
                old(self)@,
                old(store)@,
                publish_subscribe_source(
                    input.source_service_id,
                    input.source_publisher_id,
                    input.source_sequence,
                ),
                input.event_time_ns,
                input.user_header@,
                input.payload_owner@,
                now_ns,
            ),
    {
        self.append_publish_subscribe_record(
            store,
            PublishSubscribeRecordInput {
                event_time_ns: input.event_time_ns,
                source_service_id: input.source_service_id,
                source_publisher_id: input.source_publisher_id,
                source_sequence: input.source_sequence,
                user_header: input.user_header,
                payload: input.payload_owner.as_slice(),
            },
            now_ns,
        )
    }

    /// Appends one publish-subscribe record and waits for the requested acknowledgment level.
    pub fn append_publish_subscribe_record_with_ack(
        &mut self,
        store: &mut ArchiveStore,
        input: PublishSubscribeRecordInput<'_>,
        requested_ack: RecorderAckLevel,
        timeout_ns: u128,
        now_ns: u64,
    ) -> (result: Result<RecordedCommit, ArchiveRecorderError>)
        requires
            old(self)@.accepts_calls(),
            104 + input.user_header@.len() + input.payload@.len() + 7 <= usize::MAX,
        ensures
            final(store).base() == old(store).base(),
            ({
                let appended = publish_subscribe_appended(old(self)@, old(store)@, input, now_ns);
                let outcome = Outcome { recorder: final(self)@, store: final(store)@, result };
                match appended.result {
                    Err(error) => outcome == appended,
                    Ok(commit) => {
                        let waited = ack_awaited(
                            appended.recorder,
                            appended.store,
                            commit,
                            requested_ack,
                            timeout_ns,
                        );
                        outcome == (Outcome {
                            recorder: waited.recorder,
                            store: waited.store,
                            result: match waited.result {
                                Ok(()) => Ok(commit),
                                Err(error) => Err(error),
                            },
                        })
                    },
                }
            }),
    {
        let commit = match self.append_publish_subscribe_record(store, input, now_ns) {
            Ok(commit) => commit,
            Err(error) => {
                return Err(error);
            },
        };
        match self.wait_for_ack(store, commit, requested_ack, timeout_ns) {
            Ok(()) => Ok(commit),
            Err(error) => Err(error),
        }
    }

    /// Waits for a requested acknowledgment level for an already recorded commit.
    pub fn wait_for_ack(
        &mut self,
        store: &mut ArchiveStore,
        commit: RecordedCommit,
        requested_ack: RecorderAckLevel,
        timeout_ns: u128,
    ) -> (result: Result<(), ArchiveRecorderError>)
        ensures
            final(store).base() == old(store).base(),
            (Outcome { recorder: final(self)@, store: final(store)@, result }) == ack_awaited(
                old(self)@,
                old(store)@,
                commit,
                requested_ack,
                timeout_ns,
            ),
    {
        if self.state.ack_satisfied(commit, requested_ack) {
            return Ok(());
        }
        if timeout_ns == 0 || self.state.config.persistence_mode == PersistenceMode::Volatile {
            return Err(self.state.ack_timeout_error(requested_ack, timeout_ns));
        }
        match self.sync_segment_for_locator(store, commit.locator) {
            Ok(()) => {},
            Err(error) => {
                return Err(error);
            },
        }
        self.state.note_durable_data(commit);
        if requested_ack == RecorderAckLevel::DurableDataAndCommitLog {
            match sync_commit_log_and_catalog(store) {
                Ok(()) => {},
                Err(error) => {
                    return Err(error);
                },
            }
            self.state.note_durable_commit_log(commit);
        }
        Ok(())
    }

    /// Waits for `DurableData` using the default timeout.
    pub fn wait_for_durable_data(&mut self, store: &mut ArchiveStore, commit: RecordedCommit) -> (
        result: Result<(), ArchiveRecorderError>)
        ensures
            final(store).base() == old(store).base(),
            (Outcome { recorder: final(self)@, store: final(store)@, result }) == ack_awaited(
                old(self)@,
                old(store)@,
                commit,
                RecorderAckLevel::DurableData,
                1_000_000_000,
            ),
    {
        self.wait_for_ack(
            store,
            commit,
            RecorderAckLevel::DurableData,
            DEFAULT_WAIT_DURABLE_DATA_TIMEOUT_MS as u128 * 1_000_000,
        )
    }

    /// Waits for `DurableDataAndCommitLog` using the default timeout.
    pub fn wait_for_durable_data_and_commit_log(
        &mut self,
        store: &mut ArchiveStore,
        commit: RecordedCommit,
    ) -> (result: Result<(), ArchiveRecorderError>)
        ensures
            final(store).base() == old(store).base(),
            (Outcome { recorder: final(self)@, store: final(store)@, result }) == ack_awaited(
                old(self)@,
                old(store)@,
                commit,
                RecorderAckLevel::DurableDataAndCommitLog,
                2_000_000_000,
            ),
    {
        self.wait_for_ack(
            store,
            commit,
            RecorderAckLevel::DurableDataAndCommitLog,
            DEFAULT_WAIT_DURABLE_DATA_AND_COMMIT_LOG_TIMEOUT_MS as u128 * 1_000_000,
        )
    }

    /// Syncs the segment that a locator names.
    fn sync_segment_for_locator(&self, store: &mut ArchiveStore, locator: ArchiveLocator) -> (
        result: Result<(), ArchiveRecorderError>)
        ensures
            final(store).base() == old(store).base(),
            (final(store)@, result) == segment_synced(self@.state, old(store)@, locator),
    {
        let mut active_matches = false;
        if let Some(disk) = self.state.disk {
            if let Some(active) = disk.active_segment {
                active_matches = active.segment_id == locator.segment_id
                    && active.segment_generation == locator.segment_generation;
            }
        }
        let missing = if active_matches {
            "sync durable data segment"
        } else {
            "open segment for durable data sync"
        };
        let file = ArchiveFile::SegmentData {
            tier: ArchiveSegmentTier::HotAttached,
            segment_id: locator.segment_id,
            segment_generation: locator.segment_generation,
        };
        sync_file(store, file, "sync durable data segment", missing)
    }

    /// Finalizes recorder output by sealing the active segment.
    pub fn finalize(&mut self, store: &mut ArchiveStore, now_ns: u64) -> (result: Result<
        (),
        ArchiveRecorderError,
    >)
        ensures
            final(store).base() == old(store).base(),
            (Outcome { recorder: final(self)@, store: final(store)@, result }) == finalized(
                old(self)@,
                old(store)@,
                now_ns,
            ),
    {
        if self.state.finalized {
            return Ok(());
        }
        if self.state.disk.is_some() {
            match self.seal_active_segment_internal(store, false, now_ns) {
                Ok(()) => {},
                Err(error) => {
                    return Err(error);
                },
            }
            match self.state.truncate_commit_log_to_logical_size(store) {
                Ok(()) => {},
                Err(error) => {
                    return Err(error);
                },
            }
        }
        self.state.finalized = true;
        Ok(())
    }

    /// Tells whether a record can be handed to the recorder: ordinals are left, and a recorder that
    /// writes files has an active segment, unless it refuses every record.
    pub fn is_ready(&self) -> (ready: bool)
        ensures
            ready == (self@.state.next_commit_ordinal < u64::MAX && (self@.state.disk is Some
                ==> self@.state.is_open() || self@.state.finalized || self@.state.degraded)),
    {
        if self.state.next_commit_ordinal == u64::MAX {
            return false;
        }
        match self.state.disk {
            Some(disk) => disk.active_segment.is_some() || self.state.finalized
                || self.state.degraded,
            None => true,
        }
    }

    /// Flushes recorder output streams. The store holds every write as soon as it is made, so
    /// nothing is left to hand on.
    pub fn flush(&mut self, store: &ArchiveStore) -> (result: Result<(), ArchiveRecorderError>)
        ensures
            result is Ok,
            final(self)@ == old(self)@,
    {
        Ok(())
    }

    /// Notes that carrying out a change of the store failed, and tells the error to report.
    pub fn handle_commit_write_failure(&mut self, error: ArchiveRecorderError) -> (reported:
        ArchiveRecorderError)
        ensures
            final(self)@.index == old(self)@.index,
            final(self)@.volatile == old(self)@.volatile,
            (final(self)@.state, reported) == write_failed(old(self)@.state, error),
    {
        self.state.handle_commit_write_failure(error)
    }

    /// Notes that a write to a path failed, and tells the error to report.
    pub fn handle_write_failure(&mut self, path: ArchivePath, source: IoFault) -> (result: Result<
        RecordedCommit,
        ArchiveRecorderError,
    >)
        ensures
            final(self)@.index == old(self)@.index,
            final(self)@.volatile == old(self)@.volatile,
            ({
                let (state, error) = write_failed(
                    old(self)@.state,
                    ArchiveRecorderError::Io { operation: "write active segment", path, source },
                );
                &&& final(self)@.state == state
                &&& result == Err::<RecordedCommit, ArchiveRecorderError>(error)
            }),
    {
        Err(
            self.state.handle_commit_write_failure(
                ArchiveRecorderError::Io { operation: "write active segment", path, source },
            ),
        )
    }

    /// A recorder with this state and index, and no volatile records.
    pub(crate) fn assembled(state: RecorderState, index_by_sequence: SequenceIndex) -> (recorder:
        ArchiveRecorder)
        ensures
            recorder@ == (RecorderModel {
                state,
                index: index_by_sequence@,
                volatile: Seq::empty(),
            }),
    {
        let recorder = ArchiveRecorder { state, index_by_sequence, volatile_records: Vec::new() };
        assert(recorder@.volatile =~= Seq::empty());
        recorder
    }

    /// Checks the cap on the commit logs.
    pub(crate) fn enforce_metadata_log_cap(&mut self, store: &ArchiveStore) -> (result: Result<
        (),
        ArchiveRecorderError,
    >)
        ensures
            (Outcome { recorder: final(self)@, store: store@, result }) == old(self)@.after(
                metadata_cap_enforced(old(self)@.state, store@),
            ),
    {
        self.state.enforce_metadata_log_cap(store)
    }

    /// The state, apart from the index and the volatile records.
    pub(crate) fn state(&self) -> (state: RecorderState)
        ensures
            state == self@.state,
    {
        self.state
    }

    /// Removes the sequences of a segment from the index.
    pub(crate) fn remove_sequence_index_for_segment(&mut self, summary: &SegmentSummary)
        ensures
            final(self)@ == (RecorderModel {
                index: without_range(
                    old(self)@.index,
                    summary.sequence_start,
                    summary.sequence_end,
                ),
                ..old(self)@
            }),
    {
        remove_sequence_range(
            &mut self.index_by_sequence,
            summary.sequence_start,
            summary.sequence_end,
        );
    }

    /// Returns current recorder stats.
    pub fn stats(&self) -> (stats: ArchiveRecorderStats)
        ensures
            stats == self@.state.stats,
    {
        self.state.stats
    }

    /// Returns startup recovery status.
    pub fn recovery_status(&self) -> (status: ArchiveRecoveryStatus)
        ensures
            status == self@.state.recovery_status,
    {
        self.state.recovery_status
    }

    /// Notes how long startup recovery took. The clock is read by whoever opens the recorder.
    pub fn note_recovery_duration(&mut self, duration_ns: u64)
        ensures
            final(self)@ == old(self)@.with_state(
                RecorderState {
                    recovery_status: ArchiveRecoveryStatus {
                        recovery_duration_ns: duration_ns,
                        ..old(self)@.state.recovery_status
                    },
                    ..old(self)@.state
                },
            ),
    {
        self.state.recovery_status.recovery_duration_ns = duration_ns;
    }

    /// Returns true when recorder entered degraded state.
    pub fn is_degraded(&self) -> (degraded: bool)
        ensures
            degraded == self@.state.degraded,
    {
        self.state.degraded
    }

    /// Returns effective persistence mode.
    pub fn persistence_mode(&self) -> (mode: PersistenceMode)
        ensures
            mode == self@.state.config.persistence_mode,
    {
        self.state.config.persistence_mode
    }

    /// Returns resolved recorder profile.
    pub fn profile(&self) -> (profile: RecorderProfile)
        ensures
            profile == self@.state.config.profile,
    {
        self.state.config.profile
    }

    /// Returns default acknowledgment level for append operations.
    pub fn default_ack_level(&self) -> (level: RecorderAckLevel)
        ensures
            level == (if self@.state.config.persistence_mode == PersistenceMode::Sync {
                RecorderAckLevel::DurableData
            } else {
                RecorderAckLevel::Accepted
            }),
    {
        match self.state.config.persistence_mode {
            PersistenceMode::Volatile | PersistenceMode::Async => RecorderAckLevel::Accepted,
            PersistenceMode::Sync => RecorderAckLevel::DurableData,
        }
    }

    /// Returns last known durable data sequence.
    pub fn last_durable_data_sequence(&self) -> (sequence: Option<u64>)
        ensures
            sequence == self@.state.last_durable_data_sequence,
    {
        self.state.last_durable_data_sequence
    }

    /// Returns last known durable commit-log ordinal.
    pub fn last_durable_commit_ordinal(&self) -> (ordinal: Option<u64>)
        ensures
            ordinal == self@.state.last_durable_commit_ordinal,
    {
        self.state.last_durable_commit_ordinal
    }

    /// Returns configured async backend preference.
    pub fn configured_async_io_backend(&self) -> (backend: AsyncIoBackend)
        ensures
            backend == self@.state.config.async_io_backend,
    {
        self.state.config.async_io_backend
    }

    /// Returns effective async backend selected at runtime.
    pub fn effective_async_io_backend(&self) -> (backend: EffectiveAsyncIoBackend)
        ensures
            backend == self@.state.effective_async_io_backend,
    {
        self.state.effective_async_io_backend
    }

    /// Returns effective segment size in bytes.
    pub fn segment_bytes(&self) -> (bytes: usize)
        ensures
            bytes == self@.state.config.segment_bytes,
    {
        self.state.config.segment_bytes
    }

    /// Returns configured io_uring queue depth.
    pub fn io_uring_queue_depth(&self) -> (depth: u32)
        ensures
            depth == self@.state.config.io_uring_queue_depth,
    {
        self.state.config.io_uring_queue_depth
    }

    /// Returns configured io_uring submission batch size.
    pub fn io_submit_batch_max(&self) -> (max: u32)
        ensures
            max == self@.state.config.io_submit_batch_max,
    {
        self.state.config.io_submit_batch_max
    }

    /// Returns configured io_uring completion batch size.
    pub fn io_cqe_batch_max(&self) -> (max: u32)
        ensures
            max == self@.state.config.io_cqe_batch_max,
    {
        self.state.config.io_cqe_batch_max
    }

    /// Returns configured metadata-log roll threshold in bytes.
    pub fn metadata_log_roll_bytes(&self) -> (bytes: u64)
        ensures
            bytes == self@.state.config.metadata_log_roll_bytes,
    {
        self.state.config.metadata_log_roll_bytes
    }

    /// Returns configured metadata-log global size cap in bytes.
    pub fn metadata_log_max_bytes(&self) -> (bytes: u64)
        ensures
            bytes == self@.state.config.metadata_log_max_bytes,
    {
        self.state.config.metadata_log_max_bytes
    }

    /// Returns configured retained-bytes cap across tiers.
    pub fn max_disk_bytes(&self) -> (bytes: Option<u64>)
        ensures
            bytes == self@.state.config.max_disk_bytes,
    {
        self.state.config.max_disk_bytes
    }
}

/// Syncs the commit log and the catalog.
fn sync_commit_log_and_catalog(store: &mut ArchiveStore) -> (result: Result<
    (),
    ArchiveRecorderError,
>)
    ensures
        final(store).base() == old(store).base(),
        (final(store)@, result) == logs_synced(old(store)@),
{
    match sync_file(
        store,
        ArchiveFile::CommitLog,
        "sync durable commit idxlog",
        "sync durable commit idxlog",
    ) {
        Ok(()) => {},
        Err(error) => {
            return Err(error);
        },
    }
    sync_file(store, ArchiveFile::Catalog, "sync durable catalog", "sync durable catalog")
}

} // verus!
