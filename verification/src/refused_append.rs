//! Appending a record while the disk refuses one of the changes.

use crate::adapter::{adapter_user_header, encode_adapter_user_header};
use crate::catalog::{following, header_written, next_number};
use crate::commit_entry::{encode_commit_entry, CommitEntry};
use crate::error::{ArchiveFile, ArchiveRecorderError};
use crate::frame::{hot_data, FrameInput};
use crate::header::{ArchiveFileKind, ARCHIVE_FILE_HEADER_V1_LEN};
use crate::recorder::{
    commit_counted, commit_settled, disk_appended, entry_room_keeps, entry_room_made,
    frame_written, memory_appended, next_sequence, publish_subscribe_source, record_appended,
    record_entry, refusal, retention_pass, sealed, sealed_keeps, segment_closed, summary_written,
    ArchiveRecorder, Outcome, RecordInput, RecordModel, RecorderModel, RetentionProgress,
};
use crate::retention::{retention, segment_states};
use crate::state::{
    bounded_sum, commit_log_rolled_if_needed, counted, file_error, file_fault, opened_segment,
    preallocation_counted, saturating_sum, segment_opened, spare_created, spares_created,
    write_failed, ActiveSegment, DiskRecorderState, RecorderState, Step,
};
use crate::store::{ArchiveStore, StoreModel};
use crate::types::{
    ArchiveRecorderStats, ArchiveSegmentTier, ArchiveSourceMetadata, ArchiveSourcePattern,
    PersistenceMode, PublishSubscribeRecordInput, RecordedCommit,
};
use vstd::prelude::*;

verus! {

/// A part of an append that changes files, in the order in which the parts come. Those up to
/// `Retention` come where the active segment is full.
#[derive(Debug, Clone, Copy, PartialEq, Eq, Structural)]
pub enum AppendStep {
    /// The full segment is synced and its summary file is written.
    SealSummary,
    /// The summary of the full segment is added to the catalog.
    SealCatalog,
    /// The file of the next segment is prepared.
    OpenSegment,
    /// Spare segments are prepared, of which some were already.
    SpareSegment {
        /// Spare segments that were prepared before.
        made: u64,
    },
    /// Old segments are detached and deleted, of which some were already considered.
    Retention {
        /// Segments that were considered before.
        considered: usize,
    },
    /// The frame is written to the active segment.
    Frame,
    /// The full commit log is synced and cut to its entries.
    TrimLog,
    /// The full commit log is moved away and the next one is started.
    RollLog,
    /// Room is reserved in the commit log.
    ReserveLog,
    /// The entry is written to the commit log.
    Entry,
    /// The files are synced.
    Sync,
}

/// A change that the disk refuses.
#[derive(Debug, Clone, Copy)]
pub struct RefusedChange {
    /// The part of the append that the change belongs to.
    pub step: AppendStep,
    /// What the disk says.
    pub error: ArchiveRecorderError,
}

/// What the disk says in this step, where it refuses a change of it.
pub open spec fn refused_in(change: Option<RefusedChange>, step: AppendStep) -> Option<
    ArchiveRecorderError,
> {
    match change {
        Some(refused) => if refused.step == step {
            Some(refused.error)
        } else {
            None
        },
        None => None,
    }
}

/// What the disk says in this step, where it refuses a change of it.
pub(crate) fn refusal_in(change: Option<RefusedChange>, step: AppendStep) -> (error: Option<
    ArchiveRecorderError,
>)
    ensures
        error == refused_in(change, step),
{
    match change {
        Some(refused) => if refused.step == step {
            Some(refused.error)
        } else {
            None
        },
        None => None,
    }
}

/// More bytes of metadata were written.
pub open spec fn metadata_counted(state: RecorderState, len: int) -> RecorderState {
    state.with_stats(
        ArchiveRecorderStats {
            metadata_bytes_written: saturating_sum(state.stats.metadata_bytes_written, len),
            ..state.stats
        },
    )
}

/// The summary of a sealed segment was written to its file and to the catalog.
pub open spec fn seal_counted(state: RecorderState) -> RecorderState {
    let noted = metadata_counted(metadata_counted(state, 164), 88);
    noted.with_stats(
        ArchiveRecorderStats {
            rolled_segments: counted(noted.stats.rolled_segments),
            ..noted.stats
        },
    )
}

/// Spare segments were prepared.
pub open spec fn spares_counted(state: RecorderState, made: u64) -> RecorderState {
    state.with_stats(
        ArchiveRecorderStats {
            preallocated_segments: saturating_sum(state.stats.preallocated_segments, made as int),
            ..state.stats
        },
    )
}

/// The recorder when a change of this step of sealing the active segment is refused, before the
/// next one is open.
pub open spec fn closing(state: RecorderState, step: AppendStep) -> Option<RecorderState> {
    let closed = state.with_active(None);
    match step {
        AppendStep::SealSummary => Some(closed),
        AppendStep::SealCatalog => Some(metadata_counted(closed, 164)),
        AppendStep::OpenSegment => Some(
            if state.disk->Some_0.active_segment->Some_0.records > 0 {
                seal_counted(closed)
            } else {
                closed
            },
        ),
        _ => None,
    }
}

/// The recorder when a spare segment is refused: the next segment is open.
pub open spec fn opening(
    state: RecorderState,
    store: StoreModel,
    made: u64,
    now_ns: u64,
) -> RecorderState {
    let active = state.disk->Some_0.active_segment->Some_0;
    let next = next_number(active.segment_id);
    let noted = closing(state, AppendStep::OpenSegment)->Some_0;
    let prepared = if state.config.segment_preallocate && !store.has(
        hot_data(next, state.config.segment_generation),
    ) {
        preallocation_counted(noted)
    } else {
        noted
    };
    spares_counted(prepared.with_active(Some(opened_segment(state.config, next, now_ns))), made)
}

/// The recorder and the store when the removal of an old segment is refused: what was considered
/// before is done.
pub open spec fn retaining(
    recorder: RecorderModel,
    store: StoreModel,
    considered: usize,
) -> (RecorderModel, StoreModel) {
    let state = recorder.state;
    match (state.config.max_disk_bytes, segment_states(state, store)) {
        (Some(cap), Ok(segments)) => {
            let done = retention_pass(
                state,
                cap,
                RetentionProgress {
                    index: recorder.index,
                    store,
                    retained: retention(state, store)->Ok_0.retained_bytes_total,
                },
                segments,
                if considered < segments.len() {
                    considered as int
                } else {
                    segments.len() as int
                },
            );
            (RecorderModel { index: done.index, ..recorder }, done.store)
        },
        _ => (recorder, store),
    }
}

/// The recorder and the store when a change of this step of sealing the active segment is refused.
/// There is none for a step that comes later. Until old segments are removed, the store is as it was
/// before the sealing.
pub open spec fn seal_refused(
    recorder: RecorderModel,
    store: StoreModel,
    now_ns: u64,
    step: AppendStep,
) -> Option<(RecorderModel, StoreModel)> {
    match step {
        AppendStep::SpareSegment { made } => Some(
            (recorder.with_state(opening(recorder.state, store, made, now_ns)), store),
        ),
        AppendStep::Retention { considered } => {
            let closed = segment_closed(recorder.state, store, true, now_ns);
            Some(retaining(recorder.with_state(closed.state), closed.store, considered))
        },
        _ => match closing(recorder.state, step) {
            Some(state) => Some((recorder.with_state(state), store)),
            None => None,
        },
    }
}

/// The active segment is sealed, where no change is refused on the way.
#[verifier::opaque]
pub open spec fn seal_attempted(
    recorder: RecorderModel,
    store: StoreModel,
    now_ns: u64,
    change: Option<RefusedChange>,
) -> Outcome<()> {
    match change {
        Some(refused) => match seal_refused(recorder, store, now_ns, refused.step) {
            Some((left, rest)) => Outcome {
                recorder: left,
                store: rest,
                result: Err(refused.error),
            },
            None => sealed(recorder, store, true, now_ns),
        },
        None => sealed(recorder, store, true, now_ns),
    }
}

/// Where sealing succeeds, the next segment is open and empty.
pub proof fn seal_attempted_keeps(
    recorder: RecorderModel,
    store: StoreModel,
    now_ns: u64,
    change: Option<RefusedChange>,
)
    requires
        recorder.state.wf(),
        recorder.state.is_open(),
    ensures
        ({
            let outcome = seal_attempted(recorder, store, now_ns, change);
            outcome.result is Ok ==> {
                &&& outcome.recorder.state.wf()
                &&& outcome.recorder.state.is_open()
                &&& outcome.recorder.state.config == recorder.state.config
                &&& outcome.recorder.state.disk->Some_0.active_segment->Some_0.write_offset == 76
            }
        }),
{
    reveal(seal_attempted);
    sealed_keeps(recorder, store, true, now_ns);
}

/// The next entry would pass the roll size.
pub open spec fn must_roll(state: RecorderState) -> bool {
    state.disk->Some_0.commit_log_write_offset + 104 > state.config.metadata_log_roll_bytes
}

/// The next entry would pass the reserved room.
pub open spec fn must_reserve(state: RecorderState) -> bool {
    state.disk->Some_0.commit_log_write_offset + 104
        > state.disk->Some_0.commit_log_preallocated_len
}

/// The commit log ends behind its last entry.
pub open spec fn log_trimmed(state: RecorderState) -> RecorderState {
    state.with_disk(
        DiskRecorderState {
            commit_log_preallocated_len: state.disk->Some_0.commit_log_write_offset,
            ..state.disk->Some_0
        },
    )
}

/// A write of the append fails: the recorder is degraded.
pub open spec fn write_refused<T>(
    state: RecorderState,
    store: StoreModel,
    error: ArchiveRecorderError,
) -> Step<T> {
    let (failed, reported) = write_failed(state, error);
    Step { state: failed, store, result: Err(reported) }
}

/// Room for one entry is made in the commit log, where no change is refused on the way.
pub open spec fn room_refused(
    state: RecorderState,
    store: StoreModel,
    now_ns: u64,
    change: Option<RefusedChange>,
) -> Step<bool> {
    let rolled = commit_log_rolled_if_needed(state, store, now_ns);
    if must_roll(state) && refused_in(change, AppendStep::TrimLog) is Some {
        Step { state, store, result: Err(refused_in(change, AppendStep::TrimLog)->Some_0) }
    } else if must_roll(state) && refused_in(change, AppendStep::RollLog) is Some {
        Step {
            state: log_trimmed(state),
            store,
            result: Err(refused_in(change, AppendStep::RollLog)->Some_0),
        }
    } else if rolled.result is Ok && must_reserve(rolled.state) && refused_in(
        change,
        AppendStep::ReserveLog,
    ) is Some {
        write_refused(
            rolled.state,
            rolled.store,
            refused_in(change, AppendStep::ReserveLog)->Some_0,
        )
    } else {
        entry_room_made(state, store, now_ns)
    }
}

/// The entry is written into the room that was made for it.
pub open spec fn entry_placed(state: RecorderState, store: StoreModel, entry: CommitEntry) -> Step<
    (),
> {
    let log = ArchiveFile::CommitLog;
    let disk = state.disk->Some_0;
    match store.write_fault(log, disk.commit_log_write_offset, 104) {
        Some(source) => write_refused(
            state,
            store,
            file_fault("append commit idxlog entry", log, source),
        ),
        None => Step {
            state: state.with_disk(
                DiskRecorderState {
                    commit_log_write_offset: (disk.commit_log_write_offset + 104) as u64,
                    ..disk
                },
            ),
            store: store.written(log, disk.commit_log_write_offset, entry.encoded()),
            result: Ok(()),
        },
    }
}

/// The entry is written to the commit log, where no change is refused on the way.
pub open spec fn entry_refused(
    state: RecorderState,
    store: StoreModel,
    entry: CommitEntry,
    now_ns: u64,
    change: Option<RefusedChange>,
) -> Step<()> {
    let room = room_refused(state, store, now_ns, change);
    match room.result {
        Err(error) => Step { state: room.state, store: room.store, result: Err(error) },
        Ok(_) => match refused_in(change, AppendStep::Entry) {
            Some(error) => write_refused(room.state, room.store, error),
            None => entry_placed(room.state, room.store, entry),
        },
    }
}

/// Making room for an entry keeps the state well-formed.
pub proof fn room_refused_keeps(
    state: RecorderState,
    store: StoreModel,
    now_ns: u64,
    change: Option<RefusedChange>,
)
    requires
        state.wf(),
        state.disk is Some,
    ensures
        ({
            let room = room_refused(state, store, now_ns, change).state;
            &&& room.wf()
            &&& room.disk is Some
            &&& room.config == state.config
        }),
{
    entry_room_keeps(state, store, now_ns);
}

/// A record is written to the active segment and the commit log, where no change is refused on the
/// way.
#[verifier::opaque]
pub open spec fn record_refused(
    recorder: RecorderModel,
    store: StoreModel,
    frame: FrameInput,
    source: ArchiveSourceMetadata,
    change: Option<RefusedChange>,
) -> Outcome<RecordedCommit> {
    let mode = recorder.state.config.checksum_mode;
    let data = frame.encoded(mode);
    if refused_in(change, AppendStep::Frame) is Some {
        recorder.after(
            write_refused(
                recorder.state,
                store,
                refused_in(change, AppendStep::Frame)->Some_0,
            ),
        )
    } else {
        let placed = frame_written(recorder.state, store, frame.sequence, data);
        match placed.result {
            Err(error) => Outcome {
                recorder: recorder.with_state(placed.state),
                store: placed.store,
                result: Err(error),
            },
            Ok(locator) => {
                let logged = entry_refused(
                    placed.state,
                    placed.store,
                    record_entry(frame, locator, frame.checksum(mode), source),
                    frame.commit_time_ns,
                    change,
                );
                let commit = RecordedCommit {
                    commit_ordinal: frame.commit_ordinal,
                    sequence: frame.sequence,
                    locator,
                };
                let committed = commit_counted(
                    recorder.with_state(logged.state),
                    commit,
                    frame.payload.len(),
                    data.len(),
                );
                match logged.result {
                    Err(error) => Outcome {
                        recorder: recorder.with_state(logged.state),
                        store: logged.store,
                        result: Err(error),
                    },
                    Ok(()) => if recorder.state.config.persistence_mode == PersistenceMode::Sync
                        && refused_in(change, AppendStep::Sync) is Some {
                        Outcome {
                            recorder: committed,
                            store: logged.store,
                            result: Err(refused_in(change, AppendStep::Sync)->Some_0),
                        }
                    } else {
                        commit_settled(committed, logged.store, commit)
                    },
                }
            },
        }
    }
}

/// The frame does not fit behind what the active segment holds.
pub open spec fn segment_full(state: RecorderState, frame: FrameInput) -> bool {
    state.disk->Some_0.active_segment->Some_0.write_offset + frame.frame_len()
        > state.config.segment_bytes
}

/// A record is appended to the files of the archive, where no change is refused on the way.
#[verifier::opaque]
pub open spec fn disk_append_refused(
    recorder: RecorderModel,
    store: StoreModel,
    frame: FrameInput,
    source: ArchiveSourceMetadata,
    change: Option<RefusedChange>,
) -> Outcome<RecordedCommit> {
    let config = recorder.state.config;
    let len = frame.frame_len();
    if len > config.segment_bytes - 76 {
        Outcome {
            recorder,
            store,
            result: Err(
                ArchiveRecorderError::FrameTooLarge {
                    required: len as usize,
                    segment_bytes: config.segment_bytes,
                },
            ),
        }
    } else if !segment_full(recorder.state, frame) {
        record_refused(recorder, store, frame, source, change)
    } else {
        let rolled = seal_attempted(recorder, store, frame.commit_time_ns, change);
        match rolled.result {
            Err(error) => Outcome {
                recorder: rolled.recorder,
                store: rolled.store,
                result: Err(error),
            },
            Ok(()) => record_refused(rolled.recorder, rolled.store, frame, source, change),
        }
    }
}

/// The recorder has given the next ordinal to the record.
pub open spec fn numbered(recorder: RecorderModel, sequence: u64) -> RecorderModel {
    recorder.with_state(
        RecorderState {
            next_commit_ordinal: next_number(recorder.state.next_commit_ordinal),
            last_sequence: Some(sequence),
            ..recorder.state
        },
    )
}

/// A record is appended while the disk refuses `change`. The store shows the changes of the steps
/// before and none of the step itself; the steps that seal a segment count as one for this, up to
/// the removal of old segments. A step that the append does not come to refuses nothing.
pub open spec fn append_refused(
    recorder: RecorderModel,
    store: StoreModel,
    record: RecordModel,
    source: ArchiveSourceMetadata,
    now_ns: u64,
    change: Option<RefusedChange>,
) -> Outcome<RecordedCommit> {
    match refusal(recorder.state, record.sequence) {
        Some(error) => Outcome { recorder, store, result: Err(error) },
        None => {
            let frame = record.frame(recorder.state.next_commit_ordinal, now_ns);
            if recorder.state.config.persistence_mode == PersistenceMode::Volatile {
                let (kept, commit) = memory_appended(numbered(recorder, record.sequence), frame);
                Outcome { recorder: kept, store, result: Ok(commit) }
            } else {
                disk_append_refused(
                    numbered(recorder, record.sequence),
                    store,
                    frame,
                    source,
                    change,
                )
            }
        },
    }
}

/// An append of which nothing is refused is an append.
pub proof fn nothing_refused(
    recorder: RecorderModel,
    store: StoreModel,
    record: RecordModel,
    source: ArchiveSourceMetadata,
    now_ns: u64,
)
    ensures
        append_refused(recorder, store, record, source, now_ns, None) == record_appended(
            recorder,
            store,
            record,
            source,
            now_ns,
        ),
{
    reveal(disk_appended);
    reveal(disk_append_refused);
    reveal(seal_attempted);
    reveal(record_refused);
}

/// The counts of committed records and the records in memory are the same.
pub open spec fn counts_kept(before: RecorderModel, after: RecorderModel) -> bool {
    &&& after.state.stats.committed_records == before.state.stats.committed_records
    &&& after.state.stats.payload_bytes_committed == before.state.stats.payload_bytes_committed
    &&& after.state.stats.data_bytes_written == before.state.stats.data_bytes_written
    &&& after.volatile == before.volatile
}

/// Preparing spare segments commits nothing.
proof fn spares_commit_nothing(
    state: RecorderState,
    store: StoreModel,
    segment_id: u64,
    end: u64,
    now_ns: u64,
)
    ensures
        ({
            let stats = spares_created(state, store, segment_id, end, now_ns).state.stats;
            &&& stats.committed_records == state.stats.committed_records
            &&& stats.payload_bytes_committed == state.stats.payload_bytes_committed
            &&& stats.data_bytes_written == state.stats.data_bytes_written
        }),
    decreases end - segment_id,
{
    if segment_id < end {
        let first = spare_created(state, store, segment_id, now_ns);
        if first.result is Ok {
            spares_commit_nothing(first.state, first.store, next_number(segment_id), end, now_ns);
        }
    }
}

/// Closing a segment and opening the next one commits nothing.
pub(crate) proof fn closing_commits_nothing(state: RecorderState, store: StoreModel, now_ns: u64)
    requires
        state.is_open(),
    ensures
        ({
            let stats = segment_closed(state, store, true, now_ns).state.stats;
            &&& stats.committed_records == state.stats.committed_records
            &&& stats.payload_bytes_committed == state.stats.payload_bytes_committed
            &&& stats.data_bytes_written == state.stats.data_bytes_written
        }),
{
    let active = state.disk->Some_0.active_segment->Some_0;
    let file = hot_data(active.segment_id, active.segment_generation);
    let closed = state.with_active(None);
    let synced = store.synced(file);
    let noted = if active.records > 0 {
        summary_written(closed, synced, active, now_ns)
    } else {
        Step { state: closed, store: synced, result: Ok(()) }
    };
    opening_commits_nothing(noted.state, noted.store, next_number(active.segment_id), now_ns);
}

/// Opening a segment commits nothing.
proof fn opening_commits_nothing(
    state: RecorderState,
    store: StoreModel,
    segment_id: u64,
    now_ns: u64,
)
    ensures
        ({
            let stats = segment_opened(state, store, segment_id, now_ns).state.stats;
            &&& stats.committed_records == state.stats.committed_records
            &&& stats.payload_bytes_committed == state.stats.payload_bytes_committed
            &&& stats.data_bytes_written == state.stats.data_bytes_written
        }),
{
    let config = state.config;
    let file = hot_data(segment_id, config.segment_generation);
    let created_new = !store.has(file);
    let placed = if created_new {
        store.with_empty(file)
    } else {
        store
    };
    let headed = header_written(
        placed,
        file,
        ArchiveFileKind::SegmentData,
        config.log_id@,
        segment_id,
        config.segment_generation,
        now_ns,
    ).0;
    let sized = if config.segment_preallocate {
        headed.with_len(file, config.segment_bytes as u64)
    } else {
        headed
    };
    let noted = if config.segment_preallocate && created_new {
        preallocation_counted(state)
    } else {
        state
    };
    let start = next_number(segment_id);
    spares_commit_nothing(
        noted.with_active(Some(opened_segment(config, segment_id, now_ns))),
        sized,
        start,
        saturating_sum(start, config.spare_preallocated_segments as int),
        now_ns,
    );
}

/// Sealing the active segment commits nothing, whatever is refused.
pub(crate) proof fn sealing_commits_nothing(
    recorder: RecorderModel,
    store: StoreModel,
    now_ns: u64,
    change: Option<RefusedChange>,
)
    requires
        recorder.state.is_open(),
    ensures
        counts_kept(recorder, seal_attempted(recorder, store, now_ns, change).recorder),
{
    reveal(seal_attempted);
    closing_commits_nothing(recorder.state, store, now_ns);
}

/// Writing a record commits it or nothing. Where the error comes after the record is committed, it
/// comes of syncing the files.
proof fn refused_record_commits_nothing(
    recorder: RecorderModel,
    store: StoreModel,
    frame: FrameInput,
    source: ArchiveSourceMetadata,
    change: Option<RefusedChange>,
)
    ensures
        ({
            let outcome = record_refused(recorder, store, frame, source, change);
            outcome.result is Err ==> {
                ||| counts_kept(recorder, outcome.recorder) && outcome.recorder.index
                    == recorder.index
                ||| recorder.state.config.persistence_mode == PersistenceMode::Sync
                    && outcome.recorder.state.stats.committed_records == counted(
                    recorder.state.stats.committed_records,
                ) && outcome.recorder.index.len() > 0 && outcome.recorder.index.last().0
                    == frame.sequence
            }
        }),
{
    reveal(record_refused);
    let mode = recorder.state.config.checksum_mode;
    let data = frame.encoded(mode);
    let placed = frame_written(recorder.state, store, frame.sequence, data);
    if placed.result is Ok {
        let entry = record_entry(frame, placed.result->Ok_0, frame.checksum(mode), source);
        refused_entry_keeps_counts(
            placed.state,
            placed.store,
            entry,
            frame.commit_time_ns,
            change,
        );
    }
}

/// Writing an entry counts no record.
proof fn refused_entry_keeps_counts(
    state: RecorderState,
    store: StoreModel,
    entry: CommitEntry,
    now_ns: u64,
    change: Option<RefusedChange>,
)
    ensures
        ({
            let after = entry_refused(state, store, entry, now_ns, change).state;
            &&& after.config == state.config
            &&& after.stats.committed_records == state.stats.committed_records
            &&& after.stats.payload_bytes_committed == state.stats.payload_bytes_committed
            &&& after.stats.data_bytes_written == state.stats.data_bytes_written
        }),
{
}

/// A record whose append fails is not counted, and it is not found by its sequence, unless the
/// error comes of syncing the files after the record was committed. This holds of whatever the disk
/// refuses. The ordinal of the record is used up.
pub proof fn failed_append_is_not_counted(
    recorder: RecorderModel,
    store: StoreModel,
    record: RecordModel,
    source: ArchiveSourceMetadata,
    now_ns: u64,
    change: Option<RefusedChange>,
)
    requires
        recorder.accepts_calls(),
        append_refused(recorder, store, record, source, now_ns, change).result is Err,
        refusal(recorder.state, record.sequence) is None,
    ensures
        ({
            let after = append_refused(recorder, store, record, source, now_ns, change).recorder;
            let frame = record.frame(recorder.state.next_commit_ordinal, now_ns);
            ||| {
                &&& counts_kept(recorder, after)
                &&& !segment_full(recorder.state, frame) ==> after.index == recorder.index
            }
            ||| {
                &&& recorder.state.config.persistence_mode == PersistenceMode::Sync
                &&& after.state.stats.committed_records == counted(
                    recorder.state.stats.committed_records,
                )
                &&& after.index.len() > 0 && after.index.last().0 == record.sequence
            }
        }),
{
    reveal(disk_append_refused);
    let frame = record.frame(recorder.state.next_commit_ordinal, now_ns);
    let given = numbered(recorder, record.sequence);
    if recorder.state.config.persistence_mode != PersistenceMode::Volatile {
        assert(given.state.is_open());
        refused_record_commits_nothing(given, store, frame, source, change);
        sealing_commits_nothing(given, store, now_ns, change);
        seal_attempted_keeps(given, store, now_ns, change);
        let rolled = seal_attempted(given, store, now_ns, change);
        refused_record_commits_nothing(rolled.recorder, rolled.store, frame, source, change);
    }
}

/// The append comes to writing its frame, with the active segment as it is.
pub open spec fn comes_to_frame(recorder: RecorderModel, record: RecordModel, now_ns: u64) -> bool {
    let frame = record.frame(recorder.state.next_commit_ordinal, now_ns);
    &&& refusal(recorder.state, record.sequence) is None
    &&& recorder.state.config.persistence_mode != PersistenceMode::Volatile
    &&& frame.frame_len() <= recorder.state.config.segment_bytes - 76
    &&& !segment_full(recorder.state, frame)
}

/// Where the disk refuses the frame, the recorder is degraded and nothing else of it has changed
/// but that the ordinal and the sequence are given: no record is counted, the index and the records
/// in memory are the same, and so is the store.
pub proof fn refused_frame_degrades(
    recorder: RecorderModel,
    store: StoreModel,
    record: RecordModel,
    source: ArchiveSourceMetadata,
    now_ns: u64,
    error: ArchiveRecorderError,
)
    requires
        comes_to_frame(recorder, record, now_ns),
    ensures
        ({
            let given = numbered(recorder, record.sequence);
            let (failed, reported) = write_failed(given.state, error);
            append_refused(
                recorder,
                store,
                record,
                source,
                now_ns,
                Some(RefusedChange { step: AppendStep::Frame, error }),
            ) == (Outcome {
                recorder: RecorderModel {
                    state: failed,
                    index: recorder.index,
                    volatile: recorder.volatile,
                },
                store,
                result: Err::<RecordedCommit, ArchiveRecorderError>(reported),
            })
        }),
{
    reveal(disk_append_refused);
    reveal(record_refused);
}

/// Where the disk refuses the entry, the recorder is degraded after the frame was written and room
/// was made in the commit log: no record is counted, and the index and the records in memory are
/// the same.
pub proof fn refused_entry_degrades(
    recorder: RecorderModel,
    store: StoreModel,
    record: RecordModel,
    source: ArchiveSourceMetadata,
    now_ns: u64,
    error: ArchiveRecorderError,
)
    requires
        comes_to_frame(recorder, record, now_ns),
        ({
            let frame = record.frame(recorder.state.next_commit_ordinal, now_ns);
            let placed = frame_written(
                numbered(recorder, record.sequence).state,
                store,
                record.sequence,
                frame.encoded(recorder.state.config.checksum_mode),
            );
            &&& placed.result is Ok
            &&& entry_room_made(placed.state, placed.store, now_ns).result is Ok
        }),
    ensures
        ({
            let frame = record.frame(recorder.state.next_commit_ordinal, now_ns);
            let placed = frame_written(
                numbered(recorder, record.sequence).state,
                store,
                record.sequence,
                frame.encoded(recorder.state.config.checksum_mode),
            );
            let room = entry_room_made(placed.state, placed.store, now_ns);
            let (failed, reported) = write_failed(room.state, error);
            append_refused(
                recorder,
                store,
                record,
                source,
                now_ns,
                Some(RefusedChange { step: AppendStep::Entry, error }),
            ) == (Outcome {
                recorder: RecorderModel {
                    state: failed,
                    index: recorder.index,
                    volatile: recorder.volatile,
                },
                store: room.store,
                result: Err::<RecordedCommit, ArchiveRecorderError>(reported),
            })
        }),
{
    reveal(disk_append_refused);
    reveal(record_refused);
}

/// A publish-subscribe record is appended while the disk refuses `change`.
pub open spec fn publish_subscribe_refused(
    recorder: RecorderModel,
    store: StoreModel,
    input: PublishSubscribeRecordInput<'_>,
    now_ns: u64,
    change: Option<RefusedChange>,
) -> Outcome<RecordedCommit> {
    let source = publish_subscribe_source(
        input.source_service_id,
        input.source_publisher_id,
        input.source_sequence,
    );
    match next_sequence(recorder.state) {
        None => Outcome {
            recorder,
            store,
            result: Err(
                ArchiveRecorderError::InvalidConfiguration("archive sequence space exhausted"),
            ),
        },
        Some(sequence) => append_refused(
            recorder,
            store,
            RecordModel {
                sequence,
                event_time_ns: input.event_time_ns,
                user_header: adapter_user_header(source, input.user_header@),
                payload: input.payload@,
            },
            source,
            now_ns,
            change,
        ),
    }
}

impl ArchiveRecorder {
    /// Appends one publish-subscribe record while the disk refuses a change of it. The recorder and
    /// the store are those from before the append: what it leaves is what the recorder is when the
    /// disk has carried out the changes that come before and has refused this one.
    pub fn append_publish_subscribe_record_refused(
        &mut self,
        store: &mut ArchiveStore,
        input: PublishSubscribeRecordInput<'_>,
        now_ns: u64,
        change: RefusedChange,
    ) -> (result: Result<RecordedCommit, ArchiveRecorderError>)
        requires
            old(self)@.accepts_calls(),
            104 + input.user_header@.len() + input.payload@.len() + 7 <= usize::MAX,
        ensures
            final(store).base() == old(store).base(),
            (Outcome { recorder: final(self)@, store: final(store)@, result })
                == publish_subscribe_refused(
                old(self)@,
                old(store)@,
                input,
                now_ns,
                Some(change),
            ),
    {
        let source_metadata = ArchiveSourceMetadata {
            source_pattern: ArchiveSourcePattern::PublishSubscribe,
            source_service_id: input.source_service_id,
            source_instance_id: input.source_publisher_id,
            source_sequence: input.source_sequence,
        };
        let adapted = encode_adapter_user_header(source_metadata, input.user_header);
        let sequence: u64 = match self.next_pattern_adapter_sequence() {
            Ok(sequence) => sequence,
            Err(error) => {
                return Err(error);
            },
        };
        self.append_record_refused(
            store,
            RecordInput {
                sequence,
                event_time_ns: input.event_time_ns,
                user_header: &adapted,
                payload: input.payload,
            },
            source_metadata,
            now_ns,
            Some(change),
        )
    }
}

impl RecorderState {
    /// Makes room for one entry in the commit log, unless a change is refused on the way.
    fn make_entry_room(
        &mut self,
        store: &mut ArchiveStore,
        now_ns: u64,
        change: Option<RefusedChange>,
    ) -> (result: Result<bool, ArchiveRecorderError>)
        requires
            old(self).wf(),
            old(self).disk is Some,
        ensures
            final(store).base() == old(store).base(),
            (Step { state: *final(self), store: final(store)@, result }) == room_refused(
                *old(self),
                old(store)@,
                now_ns,
                change,
            ),
    {
        let mut disk = match self.disk {
            Some(disk) => disk,
            None => {
                return Ok(false);
            },
        };
        if disk.commit_log_write_offset + 104 > self.config.metadata_log_roll_bytes {
            if let Some(error) = refusal_in(change, AppendStep::TrimLog) {
                return Err(error);
            }
            if let Some(error) = refusal_in(change, AppendStep::RollLog) {
                disk.commit_log_preallocated_len = disk.commit_log_write_offset;
                self.disk = Some(disk);
                return Err(error);
            }
        }
        match self.roll_commit_log_if_needed(store, now_ns) {
            Ok(()) => {},
            Err(error) => {
                return Err(error);
            },
        }
        if let Some(error) = refusal_in(change, AppendStep::ReserveLog) {
            if let Some(disk) = self.disk {
                if disk.commit_log_write_offset + 104 > disk.commit_log_preallocated_len {
                    return Err(self.handle_commit_write_failure(error));
                }
            }
        }
        let resized = match self.ensure_commit_log_capacity(store) {
            Ok(resized) => resized,
            Err(error) => {
                return Err(error);
            },
        };
        if resized {
            match self.enforce_metadata_log_cap(store) {
                Ok(()) => {},
                Err(error) => {
                    return Err(error);
                },
            }
        }
        Ok(resized)
    }

    /// Writes an entry to the commit log, unless a change is refused on the way.
    pub(crate) fn write_entry(
        &mut self,
        store: &mut ArchiveStore,
        entry: CommitEntry,
        now_ns: u64,
        change: Option<RefusedChange>,
    ) -> (result: Result<(), ArchiveRecorderError>)
        requires
            old(self).wf(),
            old(self).disk is Some,
        ensures
            final(store).base() == old(store).base(),
            (Step { state: *final(self), store: final(store)@, result }) == entry_refused(
                *old(self),
                old(store)@,
                entry,
                now_ns,
                change,
            ),
    {
        proof {
            room_refused_keeps(*self, store@, now_ns, change);
        }
        match self.make_entry_room(store, now_ns, change) {
            Ok(_) => {},
            Err(error) => {
                return Err(error);
            },
        }
        if let Some(error) = refusal_in(change, AppendStep::Entry) {
            return Err(self.handle_commit_write_failure(error));
        }
        if let Some(disk) = self.disk {
            let bytes = encode_commit_entry(entry);
            let offset: u64 = disk.commit_log_write_offset;
            match store.write_at(
                ArchiveFile::CommitLog,
                offset,
                &bytes,
                "append commit idxlog entry",
            ) {
                Ok(()) => {},
                Err(source) => {
                    return Err(
                        self.handle_commit_write_failure(
                            file_error(
                                "append commit idxlog entry",
                                ArchiveFile::CommitLog,
                                source,
                            ),
                        ),
                    );
                },
            }
            self.disk =
            Some(DiskRecorderState { commit_log_write_offset: offset + 104, ..disk });
        }
        Ok(())
    }

    /// The state when a change of this step of closing the active segment is refused.
    pub(crate) fn while_closing(self, step: AppendStep) -> (state: Option<RecorderState>)
        requires
            self.is_open(),
        ensures
            state == closing(self, step),
    {
        let mut state = self;
        let mut records: u64 = 0;
        if let Some(disk) = self.disk {
            if let Some(active) = disk.active_segment {
                records = active.records;
            }
            state.disk = Some(DiskRecorderState { active_segment: None, ..disk });
        }
        let written: u64 = state.stats.metadata_bytes_written;
        match step {
            AppendStep::SealSummary => Some(state),
            AppendStep::SealCatalog => {
                state.stats.metadata_bytes_written = bounded_sum(written, 164);
                Some(state)
            },
            AppendStep::OpenSegment => {
                if records > 0 {
                    state.stats.metadata_bytes_written = bounded_sum(bounded_sum(written, 164), 88);
                    state.stats.rolled_segments = following(state.stats.rolled_segments);
                }
                Some(state)
            },
            _ => None,
        }
    }

    /// The state when a spare segment is refused.
    pub(crate) fn while_opening(self, store: &ArchiveStore, made: u64, now_ns: u64) -> (state:
        RecorderState)
        requires
            self.is_open(),
        ensures
            state == opening(self, store@, made, now_ns),
    {
        let mut state = match self.while_closing(AppendStep::OpenSegment) {
            Some(state) => state,
            None => self,
        };
        if let Some(disk) = self.disk {
            if let Some(active) = disk.active_segment {
                let next: u64 = following(active.segment_id);
                let file = ArchiveFile::SegmentData {
                    tier: ArchiveSegmentTier::HotAttached,
                    segment_id: next,
                    segment_generation: self.config.segment_generation,
                };
                if self.config.segment_preallocate && !store.contains(file) {
                    state.stats.preallocated_segments =
                    following(state.stats.preallocated_segments);
                }
                state.disk =
                Some(
                    DiskRecorderState {
                        active_segment: Some(
                            ActiveSegment {
                                segment_id: next,
                                segment_generation: self.config.segment_generation,
                                created_at_ns: now_ns,
                                write_offset: ARCHIVE_FILE_HEADER_V1_LEN as u64,
                                sequence_start: None,
                                sequence_end: None,
                                records: 0,
                            },
                        ),
                        ..disk
                    },
                );
            }
        }
        state.stats.preallocated_segments = bounded_sum(state.stats.preallocated_segments, made);
        state
    }
}

} // verus!
