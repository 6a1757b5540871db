//! The state of a recorder, and the steps that change it together with the store.

use crate::catalog::{
    following, header_written, next_number, preallocate_metadata_log, preallocated,
    write_archive_header,
};
use crate::commit_log::{commit_logs, is_rolled_list, list_commit_logs, rolled_indexes};
use crate::error::{ArchiveFile, ArchivePath, ArchiveRecorderError, IoFault};
use crate::frame::hot_data;
use crate::header::{ArchiveFileKind, ARCHIVE_FILE_HEADER_V1_LEN};
use crate::store::{ArchiveStore, StoreModel, MAX_FILE_LEN};
use crate::types::{
    ArchiveRecorderStats, ArchiveRecoveryStatus, ArchiveSegmentTier, AsyncIoBackend, ChecksumMode,
    EffectiveAsyncIoBackend, OutOfSpacePolicy, PersistenceMode, RecordedCommit, RecorderAckLevel,
    RecorderProfile,
};
use vstd::prelude::*;

verus! {

/// The error number that the operating system reports when no space is left.
pub const NO_SPACE_LEFT: i32 = 28;

/// What a recorder was configured with.
#[derive(Debug, Clone, Copy)]
pub struct RecorderConfig {
    /// Profile that the defaults came from.
    pub profile: RecorderProfile,
    /// Size of a segment file.
    pub segment_bytes: usize,
    /// Segments get their full size when they are opened.
    pub segment_preallocate: bool,
    /// Number of segments that are prepared ahead.
    pub spare_preallocated_segments: usize,
    /// Number of entries for which room is reserved in the commit log at a time.
    pub metadata_log_preallocate_entries: usize,
    /// Durability mode.
    pub persistence_mode: PersistenceMode,
    /// Requested backend.
    pub async_io_backend: AsyncIoBackend,
    /// Depth of the ring.
    pub io_uring_queue_depth: u32,
    /// Most submissions per batch.
    pub io_submit_batch_max: u32,
    /// Most completions per batch.
    pub io_cqe_batch_max: u32,
    /// Files are registered with the ring.
    pub io_uring_register_files: bool,
    /// Checksum strategy.
    pub checksum_mode: ChecksumMode,
    /// What happens when no space is left.
    pub out_of_space_policy: OutOfSpacePolicy,
    /// Cap on retained bytes.
    pub max_disk_bytes: Option<u64>,
    /// Size at which the commit log is rolled.
    pub metadata_log_roll_bytes: u64,
    /// Cap on the size of all commit logs.
    pub metadata_log_max_bytes: u64,
    /// Identity of the log.
    pub log_id: [u8; 16],
    /// Generation of the segments.
    pub segment_generation: u32,
}

/// The segment that records are appended to.
#[derive(Debug, Clone, Copy)]
pub struct ActiveSegment {
    /// Segment id.
    pub segment_id: u64,
    /// Segment generation.
    pub segment_generation: u32,
    /// When the segment was opened.
    pub created_at_ns: u64,
    /// Where the next frame goes.
    pub write_offset: u64,
    /// First sequence in the segment.
    pub sequence_start: Option<u64>,
    /// Last sequence in the segment.
    pub sequence_end: Option<u64>,
    /// Number of records.
    pub records: u64,
}

/// What a persisting recorder keeps of its files.
#[derive(Debug, Clone, Copy)]
pub struct DiskRecorderState {
    /// Where the next commit entry goes.
    pub commit_log_write_offset: u64,
    /// Length up to which the commit log is reserved.
    pub commit_log_preallocated_len: u64,
    /// Index of the next rolled commit log.
    pub commit_log_roll_index: u64,
    /// The segment that records are appended to.
    pub active_segment: Option<ActiveSegment>,
}

/// The state of a recorder, apart from its index and its volatile records.
#[derive(Debug, Clone, Copy)]
pub struct RecorderState {
    /// Configuration.
    pub config: RecorderConfig,
    /// Backend in use.
    pub effective_async_io_backend: EffectiveAsyncIoBackend,
    /// State of the files, where records are persisted.
    pub disk: Option<DiskRecorderState>,
    /// Counters.
    pub stats: ArchiveRecorderStats,
    /// What startup recovery did.
    pub recovery_status: ArchiveRecoveryStatus,
    /// Ordinal of the next commit.
    pub next_commit_ordinal: u64,
    /// Sequence of the last record.
    pub last_sequence: Option<u64>,
    /// Last sequence whose data is durable.
    pub last_durable_data_sequence: Option<u64>,
    /// Last ordinal whose commit entry is durable.
    pub last_durable_commit_ordinal: Option<u64>,
    /// No more records are accepted.
    pub finalized: bool,
    /// A write failed.
    pub degraded: bool,
}

/// A state, a store and a result: what a step leaves behind.
pub struct Step<T> {
    pub state: RecorderState,
    pub store: StoreModel,
    pub result: Result<T, ArchiveRecorderError>,
}

/// The counter after one more event. It stays at the end of its range.
pub open spec fn counted(x: u64) -> u64 {
    next_number(x)
}

/// The sum, or the end of the range.
pub open spec fn saturating_sum(x: u64, y: int) -> u64 {
    if x + y > u64::MAX {
        u64::MAX
    } else {
        (x + y) as u64
    }
}

/// The sum, or the end of the range.
pub fn bounded_sum(x: u64, y: u64) -> (sum: u64)
    ensures
        sum == saturating_sum(x, y as int),
{
    if y > u64::MAX - x {
        u64::MAX
    } else {
        x + y
    }
}

/// A failed operation on a file.
pub open spec fn file_fault(
    operation: &'static str,
    file: ArchiveFile,
    source: IoFault,
) -> ArchiveRecorderError {
    ArchiveRecorderError::Io { operation, path: ArchivePath::File(file), source }
}

/// A failed operation on a file.
pub fn file_error(operation: &'static str, file: ArchiveFile, source: IoFault) -> (error:
    ArchiveRecorderError)
    ensures
        error == file_fault(operation, file, source),
{
    ArchiveRecorderError::Io { operation, path: ArchivePath::File(file), source }
}

/// What creating a file makes of a store, and what comes of it.
pub open spec fn file_created(store: StoreModel, file: ArchiveFile) -> (
    StoreModel,
    Result<(), ArchiveRecorderError>,
) {
    if store.has(file) {
        (store, Err(file_fault("create file", file, IoFault::AlreadyExists)))
    } else {
        (store.with_empty(file), Ok(()))
    }
}

/// Creates a file that must not be there yet.
pub fn create_new_file(store: &mut ArchiveStore, file: ArchiveFile) -> (result: Result<
    (),
    ArchiveRecorderError,
>)
    ensures
        final(store).base() == old(store).base(),
        (final(store)@, result) == file_created(old(store)@, file),
{
    match store.create_new(file, "create file") {
        Ok(()) => Ok(()),
        Err(source) => Err(file_error("create file", file, source)),
    }
}

impl RecorderConfig {
    /// The configuration has the bounds that a built configuration has.
    pub open spec fn wf(self) -> bool {
        &&& self.segment_bytes > 148
        &&& self.metadata_log_roll_bytes >= 180
        &&& self.metadata_log_preallocate_entries > 0
    }
}

impl RecorderState {
    /// The offsets lie within their files, and the state fits the durability mode.
    pub open spec fn wf(self) -> bool {
        &&& self.config.wf()
        &&& (self.config.persistence_mode == PersistenceMode::Volatile <==> self.disk is None)
        &&& match self.disk {
            None => true,
            Some(disk) => {
                &&& 76 <= disk.commit_log_write_offset <= MAX_FILE_LEN
                &&& match disk.active_segment {
                    None => true,
                    Some(active) => 76 <= active.write_offset <= self.config.segment_bytes,
                }
            },
        }
    }

    /// The state with another state of the files.
    pub open spec fn with_disk(self, disk: DiskRecorderState) -> RecorderState {
        RecorderState { disk: Some(disk), ..self }
    }

    /// The state with another active segment.
    pub open spec fn with_active(self, active: Option<ActiveSegment>) -> RecorderState {
        self.with_disk(DiskRecorderState { active_segment: active, ..self.disk->Some_0 })
    }

    /// The state with other counters.
    pub open spec fn with_stats(self, stats: ArchiveRecorderStats) -> RecorderState {
        RecorderState { stats, ..self }
    }

    /// Records can be appended to an active segment.
    pub open spec fn is_open(self) -> bool {
        self.disk is Some && self.disk->Some_0.active_segment is Some
    }
}

/// The segment that is opened, before anything is written to it.
pub open spec fn opened_segment(
    config: RecorderConfig,
    segment_id: u64,
    now_ns: u64,
) -> ActiveSegment {
    ActiveSegment {
        segment_id,
        segment_generation: config.segment_generation,
        created_at_ns: now_ns,
        write_offset: 76,
        sequence_start: None,
        sequence_end: None,
        records: 0,
    }
}

/// The state after one more segment file was preallocated.
pub open spec fn preallocation_counted(state: RecorderState) -> RecorderState {
    state.with_stats(
        ArchiveRecorderStats {
            preallocated_segments: counted(state.stats.preallocated_segments),
            ..state.stats
        },
    )
}

/// One spare segment is prepared, unless its file is there.
pub open spec fn spare_created(
    state: RecorderState,
    store: StoreModel,
    segment_id: u64,
    now_ns: u64,
) -> Step<()> {
    let file = hot_data(segment_id, state.config.segment_generation);
    if store.has(file) {
        Step { state, store, result: Ok(()) }
    } else {
        let (headed, result) = header_written(
            store.with_empty(file),
            file,
            ArchiveFileKind::SegmentData,
            state.config.log_id@,
            segment_id,
            state.config.segment_generation,
            now_ns,
        );
        match result {
            Err(error) => Step { state, store: headed, result: Err(error) },
            Ok(()) => match headed.resize_fault(file, state.config.segment_bytes as u64) {
                Some(source) => Step {
                    state,
                    store: headed,
                    result: Err(file_fault("preallocate spare segment", file, source)),
                },
                None => Step {
                    state: preallocation_counted(state),
                    store: headed.with_len(file, state.config.segment_bytes as u64),
                    result: Ok(()),
                },
            },
        }
    }
}

/// The spare segments from `segment_id` up to `end` are prepared in order.
pub open spec fn spares_created(
    state: RecorderState,
    store: StoreModel,
    segment_id: u64,
    end: u64,
    now_ns: u64,
) -> Step<()>
    decreases end - segment_id,
{
    if segment_id >= end {
        Step { state, store, result: Ok(()) }
    } else {
        let first = spare_created(state, store, segment_id, now_ns);
        match first.result {
            Err(error) => first,
            Ok(()) => spares_created(
                first.state,
                first.store,
                next_number(segment_id),
                end,
                now_ns,
            ),
        }
    }
}

/// The spare segments behind `start` are prepared, where the configuration asks for them.
pub open spec fn all_spares_created(
    state: RecorderState,
    store: StoreModel,
    start: u64,
    now_ns: u64,
) -> Step<()> {
    if !state.config.segment_preallocate || state.config.spare_preallocated_segments == 0 {
        Step { state, store, result: Ok(()) }
    } else {
        spares_created(
            state,
            store,
            start,
            saturating_sum(start, state.config.spare_preallocated_segments as int),
            now_ns,
        )
    }
}

/// The file of a segment gets its header and its size and becomes the active one. A file that
/// was prepared ahead is taken over.
pub open spec fn segment_opened(
    state: RecorderState,
    store: StoreModel,
    segment_id: u64,
    now_ns: u64,
) -> Step<()> {
    let file = hot_data(segment_id, state.config.segment_generation);
    let created_new = !store.has(file);
    let placed = if created_new {
        store.with_empty(file)
    } else {
        store
    };
    let (headed, result) = header_written(
        placed,
        file,
        ArchiveFileKind::SegmentData,
        state.config.log_id@,
        segment_id,
        state.config.segment_generation,
        now_ns,
    );
    let len = state.config.segment_bytes as u64;
    match result {
        Err(error) => Step { state, store: headed, result: Err(error) },
        Ok(()) => if state.config.segment_preallocate && headed.resize_fault(file, len) is Some {
            Step {
                state,
                store: headed,
                result: Err(
                    file_fault(
                        "preallocate active segment",
                        file,
                        headed.resize_fault(file, len)->Some_0,
                    ),
                ),
            }
        } else {
            let sized = if state.config.segment_preallocate {
                headed.with_len(file, len)
            } else {
                headed
            };
            let noted = if state.config.segment_preallocate && created_new {
                preallocation_counted(state)
            } else {
                state
            };
            all_spares_created(
                noted.with_active(Some(opened_segment(state.config, segment_id, now_ns))),
                sized,
                next_number(segment_id),
                now_ns,
            )
        },
    }
}

/// Preparing spare segments changes nothing of the state but a counter.
pub proof fn spares_keep_state(
    state: RecorderState,
    store: StoreModel,
    segment_id: u64,
    end: u64,
    now_ns: u64,
)
    ensures
        spares_created(state, store, segment_id, end, now_ns).state == state.with_stats(
            spares_created(state, store, segment_id, end, now_ns).state.stats,
        ),
    decreases end - segment_id,
{
    if segment_id < end {
        let first = spare_created(state, store, segment_id, now_ns);
        if first.result is Ok {
            spares_keep_state(first.state, first.store, next_number(segment_id), end, now_ns);
        }
    }
}

/// The state after a write failed with `error`, and the error that is reported.
pub open spec fn write_failed(state: RecorderState, error: ArchiveRecorderError) -> (
    RecorderState,
    ArchiveRecorderError,
) {
    let failed = RecorderState { degraded: true, ..state };
    match error {
        ArchiveRecorderError::Io { operation, path, source } => if source == IoFault::Os(
            NO_SPACE_LEFT,
        ) {
            (
                failed.with_stats(
                    ArchiveRecorderStats {
                        out_of_space_events: counted(state.stats.out_of_space_events),
                        ..state.stats
                    },
                ),
                ArchiveRecorderError::OutOfSpace(path),
            )
        } else {
            (failed, error)
        },
        _ => (failed, error),
    }
}

/// The total length of the first `n` logs.
pub open spec fn logs_len(store: StoreModel, logs: Seq<ArchiveFile>, n: int) -> u64
    decreases n,
{
    if n <= 0 {
        0
    } else {
        saturating_sum(logs_len(store, logs, n - 1), store.bytes(logs[n - 1]).len() as int)
    }
}

/// The total length of the commit logs.
pub open spec fn metadata_bytes(store: StoreModel) -> u64 {
    logs_len(store, commit_logs(store), commit_logs(store).len() as int)
}

/// The cap on the commit logs is checked. A recorder that exceeds it is degraded.
pub open spec fn metadata_cap_enforced(state: RecorderState, store: StoreModel) -> Step<()> {
    if state.config.persistence_mode == PersistenceMode::Volatile || metadata_bytes(store)
        <= state.config.metadata_log_max_bytes {
        Step { state, store, result: Ok(()) }
    } else {
        Step {
            state: RecorderState { degraded: true, ..state },
            store,
            result: Err(
                ArchiveRecorderError::MetadataLogCapacityExceeded {
                    max_bytes: state.config.metadata_log_max_bytes,
                    required_bytes: metadata_bytes(store),
                },
            ),
        }
    }
}

/// The reserved room behind the last entry of the commit log is given up.
pub open spec fn commit_log_truncated(state: RecorderState, store: StoreModel) -> Step<()> {
    match state.disk {
        None => Step { state, store, result: Ok(()) },
        Some(disk) => match store.resize_fault(
            ArchiveFile::CommitLog,
            disk.commit_log_write_offset,
        ) {
            Some(source) => Step {
                state,
                store,
                result: Err(
                    file_fault(
                        "truncate commit idxlog to logical size",
                        ArchiveFile::CommitLog,
                        source,
                    ),
                ),
            },
            None => Step {
                state: state.with_disk(
                    DiskRecorderState {
                        commit_log_preallocated_len: disk.commit_log_write_offset,
                        ..disk
                    },
                ),
                store: store.with_len(ArchiveFile::CommitLog, disk.commit_log_write_offset),
                result: Ok(()),
            },
        },
    }
}

/// The first index from `index` on that no rolled commit log has.
pub open spec fn free_roll_index(store: StoreModel, index: u64) -> Option<u64>
    decreases u64::MAX - index,
{
    if !store.has(ArchiveFile::RolledCommitLog { index }) {
        Some(index)
    } else if index == u64::MAX {
        None
    } else {
        free_roll_index(store, (index + 1) as u64)
    }
}

/// The active commit log is moved to a rolled one and a new one is started.
pub open spec fn commit_log_rolled(
    state: RecorderState,
    store: StoreModel,
    now_ns: u64,
) -> Step<()> {
    let log = ArchiveFile::CommitLog;
    if !store.has(log) {
        Step {
            state,
            store,
            result: Err(
                file_fault("sync commit idxlog before roll", log, IoFault::NotFound),
            ),
        }
    } else {
        let cut = commit_log_truncated(state, store.synced(log));
        match (cut.result, free_roll_index(cut.store, cut.state.disk->Some_0.commit_log_roll_index))
        {
            (Err(error), _) => cut,
            (Ok(()), None) => Step {
                result: Err(file_fault("roll commit idxlog file", log, IoFault::AlreadyExists)),
                ..cut
            },
            (Ok(()), Some(index)) => {
                let moved = cut.store.moved(log, ArchiveFile::RolledCommitLog { index });
                let (headed, result) = header_written(
                    moved.with_empty(log),
                    log,
                    ArchiveFileKind::CommitIdxLog,
                    state.config.log_id@,
                    0,
                    0,
                    now_ns,
                );
                match result {
                    Err(error) => Step { state: cut.state, store: headed, result: Err(error) },
                    Ok(()) => {
                        let (reserved, len) = preallocated(
                            headed,
                            76,
                            state.config.metadata_log_preallocate_entries,
                            state.config.metadata_log_roll_bytes,
                        );
                        match len {
                            Err(error) => Step {
                                state: cut.state,
                                store: reserved,
                                result: Err(error),
                            },
                            Ok(len) => {
                                let rolled = cut.state.with_disk(
                                    DiskRecorderState {
                                        commit_log_write_offset: 76,
                                        commit_log_preallocated_len: len,
                                        commit_log_roll_index: next_number(index),
                                        ..cut.state.disk->Some_0
                                    },
                                );
                                metadata_cap_enforced(
                                    rolled.with_stats(
                                        ArchiveRecorderStats {
                                            metadata_log_rolls: counted(
                                                rolled.stats.metadata_log_rolls,
                                            ),
                                            ..rolled.stats
                                        },
                                    ),
                                    reserved,
                                )
                            },
                        }
                    },
                }
            },
        }
    }
}

/// The commit log is rolled where the next entry would pass the roll size.
pub open spec fn commit_log_rolled_if_needed(
    state: RecorderState,
    store: StoreModel,
    now_ns: u64,
) -> Step<()> {
    if state.disk->Some_0.commit_log_write_offset + 104 > state.config.metadata_log_roll_bytes {
        commit_log_rolled(state, store, now_ns)
    } else {
        Step { state, store, result: Ok(()) }
    }
}

/// Room for the next entry is reserved in the commit log. Tells whether the log was resized.
pub open spec fn commit_log_ensured(state: RecorderState, store: StoreModel) -> Step<bool> {
    let disk = state.disk->Some_0;
    let required = disk.commit_log_write_offset + 104;
    if required <= disk.commit_log_preallocated_len {
        Step { state, store, result: Ok(false) }
    } else {
        let (reserved, len) = preallocated(
            store,
            required as u64,
            state.config.metadata_log_preallocate_entries,
            state.config.metadata_log_roll_bytes,
        );
        match len {
            Err(error) => {
                let (failed, reported) = write_failed(state, error);
                Step { state: failed, store: reserved, result: Err(reported) }
            },
            Ok(len) => Step {
                state: state.with_disk(
                    DiskRecorderState { commit_log_preallocated_len: len, ..disk },
                ),
                store: reserved,
                result: Ok(true),
            },
        }
    }
}

/// The larger of a value and what is kept, if anything is.
pub open spec fn raised(kept: Option<u64>, value: u64) -> Option<u64> {
    match kept {
        Some(old_value) if old_value > value => Some(old_value),
        _ => Some(value),
    }
}

/// The data of a commit is known to be durable.
pub open spec fn data_durable(state: RecorderState, commit: RecordedCommit) -> RecorderState {
    RecorderState {
        last_durable_data_sequence: raised(state.last_durable_data_sequence, commit.sequence),
        ..state
    }
}

/// The data and the entry of a commit are known to be durable.
pub open spec fn commit_durable(state: RecorderState, commit: RecordedCommit) -> RecorderState {
    RecorderState {
        last_durable_commit_ordinal: raised(
            state.last_durable_commit_ordinal,
            commit.commit_ordinal,
        ),
        ..data_durable(state, commit)
    }
}

/// What is known to be durable reaches `value`.
pub open spec fn reaches(kept: Option<u64>, value: u64) -> bool {
    kept is Some && kept->Some_0 >= value
}

/// The requested acknowledgment holds of the commit.
pub open spec fn acknowledged(
    state: RecorderState,
    commit: RecordedCommit,
    requested: RecorderAckLevel,
) -> bool {
    match requested {
        RecorderAckLevel::Accepted => true,
        RecorderAckLevel::DurableData => reaches(
            state.last_durable_data_sequence,
            commit.sequence,
        ),
        RecorderAckLevel::DurableDataAndCommitLog => reaches(
            state.last_durable_data_sequence,
            commit.sequence,
        ) && reaches(state.last_durable_commit_ordinal, commit.commit_ordinal),
    }
}

/// A file is synced.
pub open spec fn file_synced(
    store: StoreModel,
    file: ArchiveFile,
    operation: &'static str,
    missing: &'static str,
) -> (StoreModel, Result<(), ArchiveRecorderError>) {
    if store.has(file) {
        (store.synced(file), Ok(()))
    } else {
        (store, Err(file_fault(missing, file, IoFault::NotFound)))
    }
}

impl RecorderState {
    /// Notes a failed write and tells the error to report.
    pub fn handle_commit_write_failure(&mut self, error: ArchiveRecorderError) -> (reported:
        ArchiveRecorderError)
        ensures
            (*final(self), reported) == write_failed(*old(self), error),
    {
        self.degraded = true;
        match error {
            ArchiveRecorderError::Io { operation, path, source } => {
                if source == IoFault::Os(NO_SPACE_LEFT) {
                    self.stats.out_of_space_events = following(self.stats.out_of_space_events);
                    return match self.config.out_of_space_policy {
                        OutOfSpacePolicy::FailWriter => ArchiveRecorderError::OutOfSpace(path),
                    };
                }
                ArchiveRecorderError::Io { operation, path, source }
            },
            other => other,
        }
    }

    /// Checks the cap on the commit logs.
    pub fn enforce_metadata_log_cap(&mut self, store: &ArchiveStore) -> (result: Result<
        (),
        ArchiveRecorderError,
    >)
        ensures
            (Step { state: *final(self), store: store@, result }) == metadata_cap_enforced(
                *old(self),
                store@,
            ),
    {
        if self.config.persistence_mode == PersistenceMode::Volatile {
            return Ok(());
        }
        let logs = list_commit_logs(store);
        let n: usize = logs.len();
        let mut total: u64 = 0;
        for i in 0..n
            invariant
                n == logs@.len(),
                logs@ == commit_logs(store@),
                is_rolled_list(store@, rolled_indexes(store@)),
                total == logs_len(store@, logs@, i as int),
        {
            let len: u64 = match store.file_len(logs[i]) {
                Some(len) => len,
                None => 0,
            };
            assert(store@.has(logs@[i as int])) by {
                commit_log_is_there(store@, i as int);
            }
            total = bounded_sum(total, len);
        }
        if total > self.config.metadata_log_max_bytes {
            self.degraded = true;
            return Err(
                ArchiveRecorderError::MetadataLogCapacityExceeded {
                    max_bytes: self.config.metadata_log_max_bytes,
                    required_bytes: total,
                },
            );
        }
        Ok(())
    }

    /// Gives up the reserved room behind the last entry of the commit log.
    pub fn truncate_commit_log_to_logical_size(&mut self, store: &mut ArchiveStore) -> (result:
        Result<(), ArchiveRecorderError>)
        ensures
            final(store).base() == old(store).base(),
            (Step { state: *final(self), store: final(store)@, result }) == commit_log_truncated(
                *old(self),
                old(store)@,
            ),
    {
        let mut disk = match self.disk {
            Some(disk) => disk,
            None => {
                return Ok(());
            },
        };
        let operation = "truncate commit idxlog to logical size";
        match store.set_len(ArchiveFile::CommitLog, disk.commit_log_write_offset, operation) {
            Ok(()) => {},
            Err(source) => {
                return Err(file_error(operation, ArchiveFile::CommitLog, source));
            },
        }
        disk.commit_log_preallocated_len = disk.commit_log_write_offset;
        self.disk = Some(disk);
        Ok(())
    }

    /// Rolls the commit log where the next entry would pass the roll size.
    pub fn roll_commit_log_if_needed(
        &mut self,
        store: &mut ArchiveStore,
        now_ns: u64,
    ) -> (result: Result<(), ArchiveRecorderError>)
        requires
            old(self).wf(),
            old(self).disk is Some,
        ensures
            final(store).base() == old(store).base(),
            (Step { state: *final(self), store: final(store)@, result })
                == commit_log_rolled_if_needed(*old(self), old(store)@, now_ns),
    {
        let log = ArchiveFile::CommitLog;
        let disk = match self.disk {
            Some(disk) => disk,
            None => {
                return Ok(());
            },
        };
        if disk.commit_log_write_offset + 104 <= self.config.metadata_log_roll_bytes {
            return Ok(());
        }
        match store.sync_data(log, "sync commit idxlog before roll") {
            Ok(()) => {},
            Err(source) => {
                return Err(file_error("sync commit idxlog before roll", log, source));
            },
        }
        match self.truncate_commit_log_to_logical_size(store) {
            Ok(()) => {},
            Err(error) => {
                return Err(error);
            },
        }
        let mut index: u64 = disk.commit_log_roll_index;
        let mut candidate = ArchiveFile::RolledCommitLog { index };
        while store.contains(candidate)
            invariant
                candidate == (ArchiveFile::RolledCommitLog { index }),
                free_roll_index(store@, disk.commit_log_roll_index) == free_roll_index(
                    store@,
                    index,
                ),
                store.base() == old(store).base(),
                ({
                    let cut = commit_log_truncated(*old(self), old(store)@.synced(log));
                    &&& *self == cut.state
                    &&& store@ == cut.store
                    &&& cut.result is Ok
                }),
                log == ArchiveFile::CommitLog,
                old(self).disk == Some(disk),
                old(store)@.has(log),
                disk.commit_log_write_offset + 104 > old(self).config.metadata_log_roll_bytes,
            decreases u64::MAX - index,
        {
            if index == u64::MAX {
                return Err(file_error("roll commit idxlog file", log, IoFault::AlreadyExists));
            }
            index = index + 1;
            candidate = ArchiveFile::RolledCommitLog { index };
        }
        let _ = store.rename(log, candidate, "roll commit idxlog file");
        match create_new_file(store, log) {
            Ok(()) => {},
            Err(error) => {
                return Err(error);
            },
        }
        match write_archive_header(
            store,
            log,
            ArchiveFileKind::CommitIdxLog,
            self.config.log_id,
            0,
            0,
            now_ns,
        ) {
            Ok(()) => {},
            Err(error) => {
                return Err(error);
            },
        }
        let len: u64 = match preallocate_metadata_log(
            store,
            76,
            self.config.metadata_log_preallocate_entries,
            self.config.metadata_log_roll_bytes,
        ) {
            Ok(len) => len,
            Err(error) => {
                return Err(error);
            },
        };
        self.disk =
        Some(
            DiskRecorderState {
                commit_log_write_offset: 76,
                commit_log_preallocated_len: len,
                commit_log_roll_index: following(index),
                active_segment: disk.active_segment,
            },
        );
        self.stats.metadata_log_rolls = following(self.stats.metadata_log_rolls);
        self.enforce_metadata_log_cap(store)
    }

    /// Reserves room for the next entry in the commit log. Tells whether the log was resized.
    pub fn ensure_commit_log_capacity(&mut self, store: &mut ArchiveStore) -> (result: Result<
        bool,
        ArchiveRecorderError,
    >)
        requires
            old(self).wf(),
            old(self).disk is Some,
        ensures
            final(store).base() == old(store).base(),
            (Step { state: *final(self), store: final(store)@, result }) == commit_log_ensured(
                *old(self),
                old(store)@,
            ),
    {
        let mut disk = match self.disk {
            Some(disk) => disk,
            None => {
                return Ok(false);
            },
        };
        let required: u64 = disk.commit_log_write_offset + 104;
        if required <= disk.commit_log_preallocated_len {
            return Ok(false);
        }
        match preallocate_metadata_log(
            store,
            required,
            self.config.metadata_log_preallocate_entries,
            self.config.metadata_log_roll_bytes,
        ) {
            Ok(len) => {
                disk.commit_log_preallocated_len = len;
                self.disk = Some(disk);
                Ok(true)
            },
            Err(error) => Err(self.handle_commit_write_failure(error)),
        }
    }

    /// Prepares one spare segment, unless its file is there.
    fn create_spare_segment(
        &mut self,
        store: &mut ArchiveStore,
        segment_id: u64,
        now_ns: u64,
    ) -> (result: Result<(), ArchiveRecorderError>)
        ensures
            final(store).base() == old(store).base(),
            (Step { state: *final(self), store: final(store)@, result }) == spare_created(
                *old(self),
                old(store)@,
                segment_id,
                now_ns,
            ),
    {
        let file = ArchiveFile::SegmentData {
            tier: ArchiveSegmentTier::HotAttached,
            segment_id,
            segment_generation: self.config.segment_generation,
        };
        if store.contains(file) {
            return Ok(());
        }
        match create_new_file(store, file) {
            Ok(()) => {},
            Err(error) => {
                return Err(error);
            },
        }
        match write_archive_header(
            store,
            file,
            ArchiveFileKind::SegmentData,
            self.config.log_id,
            segment_id,
            self.config.segment_generation,
            now_ns,
        ) {
            Ok(()) => {},
            Err(error) => {
                return Err(error);
            },
        }
        match store.set_len(file, self.config.segment_bytes as u64, "preallocate spare segment") {
            Ok(()) => {},
            Err(source) => {
                return Err(file_error("preallocate spare segment", file, source));
            },
        }
        self.stats.preallocated_segments = following(self.stats.preallocated_segments);
        Ok(())
    }

    /// Prepares the spare segments from `start_segment_id` on.
    pub fn create_spare_preallocated_segments(
        &mut self,
        store: &mut ArchiveStore,
        start_segment_id: u64,
        now_ns: u64,
    ) -> (result: Result<(), ArchiveRecorderError>)
        ensures
            final(store).base() == old(store).base(),
            (Step { state: *final(self), store: final(store)@, result }) == all_spares_created(
                *old(self),
                old(store)@,
                start_segment_id,
                now_ns,
            ),
    {
        if !self.config.segment_preallocate || self.config.spare_preallocated_segments == 0 {
            return Ok(());
        }
        let end: u64 = bounded_sum(
            start_segment_id,
            self.config.spare_preallocated_segments as u64,
        );
        let mut segment_id: u64 = start_segment_id;
        while segment_id < end
            invariant
                store.base() == old(store).base(),
                old(self).config.segment_preallocate,
                old(self).config.spare_preallocated_segments != 0,
                end == saturating_sum(
                    start_segment_id,
                    old(self).config.spare_preallocated_segments as int,
                ),
                spares_created(*old(self), old(store)@, start_segment_id, end, now_ns)
                    == spares_created(*self, store@, segment_id, end, now_ns),
            decreases end - segment_id,
        {
            match self.create_spare_segment(store, segment_id, now_ns) {
                Ok(()) => {},
                Err(error) => {
                    return Err(error);
                },
            }
            segment_id = following(segment_id);
        }
        Ok(())
    }

    /// Opens a segment and makes it the active one.
    pub fn open_new_active_segment(
        &mut self,
        store: &mut ArchiveStore,
        segment_id: u64,
        now_ns: u64,
    ) -> (result: Result<(), ArchiveRecorderError>)
        requires
            old(self).disk is Some,
        ensures
            final(store).base() == old(store).base(),
            (Step { state: *final(self), store: final(store)@, result }) == segment_opened(
                *old(self),
                old(store)@,
                segment_id,
                now_ns,
            ),
    {
        let file = ArchiveFile::SegmentData {
            tier: ArchiveSegmentTier::HotAttached,
            segment_id,
            segment_generation: self.config.segment_generation,
        };
        let created_new = !store.contains(file);
        if created_new {
            match create_new_file(store, file) {
                Ok(()) => {},
                Err(error) => {
                    return Err(error);
                },
            }
        }
        match write_archive_header(
            store,
            file,
            ArchiveFileKind::SegmentData,
            self.config.log_id,
            segment_id,
            self.config.segment_generation,
            now_ns,
        ) {
            Ok(()) => {},
            Err(error) => {
                return Err(error);
            },
        }
        if self.config.segment_preallocate {
            match store.set_len(
                file,
                self.config.segment_bytes as u64,
                "preallocate active segment",
            ) {
                Ok(()) => {},
                Err(source) => {
                    return Err(file_error("preallocate active segment", file, source));
                },
            }
            if created_new {
                self.stats.preallocated_segments = following(self.stats.preallocated_segments);
            }
        }
        let active = ActiveSegment {
            segment_id,
            segment_generation: self.config.segment_generation,
            created_at_ns: now_ns,
            write_offset: ARCHIVE_FILE_HEADER_V1_LEN as u64,
            sequence_start: None,
            sequence_end: None,
            records: 0,
        };
        if let Some(disk) = self.disk {
            self.disk = Some(DiskRecorderState { active_segment: Some(active), ..disk });
        }
        self.create_spare_preallocated_segments(store, following(segment_id), now_ns)
    }

    /// Tells whether the requested acknowledgment holds of the commit.
    pub fn ack_satisfied(&self, commit: RecordedCommit, requested_ack: RecorderAckLevel) -> (holds:
        bool)
        ensures
            holds == acknowledged(*self, commit, requested_ack),
    {
        let data = match self.last_durable_data_sequence {
            Some(sequence) => sequence >= commit.sequence,
            None => false,
        };
        let log = match self.last_durable_commit_ordinal {
            Some(ordinal) => ordinal >= commit.commit_ordinal,
            None => false,
        };
        match requested_ack {
            RecorderAckLevel::Accepted => true,
            RecorderAckLevel::DurableData => data,
            RecorderAckLevel::DurableDataAndCommitLog => data && log,
        }
    }

    /// The error of a wait that ran out of time.
    pub fn ack_timeout_error(&self, requested: RecorderAckLevel, timeout_ns: u128) -> (error:
        ArchiveRecorderError)
        ensures
            error == ack_timeout(*self, requested, timeout_ns),
    {
        let millis: u128 = timeout_ns / 1_000_000;
        ArchiveRecorderError::AckTimeout {
            requested,
            timeout_ms: if millis > u64::MAX as u128 {
                u64::MAX
            } else {
                millis as u64
            },
            last_durable_data_sequence: self.last_durable_data_sequence,
            last_durable_commit_ordinal: self.last_durable_commit_ordinal,
        }
    }

    /// Notes that the data of a commit is durable.
    pub fn note_durable_data(&mut self, commit: RecordedCommit)
        ensures
            *final(self) == data_durable(*old(self), commit),
    {
        self.last_durable_data_sequence = keep_larger(
            self.last_durable_data_sequence,
            commit.sequence,
        );
    }

    /// Notes that the data and the entry of a commit are durable.
    pub fn note_durable_commit_log(&mut self, commit: RecordedCommit)
        ensures
            *final(self) == commit_durable(*old(self), commit),
    {
        self.note_durable_data(commit);
        self.last_durable_commit_ordinal = keep_larger(
            self.last_durable_commit_ordinal,
            commit.commit_ordinal,
        );
    }
}

/// The error of a wait that ran out of time. It tells the whole milliseconds of the wait.
pub open spec fn ack_timeout(
    state: RecorderState,
    requested: RecorderAckLevel,
    timeout_ns: u128,
) -> ArchiveRecorderError {
    ArchiveRecorderError::AckTimeout {
        requested,
        timeout_ms: saturating_sum(0, timeout_ns as int / 1_000_000),
        last_durable_data_sequence: state.last_durable_data_sequence,
        last_durable_commit_ordinal: state.last_durable_commit_ordinal,
    }
}

/// Keeps the larger value.
fn keep_larger(kept: Option<u64>, value: u64) -> (larger: Option<u64>)
    ensures
        larger == raised(kept, value),
{
    match kept {
        Some(old_value) => if old_value > value {
            Some(old_value)
        } else {
            Some(value)
        },
        None => Some(value),
    }
}

/// Every listed commit log is there.
pub proof fn commit_log_is_there(store: StoreModel, i: int)
    requires
        0 <= i < commit_logs(store).len(),
        is_rolled_list(store, rolled_indexes(store)),
    ensures
        store.has(commit_logs(store)[i]),
{
    let rolled = rolled_indexes(store);
    if i < rolled.len() {
        assert(rolled.contains(rolled[i]));
    }
}

} // verus!
