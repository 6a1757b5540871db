//! Creating an archive, and taking up an existing one.

use crate::bytes::{all_zero, range_is_zero, same_bytes};
use crate::catalog::{
    active_segment_for_recovery, catalog_entries, data_segments,
    determine_active_segment_for_recovery, following, header_written, list_data_segments,
    log_id_of, next_number, preallocate_metadata_log, preallocated, read_catalog_entries,
    read_log_id_from_archive_header, write_archive_header,
};
use crate::commit_entry::CommitEntry;
use crate::commit_log::{
    commit_log_recovered, commit_log_recovery_error, commit_logs, kept_end, kept_entries,
    list_commit_logs, log_entries, read_commit_entries_single, recover_commit_log_entries,
};
use crate::error::{
    ArchiveDirectory, ArchiveFile, ArchivePath, ArchiveRecorderError, ArchiveReplayError, IoFault,
};
use crate::frame::hot_data;
use crate::header::ArchiveFileKind;
use crate::order::{increasing, lower_bound, lower_bound_splits, SegmentKey};
use crate::recorder::{retention_enforced, ArchiveRecorder, RecorderModel};
use crate::retention::SequenceIndex;
use crate::segment::{scan_active_segment_tail, scan_end, scan_limit};
use crate::state::{
    create_new_file, file_created, file_error, file_fault, metadata_cap_enforced, saturating_sum,
    segment_opened, ActiveSegment, DiskRecorderState, RecorderConfig, RecorderState, Step,
};
use crate::store::{ArchiveStore, StoreModel};
use crate::types::{
    ArchiveLocator, ArchiveRecorderStats, ArchiveRecoveryStatus, ArchiveSegmentTier,
    AsyncIoBackend, EffectiveAsyncIoBackend, PersistenceMode,
};
use vstd::prelude::*;

verus! {

/// A store and a recorder, or an error: what starting a recorder leaves behind.
#[verifier::ext_equal]
pub struct Startup {
    pub store: StoreModel,
    pub result: Result<RecorderModel, ArchiveRecorderError>,
}

impl Startup {
    /// The result of the call is the one described.
    pub open spec fn describes(self, result: Result<ArchiveRecorder, ArchiveRecorderError>) -> bool {
        match result {
            Ok(recorder) => self.result == Ok::<RecorderModel, ArchiveRecorderError>(recorder@),
            Err(error) => self.result == Err::<RecorderModel, ArchiveRecorderError>(error),
        }
    }
}

/// The backend that is used.
pub open spec fn effective_backend(requested: AsyncIoBackend, ring_available: bool) -> Result<
    EffectiveAsyncIoBackend,
    ArchiveRecorderError,
> {
    match requested {
        AsyncIoBackend::Blocking => Ok(EffectiveAsyncIoBackend::Blocking),
        AsyncIoBackend::IoUringPreferred => Ok(
            if ring_available {
                EffectiveAsyncIoBackend::IoUring
            } else {
                EffectiveAsyncIoBackend::Blocking
            },
        ),
        AsyncIoBackend::IoUringRequired => if ring_available {
            Ok(EffectiveAsyncIoBackend::IoUring)
        } else {
            Err(
                ArchiveRecorderError::InvalidConfiguration(
                    "io_uring backend required but unavailable",
                ),
            )
        },
    }
}

/// Selects the backend. `ring_available` tells whether a ring could be set up.
pub fn select_backend(requested: AsyncIoBackend, ring_available: bool) -> (result: Result<
    EffectiveAsyncIoBackend,
    ArchiveRecorderError,
>)
    ensures
        result == effective_backend(requested, ring_available),
{
    match requested {
        AsyncIoBackend::Blocking => Ok(EffectiveAsyncIoBackend::Blocking),
        AsyncIoBackend::IoUringPreferred => if ring_available {
            Ok(EffectiveAsyncIoBackend::IoUring)
        } else {
            Ok(EffectiveAsyncIoBackend::Blocking)
        },
        AsyncIoBackend::IoUringRequired => if ring_available {
            Ok(EffectiveAsyncIoBackend::IoUring)
        } else {
            Err(
                ArchiveRecorderError::InvalidConfiguration(
                    "io_uring backend required but unavailable",
                ),
            )
        },
    }
}

/// The state of a recorder that has recorded nothing.
pub open spec fn fresh_state(
    config: RecorderConfig,
    backend: EffectiveAsyncIoBackend,
    disk: Option<DiskRecorderState>,
) -> RecorderState {
    RecorderState {
        config,
        effective_async_io_backend: backend,
        disk,
        stats: ArchiveRecorderStats::zero(),
        recovery_status: ArchiveRecoveryStatus::none(),
        next_commit_ordinal: 1,
        last_sequence: None,
        last_durable_data_sequence: None,
        last_durable_commit_ordinal: None,
        finalized: false,
        degraded: false,
    }
}

/// The state of a recorder that has recorded nothing.
fn new_state(
    config: RecorderConfig,
    backend: EffectiveAsyncIoBackend,
    disk: Option<DiskRecorderState>,
) -> (state: RecorderState)
    ensures
        state == fresh_state(config, backend, disk),
{
    RecorderState {
        config,
        effective_async_io_backend: backend,
        disk,
        stats: ArchiveRecorderStats::default(),
        recovery_status: ArchiveRecoveryStatus::default(),
        next_commit_ordinal: 1,
        last_sequence: None,
        last_durable_data_sequence: None,
        last_durable_commit_ordinal: None,
        finalized: false,
        degraded: false,
    }
}

/// A recorder with a state and an index, and no volatile records.
pub open spec fn recorder_with(
    state: RecorderState,
    index: Seq<(u64, ArchiveLocator)>,
) -> RecorderModel {
    RecorderModel { state, index, volatile: Seq::empty() }
}

/// A recorder that keeps its records in memory only.
pub fn new_volatile_recorder(config: RecorderConfig, ring_available: bool) -> (recorder:
    ArchiveRecorder)
    requires
        effective_backend(config.async_io_backend, ring_available) is Ok,
    ensures
        recorder@ == recorder_with(
            fresh_state(
                config,
                effective_backend(config.async_io_backend, ring_available)->Ok_0,
                None,
            ),
            Seq::empty(),
        ),
{
    let backend = match select_backend(config.async_io_backend, ring_available) {
        Ok(backend) => backend,
        Err(_) => EffectiveAsyncIoBackend::Blocking,
    };
    let index: SequenceIndex = Vec::new();
    assert(index@ =~= Seq::empty());
    ArchiveRecorder::assembled(new_state(config, backend, None), index)
}

/// A file is created and gets its header.
pub open spec fn headed_file(
    store: StoreModel,
    file: ArchiveFile,
    kind: ArchiveFileKind,
    log_id: Seq<u8>,
    now_ns: u64,
) -> (StoreModel, Result<(), ArchiveRecorderError>) {
    let (created, creation) = file_created(store, file);
    match creation {
        Err(error) => (created, Err(error)),
        Ok(()) => header_written(created, file, kind, log_id, 0, 0, now_ns),
    }
}

/// Creates a file with its header.
fn create_headed_file(
    store: &mut ArchiveStore,
    file: ArchiveFile,
    kind: ArchiveFileKind,
    log_id: [u8; 16],
    now_ns: u64,
) -> (result: Result<(), ArchiveRecorderError>)
    ensures
        final(store).base() == old(store).base(),
        (final(store)@, result) == headed_file(old(store)@, file, kind, log_id@, now_ns),
{
    match create_new_file(store, file) {
        Ok(()) => {},
        Err(error) => {
            return Err(error);
        },
    }
    write_archive_header(store, file, kind, log_id, 0, 0, now_ns)
}

/// The store with the directories of an archive.
pub open spec fn with_archive_directories(store: StoreModel) -> StoreModel {
    store.with_directory(ArchiveDirectory::Storage).with_directory(
        ArchiveDirectory::Segments,
    ).with_directory(ArchiveDirectory::Detached).with_directory(
        ArchiveDirectory::Metadata,
    ).with_directory(ArchiveDirectory::Pins)
}

/// The files of a new archive: the catalog, and the commit log with its reserved room.
pub open spec fn archive_files_created(config: RecorderConfig, store: StoreModel, now_ns: u64) -> (
    StoreModel,
    Result<u64, ArchiveRecorderError>,
) {
    let (first, catalog) = headed_file(
        with_archive_directories(store),
        ArchiveFile::Catalog,
        ArchiveFileKind::Catalog,
        config.log_id@,
        now_ns,
    );
    let (second, log) = headed_file(
        first,
        ArchiveFile::CommitLog,
        ArchiveFileKind::CommitIdxLog,
        config.log_id@,
        now_ns,
    );
    match (catalog, log) {
        (Err(error), _) => (first, Err(error)),
        (Ok(()), Err(error)) => (second, Err(error)),
        (Ok(()), Ok(())) => preallocated(
            second,
            76,
            config.metadata_log_preallocate_entries,
            config.metadata_log_roll_bytes,
        ),
    }
}

/// A step of the state is followed by the check of the cap on the commit logs.
pub open spec fn started(
    index: Seq<(u64, ArchiveLocator)>,
    store: StoreModel,
    state: RecorderState,
) -> Startup {
    let capped = metadata_cap_enforced(state, store);
    Startup {
        store: capped.store,
        result: match capped.result {
            Err(error) => Err(error),
            Ok(()) => Ok(recorder_with(capped.state, index)),
        },
    }
}

/// A new archive is created for a log id.
#[verifier::opaque]
pub open spec fn archive_created(
    config: RecorderConfig,
    store: StoreModel,
    ring_available: bool,
    now_ns: u64,
) -> Startup {
    let (prepared, reserved) = archive_files_created(config, store, now_ns);
    match (reserved, effective_backend(config.async_io_backend, ring_available)) {
        (Err(error), _) => Startup { store: prepared, result: Err(error) },
        (Ok(_), Err(error)) => Startup { store: prepared, result: Err(error) },
        (Ok(len), Ok(backend)) => {
            let disk = DiskRecorderState {
                commit_log_write_offset: 76,
                commit_log_preallocated_len: len,
                commit_log_roll_index: 1,
                active_segment: None,
            };
            let opened = segment_opened(
                fresh_state(config, backend, Some(disk)),
                prepared,
                1,
                now_ns,
            );
            match opened.result {
                Err(error) => Startup { store: opened.store, result: Err(error) },
                Ok(()) => started(Seq::empty(), opened.store, opened.state),
            }
        },
    }
}

/// Creates a new archive for the log id of the configuration.
pub fn create_archive_with_log_id(
    config: RecorderConfig,
    store: &mut ArchiveStore,
    ring_available: bool,
    now_ns: u64,
) -> (result: Result<ArchiveRecorder, ArchiveRecorderError>)
    ensures
        final(store).base() == old(store).base(),
        final(store)@ == archive_created(config, old(store)@, ring_available, now_ns).store,
        archive_created(config, old(store)@, ring_available, now_ns).describes(result),
{
    reveal(archive_created);
    store.create_directory(ArchiveDirectory::Storage, "create storage directory");
    store.create_directory(ArchiveDirectory::Segments, "create segments directory");
    store.create_directory(ArchiveDirectory::Detached, "create detached segments directory");
    store.create_directory(ArchiveDirectory::Metadata, "create metadata directory");
    store.create_directory(ArchiveDirectory::Pins, "create replay pin directory");
    match create_headed_file(
        store,
        ArchiveFile::Catalog,
        ArchiveFileKind::Catalog,
        config.log_id,
        now_ns,
    ) {
        Ok(()) => {},
        Err(error) => {
            return Err(error);
        },
    }
    match create_headed_file(
        store,
        ArchiveFile::CommitLog,
        ArchiveFileKind::CommitIdxLog,
        config.log_id,
        now_ns,
    ) {
        Ok(()) => {},
        Err(error) => {
            return Err(error);
        },
    }
    let len: u64 = match preallocate_metadata_log(
        store,
        76,
        config.metadata_log_preallocate_entries,
        config.metadata_log_roll_bytes,
    ) {
        Ok(len) => len,
        Err(error) => {
            return Err(error);
        },
    };
    let backend = match select_backend(config.async_io_backend, ring_available) {
        Ok(backend) => backend,
        Err(error) => {
            return Err(error);
        },
    };
    let disk = DiskRecorderState {
        commit_log_write_offset: 76,
        commit_log_preallocated_len: len,
        commit_log_roll_index: 1,
        active_segment: None,
    };
    let mut state = new_state(config, backend, Some(disk));
    match state.open_new_active_segment(store, 1, now_ns) {
        Ok(()) => {},
        Err(error) => {
            return Err(error);
        },
    }
    match state.enforce_metadata_log_cap(store) {
        Ok(()) => {},
        Err(error) => {
            return Err(error);
        },
    }
    let index: SequenceIndex = Vec::new();
    assert(index@ =~= Seq::empty());
    Ok(ArchiveRecorder::assembled(state, index))
}

/// The log id that is used where these bytes were drawn: the id of all zeros is reserved.
pub open spec fn usable_log_id(drawn: Seq<u8>) -> Seq<u8> {
    if all_zero(drawn) {
        drawn.update(0, 1)
    } else {
        drawn
    }
}

/// Makes drawn bytes a log id: the id of all zeros is reserved for "not set".
pub fn make_log_id(drawn: [u8; 16]) -> (log_id: [u8; 16])
    ensures
        log_id@ == usable_log_id(drawn@),
        !all_zero(log_id@),
{
    let mut log_id = drawn;
    assert(drawn@.subrange(0, 16) =~= drawn@);
    if range_is_zero(&drawn, 0, 16) {
        log_id[0] = 1;
        assert(log_id@ =~= drawn@.update(0, 1));
        assert(log_id@[0] == 1);
    }
    log_id
}

/// Draws 16 bytes with `getrandom::getrandom`, which fills the buffer with random bytes or
/// reports that it could not. Nothing is claimed of the bytes.
#[verifier::external_body]
fn draw_random_bytes() -> (drawn: Option<[u8; 16]>) {
    let mut bytes = [0u8; 16];
    match getrandom::getrandom(&mut bytes) {
        Ok(()) => Some(bytes),
        Err(_) => None,
    }
}

/// Draws a log id.
pub fn generate_random_log_id() -> (result: Result<[u8; 16], ArchiveRecorderError>)
    ensures
        match result {
            Ok(log_id) => !all_zero(log_id@),
            Err(error) => error == ArchiveRecorderError::InvalidConfiguration(
                "failed to generate random archive log_id",
            ),
        },
{
    match draw_random_bytes() {
        Some(drawn) => Ok(make_log_id(drawn)),
        None => Err(
            ArchiveRecorderError::InvalidConfiguration("failed to generate random archive log_id"),
        ),
    }
}

/// Tells whether a log id is the reserved one.
pub fn log_id_is_unset(log_id: &[u8; 16]) -> (unset: bool)
    ensures
        unset == all_zero(log_id@),
{
    assert(log_id@.subrange(0, 16) =~= log_id@);
    range_is_zero(log_id, 0, 16)
}

/// Creates a new archive. Where no log id is configured, one is drawn.
pub fn create_new_archive(
    config: RecorderConfig,
    store: &mut ArchiveStore,
    ring_available: bool,
    now_ns: u64,
) -> (result: Result<ArchiveRecorder, ArchiveRecorderError>)
    ensures
        final(store).base() == old(store).base(),
        !all_zero(config.log_id@) ==> {
            let startup = archive_created(config, old(store)@, ring_available, now_ns);
            final(store)@ == startup.store && startup.describes(result)
        },
        all_zero(config.log_id@) ==> {
            ||| final(store)@ == old(store)@ && result == Err::<
                ArchiveRecorder,
                ArchiveRecorderError,
            >(
                ArchiveRecorderError::InvalidConfiguration(
                    "failed to generate random archive log_id",
                ),
            )
            ||| exists|log_id: [u8; 16]|
                {
                    let startup = #[trigger] archive_created(
                        RecorderConfig { log_id, ..config },
                        old(store)@,
                        ring_available,
                        now_ns,
                    );
                    !all_zero(log_id@) && final(store)@ == startup.store && startup.describes(
                        result,
                    )
                }
        },
{
    if log_id_is_unset(&config.log_id) {
        let log_id = match generate_random_log_id() {
            Ok(log_id) => log_id,
            Err(error) => {
                return Err(error);
            },
        };
        let chosen = RecorderConfig { log_id, ..config };
        let result = create_archive_with_log_id(chosen, store, ring_available, now_ns);
        assert(archive_created(chosen, old(store)@, ring_available, now_ns).describes(result));
        return result;
    }
    create_archive_with_log_id(config, store, ring_available, now_ns)
}

/// The error that a recovering recorder reports for a rolled commit log that cannot be read.
pub open spec fn rolled_log_error(error: ArchiveReplayError) -> ArchiveRecorderError {
    match error {
        ArchiveReplayError::Io { operation, path, source } => ArchiveRecorderError::Io {
            operation,
            path,
            source,
        },
        ArchiveReplayError::FileHeader(error) => ArchiveRecorderError::FileHeader(error),
        _ => ArchiveRecorderError::RecoveryInconsistent("invalid rolled commit idxlog file"),
    }
}

/// The entries of a rolled commit log of this log.
pub open spec fn rolled_log(store: StoreModel, log_id: Seq<u8>, log: ArchiveFile) -> Result<
    Seq<CommitEntry>,
    ArchiveRecorderError,
> {
    match log_id_of(store, log, ArchiveFileKind::CommitIdxLog) {
        Err(error) => Err(error),
        Ok(found) => if found@ != log_id {
            Err(
                ArchiveRecorderError::RecoveryInconsistent(
                    "rolled commit idxlog log_id does not match archive log_id",
                ),
            )
        } else {
            match log_entries(store, log) {
                Err(error) => Err(rolled_log_error(error)),
                Ok(part) => Ok(part),
            }
        },
    }
}

/// The entries of the rolled ones among the first `n` logs.
pub open spec fn rolled_entries(
    store: StoreModel,
    log_id: Seq<u8>,
    logs: Seq<ArchiveFile>,
    n: int,
) -> Result<Seq<CommitEntry>, ArchiveRecorderError>
    decreases n,
{
    if n <= 0 {
        Ok(Seq::empty())
    } else {
        match rolled_entries(store, log_id, logs, n - 1) {
            Err(error) => Err(error),
            Ok(before) => if logs[n - 1] == ArchiveFile::CommitLog {
                Ok(before)
            } else {
                match rolled_log(store, log_id, logs[n - 1]) {
                    Err(error) => Err(error),
                    Ok(part) => Ok(before + part),
                }
            },
        }
    }
}

/// Maps the error of a rolled commit log that cannot be read.
fn map_rolled_log_error(error: ArchiveReplayError) -> (mapped: ArchiveRecorderError)
    ensures
        mapped == rolled_log_error(error),
{
    match error {
        ArchiveReplayError::Io { operation, path, source } => ArchiveRecorderError::Io {
            operation,
            path,
            source,
        },
        ArchiveReplayError::FileHeader(error) => ArchiveRecorderError::FileHeader(error),
        _ => ArchiveRecorderError::RecoveryInconsistent("invalid rolled commit idxlog file"),
    }
}

/// Reads a rolled commit log of this log.
fn read_rolled_log(store: &ArchiveStore, log_id: &[u8; 16], log: ArchiveFile) -> (result: Result<
    Vec<CommitEntry>,
    ArchiveRecorderError,
>)
    ensures
        match result {
            Ok(entries) => rolled_log(store@, log_id@, log) == Ok::<
                Seq<CommitEntry>,
                ArchiveRecorderError,
            >(entries@),
            Err(error) => rolled_log(store@, log_id@, log) == Err::<
                Seq<CommitEntry>,
                ArchiveRecorderError,
            >(error),
        },
{
    let found = match read_log_id_from_archive_header(store, log, ArchiveFileKind::CommitIdxLog) {
        Ok(found) => found,
        Err(error) => {
            return Err(error);
        },
    };
    if !same_bytes(&found, log_id) {
        return Err(
            ArchiveRecorderError::RecoveryInconsistent(
                "rolled commit idxlog log_id does not match archive log_id",
            ),
        );
    }
    match read_commit_entries_single(store, log) {
        Ok(part) => Ok(part),
        Err(error) => Err(map_rolled_log_error(error)),
    }
}

/// Reads the rolled commit logs of this log.
fn read_rolled_entries(store: &ArchiveStore, log_id: &[u8; 16]) -> (result: Result<
    Vec<CommitEntry>,
    ArchiveRecorderError,
>)
    ensures
        ({
            let logs = commit_logs(store@);
            let read = rolled_entries(store@, log_id@, logs, logs.len() as int);
            match result {
                Ok(entries) => read == Ok::<Seq<CommitEntry>, ArchiveRecorderError>(entries@),
                Err(error) => read == Err::<Seq<CommitEntry>, ArchiveRecorderError>(error),
            }
        }),
{
    let logs = list_commit_logs(store);
    let n: usize = logs.len();
    let mut entries: Vec<CommitEntry> = Vec::new();
    assert(entries@ =~= Seq::empty());
    for i in 0..n
        invariant
            n == logs@.len(),
            logs@ == commit_logs(store@),
            rolled_entries(store@, log_id@, logs@, i as int) == Ok::<
                Seq<CommitEntry>,
                ArchiveRecorderError,
            >(entries@),
    {
        if logs[i] != ArchiveFile::CommitLog {
            match read_rolled_log(store, log_id, logs[i]) {
                Ok(part) => {
                    append_entries(&mut entries, &part);
                },
                Err(error) => {
                    proof {
                        rolled_entries_fail(store@, log_id@, logs@, i + 1, n as int, error);
                    }
                    return Err(error);
                },
            }
        }
    }
    Ok(entries)
}

/// An error among the first logs is the error of all.
proof fn rolled_entries_fail(
    store: StoreModel,
    log_id: Seq<u8>,
    logs: Seq<ArchiveFile>,
    i: int,
    n: int,
    error: ArchiveRecorderError,
)
    requires
        0 <= i <= n <= logs.len(),
        rolled_entries(store, log_id, logs, i) == Err::<Seq<CommitEntry>, ArchiveRecorderError>(
            error,
        ),
    ensures
        rolled_entries(store, log_id, logs, n) == Err::<Seq<CommitEntry>, ArchiveRecorderError>(
            error,
        ),
    decreases n - i,
{
    if i < n {
        rolled_entries_fail(store, log_id, logs, i + 1, n, error);
    }
}

/// Adds entries behind others.
fn append_entries(entries: &mut Vec<CommitEntry>, more: &[CommitEntry])
    ensures
        final(entries)@ == old(entries)@ + more@,
{
    let n: usize = more.len();
    assert(entries@ + more@.subrange(0, 0) =~= entries@);
    for i in 0..n
        invariant
            n == more@.len(),
            entries@ == old(entries)@ + more@.subrange(0, i as int),
    {
        entries.push(more[i]);
        assert(entries@ =~= old(entries)@ + more@.subrange(0, i + 1));
    }
    assert(more@.subrange(0, n as int) =~= more@);
}

/// The sequence occurs among the first `n` entries.
pub open spec fn sequence_seen(entries: Seq<CommitEntry>, n: int, sequence: u64) -> bool {
    exists|j: int| 0 <= j < n && #[trigger] entries[j].sequence == sequence
}

/// What is wrong with the order of the first `n` entries, if anything is.
pub open spec fn disorder(entries: Seq<CommitEntry>, n: int) -> Option<&'static str>
    decreases n,
{
    if n <= 0 {
        None
    } else if disorder(entries, n - 1) is Some {
        disorder(entries, n - 1)
    } else if n >= 2 && entries[n - 2].commit_ordinal != 0 && entries[n - 1].commit_ordinal
        <= entries[n - 2].commit_ordinal {
        Some("commit idxlog entries are not strictly ordered by commit ordinal")
    } else if sequence_seen(entries, n - 1, entries[n - 1].sequence) {
        Some("commit.idxlog contains duplicate sequence")
    } else if n >= 2 && entries[n - 1].sequence <= entries[n - 2].sequence {
        Some("commit.idxlog sequence is not strictly monotonic")
    } else {
        None
    }
}

/// The sequences of the first `n` entries.
pub open spec fn sequences_of(entries: Seq<CommitEntry>, n: int) -> Seq<u64> {
    Seq::new(n as nat, |i: int| entries[i].sequence)
}

/// What is wrong stays wrong.
proof fn disorder_stays(entries: Seq<CommitEntry>, i: int, n: int)
    requires
        0 <= i <= n <= entries.len(),
        disorder(entries, i) is Some,
    ensures
        disorder(entries, n) == disorder(entries, i),
    decreases n - i,
{
    if i < n {
        disorder_stays(entries, i, n - 1);
    }
}

/// Entries in order have increasing sequences.
pub proof fn order_gives_increasing(entries: Seq<CommitEntry>, n: int)
    requires
        0 <= n <= entries.len(),
        disorder(entries, n) is None,
    ensures
        increasing(sequences_of(entries, n)),
    decreases n,
{
    if n > 0 {
        order_gives_increasing(entries, n - 1);
        let before = sequences_of(entries, n - 1);
        let all = sequences_of(entries, n);
        assert forall|i: int, j: int| 0 <= i < j < all.len() implies #[trigger] all[i]
            < #[trigger] all[j] by {
            if j < n - 1 {
                assert(before[i] < before[j]);
            } else if i < n - 2 {
                assert(before[i] < before[n - 2]);
            }
        }
    }
}

/// Checks the order of the entries.
pub fn check_commit_order(entries: &[CommitEntry]) -> (problem: Option<&'static str>)
    ensures
        problem == disorder(entries@, entries@.len() as int),
{
    let n: usize = entries.len();
    let mut sequences: Vec<u64> = Vec::new();
    assert(sequences@ =~= sequences_of(entries@, 0));
    for i in 0..n
        invariant
            n == entries@.len(),
            sequences@ == sequences_of(entries@, i as int),
            disorder(entries@, i as int) is None,
    {
        let entry = entries[i];
        proof {
            order_gives_increasing(entries@, i as int);
            if disorder(entries@, i + 1) is Some {
                disorder_stays(entries@, i + 1, n as int);
            }
        }
        if i > 0 && entries[i - 1].commit_ordinal != 0 && entry.commit_ordinal <= entries[i
            - 1].commit_ordinal {
            return Some("commit idxlog entries are not strictly ordered by commit ordinal");
        }
        let at: usize = lower_bound(&sequences, entry.sequence);
        proof {
            lower_bound_splits(sequences@, entry.sequence);
        }
        if at < i && sequences[at] == entry.sequence {
            assert(entries@[at as int].sequence == entry.sequence);
            return Some("commit.idxlog contains duplicate sequence");
        }
        assert(!sequence_seen(entries@, i as int, entry.sequence)) by {
            if sequence_seen(entries@, i as int, entry.sequence) {
                let j = choose|j: int|
                    0 <= j < i && #[trigger] entries@[j].sequence == entry.sequence;
                assert(sequences@[j] == entry.sequence);
                if at < i {
                    assert(sequences@[at as int] >= entry.sequence);
                }
            }
        }
        if i > 0 && entry.sequence <= entries[i - 1].sequence {
            return Some("commit.idxlog sequence is not strictly monotonic");
        }
        sequences.push(entry.sequence);
        assert(sequences@ =~= sequences_of(entries@, i + 1));
    }
    None
}

/// What the commits of a segment say about it.
#[derive(Debug, Clone, Copy)]
pub struct ActiveCommits {
    /// Number of commits.
    pub records: u64,
    /// First sequence.
    pub sequence_start: Option<u64>,
    /// Last sequence.
    pub sequence_end: Option<u64>,
    /// End of the last frame.
    pub write_offset: u64,
}

/// What the first `n` entries say about a segment.
pub open spec fn active_commits(entries: Seq<CommitEntry>, key: SegmentKey, n: int) -> ActiveCommits
    decreases n,
{
    if n <= 0 {
        ActiveCommits { records: 0, sequence_start: None, sequence_end: None, write_offset: 76 }
    } else {
        let before = active_commits(entries, key, n - 1);
        let entry = entries[n - 1];
        if (entry.locator.segment_id, entry.locator.segment_generation) == key {
            let end = saturating_sum(entry.locator.file_offset, entry.locator.frame_len as int);
            ActiveCommits {
                records: (before.records + 1) as u64,
                sequence_start: match before.sequence_start {
                    Some(first) => Some(first),
                    None => Some(entry.sequence),
                },
                sequence_end: Some(entry.sequence),
                write_offset: if end > before.write_offset {
                    end
                } else {
                    before.write_offset
                },
            }
        } else {
            before
        }
    }
}

/// Collects what the entries say about a segment.
pub fn collect_active_commits(entries: &[CommitEntry], key: SegmentKey) -> (commits: ActiveCommits)
    ensures
        commits == active_commits(entries@, key, entries@.len() as int),
        commits.write_offset >= 76,
{
    let mut commits = ActiveCommits {
        records: 0,
        sequence_start: None,
        sequence_end: None,
        write_offset: 76,
    };
    let n: usize = entries.len();
    for i in 0..n
        invariant
            n == entries@.len(),
            commits == active_commits(entries@, key, i as int),
            commits.records <= i,
            commits.write_offset >= 76,
    {
        let entry = entries[i];
        if entry.locator.segment_id == key.0 && entry.locator.segment_generation == key.1 {
            commits.records = commits.records + 1;
            if commits.sequence_start.is_none() {
                commits.sequence_start = Some(entry.sequence);
            }
            commits.sequence_end = Some(entry.sequence);
            let end: u64 = crate::state::bounded_sum(
                entry.locator.file_offset,
                entry.locator.frame_len as u64,
            );
            if end > commits.write_offset {
                commits.write_offset = end;
            }
        }
    }
    commits
}

/// The active segment is cut off behind its last committed frame. Gives the number of bytes that
/// were cut off.
pub open spec fn tail_recovered(
    state: RecorderState,
    store: StoreModel,
    commits: ActiveCommits,
) -> Step<u64> {
    let active = state.disk->Some_0.active_segment->Some_0;
    let file = hot_data(active.segment_id, active.segment_generation);
    let segment_len = state.config.segment_bytes as u64;
    let s = store.bytes(file);
    let target = commits.write_offset;
    let cut = if s.len() > target {
        store.with_len(file, target)
    } else {
        store
    };
    if !store.has(file) {
        Step {
            state,
            store,
            result: Err(
                file_fault(
                    "read active segment metadata for recovery",
                    file,
                    IoFault::NotFound,
                ),
            ),
        }
    } else if target > scan_end(s, scan_limit(s.len() as int, segment_len), 76) {
        Step {
            state,
            store,
            result: Err(
                ArchiveRecorderError::RecoveryInconsistent(
                    "commit.idxlog points beyond active segment valid boundary",
                ),
            ),
        }
    } else if state.config.segment_preallocate && cut.resize_fault(file, segment_len) is Some {
        Step {
            state,
            store: cut,
            result: Err(
                file_fault(
                    "re-preallocate active segment after recovery",
                    file,
                    cut.resize_fault(file, segment_len)->Some_0,
                ),
            ),
        }
    } else {
        Step {
            state: state.with_active(
                Some(
                    ActiveSegment {
                        write_offset: target,
                        records: commits.records,
                        sequence_start: commits.sequence_start,
                        sequence_end: commits.sequence_end,
                        ..active
                    },
                ),
            ),
            store: if state.config.segment_preallocate {
                cut.with_len(file, segment_len)
            } else {
                cut
            },
            result: Ok(
                if s.len() > target {
                    (s.len() - target) as u64
                } else {
                    0
                },
            ),
        }
    }
}

impl RecorderState {
    /// Cuts the active segment off behind its last committed frame.
    fn recover_active_segment_tail(
        &mut self,
        store: &mut ArchiveStore,
        commits: ActiveCommits,
    ) -> (result: Result<u64, ArchiveRecorderError>)
        requires
            old(self).is_open(),
            commits.write_offset >= 76,
        ensures
            final(store).base() == old(store).base(),
            (Step { state: *final(self), store: final(store)@, result }) == tail_recovered(
                *old(self),
                old(store)@,
                commits,
            ),
    {
        let disk = match self.disk {
            Some(disk) => disk,
            None => {
                return Err(ArchiveRecorderError::Degraded);
            },
        };
        let mut active = match disk.active_segment {
            Some(active) => active,
            None => {
                return Err(ArchiveRecorderError::Degraded);
            },
        };
        let file = ArchiveFile::SegmentData {
            tier: ArchiveSegmentTier::HotAttached,
            segment_id: active.segment_id,
            segment_generation: active.segment_generation,
        };
        let segment_len: u64 = self.config.segment_bytes as u64;
        let scan = match scan_active_segment_tail(store, file, segment_len) {
            Ok(scan) => scan,
            Err(error) => {
                return Err(error);
            },
        };
        let target: u64 = commits.write_offset;
        if target > scan.valid_end {
            return Err(
                ArchiveRecorderError::RecoveryInconsistent(
                    "commit.idxlog points beyond active segment valid boundary",
                ),
            );
        }
        let mut truncated: u64 = 0;
        if scan.original_len > target {
            let _ = store.set_len(file, target, "truncate active segment recovery tail");
            truncated = scan.original_len - target;
        }
        if self.config.segment_preallocate {
            match store.set_len(
                file,
                segment_len,
                "re-preallocate active segment after recovery",
            ) {
                Ok(()) => {},
                Err(source) => {
                    return Err(
                        file_error("re-preallocate active segment after recovery", file, source),
                    );
                },
            }
        }
        active.write_offset = target;
        active.records = commits.records;
        active.sequence_start = commits.sequence_start;
        active.sequence_end = commits.sequence_end;
        self.disk = Some(DiskRecorderState { active_segment: Some(active), ..disk });
        Ok(truncated)
    }
}

/// The log id of an existing archive, which the configured one has to match.
pub open spec fn recovered_log_id(config: RecorderConfig, store: StoreModel) -> Result<
    [u8; 16],
    ArchiveRecorderError,
> {
    match (
        log_id_of(store, ArchiveFile::Catalog, ArchiveFileKind::Catalog),
        log_id_of(store, ArchiveFile::CommitLog, ArchiveFileKind::CommitIdxLog),
    ) {
        (Err(error), _) => Err(error),
        (Ok(_), Err(error)) => Err(error),
        (Ok(catalog), Ok(log)) => if catalog@ != log@ {
            Err(
                ArchiveRecorderError::RecoveryInconsistent(
                    "archive log_id mismatch between catalog.bin and commit.idxlog",
                ),
            )
        } else if all_zero(config.log_id@) || config.log_id@ == catalog@ {
            Ok(catalog)
        } else {
            Err(
                ArchiveRecorderError::RecoveryInconsistent(
                    "configured log_id does not match existing archive log_id",
                ),
            )
        },
    }
}

/// Reads the log id of an existing archive and holds it against the configured one.
fn read_recovered_log_id(config: &RecorderConfig, store: &ArchiveStore) -> (result: Result<
    [u8; 16],
    ArchiveRecorderError,
>)
    ensures
        result == recovered_log_id(*config, store@),
{
    let catalog = match read_log_id_from_archive_header(
        store,
        ArchiveFile::Catalog,
        ArchiveFileKind::Catalog,
    ) {
        Ok(log_id) => log_id,
        Err(error) => {
            return Err(error);
        },
    };
    let log = match read_log_id_from_archive_header(
        store,
        ArchiveFile::CommitLog,
        ArchiveFileKind::CommitIdxLog,
    ) {
        Ok(log_id) => log_id,
        Err(error) => {
            return Err(error);
        },
    };
    if !same_bytes(&catalog, &log) {
        return Err(
            ArchiveRecorderError::RecoveryInconsistent(
                "archive log_id mismatch between catalog.bin and commit.idxlog",
            ),
        );
    }
    if log_id_is_unset(&config.log_id) || same_bytes(&config.log_id, &catalog) {
        return Ok(catalog);
    }
    Err(
        ArchiveRecorderError::RecoveryInconsistent(
            "configured log_id does not match existing archive log_id",
        ),
    )
}

/// The locators of the entries by sequence.
pub open spec fn entries_index(entries: Seq<CommitEntry>) -> Seq<(u64, ArchiveLocator)> {
    Seq::new(entries.len(), |i: int| (entries[i].sequence, entries[i].locator))
}

/// Collects the locators of the entries.
fn index_entries(entries: &[CommitEntry]) -> (index: SequenceIndex)
    ensures
        index@ == entries_index(entries@),
{
    let mut index: SequenceIndex = Vec::new();
    let n: usize = entries.len();
    for i in 0..n
        invariant
            n == entries@.len(),
            index@.len() == i,
            forall|k: int| 0 <= k < i ==> #[trigger] index@[k] == entries_index(entries@)[k],
    {
        index.push((entries[i].sequence, entries[i].locator));
    }
    assert(index@ =~= entries_index(entries@));
    index
}

/// The state of a recorder that goes on behind the entries.
pub open spec fn resumed_state(
    config: RecorderConfig,
    backend: EffectiveAsyncIoBackend,
    disk: DiskRecorderState,
    entries: Seq<CommitEntry>,
) -> RecorderState {
    let last = if entries.len() == 0 {
        None
    } else {
        Some(entries.last())
    };
    RecorderState {
        next_commit_ordinal: match last {
            None => 1,
            Some(entry) => next_number(entry.commit_ordinal),
        },
        last_sequence: match last {
            None => None,
            Some(entry) => Some(entry.sequence),
        },
        last_durable_data_sequence: match last {
            None => None,
            Some(entry) => Some(entry.sequence),
        },
        last_durable_commit_ordinal: match last {
            None => None,
            Some(entry) => if entry.commit_ordinal == 0 {
                None
            } else {
                Some(entry.commit_ordinal)
            },
        },
        ..fresh_state(config, backend, Some(disk))
    }
}

/// What recovery reports.
pub open spec fn recovery_report(
    catalog_segments: nat,
    entries: nat,
    key: SegmentKey,
    commits: ActiveCommits,
    segment_truncated_bytes: u64,
    commit_log_truncated_bytes: int,
) -> ArchiveRecoveryStatus {
    ArchiveRecoveryStatus {
        recovered_existing_archive: true,
        catalog_segments_loaded: catalog_segments as u64,
        commit_entries_loaded: entries as u64,
        active_segment_id: key.0,
        active_segment_generation: key.1,
        active_segment_records: commits.records,
        segment_truncation_events: if segment_truncated_bytes > 0 {
            1
        } else {
            0
        },
        segment_truncated_bytes,
        commit_log_truncated_bytes: commit_log_truncated_bytes as u64,
        recovery_duration_ns: 0,
    }
}

/// The recorder takes up its active segment and enforces its caps.
#[verifier::opaque]
pub open spec fn segment_resumed(
    state: RecorderState,
    store: StoreModel,
    entries: Seq<CommitEntry>,
    catalog_segments: nat,
    key: SegmentKey,
    commit_log_truncated_bytes: int,
    now_ns: u64,
) -> Startup {
    let commits = active_commits(entries, key, entries.len() as int);
    let opened = segment_opened(state, store, key.0, now_ns);
    let tail = tail_recovered(opened.state, opened.store, commits);
    match (opened.result, tail.result) {
        (Err(error), _) => Startup { store: opened.store, result: Err(error) },
        (Ok(()), Err(error)) => Startup { store: tail.store, result: Err(error) },
        (Ok(()), Ok(truncated)) => {
            let reported = RecorderState {
                recovery_status: recovery_report(
                    catalog_segments,
                    entries.len(),
                    key,
                    commits,
                    truncated,
                    commit_log_truncated_bytes,
                ),
                ..tail.state
            };
            let retained = retention_enforced(
                recorder_with(reported, entries_index(entries)),
                tail.store,
            );
            match retained.result {
                Err(error) => Startup { store: retained.store, result: Err(error) },
                Ok(()) => started(
                    retained.recorder.index,
                    retained.store,
                    retained.recorder.state,
                ),
            }
        },
    }
}

/// The commit logs are taken up, and then the active segment.
#[verifier::opaque]
pub open spec fn logs_resumed(
    config: RecorderConfig,
    store: StoreModel,
    ring_available: bool,
    now_ns: u64,
) -> Startup {
    let logs = commit_logs(store);
    match (catalog_entries(store), rolled_entries(store, config.log_id@, logs, logs.len() as int)) {
        (Err(error), _) => Startup { store, result: Err(error) },
        (Ok(_), Err(error)) => Startup { store, result: Err(error) },
        (Ok(summaries), Ok(rolled)) => match commit_log_recovery_error(store) {
            Some(error) => Startup { store, result: Err(error) },
            None => {
                let entries = rolled + kept_entries(store);
                let (reserved, len) = preallocated(
                    commit_log_recovered(store),
                    kept_end(store) as u64,
                    config.metadata_log_preallocate_entries,
                    config.metadata_log_roll_bytes,
                );
                let key = active_segment_for_recovery(
                    reserved,
                    data_segments(store),
                    summaries,
                    entries,
                    config.segment_generation,
                );
                match (
                    len,
                    disorder(entries, entries.len() as int),
                    effective_backend(config.async_io_backend, ring_available),
                ) {
                    (Err(error), _, _) => Startup { store: reserved, result: Err(error) },
                    (Ok(_), Some(message), _) => Startup {
                        store: reserved,
                        result: Err(ArchiveRecorderError::RecoveryInconsistent(message)),
                    },
                    (Ok(_), None, Err(error)) => Startup { store: reserved, result: Err(error) },
                    (Ok(len), None, Ok(backend)) => segment_resumed(
                        resumed_state(
                            RecorderConfig { segment_generation: key.1, ..config },
                            backend,
                            DiskRecorderState {
                                commit_log_write_offset: kept_end(store) as u64,
                                commit_log_preallocated_len: len,
                                commit_log_roll_index: 1,
                                active_segment: None,
                            },
                            entries,
                        ),
                        reserved,
                        entries,
                        summaries.len(),
                        key,
                        store.bytes(ArchiveFile::CommitLog).len() - kept_end(store),
                        now_ns,
                    ),
                }
            },
        },
    }
}

/// An existing archive is taken up.
#[verifier::opaque]
pub open spec fn archive_recovered(
    config: RecorderConfig,
    store: StoreModel,
    ring_available: bool,
    now_ns: u64,
) -> Startup {
    let missing = |path: ArchivePath|
        Err::<RecorderModel, ArchiveRecorderError>(
            ArchiveRecorderError::MissingArchiveComponent(path),
        );
    let tiered = if store.directories.contains(ArchiveDirectory::Detached) {
        store
    } else {
        store.with_directory(ArchiveDirectory::Detached)
    };
    let pinned = if tiered.directories.contains(ArchiveDirectory::Pins) {
        tiered
    } else {
        tiered.with_directory(ArchiveDirectory::Pins)
    };
    if !store.has(ArchiveFile::Catalog) {
        Startup { store, result: missing(ArchivePath::File(ArchiveFile::Catalog)) }
    } else if !store.directories.contains(ArchiveDirectory::Segments) {
        Startup { store, result: missing(ArchivePath::Directory(ArchiveDirectory::Segments)) }
    } else if !tiered.has(ArchiveFile::CommitLog) {
        Startup { store: tiered, result: missing(ArchivePath::File(ArchiveFile::CommitLog)) }
    } else {
        match recovered_log_id(config, tiered) {
            Err(error) => Startup { store: tiered, result: Err(error) },
            Ok(log_id) => logs_resumed(
                RecorderConfig { log_id, ..config },
                pinned,
                ring_available,
                now_ns,
            ),
        }
    }
}

/// Takes up the active segment and enforces the caps.
fn resume_segment(
    state: RecorderState,
    store: &mut ArchiveStore,
    entries: &[CommitEntry],
    catalog_segments: usize,
    key: SegmentKey,
    commit_log_truncated_bytes: u64,
    now_ns: u64,
) -> (result: Result<ArchiveRecorder, ArchiveRecorderError>)
    requires
        state.wf(),
        state.disk is Some,
    ensures
        final(store).base() == old(store).base(),
        ({
            let startup = segment_resumed(
                state,
                old(store)@,
                entries@,
                catalog_segments as nat,
                key,
                commit_log_truncated_bytes as int,
                now_ns,
            );
            final(store)@ == startup.store && startup.describes(result)
        }),
{
    reveal(segment_resumed);
    let mut state = state;
    proof {
        crate::recorder::segment_opened_keeps(state, store@, key.0, now_ns);
    }
    match state.open_new_active_segment(store, key.0, now_ns) {
        Ok(()) => {},
        Err(error) => {
            return Err(error);
        },
    }
    let commits = collect_active_commits(entries, key);
    let truncated: u64 = match state.recover_active_segment_tail(store, commits) {
        Ok(truncated) => truncated,
        Err(error) => {
            return Err(error);
        },
    };
    state.recovery_status =
    ArchiveRecoveryStatus {
        recovered_existing_archive: true,
        catalog_segments_loaded: catalog_segments as u64,
        commit_entries_loaded: entries.len() as u64,
        active_segment_id: key.0,
        active_segment_generation: key.1,
        active_segment_records: commits.records,
        segment_truncation_events: if truncated > 0 {
            1
        } else {
            0
        },
        segment_truncated_bytes: truncated,
        commit_log_truncated_bytes,
        recovery_duration_ns: 0,
    };
    let mut recorder = ArchiveRecorder::assembled(state, index_entries(entries));
    match recorder.enforce_retention_cap(store) {
        Ok(()) => {},
        Err(error) => {
            return Err(error);
        },
    }
    match recorder.enforce_metadata_log_cap(store) {
        Ok(()) => {},
        Err(error) => {
            return Err(error);
        },
    }
    assert(recorder@ =~= recorder_with(recorder@.state, recorder@.index));
    Ok(recorder)
}

/// The state of a recorder that goes on behind the entries.
fn resume_state(
    config: RecorderConfig,
    backend: EffectiveAsyncIoBackend,
    disk: DiskRecorderState,
    entries: &[CommitEntry],
) -> (state: RecorderState)
    ensures
        state == resumed_state(config, backend, disk, entries@),
{
    let mut state = new_state(config, backend, Some(disk));
    if entries.len() > 0 {
        let last = entries[entries.len() - 1];
        state.next_commit_ordinal = following(last.commit_ordinal);
        state.last_sequence = Some(last.sequence);
        state.last_durable_data_sequence = Some(last.sequence);
        if last.commit_ordinal != 0 {
            state.last_durable_commit_ordinal = Some(last.commit_ordinal);
        }
    }
    state
}

/// Takes up the commit logs, and then the active segment.
fn resume_logs(
    config: RecorderConfig,
    store: &mut ArchiveStore,
    ring_available: bool,
    now_ns: u64,
) -> (result: Result<ArchiveRecorder, ArchiveRecorderError>)
    requires
        config.wf(),
        config.persistence_mode != PersistenceMode::Volatile,
    ensures
        final(store).base() == old(store).base(),
        ({
            let startup = logs_resumed(config, old(store)@, ring_available, now_ns);
            final(store)@ == startup.store && startup.describes(result)
        }),
{
    reveal(logs_resumed);
    let summaries = match read_catalog_entries(store) {
        Ok(summaries) => summaries,
        Err(error) => {
            return Err(error);
        },
    };
    let segments = list_data_segments(store);
    let mut entries = match read_rolled_entries(store, &config.log_id) {
        Ok(entries) => entries,
        Err(error) => {
            return Err(error);
        },
    };
    let recovery = match recover_commit_log_entries(store) {
        Ok(recovery) => recovery,
        Err(error) => {
            return Err(error);
        },
    };
    append_entries(&mut entries, &recovery.entries);
    let len: u64 = match preallocate_metadata_log(
        store,
        recovery.logical_end_offset,
        config.metadata_log_preallocate_entries,
        config.metadata_log_roll_bytes,
    ) {
        Ok(len) => len,
        Err(error) => {
            return Err(error);
        },
    };
    match check_commit_order(&entries) {
        Some(message) => {
            return Err(ArchiveRecorderError::RecoveryInconsistent(message));
        },
        None => {},
    }
    let key = determine_active_segment_for_recovery(
        store,
        &segments,
        &summaries,
        &entries,
        config.segment_generation,
    );
    let backend = match select_backend(config.async_io_backend, ring_available) {
        Ok(backend) => backend,
        Err(error) => {
            return Err(error);
        },
    };
    let disk = DiskRecorderState {
        commit_log_write_offset: recovery.logical_end_offset,
        commit_log_preallocated_len: len,
        commit_log_roll_index: 1,
        active_segment: None,
    };
    let state = resume_state(
        RecorderConfig { segment_generation: key.1, ..config },
        backend,
        disk,
        &entries,
    );
    resume_segment(
        state,
        store,
        &entries,
        summaries.len(),
        key,
        recovery.truncated_bytes,
        now_ns,
    )
}

/// Takes up an existing archive.
pub fn recover_existing_archive(
    config: RecorderConfig,
    store: &mut ArchiveStore,
    ring_available: bool,
    now_ns: u64,
) -> (result: Result<ArchiveRecorder, ArchiveRecorderError>)
    requires
        config.wf(),
        config.persistence_mode != PersistenceMode::Volatile,
    ensures
        final(store).base() == old(store).base(),
        ({
            let startup = archive_recovered(config, old(store)@, ring_available, now_ns);
            final(store)@ == startup.store && startup.describes(result)
        }),
{
    reveal(archive_recovered);
    if !store.contains(ArchiveFile::Catalog) {
        return Err(
            ArchiveRecorderError::MissingArchiveComponent(ArchivePath::File(ArchiveFile::Catalog)),
        );
    }
    if !store.directory_exists(ArchiveDirectory::Segments) {
        return Err(
            ArchiveRecorderError::MissingArchiveComponent(
                ArchivePath::Directory(ArchiveDirectory::Segments),
            ),
        );
    }
    if !store.directory_exists(ArchiveDirectory::Detached) {
        store.create_directory(
            ArchiveDirectory::Detached,
            "create detached segments directory during recovery",
        );
    }
    if !store.contains(ArchiveFile::CommitLog) {
        return Err(
            ArchiveRecorderError::MissingArchiveComponent(
                ArchivePath::File(ArchiveFile::CommitLog),
            ),
        );
    }
    let log_id = match read_recovered_log_id(&config, store) {
        Ok(log_id) => log_id,
        Err(error) => {
            return Err(error);
        },
    };
    if !store.directory_exists(ArchiveDirectory::Pins) {
        store.create_directory(
            ArchiveDirectory::Pins,
            "create replay pin directory during recovery",
        );
    }
    resume_logs(RecorderConfig { log_id, ..config }, store, ring_available, now_ns)
}

} // verus!
