//! The commit logs never outgrow the cap that the configuration sets on them.

use crate::commit_entry::{entry_round_trip, CommitEntry, COMMIT_ENTRY_MAGIC};
use crate::commit_log::{commit_logs, is_rolled_list, rolled_indexes, rolled_list_unique};
use crate::error::ArchiveFile;
use crate::frame::{encoded_len, FrameInput};
use crate::guarantees::{append_shape, needs_roll, numbered};
use crate::history::{
    history, history_has_files, history_kept, history_numbered, history_reserved, history_rolled,
    is_log, roll_keeps, same_log_state, same_logs, same_logs_same_entries, sealed_leaves_logs,
    segment_opened_leaves_logs,
};
use crate::recorder::{
    entry_room_made, entry_written, frame_written, record_appended, record_entry, record_written,
    sealed, sealed_keeps, RecordModel, RecorderModel,
};
use crate::startup::{
    archive_created, archive_files_created, effective_backend, fresh_state,
};
use crate::state::{
    commit_log_ensured, commit_log_rolled_if_needed, logs_len, metadata_bytes, segment_opened,
    DiskRecorderState, RecorderConfig, RecorderState,
};
use crate::store::StoreModel;
use crate::types::{ArchiveSourceMetadata, PersistenceMode};
use vstd::prelude::*;

verus! {

/// The commit logs together keep to their cap, and the active one is at least as long as the room
/// that the recorder has reserved in it.
pub open spec fn logs_within_cap(state: RecorderState, store: StoreModel) -> bool {
    &&& state.disk is Some
    &&& state.disk->Some_0.commit_log_preallocated_len <= store.bytes(ArchiveFile::CommitLog).len()
    &&& metadata_bytes(store) <= state.config.metadata_log_max_bytes
}

/// The two stores have commit logs of the same lengths.
spec fn same_lengths(a: StoreModel, b: StoreModel) -> bool {
    forall|file: ArchiveFile|
        is_log(file) ==> #[trigger] a.has(file) == b.has(file) && a.bytes(file).len() == b.bytes(
            file,
        ).len()
}

/// Logs of the same lengths have the same total length.
proof fn lengths_add_up(a: StoreModel, b: StoreModel, logs: Seq<ArchiveFile>, n: int)
    requires
        same_lengths(a, b),
        0 <= n <= logs.len(),
        forall|k: int| #![trigger logs[k]] 0 <= k < logs.len() ==> is_log(logs[k]),
    ensures
        logs_len(a, logs, n) == logs_len(b, logs, n),
    decreases n,
{
    if n > 0 {
        lengths_add_up(a, b, logs, n - 1);
        assert(is_log(logs[n - 1]));
        assert(a.has(logs[n - 1]) == b.has(logs[n - 1]));
    }
}

/// Stores whose logs have the same lengths use the same room for them.
proof fn same_lengths_same_bytes(a: StoreModel, b: StoreModel)
    requires
        same_lengths(a, b),
        is_rolled_list(a, rolled_indexes(a)),
        is_rolled_list(b, rolled_indexes(b)),
    ensures
        metadata_bytes(a) == metadata_bytes(b),
{
    let r = rolled_indexes(a);
    assert(is_rolled_list(b, r)) by {
        assert forall|index: u64| #[trigger] r.contains(index) <==> b.has(
            ArchiveFile::RolledCommitLog { index },
        ) by {
            assert(a.has(ArchiveFile::RolledCommitLog { index }) == b.has(
                ArchiveFile::RolledCommitLog { index },
            ));
        }
    }
    rolled_list_unique(b, r);
    assert(a.has(ArchiveFile::CommitLog) == b.has(ArchiveFile::CommitLog));
    assert(commit_logs(a) == commit_logs(b));
    lengths_add_up(a, b, commit_logs(a), commit_logs(a).len() as int);
}

/// The logs keep to the cap where neither they nor the recorder's place in them change.
proof fn cap_kept(
    state: RecorderState,
    store: StoreModel,
    later: RecorderState,
    after: StoreModel,
)
    requires
        logs_within_cap(state, store),
        is_rolled_list(store, rolled_indexes(store)),
        same_logs(store, after),
        same_log_state(state, later),
    ensures
        logs_within_cap(later, after),
{
    same_logs_same_entries(store, after);
    assert(same_lengths(store, after));
    same_lengths_same_bytes(store, after);
    assert(store.has(ArchiveFile::CommitLog) == after.has(ArchiveFile::CommitLog));
}

/// A recorder with a history has a list of its rolled logs.
proof fn history_has_list(state: RecorderState, store: StoreModel, entries: Seq<CommitEntry>)
    requires
        history(state, store, entries),
    ensures
        is_rolled_list(store, rolled_indexes(store)),
        store.has(ArchiveFile::CommitLog),
        state.disk is Some,
{
    reveal(history);
}

/// Room that was made for an entry keeps to the cap, and the entry fits in it.
proof fn room_keeps_cap(
    state: RecorderState,
    store: StoreModel,
    now_ns: u64,
    entries: Seq<CommitEntry>,
)
    requires
        history(state, store, entries),
        state.wf(),
        logs_within_cap(state, store),
        entry_room_made(state, store, now_ns).result is Ok,
    ensures
        ({
            let room = entry_room_made(state, store, now_ns);
            let disk = room.state.disk->Some_0;
            &&& history(room.state, room.store, entries)
            &&& logs_within_cap(room.state, room.store)
            &&& disk.commit_log_write_offset + 104 <= disk.commit_log_preallocated_len
        }),
{
    history_has_files(state, store, entries);
    let rolled = commit_log_rolled_if_needed(state, store, now_ns);
    if state.disk->Some_0.commit_log_write_offset + 104 > state.config.metadata_log_roll_bytes {
        history_rolled(state, store, now_ns, entries);
    }
    assert(logs_within_cap(rolled.state, rolled.store));
    roll_keeps(state, store, now_ns);
    history_reserved(rolled.state, rolled.store, entries);
    let room = commit_log_ensured(rolled.state, rolled.store);
    assert(logs_within_cap(room.state, room.store));
}

/// An entry that was written keeps the logs within their cap.
proof fn entry_keeps_cap(
    state: RecorderState,
    store: StoreModel,
    entry: CommitEntry,
    now_ns: u64,
    entries: Seq<CommitEntry>,
)
    requires
        history(state, store, entries),
        state.wf(),
        logs_within_cap(state, store),
        entry_written(state, store, entry, now_ns).result is Ok,
    ensures
        ({
            let step = entry_written(state, store, entry, now_ns);
            &&& logs_within_cap(step.state, step.store)
            &&& is_rolled_list(step.store, rolled_indexes(step.store))
        }),
{
    room_keeps_cap(state, store, now_ns, entries);
    let room = entry_room_made(state, store, now_ns);
    let step = entry_written(state, store, entry, now_ns);
    history_has_list(room.state, room.store, entries);
    let r = rolled_indexes(room.store);
    assert(is_rolled_list(step.store, r)) by {
        assert forall|index: u64| #[trigger] r.contains(index) <==> step.store.has(
            ArchiveFile::RolledCommitLog { index },
        ) by {
            assert(room.store.has(ArchiveFile::RolledCommitLog { index }) == step.store.has(
                ArchiveFile::RolledCommitLog { index },
            ));
        }
    }
    rolled_list_unique(step.store, r);
    entry_round_trip(entry, COMMIT_ENTRY_MAGIC@);
    assert(same_lengths(room.store, step.store));
    same_lengths_same_bytes(room.store, step.store);
}

/// A record that was written keeps the logs within their cap.
proof fn record_keeps_cap(
    recorder: RecorderModel,
    store: StoreModel,
    frame: FrameInput,
    source: ArchiveSourceMetadata,
    entries: Seq<CommitEntry>,
)
    requires
        recorder.state.wf(),
        recorder.state.is_open(),
        history(recorder.state, store, entries),
        logs_within_cap(recorder.state, store),
        recorder.state.disk->Some_0.active_segment->Some_0.write_offset + frame.frame_len()
            <= recorder.state.config.segment_bytes,
        record_written(recorder, store, frame, source).result is Ok,
    ensures
        ({
            let outcome = record_written(recorder, store, frame, source);
            logs_within_cap(outcome.recorder.state, outcome.store)
        }),
{
    let mode = recorder.state.config.checksum_mode;
    let data = frame.encoded(mode);
    let placed = frame_written(recorder.state, store, frame.sequence, data);
    let entry = record_entry(frame, placed.result->Ok_0, frame.checksum(mode), source);
    assert(same_logs(store, placed.store));
    history_has_list(recorder.state, store, entries);
    history_kept(recorder.state, store, placed.state, placed.store, entries);
    cap_kept(recorder.state, store, placed.state, placed.store);
    encoded_len(frame, mode);
    assert(placed.state.wf());
    entry_keeps_cap(placed.state, placed.store, entry, frame.commit_time_ns, entries);
    let logged = entry_written(placed.state, placed.store, entry, frame.commit_time_ns);
    let outcome = record_written(recorder, store, frame, source);
    assert(same_logs(logged.store, outcome.store));
    assert(same_log_state(logged.state, outcome.recorder.state));
    cap_kept(logged.state, logged.store, outcome.recorder.state, outcome.store);
}

/// The cap on the commit logs holds: an append that succeeds leaves the logs, the reserved room
/// counted, within the bytes that the configuration allows them.
#[verifier::spinoff_prover]
#[verifier::rlimit(60)]
pub proof fn append_keeps_log_cap(
    recorder: RecorderModel,
    store: StoreModel,
    record: RecordModel,
    source: ArchiveSourceMetadata,
    now_ns: u64,
    entries: Seq<CommitEntry>,
)
    requires
        recorder.accepts_calls(),
        history(recorder.state, store, entries),
        logs_within_cap(recorder.state, store),
        record_appended(recorder, store, record, source, now_ns).result is Ok,
    ensures
        ({
            let outcome = record_appended(recorder, store, record, source, now_ns);
            logs_within_cap(outcome.recorder.state, outcome.store)
        }),
{
    let numbered = numbered(recorder, record.sequence);
    let frame = record.frame(recorder.state.next_commit_ordinal, now_ns);
    history_has_list(recorder.state, store, entries);
    append_shape(recorder, store, record, source, now_ns);
    history_numbered(recorder, store, record.sequence, entries);
    assert(logs_within_cap(numbered.state, store));
    if needs_roll(numbered, frame) {
        let rolled = sealed(numbered, store, true, now_ns);
        sealed_keeps(numbered, store, true, now_ns);
        sealed_leaves_logs(numbered, store, true, now_ns);
        history_kept(numbered.state, store, rolled.recorder.state, rolled.store, entries);
        cap_kept(numbered.state, store, rolled.recorder.state, rolled.store);
        record_keeps_cap(rolled.recorder, rolled.store, frame, source, entries);
    } else {
        record_keeps_cap(numbered, store, frame, source, entries);
    }
}

/// A new archive starts with its commit logs within their cap.
pub proof fn created_archive_keeps_log_cap(
    config: RecorderConfig,
    store: StoreModel,
    ring_available: bool,
    now_ns: u64,
)
    requires
        config.persistence_mode != PersistenceMode::Volatile,
        archive_created(config, store, ring_available, now_ns).result is Ok,
    ensures
        ({
            let startup = archive_created(config, store, ring_available, now_ns);
            logs_within_cap(startup.result->Ok_0.state, startup.store)
        }),
{
    reveal(archive_created);
    let (prepared, reserved) = archive_files_created(config, store, now_ns);
    let disk = DiskRecorderState {
        commit_log_write_offset: 76,
        commit_log_preallocated_len: reserved->Ok_0,
        commit_log_roll_index: 1,
        active_segment: None,
    };
    let backend = effective_backend(config.async_io_backend, ring_available)->Ok_0;
    let fresh = fresh_state(config, backend, Some(disk));
    segment_opened_leaves_logs(fresh, prepared, 1, now_ns);
    let opened = segment_opened(fresh, prepared, 1, now_ns);
    assert(prepared.has(ArchiveFile::CommitLog) == opened.store.has(ArchiveFile::CommitLog));
    assert(prepared.bytes(ArchiveFile::CommitLog).len() == reserved->Ok_0);
}

} // verus!
