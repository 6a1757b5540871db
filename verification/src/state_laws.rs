//! What opening segments and rolling the commit log leave behind, in terms of the files that are
//! there before and after.

use crate::commit_log::commit_logs;
use crate::error::{ArchiveFile, ArchiveRecorderError, IoFault};
use crate::history::free_index_is_free;
use crate::recorder::{next_sequence, refusal};
use crate::state::{
    all_spares_created, commit_log_ensured, commit_log_rolled_if_needed, logs_len,
    metadata_bytes, metadata_cap_enforced, segment_opened, spare_created, spares_created,
    spares_keep_state, write_failed, RecorderState,
};
use crate::store::StoreModel;
use crate::types::ArchiveSegmentTier;
use vstd::prelude::*;

verus! {

/// The data file of an attached segment.
pub open spec fn attached_data(segment_id: u64, segment_generation: u32) -> ArchiveFile {
    ArchiveFile::SegmentData {
        tier: ArchiveSegmentTier::HotAttached,
        segment_id,
        segment_generation,
    }
}

/// A commit log in which the next entry fits is left alone. Else it is cut behind its last entry
/// and kept under an index that no rolled log has, and a new one is begun; every other file stays
/// as it was.
pub proof fn full_log_is_rolled_and_kept(state: RecorderState, store: StoreModel, now_ns: u64)
    requires
        state.disk is Some,
        state.stats.metadata_log_rolls < u64::MAX,
    ensures
        ({
            let step = commit_log_rolled_if_needed(state, store, now_ns);
            let before = state.disk->Some_0;
            let now = step.state.disk->Some_0;
            let fits = before.commit_log_write_offset + 104 <= state.config.metadata_log_roll_bytes;
            &&& fits ==> step.state == state && step.store == store && step.result is Ok
            &&& !fits && step.result is Ok ==> {
                &&& now.commit_log_write_offset == 76
                &&& 76 <= now.commit_log_preallocated_len <= state.config.metadata_log_roll_bytes
                &&& step.store.has(ArchiveFile::CommitLog)
                &&& step.store.bytes(ArchiveFile::CommitLog).len()
                    == now.commit_log_preallocated_len
                &&& step.state.stats.metadata_log_rolls == state.stats.metadata_log_rolls + 1
                &&& now.active_segment == before.active_segment
                &&& exists|index: u64|
                    {
                        let kept = #[trigger] step.store.bytes(
                            ArchiveFile::RolledCommitLog { index },
                        );
                        let log = store.bytes(ArchiveFile::CommitLog);
                        &&& index >= before.commit_log_roll_index
                        &&& !store.has(ArchiveFile::RolledCommitLog { index })
                        &&& step.store.has(ArchiveFile::RolledCommitLog { index })
                        &&& kept.len() == before.commit_log_write_offset
                        &&& forall|i: int|
                            0 <= i < kept.len() && i < log.len() ==> #[trigger] kept[i] == log[i]
                        &&& forall|file: ArchiveFile|
                            file != ArchiveFile::CommitLog
                                && file != (ArchiveFile::RolledCommitLog { index })
                                ==> (#[trigger] step.store.files.contains_key(file)
                                <==> store.files.contains_key(file)) && (store.files.contains_key(
                                file,
                            ) ==> step.store.files[file] == store.files[file])
                    }
            }
        }),
{
    let step = commit_log_rolled_if_needed(state, store, now_ns);
    let before = state.disk->Some_0;
    if before.commit_log_write_offset + 104 > state.config.metadata_log_roll_bytes
        && step.result is Ok {
        let log = ArchiveFile::CommitLog;
        let cut = crate::state::commit_log_truncated(state, store.synced(log));
        free_index_is_free(cut.store, before.commit_log_roll_index);
        let index = crate::state::free_roll_index(
            cut.store,
            before.commit_log_roll_index,
        )->Some_0;
        let rolled = ArchiveFile::RolledCommitLog { index };
        assert(cut.store.has(rolled) == store.has(rolled));
        assert(step.store.bytes(rolled) == cut.store.bytes(log));
        assert(step.store.bytes(rolled).len() == before.commit_log_write_offset);
    }
}

/// Room that is made for the next entry reaches behind that entry and not beyond the size at which
/// the log is rolled, and leaves what is written as it was.
pub proof fn next_entry_has_room(state: RecorderState, store: StoreModel)
    requires
        state.disk is Some,
        state.disk->Some_0.commit_log_write_offset + 104 <= u64::MAX,
        commit_log_ensured(state, store).result is Ok,
    ensures
        ({
            let step = commit_log_ensured(state, store);
            let before = state.disk->Some_0;
            let now = step.state.disk->Some_0;
            let log = ArchiveFile::CommitLog;
            &&& now.commit_log_preallocated_len >= before.commit_log_write_offset + 104
            &&& now.commit_log_write_offset == before.commit_log_write_offset
            &&& step.result->Ok_0 <==> before.commit_log_preallocated_len
                < before.commit_log_write_offset + 104
            &&& !step.result->Ok_0 ==> step.store == store && step.state == state
            &&& step.result->Ok_0 ==> {
                &&& now.commit_log_preallocated_len <= state.config.metadata_log_roll_bytes
                &&& step.store.bytes(log).len() == now.commit_log_preallocated_len
                &&& forall|i: int|
                    0 <= i < before.commit_log_write_offset && i < store.bytes(log).len()
                        ==> #[trigger] step.store.bytes(log)[i] == store.bytes(log)[i]
                &&& forall|file: ArchiveFile|
                    file != log ==> step.store.files.contains_key(file)
                        == store.files.contains_key(file) && #[trigger] step.store.files[file]
                        == store.files[file]
            }
        }),
{
}

/// Preparing segments ahead leaves behind a file for each of them. The files that were there stay
/// as they were.
pub proof fn spare_segments_are_there(
    state: RecorderState,
    store: StoreModel,
    segment_id: u64,
    end: u64,
    now_ns: u64,
)
    requires
        spares_created(state, store, segment_id, end, now_ns).result is Ok,
    ensures
        ({
            let step = spares_created(state, store, segment_id, end, now_ns);
            let generation = state.config.segment_generation;
            &&& forall|id: u64|
                segment_id <= id < end ==> step.store.has(#[trigger] attached_data(id, generation))
            &&& forall|file: ArchiveFile| #[trigger]
                store.has(file) ==> step.store.has(file) && step.store.files[file]
                    == store.files[file]
            &&& forall|file: ArchiveFile| #[trigger]
                step.store.has(file) && !store.has(file) ==> exists|id: u64|
                    segment_id <= id < end && file == #[trigger] attached_data(id, generation)
                        && step.store.bytes(file).len() == state.config.segment_bytes
        }),
    decreases end - segment_id,
{
    if segment_id < end {
        let first = spare_created(state, store, segment_id, now_ns);
        let generation = state.config.segment_generation;
        let next = (segment_id + 1) as u64;
        spare_segments_are_there(first.state, first.store, next, end, now_ns);
        let step = spares_created(state, store, segment_id, end, now_ns);
        let file = attached_data(segment_id, generation);
        assert(first.store.has(file));
        assert forall|id: u64| segment_id <= id < end implies step.store.has(
            #[trigger] attached_data(id, generation),
        ) by {
            if id > segment_id {
                assert(next <= id);
            }
        }
        assert forall|other: ArchiveFile| #[trigger] store.has(other) implies step.store.has(other)
            && step.store.files[other] == store.files[other] by {
            assert(first.store.has(other));
        }
        assert forall|other: ArchiveFile| #[trigger]
            step.store.has(other) && !store.has(other) implies exists|id: u64|
            segment_id <= id < end && other == #[trigger] attached_data(id, generation)
                && step.store.bytes(other).len() == state.config.segment_bytes by {
            if first.store.has(other) {
                assert(other == attached_data(segment_id, generation));
            } else {
                let id = choose|id: u64|
                    next <= id < end && other == #[trigger] attached_data(id, generation)
                        && step.store.bytes(other).len() == state.config.segment_bytes;
                assert(other == attached_data(id, generation));
            }
        }
    }
}

/// A recorder prepares as many segments ahead as it is configured to, and none without reserving
/// whole segments.
pub proof fn as_many_spares_as_configured(
    state: RecorderState,
    store: StoreModel,
    start: u64,
    now_ns: u64,
)
    requires
        all_spares_created(state, store, start, now_ns).result is Ok,
        start + state.config.spare_preallocated_segments <= u64::MAX,
    ensures
        ({
            let step = all_spares_created(state, store, start, now_ns);
            let generation = state.config.segment_generation;
            let end = start + state.config.spare_preallocated_segments;
            &&& !state.config.segment_preallocate ==> step.store == store
            &&& state.config.segment_preallocate ==> forall|id: u64|
                start <= id < end ==> step.store.has(#[trigger] attached_data(id, generation))
            &&& forall|file: ArchiveFile| #[trigger]
                step.store.has(file) && !store.has(file) ==> exists|id: u64|
                    start <= id < end && file == #[trigger] attached_data(id, generation)
        }),
{
    if state.config.segment_preallocate && state.config.spare_preallocated_segments > 0 {
        let end = (start + state.config.spare_preallocated_segments) as u64;
        spare_segments_are_there(state, store, start, end, now_ns);
        let step = all_spares_created(state, store, start, now_ns);
        let generation = state.config.segment_generation;
        assert forall|file: ArchiveFile| #[trigger]
            step.store.has(file) && !store.has(file) implies exists|id: u64|
            start <= id < end && file == #[trigger] attached_data(id, generation) by {
            let id = choose|id: u64|
                start <= id < end && file == #[trigger] attached_data(id, generation)
                    && step.store.bytes(file).len() == state.config.segment_bytes;
            assert(file == attached_data(id, generation));
        }
    }
}

/// A segment that is opened becomes the active one. It holds no record, and the first goes directly
/// behind the header of its file, which is there.
pub proof fn opened_segment_holds_no_record(
    state: RecorderState,
    store: StoreModel,
    segment_id: u64,
    now_ns: u64,
)
    requires
        state.disk is Some,
        segment_opened(state, store, segment_id, now_ns).result is Ok,
        segment_id < u64::MAX,
        segment_id + 1 + state.config.spare_preallocated_segments <= u64::MAX,
    ensures
        ({
            let step = segment_opened(state, store, segment_id, now_ns);
            let active = step.state.disk->Some_0.active_segment->Some_0;
            let file = attached_data(segment_id, state.config.segment_generation);
            &&& step.state.is_open()
            &&& active.segment_id == segment_id
            &&& active.segment_generation == state.config.segment_generation
            &&& active.write_offset == 76
            &&& active.records == 0
            &&& active.sequence_start is None
            &&& active.sequence_end is None
            &&& active.created_at_ns == now_ns
            &&& step.store.has(file)
            &&& state.config.segment_preallocate ==> step.store.bytes(file).len()
                == state.config.segment_bytes
            &&& step.state.config == state.config
            &&& step.state.last_sequence == state.last_sequence
            &&& step.state.next_commit_ordinal == state.next_commit_ordinal
        }),
{
    let file = attached_data(segment_id, state.config.segment_generation);
    let step = segment_opened(state, store, segment_id, now_ns);
    let placed = if store.has(file) {
        store
    } else {
        store.with_empty(file)
    };
    let headed = crate::catalog::header_written(
        placed,
        file,
        crate::header::ArchiveFileKind::SegmentData,
        state.config.log_id@,
        segment_id,
        state.config.segment_generation,
        now_ns,
    ).0;
    let sized = if state.config.segment_preallocate {
        headed.with_len(file, state.config.segment_bytes as u64)
    } else {
        headed
    };
    let noted = if state.config.segment_preallocate && !store.has(file) {
        crate::state::preallocation_counted(state)
    } else {
        state
    };
    let opened = noted.with_active(
        Some(crate::state::opened_segment(state.config, segment_id, now_ns)),
    );
    let next = (segment_id + 1) as u64;
    assert(sized.has(file));
    if state.config.segment_preallocate && state.config.spare_preallocated_segments > 0 {
        let end = (next + state.config.spare_preallocated_segments) as u64;
        spare_segments_are_there(opened, sized, next, end, now_ns);
        spares_keep_state(opened, sized, next, end, now_ns);
        assert(step.store.files[file] == sized.files[file]);
    }
}

/// The length of the first `n` logs together.
pub open spec fn length_of_logs(store: StoreModel, logs: Seq<ArchiveFile>, n: int) -> int
    decreases n,
{
    if n <= 0 {
        0
    } else {
        length_of_logs(store, logs, n - 1) + store.bytes(logs[n - 1]).len()
    }
}

proof fn logs_len_is_the_sum(store: StoreModel, logs: Seq<ArchiveFile>, n: int)
    requires
        0 <= n <= logs.len(),
    ensures
        0 <= length_of_logs(store, logs, n),
        length_of_logs(store, logs, n) <= u64::MAX ==> logs_len(store, logs, n) == length_of_logs(
            store,
            logs,
            n,
        ),
    decreases n,
{
    if n > 0 {
        logs_len_is_the_sum(store, logs, n - 1);
    }
}

/// A recorder that writes to disk fails exactly where its commit logs together are longer than
/// their cap, and takes no more records then.
pub proof fn commit_logs_are_held_to_their_cap(state: RecorderState, store: StoreModel)
    requires
        length_of_logs(store, commit_logs(store), commit_logs(store).len() as int) <= u64::MAX,
    ensures
        ({
            let step = metadata_cap_enforced(state, store);
            let total = length_of_logs(store, commit_logs(store), commit_logs(store).len() as int);
            &&& step.store == store
            &&& step.result is Err <==> !(state.config.persistence_mode is Volatile) && total
                > state.config.metadata_log_max_bytes
            &&& step.result is Ok ==> step.state == state
            &&& step.result is Err ==> step.state.degraded && step.result->Err_0 == (
            ArchiveRecorderError::MetadataLogCapacityExceeded {
                max_bytes: state.config.metadata_log_max_bytes,
                required_bytes: total as u64,
            })
        }),
{
    logs_len_is_the_sum(store, commit_logs(store), commit_logs(store).len() as int);
    assert(metadata_bytes(store) == length_of_logs(
        store,
        commit_logs(store),
        commit_logs(store).len() as int,
    ));
}

/// A record is refused exactly where the recorder is finalized or degraded, or where its sequence
/// is not larger than the last one.
pub proof fn records_are_refused_in_the_wrong_order(state: RecorderState, sequence: u64)
    ensures
        refusal(state, sequence) is None <==> {
            &&& !state.finalized
            &&& !state.degraded
            &&& state.last_sequence is Some ==> state.last_sequence->Some_0 < sequence
        },
        refusal(state, sequence) is Some && !state.finalized && !state.degraded ==> refusal(
            state,
            sequence,
        ) == Some(
            ArchiveRecorderError::SequenceNotMonotonic {
                previous: state.last_sequence->Some_0,
                next: sequence,
            },
        ),
        state.finalized ==> refusal(state, sequence) == Some(ArchiveRecorderError::Finalized),
{
}

/// The sequence that a recorder gives is the smallest that it does not refuse, but zero.
pub proof fn given_sequence_is_the_next_one(state: RecorderState)
    requires
        !state.finalized,
        !state.degraded,
    ensures
        match next_sequence(state) {
            Some(sequence) => {
                &&& sequence > 0
                &&& refusal(state, sequence) is None
                &&& forall|other: u64| 0 < other < sequence ==> #[trigger] refusal(state, other) is Some
            },
            None => forall|other: u64| #[trigger] refusal(state, other) is Some,
        },
{
}

/// A write that fails degrades the recorder. A full disk is told and counted apart from the other
/// failures, which are reported as they are.
pub proof fn failed_write_degrades(state: RecorderState, error: ArchiveRecorderError)
    requires
        state.stats.out_of_space_events < u64::MAX,
    ensures
        ({
            let (after, reported) = write_failed(state, error);
            let full = error is Io && error->Io_source == IoFault::Os(28);
            &&& after.degraded
            &&& full ==> reported == ArchiveRecorderError::OutOfSpace(error->Io_path)
                && after.stats.out_of_space_events == state.stats.out_of_space_events + 1
            &&& !full ==> reported == error && after.stats == state.stats
            &&& after.next_commit_ordinal == state.next_commit_ordinal
            &&& after.last_sequence == state.last_sequence
            &&& after.disk == state.disk
        }),
{
}

} // verus!
