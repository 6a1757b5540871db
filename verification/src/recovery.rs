//! What a recovered archive keeps of its history.

use crate::bytes::all_zero;
use crate::catalog::{
    active_segment_for_recovery, catalog_entries, data_segments, next_number, preallocated,
};
use crate::commit_entry::{decode_entry, CommitEntry, COMMIT_ENTRY_MAGIC};
use crate::commit_log::{
    collected_entries, commit_log_recovered, commit_log_recovery_error, commit_logs, is_rolled_list,
    kept_end, kept_entries, log_entries, ordinal_follows, ordinals_follow, recoverable_entry,
    recovered_entries, recovered_entries_fit, rolled_indexes, rolled_list_unique, strict_entries,
};
use crate::error::{ArchiveDirectory, ArchiveFile, ArchiveReplayError};
use crate::history::{
    active_entries, history, history_kept, image_reads_back, image_resized, log_image,
    retention_enforced_leaves_logs, same_log_state, same_logs, segment_opened_leaves_logs,
};
use crate::log_cap::logs_within_cap;
use crate::order::SegmentKey;
use crate::recorder::{retention_enforced, segment_opened_keeps};
use crate::segment::locator_is_sound;
use crate::startup::{
    active_commits, archive_recovered, effective_backend, disorder, entries_index, logs_resumed,
    order_gives_increasing, recorder_with, recovered_log_id, recovery_report, resumed_state,
    rolled_entries, rolled_log, segment_resumed, tail_recovered, ActiveCommits,
};
use crate::state::{
    free_roll_index, segment_opened, DiskRecorderState, RecorderConfig, RecorderState,
};
use crate::store::{resized, StoreModel, MAX_FILE_LEN};
use crate::types::PersistenceMode;
use vstd::prelude::*;

verus! {

/// The entries that a recovery takes up: those of the rolled logs, and the longest run at the
/// start of the active log whose frames are sound.
pub open spec fn taken_up(store: StoreModel, log_id: Seq<u8>) -> Seq<CommitEntry> {
    let logs = commit_logs(store);
    rolled_entries(store, log_id, logs, logs.len() as int)->Ok_0 + kept_entries(store)
}

/// The rolled commit logs are numbered without a gap.
pub open spec fn rolled_without_gap(store: StoreModel, count: u64) -> bool {
    forall|index: u64|
        #[trigger] store.has(ArchiveFile::RolledCommitLog { index }) <==> 1 <= index <= count
}

/// The kept entries are what the log reads as, up to their end.
proof fn kept_entries_read_back(s: Seq<u8>, store: StoreModel, at: int, end: int)
    requires
        0 <= at <= end <= s.len(),
        end == at + 104 * recovered_entries(s, at, store).len(),
    ensures
        strict_entries(s.subrange(0, end), at) == Ok::<Seq<CommitEntry>, &'static str>(
            recovered_entries(s, at, store),
        ),
    decreases end - at,
{
    let p = s.subrange(0, end);
    if at < end {
        let entry = recoverable_entry(s, at, store)->Some_0;
        let rest = recovered_entries(s, at + 104, store);
        assert(recovered_entries(s, at, store) == seq![entry] + rest);
        kept_entries_read_back(s, store, at + 104, end);
        assert(p.subrange(at, at + 104) =~= s.subrange(at, at + 104));
        assert(p.subrange(at, at + 4) =~= s.subrange(at, at + 4));
        assert(p[at] == s.subrange(at, at + 4)[0]);
        assert(p.subrange(at, at + 8)[0] == p[at]);
        assert(COMMIT_ENTRY_MAGIC@[0] == 0x43);
        assert(!all_zero(p.subrange(at, at + 8)));
    } else {
        assert(recovered_entries(s, at, store) =~= Seq::<CommitEntry>::empty());
    }
}

/// The active log after recovery holds the kept entries.
proof fn recovered_log_image(store: StoreModel, len: u64)
    requires
        store.has(ArchiveFile::CommitLog),
        commit_log_recovery_error(store) is None,
        kept_end(store) <= len,
        kept_end(store) <= u64::MAX,
    ensures
        ({
            let log = ArchiveFile::CommitLog;
            let after = commit_log_recovered(store).with_len(log, len);
            &&& after.has(log)
            &&& log_image(after.bytes(log), kept_entries(store))
        }),
{
    let log = ArchiveFile::CommitLog;
    let s = store.bytes(log);
    let kept = kept_entries(store);
    let end = kept_end(store);
    recovered_entries_fit(s, 76, store);
    kept_entries_read_back(s, store, 76, end);
    let cut = resized(s, end as nat);
    assert(cut =~= s.subrange(0, end));
    assert(cut.subrange(0, 76) =~= s.subrange(0, 76));
    assert(cut.subrange(0, end) =~= cut);
    assert(log_image(cut, kept));
    image_resized(cut, kept, len as nat);
    if end >= s.len() {
        assert(cut =~= s);
    }
}

/// The entries of the first logs are the first entries of all.
proof fn rolled_prefix(
    store: StoreModel,
    log_id: Seq<u8>,
    logs: Seq<ArchiveFile>,
    i: int,
    n: int,
)
    requires
        0 <= i <= n <= logs.len(),
        rolled_entries(store, log_id, logs, n) is Ok,
    ensures
        rolled_entries(store, log_id, logs, i) is Ok,
        rolled_entries(store, log_id, logs, i)->Ok_0.is_prefix_of(
            rolled_entries(store, log_id, logs, n)->Ok_0,
        ),
    decreases n - i,
{
    if i < n {
        rolled_prefix(store, log_id, logs, i, n - 1);
        let a = rolled_entries(store, log_id, logs, i)->Ok_0;
        let b = rolled_entries(store, log_id, logs, n - 1)->Ok_0;
        let c = rolled_entries(store, log_id, logs, n)->Ok_0;
        assert(b.is_prefix_of(c)) by {
            assert(c.subrange(0, b.len() as int) =~= b);
        }
        assert(c.subrange(0, a.len() as int) =~= b.subrange(0, a.len() as int));
    }
}

/// Ordinals that follow each other do so from the start on.
proof fn follow_prefix(a: Seq<CommitEntry>, b: Seq<CommitEntry>)
    requires
        a.is_prefix_of(b),
        ordinals_follow(b),
    ensures
        ordinals_follow(a),
{
    assert forall|i: int| 0 <= i < a.len() implies #[trigger] ordinal_follows(a, i) by {
        assert(ordinal_follows(b, i));
        assert(b.subrange(0, a.len() as int) == a);
        assert(a[i] == b[i]);
        if i > 0 {
            assert(a[i - 1] == b[i - 1]);
        }
    }
}

/// The logs of a recovered store read as what was taken up.
proof fn taken_up_is_collected(
    store: StoreModel,
    after: StoreModel,
    log_id: Seq<u8>,
    logs: Seq<ArchiveFile>,
    kept: Seq<CommitEntry>,
    i: int,
)
    requires
        0 <= i < logs.len(),
        logs.last() == ArchiveFile::CommitLog,
        forall|k: int| #![trigger logs[k]] 0 <= k < logs.len() - 1 ==> logs[k] != ArchiveFile::CommitLog && log_entries(store, logs[k]) == log_entries(after, logs[k]),
        rolled_entries(store, log_id, logs, logs.len() as int) is Ok,
        log_entries(after, ArchiveFile::CommitLog) == Ok::<Seq<CommitEntry>, ArchiveReplayError>(
            kept,
        ),
        ordinals_follow(rolled_entries(store, log_id, logs, logs.len() as int)->Ok_0 + kept),
    ensures
        collected_entries(after, logs, i, rolled_entries(store, log_id, logs, i)->Ok_0) == Ok::<
            Seq<CommitEntry>,
            ArchiveReplayError,
        >(rolled_entries(store, log_id, logs, logs.len() as int)->Ok_0 + kept),
    decreases logs.len() - i,
{
    let n = logs.len() as int;
    let all = rolled_entries(store, log_id, logs, n)->Ok_0;
    rolled_prefix(store, log_id, logs, i, n);
    let before = rolled_entries(store, log_id, logs, i)->Ok_0;
    if i == n - 1 {
        assert(before == all);
        reveal_with_fuel(collected_entries, 2);
    } else {
        rolled_prefix(store, log_id, logs, i + 1, n);
        let next = rolled_entries(store, log_id, logs, i + 1)->Ok_0;
        let part = rolled_log(store, log_id, logs[i])->Ok_0;
        assert(logs[i] != ArchiveFile::CommitLog);
        assert(next == before + part);
        assert(log_entries(after, logs[i]) == Ok::<Seq<CommitEntry>, ArchiveReplayError>(part));
        let whole = all + kept;
        assert(next.is_prefix_of(whole)) by {
            assert(whole.subrange(0, next.len() as int) =~= all.subrange(0, next.len() as int));
        }
        follow_prefix(next, whole);
        taken_up_is_collected(store, after, log_id, logs, kept, i + 1);
    }
}

/// Entries in order have ordinals that follow each other.
proof fn order_gives_following(entries: Seq<CommitEntry>, n: int)
    requires
        0 <= n <= entries.len(),
        disorder(entries, n) is None,
    ensures
        forall|i: int| 0 <= i < n ==> #[trigger] ordinal_follows(entries, i),
    decreases n,
{
    if n > 0 {
        order_gives_following(entries, n - 1);
    }
}

/// Where the rolled logs are numbered without a gap, the next index is behind them.
proof fn free_index_behind(store: StoreModel, index: u64, count: u64)
    requires
        rolled_without_gap(store, count),
        1 <= index,
        index <= count + 1,
    ensures
        match free_roll_index(store, index) {
            None => true,
            Some(free) => free == count + 1,
        },
    decreases u64::MAX - index,
{
    assert(store.has(ArchiveFile::RolledCommitLog { index }) <==> 1 <= index <= count);
    if index <= count && index < u64::MAX {
        free_index_behind(store, (index + 1) as u64, count);
    }
}

/// The logs that are taken up hold the history that the recorder goes on behind.
#[verifier::spinoff_prover]
#[verifier::rlimit(60)]
proof fn resumed_history(
    state: RecorderState,
    store: StoreModel,
    log_id: Seq<u8>,
    len: u64,
    count: u64,
)
    requires
        is_rolled_list(store, rolled_indexes(store)),
        rolled_without_gap(store, count),
        store.has(ArchiveFile::CommitLog),
        commit_log_recovery_error(store) is None,
        ({
            let logs = commit_logs(store);
            rolled_entries(store, log_id, logs, logs.len() as int) is Ok
        }),
        kept_end(store) <= len,
        ({
            let entries = taken_up(store, log_id);
            &&& disorder(entries, entries.len() as int) is None
            &&& entries.len() > 0 ==> {
                &&& entries.last().commit_ordinal < state.next_commit_ordinal
                &&& state.last_sequence == Some(entries.last().sequence)
            }
        }),
        state.disk is Some,
        state.disk->Some_0.commit_log_write_offset == kept_end(store),
        state.disk->Some_0.commit_log_roll_index == 1,
    ensures
        history(
            state,
            commit_log_recovered(store).with_len(ArchiveFile::CommitLog, len),
            taken_up(store, log_id),
        ),
{
    reveal(history);
    let log = ArchiveFile::CommitLog;
    let after = commit_log_recovered(store).with_len(log, len);
    let kept = kept_entries(store);
    let entries = taken_up(store, log_id);
    recovered_log_image(store, len);
    image_reads_back(after, log, kept);
    let r = rolled_indexes(store);
    assert(is_rolled_list(after, r)) by {
        assert forall|index: u64| #[trigger] r.contains(index) <==> after.has(
            ArchiveFile::RolledCommitLog { index },
        ) by {
            assert(r.contains(index) <==> store.has(ArchiveFile::RolledCommitLog { index }));
        }
    }
    rolled_list_unique(after, r);
    let logs = commit_logs(store);
    assert(commit_logs(after) == logs);
    assert forall|k: int| #![trigger logs[k]] 0 <= k < logs.len() - 1 implies logs[k]
        != ArchiveFile::CommitLog && log_entries(store, logs[k]) == log_entries(
        after,
        logs[k],
    ) by {
        assert(logs[k] == ArchiveFile::RolledCommitLog { index: r[k] });
        assert(after.has(logs[k]) == store.has(logs[k]));
        assert(after.bytes(logs[k]) == store.bytes(logs[k]));
    }
    order_gives_following(entries, entries.len() as int);
    order_gives_increasing(entries, entries.len() as int);
    taken_up_is_collected(store, after, log_id, logs, kept, 0);
    assert(rolled_without_gap(after, count)) by {
        assert forall|index: u64| #[trigger] after.has(ArchiveFile::RolledCommitLog { index })
            <==> 1 <= index <= count by {
            assert(store.has(ArchiveFile::RolledCommitLog { index }) <==> 1 <= index <= count);
        }
    }
    free_index_behind(after, 1, count);
}

/// Cutting off the tail of the active segment leaves the commit logs and the recorder's place in
/// them alone.
proof fn tail_leaves_logs(state: RecorderState, store: StoreModel, commits: ActiveCommits)
    requires
        state.is_open(),
    ensures
        same_logs(store, tail_recovered(state, store, commits).store),
        same_log_state(state, tail_recovered(state, store, commits).state),
{
}

/// Taking up the active segment leaves the history as it is.
proof fn segment_keeps_history(
    state: RecorderState,
    store: StoreModel,
    entries: Seq<CommitEntry>,
    catalog_segments: nat,
    key: SegmentKey,
    truncated: int,
    now_ns: u64,
)
    requires
        state.wf(),
        history(state, store, entries),
        state.disk is Some,
        segment_resumed(
            state,
            store,
            entries,
            catalog_segments,
            key,
            truncated,
            now_ns,
        ).result is Ok,
    ensures
        ({
            let startup = segment_resumed(
                state,
                store,
                entries,
                catalog_segments,
                key,
                truncated,
                now_ns,
            );
            history(startup.result->Ok_0.state, startup.store, entries)
        }),
{
    reveal(segment_resumed);
    let opened = segment_opened(state, store, key.0, now_ns);
    segment_opened_leaves_logs(state, store, key.0, now_ns);
    segment_opened_keeps(state, store, key.0, now_ns);
    history_kept(state, store, opened.state, opened.store, entries);
    let commits = active_commits(entries, key, entries.len() as int);
    let tail = tail_recovered(opened.state, opened.store, commits);
    tail_leaves_logs(opened.state, opened.store, commits);
    let reported = RecorderState {
        recovery_status: recovery_report(
            catalog_segments,
            entries.len(),
            key,
            commits,
            tail.result->Ok_0,
            truncated,
        ),
        ..tail.state
    };
    history_kept(opened.state, opened.store, reported, tail.store, entries);
    let recorder = recorder_with(reported, entries_index(entries));
    retention_enforced_leaves_logs(recorder, tail.store);
    let retained = retention_enforced(recorder, tail.store);
    history_kept(reported, tail.store, retained.recorder.state, retained.store, entries);
}

/// Directories make no difference to what the files hold.
proof fn directories_do_not_matter(config: RecorderConfig, a: StoreModel, b: StoreModel)
    requires
        a.files == b.files,
        is_rolled_list(a, rolled_indexes(a)),
    ensures
        is_rolled_list(b, rolled_indexes(b)),
        commit_logs(a) == commit_logs(b),
        recovered_log_id(config, a) == recovered_log_id(config, b),
        forall|log_id: Seq<u8>| #[trigger] taken_up(a, log_id) == taken_up(b, log_id),
        forall|count: u64| #[trigger] rolled_without_gap(a, count) ==> rolled_without_gap(b, count),
{
    let r = rolled_indexes(a);
    assert(is_rolled_list(b, r)) by {
        assert forall|index: u64| #[trigger] r.contains(index) <==> b.has(
            ArchiveFile::RolledCommitLog { index },
        ) by {
            assert(r.contains(index) <==> a.has(ArchiveFile::RolledCommitLog { index }));
        }
    }
    rolled_list_unique(b, r);
    assert(commit_logs(a) =~= commit_logs(b));
    assert forall|log_id: Seq<u8>| #[trigger] taken_up(a, log_id) == taken_up(b, log_id) by {
        same_rolled(a, b, log_id, commit_logs(a), commit_logs(a).len() as int);
        same_kept(a, b, a.bytes(ArchiveFile::CommitLog), 76);
    }
    assert forall|count: u64| #[trigger] rolled_without_gap(a, count) implies rolled_without_gap(
        b,
        count,
    ) by {
        assert forall|index: u64| #[trigger] b.has(ArchiveFile::RolledCommitLog { index }) <==> 1
            <= index <= count by {
            assert(a.has(ArchiveFile::RolledCommitLog { index }) <==> 1 <= index <= count);
        }
    }
}

/// Stores with the same files have the same rolled entries.
proof fn same_rolled(
    a: StoreModel,
    b: StoreModel,
    log_id: Seq<u8>,
    logs: Seq<ArchiveFile>,
    n: int,
)
    requires
        a.files == b.files,
    ensures
        rolled_entries(a, log_id, logs, n) == rolled_entries(b, log_id, logs, n),
    decreases n,
{
    if n > 0 {
        same_rolled(a, b, log_id, logs, n - 1);
    }
}

/// Stores with the same files keep the same entries.
proof fn same_kept(a: StoreModel, b: StoreModel, s: Seq<u8>, at: int)
    requires
        a.files == b.files,
    ensures
        recovered_entries(s, at, a) == recovered_entries(s, at, b),
    decreases s.len() - at,
{
    if at + 104 <= s.len() {
        same_kept(a, b, s, at + 104);
    }
}

/// The state, the store and the active segment with which a recovery goes on behind the logs.
spec fn resumption(config: RecorderConfig, store: StoreModel, ring_available: bool) -> (
    RecorderState,
    StoreModel,
    SegmentKey,
) {
    let entries = taken_up(store, config.log_id@);
    let (reserved, len) = preallocated(
        commit_log_recovered(store),
        kept_end(store) as u64,
        config.metadata_log_preallocate_entries,
        config.metadata_log_roll_bytes,
    );
    let key = active_segment_for_recovery(
        reserved,
        data_segments(store),
        catalog_entries(store)->Ok_0,
        entries,
        config.segment_generation,
    );
    let state = resumed_state(
        RecorderConfig { segment_generation: key.1, ..config },
        effective_backend(config.async_io_backend, ring_available)->Ok_0,
        DiskRecorderState {
            commit_log_write_offset: kept_end(store) as u64,
            commit_log_preallocated_len: len->Ok_0,
            commit_log_roll_index: 1,
            active_segment: None,
        },
        entries,
    );
    (state, reserved, key)
}

/// What taking up the logs did, where it succeeded.
#[verifier::spinoff_prover]
#[verifier::rlimit(60)]
proof fn resumption_shape(
    config: RecorderConfig,
    store: StoreModel,
    ring_available: bool,
    now_ns: u64,
)
    requires
        logs_resumed(config, store, ring_available, now_ns).result is Ok,
    ensures
        ({
            let logs = commit_logs(store);
            let entries = taken_up(store, config.log_id@);
            let (state, reserved, key) = resumption(config, store, ring_available);
            &&& catalog_entries(store) is Ok
            &&& rolled_entries(store, config.log_id@, logs, logs.len() as int) is Ok
            &&& commit_log_recovery_error(store) is None
            &&& preallocated(
                commit_log_recovered(store),
                kept_end(store) as u64,
                config.metadata_log_preallocate_entries,
                config.metadata_log_roll_bytes,
            ).1 is Ok
            &&& disorder(entries, entries.len() as int) is None
            &&& logs_resumed(config, store, ring_available, now_ns) == segment_resumed(
                state,
                reserved,
                entries,
                catalog_entries(store)->Ok_0.len(),
                key,
                store.bytes(ArchiveFile::CommitLog).len() - kept_end(store),
                now_ns,
            )
        }),
{
    reveal(logs_resumed);
    let entries = taken_up(store, config.log_id@);
    let (state, reserved, key) = resumption(config, store, ring_available);
    let done = segment_resumed(
        state,
        reserved,
        entries,
        catalog_entries(store)->Ok_0.len(),
        key,
        store.bytes(ArchiveFile::CommitLog).len() - kept_end(store),
        now_ns,
    );
    assert(logs_resumed(config, store, ring_available, now_ns) == done);
}

/// The state with which a recovery goes on is well-formed, and its logs have their length.
proof fn resumption_fits(config: RecorderConfig, store: StoreModel, ring_available: bool)
    requires
        config.wf(),
        config.persistence_mode != PersistenceMode::Volatile,
        commit_log_recovery_error(store) is None,
        preallocated(
            commit_log_recovered(store),
            kept_end(store) as u64,
            config.metadata_log_preallocate_entries,
            config.metadata_log_roll_bytes,
        ).1 is Ok,
        store.bytes(ArchiveFile::CommitLog).len() <= MAX_FILE_LEN,
    ensures
        ({
            let entries = taken_up(store, config.log_id@);
            let (state, reserved, key) = resumption(config, store, ring_available);
            let len = state.disk->Some_0.commit_log_preallocated_len;
            &&& state.wf()
            &&& state.disk is Some
            &&& state.disk->Some_0.commit_log_write_offset == kept_end(store)
            &&& state.disk->Some_0.commit_log_roll_index == 1
            &&& kept_end(store) <= len
            &&& reserved == commit_log_recovered(store).with_len(ArchiveFile::CommitLog, len)
            &&& entries.len() > 0 ==> {
                &&& state.next_commit_ordinal == next_number(entries.last().commit_ordinal)
                &&& state.last_sequence == Some(entries.last().sequence)
            }
        }),
{
    recovered_entries_fit(store.bytes(ArchiveFile::CommitLog), 76, store);
}

/// Taking up the commit logs and the active segment.
proof fn logs_resumed_history(
    config: RecorderConfig,
    store: StoreModel,
    ring_available: bool,
    now_ns: u64,
    count: u64,
)
    requires
        config.wf(),
        config.persistence_mode != PersistenceMode::Volatile,
        is_rolled_list(store, rolled_indexes(store)),
        rolled_without_gap(store, count),
        store.has(ArchiveFile::CommitLog),
        store.bytes(ArchiveFile::CommitLog).len() <= MAX_FILE_LEN,
        logs_resumed(config, store, ring_available, now_ns).result is Ok,
        ({
            let entries = taken_up(store, config.log_id@);
            entries.len() > 0 ==> entries.last().commit_ordinal < u64::MAX
        }),
    ensures
        ({
            let startup = logs_resumed(config, store, ring_available, now_ns);
            history(
                startup.result->Ok_0.state,
                startup.store,
                taken_up(store, config.log_id@),
            )
        }),
{
    resumption_shape(config, store, ring_available, now_ns);
    resumption_fits(config, store, ring_available);
    let entries = taken_up(store, config.log_id@);
    let (state, reserved, key) = resumption(config, store, ring_available);
    resumed_history(
        state,
        store,
        config.log_id@,
        state.disk->Some_0.commit_log_preallocated_len,
        count,
    );
    segment_keeps_history(
        state,
        reserved,
        entries,
        catalog_entries(store)->Ok_0.len(),
        key,
        store.bytes(ArchiveFile::CommitLog).len() - kept_end(store),
        now_ns,
    );
}

/// A recovered archive goes on where it ended: the recorder's history is that of the rolled logs
/// and of the longest run at the start of the active log whose frames are sound. The rolled logs
/// are numbered without a gap, as a recorder numbers them.
pub proof fn recovered_archive_goes_on(
    config: RecorderConfig,
    store: StoreModel,
    ring_available: bool,
    now_ns: u64,
    count: u64,
)
    requires
        config.wf(),
        config.persistence_mode != PersistenceMode::Volatile,
        is_rolled_list(store, rolled_indexes(store)),
        rolled_without_gap(store, count),
        store.bytes(ArchiveFile::CommitLog).len() <= MAX_FILE_LEN,
        archive_recovered(config, store, ring_available, now_ns).result is Ok,
        ({
            let entries = taken_up(store, recovered_log_id(config, store)->Ok_0@);
            entries.len() > 0 ==> entries.last().commit_ordinal < u64::MAX
        }),
    ensures
        ({
            let startup = archive_recovered(config, store, ring_available, now_ns);
            history(
                startup.result->Ok_0.state,
                startup.store,
                taken_up(store, recovered_log_id(config, store)->Ok_0@),
            )
        }),
{
    let pinned = recovery_store(store);
    recovery_shape(config, store, ring_available, now_ns);
    directories_do_not_matter(config, store, pinned);
    let log_id = recovered_log_id(config, store)->Ok_0;
    let chosen = RecorderConfig { log_id, ..config };
    logs_resumed_history(chosen, pinned, ring_available, now_ns, count);
}

/// Taking up the active segment leaves the logs within their cap.
proof fn segment_keeps_log_cap(
    state: RecorderState,
    store: StoreModel,
    entries: Seq<CommitEntry>,
    catalog_segments: nat,
    key: SegmentKey,
    truncated: int,
    now_ns: u64,
)
    requires
        state.wf(),
        state.disk is Some,
        state.config.persistence_mode != PersistenceMode::Volatile,
        state.disk->Some_0.commit_log_preallocated_len == store.bytes(
            ArchiveFile::CommitLog,
        ).len(),
        segment_resumed(
            state,
            store,
            entries,
            catalog_segments,
            key,
            truncated,
            now_ns,
        ).result is Ok,
    ensures
        ({
            let startup = segment_resumed(
                state,
                store,
                entries,
                catalog_segments,
                key,
                truncated,
                now_ns,
            );
            logs_within_cap(startup.result->Ok_0.state, startup.store)
        }),
{
    reveal(segment_resumed);
    let log = ArchiveFile::CommitLog;
    let opened = segment_opened(state, store, key.0, now_ns);
    segment_opened_leaves_logs(state, store, key.0, now_ns);
    segment_opened_keeps(state, store, key.0, now_ns);
    let commits = active_commits(entries, key, entries.len() as int);
    let tail = tail_recovered(opened.state, opened.store, commits);
    tail_leaves_logs(opened.state, opened.store, commits);
    let reported = RecorderState {
        recovery_status: recovery_report(
            catalog_segments,
            entries.len(),
            key,
            commits,
            tail.result->Ok_0,
            truncated,
        ),
        ..tail.state
    };
    let recorder = recorder_with(reported, entries_index(entries));
    retention_enforced_leaves_logs(recorder, tail.store);
    let retained = retention_enforced(recorder, tail.store);
    assert(store.has(log) == opened.store.has(log));
    assert(opened.store.has(log) == tail.store.has(log));
    assert(tail.store.has(log) == retained.store.has(log));
}

/// A recovered archive goes on with its commit logs within their cap.
#[verifier::spinoff_prover]
#[verifier::rlimit(60)]
pub proof fn recovered_archive_keeps_log_cap(
    config: RecorderConfig,
    store: StoreModel,
    ring_available: bool,
    now_ns: u64,
)
    requires
        config.wf(),
        config.persistence_mode != PersistenceMode::Volatile,
        store.bytes(ArchiveFile::CommitLog).len() <= MAX_FILE_LEN,
        archive_recovered(config, store, ring_available, now_ns).result is Ok,
    ensures
        ({
            let startup = archive_recovered(config, store, ring_available, now_ns);
            logs_within_cap(startup.result->Ok_0.state, startup.store)
        }),
{
    let pinned = recovery_store(store);
    recovery_shape(config, store, ring_available, now_ns);
    let log_id = recovered_log_id(config, store)->Ok_0;
    let chosen = RecorderConfig { log_id, ..config };
    resumption_shape(chosen, pinned, ring_available, now_ns);
    resumption_fits(chosen, pinned, ring_available);
    let (state, reserved, key) = resumption(chosen, pinned, ring_available);
    segment_keeps_log_cap(
        state,
        reserved,
        taken_up(pinned, log_id@),
        catalog_entries(pinned)->Ok_0.len(),
        key,
        pinned.bytes(ArchiveFile::CommitLog).len() - kept_end(pinned),
        now_ns,
    );
}

/// The run of entries that recovery accepts from `at` on is the longest one.
proof fn run_is_longest(s: Seq<u8>, at: int, store: StoreModel)
    requires
        0 <= at <= s.len(),
    ensures
        ({
            let run = recovered_entries(s, at, store);
            let end = at + 104 * run.len();
            &&& end <= s.len()
            &&& forall|i: int|
                #![trigger run[i]]
                0 <= i < run.len() ==> recoverable_entry(s, at + 104 * i, store) == Some(run[i])
            &&& end < s.len() ==> recoverable_entry(s, end, store) is None
        }),
    decreases s.len() - at,
{
    let run = recovered_entries(s, at, store);
    if at < s.len() && recoverable_entry(s, at, store) is Some {
        let rest = recovered_entries(s, at + 104, store);
        run_is_longest(s, at + 104, store);
        assert(run.len() == 1 + rest.len());
        assert forall|i: int| #![trigger run[i]] 0 <= i < run.len() implies recoverable_entry(
            s,
            at + 104 * i,
            store,
        ) == Some(run[i]) by {
            if i > 0 {
                assert(run[i] == rest[i - 1]);
                assert(at + 104 + 104 * (i - 1) == at + 104 * i);
            }
        }
        assert(at + 104 + 104 * rest.len() == at + 104 * run.len());
    }
}

/// Recovery keeps as much of the active commit log as can be trusted, and no more: every entry that
/// it keeps has a frame that is sound, the kept entries stand at the start of the log without a
/// gap, and behind them stands none that could be kept.
pub proof fn recovery_keeps_longest_sound_run(store: StoreModel)
    requires
        76 <= store.bytes(ArchiveFile::CommitLog).len(),
    ensures
        ({
            let log = store.bytes(ArchiveFile::CommitLog);
            let kept = kept_entries(store);
            &&& kept_end(store) <= log.len()
            &&& forall|i: int|
                #![trigger kept[i]]
                0 <= i < kept.len() ==> locator_is_sound(store, kept[i].locator) && decode_entry(
                    log.subrange(76 + 104 * i, 76 + 104 * i + 104),
                ) == Ok::<CommitEntry, &'static str>(kept[i])
            &&& kept_end(store) < log.len() ==> recoverable_entry(log, kept_end(store), store) is None
        }),
{
    run_is_longest(store.bytes(ArchiveFile::CommitLog), 76, store);
}

/// The store with the directories that a recovery creates where they are missing.
spec fn recovery_store(store: StoreModel) -> StoreModel {
    let tiered = if store.directories.contains(ArchiveDirectory::Detached) {
        store
    } else {
        store.with_directory(ArchiveDirectory::Detached)
    };
    if tiered.directories.contains(ArchiveDirectory::Pins) {
        tiered
    } else {
        tiered.with_directory(ArchiveDirectory::Pins)
    }
}

/// What a recovery that succeeded did.
proof fn recovery_shape(
    config: RecorderConfig,
    store: StoreModel,
    ring_available: bool,
    now_ns: u64,
)
    requires
        archive_recovered(config, store, ring_available, now_ns).result is Ok,
    ensures
        store.has(ArchiveFile::CommitLog),
        recovered_log_id(config, store) is Ok,
        archive_recovered(config, store, ring_available, now_ns) == logs_resumed(
            RecorderConfig { log_id: recovered_log_id(config, store)->Ok_0, ..config },
            recovery_store(store),
            ring_available,
            now_ns,
        ),
{
    reveal(archive_recovered);
    assert(recovered_log_id(config, store) == recovered_log_id(
        config,
        if store.directories.contains(ArchiveDirectory::Detached) {
            store
        } else {
            store.with_directory(ArchiveDirectory::Detached)
        },
    ));
}

/// Recovery keeps every entry of a log whose frames are all sound.
proof fn sound_entries_are_kept(
    s: Seq<u8>,
    store: StoreModel,
    at: int,
    end: int,
    entries: Seq<CommitEntry>,
)
    requires
        0 <= at <= end <= s.len(),
        end == at + 104 * entries.len(),
        strict_entries(s.subrange(0, end), at) == Ok::<Seq<CommitEntry>, &'static str>(entries),
        all_zero(s.subrange(end, s.len() as int)),
        forall|i: int|
            #![trigger entries[i]]
            0 <= i < entries.len() ==> locator_is_sound(store, entries[i].locator),
    ensures
        recovered_entries(s, at, store) == entries,
    decreases end - at,
{
    let p = s.subrange(0, end);
    if at < end {
        assert(p.subrange(at, at + 104) =~= s.subrange(at, at + 104));
        assert(p.subrange(at, at + 4) =~= s.subrange(at, at + 4));
        let entry = decode_entry(p.subrange(at, at + 104))->Ok_0;
        let rest = strict_entries(p, at + 104)->Ok_0;
        assert(entries == seq![entry] + rest);
        assert(entries[0] == entry);
        assert forall|i: int| #![trigger rest[i]] 0 <= i < rest.len() implies locator_is_sound(
            store,
            rest[i].locator,
        ) by {
            assert(entries[i + 1] == rest[i]);
        }
        sound_entries_are_kept(s, store, at + 104, end, rest);
    } else {
        assert(entries =~= Seq::<CommitEntry>::empty());
        if at + 104 <= s.len() {
            assert(s.subrange(at, at + 4)[0] == s.subrange(end, s.len() as int)[0]);
            assert(COMMIT_ENTRY_MAGIC@[0] == 0x43);
        }
    }
}

/// What all logs hold is what the rolled ones hold and then what the active one holds.
proof fn collected_is_rolled_and_active(
    store: StoreModel,
    log_id: Seq<u8>,
    logs: Seq<ArchiveFile>,
    i: int,
)
    requires
        0 <= i < logs.len(),
        logs.last() == ArchiveFile::CommitLog,
        forall|k: int|
            #![trigger logs[k]]
            0 <= k < logs.len() - 1 ==> logs[k] != ArchiveFile::CommitLog,
        rolled_entries(store, log_id, logs, logs.len() as int) is Ok,
        collected_entries(store, logs, i, rolled_entries(store, log_id, logs, i)->Ok_0) is Ok,
    ensures
        log_entries(store, ArchiveFile::CommitLog) is Ok,
        collected_entries(store, logs, i, rolled_entries(store, log_id, logs, i)->Ok_0)->Ok_0
            == rolled_entries(store, log_id, logs, logs.len() as int)->Ok_0 + log_entries(
            store,
            ArchiveFile::CommitLog,
        )->Ok_0,
    decreases logs.len() - i,
{
    let n = logs.len() as int;
    rolled_prefix(store, log_id, logs, i, n);
    if i == n - 1 {
        reveal_with_fuel(collected_entries, 2);
    } else {
        rolled_prefix(store, log_id, logs, i + 1, n);
        assert(logs[i] != ArchiveFile::CommitLog);
        collected_is_rolled_and_active(store, log_id, logs, i + 1);
    }
}

/// Nothing that was committed is lost: where the frames of the active log are all sound, a
/// recovery takes up the whole history.
pub proof fn sound_history_is_taken_up(
    state: RecorderState,
    store: StoreModel,
    entries: Seq<CommitEntry>,
    log_id: Seq<u8>,
)
    requires
        history(state, store, entries),
        ({
            let logs = commit_logs(store);
            rolled_entries(store, log_id, logs, logs.len() as int) is Ok
        }),
        forall|i: int|
            #![trigger active_entries(store)[i]]
            0 <= i < active_entries(store).len() ==> locator_is_sound(
                store,
                active_entries(store)[i].locator,
            ),
    ensures
        taken_up(store, log_id) == entries,
{
    reveal(history);
    let s = store.bytes(ArchiveFile::CommitLog);
    let active = active_entries(store);
    let end = 76 + 104 * active.len() as int;
    sound_entries_are_kept(s, store, 76, end, active);
    image_reads_back(store, ArchiveFile::CommitLog, active);
    let logs = commit_logs(store);
    collected_is_rolled_and_active(store, log_id, logs, 0);
}

} // verus!
