//! What a recorder is configured with when it starts, and where it goes on, in terms of the options
//! that were set and of what the archive holds.

use crate::bytes::all_zero;
use crate::catalog::{
    active_segment_for_recovery, first_unsealed, log_id_of, max_generation, max_summary_id,
    preallocated_len,
};
use crate::commit_entry::CommitEntry;
use crate::config::{
    defaults_of, startup_of, ArchiveRecorderBuilder, ProfileDefaults,
};
use crate::error::{ArchiveDirectory, ArchiveFile, ArchiveRecorderError};
use crate::header::ArchiveFileKind;
use crate::order::SegmentKey;
use crate::startup::{
    active_commits, disorder, effective_backend, fresh_state, recovered_log_id, recovery_report,
    resumed_state, sequence_seen, tail_recovered, usable_log_id, ActiveCommits,
};
use crate::state::{DiskRecorderState, RecorderConfig, RecorderState};
use crate::store::StoreModel;
use crate::summary::SegmentSummary;
use crate::types::{
    ArchiveSegmentTier, AsyncIoBackend, EffectiveAsyncIoBackend, RecorderProfile,
};
use vstd::prelude::*;

verus! {

/// A ring is used only where there is one and it was asked for. Only a ring that is required and
/// not there keeps a recorder from starting, and where a ring is preferred, one that is there is
/// used.
pub proof fn backend_is_used_as_asked_for(requested: AsyncIoBackend, ring_available: bool)
    ensures
        ({
            let chosen = effective_backend(requested, ring_available);
            let ring = Ok::<EffectiveAsyncIoBackend, ArchiveRecorderError>(
                EffectiveAsyncIoBackend::IoUring,
            );
            &&& chosen is Err <==> requested is IoUringRequired && !ring_available
            &&& chosen == ring <==> ring_available && !(requested is Blocking)
        }),
{
}

/// A builder is refused exactly where one of its values is out of bounds.
pub proof fn builder_is_refused_for_a_value_out_of_bounds(builder: ArchiveRecorderBuilder)
    ensures
        builder.problem() is None <==> {
            &&& builder.segment_bytes > 76 + 72
            &&& builder.metadata_log_preallocate_entries >= 1
            &&& builder.max_disk_bytes is Some ==> builder.max_disk_bytes->Some_0 >= 1
            &&& 1 <= builder.io_submit_batch_max <= builder.io_uring_queue_depth
            &&& 1 <= builder.io_cqe_batch_max <= 2 * builder.io_uring_queue_depth
            &&& 76 + 104 <= builder.metadata_log_roll_bytes <= builder.metadata_log_max_bytes
            &&& builder.segment_generation >= 1
        },
{
}

/// What was not set comes from the profile, and what was set stays; nothing else changes.
pub proof fn defaults_fill_only_what_was_not_set(
    builder: ArchiveRecorderBuilder,
    defaults: ProfileDefaults,
)
    ensures
        ({
            let built = builder.with_defaults(defaults);
            &&& built.segment_bytes == if builder.segment_bytes_overridden {
                builder.segment_bytes
            } else {
                defaults.segment_bytes
            }
            &&& built.spare_preallocated_segments
                == if builder.spare_preallocated_segments_overridden {
                builder.spare_preallocated_segments
            } else {
                defaults.spare_preallocated_segments
            }
            &&& built.persistence_mode == if builder.persistence_mode_overridden {
                builder.persistence_mode
            } else {
                defaults.persistence_mode
            }
            &&& built.async_io_backend == if builder.async_io_backend_overridden {
                builder.async_io_backend
            } else {
                defaults.async_io_backend
            }
            &&& built.io_uring_queue_depth == if builder.io_uring_queue_depth_overridden {
                builder.io_uring_queue_depth
            } else {
                defaults.io_uring_queue_depth
            }
            &&& built.io_submit_batch_max == if builder.io_submit_batch_max_overridden {
                builder.io_submit_batch_max
            } else {
                defaults.io_submit_batch_max
            }
            &&& built.io_cqe_batch_max == if builder.io_cqe_batch_max_overridden {
                builder.io_cqe_batch_max
            } else {
                defaults.io_cqe_batch_max
            }
            &&& built.io_uring_register_files == if builder.io_uring_register_files_overridden {
                builder.io_uring_register_files
            } else {
                defaults.io_uring_register_files
            }
            &&& built.metadata_log_roll_bytes == if builder.metadata_log_roll_bytes_overridden {
                builder.metadata_log_roll_bytes
            } else {
                defaults.metadata_log_roll_bytes
            }
            &&& built.metadata_log_max_bytes == if builder.metadata_log_max_bytes_overridden {
                builder.metadata_log_max_bytes
            } else {
                defaults.metadata_log_max_bytes
            }
            &&& built.profile == builder.profile
            &&& built.segment_preallocate == builder.segment_preallocate
            &&& built.metadata_log_preallocate_entries == builder.metadata_log_preallocate_entries
            &&& built.checksum_mode == builder.checksum_mode
            &&& built.out_of_space_policy == builder.out_of_space_policy
            &&& built.max_disk_bytes == builder.max_disk_bytes
            &&& built.log_id == builder.log_id
            &&& built.segment_generation == builder.segment_generation
        }),
{
}

/// The profiles are what they are called: only the durable one writes synchronously, only the one
/// for throughput requires a ring, and that one has the largest segments, queue and batches and
/// the most spare segments. The values of each are within bounds.
pub proof fn profiles_are_what_they_are_called(profile: RecorderProfile)
    ensures
        ({
            let defaults = defaults_of(profile);
            let fast = defaults_of(RecorderProfile::Throughput);
            &&& defaults.persistence_mode is Sync <==> profile is Durable
            &&& !(defaults.persistence_mode is Volatile)
            &&& defaults.async_io_backend is IoUringRequired <==> profile is Throughput
            &&& !(defaults.async_io_backend is Blocking)
            &&& defaults.io_uring_register_files
            &&& profile is Throughput || 4 * defaults.segment_bytes == fast.segment_bytes
            &&& profile is Throughput || 2 * defaults.spare_preallocated_segments
                == fast.spare_preallocated_segments
            &&& profile is Throughput || 4 * defaults.io_uring_queue_depth
                == fast.io_uring_queue_depth
            &&& profile is Throughput || 4 * defaults.io_submit_batch_max
                == fast.io_submit_batch_max
            &&& profile is Throughput || 4 * defaults.io_cqe_batch_max == fast.io_cqe_batch_max
            &&& profile is Throughput || 4 * defaults.metadata_log_roll_bytes
                == fast.metadata_log_roll_bytes
            &&& defaults.metadata_log_max_bytes == fast.metadata_log_max_bytes
            &&& 1 <= defaults.io_submit_batch_max <= defaults.io_uring_queue_depth
            &&& 1 <= defaults.io_cqe_batch_max <= 2 * defaults.io_uring_queue_depth
            &&& 180 <= defaults.metadata_log_roll_bytes <= defaults.metadata_log_max_bytes
            &&& defaults.segment_bytes > 148
        }),
{
}

/// A recorder runs with the values of its builder.
pub proof fn configuration_has_the_values_of_the_builder(builder: ArchiveRecorderBuilder)
    ensures
        ({
            let config = builder.config();
            &&& config.profile == builder.profile
            &&& config.segment_bytes == builder.segment_bytes
            &&& config.segment_preallocate == builder.segment_preallocate
            &&& config.spare_preallocated_segments == builder.spare_preallocated_segments
            &&& config.metadata_log_preallocate_entries == builder.metadata_log_preallocate_entries
            &&& config.persistence_mode == builder.persistence_mode
            &&& config.async_io_backend == builder.async_io_backend
            &&& config.io_uring_queue_depth == builder.io_uring_queue_depth
            &&& config.io_submit_batch_max == builder.io_submit_batch_max
            &&& config.io_cqe_batch_max == builder.io_cqe_batch_max
            &&& config.io_uring_register_files == builder.io_uring_register_files
            &&& config.checksum_mode == builder.checksum_mode
            &&& config.out_of_space_policy == builder.out_of_space_policy
            &&& config.max_disk_bytes == builder.max_disk_bytes
            &&& config.metadata_log_roll_bytes == builder.metadata_log_roll_bytes
            &&& config.metadata_log_max_bytes == builder.metadata_log_max_bytes
            &&& config.log_id == builder.log_id
            &&& config.segment_generation == builder.segment_generation
        }),
{
}

/// A recorder that is not allowed to take up an archive leaves one that is there alone, and says
/// so. A volatile recorder never touches a file, and neither does one with a bad configuration.
pub proof fn archive_that_is_there_is_left_alone(
    builder: ArchiveRecorderBuilder,
    store: StoreModel,
    recover_existing: bool,
    ring_available: bool,
    now_ns: u64,
)
    ensures
        ({
            let startup = startup_of(builder, store, recover_existing, ring_available, now_ns);
            let there = store.has(ArchiveFile::Catalog) || store.directories.contains(
                ArchiveDirectory::Segments,
            );
            &&& builder.problem() is Some ==> startup.store == store && startup.result is Err
            &&& builder.persistence_mode is Volatile ==> startup.store == store
            &&& builder.problem() is None && builder.persistence_mode is Volatile ==> {
                let recorder = startup.result->Ok_0;
                &&& startup.result is Ok
                &&& recorder.state.disk is None
                &&& recorder.index.len() == 0
                &&& recorder.volatile.len() == 0
                &&& recorder.state.next_commit_ordinal == 1
                &&& recorder.state.last_sequence is None
            }
            &&& builder.problem() is None && !(builder.persistence_mode is Volatile) && there
                && !recover_existing ==> startup.store == store && startup.result is Err
                && startup.result->Err_0 is ArchiveAlreadyExists
        }),
{
}

/// A drawn id is used as it is, unless it is the one of all zeros, which stands for none.
pub proof fn drawn_log_id_is_never_zero(drawn: Seq<u8>)
    requires
        drawn.len() == 16,
    ensures
        usable_log_id(drawn).len() == 16,
        exists|i: int| 0 <= i < 16 && #[trigger] usable_log_id(drawn)[i] != 0,
        (exists|i: int| 0 <= i < 16 && #[trigger] drawn[i] != 0) ==> usable_log_id(drawn) == drawn,
{
    if all_zero(drawn) {
        assert(usable_log_id(drawn)[0] == 1);
    } else {
        let i = choose|i: int| 0 <= i < drawn.len() && drawn[i] != 0;
        assert(usable_log_id(drawn)[i] != 0);
    }
}

/// An archive is taken up only under the id that its catalog and its commit log both have, and not
/// under another one that was configured.
pub proof fn archive_is_taken_up_under_its_own_id(config: RecorderConfig, store: StoreModel)
    requires
        recovered_log_id(config, store) is Ok,
    ensures
        ({
            let log_id = recovered_log_id(config, store)->Ok_0@;
            &&& log_id_of(store, ArchiveFile::Catalog, ArchiveFileKind::Catalog)->Ok_0@ == log_id
            &&& log_id_of(store, ArchiveFile::CommitLog, ArchiveFileKind::CommitIdxLog)->Ok_0@
                == log_id
            &&& config.log_id@ == log_id || forall|i: int| 0 <= i < 16 ==> config.log_id@[i] == 0
        }),
{
}

/// The entry has a larger ordinal than the one directly before it, if that one has an ordinal.
pub open spec fn ordinal_grows(entries: Seq<CommitEntry>, j: int) -> bool {
    entries[j - 1].commit_ordinal == 0 || entries[j - 1].commit_ordinal < entries[j].commit_ordinal
}

/// Every entry has a larger sequence than those before it, and every ordinal grows.
pub open spec fn entries_in_order(entries: Seq<CommitEntry>, n: int) -> bool {
    &&& forall|i: int, j: int|
        #![trigger entries[i], entries[j]]
        0 <= i < j < n ==> entries[i].sequence < entries[j].sequence
    &&& forall|j: int| 0 < j < n ==> #[trigger] ordinal_grows(entries, j)
}

/// Entries are accepted exactly where their sequences grow and their ordinals do.
pub proof fn entries_are_accepted_in_order_only(entries: Seq<CommitEntry>, n: int)
    requires
        0 <= n <= entries.len(),
    ensures
        disorder(entries, n) is None <==> entries_in_order(entries, n),
    decreases n,
{
    if n > 0 {
        entries_are_accepted_in_order_only(entries, n - 1);
        if entries_in_order(entries, n) {
            assert(entries_in_order(entries, n - 1));
            if sequence_seen(entries, n - 1, entries[n - 1].sequence) {
                let j = choose|j: int|
                    0 <= j < n - 1 && #[trigger] entries[j].sequence == entries[n - 1].sequence;
                assert(entries[j].sequence < entries[n - 1].sequence);
            }
            if n >= 2 {
                assert(entries[n - 2].sequence < entries[n - 1].sequence);
                assert(ordinal_grows(entries, n - 1));
            }
        }
        if disorder(entries, n) is None {
            assert forall|i: int, j: int|
                #![trigger entries[i], entries[j]]
                0 <= i < j < n implies entries[i].sequence < entries[j].sequence by {
                if j == n - 1 {
                    assert(entries[n - 2].sequence < entries[n - 1].sequence);
                    if i < n - 2 {
                        assert(entries[i].sequence < entries[n - 2].sequence);
                    }
                }
            }
        }
    }
}

/// The entry names the segment.
pub open spec fn lies_in(entry: CommitEntry, key: SegmentKey) -> bool {
    entry.locator.segment_id == key.0 && entry.locator.segment_generation == key.1
}

/// How many of the first `n` entries name the segment.
pub open spec fn entries_within(entries: Seq<CommitEntry>, key: SegmentKey, n: int) -> int
    decreases n,
{
    if n <= 0 {
        0
    } else if lies_in(entries[n - 1], key) {
        entries_within(entries, key, n - 1) + 1
    } else {
        entries_within(entries, key, n - 1)
    }
}

proof fn entries_within_bounds(entries: Seq<CommitEntry>, key: SegmentKey, n: int)
    requires
        0 <= n,
    ensures
        0 <= entries_within(entries, key, n) <= n,
    decreases n,
{
    if n > 0 {
        entries_within_bounds(entries, key, n - 1);
    }
}

/// The entry is the first of the first `n` that names the segment.
pub open spec fn is_first_within(
    entries: Seq<CommitEntry>,
    key: SegmentKey,
    n: int,
    i: int,
) -> bool {
    &&& 0 <= i < n
    &&& lies_in(entries[i], key)
    &&& forall|j: int| 0 <= j < i ==> !lies_in(#[trigger] entries[j], key)
}

/// The entry is the last of the first `n` that names the segment.
pub open spec fn is_last_within(
    entries: Seq<CommitEntry>,
    key: SegmentKey,
    n: int,
    i: int,
) -> bool {
    &&& 0 <= i < n
    &&& lies_in(entries[i], key)
    &&& forall|j: int| i < j < n ==> !lies_in(#[trigger] entries[j], key)
}

/// The segment that is taken up counts the entries that name it, starts with the sequence of the
/// first and ends with that of the last of them, and goes on behind the end of every frame of
/// them, directly behind one of them or its header.
pub proof fn segment_goes_on_behind_its_commits(
    entries: Seq<CommitEntry>,
    key: SegmentKey,
    n: int,
)
    requires
        0 <= n <= entries.len(),
        n <= u64::MAX,
        forall|i: int|
            #![trigger entries[i]]
            0 <= i < entries.len() ==> entries[i].locator.file_offset
                + entries[i].locator.frame_len <= u64::MAX,
    ensures
        ({
            let commits = active_commits(entries, key, n);
            &&& commits.records == entries_within(entries, key, n)
            &&& match commits.sequence_start {
                Some(first) => exists|i: int| #[trigger]
                    is_first_within(entries, key, n, i) && entries[i].sequence == first,
                None => commits.records == 0,
            }
            &&& match commits.sequence_end {
                Some(last) => exists|i: int| #[trigger]
                    is_last_within(entries, key, n, i) && entries[i].sequence == last,
                None => commits.records == 0,
            }
            &&& forall|i: int|
                #![trigger entries[i]]
                0 <= i < n && lies_in(entries[i], key) ==> entries[i].locator.file_offset
                    + entries[i].locator.frame_len <= commits.write_offset
            &&& commits.write_offset >= 76
            &&& commits.write_offset > 76 ==> exists|i: int|
                #![trigger entries[i]]
                0 <= i < n && lies_in(entries[i], key) && entries[i].locator.file_offset
                    + entries[i].locator.frame_len == commits.write_offset
        }),
    decreases n,
{
    if n > 0 {
        segment_goes_on_behind_its_commits(entries, key, n - 1);
        entries_within_bounds(entries, key, n - 1);
        let before = active_commits(entries, key, n - 1);
        let commits = active_commits(entries, key, n);
        let last = entries[n - 1];
        if lies_in(last, key) {
            assert(is_last_within(entries, key, n, n - 1));
            if before.sequence_start is Some {
                let i = choose|i: int| #[trigger]
                    is_first_within(entries, key, n - 1, i) && entries[i].sequence
                        == before.sequence_start->Some_0;
                assert(is_first_within(entries, key, n, i));
            } else {
                none_within(entries, key, n - 1);
                assert(is_first_within(entries, key, n, n - 1));
            }
        } else {
            if before.sequence_start is Some {
                let i = choose|i: int| #[trigger]
                    is_first_within(entries, key, n - 1, i) && entries[i].sequence
                        == before.sequence_start->Some_0;
                assert(is_first_within(entries, key, n, i));
            }
            if before.sequence_end is Some {
                let i = choose|i: int| #[trigger]
                    is_last_within(entries, key, n - 1, i) && entries[i].sequence
                        == before.sequence_end->Some_0;
                assert(is_last_within(entries, key, n, i));
            }
        }
    }
}

proof fn none_within(entries: Seq<CommitEntry>, key: SegmentKey, n: int)
    requires
        0 <= n <= entries.len(),
        entries_within(entries, key, n) == 0,
    ensures
        forall|j: int| 0 <= j < n ==> !lies_in(#[trigger] entries[j], key),
    decreases n,
{
    if n > 0 {
        entries_within_bounds(entries, key, n - 1);
        none_within(entries, key, n - 1);
    }
}

/// A recorder that goes on behind entries takes the ordinal behind the last one, and knows its
/// sequence as the last and as durable.
pub proof fn recorder_goes_on_behind_the_last_entry(
    config: RecorderConfig,
    backend: EffectiveAsyncIoBackend,
    disk: DiskRecorderState,
    entries: Seq<CommitEntry>,
)
    requires
        entries.len() > 0 ==> entries.last().commit_ordinal < u64::MAX,
    ensures
        ({
            let state = resumed_state(config, backend, disk, entries);
            &&& entries.len() == 0 ==> state.next_commit_ordinal == 1 && state.last_sequence is None
                && state.last_durable_data_sequence is None
                && state.last_durable_commit_ordinal is None
            &&& entries.len() > 0 ==> {
                &&& state.next_commit_ordinal == entries.last().commit_ordinal + 1
                &&& state.last_sequence == Some(entries.last().sequence)
                &&& state.last_durable_data_sequence == Some(entries.last().sequence)
                &&& match state.last_durable_commit_ordinal {
                    Some(ordinal) => ordinal == entries.last().commit_ordinal && ordinal > 0,
                    None => entries.last().commit_ordinal == 0,
                }
            }
            &&& state.config == config
            &&& state.disk == Some(disk)
            &&& state.effective_async_io_backend == backend
            &&& !state.finalized
            &&& !state.degraded
            &&& state.stats == fresh_state(config, backend, None).stats
        }),
{
}

/// A recovery reports what it has loaded and cut off.
pub proof fn recovery_reports_what_it_found(
    catalog_segments: nat,
    entries: nat,
    key: SegmentKey,
    commits: ActiveCommits,
    segment_truncated_bytes: u64,
    commit_log_truncated_bytes: int,
)
    requires
        catalog_segments <= u64::MAX,
        entries <= u64::MAX,
        0 <= commit_log_truncated_bytes <= u64::MAX,
    ensures
        ({
            let report = recovery_report(
                catalog_segments,
                entries,
                key,
                commits,
                segment_truncated_bytes,
                commit_log_truncated_bytes,
            );
            &&& report.recovered_existing_archive
            &&& report.catalog_segments_loaded == catalog_segments
            &&& report.commit_entries_loaded == entries
            &&& (report.active_segment_id, report.active_segment_generation) == key
            &&& report.active_segment_records == commits.records
            &&& report.segment_truncated_bytes == segment_truncated_bytes
            &&& report.segment_truncation_events <= 1
            &&& report.segment_truncation_events == 0 <==> segment_truncated_bytes == 0
            &&& report.commit_log_truncated_bytes == commit_log_truncated_bytes
        }),
{
}

/// The summary of an attached segment is there.
pub open spec fn has_summary(store: StoreModel, key: SegmentKey) -> bool {
    store.has(
        ArchiveFile::SegmentMeta {
            tier: ArchiveSegmentTier::HotAttached,
            segment_id: key.0,
            segment_generation: key.1,
        },
    )
}

/// A segment is the first in the list that has no summary.
pub open spec fn is_first_without_summary(
    store: StoreModel,
    segments: Seq<SegmentKey>,
    from: int,
    i: int,
) -> bool {
    &&& from <= i < segments.len()
    &&& !has_summary(store, segments[i])
    &&& forall|j: int| from <= j < i ==> has_summary(store, #[trigger] segments[j])
}

proof fn first_without_summary_is_found(store: StoreModel, segments: Seq<SegmentKey>, from: int)
    requires
        0 <= from,
    ensures
        match first_unsealed(store, segments, from) {
            Some(key) => exists|i: int| #[trigger]
                is_first_without_summary(store, segments, from, i) && segments[i] == key,
            None => forall|i: int|
                from <= i < segments.len() ==> has_summary(store, #[trigger] segments[i]),
        },
    decreases segments.len() - from,
{
    if from < segments.len() {
        if has_summary(store, segments[from]) {
            first_without_summary_is_found(store, segments, from + 1);
            if let Some(key) = first_unsealed(store, segments, from + 1) {
                let i = choose|i: int| #[trigger]
                    is_first_without_summary(store, segments, from + 1, i) && segments[i] == key;
                assert(is_first_without_summary(store, segments, from, i));
            }
        } else {
            assert(is_first_without_summary(store, segments, from, from));
        }
    }
}

proof fn largest_id_is_one_of_them(summaries: Seq<SegmentSummary>, n: int)
    requires
        0 <= n <= summaries.len(),
    ensures
        forall|i: int|
            0 <= i < n ==> (#[trigger] summaries[i]).segment_id <= max_summary_id(summaries, n),
        n > 0 ==> exists|i: int|
            0 <= i < n && (#[trigger] summaries[i]).segment_id == max_summary_id(summaries, n),
    decreases n,
{
    if n > 0 {
        largest_id_is_one_of_them(summaries, n - 1);
        if n == 1 || summaries[n - 1].segment_id > max_summary_id(summaries, n - 1) {
            assert(summaries[n - 1].segment_id == max_summary_id(summaries, n));
        }
    }
}

proof fn largest_generation_is_one_of_them(segments: Seq<SegmentKey>, n: int)
    requires
        0 <= n <= segments.len(),
    ensures
        forall|i: int| 0 <= i < n ==> (#[trigger] segments[i]).1 <= max_generation(segments, n),
        n > 0 ==> exists|i: int|
            0 <= i < n && (#[trigger] segments[i]).1 == max_generation(segments, n),
    decreases n,
{
    if n > 0 {
        largest_generation_is_one_of_them(segments, n - 1);
        if n == 1 || segments[n - 1].1 > max_generation(segments, n - 1) {
            assert(segments[n - 1].1 == max_generation(segments, n));
        }
    }
}

/// A recovered recorder goes on in the segment of the last commit while that one has no summary,
/// and else in the one behind it. Without commits it takes the first segment that has no summary,
/// and where each has one, a new one behind all that the catalog names, in the highest generation.
pub proof fn recovery_goes_on_in_an_open_segment(
    store: StoreModel,
    segments: Seq<SegmentKey>,
    summaries: Seq<SegmentSummary>,
    entries: Seq<CommitEntry>,
    default_generation: u32,
)
    requires
        entries.len() > 0 ==> entries.last().locator.segment_id < u64::MAX,
        forall|i: int|
            #![trigger summaries[i]]
            0 <= i < summaries.len() ==> summaries[i].segment_id < u64::MAX,
        segments.len() > 0 ==> segments.last().0 < u64::MAX,
    ensures
        ({
            let key = active_segment_for_recovery(
                store,
                segments,
                summaries,
                entries,
                default_generation,
            );
            let last = (
                entries.last().locator.segment_id,
                entries.last().locator.segment_generation,
            );
            &&& entries.len() > 0 ==> key.1 == last.1 && key.0 == last.0 + if has_summary(
                store,
                last,
            ) {
                1int
            } else {
                0
            }
            &&& entries.len() == 0 ==> {
                ||| exists|i: int| #[trigger]
                    is_first_without_summary(store, segments, 0, i) && segments[i] == key
                ||| {
                    &&& forall|i: int|
                        0 <= i < segments.len() ==> has_summary(store, #[trigger] segments[i])
                    &&& forall|i: int|
                        0 <= i < summaries.len() ==> (#[trigger] summaries[i]).segment_id < key.0
                    &&& summaries.len() > 0 ==> exists|i: int|
                        0 <= i < summaries.len() && (#[trigger] summaries[i]).segment_id + 1
                            == key.0
                    &&& summaries.len() == 0 && segments.len() > 0 ==> key.0 == segments.last().0
                        + 1
                    &&& summaries.len() == 0 && segments.len() == 0 ==> key.0 == 1
                    &&& forall|i: int|
                        0 <= i < segments.len() ==> (#[trigger] segments[i]).1 <= key.1
                    &&& segments.len() > 0 ==> exists|i: int|
                        0 <= i < segments.len() && (#[trigger] segments[i]).1 == key.1
                    &&& segments.len() == 0 ==> key.1 == default_generation
                }
            }
        }),
{
    if entries.len() == 0 {
        first_without_summary_is_found(store, segments, 0);
        largest_id_is_one_of_them(summaries, summaries.len() as int);
        largest_generation_is_one_of_them(segments, segments.len() as int);
    }
}

/// Room is reserved for as many entries as asked for, but never beyond the size at which the log
/// is rolled, and never below what is written.
pub proof fn reserved_room_is_bounded(logical_end: u64, entries: usize, max_file_len: u64)
    requires
        entries * 104 <= usize::MAX,
    ensures
        match preallocated_len(logical_end, entries, max_file_len) {
            Ok(len) => {
                &&& logical_end <= len <= max_file_len
                &&& len == max_file_len || len == logical_end + 104 * entries
                &&& len <= logical_end + 104 * entries
            },
            Err(error) => {
                &&& logical_end > max_file_len || logical_end + 104 * entries > u64::MAX
                &&& error is InvalidConfiguration
            },
        },
{
}

/// A segment that is taken up keeps its bytes up to the end of its last committed frame and loses
/// what stood behind; as many bytes are reported as were cut off. It goes on behind that frame.
pub proof fn recovered_segment_is_cut_behind_its_commits(
    state: RecorderState,
    store: StoreModel,
    commits: ActiveCommits,
)
    requires
        state.is_open(),
        forall|file: ArchiveFile| #[trigger] store.bytes(file).len() <= u64::MAX,
        tail_recovered(state, store, commits).result is Ok,
    ensures
        ({
            let step = tail_recovered(state, store, commits);
            let active = state.disk->Some_0.active_segment->Some_0;
            let file = ArchiveFile::SegmentData {
                tier: ArchiveSegmentTier::HotAttached,
                segment_id: active.segment_id,
                segment_generation: active.segment_generation,
            };
            let end = commits.write_offset as int;
            let before = store.bytes(file);
            let after = step.store.bytes(file);
            &&& store.has(file)
            &&& step.result->Ok_0 == if before.len() > end {
                before.len() - end
            } else {
                0
            }
            &&& forall|i: int|
                0 <= i < end && i < before.len() && i < after.len() ==> #[trigger] after[i]
                    == before[i]
            &&& forall|i: int|
                #![trigger after[i]]
                end <= i < after.len() ==> after[i] == 0
            &&& state.config.segment_preallocate ==> after.len() == state.config.segment_bytes
            &&& !state.config.segment_preallocate && before.len() > end ==> after.len() == end
            &&& {
                let now = step.state.disk->Some_0.active_segment->Some_0;
                &&& step.state.is_open()
                &&& now.write_offset == commits.write_offset
                &&& now.records == commits.records
                &&& now.sequence_start == commits.sequence_start
                &&& now.sequence_end == commits.sequence_end
                &&& now.segment_id == active.segment_id
                &&& now.segment_generation == active.segment_generation
            }
        }),
{
}

} // verus!
