//! What a replayer finds, and in which order and number it hands records out, in terms of the
//! commit log and of the files that are there.

use crate::commit_entry::CommitEntry;
use crate::commit_log::all_entries;
use crate::error::{ArchiveFile, ArchiveReplayError};
use crate::frame::{content_checksum, frame_at};
use crate::order::{increasing, lower_bound_of, lower_bound_splits};
use crate::replayer::{
    all_sequences, batch_from, batch_keeps_budget, budgeted_batch, entry_frame,
    entry_frame_locator, entry_views, indexed_entry, is_hot, located_frames, replay_index,
    replay_index_is_ordered, replayer_opened, total_len, ArchiveReplayerBuilder,
};
use crate::store::StoreModel;
use crate::types::{
    ArchiveCommitLogEntry, ArchiveLocator, ArchiveSegmentTier, FrameModel, ReplayBudget,
};
use vstd::prelude::*;

verus! {

/// The data file of the entry's segment is among the attached ones.
pub open spec fn lies_attached(store: StoreModel, entry: CommitEntry) -> bool {
    store.has(
        ArchiveFile::SegmentData {
            tier: ArchiveSegmentTier::HotAttached,
            segment_id: entry.locator.segment_id,
            segment_generation: entry.locator.segment_generation,
        },
    )
}

/// Every sequence is smaller than those behind it.
pub open spec fn in_sequence(index: Seq<CommitEntry>) -> bool {
    forall|i: int, j: int|
        #![trigger index[i], index[j]]
        0 <= i < j < index.len() ==> index[i].sequence < index[j].sequence
}

/// Two attached entries of the first `n` have one sequence.
pub open spec fn collide(
    store: StoreModel,
    entries: Seq<CommitEntry>,
    n: int,
    i: int,
    j: int,
) -> bool {
    &&& 0 <= i < j < n
    &&& entries[i].sequence == entries[j].sequence
    &&& lies_attached(store, entries[i])
    &&& lies_attached(store, entries[j])
}

proof fn in_sequence_is_increasing(index: Seq<CommitEntry>)
    ensures
        in_sequence(index) <==> increasing(all_sequences(index)),
{
    let all = all_sequences(index);
    assert(all.len() == index.len());
    if in_sequence(index) {
        assert forall|i: int, j: int|
            #![trigger all[i], all[j]]
            0 <= i < j < all.len() implies all[i] < all[j] by {
            assert(index[i].sequence < index[j].sequence);
        }
    }
    if increasing(all) {
        assert forall|i: int, j: int|
            #![trigger index[i], index[j]]
            0 <= i < j < index.len() implies index[i].sequence < index[j].sequence by {
            assert(all[i] < all[j]);
        }
    }
}

/// A replayer that opens holds every entry of the commit log in the order of the log, and in the
/// order of their sequences exactly those whose segments are attached. It starts before the first.
pub proof fn opened_replayer_holds_the_attached_entries(
    builder: ArchiveReplayerBuilder,
    store: StoreModel,
)
    requires
        replayer_opened(builder, store) is Ok,
    ensures
        ({
            let replayer = replayer_opened(builder, store)->Ok_0;
            &&& store.has(ArchiveFile::CommitLog)
            &&& all_entries(store) == Ok::<Seq<CommitEntry>, ArchiveReplayError>(replayer.entries)
            &&& in_sequence(replayer.index)
            &&& forall|e: CommitEntry| #[trigger]
                replayer.index.contains(e) <==> replayer.entries.contains(e) && lies_attached(
                    store,
                    e,
                )
            &&& replayer.cursor == 0
            &&& replayer.budget == builder.replay_budget
            &&& replayer.verify == builder.verify_checksums
        }),
{
    let replayer = replayer_opened(builder, store)->Ok_0;
    let n = replayer.entries.len() as int;
    replay_index_is_ordered(store, replayer.entries, n);
    in_sequence_is_increasing(replayer.index);
    assert forall|e: CommitEntry| #[trigger]
        replayer.index.contains(e) <==> replayer.entries.contains(e) && lies_attached(store, e) by {
        if replayer.index.contains(e) {
            let i = choose|i: int|
                0 <= i < n && #[trigger] replayer.entries[i] == e && is_hot(store, e);
            assert(replayer.entries.contains(e));
        }
        if replayer.entries.contains(e) && lies_attached(store, e) {
            let i = choose|i: int| 0 <= i < n && replayer.entries[i] == e;
            assert(replayer.entries[i] == e && is_hot(store, e));
        }
    }
}

/// The entries of a log can be indexed exactly if no two of them that are attached have one
/// sequence, and a sequence that is refused is one that two of them have.
pub proof fn repeated_sequences_are_refused(store: StoreModel, entries: Seq<CommitEntry>, n: int)
    requires
        0 <= n <= entries.len(),
    ensures
        match replay_index(store, entries, n) {
            Ok(_) => forall|i: int, j: int| !#[trigger] collide(store, entries, n, i, j),
            Err(error) => exists|i: int, j: int| #[trigger]
                collide(store, entries, n, i, j) && error == ArchiveReplayError::DuplicateSequence(
                    entries[j].sequence,
                ),
        },
    decreases n,
{
    if n > 0 {
        repeated_sequences_are_refused(store, entries, n - 1);
        let entry = entries[n - 1];
        match replay_index(store, entries, n - 1) {
            Err(error) => {
                let (i, j) = choose|i: int, j: int| #[trigger]
                    collide(store, entries, n - 1, i, j)
                        && error == ArchiveReplayError::DuplicateSequence(entries[j].sequence);
                assert(collide(store, entries, n, i, j));
            },
            Ok(before) => {
                replay_index_is_ordered(store, entries, n - 1);
                lower_bound_splits(all_sequences(before), entry.sequence);
                let at = lower_bound_of(all_sequences(before), entry.sequence);
                assert(all_sequences(before).len() == before.len());
                if replay_index(store, entries, n) is Err {
                    assert(before.contains(before[at]));
                    let i = choose|i: int|
                        0 <= i < n - 1 && #[trigger] entries[i] == before[at] && is_hot(
                            store,
                            before[at],
                        );
                    assert(collide(store, entries, n, i, n - 1));
                } else {
                    assert forall|i: int, j: int| !#[trigger] collide(store, entries, n, i, j) by {
                        if collide(store, entries, n, i, j) {
                            if j < n - 1 {
                                assert(collide(store, entries, n - 1, i, j));
                            } else {
                                assert(entries[i] == entries[i] && is_hot(store, entries[i]));
                                assert(before.contains(entries[i]));
                                let k = choose|k: int|
                                    0 <= k < before.len() && before[k] == entries[i];
                                assert(all_sequences(before)[k] == entry.sequence);
                                assert(all_sequences(before)[at] >= entry.sequence);
                                if at < k {
                                    assert(all_sequences(before)[at] < all_sequences(before)[k]);
                                }
                            }
                        }
                    }
                }
            },
        }
    }
}

/// A sequence is found where an indexed entry has it, and the entry found is one that has it.
pub proof fn sequence_finds_the_entry_that_has_it(index: Seq<CommitEntry>, sequence: u64)
    requires
        in_sequence(index),
    ensures
        match indexed_entry(index, sequence) {
            Some(entry) => index.contains(entry) && entry.sequence == sequence,
            None => forall|i: int| 0 <= i < index.len() ==> #[trigger] index[i].sequence != sequence,
        },
{
    in_sequence_is_increasing(index);
    let all = all_sequences(index);
    lower_bound_splits(all, sequence);
    let at = lower_bound_of(all, sequence);
    assert forall|i: int| 0 <= i < index.len() && indexed_entry(index, sequence) is None implies
        #[trigger] index[i].sequence != sequence by {
        assert(all[i] == index[i].sequence);
        if index[i].sequence == sequence {
            assert(all[at] == index[at].sequence);
            if at < i {
                assert(all[at] < all[i]);
            }
        }
    }
}

/// A frame that is read for an entry is the one at the entry's locator, whatever is verified, and
/// where checksums are verified it has the checksum that the entry keeps, if it keeps one.
pub proof fn entry_gives_the_frame_at_its_locator(
    store: StoreModel,
    entry: CommitEntry,
    verify: bool,
)
    ensures
        entry_frame(store, entry, verify) is Ok ==> ({
            let frame = entry_frame(store, entry, verify)->Ok_0;
            &&& frame_at(store, entry.locator, verify) == Ok::<FrameModel, ArchiveReplayError>(
                frame,
            )
            &&& frame.locator == entry.locator
            &&& verify && entry.frame_checksum != 0 ==> content_checksum(frame)
                == entry.frame_checksum
        }),
        !verify || entry.frame_checksum == 0 ==> entry_frame(store, entry, verify) == frame_at(
            store,
            entry.locator,
            verify,
        ),
{
    if entry_frame(store, entry, verify) is Ok {
        entry_frame_locator(store, entry, verify);
    }
}

/// The batch stops for one of three reasons: the index is at its end, enough records were taken,
/// or the next one would pass the limit of bytes.
proof fn batch_stops_where_it_must(
    store: StoreModel,
    index: Seq<CommitEntry>,
    at: int,
    max_records: int,
    max_bytes: int,
    taken: Seq<FrameModel>,
    bytes: int,
    verify: bool,
)
    requires
        0 <= at <= index.len(),
        bytes == total_len(taken),
    ensures
        ({
            let batch = batch_from(store, index, at, max_records, max_bytes, taken, bytes, verify);
            &&& at <= batch.next <= index.len()
            &&& match batch.frames {
                Ok(frames) => {
                    ||| batch.next == index.len()
                    ||| frames.len() >= max_records
                    ||| frames.len() > 0 && total_len(frames) + index[batch.next].locator.frame_len
                        > max_bytes
                },
                Err(error) => batch.next < index.len() && entry_frame(
                    store,
                    index[batch.next],
                    verify,
                ) == Err::<FrameModel, ArchiveReplayError>(error),
            }
        }),
    decreases index.len() - at,
{
    if at < index.len() && taken.len() < max_records && !(taken.len() > 0 && bytes
        + index[at].locator.frame_len > max_bytes) {
        if entry_frame(store, index[at], verify) is Ok {
            let frame = entry_frame(store, index[at], verify)->Ok_0;
            let longer = taken.push(frame);
            assert(longer.drop_last() =~= taken);
            batch_stops_where_it_must(
                store,
                index,
                at + 1,
                max_records,
                max_bytes,
                longer,
                bytes + frame.locator.frame_len,
                verify,
            );
        }
    }
}

/// A batch is the records that follow one another from a place in the index on: no more of them
/// than asked for and than the budget allows, no more bytes than the budget allows unless it is a
/// single record, and no fewer than these limits and the index leave. The next batch starts behind
/// the last of them.
pub proof fn batch_is_as_long_as_the_budget_allows(
    store: StoreModel,
    index: Seq<CommitEntry>,
    at: int,
    max_records: usize,
    budget: ReplayBudget,
    verify: bool,
)
    requires
        0 <= at <= index.len(),
        budgeted_batch(store, index, at, max_records, budget, verify).frames is Ok,
    ensures
        ({
            let batch = budgeted_batch(store, index, at, max_records, budget, verify);
            let frames = batch.frames->Ok_0;
            &&& batch.next == at + frames.len()
            &&& batch.next <= index.len()
            &&& frames.len() <= max_records
            &&& frames.len() <= budget.max_records_per_call
            &&& frames.len() <= 1 || total_len(frames) <= budget.max_bytes_per_call
            &&& forall|i: int|
                0 <= i < frames.len() ==> (#[trigger] frames[i]).locator == index[at + i].locator
            &&& {
                ||| batch.next == index.len()
                ||| frames.len() == max_records
                ||| frames.len() == budget.max_records_per_call
                ||| frames.len() > 0 && total_len(frames) + index[batch.next].locator.frame_len
                    > budget.max_bytes_per_call
            }
        }),
{
    let limit = if max_records < budget.max_records_per_call {
        max_records
    } else {
        budget.max_records_per_call
    };
    let max_bytes = budget.max_bytes_per_call as int;
    let none = Seq::<FrameModel>::empty();
    batch_keeps_budget(store, index, at, limit as int, max_bytes, none, 0, verify);
    batch_stops_where_it_must(store, index, at, limit as int, max_bytes, none, 0, verify);
    let frames = budgeted_batch(store, index, at, max_records, budget, verify).frames->Ok_0;
    assert forall|i: int| 0 <= i < frames.len() implies (#[trigger] frames[i]).locator == index[at
        + i].locator by {
        assert(index[at + (i - none.len())] == index[at + i]);
        assert(entry_frame(store, index[at + (i - none.len())], verify) == Ok::<
            FrameModel,
            ArchiveReplayError,
        >(frames[i]));
        entry_frame_locator(store, index[at + i], verify);
    }
}

/// Seeking a sequence, and a range that starts at one, begin at the first indexed entry that has
/// the sequence or a later one.
pub proof fn seek_finds_the_first_sequence_reached(index: Seq<CommitEntry>, sequence: u64)
    requires
        in_sequence(index),
    ensures
        ({
            let at = lower_bound_of(all_sequences(index), sequence);
            &&& 0 <= at <= index.len()
            &&& forall|i: int| 0 <= i < at ==> #[trigger] index[i].sequence < sequence
            &&& forall|i: int| at <= i < index.len() ==> #[trigger] index[i].sequence >= sequence
        }),
{
    in_sequence_is_increasing(index);
    let all = all_sequences(index);
    lower_bound_splits(all, sequence);
    let at = lower_bound_of(all, sequence);
    assert forall|i: int| 0 <= i < at implies #[trigger] index[i].sequence < sequence by {
        assert(all[i] == index[i].sequence);
    }
    assert forall|i: int| at <= i < index.len() implies #[trigger] index[i].sequence >= sequence by {
        assert(all[i] == index[i].sequence);
    }
}

/// The locator names a generation, and the frame is the one that stands there.
pub open spec fn reads_locator(
    store: StoreModel,
    locator: ArchiveLocator,
    frame: FrameModel,
    verify: bool,
) -> bool {
    locator.segment_generation > 0 && frame_at(store, locator, verify) == Ok::<
        FrameModel,
        ArchiveReplayError,
    >(frame)
}

proof fn frame_has_the_locator_it_was_read_at(
    store: StoreModel,
    locator: ArchiveLocator,
    verify: bool,
)
    requires
        frame_at(store, locator, verify) is Ok,
    ensures
        frame_at(store, locator, verify)->Ok_0.locator == locator,
{
}

#[verifier::rlimit(40)]
proof fn locators_are_read_from(
    store: StoreModel,
    locators: Seq<ArchiveLocator>,
    i: int,
    limit: int,
    max_bytes: int,
    taken: Seq<FrameModel>,
    bytes: int,
    verify: bool,
)
    requires
        0 <= i <= limit <= locators.len(),
        taken.len() == i,
        bytes == total_len(taken),
        taken.len() <= 1 || total_len(taken) <= max_bytes,
        forall|k: int|
            #![trigger taken[k]]
            0 <= k < i ==> reads_locator(store, locators[k], taken[k], verify),
        located_frames(store, locators, i, limit, max_bytes, taken, bytes, verify) is Ok,
    ensures
        ({
            let frames = located_frames(
                store,
                locators,
                i,
                limit,
                max_bytes,
                taken,
                bytes,
                verify,
            )->Ok_0;
            &&& frames.len() <= limit
            &&& frames.len() <= 1 || total_len(frames) <= max_bytes
            &&& forall|k: int|
                #![trigger frames[k]]
                0 <= k < frames.len() ==> reads_locator(store, locators[k], frames[k], verify)
            &&& frames.len() == limit || (frames.len() > 0 && total_len(frames)
                + locators[frames.len() as int].frame_len > max_bytes)
        }),
    decreases limit - i,
{
    if i < limit && !(taken.len() > 0 && bytes + locators[i].frame_len > max_bytes) {
        let frame = frame_at(store, locators[i], verify)->Ok_0;
        frame_has_the_locator_it_was_read_at(store, locators[i], verify);
        let longer = taken.push(frame);
        assert(longer.drop_last() =~= taken);
        assert(total_len(longer) == bytes + frame.locator.frame_len);
        assert(reads_locator(store, locators[i], frame, verify));
        locators_are_read_from(
            store,
            locators,
            i + 1,
            limit,
            max_bytes,
            longer,
            bytes + frame.locator.frame_len,
            verify,
        );
    }
}

/// Reading many locators gives the frames of the first of them, one each and in their order: as
/// many as there are, unless the budget ends the reading before. Every locator read names a
/// generation.
pub proof fn many_locators_are_read_in_order(
    store: StoreModel,
    locators: Seq<ArchiveLocator>,
    limit: int,
    max_bytes: int,
    verify: bool,
)
    requires
        0 <= limit <= locators.len(),
        located_frames(store, locators, 0, limit, max_bytes, Seq::empty(), 0, verify) is Ok,
    ensures
        ({
            let frames = located_frames(
                store,
                locators,
                0,
                limit,
                max_bytes,
                Seq::empty(),
                0,
                verify,
            )->Ok_0;
            &&& frames.len() <= limit
            &&& frames.len() <= 1 || total_len(frames) <= max_bytes
            &&& forall|k: int|
                #![trigger frames[k]]
                0 <= k < frames.len() ==> reads_locator(store, locators[k], frames[k], verify)
            &&& frames.len() == limit || (frames.len() > 0 && total_len(frames)
                + locators[frames.len() as int].frame_len > max_bytes)
        }),
{
    let none = Seq::<FrameModel>::empty();
    assert(total_len(none) == 0);
    locators_are_read_from(store, locators, 0, limit, max_bytes, none, 0, verify);
}

/// The view tells the entry, and whether its segment is attached.
pub open spec fn shows_entry(
    store: StoreModel,
    view: ArchiveCommitLogEntry,
    entry: CommitEntry,
) -> bool {
    &&& view.commit_ordinal == entry.commit_ordinal
    &&& view.sequence == entry.sequence
    &&& view.locator == entry.locator
    &&& view.frame_checksum == entry.frame_checksum
    &&& view.event_time_ns == entry.event_time_ns
    &&& view.commit_time_ns == entry.commit_time_ns
    &&& view.source_pattern == entry.source_pattern
    &&& view.source_service_id == entry.source_service_id
    &&& view.source_instance_id == entry.source_instance_id
    &&& view.source_sequence == entry.source_sequence
    &&& view.hot_attached == lies_attached(store, entry)
}

/// An entry that was listed: it reaches the ordinal, and its view stands at `k`.
pub open spec fn listed_at(
    store: StoreModel,
    views: Seq<ArchiveCommitLogEntry>,
    entry: CommitEntry,
    from_commit_ordinal: u64,
    k: int,
) -> bool {
    &&& 0 <= k < views.len()
    &&& entry.commit_ordinal >= from_commit_ordinal
    &&& shows_entry(store, views[k], entry)
}

/// The view at `k` is one of the first `n` entries, which reaches the ordinal.
pub open spec fn comes_from_log(
    store: StoreModel,
    views: Seq<ArchiveCommitLogEntry>,
    entries: Seq<CommitEntry>,
    n: int,
    from_commit_ordinal: u64,
    k: int,
) -> bool {
    exists|i: int|
        0 <= i < n && #[trigger] listed_at(store, views, entries[i], from_commit_ordinal, k)
}

/// The entry is listed somewhere.
pub open spec fn is_listed(
    store: StoreModel,
    views: Seq<ArchiveCommitLogEntry>,
    entry: CommitEntry,
    from_commit_ordinal: u64,
) -> bool {
    exists|k: int| listed_at(store, views, entry, from_commit_ordinal, k)
}

/// An inspection lists at most as many entries as asked for. Each one listed is an entry of the
/// log that reaches the ordinal asked for, and where there was room for all of those, each of them
/// is listed.
pub proof fn inspection_lists_entries_from_the_ordinal_on(
    store: StoreModel,
    entries: Seq<CommitEntry>,
    from_commit_ordinal: u64,
    max_entries: int,
    n: int,
)
    requires
        0 <= n <= entries.len(),
        max_entries >= 0,
    ensures
        ({
            let views = entry_views(store, entries, from_commit_ordinal, max_entries, n);
            &&& views.len() <= max_entries
            &&& forall|k: int|
                0 <= k < views.len() ==> #[trigger] comes_from_log(
                    store,
                    views,
                    entries,
                    n,
                    from_commit_ordinal,
                    k,
                )
            &&& views.len() < max_entries ==> forall|i: int|
                0 <= i < n && entries[i].commit_ordinal >= from_commit_ordinal
                    ==> #[trigger] is_listed(store, views, entries[i], from_commit_ordinal)
        }),
    decreases n,
{
    if n > 0 {
        inspection_lists_entries_from_the_ordinal_on(
            store,
            entries,
            from_commit_ordinal,
            max_entries,
            n - 1,
        );
        let from = from_commit_ordinal;
        let before = entry_views(store, entries, from, max_entries, n - 1);
        let views = entry_views(store, entries, from, max_entries, n);
        assert forall|k: int| 0 <= k < views.len() implies #[trigger] comes_from_log(
            store,
            views,
            entries,
            n,
            from,
            k,
        ) by {
            if k < before.len() {
                assert(comes_from_log(store, before, entries, n - 1, from, k));
                assert(before[k] == views[k]);
                let i = choose|i: int|
                    0 <= i < n - 1 && #[trigger] listed_at(store, before, entries[i], from, k);
                assert(listed_at(store, views, entries[i], from, k));
            } else {
                assert(listed_at(store, views, entries[n - 1], from, k));
            }
        }
        if views.len() < max_entries {
            assert forall|i: int| 0 <= i < n && entries[i].commit_ordinal >= from implies
                #[trigger] is_listed(store, views, entries[i], from) by {
                if i < n - 1 {
                    assert(is_listed(store, before, entries[i], from));
                    let k = choose|k: int| listed_at(store, before, entries[i], from, k);
                    assert(before[k] == views[k]);
                    assert(listed_at(store, views, entries[i], from, k));
                } else {
                    let last = before.len() as int;
                    assert(listed_at(store, views, entries[i], from, last));
                }
            }
        }
    }
}

/// Where the log is in order of its ordinals, an inspection lists entries in that order, and those
/// that it leaves out for want of room come behind the ones listed.
pub proof fn inspection_lists_the_first_entries_in_order(
    store: StoreModel,
    entries: Seq<CommitEntry>,
    from_commit_ordinal: u64,
    max_entries: int,
    n: int,
)
    requires
        0 <= n <= entries.len(),
        max_entries >= 0,
        forall|i: int, j: int|
            #![trigger entries[i], entries[j]]
            0 <= i < j < entries.len() ==> entries[i].commit_ordinal < entries[j].commit_ordinal,
    ensures
        ({
            let views = entry_views(store, entries, from_commit_ordinal, max_entries, n);
            &&& forall|k: int, l: int|
                #![trigger views[k], views[l]]
                0 <= k < l < views.len() ==> views[k].commit_ordinal < views[l].commit_ordinal
            &&& forall|i: int, k: int|
                #![trigger entries[i], views[k]]
                0 <= i < n && 0 <= k < views.len() && entries[i].commit_ordinal
                    >= from_commit_ordinal && !is_listed(
                    store,
                    views,
                    entries[i],
                    from_commit_ordinal,
                ) ==> views[k].commit_ordinal < entries[i].commit_ordinal
        }),
    decreases n,
{
    if n > 0 {
        let from = from_commit_ordinal;
        inspection_lists_the_first_entries_in_order(store, entries, from, max_entries, n - 1);
        inspection_lists_entries_from_the_ordinal_on(store, entries, from, max_entries, n - 1);
        let before = entry_views(store, entries, from, max_entries, n - 1);
        let views = entry_views(store, entries, from, max_entries, n);
        let entry = entries[n - 1];
        assert forall|k: int| 0 <= k < before.len() implies (#[trigger] before[k]).commit_ordinal
            < entry.commit_ordinal by {
            assert(comes_from_log(store, before, entries, n - 1, from, k));
            let i = choose|i: int|
                0 <= i < n - 1 && #[trigger] listed_at(store, before, entries[i], from, k);
            assert(entries[i].commit_ordinal < entries[n - 1].commit_ordinal);
        }
        assert forall|k: int, l: int|
            #![trigger views[k], views[l]]
            0 <= k < l < views.len() implies views[k].commit_ordinal < views[l].commit_ordinal by {
            assert(before[k] == views[k]);
            if l < before.len() {
                assert(before[l] == views[l]);
            }
        }
        assert forall|i: int, k: int|
            #![trigger entries[i], views[k]]
            0 <= i < n && 0 <= k < views.len() && entries[i].commit_ordinal >= from && !is_listed(
                store,
                views,
                entries[i],
                from,
            ) implies views[k].commit_ordinal < entries[i].commit_ordinal by {
            if i == n - 1 {
                if k < before.len() {
                    assert(before[k] == views[k]);
                } else {
                    assert(listed_at(store, views, entries[i], from, k));
                }
            } else {
                if is_listed(store, before, entries[i], from) {
                    let b = choose|b: int| listed_at(store, before, entries[i], from, b);
                    assert(before[b] == views[b]);
                    assert(listed_at(store, views, entries[i], from, b));
                } else {
                    assert(before.len() == max_entries);
                    assert(before[k] == views[k]);
                }
            }
        }
    }
}

} // verus!
