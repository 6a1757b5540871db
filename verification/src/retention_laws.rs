//! What trimming, detaching, deleting, pinning and the cap on retained bytes promise of the files
//! and the records of an archive.

use crate::commit_entry::CommitEntry;
use crate::error::{ArchiveDirectory, ArchiveFile};
use crate::frame::frame_at;
use crate::lifecycle::{
    detach_pass_effect, has_to_stay, is_protected, retention_spares_pinned_segments, same_segment,
    trimming_removes_old_segments, trimming_spares_pinned_segments,
};
use crate::maintenance::{
    delete_pass, deleted_before, detach_pass, detached_before, free_pin, may_leave, pin_begun,
    pin_released, trimmed_before, DeleteProgress,
};
use crate::order::SegmentKey;
use crate::recorder::{retention_enforced, retention_pass, RecorderModel, RetentionProgress};
use crate::replayer::{entry_frame, located_frame, replay_pin_begun};
use crate::retention::{
    is_pinned, ordered_states, pin_held, pin_overlaps, retention, sealed_summaries,
    segment_states, states_are_ordered, summary_key, summary_state, tier_data, tier_meta, without_range,
};
use crate::state::RecorderState;
use crate::store::StoreModel;
use crate::summary::SegmentSummary;
use crate::types::{
    ArchiveLocator, ArchiveSegmentState, ArchiveSegmentTier, PersistenceMode, ReplayPin,
};
use vstd::prelude::*;

verus! {

/// Both stores have the same files of a segment in both tiers, with the same content.
pub open spec fn keeps_segment(a: StoreModel, b: StoreModel, id: u64, generation: u32) -> bool {
    forall|tier: ArchiveSegmentTier|
        {
            let data = ArchiveFile::SegmentData {
                tier,
                segment_id: id,
                segment_generation: generation,
            };
            let meta = #[trigger] tier_meta(tier, (id, generation));
            &&& a.files.contains_key(data) == b.files.contains_key(data)
            &&& a.files[data] == b.files[data]
            &&& meta == ArchiveFile::SegmentMeta {
                tier,
                segment_id: id,
                segment_generation: generation,
            }
            &&& a.files.contains_key(meta) == b.files.contains_key(meta)
            &&& a.files[meta] == b.files[meta]
        }
}

/// Whatever is read at a locator in the segment is the same in both stores.
pub open spec fn reads_alike(a: StoreModel, b: StoreModel, id: u64, generation: u32) -> bool {
    &&& forall|locator: ArchiveLocator, verify: bool|
        locator.segment_id == id && locator.segment_generation == generation ==> #[trigger]
            located_frame(b, locator, verify) == located_frame(a, locator, verify)
    &&& forall|entry: CommitEntry, verify: bool|
        entry.locator.segment_id == id && entry.locator.segment_generation == generation
            ==> #[trigger] entry_frame(b, entry, verify) == entry_frame(a, entry, verify)
}

/// A segment of which all files are the same is kept and reads alike.
pub(crate) proof fn same_segment_reads(a: StoreModel, b: StoreModel, key: SegmentKey)
    requires
        same_segment(a, b, key),
    ensures
        keeps_segment(a, b, key.0, key.1),
        reads_alike(a, b, key.0, key.1),
{
    assert forall|tier: ArchiveSegmentTier| {
        let data = ArchiveFile::SegmentData {
            tier,
            segment_id: key.0,
            segment_generation: key.1,
        };
        let meta = #[trigger] tier_meta(tier, (key.0, key.1));
        &&& a.files.contains_key(data) == b.files.contains_key(data)
        &&& a.files[data] == b.files[data]
        &&& meta == ArchiveFile::SegmentMeta {
            tier,
            segment_id: key.0,
            segment_generation: key.1,
        }
        &&& a.files.contains_key(meta) == b.files.contains_key(meta)
        &&& a.files[meta] == b.files[meta]
    } by {
        assert(a.has(tier_data(tier, key)) == b.has(tier_data(tier, key)));
        assert(a.has(tier_meta(tier, key)) == b.has(tier_meta(tier, key)));
    }
    let hot = ArchiveSegmentTier::HotAttached;
    assert(a.has(tier_data(hot, key)) == b.has(tier_data(hot, key)));
    assert forall|locator: ArchiveLocator, verify: bool|
        locator.segment_id == key.0 && locator.segment_generation == key.1 implies #[trigger]
    located_frame(b, locator, verify) == located_frame(a, locator, verify) by {
        assert(frame_at(b, locator, verify) == frame_at(a, locator, verify));
    }
    assert forall|entry: CommitEntry, verify: bool|
        entry.locator.segment_id == key.0 && entry.locator.segment_generation == key.1
            implies #[trigger] entry_frame(b, entry, verify) == entry_frame(a, entry, verify) by {
        assert(frame_at(b, entry.locator, verify) == frame_at(a, entry.locator, verify));
    }
}

/// Every summary of the segment in the catalog ends at the bound or behind it.
pub open spec fn reaches_bound(
    summaries: Seq<SegmentSummary>,
    id: u64,
    generation: u32,
    before: u64,
) -> bool {
    forall|i: int|
        0 <= i < summaries.len() && (#[trigger] summaries[i]).segment_id == id
            && summaries[i].segment_generation == generation ==> summaries[i].sequence_end
            >= before
}

/// A segment whose last sequence is the bound or lies behind it is not touched by trimming,
/// detaching or deleting before the bound: all its files stay as they are and in the tier where
/// they are, so that each of its records reads back as before.
pub proof fn records_from_the_bound_on_stay(
    recorder: RecorderModel,
    store: StoreModel,
    before: u64,
    id: u64,
    generation: u32,
)
    requires
        recorder.state.disk is Some,
        sealed_summaries(recorder.state, store) is Ok,
        reaches_bound(
            sealed_summaries(recorder.state, store)->Ok_0,
            id,
            generation,
            before,
        ),
    ensures
        ({
            let after = trimmed_before(recorder, store, before).store;
            keeps_segment(store, after, id, generation) && reads_alike(
                store,
                after,
                id,
                generation,
            )
        }),
        ({
            let after = detached_before(recorder, store, before).store;
            keeps_segment(store, after, id, generation) && reads_alike(
                store,
                after,
                id,
                generation,
            )
        }),
        ({
            let after = deleted_before(recorder, store, before).store;
            keeps_segment(store, after, id, generation) && reads_alike(
                store,
                after,
                id,
                generation,
            )
        }),
{
    let key: SegmentKey = (id, generation);
    let summaries = sealed_summaries(recorder.state, store)->Ok_0;
    assert(has_to_stay(store, summaries, before, key, summaries.len() as int)) by {
        assert forall|i: int|
            #![trigger summaries[i]]
            0 <= i < summaries.len() && summary_key(summaries[i]) == key implies !may_leave(
            store,
            summaries[i],
            before,
        ) by {
            assert(summaries[i].sequence_end >= before);
        }
    }
    trimming_spares_pinned_segments(recorder, store, before, key);
    same_segment_reads(store, trimmed_before(recorder, store, before).store, key);
    same_segment_reads(store, detached_before(recorder, store, before).store, key);
    same_segment_reads(store, deleted_before(recorder, store, before).store, key);
}

/// An index without a range has every other entry, and no new one.
proof fn without_range_keeps(index: Seq<(u64, ArchiveLocator)>, start: u64, end: u64)
    ensures
        forall|entry: (u64, ArchiveLocator)|
            #[trigger] without_range(index, start, end).contains(entry) <==> index.contains(entry)
                && !(start <= entry.0 <= end),
    decreases index.len(),
{
    reveal(Seq::filter);
    let kept = without_range(index, start, end);
    if index.len() > 0 {
        let less = index.drop_last();
        let before = without_range(less, start, end);
        without_range_keeps(less, start, end);
        let last = index.last();
        assert forall|entry: (u64, ArchiveLocator)| #[trigger]
            kept.contains(entry) <==> index.contains(entry) && !(start <= entry.0 <= end) by {
            assert(before.contains(entry) <==> less.contains(entry) && !(start <= entry.0 <= end));
            if index.contains(entry) && entry != last {
                let k = choose|k: int| 0 <= k < index.len() && index[k] == entry;
                assert(less[k] == entry);
            }
            if less.contains(entry) {
                let k = choose|k: int| 0 <= k < less.len() && less[k] == entry;
                assert(index[k] == entry);
            }
            if kept.contains(entry) && !before.contains(entry) {
                let k = choose|k: int| 0 <= k < kept.len() && kept[k] == entry;
                if k < before.len() {
                    assert(before[k] == entry);
                }
                assert(entry == last);
                assert(index[index.len() - 1] == entry);
            }
            if before.contains(entry) {
                let k = choose|k: int| 0 <= k < before.len() && before[k] == entry;
                assert(kept[k] == entry);
            }
            if entry == last && !(start <= entry.0 <= end) {
                assert(kept[kept.len() - 1] == entry);
            }
        }
    }
}

/// Deleting removes no entry at the bound or behind it from the index, and adds none.
proof fn delete_pass_keeps_index(
    state: RecorderState,
    start: DeleteProgress,
    summaries: Seq<SegmentSummary>,
    before: u64,
    n: int,
)
    requires
        0 <= n <= summaries.len(),
    ensures
        ({
            let after = delete_pass(state, start, summaries, before, n).index;
            &&& forall|entry: (u64, ArchiveLocator)|
                start.index.contains(entry) && entry.0 >= before ==> #[trigger] after.contains(
                    entry,
                )
            &&& forall|entry: (u64, ArchiveLocator)| #[trigger]
                after.contains(entry) ==> start.index.contains(entry)
        }),
    decreases n,
{
    if n > 0 {
        delete_pass_keeps_index(state, start, summaries, before, n - 1);
        let rest = delete_pass(state, start, summaries, before, n - 1);
        let summary = summaries[n - 1];
        without_range_keeps(rest.index, summary.sequence_start, summary.sequence_end);
    }
}

/// Trimming or deleting before a bound takes no sequence at the bound or behind it from the index
/// of the recorder, and puts none into it; detaching leaves the recorder alone.
pub proof fn index_from_the_bound_on_stays(
    recorder: RecorderModel,
    store: StoreModel,
    before: u64,
    entry: (u64, ArchiveLocator),
)
    ensures
        detached_before(recorder, store, before).recorder == recorder,
        ({
            let after = trimmed_before(recorder, store, before).recorder;
            &&& recorder.index.contains(entry) && entry.0 >= before ==> after.index.contains(entry)
            &&& after.index.contains(entry) ==> recorder.index.contains(entry)
            &&& after.state == recorder.state
            &&& after.volatile == recorder.volatile
        }),
        ({
            let after = deleted_before(recorder, store, before).recorder;
            &&& recorder.index.contains(entry) && entry.0 >= before ==> after.index.contains(entry)
            &&& after.index.contains(entry) ==> recorder.index.contains(entry)
            &&& after.state == recorder.state
            &&& after.volatile == recorder.volatile
        }),
{
    let state = recorder.state;
    if sealed_summaries(state, store) is Ok {
        let summaries = sealed_summaries(state, store)->Ok_0;
        delete_pass_keeps_index(
            state,
            DeleteProgress { index: recorder.index, store, count: 0 },
            summaries,
            before,
            summaries.len() as int,
        );
    }
    let first = detached_before(recorder, store, before).store;
    if sealed_summaries(state, first) is Ok {
        let summaries = sealed_summaries(state, first)->Ok_0;
        delete_pass_keeps_index(
            state,
            DeleteProgress { index: recorder.index, store: first, count: 0 },
            summaries,
            before,
            summaries.len() as int,
        );
    }
}

/// The marker of the pin lies in the directory of the pins.
pub open spec fn pin_is_there(store: StoreModel, pin: ReplayPin) -> bool {
    &&& store.directories.contains(ArchiveDirectory::Pins)
    &&& store.files.contains_key(ArchiveFile::Pin { pin }) || store.files.contains_key(
        ArchiveFile::PinAlias { pin },
    )
}

/// The sequence is one of those that the pin names.
pub open spec fn pin_names(pin: ReplayPin, x: u64) -> bool {
    pin.sequence_start <= x && x <= pin.sequence_end
}

/// A sequence of the range is named by a pin that is there.
pub open spec fn shares_sequence(store: StoreModel, start: u64, end: u64) -> bool {
    exists|pin: ReplayPin, x: u64|
        pin_is_there(store, pin) && #[trigger] pin_names(pin, x) && start <= x && x <= end
}

/// Every pin that is there starts no later than it ends.
pub open spec fn pins_are_ranges(store: StoreModel) -> bool {
    forall|pin: ReplayPin| #[trigger]
        pin_is_there(store, pin) ==> pin.sequence_start <= pin.sequence_end
}

/// A range counts as pinned where a pin that is there names one of its sequences; it does not where
/// none does, and both the range and the pins start no later than they end.
pub proof fn pinned_means_a_common_sequence(store: StoreModel, start: u64, end: u64)
    ensures
        shares_sequence(store, start, end) ==> is_pinned(store, start, end),
        start <= end && pins_are_ranges(store) ==> (is_pinned(store, start, end)
            <==> shares_sequence(store, start, end)),
{
    if shares_sequence(store, start, end) {
        let (pin, x) = choose|pin: ReplayPin, x: u64|
            pin_is_there(store, pin) && #[trigger] pin_names(pin, x) && start <= x && x <= end;
        assert(pin_held(store, pin) && pin_overlaps(pin, start, end));
    }
    if start <= end && pins_are_ranges(store) && is_pinned(store, start, end) {
        let pin = choose|pin: ReplayPin|
            #[trigger] pin_held(store, pin) && pin_overlaps(pin, start, end);
        assert(pin_is_there(store, pin));
        let x = if pin.sequence_start < start {
            start
        } else {
            pin.sequence_start
        };
        assert(pin_names(pin, x) && start <= x && x <= end);
    }
}

/// Every summary of the segment in the catalog has a sequence that a pin names.
pub open spec fn shares_with_pins(
    store: StoreModel,
    summaries: Seq<SegmentSummary>,
    id: u64,
    generation: u32,
) -> bool {
    forall|i: int|
        0 <= i < summaries.len() && (#[trigger] summaries[i]).segment_id == id
            && summaries[i].segment_generation == generation ==> shares_sequence(
            store,
            summaries[i].sequence_start,
            summaries[i].sequence_end,
        )
}

/// A sealed segment with a sequence that a pin names is not touched by trimming, detaching or
/// deleting before any bound, nor by the cap on retained bytes: all its files stay as they are and
/// where they are, so that each of its records reads back as before.
pub proof fn pins_protect_common_sequences(
    recorder: RecorderModel,
    store: StoreModel,
    before: u64,
    id: u64,
    generation: u32,
)
    requires
        recorder.state.disk is Some,
        sealed_summaries(recorder.state, store) is Ok,
        shares_with_pins(
            store,
            sealed_summaries(recorder.state, store)->Ok_0,
            id,
            generation,
        ),
    ensures
        ({
            let after = trimmed_before(recorder, store, before).store;
            keeps_segment(store, after, id, generation) && reads_alike(
                store,
                after,
                id,
                generation,
            )
        }),
        ({
            let after = detached_before(recorder, store, before).store;
            keeps_segment(store, after, id, generation) && reads_alike(
                store,
                after,
                id,
                generation,
            )
        }),
        ({
            let after = deleted_before(recorder, store, before).store;
            keeps_segment(store, after, id, generation) && reads_alike(
                store,
                after,
                id,
                generation,
            )
        }),
        ({
            let after = retention_enforced(recorder, store).store;
            keeps_segment(store, after, id, generation) && reads_alike(
                store,
                after,
                id,
                generation,
            )
        }),
{
    let key: SegmentKey = (id, generation);
    let summaries = sealed_summaries(recorder.state, store)->Ok_0;
    assert forall|i: int|
        #![trigger summaries[i]]
        0 <= i < summaries.len() && summary_key(summaries[i]) == key implies is_pinned(
        store,
        summaries[i].sequence_start,
        summaries[i].sequence_end,
    ) by {
        pinned_means_a_common_sequence(
            store,
            summaries[i].sequence_start,
            summaries[i].sequence_end,
        );
    }
    assert(is_protected(store, summaries, key));
    assert(has_to_stay(store, summaries, before, key, summaries.len() as int));
    trimming_spares_pinned_segments(recorder, store, before, key);
    retention_spares_pinned_segments(recorder, store, key);
    same_segment_reads(store, trimmed_before(recorder, store, before).store, key);
    same_segment_reads(store, detached_before(recorder, store, before).store, key);
    same_segment_reads(store, deleted_before(recorder, store, before).store, key);
    same_segment_reads(store, retention_enforced(recorder, store).store, key);
}

/// No file of the segment is in the tier.
pub open spec fn no_file(
    store: StoreModel,
    tier: ArchiveSegmentTier,
    id: u64,
    generation: u32,
) -> bool {
    &&& !store.files.contains_key(
        ArchiveFile::SegmentData { tier, segment_id: id, segment_generation: generation },
    )
    &&& !store.files.contains_key(
        ArchiveFile::SegmentMeta { tier, segment_id: id, segment_generation: generation },
    )
}

/// A sealed segment whose last sequence lies before the bound, and none of whose sequences a pin
/// names, has no file left after trimming before the bound, and no attached file after detaching.
/// It is not the segment that is written to, and it and the pins start no later than they end.
pub proof fn old_segments_are_trimmed(
    recorder: RecorderModel,
    store: StoreModel,
    before: u64,
    i: int,
)
    requires
        recorder.state.disk is Some,
        sealed_summaries(recorder.state, store) is Ok,
        0 <= i < sealed_summaries(recorder.state, store)->Ok_0.len(),
        pins_are_ranges(store),
        ({
            let summary = sealed_summaries(recorder.state, store)->Ok_0[i];
            &&& summary.sequence_start <= summary.sequence_end
            &&& summary.sequence_end < before
            &&& !shares_sequence(store, summary.sequence_start, summary.sequence_end)
            &&& recorder.state.disk->Some_0.active_segment matches Some(active) ==> (
            active.segment_id,
            active.segment_generation,
        ) != (summary.segment_id, summary.segment_generation)
        }),
    ensures
        ({
            let summary = sealed_summaries(recorder.state, store)->Ok_0[i];
            let (id, generation) = (summary.segment_id, summary.segment_generation);
            let trimmed = trimmed_before(recorder, store, before).store;
            let moved = detached_before(recorder, store, before).store;
            &&& no_file(trimmed, ArchiveSegmentTier::HotAttached, id, generation)
            &&& no_file(trimmed, ArchiveSegmentTier::ColdDetached, id, generation)
            &&& no_file(moved, ArchiveSegmentTier::HotAttached, id, generation)
        }),
{
    let state = recorder.state;
    let summaries = sealed_summaries(state, store)->Ok_0;
    let summary = summaries[i];
    let key = summary_key(summary);
    pinned_means_a_common_sequence(store, summary.sequence_start, summary.sequence_end);
    assert(may_leave(store, summary, before));
    trimming_removes_old_segments(recorder, store, before, i);
    detach_pass_effect(state, store, summaries, before, summaries.len() as int);
    let hot = ArchiveSegmentTier::HotAttached;
    let cold = ArchiveSegmentTier::ColdDetached;
    let trimmed = trimmed_before(recorder, store, before).store;
    let moved = detached_before(recorder, store, before).store;
    assert(!trimmed.has(tier_data(hot, key)) && !trimmed.has(tier_meta(hot, key)));
    assert(!trimmed.has(tier_data(cold, key)) && !trimmed.has(tier_meta(cold, key)));
    assert(!moved.has(tier_data(hot, key)) && !moved.has(tier_meta(hot, key)));
}

/// What is listed of a segment is what the catalog says of it: a listed state has the fields of a
/// summary in the catalog, the tier in which a file of the segment lies, and is pinned where a pin
/// names one of its sequences.
pub proof fn listed_segments_are_those_of_the_catalog(
    state: RecorderState,
    store: StoreModel,
    listed: ArchiveSegmentState,
)
    requires
        sealed_summaries(state, store) is Ok,
        segment_states(state, store)->Ok_0.contains(listed),
    ensures
        segment_states(state, store) is Ok,
        ({
            let summaries = sealed_summaries(state, store)->Ok_0;
            exists|i: int|
                {
                    &&& 0 <= i < summaries.len()
                    &&& listed.segment_id == (#[trigger] summaries[i]).segment_id
                    &&& listed.segment_generation == summaries[i].segment_generation
                    &&& listed.sequence_start == summaries[i].sequence_start
                    &&& listed.sequence_end == summaries[i].sequence_end
                    &&& listed.records == summaries[i].records
                    &&& listed.data_bytes_used == summaries[i].data_bytes_used
                }
        }),
        ({
            let hot = ArchiveSegmentTier::HotAttached;
            let (id, generation) = (listed.segment_id, listed.segment_generation);
            &&& listed.tier == hot <==> !no_file(store, hot, id, generation)
            &&& listed.tier != hot ==> !no_file(
                store,
                ArchiveSegmentTier::ColdDetached,
                id,
                generation,
            )
        }),
        shares_sequence(store, listed.sequence_start, listed.sequence_end) ==> listed.pinned,
        listed.sequence_start <= listed.sequence_end && pins_are_ranges(store) ==> (listed.pinned
            <==> shares_sequence(store, listed.sequence_start, listed.sequence_end)),
{
    let summaries = sealed_summaries(state, store)->Ok_0;
    states_are_ordered(store, summaries, summaries.len() as int);
    assert(ordered_states(store, summaries, summaries.len() as int).contains(listed));
    let i = choose|i: int|
        0 <= i < summaries.len() && summary_state(store, #[trigger] summaries[i]) == Some(listed);
    assert(listed.sequence_end == summaries[i].sequence_end);
    pinned_means_a_common_sequence(store, listed.sequence_start, listed.sequence_end);
    let key = summary_key(summaries[i]);
    let hot = ArchiveSegmentTier::HotAttached;
    let cold = ArchiveSegmentTier::ColdDetached;
    assert(no_file(store, hot, key.0, key.1) <==> !store.has(tier_data(hot, key)) && !store.has(
        tier_meta(hot, key),
    ));
    assert(no_file(store, cold, key.0, key.1) <==> !store.has(tier_data(cold, key)) && !store.has(
        tier_meta(cold, key),
    ));
}

/// Every sealed segment of which a file is left is listed, with what the catalog says of it.
pub proof fn sealed_segments_are_listed(state: RecorderState, store: StoreModel, i: int)
    requires
        sealed_summaries(state, store) is Ok,
        0 <= i < sealed_summaries(state, store)->Ok_0.len(),
        ({
            let summary = sealed_summaries(state, store)->Ok_0[i];
            let (id, generation) = (summary.segment_id, summary.segment_generation);
            !no_file(store, ArchiveSegmentTier::HotAttached, id, generation) || !no_file(
                store,
                ArchiveSegmentTier::ColdDetached,
                id,
                generation,
            )
        }),
    ensures
        segment_states(state, store) is Ok,
        ({
            let summary = sealed_summaries(state, store)->Ok_0[i];
            let list = segment_states(state, store)->Ok_0;
            exists|k: int|
                {
                    &&& 0 <= k < list.len()
                    &&& (#[trigger] list[k]).segment_id == summary.segment_id
                    &&& list[k].segment_generation == summary.segment_generation
                    &&& list[k].sequence_start == summary.sequence_start
                    &&& list[k].sequence_end == summary.sequence_end
                    &&& list[k].records == summary.records
                    &&& list[k].data_bytes_used == summary.data_bytes_used
                }
        }),
{
    let summaries = sealed_summaries(state, store)->Ok_0;
    let summary = summaries[i];
    let key = summary_key(summary);
    let hot = ArchiveSegmentTier::HotAttached;
    let cold = ArchiveSegmentTier::ColdDetached;
    assert(no_file(store, hot, key.0, key.1) <==> !store.has(tier_data(hot, key)) && !store.has(
        tier_meta(hot, key),
    ));
    assert(no_file(store, cold, key.0, key.1) <==> !store.has(tier_data(cold, key)) && !store.has(
        tier_meta(cold, key),
    ));
    states_are_ordered(store, summaries, summaries.len() as int);
    let list = segment_states(state, store)->Ok_0;
    let listed = summary_state(store, summary)->Some_0;
    assert(summary_state(store, summary) == Some(listed));
    assert(list.contains(listed));
    let k = choose|k: int| 0 <= k < list.len() && list[k] == listed;
    assert(list[k].segment_id == summary.segment_id);
}

/// Segments are listed in order of their first sequences.
pub proof fn segments_are_listed_oldest_first(
    state: RecorderState,
    store: StoreModel,
    i: int,
    j: int,
)
    requires
        segment_states(state, store) is Ok,
        0 <= i < j < segment_states(state, store)->Ok_0.len(),
    ensures
        segment_states(state, store)->Ok_0[i].sequence_start <= segment_states(
            state,
            store,
        )->Ok_0[j].sequence_start,
{
    let summaries = sealed_summaries(state, store)->Ok_0;
    states_are_ordered(store, summaries, summaries.len() as int);
    let list = segment_states(state, store)->Ok_0;
    assert(!crate::retention::listed_before(list[j], list[i]));
}

/// The first free pin names the range that was asked for and is not there yet.
proof fn free_pin_is_free(
    store: StoreModel,
    now_ns: u64,
    attempt: u64,
    sequence_start: u64,
    sequence_end: u64,
)
    ensures
        free_pin(store, now_ns, attempt, sequence_start, sequence_end) matches Some(pin) ==> {
            &&& pin.sequence_start == sequence_start
            &&& pin.sequence_end == sequence_end
            &&& !store.has(ArchiveFile::Pin { pin })
        },
    decreases 1024 - attempt,
{
    if attempt < 1024 && free_pin(store, now_ns, attempt, sequence_start, sequence_end) is Some {
        free_pin_is_free(store, now_ns, (attempt + 1) as u64, sequence_start, sequence_end);
    }
}

/// A pin that was begun names exactly the sequences that were asked for, and its marker is new and
/// there; every other file stays as it was. Releasing the pin takes its marker away and nothing
/// else, so that the files are those from before.
pub proof fn begun_pin_is_there_until_released(
    state: RecorderState,
    store: StoreModel,
    sequence_start: u64,
    sequence_end: u64,
    now_ns: u64,
)
    requires
        pin_begun(state, store, sequence_start, sequence_end, now_ns).1 is Ok,
    ensures
        ({
            let (held, result) = pin_begun(state, store, sequence_start, sequence_end, now_ns);
            let pin = result->Ok_0;
            let marker = ArchiveFile::Pin { pin };
            &&& sequence_start <= sequence_end
            &&& state.config.persistence_mode != PersistenceMode::Volatile
            &&& pin.sequence_start == sequence_start
            &&& pin.sequence_end == sequence_end
            &&& !store.files.contains_key(marker)
            &&& pin_is_there(held, pin)
            &&& held.files.remove(marker) == store.files
            &&& forall|other: ReplayPin|
                #[trigger] pin_is_there(store, other) ==> pin_is_there(held, other)
            &&& pin_released(held, pin).files == store.files
            &&& pin_released(pin_released(held, pin), pin) == pin_released(held, pin)
        }),
{
    let opened = store.with_directory(ArchiveDirectory::Pins);
    free_pin_is_free(opened, now_ns, 0, sequence_start, sequence_end);
    let (held, result) = pin_begun(state, store, sequence_start, sequence_end, now_ns);
    let marker = ArchiveFile::Pin { pin: result->Ok_0 };
    assert(held.files.remove(marker) =~= store.files);
    assert(pin_released(held, result->Ok_0).files =~= store.files);
}

/// Whatever holds a sequence that was pinned is not removed: after a pin on a range was begun, each
/// sealed segment with a sequence of the range keeps all its files through trimming before any
/// bound and through the cap on retained bytes.
pub proof fn pinned_records_are_not_removed(
    recorder: RecorderModel,
    store: StoreModel,
    sequence_start: u64,
    sequence_end: u64,
    now_ns: u64,
    before: u64,
    x: u64,
    id: u64,
    generation: u32,
)
    requires
        recorder.state.disk is Some,
        pin_begun(recorder.state, store, sequence_start, sequence_end, now_ns).1 is Ok,
        sealed_summaries(recorder.state, store) is Ok,
        sequence_start <= x <= sequence_end,
        ({
            let summaries = sealed_summaries(recorder.state, store)->Ok_0;
            forall|i: int|
                0 <= i < summaries.len() && (#[trigger] summaries[i]).segment_id == id
                    && summaries[i].segment_generation == generation
                    ==> summaries[i].sequence_start <= x <= summaries[i].sequence_end
        }),
    ensures
        ({
            let held = pin_begun(recorder.state, store, sequence_start, sequence_end, now_ns).0;
            let trimmed = trimmed_before(recorder, held, before).store;
            let capped = retention_enforced(recorder, held).store;
            &&& keeps_segment(store, trimmed, id, generation)
            &&& keeps_segment(store, capped, id, generation)
            &&& reads_alike(store, trimmed, id, generation)
            &&& reads_alike(store, capped, id, generation)
        }),
{
    let state = recorder.state;
    let summaries = sealed_summaries(state, store)->Ok_0;
    begun_pin_is_there_until_released(state, store, sequence_start, sequence_end, now_ns);
    let (held, result) = pin_begun(state, store, sequence_start, sequence_end, now_ns);
    let pin = result->Ok_0;
    let marker = ArchiveFile::Pin { pin };
    assert forall|file: ArchiveFile| file != marker implies #[trigger] held.has(file) == store.has(
        file,
    ) && held.files[file] == store.files[file] by {
        assert(held.files.remove(marker).contains_key(file) == store.files.contains_key(file));
        assert(held.files.remove(marker)[file] == store.files[file]);
    }
    assert(held.has(ArchiveFile::Catalog) == store.has(ArchiveFile::Catalog));
    assert(sealed_summaries(state, held) == sealed_summaries(state, store));
    assert forall|i: int|
        0 <= i < summaries.len() && (#[trigger] summaries[i]).segment_id == id
            && summaries[i].segment_generation == generation implies shares_sequence(
        held,
        summaries[i].sequence_start,
        summaries[i].sequence_end,
    ) by {
        assert(pin_is_there(held, pin) && pin_names(pin, x));
    }
    pins_protect_common_sequences(recorder, held, before, id, generation);
    let key: SegmentKey = (id, generation);
    assert forall|tier: ArchiveSegmentTier|
        #![trigger held.has(tier_data(tier, key))]
        #![trigger held.has(tier_meta(tier, key))]
        {
            &&& held.has(tier_data(tier, key)) == store.has(tier_data(tier, key))
            &&& held.files[tier_data(tier, key)] == store.files[tier_data(tier, key)]
            &&& held.has(tier_meta(tier, key)) == store.has(tier_meta(tier, key))
            &&& held.files[tier_meta(tier, key)] == store.files[tier_meta(tier, key)]
        } by {}
    let trimmed = trimmed_before(recorder, held, before).store;
    let capped = retention_enforced(recorder, held).store;
    kept_twice(store, held, trimmed, key);
    kept_twice(store, held, capped, key);
}

/// A segment that is the same in two stores and kept from the second to a third is kept.
proof fn kept_twice(a: StoreModel, b: StoreModel, c: StoreModel, key: SegmentKey)
    requires
        forall|tier: ArchiveSegmentTier|
            #![trigger b.has(tier_data(tier, key))]
            #![trigger b.has(tier_meta(tier, key))]
            {
                &&& b.has(tier_data(tier, key)) == a.has(tier_data(tier, key))
                &&& b.files[tier_data(tier, key)] == a.files[tier_data(tier, key)]
                &&& b.has(tier_meta(tier, key)) == a.has(tier_meta(tier, key))
                &&& b.files[tier_meta(tier, key)] == a.files[tier_meta(tier, key)]
            },
        keeps_segment(b, c, key.0, key.1),
    ensures
        keeps_segment(a, c, key.0, key.1),
        reads_alike(a, c, key.0, key.1),
{
    assert(same_segment(a, c, key)) by {
        assert forall|tier: ArchiveSegmentTier|
            #![trigger a.has(tier_data(tier, key))]
            #![trigger a.has(tier_meta(tier, key))]
            {
                &&& a.has(tier_data(tier, key)) == c.has(tier_data(tier, key))
                &&& a.files[tier_data(tier, key)] == c.files[tier_data(tier, key)]
                &&& a.has(tier_meta(tier, key)) == c.has(tier_meta(tier, key))
                &&& a.files[tier_meta(tier, key)] == c.files[tier_meta(tier, key)]
            } by {
            assert(tier_meta(tier, (key.0, key.1)) == tier_meta(tier, key));
            assert(b.has(tier_data(tier, key)) == a.has(tier_data(tier, key)));
        }
    }
    same_segment_reads(a, c, key);
}

/// A recorder that writes to disk gives a pin on every range that does not start behind its end,
/// named after the time where no such pin is there yet. A replayer gives the same.
pub proof fn pin_is_given_on_every_range(
    state: RecorderState,
    store: StoreModel,
    sequence_start: u64,
    sequence_end: u64,
    now_ns: u64,
)
    requires
        !store.files.contains_key(
            ArchiveFile::Pin { pin: ReplayPin { pin_id: now_ns, sequence_start, sequence_end } },
        ),
    ensures
        ({
            let (held, result) = pin_begun(state, store, sequence_start, sequence_end, now_ns);
            let (replay_held, replay_result) = replay_pin_begun(
                store,
                sequence_start,
                sequence_end,
                now_ns,
            );
            let pin = ReplayPin { pin_id: now_ns, sequence_start, sequence_end };
            &&& result is Ok <==> !(state.config.persistence_mode is Volatile) && sequence_start
                <= sequence_end
            &&& replay_result is Ok <==> sequence_start <= sequence_end
            &&& result is Ok ==> result->Ok_0 == pin && held == replay_held
            &&& replay_result is Ok ==> replay_result->Ok_0 == pin && pin_is_there(replay_held, pin)
            &&& result is Err ==> held == store
            &&& replay_result is Err ==> replay_held == store
        }),
{
    assert(now_ns.wrapping_add(0) == now_ns);
}

/// The data of an attached segment is there as it was.
pub open spec fn stays_attached(a: StoreModel, b: StoreModel, id: u64, generation: u32) -> bool {
    let data = ArchiveFile::SegmentData {
        tier: ArchiveSegmentTier::HotAttached,
        segment_id: id,
        segment_generation: generation,
    };
    a.files.contains_key(data) ==> b.files.contains_key(data) && b.files[data] == a.files[data]
}

/// The recorder writes to this segment.
pub open spec fn writes_to(state: RecorderState, id: u64, generation: u32) -> bool {
    &&& state.disk is Some
    &&& state.disk->Some_0.active_segment is Some
    &&& state.disk->Some_0.active_segment->Some_0.segment_id == id
    &&& state.disk->Some_0.active_segment->Some_0.segment_generation == generation
}

proof fn detaching_leaves_the_active_segment(
    state: RecorderState,
    store: StoreModel,
    summaries: Seq<SegmentSummary>,
    before: u64,
    n: int,
    id: u64,
    generation: u32,
)
    requires
        0 <= n <= summaries.len(),
        writes_to(state, id, generation),
    ensures
        stays_attached(store, detach_pass(state, store, summaries, before, n).0, id, generation),
    decreases n,
{
    if n > 0 {
        detaching_leaves_the_active_segment(state, store, summaries, before, n - 1, id, generation);
    }
}

proof fn deleting_leaves_attached_segments(
    state: RecorderState,
    start: DeleteProgress,
    summaries: Seq<SegmentSummary>,
    before: u64,
    n: int,
    id: u64,
    generation: u32,
)
    requires
        0 <= n <= summaries.len(),
    ensures
        stays_attached(
            start.store,
            delete_pass(state, start, summaries, before, n).store,
            id,
            generation,
        ),
    decreases n,
{
    if n > 0 {
        deleting_leaves_attached_segments(state, start, summaries, before, n - 1, id, generation);
    }
}

proof fn cap_leaves_the_active_segment(
    state: RecorderState,
    cap: u64,
    start: RetentionProgress,
    segments: Seq<ArchiveSegmentState>,
    n: int,
    id: u64,
    generation: u32,
)
    requires
        0 <= n <= segments.len(),
        writes_to(state, id, generation),
    ensures
        stays_attached(
            start.store,
            retention_pass(state, cap, start, segments, n).store,
            id,
            generation,
        ),
    decreases n,
{
    if n > 0 {
        cap_leaves_the_active_segment(state, cap, start, segments, n - 1, id, generation);
    }
}

/// The segment that a recorder writes to stays where it is: neither detaching nor deleting before
/// any sequence nor the cap on retained bytes takes its data away.
pub proof fn active_segment_stays(
    recorder: RecorderModel,
    store: StoreModel,
    before: u64,
    id: u64,
    generation: u32,
)
    requires
        writes_to(recorder.state, id, generation),
    ensures
        stays_attached(store, detached_before(recorder, store, before).store, id, generation),
        stays_attached(store, deleted_before(recorder, store, before).store, id, generation),
        stays_attached(store, retention_enforced(recorder, store).store, id, generation),
{
    let state = recorder.state;
    if let Ok(summaries) = sealed_summaries(state, store) {
        let n = summaries.len() as int;
        detaching_leaves_the_active_segment(state, store, summaries, before, n, id, generation);
        let start = DeleteProgress { index: recorder.index, store, count: 0 };
        deleting_leaves_attached_segments(state, start, summaries, before, n, id, generation);
    }
    if state.config.max_disk_bytes is Some && retention(state, store) is Ok {
        if let Ok(segments) = segment_states(state, store) {
            cap_leaves_the_active_segment(
                state,
                state.config.max_disk_bytes->Some_0,
                RetentionProgress {
                    index: recorder.index,
                    store,
                    retained: retention(state, store)->Ok_0.retained_bytes_total,
                },
                segments,
                segments.len() as int,
                id,
                generation,
            );
        }
    }
}

/// Trimming before any sequence leaves the segment that the recorder writes to where it is, too.
pub proof fn active_segment_is_not_trimmed(
    recorder: RecorderModel,
    store: StoreModel,
    before: u64,
    id: u64,
    generation: u32,
)
    requires
        writes_to(recorder.state, id, generation),
    ensures
        stays_attached(store, trimmed_before(recorder, store, before).store, id, generation),
{
    active_segment_stays(recorder, store, before, id, generation);
    let first = detached_before(recorder, store, before);
    active_segment_stays(first.recorder, first.store, before, id, generation);
}

} // verus!
