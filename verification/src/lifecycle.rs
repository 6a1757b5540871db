//! What detaching, attaching, deleting and trimming segments promise.

use crate::error::{ArchiveDirectory, ArchiveFile, ArchiveRecorderError};
use crate::frame::{frame_at, hot_data};
use crate::maintenance::{
    all_attached, attach_pass, delete_pass, deleted_before, detach_pass, detached_before,
    may_leave, trimmed_before, DeleteProgress,
};
use crate::order::SegmentKey;
use crate::recorder::{
    retention_enforced, retention_pass, retention_step, RecorderModel, RetentionProgress,
};
use crate::retention::{
    attached, detached, detached_deleted, in_tier, is_active, is_pinned, pin_held, pin_overlaps,
    ordered_states, place_of, retention, retention_counts, sealed_summaries, segment_states,
    segment_tier, states_are_ordered, summary_key, summary_state, tier_data, tier_meta,
};
use crate::state::RecorderState;
use crate::store::StoreModel;
use crate::summary::SegmentSummary;
use crate::types::{ArchiveLocator, ArchiveSegmentState, ArchiveSegmentTier, PersistenceMode, ReplayPin};
use vstd::prelude::*;

verus! {

/// The stores differ in segment files and directories of tiers at most.
pub open spec fn same_but_segments(a: StoreModel, b: StoreModel) -> bool {
    &&& forall|file: ArchiveFile|
        !(file is SegmentData) && !(file is SegmentMeta) ==> #[trigger] a.has(file) == b.has(file)
            && a.files[file] == b.files[file]
    &&& a.directories.contains(ArchiveDirectory::Pins) == b.directories.contains(
        ArchiveDirectory::Pins,
    )
}

/// The files of a segment are the same in both stores.
pub open spec fn same_segment(a: StoreModel, b: StoreModel, key: SegmentKey) -> bool {
    forall|tier: ArchiveSegmentTier|
        #![trigger a.has(tier_data(tier, key))]
        #![trigger a.has(tier_meta(tier, key))]
        {
            &&& a.has(tier_data(tier, key)) == b.has(tier_data(tier, key))
            &&& a.files[tier_data(tier, key)] == b.files[tier_data(tier, key)]
            &&& a.has(tier_meta(tier, key)) == b.has(tier_meta(tier, key))
            &&& a.files[tier_meta(tier, key)] == b.files[tier_meta(tier, key)]
        }
}

/// Moving or deleting a segment changes its own files and nothing else.
pub(crate) proof fn moves_are_local(state: RecorderState, store: StoreModel, key: SegmentKey)
    ensures
        same_but_segments(store, detached(state, store, key).0),
        same_but_segments(store, attached(state, store, key).0),
        same_but_segments(store, detached_deleted(state, store, key).0),
        forall|other: SegmentKey|
            other != key ==> #[trigger] same_segment(store, detached(state, store, key).0, other)
                && same_segment(store, attached(state, store, key).0, other) && same_segment(
                store,
                detached_deleted(state, store, key).0,
                other,
            ),
{
}

/// Chains of stores that differ in segments at most.
proof fn same_but_segments_chain(a: StoreModel, b: StoreModel, c: StoreModel)
    requires
        same_but_segments(a, b),
        same_but_segments(b, c),
    ensures
        same_but_segments(a, c),
{
    assert forall|file: ArchiveFile| !(file is SegmentData) && !(file is SegmentMeta) implies
        #[trigger] a.has(file) == c.has(file) && a.files[file] == c.files[file] by {
        assert(a.has(file) == b.has(file));
        assert(b.has(file) == c.has(file));
    }
}

/// Pins and the catalog are the same where stores differ in segments at most.
pub(crate) proof fn same_pins(state: RecorderState, a: StoreModel, b: StoreModel)
    requires
        same_but_segments(a, b),
    ensures
        sealed_summaries(state, a) == sealed_summaries(state, b),
        forall|start: u64, end: u64| #[trigger] is_pinned(a, start, end) == is_pinned(b, start, end),
{
    assert(a.has(ArchiveFile::Catalog) == b.has(ArchiveFile::Catalog));
    assert forall|pin: ReplayPin| #[trigger] pin_held(a, pin) == pin_held(b, pin) by {
        assert(a.has(ArchiveFile::Pin { pin }) == b.has(ArchiveFile::Pin { pin }));
        assert(a.has(ArchiveFile::PinAlias { pin }) == b.has(ArchiveFile::PinAlias { pin }));
    }
    assert forall|start: u64, end: u64| #[trigger] is_pinned(a, start, end) == is_pinned(
        b,
        start,
        end,
    ) by {
        if is_pinned(a, start, end) {
            let pin = choose|pin: ReplayPin|
                #[trigger] pin_held(a, pin) && pin_overlaps(pin, start, end);
            assert(pin_held(b, pin) && pin_overlaps(pin, start, end));
        }
        if is_pinned(b, start, end) {
            let pin = choose|pin: ReplayPin|
                #[trigger] pin_held(b, pin) && pin_overlaps(pin, start, end);
            assert(pin_held(a, pin) && pin_overlaps(pin, start, end));
        }
    }
}

/// Attaching a segment undoes detaching it: every file is back where it was.
pub proof fn attaching_undoes_detaching(state: RecorderState, store: StoreModel, key: SegmentKey)
    requires
        state.disk is Some,
        !is_active(state, key),
        !in_tier(store, ArchiveSegmentTier::ColdDetached, key),
    ensures
        attached(state, detached(state, store, key).0, key).0.files == store.files,
        detached(state, store, key).1 == in_tier(store, ArchiveSegmentTier::HotAttached, key),
        !in_tier(detached(state, store, key).0, ArchiveSegmentTier::HotAttached, key),
{
    assert(attached(state, detached(state, store, key).0, key).0.files =~= store.files);
}

/// Chains of stores in which a segment is the same.
pub(crate) proof fn same_segment_chain(a: StoreModel, b: StoreModel, c: StoreModel, key: SegmentKey)
    requires
        same_segment(a, b, key),
        same_segment(b, c, key),
    ensures
        same_segment(a, c, key),
{
    assert forall|tier: ArchiveSegmentTier|
        #![trigger a.has(tier_data(tier, key))]
        #![trigger a.has(tier_meta(tier, key))]
        {
            &&& a.has(tier_data(tier, key)) == c.has(tier_data(tier, key))
            &&& a.files[tier_data(tier, key)] == c.files[tier_data(tier, key)]
            &&& a.has(tier_meta(tier, key)) == c.has(tier_meta(tier, key))
            &&& a.files[tier_meta(tier, key)] == c.files[tier_meta(tier, key)]
        } by {
        assert(a.has(tier_data(tier, key)) == b.has(tier_data(tier, key)));
        assert(b.has(tier_data(tier, key)) == c.has(tier_data(tier, key)));
    }
}

/// No summary of the segment among the first `n` allows it to leave.
pub open spec fn has_to_stay(
    store: StoreModel,
    summaries: Seq<SegmentSummary>,
    before: u64,
    key: SegmentKey,
    n: int,
) -> bool {
    forall|i: int|
        #![trigger summaries[i]]
        0 <= i < n && summary_key(summaries[i]) == key ==> !may_leave(store, summaries[i], before)
}

/// What detaching leaves as it was, and what it moves.
pub(crate) proof fn detach_pass_effect(
    state: RecorderState,
    store: StoreModel,
    summaries: Seq<SegmentSummary>,
    before: u64,
    n: int,
)
    requires
        0 <= n <= summaries.len(),
        state.disk is Some,
    ensures
        ({
            let after = detach_pass(state, store, summaries, before, n).0;
            &&& same_but_segments(store, after)
            &&& forall|key: SegmentKey|
                #[trigger] has_to_stay(store, summaries, before, key, n) ==> same_segment(
                    store,
                    after,
                    key,
                )
            &&& forall|i: int|
                #![trigger summaries[i]]
                0 <= i < n && may_leave(store, summaries[i], before) && !is_active(
                    state,
                    summary_key(summaries[i]),
                ) ==> !in_tier(after, ArchiveSegmentTier::HotAttached, summary_key(summaries[i]))
        }),
    decreases n,
{
    if n > 0 {
        detach_pass_effect(state, store, summaries, before, n - 1);
        let rest = detach_pass(state, store, summaries, before, n - 1).0;
        let after = detach_pass(state, store, summaries, before, n).0;
        let moved = summary_key(summaries[n - 1]);
        moves_are_local(state, rest, moved);
        if may_leave(store, summaries[n - 1], before) {
            same_but_segments_chain(store, rest, after);
        }
        assert forall|key: SegmentKey| #[trigger]
            has_to_stay(store, summaries, before, key, n) implies same_segment(
            store,
            after,
            key,
        ) by {
            assert(has_to_stay(store, summaries, before, key, n - 1));
            if may_leave(store, summaries[n - 1], before) {
                assert(key != moved);
                assert(same_segment(rest, after, key));
                same_segment_chain(store, rest, after, key);
            }
        }
        assert forall|i: int|
            #![trigger summaries[i]]
            0 <= i < n && may_leave(store, summaries[i], before) && !is_active(
                state,
                summary_key(summaries[i]),
            ) implies !in_tier(
            after,
            ArchiveSegmentTier::HotAttached,
            summary_key(summaries[i]),
        ) by {
            let key = summary_key(summaries[i]);
            if may_leave(store, summaries[n - 1], before) {
                if key != moved {
                    assert(same_segment(rest, after, key));
                    let hot = ArchiveSegmentTier::HotAttached;
                    assert(rest.has(tier_data(hot, key)) == after.has(tier_data(hot, key)));
                    assert(rest.has(tier_meta(hot, key)) == after.has(tier_meta(hot, key)));
                }
            }
        }
    }
}

/// Where nothing that may leave is attached, detaching counts nothing.
proof fn detach_pass_idle(
    state: RecorderState,
    store: StoreModel,
    summaries: Seq<SegmentSummary>,
    before: u64,
    n: int,
)
    requires
        0 <= n <= summaries.len(),
        state.disk is Some,
        forall|i: int|
            #![trigger summaries[i]]
            0 <= i < summaries.len() && may_leave(store, summaries[i], before) && !is_active(
                state,
                summary_key(summaries[i]),
            ) ==> !in_tier(store, ArchiveSegmentTier::HotAttached, summary_key(summaries[i])),
    ensures
        detach_pass(state, store, summaries, before, n).0.files == store.files,
        detach_pass(state, store, summaries, before, n).1 == 0,
    decreases n,
{
    if n > 0 {
        detach_pass_idle(state, store, summaries, before, n - 1);
        assert(may_leave(store, summaries[n - 1], before) && !is_active(
            state,
            summary_key(summaries[n - 1]),
        ) ==> !in_tier(store, ArchiveSegmentTier::HotAttached, summary_key(summaries[n - 1])));
    }
}

/// Detaching twice is detaching once: the second time nothing is left to detach, and no file
/// moves.
pub proof fn detaching_is_idempotent(recorder: RecorderModel, store: StoreModel, before: u64)
    requires
        recorder.state.disk is Some,
        detached_before(recorder, store, before).result is Ok,
    ensures
        ({
            let first = detached_before(recorder, store, before);
            let second = detached_before(first.recorder, first.store, before);
            &&& second.result == Ok::<u64, ArchiveRecorderError>(0)
            &&& second.recorder == first.recorder
            &&& second.store.files == first.store.files
        }),
{
    let state = recorder.state;
    let summaries = sealed_summaries(state, store)->Ok_0;
    let n = summaries.len() as int;
    detach_pass_effect(state, store, summaries, before, n);
    let after = detached_before(recorder, store, before).store;
    same_pins(state, store, after);
    assert forall|i: int|
        #![trigger summaries[i]]
        0 <= i < n && may_leave(after, summaries[i], before) && !is_active(
            state,
            summary_key(summaries[i]),
        ) implies !in_tier(
        after,
        ArchiveSegmentTier::HotAttached,
        summary_key(summaries[i]),
    ) by {
        assert(may_leave(store, summaries[i], before));
    }
    detach_pass_idle(state, after, summaries, before, n);
}

/// What attaching leaves.
pub(crate) proof fn attach_pass_effect(
    state: RecorderState,
    store: StoreModel,
    summaries: Seq<SegmentSummary>,
    n: int,
)
    requires
        0 <= n <= summaries.len(),
        state.disk is Some,
    ensures
        ({
            let after = attach_pass(state, store, summaries, n).0;
            &&& same_but_segments(store, after)
            &&& forall|i: int|
                #![trigger summaries[i]]
                0 <= i < n ==> !in_tier(
                    after,
                    ArchiveSegmentTier::ColdDetached,
                    summary_key(summaries[i]),
                )
        }),
    decreases n,
{
    if n > 0 {
        attach_pass_effect(state, store, summaries, n - 1);
        let rest = attach_pass(state, store, summaries, n - 1).0;
        let after = attach_pass(state, store, summaries, n).0;
        let moved = summary_key(summaries[n - 1]);
        moves_are_local(state, rest, moved);
        same_but_segments_chain(store, rest, after);
        assert forall|i: int| #![trigger summaries[i]] 0 <= i < n implies !in_tier(
            after,
            ArchiveSegmentTier::ColdDetached,
            summary_key(summaries[i]),
        ) by {
            let key = summary_key(summaries[i]);
            if key != moved {
                assert(same_segment(rest, detached(state, rest, moved).0, key));
                assert(same_segment(rest, after, key));
                let cold = ArchiveSegmentTier::ColdDetached;
                assert(rest.has(tier_data(cold, key)) == after.has(tier_data(cold, key)));
                assert(rest.has(tier_meta(cold, key)) == after.has(tier_meta(cold, key)));
            }
        }
    }
}

/// Where nothing is detached, attaching changes and counts nothing.
proof fn attach_pass_idle(
    state: RecorderState,
    store: StoreModel,
    summaries: Seq<SegmentSummary>,
    n: int,
)
    requires
        0 <= n <= summaries.len(),
        forall|i: int|
            #![trigger summaries[i]]
            0 <= i < summaries.len() ==> !in_tier(
                store,
                ArchiveSegmentTier::ColdDetached,
                summary_key(summaries[i]),
            ),
    ensures
        attach_pass(state, store, summaries, n) == (store, 0u64),
    decreases n,
{
    if n > 0 {
        attach_pass_idle(state, store, summaries, n - 1);
        assert(!in_tier(
            store,
            ArchiveSegmentTier::ColdDetached,
            summary_key(summaries[n - 1]),
        ));
    }
}

/// Attaching twice is attaching once: the second time nothing is left to attach.
pub proof fn attaching_is_idempotent(recorder: RecorderModel, store: StoreModel)
    requires
        recorder.state.disk is Some,
        all_attached(recorder, store).result is Ok,
    ensures
        ({
            let first = all_attached(recorder, store);
            let second = all_attached(first.recorder, first.store);
            &&& second.result == Ok::<u64, ArchiveRecorderError>(0)
            &&& second.recorder == first.recorder
            &&& second.store == first.store
        }),
{
    let state = recorder.state;
    let summaries = sealed_summaries(state, store)->Ok_0;
    let n = summaries.len() as int;
    attach_pass_effect(state, store, summaries, n);
    let after = all_attached(recorder, store).store;
    same_pins(state, store, after);
    attach_pass_idle(state, after, summaries, n);
}

/// The attached files of a segment are detached in the other store, and nothing else of it is
/// there.
spec fn relocated(a: StoreModel, b: StoreModel, key: SegmentKey) -> bool {
    let hot = ArchiveSegmentTier::HotAttached;
    let cold = ArchiveSegmentTier::ColdDetached;
    &&& !in_tier(b, hot, key)
    &&& a.has(tier_data(hot, key)) == b.has(tier_data(cold, key))
    &&& a.has(tier_meta(hot, key)) == b.has(tier_meta(cold, key))
    &&& a.has(tier_data(hot, key)) ==> a.files[tier_data(hot, key)] == b.files[tier_data(cold, key)]
    &&& a.has(tier_meta(hot, key)) ==> a.files[tier_meta(hot, key)] == b.files[tier_meta(cold, key)]
}

/// Both stores have the same files of a segment, with the same content.
spec fn restored(a: StoreModel, b: StoreModel, key: SegmentKey) -> bool {
    forall|tier: ArchiveSegmentTier|
        #![trigger a.has(tier_data(tier, key))]
        #![trigger a.has(tier_meta(tier, key))]
        #![trigger b.has(tier_data(tier, key))]
        #![trigger b.has(tier_meta(tier, key))]
        {
            &&& a.has(tier_data(tier, key)) == b.has(tier_data(tier, key))
            &&& a.has(tier_data(tier, key)) ==> a.files[tier_data(tier, key)]
                == b.files[tier_data(tier, key)]
            &&& a.has(tier_meta(tier, key)) == b.has(tier_meta(tier, key))
            &&& a.has(tier_meta(tier, key)) ==> a.files[tier_meta(tier, key)]
                == b.files[tier_meta(tier, key)]
        }
}

/// One of the first `n` segments is this one, and it left.
spec fn has_left(
    state: RecorderState,
    store: StoreModel,
    summaries: Seq<SegmentSummary>,
    before: u64,
    key: SegmentKey,
    n: int,
) -> bool {
    !is_active(state, key) && exists|i: int|
        0 <= i < n && summary_key(#[trigger] summaries[i]) == key && may_leave(
            store,
            summaries[i],
            before,
        )
}

/// One of the first `n` segments is this one.
spec fn is_listed(summaries: Seq<SegmentSummary>, key: SegmentKey, n: int) -> bool {
    exists|i: int| 0 <= i < n && summary_key(#[trigger] summaries[i]) == key
}

/// Where a segment is after a detach: moved where it left, else as it was.
spec fn detach_place(
    state: RecorderState,
    store: StoreModel,
    summaries: Seq<SegmentSummary>,
    before: u64,
    n: int,
    after: StoreModel,
    key: SegmentKey,
) -> bool {
    if has_left(state, store, summaries, before, key, n) {
        relocated(store, after, key)
    } else {
        restored(store, after, key)
    }
}

/// What one move does to the segment itself and to the others.
proof fn one_move(
    state: RecorderState,
    store: StoreModel,
    rest: StoreModel,
    moved: SegmentKey,
    key: SegmentKey,
)
    requires
        state.disk is Some,
        key == moved ==> !in_tier(store, ArchiveSegmentTier::ColdDetached, key),
    ensures
        ({
            let off = detached(state, rest, moved).0;
            let on = attached(state, rest, moved).0;
            &&& key != moved && restored(store, rest, key) ==> restored(store, off, key)
                && restored(store, on, key)
            &&& key != moved && relocated(store, rest, key) ==> relocated(store, off, key)
                && relocated(store, on, key)
            &&& key == moved && !is_active(state, key) && (restored(store, rest, key) || relocated(
                store,
                rest,
                key,
            )) ==> relocated(store, off, key)
            &&& key == moved && is_active(state, key) && restored(store, rest, key) ==> restored(
                store,
                off,
                key,
            )
            &&& key == moved && (restored(store, rest, key) || relocated(store, rest, key))
                ==> restored(store, on, key)
        }),
{
    let hot = ArchiveSegmentTier::HotAttached;
    let cold = ArchiveSegmentTier::ColdDetached;
    assert(rest.has(tier_data(hot, key)) || !rest.has(tier_data(hot, key)));
    assert(rest.has(tier_data(cold, key)) || !rest.has(tier_data(cold, key)));
    assert(rest.has(tier_meta(hot, key)) || !rest.has(tier_meta(hot, key)));
    assert(rest.has(tier_meta(cold, key)) || !rest.has(tier_meta(cold, key)));
}

/// Where every segment is after the first `n` were detached.
proof fn detach_places(
    state: RecorderState,
    store: StoreModel,
    summaries: Seq<SegmentSummary>,
    before: u64,
    n: int,
    key: SegmentKey,
)
    requires
        0 <= n <= summaries.len(),
        state.disk is Some,
        is_listed(summaries, key, n) ==> !in_tier(store, ArchiveSegmentTier::ColdDetached, key),
    ensures
        detach_place(
            state,
            store,
            summaries,
            before,
            n,
            detach_pass(state, store, summaries, before, n).0,
            key,
        ),
    decreases n,
{
    if n > 0 {
        let moved = summary_key(summaries[n - 1]);
        if is_listed(summaries, key, n - 1) {
            let i = choose|i: int| 0 <= i < n - 1 && summary_key(#[trigger] summaries[i]) == key;
            assert(is_listed(summaries, key, n));
        }
        detach_places(state, store, summaries, before, n - 1, key);
        let rest = detach_pass(state, store, summaries, before, n - 1).0;
        assert(key == moved ==> is_listed(summaries, key, n));
        one_move(state, store, rest, moved, key);
        if has_left(state, store, summaries, before, key, n - 1) {
            let i = choose|i: int|
                0 <= i < n - 1 && summary_key(#[trigger] summaries[i]) == key && may_leave(
                    store,
                    summaries[i],
                    before,
                );
            assert(has_left(state, store, summaries, before, key, n));
        } else if has_left(state, store, summaries, before, key, n) {
            let i = choose|i: int|
                0 <= i < n && summary_key(#[trigger] summaries[i]) == key && may_leave(
                    store,
                    summaries[i],
                    before,
                );
            assert(i == n - 1);
        } else if key == moved && may_leave(store, summaries[n - 1], before) {
            assert(is_active(state, key));
        }
    }
}

/// Where every segment is after the first `n` were attached again: those are back, and the others
/// are where they were.
proof fn attach_places(
    state: RecorderState,
    store: StoreModel,
    away: StoreModel,
    summaries: Seq<SegmentSummary>,
    n: int,
    key: SegmentKey,
)
    requires
        0 <= n <= summaries.len(),
        state.disk is Some,
        is_listed(summaries, key, n) ==> !in_tier(store, ArchiveSegmentTier::ColdDetached, key),
        restored(store, away, key) || relocated(store, away, key),
    ensures
        ({
            let after = attach_pass(state, away, summaries, n).0;
            &&& is_listed(summaries, key, n) || restored(store, away, key) ==> restored(
                store,
                after,
                key,
            )
            &&& !is_listed(summaries, key, n) && relocated(store, away, key) ==> relocated(
                store,
                after,
                key,
            )
        }),
    decreases n,
{
    if n > 0 {
        let moved = summary_key(summaries[n - 1]);
        if is_listed(summaries, key, n - 1) {
            let i = choose|i: int| 0 <= i < n - 1 && summary_key(#[trigger] summaries[i]) == key;
            assert(is_listed(summaries, key, n));
        }
        attach_places(state, store, away, summaries, n - 1, key);
        let rest = attach_pass(state, away, summaries, n - 1).0;
        assert(key == moved ==> is_listed(summaries, key, n));
        one_move(state, store, rest, moved, key);
        if key != moved && is_listed(summaries, key, n) {
            let i = choose|i: int| 0 <= i < n && summary_key(#[trigger] summaries[i]) == key;
            assert(i < n - 1);
            assert(is_listed(summaries, key, n - 1));
        }
    }
}

/// No segment is listed twice.
pub open spec fn listed_once(summaries: Seq<SegmentSummary>) -> bool {
    forall|i: int, j: int|
        #![trigger summaries[i], summaries[j]]
        0 <= i < j < summaries.len() ==> summary_key(summaries[i]) != summary_key(summaries[j])
}

/// How many of the first `n` segments leave.
spec fn leavers(
    state: RecorderState,
    store: StoreModel,
    summaries: Seq<SegmentSummary>,
    before: u64,
    n: int,
) -> u64
    decreases n,
{
    if n <= 0 {
        0
    } else {
        let key = summary_key(summaries[n - 1]);
        if may_leave(store, summaries[n - 1], before) && !is_active(state, key) && in_tier(
            store,
            ArchiveSegmentTier::HotAttached,
            key,
        ) {
            (leavers(state, store, summaries, before, n - 1) + 1) as u64
        } else {
            leavers(state, store, summaries, before, n - 1)
        }
    }
}

/// Stores with the same files and pins list the same segments.
proof fn same_files_same_states(
    a: StoreModel,
    b: StoreModel,
    summaries: Seq<SegmentSummary>,
    n: int,
)
    requires
        a.files == b.files,
        forall|start: u64, end: u64| #[trigger] is_pinned(a, start, end) == is_pinned(b, start, end),
        0 <= n <= summaries.len(),
    ensures
        ordered_states(a, summaries, n) == ordered_states(b, summaries, n),
    decreases n,
{
    if n > 0 {
        same_files_same_states(a, b, summaries, n - 1);
        let summary = summaries[n - 1];
        assert(is_pinned(a, summary.sequence_start, summary.sequence_end) == is_pinned(
            b,
            summary.sequence_start,
            summary.sequence_end,
        ));
    }
}

/// Attaching all segments undoes detaching: every file is back where it was, so the segments are
/// listed as before and every frame reads as before. Attaching counts as many segments as detaching
/// did. No segment had a file in the detached tier to begin with.
pub proof fn attaching_all_undoes_detaching(
    recorder: RecorderModel,
    store: StoreModel,
    before: u64,
    locator: ArchiveLocator,
    verify: bool,
)
    requires
        recorder.state.disk is Some,
        detached_before(recorder, store, before).result is Ok,
        ({
            let summaries = sealed_summaries(recorder.state, store)->Ok_0;
            forall|i: int|
                #![trigger summaries[i]]
                0 <= i < summaries.len() ==> !in_tier(
                    store,
                    ArchiveSegmentTier::ColdDetached,
                    summary_key(summaries[i]),
                )
        }),
    ensures
        ({
            let off = detached_before(recorder, store, before);
            let on = all_attached(off.recorder, off.store);
            &&& on.result is Ok
            &&& on.recorder == recorder
            &&& on.store.files == store.files
            &&& segment_states(recorder.state, on.store) == segment_states(recorder.state, store)
            &&& frame_at(on.store, locator, verify) == frame_at(store, locator, verify)
            &&& listed_once(sealed_summaries(recorder.state, store)->Ok_0) ==> on.result
                == off.result
        }),
{
    let state = recorder.state;
    let summaries = sealed_summaries(state, store)->Ok_0;
    let n = summaries.len() as int;
    let away = detached_before(recorder, store, before).store;
    detach_pass_effect(state, store, summaries, before, n);
    same_pins(state, store, away);
    attach_pass_effect(state, away, summaries, n);
    let back = all_attached(recorder, away).store;
    same_but_segments_chain(store, away, back);
    same_pins(state, store, back);
    assert forall|key: SegmentKey| #[trigger] restored(store, back, key) by {
        if is_listed(summaries, key, n) {
            let i = choose|i: int| 0 <= i < n && summary_key(#[trigger] summaries[i]) == key;
            assert(!in_tier(store, ArchiveSegmentTier::ColdDetached, summary_key(summaries[i])));
        }
        detach_places(state, store, summaries, before, n, key);
        if has_left(state, store, summaries, before, key, n) {
            let i = choose|i: int|
                0 <= i < n && summary_key(#[trigger] summaries[i]) == key && may_leave(
                    store,
                    summaries[i],
                    before,
                );
            assert(is_listed(summaries, key, n));
        }
        attach_places(state, store, away, summaries, n, key);
    }
    assert forall|file: ArchiveFile| #[trigger] store.has(file) == back.has(file) && (store.has(
        file,
    ) ==> store.files[file] == back.files[file]) by {
        match file {
            ArchiveFile::SegmentData { tier, segment_id, segment_generation } => {
                assert(restored(store, back, (segment_id, segment_generation)));
                assert(file == tier_data(tier, (segment_id, segment_generation)));
            },
            ArchiveFile::SegmentMeta { tier, segment_id, segment_generation } => {
                assert(restored(store, back, (segment_id, segment_generation)));
                assert(file == tier_meta(tier, (segment_id, segment_generation)));
            },
            _ => {},
        }
    }
    assert forall|file: ArchiveFile| #[trigger] store.files.contains_key(file)
        == back.files.contains_key(file) by {
        assert(store.has(file) == back.has(file));
    }
    assert forall|file: ArchiveFile| #[trigger] store.files.contains_key(file) implies
        store.files[file] == back.files[file] by {
        assert(store.has(file) == back.has(file));
    }
    assert(store.files =~= back.files);
    same_files_same_states(store, back, summaries, n);
    if listed_once(summaries) {
        moves_are_counted(state, store, summaries, before, n);
    }
}

/// A file of the segment is in either tier.
spec fn in_any_tier(store: StoreModel, key: SegmentKey) -> bool {
    in_tier(store, ArchiveSegmentTier::HotAttached, key) || in_tier(
        store,
        ArchiveSegmentTier::ColdDetached,
        key,
    )
}

/// All files of a segment are gathered in one tier.
spec fn gathered(a: StoreModel, b: StoreModel, tier: ArchiveSegmentTier, key: SegmentKey) -> bool {
    let hot = ArchiveSegmentTier::HotAttached;
    let cold = ArchiveSegmentTier::ColdDetached;
    &&& in_tier(b, hot, key) == (tier == hot && in_any_tier(a, key))
    &&& in_tier(b, cold, key) == (tier == cold && in_any_tier(a, key))
}

/// Both stores have files of a segment in the same tiers.
spec fn same_tiers(a: StoreModel, b: StoreModel, key: SegmentKey) -> bool {
    let hot = ArchiveSegmentTier::HotAttached;
    let cold = ArchiveSegmentTier::ColdDetached;
    &&& in_tier(a, hot, key) == in_tier(b, hot, key)
    &&& in_tier(a, cold, key) == in_tier(b, cold, key)
}

/// Which tiers a segment is in after a move of a segment.
proof fn tiers_after_move(
    state: RecorderState,
    store: StoreModel,
    rest: StoreModel,
    moved: SegmentKey,
    key: SegmentKey,
)
    requires
        state.disk is Some,
    ensures
        ({
            let hot = ArchiveSegmentTier::HotAttached;
            let cold = ArchiveSegmentTier::ColdDetached;
            let off = detached(state, rest, moved).0;
            let on = attached(state, rest, moved).0;
            &&& key != moved || is_active(state, key) ==> same_tiers(rest, off, key)
            &&& key == moved && !is_active(state, key) ==> gathered(rest, off, cold, key)
            &&& key != moved ==> same_tiers(rest, on, key)
            &&& key == moved ==> gathered(rest, on, hot, key)
        }),
{
}

/// Which tiers a segment is in after the first `n` segments were detached.
proof fn tiers_after_detach(
    state: RecorderState,
    store: StoreModel,
    summaries: Seq<SegmentSummary>,
    before: u64,
    n: int,
    key: SegmentKey,
)
    requires
        0 <= n <= summaries.len(),
        state.disk is Some,
    ensures
        ({
            let after = detach_pass(state, store, summaries, before, n).0;
            if has_left(state, store, summaries, before, key, n) {
                gathered(store, after, ArchiveSegmentTier::ColdDetached, key)
            } else {
                same_tiers(store, after, key)
            }
        }),
    decreases n,
{
    if n > 0 {
        let moved = summary_key(summaries[n - 1]);
        tiers_after_detach(state, store, summaries, before, n - 1, key);
        let rest = detach_pass(state, store, summaries, before, n - 1).0;
        tiers_after_move(state, store, rest, moved, key);
        left_grows(state, store, summaries, before, key, n);
    }
}

/// A segment has left by `n` where it had left before, or is the one that leaves now.
proof fn left_grows(
    state: RecorderState,
    store: StoreModel,
    summaries: Seq<SegmentSummary>,
    before: u64,
    key: SegmentKey,
    n: int,
)
    requires
        0 < n <= summaries.len(),
    ensures
        has_left(state, store, summaries, before, key, n) == (has_left(
            state,
            store,
            summaries,
            before,
            key,
            n - 1,
        ) || (!is_active(state, key) && summary_key(summaries[n - 1]) == key && may_leave(
            store,
            summaries[n - 1],
            before,
        ))),
        is_listed(summaries, key, n) == (is_listed(summaries, key, n - 1) || summary_key(
            summaries[n - 1],
        ) == key),
{
    if has_left(state, store, summaries, before, key, n - 1) {
        let i = choose|i: int|
            0 <= i < n - 1 && summary_key(#[trigger] summaries[i]) == key && may_leave(
                store,
                summaries[i],
                before,
            );
        assert(summary_key(summaries[i]) == key);
    }
    if is_listed(summaries, key, n - 1) {
        let i = choose|i: int| 0 <= i < n - 1 && summary_key(#[trigger] summaries[i]) == key;
        assert(summary_key(summaries[i]) == key);
    }
}

/// Which tiers a segment is in after the first `n` segments were attached.
proof fn tiers_after_attach(
    state: RecorderState,
    away: StoreModel,
    summaries: Seq<SegmentSummary>,
    n: int,
    key: SegmentKey,
)
    requires
        0 <= n <= summaries.len(),
        state.disk is Some,
    ensures
        ({
            let after = attach_pass(state, away, summaries, n).0;
            if is_listed(summaries, key, n) {
                gathered(away, after, ArchiveSegmentTier::HotAttached, key)
            } else {
                same_tiers(away, after, key)
            }
        }),
    decreases n,
{
    if n > 0 {
        let moved = summary_key(summaries[n - 1]);
        tiers_after_attach(state, away, summaries, n - 1, key);
        let rest = attach_pass(state, away, summaries, n - 1).0;
        tiers_after_move(state, away, rest, moved, key);
        left_grows(state, away, summaries, 0, key, n);
    }
}

/// Every listed segment that has a detached file is attached too, and leaves.
pub open spec fn doubles_leave(
    state: RecorderState,
    store: StoreModel,
    summaries: Seq<SegmentSummary>,
    before: u64,
) -> bool {
    forall|i: int|
        #![trigger summaries[i]]
        0 <= i < summaries.len() && in_tier(
            store,
            ArchiveSegmentTier::ColdDetached,
            summary_key(summaries[i]),
        ) ==> {
            &&& in_tier(store, ArchiveSegmentTier::HotAttached, summary_key(summaries[i]))
            &&& may_leave(store, summaries[i], before)
            &&& !is_active(state, summary_key(summaries[i]))
        }
}

/// A move is counted where the segment had a file to move.
proof fn moves_tell(state: RecorderState, store: StoreModel, key: SegmentKey)
    requires
        state.disk is Some,
    ensures
        detached(state, store, key).1 == (!is_active(state, key) && in_tier(
            store,
            ArchiveSegmentTier::HotAttached,
            key,
        )),
        attached(state, store, key).1 == in_tier(store, ArchiveSegmentTier::ColdDetached, key),
{
}

/// Detaching counts the segments that leave, and attaching counts the same ones.
proof fn moves_are_counted(
    state: RecorderState,
    store: StoreModel,
    summaries: Seq<SegmentSummary>,
    before: u64,
    n: int,
)
    requires
        0 <= n <= summaries.len(),
        state.disk is Some,
        listed_once(summaries),
        doubles_leave(state, store, summaries, before),
    ensures
        ({
            let away = detach_pass(state, store, summaries, before, summaries.len() as int).0;
            let count = leavers(state, store, summaries, before, n);
            &&& detach_pass(state, store, summaries, before, n).1 == count
            &&& attach_pass(state, away, summaries, n).1 == count
        }),
    decreases n,
{
    if n > 0 {
        moves_are_counted(state, store, summaries, before, n - 1);
        let all = summaries.len() as int;
        let key = summary_key(summaries[n - 1]);
        let away = detach_pass(state, store, summaries, before, all).0;
        let off = detach_pass(state, store, summaries, before, n - 1).0;
        let on = attach_pass(state, away, summaries, n - 1).0;
        tiers_after_detach(state, store, summaries, before, n - 1, key);
        tiers_after_detach(state, store, summaries, before, all, key);
        tiers_after_attach(state, away, summaries, n - 1, key);
        moves_tell(state, off, key);
        moves_tell(state, on, key);
        assert(!is_listed(summaries, key, n - 1));
        assert(!has_left(state, store, summaries, before, key, n - 1));
        assert(has_left(state, store, summaries, before, key, all) <==> !is_active(state, key)
            && may_leave(store, summaries[n - 1], before));
    }
}

/// Stores in which the listed segments have the same tiers and pins list the same segments.
proof fn same_tiers_same_states(
    a: StoreModel,
    b: StoreModel,
    summaries: Seq<SegmentSummary>,
    n: int,
)
    requires
        forall|i: int|
            #![trigger summaries[i]]
            0 <= i < summaries.len() ==> segment_tier(a, summary_key(summaries[i]))
                == segment_tier(b, summary_key(summaries[i])),
        forall|start: u64, end: u64| #[trigger] is_pinned(a, start, end) == is_pinned(b, start, end),
        0 <= n <= summaries.len(),
    ensures
        ordered_states(a, summaries, n) == ordered_states(b, summaries, n),
    decreases n,
{
    if n > 0 {
        same_tiers_same_states(a, b, summaries, n - 1);
        let summary = summaries[n - 1];
        assert(is_pinned(a, summary.sequence_start, summary.sequence_end) == is_pinned(
            b,
            summary.sequence_start,
            summary.sequence_end,
        ));
    }
}

/// Attaching all segments after detaching brings back the list: where no segment was listed as
/// detached, the segments are listed as before, also those that had files in both tiers. Attaching
/// counts as many as detaching did, where every segment that had files in both tiers left.
pub proof fn attaching_all_restores_the_list(
    recorder: RecorderModel,
    store: StoreModel,
    before: u64,
)
    requires
        recorder.state.disk is Some,
        detached_before(recorder, store, before).result is Ok,
        ({
            let summaries = sealed_summaries(recorder.state, store)->Ok_0;
            forall|i: int|
                #![trigger summaries[i]]
                0 <= i < summaries.len() ==> segment_tier(store, summary_key(summaries[i])) != Some(
                    ArchiveSegmentTier::ColdDetached,
                )
        }),
    ensures
        ({
            let off = detached_before(recorder, store, before);
            let on = all_attached(off.recorder, off.store);
            &&& on.result is Ok
            &&& on.recorder == recorder
            &&& segment_states(recorder.state, on.store) == segment_states(recorder.state, store)
            &&& ({
                let summaries = sealed_summaries(recorder.state, store)->Ok_0;
                listed_once(summaries) && doubles_leave(recorder.state, store, summaries, before)
            }) ==> on.result == off.result
        }),
{
    let state = recorder.state;
    let summaries = sealed_summaries(state, store)->Ok_0;
    let n = summaries.len() as int;
    let away = detached_before(recorder, store, before).store;
    detach_pass_effect(state, store, summaries, before, n);
    same_pins(state, store, away);
    attach_pass_effect(state, away, summaries, n);
    let back = all_attached(recorder, away).store;
    same_but_segments_chain(store, away, back);
    same_pins(state, store, back);
    if listed_once(summaries) && doubles_leave(state, store, summaries, before) {
        moves_are_counted(state, store, summaries, before, n);
    }
    assert forall|i: int| #![trigger summaries[i]] 0 <= i < n implies segment_tier(
        store,
        summary_key(summaries[i]),
    ) == segment_tier(back, summary_key(summaries[i])) by {
        let key = summary_key(summaries[i]);
        assert(segment_tier(store, key) != Some(ArchiveSegmentTier::ColdDetached));
        assert(is_listed(summaries, key, n));
        tiers_after_detach(state, store, summaries, before, n, key);
        tiers_after_attach(state, away, summaries, n, key);
    }
    same_tiers_same_states(store, back, summaries, n);
}

/// The data file of a segment as its bytes, where it is in a tier.
spec fn held_data(store: StoreModel, tier: ArchiveSegmentTier, key: SegmentKey) -> Option<Seq<u8>> {
    if store.has(tier_data(tier, key)) {
        Some(store.bytes(tier_data(tier, key)))
    } else {
        None
    }
}

/// The data of a segment is the attached one, in whichever tiers it is.
spec fn keeps_data(store: StoreModel, after: StoreModel, key: SegmentKey) -> bool {
    let data = held_data(store, ArchiveSegmentTier::HotAttached, key);
    let hot = held_data(after, ArchiveSegmentTier::HotAttached, key);
    let cold = held_data(after, ArchiveSegmentTier::ColdDetached, key);
    &&& hot is Some ==> hot == data
    &&& cold is Some ==> cold == data
    &&& data is Some ==> hot is Some || cold is Some
}

/// A move keeps the data of a segment, and tells in which tier it is.
proof fn moves_keep_data(
    state: RecorderState,
    store: StoreModel,
    rest: StoreModel,
    moved: SegmentKey,
    key: SegmentKey,
)
    requires
        state.disk is Some,
        keeps_data(store, rest, key),
    ensures
        keeps_data(store, detached(state, rest, moved).0, key),
        keeps_data(store, attached(state, rest, moved).0, key),
        key == moved ==> held_data(
            attached(state, rest, moved).0,
            ArchiveSegmentTier::ColdDetached,
            key,
        ) is None,
        key != moved ==> held_data(
            attached(state, rest, moved).0,
            ArchiveSegmentTier::ColdDetached,
            key,
        ) == held_data(rest, ArchiveSegmentTier::ColdDetached, key),
        key != moved ==> held_data(
            detached(state, rest, moved).0,
            ArchiveSegmentTier::HotAttached,
            key,
        ) == held_data(rest, ArchiveSegmentTier::HotAttached, key),
{
}

/// Detaching keeps the data of every segment, and leaves it attached where it is not listed.
proof fn detach_keeps_data(
    state: RecorderState,
    store: StoreModel,
    summaries: Seq<SegmentSummary>,
    before: u64,
    n: int,
    key: SegmentKey,
)
    requires
        0 <= n <= summaries.len(),
        state.disk is Some,
        keeps_data(store, store, key),
    ensures
        ({
            let after = detach_pass(state, store, summaries, before, n).0;
            &&& keeps_data(store, after, key)
            &&& !is_listed(summaries, key, n) ==> held_data(
                after,
                ArchiveSegmentTier::HotAttached,
                key,
            ) == held_data(store, ArchiveSegmentTier::HotAttached, key)
        }),
    decreases n,
{
    if n > 0 {
        detach_keeps_data(state, store, summaries, before, n - 1, key);
        let rest = detach_pass(state, store, summaries, before, n - 1).0;
        moves_keep_data(state, store, rest, summary_key(summaries[n - 1]), key);
        left_grows(state, store, summaries, before, key, n);
    }
}

/// Attaching keeps the data of every segment, and attaches the listed ones.
proof fn attach_keeps_data(
    state: RecorderState,
    store: StoreModel,
    away: StoreModel,
    summaries: Seq<SegmentSummary>,
    n: int,
    key: SegmentKey,
)
    requires
        0 <= n <= summaries.len(),
        state.disk is Some,
        keeps_data(store, away, key),
    ensures
        ({
            let after = attach_pass(state, away, summaries, n).0;
            &&& keeps_data(store, after, key)
            &&& is_listed(summaries, key, n) ==> held_data(
                after,
                ArchiveSegmentTier::ColdDetached,
                key,
            ) is None
            &&& !is_listed(summaries, key, n) ==> held_data(
                after,
                ArchiveSegmentTier::HotAttached,
                key,
            ) == held_data(away, ArchiveSegmentTier::HotAttached, key)
        }),
    decreases n,
{
    if n > 0 {
        attach_keeps_data(state, store, away, summaries, n - 1, key);
        let rest = attach_pass(state, away, summaries, n - 1).0;
        let moved = summary_key(summaries[n - 1]);
        moves_keep_data(state, store, rest, moved, key);
        left_grows(state, away, summaries, 0, key, n);
        if key != moved {
            assert(same_segment(rest, attached(state, rest, moved).0, key)) by {
                moves_are_local(state, rest, moved);
            }
        }
    }
}

/// Attaching all segments after detaching brings back every record: a frame reads as before where
/// its segment has no detached data, or the same data in both tiers.
pub proof fn attaching_all_restores_frames(
    recorder: RecorderModel,
    store: StoreModel,
    before: u64,
    locator: ArchiveLocator,
    verify: bool,
)
    requires
        recorder.state.disk is Some,
        detached_before(recorder, store, before).result is Ok,
        ({
            let key = (locator.segment_id, locator.segment_generation);
            let hot = tier_data(ArchiveSegmentTier::HotAttached, key);
            let cold = tier_data(ArchiveSegmentTier::ColdDetached, key);
            store.has(cold) ==> store.has(hot) && store.bytes(hot) == store.bytes(cold)
        }),
    ensures
        ({
            let off = detached_before(recorder, store, before);
            let on = all_attached(off.recorder, off.store);
            frame_at(on.store, locator, verify) == frame_at(store, locator, verify)
        }),
{
    let state = recorder.state;
    let summaries = sealed_summaries(state, store)->Ok_0;
    let n = summaries.len() as int;
    let key = (locator.segment_id, locator.segment_generation);
    let away = detached_before(recorder, store, before).store;
    detach_pass_effect(state, store, summaries, before, n);
    same_pins(state, store, away);
    detach_keeps_data(state, store, summaries, before, n, key);
    attach_keeps_data(state, store, away, summaries, n, key);
    let back = all_attached(recorder, away).store;
    assert(held_data(back, ArchiveSegmentTier::HotAttached, key) == held_data(
        store,
        ArchiveSegmentTier::HotAttached,
        key,
    ));
    assert(tier_data(ArchiveSegmentTier::HotAttached, key) == hot_data(
        locator.segment_id,
        locator.segment_generation,
    ));
}

/// A segment of which nothing detached can be deleted: it is attached, or no file of it is left.
pub open spec fn nothing_to_delete(store: StoreModel, key: SegmentKey) -> bool {
    in_tier(store, ArchiveSegmentTier::HotAttached, key) || !in_tier(
        store,
        ArchiveSegmentTier::ColdDetached,
        key,
    )
}

/// What deleting leaves as it was, and what it removes.
pub(crate) proof fn delete_pass_effect(
    state: RecorderState,
    start: DeleteProgress,
    summaries: Seq<SegmentSummary>,
    before: u64,
    n: int,
)
    requires
        0 <= n <= summaries.len(),
        state.disk is Some,
    ensures
        ({
            let after = delete_pass(state, start, summaries, before, n).store;
            &&& same_but_segments(start.store, after)
            &&& forall|key: SegmentKey|
                #[trigger] has_to_stay(start.store, summaries, before, key, n) ==> same_segment(
                    start.store,
                    after,
                    key,
                )
            &&& forall|i: int|
                #![trigger summaries[i]]
                0 <= i < n && may_leave(start.store, summaries[i], before) ==> nothing_to_delete(
                    after,
                    summary_key(summaries[i]),
                )
        }),
    decreases n,
{
    if n > 0 {
        delete_pass_effect(state, start, summaries, before, n - 1);
        let store = start.store;
        let rest = delete_pass(state, start, summaries, before, n - 1).store;
        let after = delete_pass(state, start, summaries, before, n).store;
        let moved = summary_key(summaries[n - 1]);
        moves_are_local(state, rest, moved);
        if may_leave(store, summaries[n - 1], before) {
            assert(after == detached_deleted(state, rest, moved).0);
            same_but_segments_chain(store, rest, after);
        }
        assert forall|key: SegmentKey| #[trigger]
            has_to_stay(store, summaries, before, key, n) implies same_segment(
            store,
            after,
            key,
        ) by {
            assert(has_to_stay(store, summaries, before, key, n - 1));
            if may_leave(store, summaries[n - 1], before) {
                assert(key != moved);
                assert(same_segment(rest, detached(state, rest, moved).0, key));
                assert(same_segment(rest, after, key));
                same_segment_chain(store, rest, after, key);
            }
        }
        assert forall|i: int|
            #![trigger summaries[i]]
            0 <= i < n && may_leave(store, summaries[i], before) implies nothing_to_delete(
            after,
            summary_key(summaries[i]),
        ) by {
            let key = summary_key(summaries[i]);
            if may_leave(store, summaries[n - 1], before) && key != moved {
                assert(same_segment(rest, detached(state, rest, moved).0, key));
                assert(same_segment(rest, after, key));
                let hot = ArchiveSegmentTier::HotAttached;
                let cold = ArchiveSegmentTier::ColdDetached;
                assert(rest.has(tier_data(cold, key)) == after.has(tier_data(cold, key)));
                assert(rest.has(tier_meta(cold, key)) == after.has(tier_meta(cold, key)));
                assert(rest.has(tier_data(hot, key)) == after.has(tier_data(hot, key)));
                assert(rest.has(tier_meta(hot, key)) == after.has(tier_meta(hot, key)));
            }
        }
    }
}

/// Where there is nothing to delete, deleting changes and counts nothing.
proof fn delete_pass_idle(
    state: RecorderState,
    start: DeleteProgress,
    summaries: Seq<SegmentSummary>,
    before: u64,
    n: int,
)
    requires
        0 <= n <= summaries.len(),
        forall|i: int|
            #![trigger summaries[i]]
            0 <= i < summaries.len() && may_leave(start.store, summaries[i], before)
                ==> nothing_to_delete(start.store, summary_key(summaries[i])),
    ensures
        delete_pass(state, start, summaries, before, n) == start,
    decreases n,
{
    if n > 0 {
        delete_pass_idle(state, start, summaries, before, n - 1);
        assert(may_leave(start.store, summaries[n - 1], before) ==> nothing_to_delete(
            start.store,
            summary_key(summaries[n - 1]),
        ));
    }
}

/// Deleting twice is deleting once: the second time nothing is left to delete.
pub proof fn deleting_is_idempotent(recorder: RecorderModel, store: StoreModel, before: u64)
    requires
        recorder.state.disk is Some,
        deleted_before(recorder, store, before).result is Ok,
    ensures
        ({
            let first = deleted_before(recorder, store, before);
            let second = deleted_before(first.recorder, first.store, before);
            &&& second.result == Ok::<u64, ArchiveRecorderError>(0)
            &&& second.recorder == first.recorder
            &&& second.store == first.store
        }),
{
    let state = recorder.state;
    let summaries = sealed_summaries(state, store)->Ok_0;
    let n = summaries.len() as int;
    let start = DeleteProgress { index: recorder.index, store, count: 0 };
    delete_pass_effect(state, start, summaries, before, n);
    let first = deleted_before(recorder, store, before);
    let after = first.store;
    same_pins(state, store, after);
    assert forall|i: int|
        #![trigger summaries[i]]
        0 <= i < n && may_leave(after, summaries[i], before) implies nothing_to_delete(
        after,
        summary_key(summaries[i]),
    ) by {
        assert(may_leave(store, summaries[i], before));
    }
    delete_pass_idle(
        state,
        DeleteProgress { index: first.recorder.index, store: after, count: 0 },
        summaries,
        before,
        n,
    );
}

/// Trimming takes only what may leave: a segment that a replay pin protects, or that reaches up to
/// the sequence, keeps all its files, in the tier where they are.
pub proof fn trimming_spares_pinned_segments(
    recorder: RecorderModel,
    store: StoreModel,
    before: u64,
    key: SegmentKey,
)
    requires
        recorder.state.disk is Some,
        sealed_summaries(recorder.state, store) is Ok,
        ({
            let summaries = sealed_summaries(recorder.state, store)->Ok_0;
            has_to_stay(store, summaries, before, key, summaries.len() as int)
        }),
    ensures
        same_segment(store, trimmed_before(recorder, store, before).store, key),
        same_segment(store, detached_before(recorder, store, before).store, key),
        same_segment(store, deleted_before(recorder, store, before).store, key),
{
    let state = recorder.state;
    let summaries = sealed_summaries(state, store)->Ok_0;
    let n = summaries.len() as int;
    detach_pass_effect(state, store, summaries, before, n);
    let first = detached_before(recorder, store, before);
    same_pins(state, store, first.store);
    delete_pass_effect(
        state,
        DeleteProgress { index: recorder.index, store, count: 0 },
        summaries,
        before,
        n,
    );
    delete_pass_effect(
        state,
        DeleteProgress { index: first.recorder.index, store: first.store, count: 0 },
        summaries,
        before,
        n,
    );
    assert(has_to_stay(first.store, summaries, before, key, n)) by {
        assert forall|i: int|
            #![trigger summaries[i]]
            0 <= i < n && summary_key(summaries[i]) == key implies !may_leave(
            first.store,
            summaries[i],
            before,
        ) by {
            assert(!may_leave(store, summaries[i], before));
        }
    }
    same_segment_chain(store, first.store, trimmed_before(recorder, store, before).store, key);
}

/// Trimming leaves no file of an unpinned segment before the sequence, unless it is the active
/// one.
pub proof fn trimming_removes_old_segments(
    recorder: RecorderModel,
    store: StoreModel,
    before: u64,
    i: int,
)
    requires
        recorder.state.disk is Some,
        sealed_summaries(recorder.state, store) is Ok,
        0 <= i < sealed_summaries(recorder.state, store)->Ok_0.len(),
        ({
            let summary = sealed_summaries(recorder.state, store)->Ok_0[i];
            &&& may_leave(store, summary, before)
            &&& !is_active(recorder.state, summary_key(summary))
        }),
    ensures
        ({
            let key = summary_key(sealed_summaries(recorder.state, store)->Ok_0[i]);
            let after = trimmed_before(recorder, store, before).store;
            &&& !in_tier(after, ArchiveSegmentTier::HotAttached, key)
            &&& !in_tier(after, ArchiveSegmentTier::ColdDetached, key)
        }),
{
    let state = recorder.state;
    let summaries = sealed_summaries(state, store)->Ok_0;
    let n = summaries.len() as int;
    let key = summary_key(summaries[i]);
    detach_pass_effect(state, store, summaries, before, n);
    let first = detached_before(recorder, store, before);
    same_pins(state, store, first.store);
    let start = DeleteProgress { index: first.recorder.index, store: first.store, count: 0 };
    delete_pass_effect(state, start, summaries, before, n);
    assert(may_leave(first.store, summaries[i], before));
    delete_adds_nothing(state, start, summaries, before, n, key);
}

/// Deleting puts no file into the attached tier.
proof fn delete_adds_nothing(
    state: RecorderState,
    start: DeleteProgress,
    summaries: Seq<SegmentSummary>,
    before: u64,
    n: int,
    key: SegmentKey,
)
    requires
        0 <= n <= summaries.len(),
        !in_tier(start.store, ArchiveSegmentTier::HotAttached, key),
    ensures
        !in_tier(
            delete_pass(state, start, summaries, before, n).store,
            ArchiveSegmentTier::HotAttached,
            key,
        ),
    decreases n,
{
    if n > 0 {
        delete_adds_nothing(state, start, summaries, before, n - 1, key);
    }
}

/// Every summary of the segment among the first `n` is pinned.
pub open spec fn is_protected(
    store: StoreModel,
    summaries: Seq<SegmentSummary>,
    key: SegmentKey,
) -> bool {
    forall|i: int|
        #![trigger summaries[i]]
        0 <= i < summaries.len() && summary_key(summaries[i]) == key ==> is_pinned(
            store,
            summaries[i].sequence_start,
            summaries[i].sequence_end,
        )
}

/// The key of a listed segment.
pub open spec fn state_key(segment: ArchiveSegmentState) -> SegmentKey {
    (segment.segment_id, segment.segment_generation)
}

/// One step of the retention pass changes the files of its segment at most, and none where the
/// segment is pinned.
pub(crate) proof fn retention_step_effect(
    state: RecorderState,
    cap: u64,
    before: RetentionProgress,
    segment: ArchiveSegmentState,
)
    ensures
        ({
            let after = retention_step(state, cap, before, segment);
            &&& same_but_segments(before.store, after.store)
            &&& segment.pinned ==> after == before
            &&& forall|key: SegmentKey|
                key != state_key(segment) ==> #[trigger] same_segment(
                    before.store,
                    after.store,
                    key,
                )
        }),
{
    let key = state_key(segment);
    let cold = if segment.tier == ArchiveSegmentTier::HotAttached {
        detached(state, before.store, key).0
    } else {
        before.store
    };
    let after = retention_step(state, cap, before, segment);
    moves_are_local(state, before.store, key);
    moves_are_local(state, cold, key);
    if before.retained > cap && !segment.pinned {
        assert(after.store == detached_deleted(state, cold, key).0);
        same_but_segments_chain(before.store, cold, after.store);
        assert forall|other: SegmentKey| other != key implies #[trigger] same_segment(
            before.store,
            after.store,
            other,
        ) by {
            assert(same_segment(before.store, detached(state, before.store, key).0, other));
            assert(same_segment(cold, detached(state, cold, key).0, other));
            assert(same_segment(before.store, cold, other));
            same_segment_chain(before.store, cold, after.store, other);
        }
    }
}

/// The retention pass changes segments at most, and none of those that are pinned.
pub(crate) proof fn retention_pass_effect(
    state: RecorderState,
    cap: u64,
    start: RetentionProgress,
    segments: Seq<ArchiveSegmentState>,
    n: int,
)
    requires
        0 <= n <= segments.len(),
    ensures
        ({
            let after = retention_pass(state, cap, start, segments, n);
            &&& same_but_segments(start.store, after.store)
            &&& forall|key: SegmentKey|
                (forall|i: int|
                    #![trigger segments[i]]
                    0 <= i < n && state_key(segments[i]) == key ==> segments[i].pinned)
                    ==> #[trigger] same_segment(start.store, after.store, key)
        }),
    decreases n,
{
    if n > 0 {
        retention_pass_effect(state, cap, start, segments, n - 1);
        let before = retention_pass(state, cap, start, segments, n - 1);
        let after = retention_pass(state, cap, start, segments, n);
        retention_step_effect(state, cap, before, segments[n - 1]);
        same_but_segments_chain(start.store, before.store, after.store);
        assert forall|key: SegmentKey|
            (forall|i: int|
                #![trigger segments[i]]
                0 <= i < n && state_key(segments[i]) == key ==> segments[i].pinned)
                implies #[trigger] same_segment(start.store, after.store, key) by {
            assert(same_segment(start.store, before.store, key));
            if key == state_key(segments[n - 1]) {
                assert(segments[n - 1].pinned);
                assert(after == before);
            } else {
                assert(same_segment(before.store, after.store, key));
                same_segment_chain(start.store, before.store, after.store, key);
            }
        }
    }
}

/// The cap on retained bytes spares pinned segments: all their files stay where they are.
pub proof fn retention_spares_pinned_segments(
    recorder: RecorderModel,
    store: StoreModel,
    key: SegmentKey,
)
    requires
        sealed_summaries(recorder.state, store) is Ok,
        is_protected(store, sealed_summaries(recorder.state, store)->Ok_0, key),
    ensures
        same_segment(store, retention_enforced(recorder, store).store, key),
{
    let state = recorder.state;
    if state.config.max_disk_bytes is Some && retention(state, store) is Ok {
        let cap = state.config.max_disk_bytes->Some_0;
        let summaries = sealed_summaries(state, store)->Ok_0;
        let segments = segment_states(state, store)->Ok_0;
        let n = segments.len() as int;
        let start = RetentionProgress {
            index: recorder.index,
            store,
            retained: retention(state, store)->Ok_0.retained_bytes_total,
        };
        states_are_ordered(store, summaries, summaries.len() as int);
        assert forall|i: int|
            #![trigger segments[i]]
            0 <= i < n && state_key(segments[i]) == key implies segments[i].pinned by {
            assert(segments.contains(segments[i]));
            let k = choose|k: int|
                0 <= k < summaries.len() && summary_state(store, #[trigger] summaries[k]) == Some(
                    segments[i],
                );
            assert(summary_key(summaries[k]) == key);
        }
        retention_pass_effect(state, cap, start, segments, n);
        assert(same_segment(
            start.store,
            retention_pass(state, cap, start, segments, n).store,
            key,
        ));
    }
}

/// The bytes that a sealed segment takes, if any file of it is left.
pub open spec fn used_bytes(store: StoreModel, summary: SegmentSummary) -> int {
    if segment_tier(store, summary_key(summary)) is Some {
        summary.data_bytes_used as int
    } else {
        0
    }
}

/// The bytes that the first `n` sealed segments take.
pub open spec fn total_used(store: StoreModel, summaries: Seq<SegmentSummary>, n: int) -> int
    decreases n,
{
    if n <= 0 {
        0
    } else {
        total_used(store, summaries, n - 1) + used_bytes(store, summaries[n - 1])
    }
}

/// The bytes of the first `n` listed segments.
spec fn listed_bytes(states: Seq<ArchiveSegmentState>, n: int) -> int
    decreases n,
{
    if n <= 0 {
        0
    } else {
        listed_bytes(states, n - 1) + states[n - 1].data_bytes_used
    }
}

/// A sum goes by the segments that it counts.
proof fn listed_bytes_prefix(a: Seq<ArchiveSegmentState>, b: Seq<ArchiveSegmentState>, n: int)
    requires
        forall|i: int| 0 <= i < n ==> #[trigger] a[i] == b[i],
    ensures
        listed_bytes(a, n) == listed_bytes(b, n),
    decreases n,
{
    if n > 0 {
        listed_bytes_prefix(a, b, n - 1);
    }
}

/// One more listed segment adds its bytes, wherever it is listed.
proof fn listed_bytes_insert(
    list: Seq<ArchiveSegmentState>,
    at: int,
    x: ArchiveSegmentState,
    n: int,
)
    requires
        0 <= at <= n <= list.len(),
    ensures
        listed_bytes(list.insert(at, x), n + 1) == listed_bytes(list, n) + x.data_bytes_used,
    decreases n,
{
    let longer = list.insert(at, x);
    if at == n {
        listed_bytes_prefix(longer, list, n);
        assert(longer[n] == x);
    } else {
        listed_bytes_insert(list, at, x, n - 1);
        assert(longer[n] == list[n - 1]);
    }
}

/// The sum over the list is the sum over the summaries.
proof fn listed_bytes_total(store: StoreModel, summaries: Seq<SegmentSummary>, n: int)
    requires
        0 <= n <= summaries.len(),
    ensures
        listed_bytes(
            ordered_states(store, summaries, n),
            ordered_states(store, summaries, n).len() as int,
        ) == total_used(store, summaries, n),
    decreases n,
{
    if n > 0 {
        listed_bytes_total(store, summaries, n - 1);
        let before = ordered_states(store, summaries, n - 1);
        if let Some(state) = summary_state(store, summaries[n - 1]) {
            place_within(before, state, before.len() as int);
            listed_bytes_insert(
                before,
                place_of(before, state, before.len() as int),
                state,
                before.len() as int,
            );
        }
    }
}

/// The place of a segment lies within the list.
proof fn place_within(list: Seq<ArchiveSegmentState>, x: ArchiveSegmentState, n: int)
    requires
        0 <= n <= list.len(),
    ensures
        0 <= place_of(list, x, n) <= n,
    decreases n,
{
    if n > 0 {
        place_within(list, x, n - 1);
    }
}

/// The counter is the sum, as long as the sum fits.
proof fn counter_is_sum(cap: Option<u64>, states: Seq<ArchiveSegmentState>, n: int)
    requires
        0 <= n <= states.len(),
        listed_bytes(states, n) <= u64::MAX,
    ensures
        retention_counts(cap, states, n).retained_bytes_total == listed_bytes(states, n),
        0 <= listed_bytes(states, n),
    decreases n,
{
    if n > 0 {
        sums_are_positive(states, n - 1);
        counter_is_sum(cap, states, n - 1);
    }
}

/// Sums of bytes are not negative.
proof fn sums_are_positive(states: Seq<ArchiveSegmentState>, n: int)
    ensures
        0 <= listed_bytes(states, n),
    decreases n,
{
    if n > 0 {
        sums_are_positive(states, n - 1);
    }
}

/// What the segments take goes by their files.
proof fn total_kept(a: StoreModel, b: StoreModel, summaries: Seq<SegmentSummary>, n: int)
    requires
        0 <= n <= summaries.len(),
        forall|i: int|
            #![trigger summaries[i]]
            0 <= i < n ==> used_bytes(a, summaries[i]) == used_bytes(b, summaries[i]),
    ensures
        total_used(a, summaries, n) == total_used(b, summaries, n),
    decreases n,
{
    if n > 0 {
        total_kept(a, b, summaries, n - 1);
        assert(used_bytes(a, summaries[n - 1]) == used_bytes(b, summaries[n - 1]));
    }
}

/// Where one segment is gone, its bytes are gone.
proof fn total_falls(
    a: StoreModel,
    b: StoreModel,
    summaries: Seq<SegmentSummary>,
    k: int,
    n: int,
)
    requires
        0 <= k < n <= summaries.len(),
        forall|i: int|
            #![trigger summaries[i]]
            0 <= i < n && i != k ==> used_bytes(a, summaries[i]) == used_bytes(b, summaries[i]),
    ensures
        total_used(b, summaries, n) == total_used(a, summaries, n) - used_bytes(a, summaries[k])
            + used_bytes(b, summaries[k]),
    decreases n,
{
    if k == n - 1 {
        total_kept(a, b, summaries, n - 1);
    } else {
        total_falls(a, b, summaries, k, n - 1);
        assert(used_bytes(a, summaries[n - 1]) == used_bytes(b, summaries[n - 1]));
    }
}

/// No segment is listed twice in the catalog.
pub open spec fn distinct_segments(summaries: Seq<SegmentSummary>) -> bool {
    forall|i: int, j: int|
        #![trigger summaries[i], summaries[j]]
        0 <= i < j < summaries.len() ==> summary_key(summaries[i]) != summary_key(summaries[j])
}

/// One step of the retention pass keeps the count of retained bytes above what is used.
proof fn retention_step_counts(
    state: RecorderState,
    cap: u64,
    before: RetentionProgress,
    summaries: Seq<SegmentSummary>,
    k: int,
    segment: ArchiveSegmentState,
)
    requires
        state.disk is Some,
        0 <= k < summaries.len(),
        distinct_segments(summaries),
        state_key(segment) == summary_key(summaries[k]),
        segment.data_bytes_used == summaries[k].data_bytes_used,
        total_used(before.store, summaries, summaries.len() as int) <= before.retained,
    ensures
        ({
            let after = retention_step(state, cap, before, segment);
            total_used(after.store, summaries, summaries.len() as int) <= after.retained
        }),
{
    let n = summaries.len() as int;
    let key = state_key(segment);
    let after = retention_step(state, cap, before, segment);
    retention_step_effect(state, cap, before, segment);
    assert forall|i: int| #![trigger summaries[i]] 0 <= i < n && i != k implies used_bytes(
        before.store,
        summaries[i],
    ) == used_bytes(after.store, summaries[i]) by {
        let other = summary_key(summaries[i]);
        assert(summaries[k] == summaries[k]);
        assert(other != key);
        assert(same_segment(before.store, after.store, other));
        let hot = ArchiveSegmentTier::HotAttached;
        let cold = ArchiveSegmentTier::ColdDetached;
        assert(before.store.has(tier_data(hot, other)) == after.store.has(tier_data(hot, other)));
        assert(before.store.has(tier_data(cold, other)) == after.store.has(
            tier_data(cold, other),
        ));
    }
    total_falls(before.store, after.store, summaries, k, n);
    total_is_positive(after.store, summaries, n);
    if before.retained > cap && !segment.pinned {
        step_on_one_segment(state, cap, before, segment, summaries[k]);
    }
}

/// What one step of the retention pass does to the bytes of its segment.
proof fn step_on_one_segment(
    state: RecorderState,
    cap: u64,
    before: RetentionProgress,
    segment: ArchiveSegmentState,
    summary: SegmentSummary,
)
    requires
        state.disk is Some,
        before.retained > cap,
        !segment.pinned,
        state_key(segment) == summary_key(summary),
        segment.data_bytes_used == summary.data_bytes_used,
    ensures
        ({
            let after = retention_step(state, cap, before, segment);
            let used = used_bytes(before.store, summary);
            ||| after.retained == before.retained && used_bytes(after.store, summary) <= used
            ||| after.retained == (if before.retained < used {
                0
            } else {
                (before.retained - used) as u64
            }) && used_bytes(after.store, summary) == 0
        }),
{
}

/// What the segments take is not negative.
proof fn total_is_positive(store: StoreModel, summaries: Seq<SegmentSummary>, n: int)
    ensures
        0 <= total_used(store, summaries, n),
    decreases n,
{
    if n > 0 {
        total_is_positive(store, summaries, n - 1);
    }
}

/// The retention pass keeps the count of retained bytes above what is used.
proof fn retention_pass_counts(
    state: RecorderState,
    cap: u64,
    start: RetentionProgress,
    segments: Seq<ArchiveSegmentState>,
    summaries: Seq<SegmentSummary>,
    n: int,
)
    requires
        state.disk is Some,
        0 <= n <= segments.len(),
        distinct_segments(summaries),
        forall|i: int|
            #![trigger segments[i]]
            0 <= i < segments.len() ==> exists|k: int|
                0 <= k < summaries.len() && summary_state(start.store, #[trigger] summaries[k])
                    == Some(segments[i]),
        total_used(start.store, summaries, summaries.len() as int) <= start.retained,
    ensures
        ({
            let after = retention_pass(state, cap, start, segments, n);
            total_used(after.store, summaries, summaries.len() as int) <= after.retained
        }),
    decreases n,
{
    if n > 0 {
        retention_pass_counts(state, cap, start, segments, summaries, n - 1);
        let before = retention_pass(state, cap, start, segments, n - 1);
        let segment = segments[n - 1];
        let k = choose|k: int|
            0 <= k < summaries.len() && summary_state(start.store, #[trigger] summaries[k]) == Some(
                segment,
            );
        retention_step_counts(state, cap, before, summaries, k, segment);
    }
}

/// The cap on retained bytes holds: where enforcing it succeeds, the sealed segments that are left
/// take no more than the cap. The catalog lists no segment twice, and what all segments take
/// together fits a counter.
pub proof fn retention_cap_holds(recorder: RecorderModel, store: StoreModel)
    requires
        recorder.state.disk is Some,
        recorder.state.config.persistence_mode != PersistenceMode::Volatile,
        recorder.state.config.max_disk_bytes is Some,
        retention_enforced(recorder, store).result is Ok,
        sealed_summaries(recorder.state, store) is Ok,
        distinct_segments(sealed_summaries(recorder.state, store)->Ok_0),
        ({
            let summaries = sealed_summaries(recorder.state, store)->Ok_0;
            total_used(store, summaries, summaries.len() as int) <= u64::MAX
        }),
    ensures
        ({
            let outcome = retention_enforced(recorder, store);
            let status = retention(outcome.recorder.state, outcome.store);
            &&& status is Ok
            &&& status->Ok_0.retained_bytes_total
                <= recorder.state.config.max_disk_bytes->Some_0
        }),
{
    let state = recorder.state;
    let cap = state.config.max_disk_bytes->Some_0;
    let summaries = sealed_summaries(state, store)->Ok_0;
    let m = summaries.len() as int;
    let segments = segment_states(state, store)->Ok_0;
    let n = segments.len() as int;
    let status = retention(state, store)->Ok_0;
    listed_bytes_total(store, summaries, m);
    counter_is_sum(state.config.max_disk_bytes, segments, n);
    if status.retained_bytes_total > cap {
        let start = RetentionProgress {
            index: recorder.index,
            store,
            retained: status.retained_bytes_total,
        };
        states_are_ordered(store, summaries, m);
        assert forall|i: int| #![trigger segments[i]] 0 <= i < n implies exists|k: int|
            0 <= k < summaries.len() && summary_state(store, #[trigger] summaries[k]) == Some(
                segments[i],
            ) by {
            assert(segments.contains(segments[i]));
        }
        retention_pass_counts(state, cap, start, segments, summaries, n);
        retention_pass_effect(state, cap, start, segments, n);
        let after = retention_pass(state, cap, start, segments, n);
        same_pins(state, store, after.store);
        listed_bytes_total(after.store, summaries, m);
        let left = ordered_states(after.store, summaries, m);
        counter_is_sum(state.config.max_disk_bytes, left, left.len() as int);
    }
}

} // verus!
