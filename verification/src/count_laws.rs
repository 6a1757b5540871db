//! What the numbers mean that detaching, attaching, deleting and trimming return, and what the
//! retention status counts.


use crate::lifecycle::{
    delete_pass_effect, detach_pass_effect, distinct_segments, has_to_stay, moves_are_local,
    same_pins, same_segment, state_key,
};
use crate::maintenance::{
    all_attached, attach_pass, delete_pass, deleted_before, detach_pass, detached_before,
    may_leave, trimmed_before, DeleteProgress,
};
use crate::order::SegmentKey;
use crate::recorder::{retention_enforced, retention_pass, RecorderModel, RetentionProgress};
use crate::retention::{
    attached, detached, detached_deleted, in_tier, retention, retention_counts, sealed_summaries,
    segment_states, summary_key, tier_data, tier_meta,
};
use crate::retention_laws::{keeps_segment, no_file};
use crate::state::RecorderState;
use crate::store::StoreModel;
use crate::summary::SegmentSummary;
use crate::types::{ArchiveSegmentState, ArchiveSegmentTier, PersistenceMode};
use vstd::prelude::*;

verus! {

/// How many of the first `n` numbers have the property.
pub open spec fn how_many(n: int, has: spec_fn(int) -> bool) -> int
    decreases n,
{
    if n <= 0 {
        0
    } else {
        how_many(n - 1, has) + if has(n - 1) {
            1int
        } else {
            0
        }
    }
}

/// Properties that agree on the first `n` numbers count alike.
proof fn how_many_alike(n: int, a: spec_fn(int) -> bool, b: spec_fn(int) -> bool)
    requires
        forall|i: int| 0 <= i < n ==> #[trigger] a(i) == b(i),
    ensures
        how_many(n, a) == how_many(n, b),
        0 <= how_many(n, a),
        0 <= n ==> how_many(n, a) <= n,
    decreases n,
{
    if n > 0 {
        how_many_alike(n - 1, a, b);
    }
}

/// The segment had a file in the tier and has none there any more.
pub open spec fn left_tier(
    a: StoreModel,
    b: StoreModel,
    tier: ArchiveSegmentTier,
    summary: SegmentSummary,
) -> bool {
    !no_file(a, tier, summary.segment_id, summary.segment_generation) && no_file(
        b,
        tier,
        summary.segment_id,
        summary.segment_generation,
    )
}

/// The segment had a file and has none any more.
pub open spec fn is_gone(a: StoreModel, b: StoreModel, summary: SegmentSummary) -> bool {
    let (id, generation) = (summary.segment_id, summary.segment_generation);
    &&& !no_file(a, ArchiveSegmentTier::HotAttached, id, generation) || !no_file(
        a,
        ArchiveSegmentTier::ColdDetached,
        id,
        generation,
    )
    &&& no_file(b, ArchiveSegmentTier::HotAttached, id, generation)
    &&& no_file(b, ArchiveSegmentTier::ColdDetached, id, generation)
}

/// Files of a segment that is the same in two stores.
proof fn same_segment_files(a: StoreModel, b: StoreModel, key: SegmentKey)
    requires
        same_segment(a, b, key),
    ensures
        no_file(a, ArchiveSegmentTier::HotAttached, key.0, key.1) == no_file(
            b,
            ArchiveSegmentTier::HotAttached,
            key.0,
            key.1,
        ),
        no_file(a, ArchiveSegmentTier::ColdDetached, key.0, key.1) == no_file(
            b,
            ArchiveSegmentTier::ColdDetached,
            key.0,
            key.1,
        ),
{
    tier_files(a, key);
    tier_files(b, key);
    let hot = ArchiveSegmentTier::HotAttached;
    let cold = ArchiveSegmentTier::ColdDetached;
    assert(a.has(tier_data(hot, key)) == b.has(tier_data(hot, key)));
    assert(a.has(tier_meta(hot, key)) == b.has(tier_meta(hot, key)));
    assert(a.has(tier_data(cold, key)) == b.has(tier_data(cold, key)));
    assert(a.has(tier_meta(cold, key)) == b.has(tier_meta(cold, key)));
}

/// A tier holds a file of the segment where it does not hold none.
proof fn tier_files(store: StoreModel, key: SegmentKey)
    ensures
        in_tier(store, ArchiveSegmentTier::HotAttached, key) == !no_file(
            store,
            ArchiveSegmentTier::HotAttached,
            key.0,
            key.1,
        ),
        in_tier(store, ArchiveSegmentTier::ColdDetached, key) == !no_file(
            store,
            ArchiveSegmentTier::ColdDetached,
            key.0,
            key.1,
        ),
{
    let hot = ArchiveSegmentTier::HotAttached;
    let cold = ArchiveSegmentTier::ColdDetached;
    assert(no_file(store, hot, key.0, key.1) <==> !store.has(tier_data(hot, key)) && !store.has(
        tier_meta(hot, key),
    ));
    assert(no_file(store, cold, key.0, key.1) <==> !store.has(tier_data(cold, key)) && !store.has(
        tier_meta(cold, key),
    ));
}

/// Detaching the first `n` segments counts those of them that left the attached tier.
proof fn detach_pass_counts(
    state: RecorderState,
    store: StoreModel,
    summaries: Seq<SegmentSummary>,
    before: u64,
    n: int,
)
    requires
        0 <= n <= summaries.len() <= u64::MAX,
        state.disk is Some,
        distinct_segments(summaries),
    ensures
        ({
            let (after, count) = detach_pass(state, store, summaries, before, n);
            count == how_many(
                n,
                |i: int| left_tier(store, after, ArchiveSegmentTier::HotAttached, summaries[i]),
            )
        }),
    decreases n,
{
    let hot = ArchiveSegmentTier::HotAttached;
    if n > 0 {
        detach_pass_counts(state, store, summaries, before, n - 1);
        detach_pass_effect(state, store, summaries, before, n - 1);
        let rest = detach_pass(state, store, summaries, before, n - 1).0;
        let after = detach_pass(state, store, summaries, before, n).0;
        let key = summary_key(summaries[n - 1]);
        assert(has_to_stay(store, summaries, before, key, n - 1)) by {
            assert forall|i: int|
                #![trigger summaries[i]]
                0 <= i < n - 1 && summary_key(summaries[i]) == key implies !may_leave(
                store,
                summaries[i],
                before,
            ) by {
                assert(summary_key(summaries[i]) != summary_key(summaries[n - 1]));
            }
        }
        assert(same_segment(store, rest, key));
        same_segment_files(store, rest, key);
        moves_are_local(state, rest, key);
        let f = |i: int| left_tier(store, rest, hot, summaries[i]);
        let g = |i: int| left_tier(store, after, hot, summaries[i]);
        assert forall|i: int| 0 <= i < n - 1 implies #[trigger] f(i) == g(i) by {
            let other = summary_key(summaries[i]);
            assert(other != key);
            if may_leave(store, summaries[n - 1], before) {
                assert(same_segment(rest, detached(state, rest, key).0, other));
                same_segment_files(rest, after, other);
            }
        }
        how_many_alike(n - 1, f, g);
        tier_files(rest, key);
        tier_files(after, key);
        tier_files(store, key);
    }
}

/// What detaching returns is how many segments it took out of the attached tier. The catalog lists
/// no segment twice.
pub proof fn detaching_counts_what_left(recorder: RecorderModel, store: StoreModel, before: u64)
    requires
        recorder.state.disk is Some,
        sealed_summaries(recorder.state, store) is Ok,
        sealed_summaries(recorder.state, store)->Ok_0.len() <= u64::MAX,
        distinct_segments(sealed_summaries(recorder.state, store)->Ok_0),
    ensures
        ({
            let summaries = sealed_summaries(recorder.state, store)->Ok_0;
            let outcome = detached_before(recorder, store, before);
            &&& outcome.result is Ok
            &&& outcome.result->Ok_0 == how_many(
                summaries.len() as int,
                |i: int|
                    left_tier(
                        store,
                        outcome.store,
                        ArchiveSegmentTier::HotAttached,
                        summaries[i],
                    ),
            )
        }),
{
    let summaries = sealed_summaries(recorder.state, store)->Ok_0;
    detach_pass_counts(recorder.state, store, summaries, before, summaries.len() as int);
}

/// Attaching the first `n` segments counts those of them that left the detached tier.
proof fn attach_pass_counts(
    state: RecorderState,
    store: StoreModel,
    summaries: Seq<SegmentSummary>,
    n: int,
)
    requires
        0 <= n <= summaries.len() <= u64::MAX,
        state.disk is Some,
        distinct_segments(summaries),
    ensures
        ({
            let (after, count) = attach_pass(state, store, summaries, n);
            count == how_many(
                n,
                |i: int| left_tier(store, after, ArchiveSegmentTier::ColdDetached, summaries[i]),
            )
        }),
        forall|key: SegmentKey|
            (forall|i: int| #![trigger summaries[i]] 0 <= i < n ==> summary_key(summaries[i]) != key)
                ==> #[trigger] same_segment(
                store,
                attach_pass(state, store, summaries, n).0,
                key,
            ),
    decreases n,
{
    let cold = ArchiveSegmentTier::ColdDetached;
    if n > 0 {
        attach_pass_counts(state, store, summaries, n - 1);
        let rest = attach_pass(state, store, summaries, n - 1).0;
        let after = attach_pass(state, store, summaries, n).0;
        let key = summary_key(summaries[n - 1]);
        assert forall|i: int| #![trigger summaries[i]] 0 <= i < n - 1 implies summary_key(
            summaries[i],
        ) != key by {
            assert(summary_key(summaries[i]) != summary_key(summaries[n - 1]));
        }
        assert(same_segment(store, rest, key));
        same_segment_files(store, rest, key);
        moves_are_local(state, rest, key);
        let f = |i: int| left_tier(store, rest, cold, summaries[i]);
        let g = |i: int| left_tier(store, after, cold, summaries[i]);
        assert forall|i: int| 0 <= i < n - 1 implies #[trigger] f(i) == g(i) by {
            let other = summary_key(summaries[i]);
            assert(other != key);
            assert(same_segment(rest, detached(state, rest, key).0, other));
            same_segment_files(rest, after, other);
        }
        how_many_alike(n - 1, f, g);
        tier_files(rest, key);
        tier_files(after, key);
        tier_files(store, key);
        assert forall|other: SegmentKey|
            (forall|i: int|
                #![trigger summaries[i]]
                0 <= i < n ==> summary_key(summaries[i]) != other) implies #[trigger] same_segment(
            store,
            after,
            other,
        ) by {
            assert(summary_key(summaries[n - 1]) != other);
            assert(same_segment(store, rest, other));
            assert(same_segment(rest, detached(state, rest, key).0, other));
            crate::lifecycle::same_segment_chain(store, rest, after, other);
        }
    } else {
        assert forall|key: SegmentKey|
            (forall|i: int|
                #![trigger summaries[i]]
                0 <= i < n ==> summary_key(summaries[i]) != key) implies #[trigger] same_segment(
            store,
            attach_pass(state, store, summaries, n).0,
            key,
        ) by {}
    }
}

/// What attaching returns is how many segments it took out of the detached tier, and no sealed
/// segment is left there. The catalog lists no segment twice.
pub proof fn attaching_counts_what_left(recorder: RecorderModel, store: StoreModel)
    requires
        recorder.state.disk is Some,
        sealed_summaries(recorder.state, store) is Ok,
        sealed_summaries(recorder.state, store)->Ok_0.len() <= u64::MAX,
        distinct_segments(sealed_summaries(recorder.state, store)->Ok_0),
    ensures
        ({
            let summaries = sealed_summaries(recorder.state, store)->Ok_0;
            let outcome = all_attached(recorder, store);
            &&& outcome.result is Ok
            &&& outcome.result->Ok_0 == how_many(
                summaries.len() as int,
                |i: int|
                    left_tier(
                        store,
                        outcome.store,
                        ArchiveSegmentTier::ColdDetached,
                        summaries[i],
                    ),
            )
            &&& forall|i: int|
                0 <= i < summaries.len() ==> no_file(
                    outcome.store,
                    ArchiveSegmentTier::ColdDetached,
                    (#[trigger] summaries[i]).segment_id,
                    summaries[i].segment_generation,
                )
        }),
{
    let state = recorder.state;
    let summaries = sealed_summaries(state, store)->Ok_0;
    attach_pass_counts(state, store, summaries, summaries.len() as int);
    crate::lifecycle::attach_pass_effect(state, store, summaries, summaries.len() as int);
    let after = all_attached(recorder, store).store;
    assert forall|i: int| 0 <= i < summaries.len() implies no_file(
        after,
        ArchiveSegmentTier::ColdDetached,
        (#[trigger] summaries[i]).segment_id,
        summaries[i].segment_generation,
    ) by {
        tier_files(after, summary_key(summaries[i]));
    }
}

/// Deleting the first `n` segments counts those of them that are gone.
proof fn delete_pass_counts(
    state: RecorderState,
    start: DeleteProgress,
    summaries: Seq<SegmentSummary>,
    before: u64,
    n: int,
)
    requires
        0 <= n <= summaries.len() <= u64::MAX,
        state.disk is Some,
        start.count == 0,
        distinct_segments(summaries),
    ensures
        ({
            let after = delete_pass(state, start, summaries, before, n);
            after.count == how_many(
                n,
                |i: int| is_gone(start.store, after.store, summaries[i]),
            )
        }),
    decreases n,
{
    if n > 0 {
        delete_pass_counts(state, start, summaries, before, n - 1);
        delete_pass_effect(state, start, summaries, before, n - 1);
        let store = start.store;
        let rest = delete_pass(state, start, summaries, before, n - 1).store;
        let after = delete_pass(state, start, summaries, before, n).store;
        let key = summary_key(summaries[n - 1]);
        assert(has_to_stay(store, summaries, before, key, n - 1)) by {
            assert forall|i: int|
                #![trigger summaries[i]]
                0 <= i < n - 1 && summary_key(summaries[i]) == key implies !may_leave(
                store,
                summaries[i],
                before,
            ) by {
                assert(summary_key(summaries[i]) != summary_key(summaries[n - 1]));
            }
        }
        assert(same_segment(store, rest, key));
        same_segment_files(store, rest, key);
        moves_are_local(state, rest, key);
        let f = |i: int| is_gone(store, rest, summaries[i]);
        let g = |i: int| is_gone(store, after, summaries[i]);
        assert forall|i: int| 0 <= i < n - 1 implies #[trigger] f(i) == g(i) by {
            let other = summary_key(summaries[i]);
            assert(other != key);
            if may_leave(store, summaries[n - 1], before) {
                assert(same_segment(rest, detached(state, rest, key).0, other));
                assert(same_segment(rest, detached_deleted(state, rest, key).0, other));
                same_segment_files(rest, after, other);
            }
        }
        how_many_alike(n - 1, f, g);
        tier_files(rest, key);
        tier_files(after, key);
        tier_files(store, key);
    }
}

/// What deleting returns is how many sealed segments are gone by it. The catalog lists no segment
/// twice.
pub proof fn deleting_counts_what_is_gone(recorder: RecorderModel, store: StoreModel, before: u64)
    requires
        recorder.state.disk is Some,
        sealed_summaries(recorder.state, store) is Ok,
        sealed_summaries(recorder.state, store)->Ok_0.len() <= u64::MAX,
        distinct_segments(sealed_summaries(recorder.state, store)->Ok_0),
    ensures
        ({
            let summaries = sealed_summaries(recorder.state, store)->Ok_0;
            let outcome = deleted_before(recorder, store, before);
            &&& outcome.result is Ok
            &&& outcome.result->Ok_0 == how_many(
                summaries.len() as int,
                |i: int| is_gone(store, outcome.store, summaries[i]),
            )
        }),
{
    let summaries = sealed_summaries(recorder.state, store)->Ok_0;
    delete_pass_counts(
        recorder.state,
        DeleteProgress { index: recorder.index, store, count: 0 },
        summaries,
        before,
        summaries.len() as int,
    );
}

/// What trimming returns is how many sealed segments are gone by it. The catalog lists no segment
/// twice.
pub proof fn trimming_counts_what_is_gone(recorder: RecorderModel, store: StoreModel, before: u64)
    requires
        recorder.state.disk is Some,
        sealed_summaries(recorder.state, store) is Ok,
        sealed_summaries(recorder.state, store)->Ok_0.len() <= u64::MAX,
        distinct_segments(sealed_summaries(recorder.state, store)->Ok_0),
    ensures
        ({
            let summaries = sealed_summaries(recorder.state, store)->Ok_0;
            let outcome = trimmed_before(recorder, store, before);
            &&& outcome.result is Ok
            &&& outcome.result->Ok_0 == how_many(
                summaries.len() as int,
                |i: int| is_gone(store, outcome.store, summaries[i]),
            )
        }),
{
    let state = recorder.state;
    let summaries = sealed_summaries(state, store)->Ok_0;
    let n = summaries.len() as int;
    detach_pass_effect(state, store, summaries, before, n);
    let first = detached_before(recorder, store, before);
    same_pins(state, store, first.store);
    deleting_counts_what_is_gone(first.recorder, first.store, before);
    let outcome = trimmed_before(recorder, store, before);
    let f = |i: int| is_gone(first.store, outcome.store, summaries[i]);
    let g = |i: int| is_gone(store, outcome.store, summaries[i]);
    assert forall|i: int| 0 <= i < n implies #[trigger] f(i) == g(i) by {
        detach_pass_keeps_presence(state, store, summaries, before, n, summary_key(summaries[i]));
        tier_files(store, summary_key(summaries[i]));
        tier_files(first.store, summary_key(summaries[i]));
    }
    how_many_alike(n, f, g);
}

/// Detaching neither makes nor loses segments.
proof fn detach_pass_keeps_presence(
    state: RecorderState,
    store: StoreModel,
    summaries: Seq<SegmentSummary>,
    before: u64,
    n: int,
    key: SegmentKey,
)
    requires
        0 <= n <= summaries.len(),
        state.disk is Some,
    ensures
        ({
            let after = detach_pass(state, store, summaries, before, n).0;
            let hot = ArchiveSegmentTier::HotAttached;
            let cold = ArchiveSegmentTier::ColdDetached;
            (in_tier(store, hot, key) || in_tier(store, cold, key)) == (in_tier(after, hot, key)
                || in_tier(after, cold, key))
        }),
    decreases n,
{
    if n > 0 {
        detach_pass_keeps_presence(state, store, summaries, before, n - 1, key);
        let rest = detach_pass(state, store, summaries, before, n - 1).0;
        let moved = summary_key(summaries[n - 1]);
        moves_are_local(state, rest, moved);
        if key != moved {
            let next = detached(state, rest, moved).0;
            assert(same_segment(rest, next, key));
            same_segment_files(rest, next, key);
            tier_files(rest, key);
            tier_files(next, key);
        }
    }
}

/// The bytes of the first `n` states that have the property.
pub open spec fn bytes_where(
    states: Seq<ArchiveSegmentState>,
    n: int,
    has: spec_fn(ArchiveSegmentState) -> bool,
) -> int
    decreases n,
{
    if n <= 0 {
        0
    } else {
        bytes_where(states, n - 1, has) + if has(states[n - 1]) {
            states[n - 1].data_bytes_used as int
        } else {
            0
        }
    }
}

/// The retention status counts every listed segment once, in its tier, and its bytes with it: the
/// bytes of both tiers together are the bytes of all, and the pinned ones are those that are pinned.
/// The bytes of all fit a counter.
pub proof fn status_counts_every_segment_once(
    cap: Option<u64>,
    states: Seq<ArchiveSegmentState>,
    n: int,
)
    requires
        0 <= n <= states.len() <= usize::MAX,
        bytes_where(states, n, |s: ArchiveSegmentState| true) <= u64::MAX,
    ensures
        ({
            let status = retention_counts(cap, states, n);
            let hot = ArchiveSegmentTier::HotAttached;
            let cold = ArchiveSegmentTier::ColdDetached;
            &&& status.max_disk_bytes == cap
            &&& status.segments_hot_attached == how_many(n, |i: int| states[i].tier == hot)
            &&& status.segments_cold_detached == how_many(n, |i: int| states[i].tier == cold)
            &&& status.segments_hot_attached + status.segments_cold_detached == n
            &&& status.pinned_segments == how_many(n, |i: int| states[i].pinned)
            &&& status.retained_bytes_total == bytes_where(
                states,
                n,
                |s: ArchiveSegmentState| true,
            )
            &&& status.retained_bytes_hot_attached == bytes_where(
                states,
                n,
                |s: ArchiveSegmentState| s.tier == hot,
            )
            &&& status.retained_bytes_cold_detached == bytes_where(
                states,
                n,
                |s: ArchiveSegmentState| s.tier == cold,
            )
            &&& status.retained_bytes_hot_attached + status.retained_bytes_cold_detached
                == status.retained_bytes_total
        }),
    decreases n,
{
    let hot = ArchiveSegmentTier::HotAttached;
    let cold = ArchiveSegmentTier::ColdDetached;
    if n > 0 {
        assert(bytes_where(states, n - 1, |s: ArchiveSegmentState| true) <= u64::MAX);
        status_counts_every_segment_once(cap, states, n - 1);
        let all = |i: int| true;
        let pinned = |i: int| states[i].pinned;
        how_many_alike(n - 1, pinned, pinned);
        let state = states[n - 1];
        assert(state.tier == hot || state.tier == cold);
        bytes_are_not_negative(states, n - 1, |s: ArchiveSegmentState| s.tier == hot);
        bytes_are_not_negative(states, n - 1, |s: ArchiveSegmentState| s.tier == cold);
    }
}

/// Bytes add up to no less than nothing.
proof fn bytes_are_not_negative(
    states: Seq<ArchiveSegmentState>,
    n: int,
    has: spec_fn(ArchiveSegmentState) -> bool,
)
    ensures
        0 <= bytes_where(states, n, has),
    decreases n,
{
    if n > 0 {
        bytes_are_not_negative(states, n - 1, has);
    }
}

/// No segment is listed twice.
pub open spec fn listed_apart(segments: Seq<ArchiveSegmentState>) -> bool {
    forall|i: int, j: int|
        #![trigger segments[i], segments[j]]
        0 <= i < j < segments.len() ==> state_key(segments[i]) != state_key(segments[j])
}

/// While too much is retained, the pass goes on; once it is not, nothing changes any more.
proof fn retention_pass_stops(
    state: RecorderState,
    cap: u64,
    start: RetentionProgress,
    segments: Seq<ArchiveSegmentState>,
    i: int,
    n: int,
)
    requires
        0 <= i <= n <= segments.len(),
        retention_pass(state, cap, start, segments, i).retained <= cap,
    ensures
        retention_pass(state, cap, start, segments, n) == retention_pass(
            state,
            cap,
            start,
            segments,
            i,
        ),
    decreases n - i,
{
    if i < n {
        retention_pass_stops(state, cap, start, segments, i, n - 1);
    }
}

/// The pass over some segments leaves every other segment alone.
proof fn retention_pass_is_local(
    state: RecorderState,
    cap: u64,
    start: RetentionProgress,
    segments: Seq<ArchiveSegmentState>,
    i: int,
    n: int,
    key: SegmentKey,
)
    requires
        0 <= i <= n <= segments.len(),
        forall|k: int| #![trigger segments[k]] i <= k < n ==> state_key(segments[k]) != key,
    ensures
        same_segment(
            retention_pass(state, cap, start, segments, i).store,
            retention_pass(state, cap, start, segments, n).store,
            key,
        ),
    decreases n - i,
{
    if i < n {
        retention_pass_is_local(state, cap, start, segments, i, n - 1, key);
        let before = retention_pass(state, cap, start, segments, n - 1);
        crate::lifecycle::retention_step_effect(state, cap, before, segments[n - 1]);
        assert(state_key(segments[n - 1]) != key);
        crate::lifecycle::same_segment_chain(
            retention_pass(state, cap, start, segments, i).store,
            before.store,
            retention_pass(state, cap, start, segments, n).store,
            key,
        );
    }
}

/// The cap takes the oldest segments first: where a segment was touched, no segment that is listed
/// before it has a file left, unless it is pinned or the one that is written to.
pub proof fn cap_takes_the_oldest_first(
    recorder: RecorderModel,
    store: StoreModel,
    i: int,
    j: int,
)
    requires
        recorder.state.disk is Some,
        segment_states(recorder.state, store) is Ok,
        ({
            let segments = segment_states(recorder.state, store)->Ok_0;
            let after = retention_enforced(recorder, store).store;
            &&& listed_apart(segments)
            &&& 0 <= i < j < segments.len()
            &&& !segments[i].pinned
            &&& recorder.state.disk->Some_0.active_segment matches Some(active) ==> (
            active.segment_id,
            active.segment_generation,
        ) != state_key(segments[i])
            &&& !keeps_segment(
                store,
                after,
                segments[j].segment_id,
                segments[j].segment_generation,
            )
        }),
        ({
            let segment = segment_states(recorder.state, store)->Ok_0[i];
            segment.tier == ArchiveSegmentTier::ColdDetached ==> no_file(
                store,
                ArchiveSegmentTier::HotAttached,
                segment.segment_id,
                segment.segment_generation,
            )
        }),
    ensures
        ({
            let segment = segment_states(recorder.state, store)->Ok_0[i];
            let after = retention_enforced(recorder, store).store;
            let (id, generation) = (segment.segment_id, segment.segment_generation);
            &&& no_file(after, ArchiveSegmentTier::HotAttached, id, generation)
            &&& no_file(after, ArchiveSegmentTier::ColdDetached, id, generation)
        }),
{
    let state = recorder.state;
    let segments = segment_states(state, store)->Ok_0;
    let n = segments.len() as int;
    let after = retention_enforced(recorder, store).store;
    let key = state_key(segments[i]);
    let other = state_key(segments[j]);
    if after == store {
        crate::retention_laws::same_segment_reads(store, after, other);
    }
    let cap = state.config.max_disk_bytes->Some_0;
    let start = RetentionProgress {
        index: recorder.index,
        store,
        retained: retention(state, store)->Ok_0.retained_bytes_total,
    };
    assert(after == retention_pass(state, cap, start, segments, n).store);
    assert forall|k: int| #![trigger segments[k]] 0 <= k < i implies state_key(segments[k])
        != key by {
        assert(state_key(segments[k]) != state_key(segments[i]));
    }
    assert forall|k: int| #![trigger segments[k]] i + 1 <= k < n implies state_key(segments[k])
        != key by {
        assert(state_key(segments[i]) != state_key(segments[k]));
    }
    assert forall|k: int| #![trigger segments[k]] 0 <= k < i implies state_key(segments[k])
        != other by {
        assert(state_key(segments[k]) != state_key(segments[j]));
    }
    let reached = retention_pass(state, cap, start, segments, i);
    if reached.retained <= cap {
        retention_pass_stops(state, cap, start, segments, i, n);
        retention_pass_is_local(state, cap, start, segments, 0, i, other);
        crate::retention_laws::same_segment_reads(store, after, other);
    }
    retention_pass_is_local(state, cap, start, segments, 0, i, key);
    same_segment_files(store, reached.store, key);
    let stepped = retention_pass(state, cap, start, segments, i + 1);
    tier_files(store, key);
    tier_files(reached.store, key);
    tier_files(stepped.store, key);
    assert(no_file(stepped.store, ArchiveSegmentTier::HotAttached, key.0, key.1));
    assert(no_file(stepped.store, ArchiveSegmentTier::ColdDetached, key.0, key.1));
    retention_pass_is_local(state, cap, start, segments, i + 1, n, key);
    same_segment_files(stepped.store, after, key);
}

/// Nothing is removed for the cap while the segments that are listed take no more than it, or where
/// there is no cap. The bytes of all fit a counter.
pub proof fn nothing_is_removed_below_the_cap(recorder: RecorderModel, store: StoreModel)
    requires
        recorder.state.config.persistence_mode != PersistenceMode::Volatile,
        segment_states(recorder.state, store) is Ok,
        segment_states(recorder.state, store)->Ok_0.len() <= usize::MAX,
        ({
            let segments = segment_states(recorder.state, store)->Ok_0;
            let bytes = bytes_where(
                segments,
                segments.len() as int,
                |s: ArchiveSegmentState| true,
            );
            bytes <= match recorder.state.config.max_disk_bytes {
                Some(cap) => cap,
                None => u64::MAX,
            }
        }),
    ensures
        ({
            let outcome = retention_enforced(recorder, store);
            &&& outcome.recorder == recorder
            &&& outcome.store == store
            &&& outcome.result is Ok
        }),
{
    let segments = segment_states(recorder.state, store)->Ok_0;
    status_counts_every_segment_once(
        recorder.state.config.max_disk_bytes,
        segments,
        segments.len() as int,
    );
}

} // verus!
