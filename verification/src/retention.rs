//! Tiers, pins and the retention of sealed segments.

use crate::catalog::{catalog_entries, read_catalog_entries};
use crate::error::{ArchiveDirectory, ArchiveFile, ArchiveRecorderError};
use crate::order::{key_less, SegmentKey};
use crate::state::{bounded_sum, saturating_sum, RecorderState};
use crate::store::{ArchiveStore, StoreModel};
use crate::summary::SegmentSummary;
use crate::types::{
    ArchiveLocator, ArchiveRetentionStatus, ArchiveSegmentState, ArchiveSegmentTier,
    PersistenceMode, ReplayPin,
};
use vstd::prelude::*;

verus! {

/// The data file of a segment in a tier.
pub open spec fn tier_data(tier: ArchiveSegmentTier, key: SegmentKey) -> ArchiveFile {
    ArchiveFile::SegmentData { tier, segment_id: key.0, segment_generation: key.1 }
}

/// The summary file of a segment in a tier.
pub open spec fn tier_meta(tier: ArchiveSegmentTier, key: SegmentKey) -> ArchiveFile {
    ArchiveFile::SegmentMeta { tier, segment_id: key.0, segment_generation: key.1 }
}

/// A tier holds a file of the segment.
pub open spec fn in_tier(store: StoreModel, tier: ArchiveSegmentTier, key: SegmentKey) -> bool {
    store.has(tier_data(tier, key)) || store.has(tier_meta(tier, key))
}

/// The tier of a segment, if any file of it is left.
pub open spec fn segment_tier(store: StoreModel, key: SegmentKey) -> Option<ArchiveSegmentTier> {
    if in_tier(store, ArchiveSegmentTier::HotAttached, key) {
        Some(ArchiveSegmentTier::HotAttached)
    } else if in_tier(store, ArchiveSegmentTier::ColdDetached, key) {
        Some(ArchiveSegmentTier::ColdDetached)
    } else {
        None
    }
}

/// Tells whether a tier holds a file of the segment.
fn held_in_tier(
    store: &ArchiveStore,
    tier: ArchiveSegmentTier,
    segment_id: u64,
    segment_generation: u32,
) -> (held: bool)
    ensures
        held == in_tier(store@, tier, (segment_id, segment_generation)),
{
    store.contains(ArchiveFile::SegmentData { tier, segment_id, segment_generation })
        || store.contains(ArchiveFile::SegmentMeta { tier, segment_id, segment_generation })
}

/// Finds the tier of a segment.
pub fn find_segment_tier(
    store: &ArchiveStore,
    segment_id: u64,
    segment_generation: u32,
) -> (tier: Option<ArchiveSegmentTier>)
    ensures
        tier == segment_tier(store@, (segment_id, segment_generation)),
{
    if held_in_tier(store, ArchiveSegmentTier::HotAttached, segment_id, segment_generation) {
        Some(ArchiveSegmentTier::HotAttached)
    } else if held_in_tier(
        store,
        ArchiveSegmentTier::ColdDetached,
        segment_id,
        segment_generation,
    ) {
        Some(ArchiveSegmentTier::ColdDetached)
    } else {
        None
    }
}

/// A file moves to another place; where that place is taken, the file is dropped. Tells whether
/// there was anything to move.
pub open spec fn tier_moved(store: StoreModel, from: ArchiveFile, to: ArchiveFile) -> (
    StoreModel,
    bool,
) {
    if !store.has(from) {
        (store, false)
    } else if store.has(to) {
        (store.without(from), true)
    } else {
        (store.moved(from, to), true)
    }
}

/// Moves a file to another tier.
pub fn move_segment_file(store: &mut ArchiveStore, source: ArchiveFile, target: ArchiveFile) -> (
    moved: bool)
    requires
        source != target,
    ensures
        final(store).base() == old(store).base(),
        (final(store)@, moved) == tier_moved(old(store)@, source, target),
{
    if !store.contains(source) {
        return false;
    }
    if store.contains(target) {
        let _ = store.remove(source, "remove duplicate segment file during tier move");
        return true;
    }
    let _ = store.rename(source, target, "move segment file between tiers");
    true
}

/// Both files of a segment move from one tier to the other.
pub open spec fn segment_moved(
    store: StoreModel,
    from: ArchiveSegmentTier,
    to: ArchiveSegmentTier,
    key: SegmentKey,
) -> (StoreModel, bool) {
    let (first, data) = tier_moved(store, tier_data(from, key), tier_data(to, key));
    let (second, meta) = tier_moved(first, tier_meta(from, key), tier_meta(to, key));
    (second, data || meta)
}

/// The segment is the active one.
pub open spec fn is_active(state: RecorderState, key: SegmentKey) -> bool {
    state.disk is Some && state.disk->Some_0.active_segment is Some && {
        let active = state.disk->Some_0.active_segment->Some_0;
        active.segment_id == key.0 && active.segment_generation == key.1
    }
}

/// A segment is detached. Tells whether anything moved.
pub open spec fn detached(state: RecorderState, store: StoreModel, key: SegmentKey) -> (
    StoreModel,
    bool,
) {
    if state.disk is None || is_active(state, key) {
        (store, false)
    } else {
        segment_moved(
            store.with_directory(ArchiveDirectory::Detached),
            ArchiveSegmentTier::HotAttached,
            ArchiveSegmentTier::ColdDetached,
            key,
        )
    }
}

/// A segment is attached. Tells whether anything moved.
pub open spec fn attached(state: RecorderState, store: StoreModel, key: SegmentKey) -> (
    StoreModel,
    bool,
) {
    if state.disk is None {
        (store, false)
    } else {
        segment_moved(
            store,
            ArchiveSegmentTier::ColdDetached,
            ArchiveSegmentTier::HotAttached,
            key,
        )
    }
}

/// The store without a file, and whether it was there.
pub open spec fn removed(store: StoreModel, file: ArchiveFile) -> (StoreModel, bool) {
    if store.has(file) {
        (store.without(file), true)
    } else {
        (store, false)
    }
}

/// The files of a detached segment are deleted. Tells whether there were any.
pub open spec fn detached_deleted(state: RecorderState, store: StoreModel, key: SegmentKey) -> (
    StoreModel,
    bool,
) {
    if state.disk is None || in_tier(store, ArchiveSegmentTier::HotAttached, key) {
        (store, false)
    } else {
        let cold = ArchiveSegmentTier::ColdDetached;
        let (first, data) = removed(store, tier_data(cold, key));
        let (second, meta) = removed(first, tier_meta(cold, key));
        (second, data || meta)
    }
}

/// Moves both files of a segment from one tier to the other.
fn move_segment(
    store: &mut ArchiveStore,
    from: ArchiveSegmentTier,
    to: ArchiveSegmentTier,
    segment_id: u64,
    segment_generation: u32,
) -> (moved: bool)
    requires
        from != to,
    ensures
        final(store).base() == old(store).base(),
        (final(store)@, moved) == segment_moved(
            old(store)@,
            from,
            to,
            (segment_id, segment_generation),
        ),
{
    let data = move_segment_file(
        store,
        ArchiveFile::SegmentData { tier: from, segment_id, segment_generation },
        ArchiveFile::SegmentData { tier: to, segment_id, segment_generation },
    );
    let meta = move_segment_file(
        store,
        ArchiveFile::SegmentMeta { tier: from, segment_id, segment_generation },
        ArchiveFile::SegmentMeta { tier: to, segment_id, segment_generation },
    );
    data || meta
}

impl RecorderState {
    /// Detaches a segment, unless it is the active one. Tells whether anything moved.
    pub fn detach_segment(
        &self,
        store: &mut ArchiveStore,
        segment_id: u64,
        segment_generation: u32,
    ) -> (changed: bool)
        ensures
            final(store).base() == old(store).base(),
            (final(store)@, changed) == detached(
                *self,
                old(store)@,
                (segment_id, segment_generation),
            ),
    {
        let disk = match self.disk {
            Some(disk) => disk,
            None => {
                return false;
            },
        };
        if let Some(active) = disk.active_segment {
            if active.segment_id == segment_id && active.segment_generation
                == segment_generation {
                return false;
            }
        }
        store.create_directory(ArchiveDirectory::Detached, "create detached segments directory");
        move_segment(
            store,
            ArchiveSegmentTier::HotAttached,
            ArchiveSegmentTier::ColdDetached,
            segment_id,
            segment_generation,
        )
    }

    /// Attaches a segment. Tells whether anything moved.
    pub fn attach_segment(
        &self,
        store: &mut ArchiveStore,
        segment_id: u64,
        segment_generation: u32,
    ) -> (changed: bool)
        ensures
            final(store).base() == old(store).base(),
            (final(store)@, changed) == attached(
                *self,
                old(store)@,
                (segment_id, segment_generation),
            ),
    {
        if self.disk.is_none() {
            return false;
        }
        move_segment(
            store,
            ArchiveSegmentTier::ColdDetached,
            ArchiveSegmentTier::HotAttached,
            segment_id,
            segment_generation,
        )
    }

    /// Deletes the files of a detached segment. Tells whether there were any.
    pub fn delete_detached_segment(
        &self,
        store: &mut ArchiveStore,
        segment_id: u64,
        segment_generation: u32,
    ) -> (deleted: bool)
        ensures
            final(store).base() == old(store).base(),
            (final(store)@, deleted) == detached_deleted(
                *self,
                old(store)@,
                (segment_id, segment_generation),
            ),
    {
        if self.disk.is_none() || held_in_tier(
            store,
            ArchiveSegmentTier::HotAttached,
            segment_id,
            segment_generation,
        ) {
            return false;
        }
        let tier = ArchiveSegmentTier::ColdDetached;
        let data = store.remove(
            ArchiveFile::SegmentData { tier, segment_id, segment_generation },
            "remove segment file",
        );
        let meta = store.remove(
            ArchiveFile::SegmentMeta { tier, segment_id, segment_generation },
            "remove segment file",
        );
        data || meta
    }
}

/// The pin protects a sequence of the range.
pub open spec fn pin_overlaps(pin: ReplayPin, sequence_start: u64, sequence_end: u64) -> bool {
    pin.sequence_start <= sequence_end && sequence_start <= pin.sequence_end
}

/// The file marks the pin.
pub open spec fn marks_pin(file: ArchiveFile, pin: ReplayPin) -> bool {
    ||| file == (ArchiveFile::Pin { pin })
    ||| file == (ArchiveFile::PinAlias { pin })
}

/// The pin is held in the store.
pub open spec fn pin_held(store: StoreModel, pin: ReplayPin) -> bool {
    &&& store.directories.contains(ArchiveDirectory::Pins)
    &&& store.has(ArchiveFile::Pin { pin }) || store.has(ArchiveFile::PinAlias { pin })
}

/// A pin that is held protects a sequence of the range.
pub open spec fn is_pinned(store: StoreModel, sequence_start: u64, sequence_end: u64) -> bool {
    exists|pin: ReplayPin|
        #[trigger] pin_held(store, pin) && pin_overlaps(pin, sequence_start, sequence_end)
}

/// `pins` lists the pins that are held.
pub open spec fn lists_pins(store: StoreModel, pins: Seq<ReplayPin>) -> bool {
    forall|pin: ReplayPin| #[trigger] pin_held(store, pin) <==> pins.contains(pin)
}

/// Lists the pins that are held.
pub fn active_replay_pins(store: &ArchiveStore) -> (pins: Vec<ReplayPin>)
    ensures
        lists_pins(store@, pins@),
{
    let mut pins: Vec<ReplayPin> = Vec::new();
    if !store.directory_exists(ArchiveDirectory::Pins) {
        return pins;
    }
    let files = store.files();
    let n: usize = files.len();
    for i in 0..n
        invariant
            n == files@.len(),
            forall|pin: ReplayPin|
                #[trigger] pins@.contains(pin) <==> exists|j: int|
                    0 <= j < i && marks_pin(#[trigger] files@[j], pin),
    {
        let ghost before = pins@;
        let marked: Option<ReplayPin> = match files[i] {
            ArchiveFile::Pin { pin } => Some(pin),
            ArchiveFile::PinAlias { pin } => Some(pin),
            _ => None,
        };
        if let Some(pin) = marked {
            pins.push(pin);
        }
        assert forall|pin: ReplayPin| #[trigger] pins@.contains(pin) <==> exists|j: int|
            0 <= j < i + 1 && marks_pin(#[trigger] files@[j], pin) by {
            assert(marks_pin(files@[i as int], pin) <==> marked == Some(pin));
            if before.contains(pin) {
                let j = choose|j: int| 0 <= j < i && marks_pin(#[trigger] files@[j], pin);
                assert(0 <= j < i + 1 && marks_pin(files@[j], pin));
                let k = choose|k: int| 0 <= k < before.len() && before[k] == pin;
                assert(pins@[k] == pin);
            }
            if exists|j: int| 0 <= j < i + 1 && marks_pin(#[trigger] files@[j], pin) {
                let j = choose|j: int| 0 <= j < i + 1 && marks_pin(#[trigger] files@[j], pin);
                if j < i {
                    assert(before.contains(pin));
                } else {
                    assert(pins@[before.len() as int] == pin);
                }
            }
            if pins@.contains(pin) && !before.contains(pin) {
                let k = choose|k: int| 0 <= k < pins@.len() && pins@[k] == pin;
                assert(k == before.len()) by {
                    if k < before.len() {
                        assert(before[k] == pin);
                    }
                }
                assert(marks_pin(files@[i as int], pin));
            }
        }
    }
    assert forall|pin: ReplayPin| #[trigger] pin_held(store@, pin) <==> pins@.contains(pin) by {
        let own = ArchiveFile::Pin { pin };
        let other = ArchiveFile::PinAlias { pin };
        assert(store@.has(own) <==> files@.contains(own));
        assert(store@.has(other) <==> files@.contains(other));
        if files@.contains(own) {
            let j = choose|j: int| 0 <= j < files@.len() && files@[j] == own;
            assert(0 <= j < n && marks_pin(files@[j], pin));
        }
        if files@.contains(other) {
            let j = choose|j: int| 0 <= j < files@.len() && files@[j] == other;
            assert(0 <= j < n && marks_pin(files@[j], pin));
        }
        if pins@.contains(pin) {
            let j = choose|j: int| 0 <= j < n && marks_pin(#[trigger] files@[j], pin);
            assert(files@.contains(files@[j]));
        }
    }
    pins
}

/// The sequence lies in the range, ends and all.
pub open spec fn lies_between(sequence: u64, sequence_start: u64, sequence_end: u64) -> bool {
    sequence_start <= sequence <= sequence_end
}

/// Tells whether one of the pins protects a sequence of the range.
pub fn overlaps_any_pin(sequence_start: u64, sequence_end: u64, pins: &[ReplayPin]) -> (overlaps:
    bool)
    ensures
        overlaps == exists|i: int|
            0 <= i < pins@.len() && pin_overlaps(
                #[trigger] pins@[i],
                sequence_start,
                sequence_end,
            ),
        forall|i: int, sequence: u64|
            #![trigger pins@[i], lies_between(sequence, sequence_start, sequence_end)]
            0 <= i < pins@.len() && lies_between(sequence, sequence_start, sequence_end)
                && lies_between(sequence, pins@[i].sequence_start, pins@[i].sequence_end)
                ==> overlaps,
        (forall|i: int|
            #![trigger pins@[i]]
            0 <= i < pins@.len() ==> pins@[i].sequence_end < sequence_start || sequence_end
                < pins@[i].sequence_start) ==> !overlaps,
{
    let n: usize = pins.len();
    for i in 0..n
        invariant
            n == pins@.len(),
            forall|j: int|
                0 <= j < i ==> !pin_overlaps(#[trigger] pins@[j], sequence_start, sequence_end),
    {
        let pin = pins[i];
        if pin.sequence_start <= sequence_end && sequence_start <= pin.sequence_end {
            assert(pin_overlaps(pins@[i as int], sequence_start, sequence_end));
            return true;
        }
    }
    false
}

/// A range is pinned where a listed pin overlaps it.
proof fn pinned_by_list(store: StoreModel, pins: Seq<ReplayPin>, start: u64, end: u64)
    requires
        lists_pins(store, pins),
    ensures
        is_pinned(store, start, end) == (exists|i: int|
            0 <= i < pins.len() && pin_overlaps(#[trigger] pins[i], start, end)),
{
    if is_pinned(store, start, end) {
        let pin = choose|pin: ReplayPin|
            #[trigger] pin_held(store, pin) && pin_overlaps(pin, start, end);
        assert(pins.contains(pin));
        let i = choose|i: int| 0 <= i < pins.len() && pins[i] == pin;
        assert(pin_overlaps(pins[i], start, end));
    }
    if exists|i: int| 0 <= i < pins.len() && pin_overlaps(#[trigger] pins[i], start, end) {
        let i = choose|i: int| 0 <= i < pins.len() && pin_overlaps(#[trigger] pins[i], start, end);
        assert(pins.contains(pins[i]));
        assert(pin_held(store, pins[i]));
    }
}

/// Tells whether a listed pin protects a sequence of the range.
pub(crate) fn pinned_in(
    Ghost(store): Ghost<StoreModel>,
    sequence_start: u64,
    sequence_end: u64,
    pins: &[ReplayPin],
) -> (pinned: bool)
    requires
        lists_pins(store, pins@),
    ensures
        pinned == is_pinned(store, sequence_start, sequence_end),
{
    proof {
        pinned_by_list(store, pins@, sequence_start, sequence_end);
    }
    overlaps_any_pin(sequence_start, sequence_end, pins)
}

/// The key of a sealed segment.
pub open spec fn summary_key(summary: SegmentSummary) -> SegmentKey {
    (summary.segment_id, summary.segment_generation)
}

/// The summaries of the sealed segments.
pub open spec fn sealed_summaries(state: RecorderState, store: StoreModel) -> Result<
    Seq<SegmentSummary>,
    ArchiveRecorderError,
> {
    if state.config.persistence_mode == PersistenceMode::Volatile || !store.has(
        ArchiveFile::Catalog,
    ) {
        Ok(Seq::empty())
    } else {
        catalog_entries(store)
    }
}

/// The state of a sealed segment, if any file of it is left.
pub open spec fn summary_state(store: StoreModel, summary: SegmentSummary) -> Option<
    ArchiveSegmentState,
> {
    match segment_tier(store, summary_key(summary)) {
        None => None,
        Some(tier) => Some(
            ArchiveSegmentState {
                segment_id: summary.segment_id,
                segment_generation: summary.segment_generation,
                sequence_start: summary.sequence_start,
                sequence_end: summary.sequence_end,
                records: summary.records,
                data_bytes_used: summary.data_bytes_used,
                tier,
                pinned: is_pinned(store, summary.sequence_start, summary.sequence_end),
            },
        ),
    }
}

/// `a` is listed before `b`: by first sequence, then by segment id, then by generation.
pub open spec fn listed_before(a: ArchiveSegmentState, b: ArchiveSegmentState) -> bool {
    a.sequence_start < b.sequence_start || (a.sequence_start == b.sequence_start && key_less(
        (a.segment_id, a.segment_generation),
        (b.segment_id, b.segment_generation),
    ))
}

/// Where `x` goes in `list`: behind the last state that is not listed after it.
pub open spec fn place_of(list: Seq<ArchiveSegmentState>, x: ArchiveSegmentState, n: int) -> int
    decreases n,
{
    if n <= 0 {
        0
    } else if listed_before(x, list[n - 1]) {
        place_of(list, x, n - 1)
    } else {
        n
    }
}

/// The states of the first `n` summaries, in order.
pub open spec fn ordered_states(store: StoreModel, summaries: Seq<SegmentSummary>, n: int) -> Seq<
    ArchiveSegmentState,
>
    decreases n,
{
    if n <= 0 {
        Seq::empty()
    } else {
        let before = ordered_states(store, summaries, n - 1);
        match summary_state(store, summaries[n - 1]) {
            None => before,
            Some(state) => before.insert(place_of(before, state, before.len() as int), state),
        }
    }
}

/// The states of the sealed segments, in order.
pub open spec fn segment_states(state: RecorderState, store: StoreModel) -> Result<
    Seq<ArchiveSegmentState>,
    ArchiveRecorderError,
> {
    match sealed_summaries(state, store) {
        Err(error) => Err(error),
        Ok(summaries) => Ok(ordered_states(store, summaries, summaries.len() as int)),
    }
}

/// The place in a list lies within it.
proof fn place_bounds(list: Seq<ArchiveSegmentState>, x: ArchiveSegmentState, n: int)
    requires
        0 <= n <= list.len(),
    ensures
        0 <= place_of(list, x, n) <= n,
        forall|k: int| place_of(list, x, n) <= k < n ==> listed_before(x, #[trigger] list[k]),
        place_of(list, x, n) > 0 ==> !listed_before(x, list[place_of(list, x, n) - 1]),
    decreases n,
{
    if n > 0 && listed_before(x, list[n - 1]) {
        place_bounds(list, x, n - 1);
    }
}

/// No state is listed before an earlier one.
pub open spec fn in_order(list: Seq<ArchiveSegmentState>) -> bool {
    forall|i: int, j: int|
        0 <= i < j < list.len() ==> !listed_before(#[trigger] list[j], #[trigger] list[i])
}

/// Segments are listed oldest first, and each listed state is that of a sealed segment of which
/// a file is left.
pub proof fn states_are_ordered(store: StoreModel, summaries: Seq<SegmentSummary>, n: int)
    requires
        0 <= n <= summaries.len(),
    ensures
        in_order(ordered_states(store, summaries, n)),
        forall|s: ArchiveSegmentState|
            #[trigger] ordered_states(store, summaries, n).contains(s) <==> exists|i: int|
                0 <= i < n && summary_state(store, #[trigger] summaries[i]) == Some(s),
    decreases n,
{
    let list = ordered_states(store, summaries, n);
    if n > 0 {
        states_are_ordered(store, summaries, n - 1);
        let before = ordered_states(store, summaries, n - 1);
        match summary_state(store, summaries[n - 1]) {
            None => {
                assert forall|s: ArchiveSegmentState| #[trigger] list.contains(s) <==> exists|
                    i: int,
                |
                    0 <= i < n && summary_state(store, #[trigger] summaries[i]) == Some(s) by {
                    if list.contains(s) {
                        assert(before.contains(s));
                        let i = choose|i: int|
                            0 <= i < n - 1 && summary_state(store, #[trigger] summaries[i]) == Some(
                                s,
                            );
                        assert(0 <= i < n && summary_state(store, summaries[i]) == Some(s));
                    }
                    if exists|i: int|
                        0 <= i < n && summary_state(store, #[trigger] summaries[i]) == Some(s) {
                        let i = choose|i: int|
                            0 <= i < n && summary_state(store, #[trigger] summaries[i]) == Some(s);
                        assert(0 <= i < n - 1);
                        assert(before.contains(s));
                    }
                }
            },
            Some(x) => {
                let at = place_of(before, x, before.len() as int);
                place_bounds(before, x, before.len() as int);
                assert(list == before.insert(at, x));
                assert forall|i: int, j: int| 0 <= i < j < list.len() implies !listed_before(
                    #[trigger] list[j],
                    #[trigger] list[i],
                ) by {
                    let bi = if i < at { i } else { i - 1 };
                    let bj = if j < at { j } else { j - 1 };
                    if i == at {
                        assert(listed_before(x, before[bj]));
                    } else if j == at {
                        if i < at - 1 {
                            assert(!listed_before(before[at - 1], before[i]));
                        }
                        assert(!listed_before(x, before[at - 1]));
                    } else {
                        assert(!listed_before(before[bj], before[bi]));
                    }
                }
                assert forall|s: ArchiveSegmentState| #[trigger] list.contains(s) <==> exists|
                    i: int,
                |
                    0 <= i < n && summary_state(store, #[trigger] summaries[i]) == Some(s) by {
                    if list.contains(s) {
                        let k = choose|k: int| 0 <= k < list.len() && list[k] == s;
                        if k == at {
                            assert(summary_state(store, summaries[n - 1]) == Some(s));
                        } else {
                            let bk = if k < at { k } else { k - 1 };
                            assert(before[bk] == s);
                            assert(before.contains(s));
                            let i = choose|i: int|
                                0 <= i < n - 1 && summary_state(store, #[trigger] summaries[i])
                                    == Some(s);
                            assert(0 <= i < n && summary_state(store, summaries[i]) == Some(s));
                        }
                    }
                    if exists|i: int|
                        0 <= i < n && summary_state(store, #[trigger] summaries[i]) == Some(s) {
                        let i = choose|i: int|
                            0 <= i < n && summary_state(store, #[trigger] summaries[i]) == Some(s);
                        if i == n - 1 {
                            assert(list[at] == s);
                        } else {
                            assert(before.contains(s));
                            let k = choose|k: int| 0 <= k < before.len() && before[k] == s;
                            assert(list[if k < at { k } else { k + 1 }] == s);
                        }
                    }
                }
            },
        }
    }
}

/// Tells whether `a` is listed before `b`.
fn goes_before(a: &ArchiveSegmentState, b: &ArchiveSegmentState) -> (before: bool)
    ensures
        before == listed_before(*a, *b),
{
    a.sequence_start < b.sequence_start || (a.sequence_start == b.sequence_start && (a.segment_id
        < b.segment_id || (a.segment_id == b.segment_id && a.segment_generation
        < b.segment_generation)))
}

impl RecorderState {
    /// Reads the summaries of the sealed segments.
    pub fn sealed_segment_summaries(&self, store: &ArchiveStore) -> (result: Result<
        Vec<SegmentSummary>,
        ArchiveRecorderError,
    >)
        ensures
            match result {
                Ok(summaries) => sealed_summaries(*self, store@) == Ok::<
                    Seq<SegmentSummary>,
                    ArchiveRecorderError,
                >(summaries@),
                Err(error) => sealed_summaries(*self, store@) == Err::<
                    Seq<SegmentSummary>,
                    ArchiveRecorderError,
                >(error),
            },
    {
        if self.config.persistence_mode == PersistenceMode::Volatile || !store.contains(
            ArchiveFile::Catalog,
        ) {
            let none: Vec<SegmentSummary> = Vec::new();
            assert(none@ =~= Seq::empty());
            return Ok(none);
        }
        read_catalog_entries(store)
    }

    /// Lists the sealed segments of which a file is left, oldest first.
    pub fn collect_segment_states(&self, store: &ArchiveStore) -> (result: Result<
        Vec<ArchiveSegmentState>,
        ArchiveRecorderError,
    >)
        ensures
            match result {
                Ok(states) => segment_states(*self, store@) == Ok::<
                    Seq<ArchiveSegmentState>,
                    ArchiveRecorderError,
                >(states@),
                Err(error) => segment_states(*self, store@) == Err::<
                    Seq<ArchiveSegmentState>,
                    ArchiveRecorderError,
                >(error),
            },
    {
        let summaries = match self.sealed_segment_summaries(store) {
            Ok(summaries) => summaries,
            Err(error) => {
                return Err(error);
            },
        };
        let pins = active_replay_pins(store);
        let mut states: Vec<ArchiveSegmentState> = Vec::new();
        let n: usize = summaries.len();
        for i in 0..n
            invariant
                n == summaries@.len(),
                lists_pins(store@, pins@),
                states@ == ordered_states(store@, summaries@, i as int),
        {
            let summary = summaries[i];
            if let Some(tier) = find_segment_tier(
                store,
                summary.segment_id,
                summary.segment_generation,
            ) {
                let state = ArchiveSegmentState {
                    segment_id: summary.segment_id,
                    segment_generation: summary.segment_generation,
                    sequence_start: summary.sequence_start,
                    sequence_end: summary.sequence_end,
                    records: summary.records,
                    data_bytes_used: summary.data_bytes_used,
                    tier,
                    pinned: pinned_in(
                        Ghost(store@),
                        summary.sequence_start,
                        summary.sequence_end,
                        &pins,
                    ),
                };
                let mut at: usize = states.len();
                while at > 0 && goes_before(&state, &states[at - 1])
                    invariant
                        at <= states@.len(),
                        place_of(states@, state, states@.len() as int) == place_of(
                            states@,
                            state,
                            at as int,
                        ),
                    decreases at,
                {
                    at = at - 1;
                }
                states.insert(at, state);
            }
        }
        Ok(states)
    }
}

/// The retention counters over the first `n` states.
pub open spec fn retention_counts(
    max_disk_bytes: Option<u64>,
    states: Seq<ArchiveSegmentState>,
    n: int,
) -> ArchiveRetentionStatus
    decreases n,
{
    if n <= 0 {
        ArchiveRetentionStatus {
            max_disk_bytes,
            retained_bytes_total: 0,
            retained_bytes_hot_attached: 0,
            retained_bytes_cold_detached: 0,
            segments_hot_attached: 0,
            segments_cold_detached: 0,
            pinned_segments: 0,
        }
    } else {
        let before = retention_counts(max_disk_bytes, states, n - 1);
        let state = states[n - 1];
        let total = ArchiveRetentionStatus {
            retained_bytes_total: saturating_sum(
                before.retained_bytes_total,
                state.data_bytes_used as int,
            ),
            pinned_segments: (before.pinned_segments + if state.pinned {
                1int
            } else {
                0
            }) as usize,
            ..before
        };
        match state.tier {
            ArchiveSegmentTier::HotAttached => ArchiveRetentionStatus {
                segments_hot_attached: (before.segments_hot_attached + 1) as usize,
                retained_bytes_hot_attached: saturating_sum(
                    before.retained_bytes_hot_attached,
                    state.data_bytes_used as int,
                ),
                ..total
            },
            ArchiveSegmentTier::ColdDetached => ArchiveRetentionStatus {
                segments_cold_detached: (before.segments_cold_detached + 1) as usize,
                retained_bytes_cold_detached: saturating_sum(
                    before.retained_bytes_cold_detached,
                    state.data_bytes_used as int,
                ),
                ..total
            },
        }
    }
}

/// The retention counters of an archive.
pub open spec fn retention(state: RecorderState, store: StoreModel) -> Result<
    ArchiveRetentionStatus,
    ArchiveRecorderError,
> {
    let cap = state.config.max_disk_bytes;
    if state.config.persistence_mode == PersistenceMode::Volatile {
        Ok(retention_counts(cap, Seq::empty(), 0))
    } else {
        match segment_states(state, store) {
            Err(error) => Err(error),
            Ok(states) => Ok(retention_counts(cap, states, states.len() as int)),
        }
    }
}

impl Default for ArchiveRetentionStatus {
    fn default() -> (status: Self)
        ensures
            status == retention_counts(None, Seq::empty(), 0),
    {
        ArchiveRetentionStatus {
            max_disk_bytes: None,
            retained_bytes_total: 0,
            retained_bytes_hot_attached: 0,
            retained_bytes_cold_detached: 0,
            segments_hot_attached: 0,
            segments_cold_detached: 0,
            pinned_segments: 0,
        }
    }
}

/// Counts the states by tier and pins.
pub fn count_retention(max_disk_bytes: Option<u64>, states: &[ArchiveSegmentState]) -> (status:
    ArchiveRetentionStatus)
    ensures
        status == retention_counts(max_disk_bytes, states@, states@.len() as int),
{
    let mut status = ArchiveRetentionStatus::default();
    status.max_disk_bytes = max_disk_bytes;
    let n: usize = states.len();
    for i in 0..n
        invariant
            n == states@.len(),
            status == retention_counts(max_disk_bytes, states@, i as int),
            status.pinned_segments <= i,
            status.segments_hot_attached <= i,
            status.segments_cold_detached <= i,
    {
        let state = states[i];
        status.retained_bytes_total =
        bounded_sum(status.retained_bytes_total, state.data_bytes_used);
        if state.pinned {
            status.pinned_segments = status.pinned_segments + 1;
        }
        match state.tier {
            ArchiveSegmentTier::HotAttached => {
                status.segments_hot_attached = status.segments_hot_attached + 1;
                status.retained_bytes_hot_attached =
                bounded_sum(status.retained_bytes_hot_attached, state.data_bytes_used);
            },
            ArchiveSegmentTier::ColdDetached => {
                status.segments_cold_detached = status.segments_cold_detached + 1;
                status.retained_bytes_cold_detached =
                bounded_sum(status.retained_bytes_cold_detached, state.data_bytes_used);
            },
        }
    }
    status
}

/// The index of the records of a recorder, in order of their sequences.
pub type SequenceIndex = Vec<(u64, ArchiveLocator)>;

/// The index without the sequences of a range.
pub open spec fn without_range(
    index: Seq<(u64, ArchiveLocator)>,
    sequence_start: u64,
    sequence_end: u64,
) -> Seq<(u64, ArchiveLocator)> {
    index.filter(|entry: (u64, ArchiveLocator)| !(sequence_start <= entry.0 <= sequence_end))
}

/// Removes the sequences of a range from the index.
pub fn remove_sequence_range(index: &mut SequenceIndex, sequence_start: u64, sequence_end: u64)
    ensures
        final(index)@ == without_range(old(index)@, sequence_start, sequence_end),
{
    let mut kept: SequenceIndex = Vec::new();
    let n: usize = index.len();
    let ghost outside = |entry: (u64, ArchiveLocator)|
        !(sequence_start <= entry.0 <= sequence_end);
    assert(index@.subrange(0, 0).filter(outside) =~= Seq::empty()) by {
        reveal(Seq::filter);
    }
    for i in 0..n
        invariant
            n == index@.len(),
            index@ == old(index)@,
            outside == (|entry: (u64, ArchiveLocator)|
                !(sequence_start <= entry.0 <= sequence_end)),
            kept@ == index@.subrange(0, i as int).filter(outside),
    {
        let entry = index[i];
        proof {
            let longer = index@.subrange(0, i + 1);
            assert(longer.drop_last() =~= index@.subrange(0, i as int));
            assert(longer.last() == entry);
            reveal(Seq::filter);
        }
        if entry.0 < sequence_start || entry.0 > sequence_end {
            kept.push(entry);
        }
    }
    assert(index@.subrange(0, n as int) =~= index@);
    *index = kept;
}

} // verus!
