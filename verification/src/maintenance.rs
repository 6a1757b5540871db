//! Pins, tiers and trimming: the operations on sealed segments that a recorder offers.

use crate::error::{ArchiveDirectory, ArchiveFile, ArchiveRecorderError};
use crate::recorder::{ArchiveRecorder, Outcome, RecorderModel};
use crate::retention::{
    active_replay_pins, attached, count_retention, detached, detached_deleted, is_pinned,
    lists_pins, pinned_in, retention, sealed_summaries, segment_states, summary_key, without_range,
};
use crate::state::RecorderState;
use crate::store::{ArchiveStore, StoreModel};
use crate::summary::SegmentSummary;
use crate::types::{
    ArchiveLocator, ArchiveRetentionStatus, ArchiveSegmentState, PersistenceMode, ReplayPin,
};
use vstd::prelude::*;

verus! {

/// Number of pin ids that are tried.
pub const PIN_ATTEMPTS: u64 = 1024;

/// The pin that is tried at an attempt.
pub open spec fn pin_candidate(
    now_ns: u64,
    attempt: u64,
    sequence_start: u64,
    sequence_end: u64,
) -> ReplayPin {
    ReplayPin { pin_id: now_ns.wrapping_add(attempt), sequence_start, sequence_end }
}

/// The first pin from an attempt on that is not taken.
pub open spec fn free_pin(
    store: StoreModel,
    now_ns: u64,
    attempt: u64,
    sequence_start: u64,
    sequence_end: u64,
) -> Option<ReplayPin>
    decreases 1024 - attempt,
{
    let pin = pin_candidate(now_ns, attempt, sequence_start, sequence_end);
    if attempt >= 1024 {
        None
    } else if !store.has(ArchiveFile::Pin { pin }) {
        Some(pin)
    } else {
        free_pin(store, now_ns, (attempt + 1) as u64, sequence_start, sequence_end)
    }
}

/// Creates the marker file of the first pin that is not taken.
pub fn create_pin_file(
    store: &mut ArchiveStore,
    now_ns: u64,
    sequence_start: u64,
    sequence_end: u64,
) -> (pin: Option<ReplayPin>)
    ensures
        final(store).base() == old(store).base(),
        pin == free_pin(old(store)@, now_ns, 0, sequence_start, sequence_end),
        match pin {
            Some(pin) => final(store)@ == old(store)@.with_empty(ArchiveFile::Pin { pin }),
            None => final(store)@ == old(store)@,
        },
{
    let mut attempt: u64 = 0;
    while attempt < PIN_ATTEMPTS
        invariant
            attempt <= 1024,
            store.base() == old(store).base(),
            store@ == old(store)@,
            free_pin(store@, now_ns, 0, sequence_start, sequence_end) == free_pin(
                store@,
                now_ns,
                attempt,
                sequence_start,
                sequence_end,
            ),
        decreases 1024 - attempt,
    {
        let pin = ReplayPin {
            pin_id: now_ns.wrapping_add(attempt),
            sequence_start,
            sequence_end,
        };
        match store.create_new(ArchiveFile::Pin { pin }, "create replay pin file") {
            Ok(()) => {
                return Some(pin);
            },
            Err(_) => {
                attempt = attempt + 1;
            },
        }
    }
    None
}

/// What creating a pin makes of the store, and what comes of it.
pub open spec fn pin_begun(
    state: RecorderState,
    store: StoreModel,
    sequence_start: u64,
    sequence_end: u64,
    now_ns: u64,
) -> (StoreModel, Result<ReplayPin, ArchiveRecorderError>) {
    let opened = store.with_directory(ArchiveDirectory::Pins);
    if state.config.persistence_mode == PersistenceMode::Volatile {
        (
            store,
            Err(
                ArchiveRecorderError::InvalidConfiguration(
                    "replay pins require persisted archive mode",
                ),
            ),
        )
    } else if sequence_start > sequence_end {
        (
            store,
            Err(
                ArchiveRecorderError::InvalidConfiguration(
                    "replay pin requires sequence_start <= sequence_end",
                ),
            ),
        )
    } else {
        match free_pin(opened, now_ns, 0, sequence_start, sequence_end) {
            None => (
                opened,
                Err(
                    ArchiveRecorderError::InvalidConfiguration(
                        "unable to allocate unique replay pin id",
                    ),
                ),
            ),
            Some(pin) => (opened.with_empty(ArchiveFile::Pin { pin }), Ok(pin)),
        }
    }
}

/// The store without a pin.
pub open spec fn pin_released(store: StoreModel, pin: ReplayPin) -> StoreModel {
    if store.has(ArchiveFile::Pin { pin }) {
        store.without(ArchiveFile::Pin { pin })
    } else {
        store
    }
}

/// The segment lies before a sequence and no pin protects it.
pub open spec fn may_leave(pins: StoreModel, summary: SegmentSummary, before: u64) -> bool {
    summary.sequence_end < before && !is_pinned(
        pins,
        summary.sequence_start,
        summary.sequence_end,
    )
}

/// The first `n` segments are detached where they may leave. Counts those that moved.
pub open spec fn detach_pass(
    state: RecorderState,
    store: StoreModel,
    summaries: Seq<SegmentSummary>,
    before: u64,
    n: int,
) -> (StoreModel, u64)
    decreases n,
{
    if n <= 0 {
        (store, 0)
    } else {
        let (rest, count) = detach_pass(state, store, summaries, before, n - 1);
        if may_leave(store, summaries[n - 1], before) {
            let (moved, changed) = detached(state, rest, summary_key(summaries[n - 1]));
            (
                moved,
                if changed {
                    (count + 1) as u64
                } else {
                    count
                },
            )
        } else {
            (rest, count)
        }
    }
}

/// The first `n` segments are attached. Counts those that moved.
pub open spec fn attach_pass(
    state: RecorderState,
    store: StoreModel,
    summaries: Seq<SegmentSummary>,
    n: int,
) -> (StoreModel, u64)
    decreases n,
{
    if n <= 0 {
        (store, 0)
    } else {
        let (rest, count) = attach_pass(state, store, summaries, n - 1);
        let (moved, changed) = attached(state, rest, summary_key(summaries[n - 1]));
        (
            moved,
            if changed {
                (count + 1) as u64
            } else {
                count
            },
        )
    }
}

/// What the deletion of detached segments has left.
pub struct DeleteProgress {
    pub index: Seq<(u64, ArchiveLocator)>,
    pub store: StoreModel,
    pub count: u64,
}

/// The first `n` segments are deleted where they are detached and may leave.
pub open spec fn delete_pass(
    state: RecorderState,
    start: DeleteProgress,
    summaries: Seq<SegmentSummary>,
    before: u64,
    n: int,
) -> DeleteProgress
    decreases n,
{
    if n <= 0 {
        start
    } else {
        let rest = delete_pass(state, start, summaries, before, n - 1);
        let summary = summaries[n - 1];
        if may_leave(start.store, summary, before) {
            let (left, deleted) = detached_deleted(state, rest.store, summary_key(summary));
            if deleted {
                DeleteProgress {
                    index: without_range(
                        rest.index,
                        summary.sequence_start,
                        summary.sequence_end,
                    ),
                    store: left,
                    count: (rest.count + 1) as u64,
                }
            } else {
                DeleteProgress { store: left, ..rest }
            }
        } else {
            rest
        }
    }
}

/// What detaching all segments before a sequence leaves behind.
pub open spec fn detached_before(recorder: RecorderModel, store: StoreModel, before: u64) -> Outcome<
    u64,
> {
    match sealed_summaries(recorder.state, store) {
        Err(error) => Outcome { recorder, store, result: Err(error) },
        Ok(summaries) => {
            let (rest, count) = detach_pass(
                recorder.state,
                store,
                summaries,
                before,
                summaries.len() as int,
            );
            Outcome { recorder, store: rest, result: Ok(count) }
        },
    }
}

/// What attaching all detached segments leaves behind.
pub open spec fn all_attached(recorder: RecorderModel, store: StoreModel) -> Outcome<u64> {
    match sealed_summaries(recorder.state, store) {
        Err(error) => Outcome { recorder, store, result: Err(error) },
        Ok(summaries) => {
            let (rest, count) = attach_pass(
                recorder.state,
                store,
                summaries,
                summaries.len() as int,
            );
            Outcome { recorder, store: rest, result: Ok(count) }
        },
    }
}

/// What deleting all detached segments before a sequence leaves behind.
pub open spec fn deleted_before(recorder: RecorderModel, store: StoreModel, before: u64) -> Outcome<
    u64,
> {
    match sealed_summaries(recorder.state, store) {
        Err(error) => Outcome { recorder, store, result: Err(error) },
        Ok(summaries) => {
            let end = delete_pass(
                recorder.state,
                DeleteProgress { index: recorder.index, store, count: 0 },
                summaries,
                before,
                summaries.len() as int,
            );
            Outcome {
                recorder: RecorderModel { index: end.index, ..recorder },
                store: end.store,
                result: Ok(end.count),
            }
        },
    }
}

/// What trimming before a sequence leaves behind: matching segments are detached, then deleted.
pub open spec fn trimmed_before(recorder: RecorderModel, store: StoreModel, before: u64) -> Outcome<
    u64,
> {
    let first = detached_before(recorder, store, before);
    match first.result {
        Err(error) => first,
        Ok(_) => deleted_before(first.recorder, first.store, before),
    }
}

impl ArchiveRecorder {
    /// Returns retention/tier status for admin surfaces.
    pub fn retention_status(&self, store: &ArchiveStore) -> (result: Result<
        ArchiveRetentionStatus,
        ArchiveRecorderError,
    >)
        ensures
            result == retention(self@.state, store@),
    {
        let state = self.state();
        if state.config.persistence_mode == PersistenceMode::Volatile {
            let none: Vec<ArchiveSegmentState> = Vec::new();
            assert(none@ =~= Seq::empty());
            return Ok(count_retention(state.config.max_disk_bytes, &none));
        }
        match state.collect_segment_states(store) {
            Ok(states) => Ok(count_retention(state.config.max_disk_bytes, &states)),
            Err(error) => Err(error),
        }
    }

    /// Lists sealed segment tier state and pin overlap.
    pub fn list_segments(&self, store: &ArchiveStore) -> (result: Result<
        Vec<ArchiveSegmentState>,
        ArchiveRecorderError,
    >)
        ensures
            match result {
                Ok(states) => segment_states(self@.state, store@) == Ok::<
                    Seq<ArchiveSegmentState>,
                    ArchiveRecorderError,
                >(states@),
                Err(error) => segment_states(self@.state, store@) == Err::<
                    Seq<ArchiveSegmentState>,
                    ArchiveRecorderError,
                >(error),
            },
    {
        self.state().collect_segment_states(store)
    }

    /// Creates an explicit replay pin for `[sequence_start, sequence_end]`.
    pub fn begin_replay_pin(
        &self,
        store: &mut ArchiveStore,
        sequence_start: u64,
        sequence_end: u64,
        now_ns: u64,
    ) -> (result: Result<ReplayPin, ArchiveRecorderError>)
        ensures
            final(store).base() == old(store).base(),
            (final(store)@, result) == pin_begun(
                self@.state,
                old(store)@,
                sequence_start,
                sequence_end,
                now_ns,
            ),
    {
        if self.state().config.persistence_mode == PersistenceMode::Volatile {
            return Err(
                ArchiveRecorderError::InvalidConfiguration(
                    "replay pins require persisted archive mode",
                ),
            );
        }
        if sequence_start > sequence_end {
            return Err(
                ArchiveRecorderError::InvalidConfiguration(
                    "replay pin requires sequence_start <= sequence_end",
                ),
            );
        }
        store.create_directory(ArchiveDirectory::Pins, "create replay pin directory");
        match create_pin_file(store, now_ns, sequence_start, sequence_end) {
            Some(pin) => Ok(pin),
            None => Err(
                ArchiveRecorderError::InvalidConfiguration(
                    "unable to allocate unique replay pin id",
                ),
            ),
        }
    }

    /// Releases a previously created replay pin. Idempotent.
    pub fn release_replay_pin(&self, store: &mut ArchiveStore, pin: ReplayPin) -> (result: Result<
        (),
        ArchiveRecorderError,
    >)
        ensures
            final(store).base() == old(store).base(),
            result is Ok,
            final(store)@ == (if self@.state.config.persistence_mode == PersistenceMode::Volatile {
                old(store)@
            } else {
                pin_released(old(store)@, pin)
            }),
    {
        if self.state().config.persistence_mode != PersistenceMode::Volatile {
            let _ = store.remove(ArchiveFile::Pin { pin }, "remove replay pin file");
        }
        Ok(())
    }

    /// Detaches all sealed hot-attached segments with `sequence_end < before_sequence`.
    pub fn detach_before_sequence(&mut self, store: &mut ArchiveStore, before_sequence: u64) -> (
        result: Result<u64, ArchiveRecorderError>)
        ensures
            final(store).base() == old(store).base(),
            (Outcome { recorder: final(self)@, store: final(store)@, result }) == detached_before(
                old(self)@,
                old(store)@,
                before_sequence,
            ),
    {
        let state = self.state();
        let summaries = match state.sealed_segment_summaries(store) {
            Ok(summaries) => summaries,
            Err(error) => {
                return Err(error);
            },
        };
        let pins = active_replay_pins(store);
        let n: usize = summaries.len();
        let mut count: u64 = 0;
        for i in 0..n
            invariant
                n == summaries@.len(),
                store.base() == old(store).base(),
                lists_pins(old(store)@, pins@),
                count <= i,
                (store@, count) == detach_pass(
                    state,
                    old(store)@,
                    summaries@,
                    before_sequence,
                    i as int,
                ),
        {
            let summary = summaries[i];
            if summary.sequence_end < before_sequence && !pinned_in(
                Ghost(old(store)@),
                summary.sequence_start,
                summary.sequence_end,
                &pins,
            ) {
                if state.detach_segment(store, summary.segment_id, summary.segment_generation) {
                    count = count + 1;
                }
            }
        }
        Ok(count)
    }

    /// Attaches all detached sealed segments. Idempotent.
    pub fn attach_all_detached(&mut self, store: &mut ArchiveStore) -> (result: Result<
        u64,
        ArchiveRecorderError,
    >)
        ensures
            final(store).base() == old(store).base(),
            (Outcome { recorder: final(self)@, store: final(store)@, result }) == all_attached(
                old(self)@,
                old(store)@,
            ),
    {
        let state = self.state();
        let summaries = match state.sealed_segment_summaries(store) {
            Ok(summaries) => summaries,
            Err(error) => {
                return Err(error);
            },
        };
        let n: usize = summaries.len();
        let mut count: u64 = 0;
        for i in 0..n
            invariant
                n == summaries@.len(),
                store.base() == old(store).base(),
                count <= i,
                (store@, count) == attach_pass(state, old(store)@, summaries@, i as int),
        {
            let summary = summaries[i];
            if state.attach_segment(store, summary.segment_id, summary.segment_generation) {
                count = count + 1;
            }
        }
        Ok(count)
    }

    /// Deletes detached sealed segments with `sequence_end < before_sequence`.
    ///
    /// Segments overlapping active replay pins are skipped.
    pub fn delete_detached_before_sequence(
        &mut self,
        store: &mut ArchiveStore,
        before_sequence: u64,
    ) -> (result: Result<u64, ArchiveRecorderError>)
        ensures
            final(store).base() == old(store).base(),
            (Outcome { recorder: final(self)@, store: final(store)@, result }) == deleted_before(
                old(self)@,
                old(store)@,
                before_sequence,
            ),
    {
        let state = self.state();
        let summaries = match state.sealed_segment_summaries(store) {
            Ok(summaries) => summaries,
            Err(error) => {
                return Err(error);
            },
        };
        let pins = active_replay_pins(store);
        let ghost start = DeleteProgress { index: self@.index, store: store@, count: 0 };
        let n: usize = summaries.len();
        let mut count: u64 = 0;
        for i in 0..n
            invariant
                n == summaries@.len(),
                store.base() == old(store).base(),
                start.store == old(store)@,
                lists_pins(old(store)@, pins@),
                count <= i,
                self@.state == old(self)@.state,
                self@.volatile == old(self)@.volatile,
                (DeleteProgress { index: self@.index, store: store@, count }) == delete_pass(
                    state,
                    start,
                    summaries@,
                    before_sequence,
                    i as int,
                ),
        {
            let summary = summaries[i];
            if summary.sequence_end < before_sequence && !pinned_in(
                Ghost(old(store)@),
                summary.sequence_start,
                summary.sequence_end,
                &pins,
            ) {
                if state.delete_detached_segment(
                    store,
                    summary.segment_id,
                    summary.segment_generation,
                ) {
                    self.remove_sequence_index_for_segment(&summary);
                    count = count + 1;
                }
            }
        }
        Ok(count)
    }

    /// Trims by sequence boundary with deterministic oldest-first policy.
    ///
    /// This operation first detaches matching hot segments, then deletes detached segments.
    pub fn trim_before_sequence(&mut self, store: &mut ArchiveStore, before_sequence: u64) -> (
        result: Result<u64, ArchiveRecorderError>)
        ensures
            final(store).base() == old(store).base(),
            (Outcome { recorder: final(self)@, store: final(store)@, result }) == trimmed_before(
                old(self)@,
                old(store)@,
                before_sequence,
            ),
    {
        match self.detach_before_sequence(store, before_sequence) {
            Ok(_) => {},
            Err(error) => {
                return Err(error);
            },
        }
        self.delete_detached_before_sequence(store, before_sequence)
    }
}

} // verus!
