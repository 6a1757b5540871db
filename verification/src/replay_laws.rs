//! What a whole replay promises.

use crate::adapter::ADAPTER_USER_HEADER_MAGIC;
use crate::bytes::u16_at;
use crate::command::{CommandFailure, Roots};
use crate::error::ArchiveReplayError;
use crate::frame::frame_at;
use crate::replay_tool::{
    destination_of, direct_selectors_of, emitted, error_limit, missed, paced, rate_problem,
    run_step, ReplayCounters, ReplayDestination, ReplayPacer, ReplayPause, ReplayRateMode,
    ReplaySelector, RunModel,
};
use crate::replayer::ReplayerModel;
use crate::replayer_laws::{
    batch_is_as_long_as_the_budget_allows, in_sequence, seek_finds_the_first_sequence_reached,
    sequence_finds_the_entry_that_has_it,
};
use crate::selectors::Selector;
use crate::store::StoreModel;
use crate::types::FrameModel;
use vstd::prelude::*;

verus! {

/// The pacer of a replay before its first record.
pub open spec fn new_pacer(mode: ReplayRateMode, max_recorded_gap_ms: u64) -> ReplayPacer {
    ReplayPacer { mode, max_recorded_gap_ms, last_event_time_ns: None, emitted_records: 0 }
}

/// The pauses before a series of records with these event times, in order.
pub open spec fn pauses(pacer: ReplayPacer, event_times_ns: Seq<u64>) -> Seq<ReplayPause>
    decreases event_times_ns.len(),
{
    if event_times_ns.len() == 0 {
        Seq::empty()
    } else {
        let (behind, pause) = paced(pacer, event_times_ns.first());
        seq![pause] + pauses(behind, event_times_ns.drop_first())
    }
}

/// How many of the pauses are fixed intervals.
pub open spec fn intervals(pauses: Seq<ReplayPause>) -> int
    decreases pauses.len(),
{
    if pauses.len() == 0 {
        0
    } else {
        intervals(pauses.drop_last()) + if pauses.last() == ReplayPause::FixedInterval {
            1int
        } else {
            0
        }
    }
}

/// There is a pause for each record, and the pauses behind the first are those of the pacer behind
/// it.
proof fn pauses_shape(pacer: ReplayPacer, times: Seq<u64>)
    ensures
        pauses(pacer, times).len() == times.len(),
        times.len() > 0 ==> pauses(pacer, times)[0] == paced(pacer, times[0]).1,
        forall|i: int|
            0 < i < times.len() ==> #[trigger] pauses(pacer, times)[i] == pauses(
                paced(pacer, times[0]).0,
                times.drop_first(),
            )[i - 1],
    decreases times.len(),
{
    if times.len() > 0 {
        pauses_shape(paced(pacer, times[0]).0, times.drop_first());
    }
}

/// Behind the first record a fixed rate pauses before each.
proof fn fixed_rate_goes_on(pacer: ReplayPacer, times: Seq<u64>)
    requires
        pacer.mode == ReplayRateMode::Fixed,
        pacer.emitted_records > 0,
    ensures
        forall|i: int|
            0 <= i < times.len() ==> #[trigger] pauses(pacer, times)[i]
                == ReplayPause::FixedInterval,
    decreases times.len(),
{
    pauses_shape(pacer, times);
    if times.len() > 0 {
        fixed_rate_goes_on(paced(pacer, times[0]).0, times.drop_first());
    }
}

/// At a fixed rate the first record is emitted at once and each of the others after the interval, so
/// that `n` records take `n - 1` intervals, whatever their event times are.
pub proof fn fixed_rate_waits_between_records(max_recorded_gap_ms: u64, times: Seq<u64>)
    ensures
        ({
            let waits = pauses(new_pacer(ReplayRateMode::Fixed, max_recorded_gap_ms), times);
            &&& waits.len() == times.len()
            &&& times.len() > 0 ==> waits[0] == ReplayPause::NoPause
            &&& forall|i: int|
                0 < i < times.len() ==> #[trigger] waits[i] == ReplayPause::FixedInterval
            &&& times.len() > 0 ==> intervals(waits) == times.len() - 1
        }),
{
    let pacer = new_pacer(ReplayRateMode::Fixed, max_recorded_gap_ms);
    let waits = pauses(pacer, times);
    pauses_shape(pacer, times);
    if times.len() > 0 {
        let behind = paced(pacer, times[0]).0;
        fixed_rate_goes_on(behind, times.drop_first());
        pauses_shape(behind, times.drop_first());
        assert forall|i: int| 0 < i < times.len() implies #[trigger] waits[i]
            == ReplayPause::FixedInterval by {
            assert(waits[i] == pauses(behind, times.drop_first())[i - 1]);
        }
        intervals_after_first(waits);
    }
}

/// A pause of another kind and then fixed intervals count one less than they are.
proof fn intervals_after_first(waits: Seq<ReplayPause>)
    requires
        waits.len() > 0,
        waits[0] == ReplayPause::NoPause,
        forall|i: int|
            0 < i < waits.len() ==> #[trigger] waits[i] == ReplayPause::FixedInterval,
    ensures
        intervals(waits) == waits.len() - 1,
    decreases waits.len(),
{
    reveal_with_fuel(intervals, 2);
    if waits.len() > 1 {
        intervals_after_first(waits.drop_last());
    }
}

/// As fast as possible there is no pause before any record.
pub proof fn fast_replay_never_waits(pacer: ReplayPacer, times: Seq<u64>)
    requires
        pacer.mode == ReplayRateMode::Fast,
    ensures
        pauses(pacer, times).len() == times.len(),
        forall|i: int|
            0 <= i < times.len() ==> #[trigger] pauses(pacer, times)[i] == ReplayPause::NoPause,
    decreases times.len(),
{
    pauses_shape(pacer, times);
    if times.len() > 0 {
        fast_replay_never_waits(paced(pacer, times[0]).0, times.drop_first());
    }
}

/// The pause keeps the gap between two event times, up to a longest pause: none where the second
/// does not lie behind the first or the longest pause is zero, else the gap or the longest pause,
/// whichever is shorter.
pub open spec fn keeps_gap(
    pause: ReplayPause,
    earlier: u64,
    later: u64,
    max_recorded_gap_ms: u64,
) -> bool {
    match pause {
        ReplayPause::NoPause => later <= earlier || max_recorded_gap_ms == 0,
        ReplayPause::Nanoseconds(wait) => {
            &&& 0 < wait
            &&& earlier + wait <= later
            &&& wait <= 1_000_000 * max_recorded_gap_ms
            &&& earlier + wait == later || wait == 1_000_000 * max_recorded_gap_ms
        },
        ReplayPause::FixedInterval => false,
    }
}

/// At the recorded rate a pacer that has seen a record keeps the gap to it and all gaps behind.
proof fn recorded_rate_goes_on(pacer: ReplayPacer, times: Seq<u64>)
    requires
        pacer.mode == ReplayRateMode::Recorded,
        pacer.last_event_time_ns is Some,
    ensures
        times.len() > 0 ==> keeps_gap(
            pauses(pacer, times)[0],
            pacer.last_event_time_ns->Some_0,
            times[0],
            pacer.max_recorded_gap_ms,
        ),
        forall|i: int|
            0 < i < times.len() ==> keeps_gap(
                #[trigger] pauses(pacer, times)[i],
                times[i - 1],
                times[i],
                pacer.max_recorded_gap_ms,
            ),
    decreases times.len(),
{
    pauses_shape(pacer, times);
    if times.len() > 0 {
        let rest = times.drop_first();
        let behind = paced(pacer, times[0]).0;
        recorded_rate_goes_on(behind, rest);
        assert forall|i: int| 0 < i < times.len() implies keeps_gap(
            #[trigger] pauses(pacer, times)[i],
            times[i - 1],
            times[i],
            pacer.max_recorded_gap_ms,
        ) by {
            assert(pauses(pacer, times)[i] == pauses(behind, rest)[i - 1]);
            assert(rest[i - 1] == times[i]);
            if i > 1 {
                assert(rest[i - 2] == times[i - 1]);
            }
        }
    }
}

/// At the recorded rate the first record is emitted at once, and the pause before each of the others
/// is what lay between its event and the one before, up to the longest pause.
pub proof fn recorded_rate_keeps_gaps(max_recorded_gap_ms: u64, times: Seq<u64>)
    ensures
        ({
            let waits = pauses(new_pacer(ReplayRateMode::Recorded, max_recorded_gap_ms), times);
            &&& waits.len() == times.len()
            &&& times.len() > 0 ==> waits[0] == ReplayPause::NoPause
            &&& forall|i: int|
                0 < i < times.len() ==> keeps_gap(
                    #[trigger] waits[i],
                    times[i - 1],
                    times[i],
                    max_recorded_gap_ms,
                )
        }),
{
    let pacer = new_pacer(ReplayRateMode::Recorded, max_recorded_gap_ms);
    let waits = pauses(pacer, times);
    pauses_shape(pacer, times);
    if times.len() > 0 {
        let behind = paced(pacer, times[0]).0;
        let rest = times.drop_first();
        recorded_rate_goes_on(behind, rest);
        assert forall|i: int| 0 < i < times.len() implies keeps_gap(
            #[trigger] waits[i],
            times[i - 1],
            times[i],
            max_recorded_gap_ms,
        ) by {
            assert(waits[i] == pauses(behind, rest)[i - 1]);
            assert(rest[i - 1] == times[i]);
            if i > 1 {
                assert(rest[i - 2] == times[i - 1]);
            }
        }
    }
}

/// A record that is not there counts once: as skipped where missing records are skipped, else as an
/// error. The replay fails exactly when an error brings them up to the limit.
pub proof fn missing_records_count_once(
    counters: ReplayCounters,
    missing: usize,
    skip_missing: bool,
    max_errors: usize,
    context: Seq<char>,
)
    requires
        counters.errors + missing <= usize::MAX,
        counters.skipped_missing + missing <= usize::MAX,
    ensures
        ({
            let (after, result) = missed(counters, missing, skip_missing, max_errors, context);
            &&& after.errors + after.skipped_missing == counters.errors + counters.skipped_missing
                + missing
            &&& skip_missing ==> after.errors == counters.errors
            &&& !skip_missing ==> after.skipped_missing == counters.skipped_missing
            &&& after.selected == counters.selected
            &&& after.emitted == counters.emitted
            &&& after.bytes_emitted == counters.bytes_emitted
            &&& result is Err <==> after.errors > counters.errors && after.errors >= max_errors
            &&& result is Err ==> result->Err_0 is NotAvailable
        }),
{
}

/// Without a limit of its own a replay fails on its first missing record, and one that skips
/// missing records never does.
pub proof fn missing_records_fail_unless_skipped(
    counters: ReplayCounters,
    missing: usize,
    skip_missing: bool,
    context: Seq<char>,
)
    requires
        missing > 0,
    ensures
        missed(
            counters,
            missing,
            skip_missing,
            error_limit(None, skip_missing),
            context,
        ).1 is Err <==> !skip_missing,
        forall|limit: usize| #[trigger] error_limit(Some(limit), skip_missing) == limit,
{
}

/// A record that is emitted counts once, with the bytes of its payload and of the user header that
/// its source wrote: all of it, or what stands behind the prefix of the adapter.
pub proof fn emitted_records_count_with_their_bytes(counters: ReplayCounters, frame: FrameModel)
    requires
        counters.emitted < usize::MAX,
        counters.bytes_emitted + frame.payload.len() + frame.user_header.len() <= usize::MAX,
    ensures
        ({
            let after = emitted(counters, frame);
            let header = frame.user_header;
            let bytes = after.bytes_emitted - counters.bytes_emitted - frame.payload.len();
            &&& after.emitted == counters.emitted + 1
            &&& after.selected == counters.selected
            &&& after.skipped_missing == counters.skipped_missing
            &&& after.errors == counters.errors
            &&& bytes == header.len() || bytes == header.len() - 40
            &&& bytes == header.len() - 40 ==> header.len() >= 40 && header.subrange(0, 4)
                == ADAPTER_USER_HEADER_MAGIC@
            &&& header.len() < 40 || header.subrange(0, 4) != ADAPTER_USER_HEADER_MAGIC@ ==> bytes
                == header.len()
            &&& header.len() >= 40 && header.subrange(0, 4) == ADAPTER_USER_HEADER_MAGIC@
                && u16_at(header, 4) == 40 && 1 <= header[8] <= 3 ==> bytes == header.len() - 40
        }),
{
}

/// A service is needed to publish and refused for the standard output, and one of white space is
/// none.
pub proof fn destination_needs_a_service_to_publish(
    to: ReplayDestination,
    service: Option<Seq<char>>,
)
    ensures
        destination_of(to, service) is Ok ==> destination_of(to, service)->Ok_0 == service,
        destination_of(to, service) is Ok <==> (to is PublishSubscribe <==> service is Some) && (
        service is Some ==> exists|i: int|
            0 <= i < service->Some_0.len() && !#[trigger] crate::text::is_white_space(
                service->Some_0[i],
            )),
        destination_of(to, service) is Err ==> destination_of(to, service)->Err_0 is InvalidInput,
{
}

/// A rate in records per second is needed for the fixed rate, is not zero, and is refused for the
/// other rates.
pub proof fn only_the_fixed_rate_takes_a_number(
    rate: ReplayRateMode,
    messages_per_sec: Option<u64>,
)
    ensures
        rate_problem(rate, messages_per_sec) is None <==> match messages_per_sec {
            Some(n) => rate is Fixed && n > 0,
            None => !(rate is Fixed),
        },
{
}

/// Replaying all selects every sequence of the archive once and in order. The other selectors name
/// one thing each, and a range of no records is refused.
pub proof fn selectors_name_what_the_option_says(selector: ReplaySelector, sequences: Seq<u64>)
    ensures
        match selector {
            ReplaySelector::All => {
                let list = direct_selectors_of(selector, sequences)->Ok_0->Some_0;
                &&& direct_selectors_of(selector, sequences) is Ok
                &&& direct_selectors_of(selector, sequences)->Ok_0 is Some
                &&& list.len() == sequences.len()
                &&& forall|i: int|
                    0 <= i < list.len() ==> #[trigger] list[i] == Selector::Sequence(sequences[i])
            },
            ReplaySelector::Sequence(option) => direct_selectors_of(selector, sequences) == Ok::<
                Option<Seq<Selector>>,
                CommandFailure,
            >(Some(seq![Selector::Sequence(option.at)])),
            ReplaySelector::Range(option) => match direct_selectors_of(selector, sequences) {
                Ok(list) => option.count > 0 && list == Some(
                    seq![Selector::Range { from: option.from, count: option.count }],
                ),
                Err(error) => option.count == 0 && error is InvalidInput,
            },
            ReplaySelector::Locator(_) => direct_selectors_of(selector, sequences) is Ok ==> ({
                let list = direct_selectors_of(selector, sequences)->Ok_0->Some_0;
                &&& direct_selectors_of(selector, sequences)->Ok_0 is Some
                &&& list.len() == 1
                &&& list[0] is Locator
                &&& list[0]->Locator_0.segment_generation > 0
            }),
            ReplaySelector::Selectors(_) => direct_selectors_of(selector, sequences) == Ok::<
                Option<Seq<Selector>>,
                CommandFailure,
            >(None),
        },
{
}

/// A selected sequence gives the frame at the locator of the entry that has the sequence, and
/// counts as missing exactly where no entry has it.
pub proof fn selected_sequence_gives_its_record(
    run: RunModel,
    store: StoreModel,
    replayer: ReplayerModel,
    roots: Roots,
    sequence: u64,
)
    requires
        in_sequence(replayer.index),
        run.range is None,
        run.place < run.selectors.len() <= usize::MAX,
        run.selectors[run.place as int] == Selector::Sequence(sequence),
        run.counters.selected < usize::MAX,
        run.counters.errors < usize::MAX,
        run.counters.skipped_missing < usize::MAX,
    ensures
        ({
            let (after, result) = run_step(run, store, replayer, roots);
            let before = run.counters;
            let counted = after.counters.errors + after.counters.skipped_missing - before.errors
                - before.skipped_missing;
            &&& after.place == run.place + 1
            &&& after.selectors == run.selectors
            &&& after.range is None
            &&& after.counters.selected == before.selected + 1
            &&& after.counters.emitted == before.emitted
            &&& counted == 0 || counted == 1
            &&& counted == 1 <==> forall|i: int|
                0 <= i < replayer.index.len() ==> #[trigger] replayer.index[i].sequence != sequence
            &&& counted == 0 && result is Ok ==> {
                let frames = result->Ok_0->Some_0;
                &&& result->Ok_0 is Some
                &&& frames.len() == 1
                &&& exists|i: int|
                    0 <= i < replayer.index.len() && #[trigger] replayer.index[i].sequence
                        == sequence && frames[0].locator == replayer.index[i].locator
            }
            &&& counted == 1 && result is Ok ==> result->Ok_0 == Some(Seq::<FrameModel>::empty())
        }),
{
    sequence_finds_the_entry_that_has_it(replayer.index, sequence);
    if let Some(entry) = crate::replayer::indexed_entry(replayer.index, sequence) {
        let i = choose|i: int| 0 <= i < replayer.index.len() && replayer.index[i] == entry;
        assert(replayer.index[i].sequence == sequence);
        if crate::replayer::entry_frame(store, entry, replayer.verify) is Ok {
            crate::replayer::entry_frame_locator(store, entry, replayer.verify);
        }
    }
}

/// A selected locator gives the frame that stands there. Only a segment whose data is not there
/// counts as missing.
pub proof fn selected_locator_gives_its_record(
    run: RunModel,
    store: StoreModel,
    replayer: ReplayerModel,
    roots: Roots,
)
    requires
        run.range is None,
        run.place < run.selectors.len() <= usize::MAX,
        run.selectors[run.place as int] is Locator,
        run.selectors[run.place as int]->Locator_0.segment_generation > 0,
        run.counters.selected < usize::MAX,
        run.counters.errors < usize::MAX,
        run.counters.skipped_missing < usize::MAX,
    ensures
        ({
            let (after, result) = run_step(run, store, replayer, roots);
            let before = run.counters;
            let counted = after.counters.errors + after.counters.skipped_missing - before.errors
                - before.skipped_missing;
            let read = frame_at(
                store,
                run.selectors[run.place as int]->Locator_0,
                replayer.verify,
            );
            &&& after.place == run.place + 1
            &&& after.range is None
            &&& after.counters.selected == before.selected + 1
            &&& after.counters.emitted == before.emitted
            &&& match read {
                Ok(frame) => counted == 0 && result == Ok::<
                    Option<Seq<FrameModel>>,
                    CommandFailure,
                >(Some(seq![frame])),
                Err(ArchiveReplayError::MissingSegment(_)) => counted == 1,
                Err(_) => counted == 0 && result is Err,
            }
        }),
{
}

/// A step within a range hands out records that follow one another in the index, from the first
/// whose sequence the range has reached on, at most as many as are left and at most a thousand and
/// twenty-four. The range goes on behind the last of them, and ends where the index holds no more.
pub proof fn range_goes_on_behind_its_last_record(
    run: RunModel,
    store: StoreModel,
    replayer: ReplayerModel,
    roots: Roots,
)
    requires
        in_sequence(replayer.index),
        run.range is Some,
        run.range->Some_0.next is Some,
        run.range->Some_0.found + run.range->Some_0.remaining <= usize::MAX,
        run_step(run, store, replayer, roots).1 is Ok,
        run_step(run, store, replayer, roots).0.range is Some,
    ensures
        ({
            let (after, result) = run_step(run, store, replayer, roots);
            let frames = result->Ok_0->Some_0;
            let before = run.range->Some_0;
            let now = after.range->Some_0;
            let index = replayer.index;
            &&& result->Ok_0 is Some
            &&& 0 < frames.len() <= before.remaining
            &&& frames.len() <= 1024
            &&& exists|at: int|
                {
                    &&& 0 <= at
                    &&& at + frames.len() <= index.len()
                    &&& #[trigger] index[at].sequence >= before.next->Some_0
                    &&& forall|i: int|
                        0 <= i < at ==> #[trigger] index[i].sequence < before.next->Some_0
                    &&& forall|k: int|
                        0 <= k < frames.len() ==> (#[trigger] frames[k]).locator == index[at
                            + k].locator
                }
            &&& now.remaining == before.remaining - frames.len()
            &&& now.found == before.found + frames.len()
            &&& now.from == before.from
            &&& now.count == before.count
            &&& now.next is Some ==> now.next->Some_0 == frames.last().sequence + 1
            &&& now.next is None ==> frames.last().sequence == u64::MAX
            &&& after.counters == run.counters
            &&& after.place == run.place
        }),
{
    let progress = run.range->Some_0;
    let next = progress.next->Some_0;
    let index = replayer.index;
    let at = crate::order::lower_bound_of(crate::replayer::all_sequences(index), next);
    seek_finds_the_first_sequence_reached(index, next);
    let size = crate::replay_tool::batch_size(progress.remaining);
    batch_is_as_long_as_the_budget_allows(
        store,
        index,
        at,
        size,
        replayer.budget,
        replayer.verify,
    );
    assert(index[at].sequence >= next);
}

} // verus!
