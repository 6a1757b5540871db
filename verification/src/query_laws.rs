//! What the answers to queries promise.

use crate::align::{AlignMode, MatchResult, MatchStatus, StampedRecord};
use crate::command::CommandFailure;
use crate::metadata::{MetadataCommitRecord, MetadataWatermark};
use crate::query_answer::{
    highest_committed, is_whole_range, locator_answer, locator_selectors, lowest_indexed,
    match_selector, range_answer, schema_step, sequence_answer, state_after_cycle, status_of,
    wanted_states, window_failure, IndexerStateModel, SchemaStep,
};
use crate::query_tool::{
    alignment, catch_up_problem, epoch_of, is_caught_up, owned_text, plan_of, query_window_of,
    range_problem, rfc3339_instant, run_problem, timeline_of, window_of, AlignWindowOptions,
    IndexCatchUpOptions, IndexCatchUpTarget, IndexRunOptions, LocateLocatorOptions,
    LocateRangeOptions, LocateSequenceOptions, LocateWindowOptions, PlanModel, QueryEmitMode,
};
use crate::selectors::Selector;
use crate::store::StoreModel;
use crate::text::is_white_space;
use crate::types::ArchiveLocator;
use vstd::prelude::*;

verus! {

/// The common horizon of streams is the lowest ordinal up to which one of them is indexed: all of
/// them are indexed up to it, and one of them no farther.
pub proof fn horizon_is_the_slowest_stream(states: Seq<IndexerStateModel>)
    requires
        states.len() > 0,
    ensures
        forall|i: int|
            0 <= i < states.len() ==> lowest_indexed(states, u64::MAX) <= (
            #[trigger] states[i]).last_indexed_commit_ordinal,
        exists|i: int|
            0 <= i < states.len() && lowest_indexed(states, u64::MAX) == (
            #[trigger] states[i]).last_indexed_commit_ordinal,
    decreases states.len(),
{
    let less = states.drop_last();
    let last = states.len() - 1;
    assert(states.last() == states[last]);
    reveal_with_fuel(lowest_indexed, 2);
    if less.len() > 0 {
        horizon_is_the_slowest_stream(less);
        let i = choose|i: int|
            0 <= i < less.len() && lowest_indexed(less, u64::MAX) == (
            #[trigger] less[i]).last_indexed_commit_ordinal;
        assert(states[i] == less[i]);
        assert forall|j: int| 0 <= j < states.len() implies lowest_indexed(states, u64::MAX) <= (
        #[trigger] states[j]).last_indexed_commit_ordinal by {
            if j < last {
                assert(states[j] == less[j]);
            }
        }
    }
}

/// The highest committed ordinal is that of one of the streams, and none is higher.
pub proof fn nothing_is_committed_above_the_highest(states: Seq<IndexerStateModel>)
    requires
        states.len() > 0,
    ensures
        forall|i: int|
            0 <= i < states.len() ==> (#[trigger] states[i]).last_commit_ordinal
                <= highest_committed(states),
        exists|i: int|
            0 <= i < states.len() && (#[trigger] states[i]).last_commit_ordinal
                == highest_committed(states),
    decreases states.len(),
{
    let less = states.drop_last();
    let last = states.len() - 1;
    assert(states.last() == states[last]);
    reveal_with_fuel(highest_committed, 2);
    if less.len() > 0 {
        nothing_is_committed_above_the_highest(less);
        let i = choose|i: int|
            0 <= i < less.len() && (#[trigger] less[i]).last_commit_ordinal == highest_committed(
                less,
            );
        assert(states[i] == less[i]);
        assert forall|j: int| 0 <= j < states.len() implies (
        #[trigger] states[j]).last_commit_ordinal <= highest_committed(states) by {
            if j < last {
                assert(states[j] == less[j]);
            }
        }
    }
}

/// A report without a stream name tells of all streams, one with a name of the streams of that name
/// and of no other.
pub proof fn reports_tell_of_the_streams_asked_for(
    states: Seq<IndexerStateModel>,
    stream_id: Option<Seq<char>>,
    state: IndexerStateModel,
    n: int,
)
    requires
        0 <= n <= states.len(),
    ensures
        stream_id is None ==> wanted_states(states, stream_id, n) == states.subrange(0, n),
        wanted_states(states, stream_id, n).contains(state) <==> states.subrange(0, n).contains(
            state,
        ) && (stream_id is None || stream_id->Some_0 == state.stream_id),
    decreases n,
{
    if n > 0 {
        reports_tell_of_the_streams_asked_for(states, stream_id, state, n - 1);
        let before = wanted_states(states, stream_id, n - 1);
        let after = wanted_states(states, stream_id, n);
        let less = states.subrange(0, n - 1);
        let more = states.subrange(0, n);
        assert(more =~= less.push(states[n - 1]));
        if more.contains(state) {
            let k = choose|k: int| 0 <= k < more.len() && more[k] == state;
            if k < n - 1 {
                assert(less[k] == state);
            }
        }
        if less.contains(state) {
            let k = choose|k: int| 0 <= k < less.len() && less[k] == state;
            assert(more[k] == state);
        }
        assert(more[n - 1] == states[n - 1]);
        if after.contains(state) && !before.contains(state) {
            let k = choose|k: int| 0 <= k < after.len() && after[k] == state;
            if k < before.len() {
                assert(before[k] == state);
            }
        }
        if before.contains(state) {
            let k = choose|k: int| 0 <= k < before.len() && before[k] == state;
            assert(after[k] == state);
        }
        if after.len() > before.len() {
            assert(after[after.len() - 1] == states[n - 1]);
        }
        if stream_id is None {
            assert(after =~= more);
        }
    } else {
        assert(states.subrange(0, 0).len() == 0);
        if stream_id is None {
            assert(wanted_states(states, stream_id, n) =~= states.subrange(0, n));
        }
    }
}

/// What is reported of a stream is its state, and the lag is what has to be indexed yet: indexed and
/// lagging commits together are the committed ones, where the index does not run ahead.
pub proof fn reported_lag_closes_the_gap(state: IndexerStateModel)
    ensures
        ({
            let report = status_of(state);
            &&& report.stream_id == state.stream_id
            &&& report.last_commit_ordinal == state.last_commit_ordinal
            &&& report.last_indexed_commit_ordinal == state.last_indexed_commit_ordinal
            &&& report.roll_file == state.roll_file
            &&& report.byte_offset == state.byte_offset
            &&& report.updated_at_ns == state.updated_at_ns
            &&& state.last_indexed_commit_ordinal <= state.last_commit_ordinal
                ==> report.last_indexed_commit_ordinal + report.lag_commits
                == report.last_commit_ordinal
            &&& state.last_indexed_commit_ordinal >= state.last_commit_ordinal
                ==> report.lag_commits == 0
        }),
{
}

/// The answer says that something is not indexed yet, and how far the index is.
pub open spec fn is_not_indexed_yet<T>(
    answer: Result<T, CommandFailure>,
    state: IndexerStateModel,
) -> bool {
    answer matches Err(CommandFailure::NotIndexedYet { query_watermark, last_commit_ordinal, .. })
        && query_watermark == state.last_indexed_commit_ordinal && last_commit_ordinal
        == state.last_commit_ordinal
}

/// A sequence that was found is selected by itself. One that was not found is not indexed yet where
/// the index lies behind the log and the sequence above all that is indexed; else it is not there.
pub proof fn sequence_is_answered(
    options: LocateSequenceOptions,
    found: bool,
    indexed_upper_bound: Option<u64>,
    state: IndexerStateModel,
)
    ensures
        ({
            let answer = sequence_answer(options, found, indexed_upper_bound, state);
            let above = match indexed_upper_bound {
                Some(upper) => options.at > upper,
                None => options.at > 0,
            };
            let behind = state.last_indexed_commit_ordinal < state.last_commit_ordinal;
            &&& found ==> answer == Ok::<Selector, CommandFailure>(Selector::Sequence(options.at))
            &&& !found && behind && above ==> is_not_indexed_yet(answer, state)
            &&& !found && !(behind && above) ==> answer matches Err(CommandFailure::NotAvailable(_))
        }),
{
}

/// A locator that was found is selected by itself. One that was not found is not indexed yet where
/// the index lies behind the log, else it is not there.
pub proof fn locator_is_answered(
    options: LocateLocatorOptions,
    locator: ArchiveLocator,
    found: bool,
    state: IndexerStateModel,
)
    ensures
        ({
            let answer = locator_answer(options, locator, found, state);
            let behind = state.last_indexed_commit_ordinal < state.last_commit_ordinal;
            &&& found ==> answer == Ok::<Selector, CommandFailure>(Selector::Locator(locator))
            &&& !found && behind ==> is_not_indexed_yet(answer, state)
            &&& !found && !behind ==> answer matches Err(CommandFailure::NotAvailable(_))
        }),
{
}

/// The record at each place has the sequence that many places behind the start.
pub open spec fn runs_from(from: u64, count: usize, records: Seq<MetadataCommitRecord>) -> bool {
    records.len() == count && forall|i: int|
        0 <= i < records.len() ==> (#[trigger] records[i]).sequence == from + i
}

/// A range is answered exactly where the records that were found run through it without a gap; then
/// it is selected as a whole, or by the locator of each record in order. Where it is not, it is not
/// indexed yet if the index lies behind and the last sequence of the range above all that is
/// indexed. The range lies below the highest sequence there is.
pub proof fn range_is_answered_whole(
    options: LocateRangeOptions,
    records: Seq<MetadataCommitRecord>,
    indexed_upper_bound: Option<u64>,
    state: IndexerStateModel,
)
    requires
        options.count > 0,
        options.from + options.count <= u64::MAX,
    ensures
        ({
            let answer = range_answer(options, records, indexed_upper_bound, state);
            let last = options.from + options.count - 1;
            let above = match indexed_upper_bound {
                Some(upper) => last > upper,
                None => last > 0,
            };
            let behind = state.last_indexed_commit_ordinal < state.last_commit_ordinal;
            &&& answer is Ok <==> runs_from(options.from, options.count, records)
            &&& answer is Ok && !options.expand_selectors ==> answer->Ok_0.len() == 1
                && answer->Ok_0[0] == (Selector::Range {
                from: options.from,
                count: options.count,
            })
            &&& answer is Ok && options.expand_selectors ==> answer->Ok_0.len() == records.len()
            &&& answer is Ok && options.expand_selectors ==> forall|i: int|
                0 <= i < records.len() ==> #[trigger] answer->Ok_0[i] == Selector::Locator(
                    records[i].locator,
                )
            &&& answer is Err && behind && above ==> is_not_indexed_yet(answer, state)
            &&& answer is Err && !(behind && above) ==> answer matches Err(
                CommandFailure::NotAvailable(_),
            )
        }),
{
    assert(is_whole_range(options.from, options.count as int, records) <==> runs_from(
        options.from,
        options.count,
        records,
    )) by {
        if is_whole_range(options.from, options.count as int, records) {
            assert forall|i: int| 0 <= i < records.len() implies (#[trigger] records[i]).sequence
                == options.from + i by {}
        }
        if runs_from(options.from, options.count, records) {
            assert forall|i: int| 0 <= i < options.count implies (
            #[trigger] records[i]).sequence == crate::query_answer::sequence_behind(
                options.from,
                i,
            ) by {}
        }
    }
}

/// Every record is selected by its own locator, in order.
pub proof fn records_are_selected_by_their_locators(records: Seq<MetadataCommitRecord>, i: int)
    requires
        0 <= i < records.len(),
    ensures
        locator_selectors(records).len() == records.len(),
        locator_selectors(records)[i] == Selector::Locator(records[i].locator),
{
}

/// A matched record is selected by its locator; a stream without a record selects nothing.
pub proof fn matches_are_selected_by_their_locators(found: MatchResult)
    ensures
        found.status == MatchStatus::Missing ==> match_selector(found) is None,
        found.record is None ==> match_selector(found) is None,
        found.status != MatchStatus::Missing && found.record is Some ==> match_selector(found)
            == Some(Selector::Locator(found.record->Some_0.locator)),
{
}

/// A window can be queried unless it ends behind the last indexed time while the index lies behind
/// the log.
pub proof fn window_waits_for_the_index(
    stream_id: Option<Seq<char>>,
    end_ns: u64,
    max_indexed_time: Option<u64>,
    state: IndexerStateModel,
)
    ensures
        ({
            let failure = window_failure(stream_id, end_ns, max_indexed_time, state);
            let behind = state.last_indexed_commit_ordinal < state.last_commit_ordinal;
            &&& !behind ==> failure is None
            &&& max_indexed_time is Some && end_ns <= max_indexed_time->Some_0 ==> failure is None
            &&& behind && max_indexed_time is None && end_ns > 0 ==> failure is Some
            &&& behind && max_indexed_time is Some && end_ns > max_indexed_time->Some_0
                ==> failure is Some
            &&& failure is Some ==> is_not_indexed_yet(
                Err::<(), CommandFailure>(failure->Some_0),
                state,
            )
        }),
{
}

/// A window that is given in nanoseconds is that window; it is refused where it ends before it
/// starts, or where it is given in both ways, in neither, or by halves.
pub proof fn window_is_what_was_asked_for(
    start_ns: Option<u64>,
    end_ns: Option<u64>,
    start_utc: Option<Seq<char>>,
    end_utc: Option<Seq<char>>,
)
    ensures
        ({
            let window = window_of(start_ns, end_ns, start_utc, end_utc);
            let in_ns = start_ns is Some && end_ns is Some && start_utc is None && end_utc is None;
            let in_utc = start_ns is None && end_ns is None && start_utc is Some
                && end_utc is Some;
            &&& window is Ok ==> window->Ok_0.0 <= window->Ok_0.1 && (in_ns || in_utc)
            &&& in_ns && start_ns->Some_0 <= end_ns->Some_0 ==> window == Ok::<
                (u64, u64),
                CommandFailure,
            >((start_ns->Some_0, end_ns->Some_0))
            &&& in_ns && start_ns->Some_0 > end_ns->Some_0 ==> window is Err
            &&& in_utc && window is Ok ==> {
                &&& rfc3339_instant(start_utc->Some_0) matches Ok(first) && first
                    == window->Ok_0.0
                &&& rfc3339_instant(end_utc->Some_0) matches Ok(last) && last == window->Ok_0.1
            }
        }),
{
}

/// A timestamp counts as its instant, where that is no earlier than the epoch and fits the range.
pub proof fn timestamps_are_their_instants(value: Seq<char>, parsed: Result<i128, Seq<char>>)
    ensures
        epoch_of(value, parsed) is Ok <==> parsed is Ok && 0 <= parsed->Ok_0 <= u64::MAX,
        epoch_of(value, parsed) is Ok ==> epoch_of(value, parsed)->Ok_0 == parsed->Ok_0,
{
}

/// A window query has the window that the options give, and none where rows of an alignment are to
/// be printed.
pub proof fn window_query_has_its_window(options: LocateWindowOptions)
    ensures
        options.emit == QueryEmitMode::Aligned ==> query_window_of(options) is Err,
        options.emit != QueryEmitMode::Aligned ==> query_window_of(options) == window_of(
            options.start_ns,
            options.end_ns,
            owned_text(options.start_utc),
            owned_text(options.end_utc),
        ),
{
}

/// A catch-up goes on exactly while it indexes something and has not reached its target: the last
/// ordinal that was committed when it began, or the last one that is committed now.
pub proof fn catch_up_goes_on_until_its_target(
    target: IndexCatchUpTarget,
    committed_at_start: u64,
    watermark: MetadataWatermark,
    processed: int,
)
    ensures
        processed == 0 ==> is_caught_up(target, committed_at_start, watermark, processed),
        target == IndexCatchUpTarget::Current && processed != 0 ==> (is_caught_up(
            target,
            committed_at_start,
            watermark,
            processed,
        ) <==> committed_at_start <= watermark.last_indexed_commit_ordinal),
        target == IndexCatchUpTarget::Latest && processed != 0 ==> (is_caught_up(
            target,
            committed_at_start,
            watermark,
            processed,
        ) <==> watermark.last_commit_ordinal <= watermark.last_indexed_commit_ordinal),
{
}

/// A database is used where all its schema versions can be used or it has none; where one cannot, it
/// is removed if that is allowed and refused if not. The versions are in order.
pub proof fn schema_fits_or_is_reset(
    db_path: Seq<char>,
    list: Seq<u32>,
    allow_reindex_reset: bool,
    supported: (u32, u32),
)
    requires
        forall|i: int, j: int|
            #![trigger list[i], list[j]]
            0 <= i < j < list.len() ==> list[i] <= list[j],
    ensures
        ({
            let step = schema_step(
                db_path,
                Ok::<Seq<u32>, Seq<char>>(list),
                allow_reindex_reset,
                supported,
            );
            let fits = forall|i: int|
                0 <= i < list.len() ==> supported.0 <= #[trigger] list[i] <= supported.1;
            &&& fits ==> step == Ok::<SchemaStep, CommandFailure>(SchemaStep::Proceed)
            &&& !fits && allow_reindex_reset ==> step == Ok::<SchemaStep, CommandFailure>(
                SchemaStep::Reset,
            )
            &&& !fits && !allow_reindex_reset ==> step is Err
        }),
{
    let fits = forall|i: int|
        0 <= i < list.len() ==> supported.0 <= #[trigger] list[i] <= supported.1;
    if list.len() > 0 {
        let last = list.len() - 1;
        assert(list.last() == list[last]);
        if supported.0 <= list[0] && list[last] <= supported.1 {
            assert forall|i: int| 0 <= i < list.len() implies supported.0 <= #[trigger] list[i]
                <= supported.1 by {
                if 0 < i {
                    assert(list[0] <= list[i]);
                }
                if i < last {
                    assert(list[i] <= list[last]);
                }
            }
        }
    }
}

/// A state that is stored after a cycle says how far the cycle got.
pub proof fn stored_state_tells_the_watermark(
    store: StoreModel,
    metadata_log_path: Seq<char>,
    stream_id: Seq<char>,
    log_id: Seq<u8>,
    watermark: MetadataWatermark,
    now_ns: u64,
    schema_version: u32,
)
    ensures
        state_after_cycle(
            store,
            metadata_log_path,
            stream_id,
            log_id,
            watermark,
            now_ns,
            schema_version,
        ) matches Ok(state) ==> {
            &&& state.stream_id == stream_id
            &&& state.log_id == log_id
            &&& state.last_commit_ordinal == watermark.last_commit_ordinal
            &&& state.last_indexed_commit_ordinal == watermark.last_indexed_commit_ordinal
            &&& state.updated_at_ns == now_ns
            &&& state.schema_version == schema_version
        },
{
}

/// An alignment is planned over the window that was asked for, with the limit that was asked for or
/// the highest one; the limit is at least one row. An anchor is one of the streams, and a grid has a
/// step above zero.
pub proof fn plan_keeps_what_was_asked_for(options: AlignWindowOptions)
    ensures
        plan_of(options) matches Ok(plan) ==> {
            &&& window_of(
                options.start_ns,
                options.end_ns,
                owned_text(options.start_utc),
                owned_text(options.end_utc),
            ) == Ok::<(u64, u64), CommandFailure>((plan.start_ns, plan.end_ns))
            &&& plan.start_ns <= plan.end_ns
            &&& 1 <= plan.limit <= 1_000_000
            &&& options.limit matches Some(limit) ==> plan.limit == limit
            &&& options.limit is None ==> plan.limit == 1_000_000
            &&& options.mode == AlignMode::Anchor ==> (options.anchor_stream matches Some(anchor)
                && plan.streams.contains(anchor@))
            &&& options.mode == AlignMode::Grid ==> (options.step_ns matches Some(step) && step
                > 0)
        },
        options.limit == Some(0usize) ==> plan_of(options) is Err,
{
}

/// A planned alignment fails for one reason only: its time line has more points than the limit.
pub proof fn planned_alignment_has_a_time_line(
    options: AlignWindowOptions,
    plan: PlanModel,
    data: Seq<Seq<StampedRecord>>,
)
    requires
        plan_of(options) == Ok::<PlanModel, CommandFailure>(plan),
        data.len() == plan.streams.len(),
    ensures
        timeline_of(options, plan, data) matches Ok(points) ==> points.len() <= plan.limit,
        options.mode == AlignMode::Grid && plan.start_ns == plan.end_ns ==> timeline_of(
            options,
            plan,
            data,
        ) == Ok::<Seq<u64>, CommandFailure>(seq![plan.start_ns]),
{
}

/// A range is located for one up to a hundred thousand records, and never as an alignment.
pub proof fn range_query_is_bounded(options: LocateRangeOptions)
    ensures
        range_problem(options) is None <==> 1 <= options.count <= 100_000 && !(
        options.emit is Aligned),
{
}

/// An indexer runs for a stream that has a name, and takes some records at a time; so does a
/// catch-up that is told how many.
pub proof fn indexing_needs_a_stream_and_a_number(
    run: IndexRunOptions,
    catch_up: IndexCatchUpOptions,
)
    ensures
        run_problem(run) is None <==> {
            let stream = run.stream_id@;
            &&& run.batch_max_records > 0
            &&& !forall|i: int| 0 <= i < stream.len() ==> is_white_space(#[trigger] stream[i])
        },
        catch_up_problem(catch_up) is None <==> {
            let stream = catch_up.stream_id@;
            &&& catch_up.max_records is None || catch_up.max_records->Some_0 > 0
            &&& !forall|i: int| 0 <= i < stream.len() ==> is_white_space(#[trigger] stream[i])
        },
{
}

/// Where an alignment drops points without a record for each stream, or has to have one, no row
/// that it gives lacks one. Else it has a row for every point of its time line.
pub proof fn alignment_is_as_whole_as_asked_for(
    options: AlignWindowOptions,
    plan: PlanModel,
    data: Seq<Seq<StampedRecord>>,
)
    requires
        alignment(options, plan, data) is Ok,
    ensures
        ({
            let rows = alignment(options, plan, data)->Ok_0;
            let points = timeline_of(options, plan, data)->Ok_0;
            let whole = options.require_all_streams || options.fill_policy is Drop;
            &&& timeline_of(options, plan, data) is Ok
            &&& whole ==> forall|r: int, k: int|
                #![trigger rows[r].matches[k]]
                0 <= r < rows.len() && 0 <= k < data.len() ==> rows[r].matches[k].record is Some
            &&& !whole ==> rows.len() == points.len()
        }),
{
    let points = timeline_of(options, plan, data)->Ok_0;
    rows_are_whole(options, points, data, points.len() as int);
}

proof fn rows_are_whole(
    options: AlignWindowOptions,
    points: Seq<u64>,
    data: Seq<Seq<StampedRecord>>,
    n: int,
)
    requires
        0 <= n <= points.len(),
    ensures
        ({
            let rows = crate::align::aligned_rows(
                points,
                data,
                crate::query_tool::context_of(options),
                n,
            );
            let whole = options.require_all_streams || options.fill_policy is Drop;
            &&& whole ==> forall|r: int, k: int|
                #![trigger rows[r].matches[k]]
                0 <= r < rows.len() && 0 <= k < data.len() ==> rows[r].matches[k].record is Some
            &&& !whole ==> rows.len() == n
        }),
    decreases n,
{
    if n > 0 {
        let context = crate::query_tool::context_of(options);
        rows_are_whole(options, points, data, n - 1);
        let before = crate::align::aligned_rows(points, data, context, n - 1);
        let rows = crate::align::aligned_rows(points, data, context, n);
        let whole = options.require_all_streams || options.fill_policy is Drop;
        if whole {
            assert forall|r: int, k: int|
                #![trigger rows[r].matches[k]]
                0 <= r < rows.len() && 0 <= k < data.len() implies rows[r].matches[k].record
                is Some by {
                if r < before.len() {
                    assert(before[r] == rows[r]);
                    assert(before[r].matches[k].record is Some);
                }
            }
        }
    }
}

} // verus!
