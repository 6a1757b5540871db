//! What the alignment of streams promises of its time line and its rows.

use crate::align::{
    aligned_rows, anchor_timeline, first_not_before, first_not_before_splits, first_occurrences,
    first_of, grid_from, grid_timeline, has_gap, in_time_order, matched, normalized_streams,
    row_matches, stamped, AlignBuildContext, FillPolicy, MatchStatus, StampedRecord, TimeField,
};
use crate::metadata::MetadataCommitRecord;
use crate::text::is_blank;
use vstd::prelude::*;

verus! {

/// Stamping keeps every record and its place, and the timestamp that counts is the event time of the
/// record where the event counts, and its commit time where the commit counts.
pub proof fn stamps_are_times_of_the_records(records: Seq<MetadataCommitRecord>, i: int)
    requires
        0 <= i < records.len(),
    ensures
        stamped(records, TimeField::Commit).len() == records.len(),
        stamped(records, TimeField::Event).len() == records.len(),
        stamped(records, TimeField::Commit)[i].ts == records[i].commit_time_ns,
        stamped(records, TimeField::Event)[i].ts == records[i].event_time_ns,
        stamped(records, TimeField::Commit)[i].record == records[i],
        stamped(records, TimeField::Event)[i].record == records[i],
{
}

/// No record with this timestamp is there.
pub open spec fn nothing_at(records: Seq<StampedRecord>, time: u64) -> bool {
    forall|i: int| 0 <= i < records.len() ==> (#[trigger] records[i]).ts != time
}

/// The record is the first with this timestamp.
pub open spec fn is_first_at(records: Seq<StampedRecord>, time: u64, k: int) -> bool {
    &&& 0 <= k < records.len()
    &&& records[k].ts == time
    &&& forall|j: int| 0 <= j < k ==> (#[trigger] records[j]).ts != time
}

/// The record lies next to the time: none lies nearer, and of two that are equally near it is the
/// one before the time.
pub open spec fn is_nearest(records: Seq<StampedRecord>, time: u64, k: int) -> bool {
    &&& 0 <= k < records.len()
    &&& records[k].ts < time ==> forall|i: int|
        0 <= i < records.len() ==> (#[trigger] records[i]).ts <= records[k].ts || records[i].ts
            - time >= time - records[k].ts
    &&& records[k].ts > time ==> forall|i: int|
        0 <= i < records.len() ==> (#[trigger] records[i]).ts >= records[k].ts || time
            - records[i].ts > records[k].ts - time
}

/// A record with the very timestamp is taken, the first of several, whatever fills gaps. Where there
/// is none, nothing is taken unless the nearest record fills gaps.
pub proof fn record_at_the_time_is_taken(
    records: Seq<StampedRecord>,
    time: u64,
    fill_policy: FillPolicy,
    max_skew_ns: u64,
)
    requires
        in_time_order(records),
    ensures
        ({
            let found = matched(records, time, fill_policy, max_skew_ns);
            &&& found.status == MatchStatus::Exact <==> !nothing_at(records, time)
            &&& found.status == MatchStatus::Exact ==> {
                &&& found.delta_ns == Some(0i64)
                &&& exists|k: int| #[trigger]
                    is_first_at(records, time, k) && found.record == Some(records[k].record)
            }
            &&& found.status == MatchStatus::Missing ==> found.delta_ns is None
                && found.record is None
            &&& fill_policy != FillPolicy::Nearest && nothing_at(records, time) ==> found.status
                == MatchStatus::Missing
        }),
{
    first_not_before_splits(records, time);
    let place = first_not_before(records, time);
    let found = matched(records, time, fill_policy, max_skew_ns);
    if !nothing_at(records, time) {
        let i = choose|i: int| 0 <= i < records.len() && (#[trigger] records[i]).ts == time;
        assert(place <= i);
        if place < i {
            assert(records[place].ts <= records[i].ts);
        }
        assert(records[place].ts == time);
    }
    if found.status == MatchStatus::Exact {
        assert(records[place].ts == time);
        assert forall|j: int| 0 <= j < place implies (#[trigger] records[j]).ts != time by {
            assert(records[j].ts < time);
        }
        assert(is_first_at(records, time, place));
    }
}

/// Where the nearest record fills a gap, it is the record that is taken: it lies within the skew, no
/// other lies nearer, and of two that are equally near it is the one before the time. What is told
/// as the distance is the timestamp of the record minus the time. Where nothing is taken, no record
/// lies within the skew.
pub proof fn nearest_record_fills_a_gap(
    records: Seq<StampedRecord>,
    time: u64,
    max_skew_ns: u64,
)
    requires
        in_time_order(records),
        nothing_at(records, time),
    ensures
        ({
            let found = matched(records, time, FillPolicy::Nearest, max_skew_ns);
            match found.status {
                MatchStatus::Exact => false,
                MatchStatus::Missing => forall|i: int|
                    0 <= i < records.len() ==> (#[trigger] records[i]).ts + max_skew_ns < time
                        || time + max_skew_ns < records[i].ts,
                MatchStatus::Nearest => exists|k: int|
                    {
                        &&& #[trigger] is_nearest(records, time, k)
                        &&& found.record == Some(records[k].record)
                        &&& found.delta_ns is Some
                        &&& -i64::MAX <= records[k].ts - time <= i64::MAX ==> found.delta_ns->Some_0
                            == records[k].ts - time
                        &&& time <= records[k].ts + max_skew_ns
                        &&& records[k].ts <= time + max_skew_ns
                    },
            }
        }),
{
    first_not_before_splits(records, time);
    let place = first_not_before(records, time);
    let n = records.len() as int;
    let found = matched(records, time, FillPolicy::Nearest, max_skew_ns);
    if n > 0 {
        let takes_before = place > 0 && (place >= n || time - records[place - 1].ts
            <= records[place].ts - time);
        let k = if takes_before {
            place - 1
        } else {
            place
        };
        assert(0 <= k < n);
        if place > 0 {
            assert(records[place - 1].ts < time);
        }
        if place < n {
            assert(records[place].ts >= time);
            assert(records[place].ts != time);
        }
        assert forall|i: int| 0 <= i < n implies if i < place {
            (#[trigger] records[i]).ts <= records[place - 1].ts
        } else {
            records[i].ts >= records[place].ts
        } by {
            if i < place - 1 {
                assert(records[i].ts <= records[place - 1].ts);
            }
            if i > place {
                assert(records[place].ts <= records[i].ts);
            }
        }
        assert(records[k].ts != time);
        if found.status == MatchStatus::Nearest {
            if takes_before {
                assert forall|i: int| 0 <= i < n implies (#[trigger] records[i]).ts
                    <= records[k].ts || records[i].ts - time >= time - records[k].ts by {
                    if i >= place {
                        assert(records[i].ts >= records[place].ts);
                    }
                }
            } else {
                assert forall|i: int| 0 <= i < n implies (#[trigger] records[i]).ts
                    >= records[k].ts || time - records[i].ts > records[k].ts - time by {
                    if i < place {
                        assert(records[i].ts <= records[place - 1].ts);
                    }
                }
            }
            assert(is_nearest(records, time, k));
            assert(found.record == Some(records[k].record));
        } else {
            assert forall|i: int| 0 <= i < n implies (#[trigger] records[i]).ts + max_skew_ns
                < time || time + max_skew_ns < records[i].ts by {
                if i < place {
                    assert(records[i].ts <= records[place - 1].ts);
                } else {
                    assert(records[i].ts >= records[place].ts);
                }
            }
        }
    }
}

/// A grid starts at its start, ends at its end, goes on by the step, and makes no step but the last
/// shorter. A grid whose end does not lie behind its start is its start.
pub proof fn grid_goes_by_steps(start: u64, end: u64, step: u64)
    requires
        step > 0,
    ensures
        ({
            let grid = grid_from(start, end, step);
            &&& grid.len() > 0
            &&& grid[0] == start
            &&& start <= end ==> grid.last() == end
            &&& start >= end ==> grid.len() == 1
            &&& forall|i: int|
                0 <= i < grid.len() - 1 ==> (#[trigger] grid[i]) < end && (grid[i + 1] == grid[i]
                    + step || (i + 1 == grid.len() - 1 && grid[i] < grid[i + 1] < grid[i] + step))
        }),
    decreases end - start,
{
    if start < end {
        let next = if start + step > end {
            end
        } else {
            (start + step) as u64
        };
        grid_goes_by_steps(next, end, step);
        let rest = grid_from(next, end, step);
        let grid = grid_from(start, end, step);
        assert(grid == seq![start] + rest);
        assert(grid.last() == rest.last());
        assert forall|i: int| 0 <= i < grid.len() - 1 implies (#[trigger] grid[i]) < end && (
        grid[i + 1] == grid[i] + step || (i + 1 == grid.len() - 1 && grid[i] < grid[i + 1] < grid[i]
            + step)) by {
            if i > 0 {
                assert(grid[i] == rest[i - 1]);
                assert(grid[i + 1] == rest[i]);
            } else {
                assert(grid[1] == rest[0]);
                if next != start + step {
                    assert(rest.len() == 1);
                }
            }
        }
    }
}

/// A grid needs a step above zero and no more points than the limit; it is given where it has both.
pub proof fn grid_is_given_within_the_limit(
    step_ns: Option<u64>,
    start_ns: u64,
    end_ns: u64,
    limit: usize,
)
    ensures
        ({
            let timeline = grid_timeline(step_ns, start_ns, end_ns, limit);
            &&& timeline is Ok ==> step_ns is Some && step_ns->Some_0 > 0 && 0
                < timeline->Ok_0.len() <= limit && timeline->Ok_0[0] == start_ns
            &&& timeline is Ok && start_ns <= end_ns ==> timeline->Ok_0.last() == end_ns
            &&& step_ns is Some && step_ns->Some_0 > 0 && start_ns <= end_ns && end_ns - start_ns
                <= (limit - 1) * step_ns->Some_0 ==> timeline is Ok
        }),
{
    if step_ns is Some && step_ns->Some_0 > 0 {
        let step = step_ns->Some_0;
        grid_goes_by_steps(start_ns, end_ns, step);
        if start_ns <= end_ns && end_ns - start_ns <= (limit - 1) * step {
            grid_is_short(start_ns, end_ns, step, (limit - 1) as int);
        }
    }
}

/// A grid over no more than `n` steps has no more than `n + 1` points.
proof fn grid_is_short(start: u64, end: u64, step: u64, n: int)
    requires
        step > 0,
        start <= end,
        end - start <= n * step,
    ensures
        grid_from(start, end, step).len() <= n + 1,
    decreases end - start,
{
    assert(n >= 0) by (nonlinear_arith)
        requires
            0 <= end - start <= n * step,
            step > 0,
    ;
    if start < end {
        let next = if start + step > end {
            end
        } else {
            (start + step) as u64
        };
        assert(n * step == (n - 1) * step + step) by (nonlinear_arith);
        assert((n - 1) * step >= 0) by (nonlinear_arith)
            requires
                0 < end - start <= n * step,
                step > 0,
        ;
        assert(end - next <= (n - 1) * step);
        grid_is_short(next, end, step, n - 1);
    }
}

/// The time line of an anchor stream has the timestamp of each of its records, in order. The stream
/// has to be one of those that are aligned.
pub proof fn anchor_gives_its_timestamps(
    streams: Seq<Seq<char>>,
    data: Seq<Seq<StampedRecord>>,
    anchor: Seq<char>,
    limit: usize,
    place: int,
)
    requires
        streams.len() == data.len(),
        0 <= place < streams.len(),
        streams[place] == anchor,
        forall|k: int| 0 <= k < place ==> #[trigger] streams[k] != anchor,
    ensures
        ({
            let timeline = anchor_timeline(streams, data, Some(anchor), limit);
            &&& timeline is Ok <==> data[place].len() <= limit
            &&& timeline is Ok ==> timeline->Ok_0.len() == data[place].len()
            &&& timeline is Ok ==> forall|i: int|
                0 <= i < data[place].len() ==> #[trigger] timeline->Ok_0[i] == data[place][i].ts
        }),
{
    first_place(streams, anchor, place);
    assert(streams.contains(anchor));
}

/// The first place of a text is where it stands first.
proof fn first_place(list: Seq<Seq<char>>, text: Seq<char>, place: int)
    requires
        0 <= place < list.len(),
        list[place] == text,
        forall|k: int| 0 <= k < place ==> #[trigger] list[k] != text,
    ensures
        first_of(list, text) == place,
    decreases place,
{
    if place > 0 {
        let rest = list.drop_first();
        assert(list[0] != text);
        assert forall|k: int| 0 <= k < place - 1 implies #[trigger] rest[k] != text by {
            assert(list[k + 1] != text);
        }
        first_place(rest, text, place - 1);
    }
}

/// Rows in which a stream has no record are left out.
pub open spec fn leaves_gaps_out(context: AlignBuildContext) -> bool {
    context.require_all_streams || context.fill_policy == FillPolicy::Drop
}

/// A row of an alignment belongs to a point of the time line and has for each stream what that
/// stream has there. It has no gap where rows with gaps are left out.
pub proof fn rows_belong_to_the_time_line(
    timeline: Seq<u64>,
    data: Seq<Seq<StampedRecord>>,
    context: AlignBuildContext,
    n: int,
    r: int,
)
    requires
        0 <= n <= timeline.len(),
        0 <= r < aligned_rows(timeline, data, context, n).len(),
    ensures
        ({
            let row = aligned_rows(timeline, data, context, n)[r];
            &&& exists|p: int| 0 <= p < n && row.aligned_time_ns == #[trigger] timeline[p]
            &&& row.matches.len() == data.len()
            &&& forall|i: int|
                0 <= i < data.len() ==> #[trigger] row.matches[i] == matched(
                    data[i],
                    row.aligned_time_ns,
                    context.fill_policy,
                    context.max_skew_ns,
                )
            &&& leaves_gaps_out(context) ==> forall|i: int|
                0 <= i < data.len() ==> (#[trigger] row.matches[i]).status != MatchStatus::Missing
        }),
    decreases n,
{
    if n > 0 {
        let before = aligned_rows(timeline, data, context, n - 1);
        if r < before.len() {
            rows_belong_to_the_time_line(timeline, data, context, n - 1, r);
            let row = before[r];
            let p = choose|p: int| 0 <= p < n - 1 && row.aligned_time_ns == #[trigger] timeline[p];
            assert(0 <= p < n && row.aligned_time_ns == timeline[p]);
        } else {
            assert(timeline[n - 1] == aligned_rows(timeline, data, context, n)[r].aligned_time_ns);
        }
    }
}

/// Every point of the time line has a row, unless a stream has nothing there and such rows are left
/// out.
pub proof fn every_point_has_a_row(
    timeline: Seq<u64>,
    data: Seq<Seq<StampedRecord>>,
    context: AlignBuildContext,
    n: int,
    p: int,
)
    requires
        0 <= p < n <= timeline.len(),
        !leaves_gaps_out(context) || forall|i: int|
            0 <= i < data.len() ==> matched(
                #[trigger] data[i],
                timeline[p],
                context.fill_policy,
                context.max_skew_ns,
            ).status != MatchStatus::Missing,
    ensures
        ({
            let rows = aligned_rows(timeline, data, context, n);
            exists|r: int| 0 <= r < rows.len() && (#[trigger] rows[r]).aligned_time_ns == timeline[p]
        }),
    decreases n,
{
    let rows = aligned_rows(timeline, data, context, n);
    if p == n - 1 {
        let matches = row_matches(
            data,
            timeline[p],
            context.fill_policy,
            context.max_skew_ns,
        );
        if leaves_gaps_out(context) && has_gap(matches) {
            let i = choose|i: int|
                0 <= i < matches.len() && (#[trigger] matches[i]).status == MatchStatus::Missing;
            assert(matches[i] == matched(
                data[i],
                timeline[p],
                context.fill_policy,
                context.max_skew_ns,
            ));
        }
        assert(rows[rows.len() - 1].aligned_time_ns == timeline[p]);
    } else {
        every_point_has_a_row(timeline, data, context, n - 1, p);
        let before = aligned_rows(timeline, data, context, n - 1);
        let r = choose|r: int|
            0 <= r < before.len() && (#[trigger] before[r]).aligned_time_ns == timeline[p];
        assert(rows[r] == before[r]);
    }
}

/// Rows come in the order of the time line, and no point has two rows: on a time line that grows the
/// rows grow, and there are no more rows than points.
pub proof fn rows_keep_the_order_of_the_time_line(
    timeline: Seq<u64>,
    data: Seq<Seq<StampedRecord>>,
    context: AlignBuildContext,
    n: int,
)
    requires
        0 <= n <= timeline.len(),
        forall|i: int, j: int|
            #![trigger timeline[i], timeline[j]]
            0 <= i < j < timeline.len() ==> timeline[i] < timeline[j],
    ensures
        ({
            let rows = aligned_rows(timeline, data, context, n);
            &&& rows.len() <= n
            &&& forall|a: int, b: int|
                #![trigger rows[a], rows[b]]
                0 <= a < b < rows.len() ==> rows[a].aligned_time_ns < rows[b].aligned_time_ns
        }),
    decreases n,
{
    if n > 0 {
        rows_keep_the_order_of_the_time_line(timeline, data, context, n - 1);
        let before = aligned_rows(timeline, data, context, n - 1);
        let rows = aligned_rows(timeline, data, context, n);
        assert forall|a: int, b: int|
            #![trigger rows[a], rows[b]]
            0 <= a < b < rows.len() implies rows[a].aligned_time_ns < rows[b].aligned_time_ns by {
            if b == before.len() {
                rows_belong_to_the_time_line(timeline, data, context, n - 1, a);
                let p = choose|p: int|
                    0 <= p < n - 1 && before[a].aligned_time_ns == #[trigger] timeline[p];
                assert(timeline[p] < timeline[n - 1]);
            } else {
                assert(before[a].aligned_time_ns < before[b].aligned_time_ns);
            }
        }
    }
}

/// The streams that are aligned are those that were named, each once, and one that was named earlier
/// stays earlier.
pub proof fn streams_are_aligned_once(list: Seq<Seq<char>>)
    requires
        list.len() > 0,
        forall|i: int| 0 <= i < list.len() ==> !is_blank(#[trigger] list[i]),
    ensures
        normalized_streams(list) is Ok,
        ({
            let streams = normalized_streams(list)->Ok_0;
            &&& streams.no_duplicates()
            &&& forall|name: Seq<char>| #[trigger] streams.contains(name) <==> list.contains(name)
            &&& streams.len() > 0 && streams[0] == list[0]
        }),
{
    occurrences(list);
}

/// The first occurrences of a list are its elements, each once.
proof fn occurrences(list: Seq<Seq<char>>)
    ensures
        ({
            let once = first_occurrences(list);
            &&& once.no_duplicates()
            &&& forall|name: Seq<char>| #[trigger] once.contains(name) <==> list.contains(name)
            &&& list.len() > 0 ==> once.len() > 0 && once[0] == list[0]
        }),
    decreases list.len(),
{
    if list.len() > 0 {
        let less = list.drop_last();
        let before = first_occurrences(less);
        let once = first_occurrences(list);
        occurrences(less);
        assert forall|name: Seq<char>| #[trigger] once.contains(name) <==> list.contains(name) by {
            assert(before.contains(name) <==> less.contains(name));
            if list.contains(name) && name != list.last() {
                let k = choose|k: int| 0 <= k < list.len() && list[k] == name;
                assert(less[k] == name);
            }
            if less.contains(name) {
                let k = choose|k: int| 0 <= k < less.len() && less[k] == name;
                assert(list[k] == name);
            }
            assert(list[list.len() - 1] == list.last());
            if once.contains(name) && !before.contains(name) {
                let k = choose|k: int| 0 <= k < once.len() && once[k] == name;
                if k < before.len() {
                    assert(before[k] == name);
                }
            }
            if before.contains(name) {
                let k = choose|k: int| 0 <= k < before.len() && before[k] == name;
                assert(once[k] == name);
            }
            if !before.contains(list.last()) {
                assert(once[once.len() - 1] == list.last());
            }
        }
        assert(once.no_duplicates()) by {
            if !before.contains(list.last()) {
                assert forall|i: int, j: int|
                    0 <= i < once.len() && 0 <= j < once.len() && i != j implies once[i]
                    != once[j] by {
                    if i < before.len() {
                        assert(before.contains(before[i]));
                    }
                    if j < before.len() {
                        assert(before.contains(before[j]));
                    }
                }
            }
        }
        if less.len() == 0 {
            assert(before.len() == 0);
            assert(!before.contains(list.last()));
        }
    }
}

} // verus!
