//! Aligning the records of several streams on one time line.

use crate::command::{CommandError, CommandFailure};
use crate::layout::same_text;
use crate::metadata::MetadataCommitRecord;
use crate::text::{blank, decimal, is_blank, push_decimal, push_text};
use vstd::prelude::*;

verus! {

/// Most rows that an alignment may have.
pub const DEFAULT_ALIGN_ROW_LIMIT: usize = 1_000_000;

/// The timestamp that counts.
#[derive(Debug, Clone, Copy, PartialEq, Eq, Structural)]
pub enum TimeField {
    /// The time of the event.
    Event,
    /// The time of the commit.
    Commit,
}

/// Where the time line comes from.
#[derive(Debug, Clone, Copy, PartialEq, Eq, Structural)]
pub enum AlignMode {
    /// From the records of one stream.
    Anchor,
    /// From a grid.
    Grid,
}

/// What happens to a stream without a record at a point of the time line.
#[derive(Debug, Clone, Copy, PartialEq, Eq, Structural)]
pub enum FillPolicy {
    /// The row is dropped.
    Drop,
    /// The stream is left out.
    Null,
    /// The nearest record is taken.
    Nearest,
}

/// A record with the timestamp that counts.
#[derive(Debug, Clone, Copy)]
pub struct StampedRecord {
    /// The timestamp.
    pub ts: u64,
    /// The record.
    pub record: MetadataCommitRecord,
}

/// The timestamp of a record that counts.
pub open spec fn timestamp_of(record: MetadataCommitRecord, field: TimeField) -> u64 {
    match field {
        TimeField::Event => record.event_time_ns,
        TimeField::Commit => record.commit_time_ns,
    }
}

/// Gives the timestamp of a record that counts.
pub fn record_timestamp(value: &MetadataCommitRecord, field: TimeField) -> (ts: u64)
    ensures
        ts == timestamp_of(*value, field),
        field is Event ==> ts == value.event_time_ns,
        field is Commit ==> ts == value.commit_time_ns,
{
    match field {
        TimeField::Event => value.event_time_ns,
        TimeField::Commit => value.commit_time_ns,
    }
}

/// The records with their timestamps.
pub open spec fn stamped(records: Seq<MetadataCommitRecord>, field: TimeField) -> Seq<
    StampedRecord,
> {
    records.map_values(
        |record: MetadataCommitRecord| StampedRecord { ts: timestamp_of(record, field), record },
    )
}

/// Puts the timestamp that counts to each record.
pub fn stamp_records(records: &[MetadataCommitRecord], field: TimeField) -> (list: Vec<
    StampedRecord,
>)
    ensures
        list@ == stamped(records@, field),
        list@.len() == records@.len(),
        forall|i: int|
            #![trigger list@[i]]
            0 <= i < list@.len() ==> list@[i].record == records@[i] && (field is Event
                ==> list@[i].ts == records@[i].event_time_ns) && (field is Commit ==> list@[i].ts
                == records@[i].commit_time_ns),
{
    let mut list: Vec<StampedRecord> = Vec::new();
    let n: usize = records.len();
    for i in 0..n
        invariant
            n == records@.len(),
            list@.len() == i,
            forall|k: int| 0 <= k < i ==> #[trigger] list@[k] == stamped(records@, field)[k],
            forall|k: int|
                #![trigger list@[k]]
                0 <= k < i ==> list@[k].record == records@[k] && (field is Event ==> list@[k].ts
                    == records@[k].event_time_ns) && (field is Commit ==> list@[k].ts
                    == records@[k].commit_time_ns),
    {
        list.push(StampedRecord { ts: record_timestamp(&records[i], field), record: records[i] });
    }
    assert(list@ =~= stamped(records@, field));
    list
}

/// The texts of a list of strings.
pub open spec fn texts(list: Seq<String>) -> Seq<Seq<char>> {
    list.map_values(|text: String| text@)
}

/// The list without what occurred before.
pub open spec fn first_occurrences(list: Seq<Seq<char>>) -> Seq<Seq<char>>
    decreases list.len(),
{
    if list.len() == 0 {
        list
    } else {
        let before = first_occurrences(list.drop_last());
        if before.contains(list.last()) {
            before
        } else {
            before.push(list.last())
        }
    }
}

/// The streams that are aligned: each once, in the order in which they are named.
pub open spec fn normalized_streams(list: Seq<Seq<char>>) -> Result<
    Seq<Seq<char>>,
    CommandFailure,
> {
    if list.len() == 0 {
        Err(CommandFailure::InvalidInput("--streams must contain at least one stream id"@))
    } else if exists|i: int| 0 <= i < list.len() && is_blank(#[trigger] list[i]) {
        Err(CommandFailure::InvalidInput("--stream-id must not be empty"@))
    } else {
        Ok(first_occurrences(list))
    }
}

/// Checks that the id of a stream is not blank.
pub fn validate_stream_id(stream_id: &str) -> (result: Result<(), CommandError>)
    ensures
        match result {
            Ok(_) => !is_blank(stream_id@),
            Err(error) => is_blank(stream_id@) && error@ == CommandFailure::InvalidInput(
                "--stream-id must not be empty"@,
            ),
        },
{
    if blank(stream_id) {
        return Err(CommandError::invalid_input("--stream-id must not be empty"));
    }
    Ok(())
}

/// The first place of a text in a list.
pub open spec fn first_of(list: Seq<Seq<char>>, text: Seq<char>) -> int
    decreases list.len(),
{
    if list.len() == 0 || list[0] == text {
        0
    } else {
        1 + first_of(list.drop_first(), text)
    }
}

/// The first place is where the text stands and does not stand before.
proof fn first_found(list: Seq<Seq<char>>, text: Seq<char>, place: int)
    requires
        0 <= place < list.len(),
        list[place] == text,
        forall|k: int| 0 <= k < place ==> #[trigger] list[k] != text,
    ensures
        first_of(list, text) == place,
    decreases place,
{
    if place > 0 {
        let rest = list.drop_first();
        assert forall|k: int| 0 <= k < place - 1 implies #[trigger] rest[k] != text by {
            assert(list[k + 1] != text);
        }
        first_found(rest, text, place - 1);
    }
}

/// Finds a text in a list.
pub fn position_of(list: &[String], text: &str) -> (place: Option<usize>)
    ensures
        match place {
            Some(i) => i < list@.len() && list@[i as int]@ == text@ && i == first_of(
                texts(list@),
                text@,
            ),
            None => !texts(list@).contains(text@),
        },
        place is Some <==> texts(list@).contains(text@),
{
    let n: usize = list.len();
    for i in 0..n
        invariant
            n == list@.len(),
            forall|k: int| 0 <= k < i ==> (#[trigger] list@[k])@ != text@,
    {
        if same_text(list[i].as_str(), text) {
            proof {
                let names = texts(list@);
                assert(names[i as int] == text@);
                assert forall|k: int| 0 <= k < i implies #[trigger] names[k] != text@ by {
                    assert(list@[k]@ != text@);
                }
                first_found(names, text@, i as int);
            }
            return Some(i);
        }
    }
    assert(!texts(list@).contains(text@)) by {
        if texts(list@).contains(text@) {
            let k = choose|k: int| 0 <= k < texts(list@).len() && texts(list@)[k] == text@;
            assert(list@[k]@ == text@);
        }
    }
    None
}

/// Checks the streams and leaves out repetitions.
pub fn normalize_streams(streams: &[String]) -> (result: Result<Vec<String>, CommandError>)
    ensures
        match result {
            Ok(list) => normalized_streams(texts(streams@)) == Ok::<
                Seq<Seq<char>>,
                CommandFailure,
            >(texts(list@)),
            Err(error) => normalized_streams(texts(streams@)) == Err::<
                Seq<Seq<char>>,
                CommandFailure,
            >(error@),
        },
{
    let n: usize = streams.len();
    if n == 0 {
        return Err(CommandError::invalid_input("--streams must contain at least one stream id"));
    }
    let ghost all = texts(streams@);
    let mut list: Vec<String> = Vec::new();
    assert(texts(list@) =~= first_occurrences(all.subrange(0, 0)));
    for i in 0..n
        invariant
            n == streams@.len(),
            all == texts(streams@),
            texts(list@) == first_occurrences(all.subrange(0, i as int)),
            forall|k: int| 0 <= k < i ==> !is_blank(#[trigger] all[k]),
    {
        match validate_stream_id(streams[i].as_str()) {
            Ok(_) => {},
            Err(error) => {
                assert(is_blank(all[i as int]));
                return Err(error);
            },
        }
        assert(all.subrange(0, i + 1).drop_last() =~= all.subrange(0, i as int));
        assert(all.subrange(0, i + 1).last() == streams@[i as int]@);
        let ghost before = list@;
        if position_of(&list, streams[i].as_str()).is_none() {
            list.push(streams[i].clone());
            assert(texts(list@) =~= texts(before).push(streams@[i as int]@));
        }
    }
    assert(all.subrange(0, n as int) =~= all);
    Ok(list)
}

/// The points of a grid from a cursor up to an end.
pub open spec fn grid_from(cursor: u64, end: u64, step: u64) -> Seq<u64>
    decreases end - cursor,
{
    if cursor >= end || step == 0 {
        seq![cursor]
    } else {
        let next = cursor + step;
        seq![cursor] + grid_from(
            if next > end {
                end
            } else {
                next as u64
            },
            end,
            step,
        )
    }
}

/// The timestamps of records.
pub open spec fn times_of(records: Seq<StampedRecord>) -> Seq<u64> {
    records.map_values(|record: StampedRecord| record.ts)
}

/// The time line of a grid, which may have no more than `limit` points.
pub open spec fn grid_timeline(
    step_ns: Option<u64>,
    start_ns: u64,
    end_ns: u64,
    limit: usize,
) -> Result<Seq<u64>, CommandFailure> {
    match step_ns {
        None => Err(CommandFailure::InvalidInput("--step-ns is required with --mode grid"@)),
        Some(step) => if step == 0 {
            Err(CommandFailure::InvalidInput("--step-ns must be > 0"@))
        } else if grid_from(start_ns, end_ns, step).len() > limit {
            Err(
                CommandFailure::InvalidInput(
                    "aligned row cap exceeded (>"@ + decimal(limit as nat) + ")"@,
                ),
            )
        } else {
            Ok(grid_from(start_ns, end_ns, step))
        },
    }
}

/// The time line of the anchor stream, which may have no more than `limit` points.
pub open spec fn anchor_timeline(
    streams: Seq<Seq<char>>,
    data: Seq<Seq<StampedRecord>>,
    anchor_stream: Option<Seq<char>>,
    limit: usize,
) -> Result<Seq<u64>, CommandFailure> {
    match anchor_stream {
        None => Err(
            CommandFailure::InvalidInput("--anchor-stream is required with --mode anchor"@),
        ),
        Some(anchor) => if !streams.contains(anchor) {
            Err(CommandFailure::InvalidInput("--anchor-stream must be part of --streams"@))
        } else {
            let rows = data[first_of(streams, anchor)];
            if rows.len() > limit {
                Err(
                    CommandFailure::InvalidInput(
                        "aligned row cap exceeded ("@ + decimal(rows.len()) + " > "@ + decimal(
                            limit as nat,
                        ) + ")"@,
                    ),
                )
            } else {
                Ok(times_of(rows))
            }
        },
    }
}

/// Builds the time line of a grid.
pub fn build_grid(step_ns: Option<u64>, start_ns: u64, end_ns: u64, limit: usize) -> (result:
    Result<Vec<u64>, CommandError>)
    ensures
        match result {
            Ok(timeline) => grid_timeline(step_ns, start_ns, end_ns, limit) == Ok::<
                Seq<u64>,
                CommandFailure,
            >(timeline@),
            Err(error) => grid_timeline(step_ns, start_ns, end_ns, limit) == Err::<
                Seq<u64>,
                CommandFailure,
            >(error@),
        },
{
    let step: u64 = match step_ns {
        None => {
            return Err(CommandError::invalid_input("--step-ns is required with --mode grid"));
        },
        Some(step) => step,
    };
    if step == 0 {
        return Err(CommandError::invalid_input("--step-ns must be > 0"));
    }
    let mut timeline: Vec<u64> = Vec::new();
    let mut cursor: u64 = start_ns;
    let ghost all = grid_from(start_ns, end_ns, step);
    assert(all =~= timeline@ + grid_from(cursor, end_ns, step));
    loop
        invariant
            step > 0,
            step_ns == Some(step),
            all == grid_from(start_ns, end_ns, step),
            all == timeline@ + grid_from(cursor, end_ns, step),
            timeline@.len() <= limit,
        decreases end_ns - cursor,
    {
        if timeline.len() >= limit {
            assert(grid_from(cursor, end_ns, step).len() > 0);
            let mut message = "aligned row cap exceeded (>".to_owned();
            push_decimal(&mut message, limit as u64);
            push_text(&mut message, ")");
            return Err(CommandError::InvalidInput(message));
        }
        let ghost before = timeline@;
        timeline.push(cursor);
        if cursor >= end_ns {
            assert(timeline@ =~= before + seq![cursor]);
            return Ok(timeline);
        }
        let next: u64 = if step > end_ns - cursor {
            end_ns
        } else {
            cursor + step
        };
        assert(before + (seq![cursor] + grid_from(next, end_ns, step)) =~= timeline@ + grid_from(
            next,
            end_ns,
            step,
        ));
        cursor = next;
    }
}

/// The record lists, as sequences.
pub open spec fn record_lists(data: Seq<Vec<StampedRecord>>) -> Seq<Seq<StampedRecord>> {
    data.map_values(|list: Vec<StampedRecord>| list@)
}

/// Builds the time line of the anchor stream. The lists of `data` belong to the streams of the
/// same place.
pub fn build_anchor_timeline(
    streams: &[String],
    data: &[Vec<StampedRecord>],
    anchor_stream: Option<&str>,
    limit: usize,
) -> (result: Result<Vec<u64>, CommandError>)
    requires
        streams@.len() == data@.len(),
    ensures
        ({
            let anchor = match anchor_stream {
                Some(anchor) => Some(anchor@),
                None => None,
            };
            let timeline = anchor_timeline(texts(streams@), record_lists(data@), anchor, limit);
            match result {
                Ok(list) => timeline == Ok::<Seq<u64>, CommandFailure>(list@),
                Err(error) => timeline == Err::<Seq<u64>, CommandFailure>(error@),
            }
        }),
{
    let anchor = match anchor_stream {
        None => {
            return Err(
                CommandError::invalid_input("--anchor-stream is required with --mode anchor"),
            );
        },
        Some(anchor) => anchor,
    };
    let place: usize = match position_of(streams, anchor) {
        None => {
            return Err(CommandError::invalid_input("--anchor-stream must be part of --streams"));
        },
        Some(place) => place,
    };
    let rows = &data[place];
    proof {
        assert(record_lists(data@)[place as int] == rows@);
    }
    let n: usize = rows.len();
    if n > limit {
        let mut message = "aligned row cap exceeded (".to_owned();
        push_decimal(&mut message, n as u64);
        push_text(&mut message, " > ");
        push_decimal(&mut message, limit as u64);
        push_text(&mut message, ")");
        return Err(CommandError::InvalidInput(message));
    }
    let mut timeline: Vec<u64> = Vec::new();
    for i in 0..n
        invariant
            n == rows@.len(),
            timeline@.len() == i,
            forall|k: int| 0 <= k < i ==> #[trigger] timeline@[k] == rows@[k].ts,
    {
        timeline.push(rows[i].ts);
    }
    assert(timeline@ =~= times_of(rows@));
    Ok(timeline)
}

/// How a stream matches a point of the time line.
#[derive(Debug, Clone, Copy, PartialEq, Eq, Structural)]
pub enum MatchStatus {
    /// A record has the very timestamp.
    Exact,
    /// The nearest record is near enough.
    Nearest,
    /// No record matches.
    Missing,
}

/// What a stream has for a point of the time line.
#[derive(Debug, Clone, Copy)]
pub struct MatchResult {
    /// How it matches.
    pub status: MatchStatus,
    /// How far behind the point the record lies; negative where it lies before the point.
    pub delta_ns: Option<i64>,
    /// The record.
    pub record: Option<MetadataCommitRecord>,
}

/// The records are in order of their timestamps.
pub open spec fn in_time_order(records: Seq<StampedRecord>) -> bool {
    forall|i: int, j: int|
        #![trigger records[i], records[j]]
        0 <= i < j < records.len() ==> records[i].ts <= records[j].ts
}

/// The first record that does not lie before a time.
pub open spec fn first_not_before(records: Seq<StampedRecord>, time: u64) -> int
    decreases records.len(),
{
    if records.len() == 0 || records[0].ts >= time {
        0
    } else {
        1 + first_not_before(records.drop_first(), time)
    }
}

/// A number of nanoseconds as a signed number; one that is too large wraps around.
pub open spec fn as_signed(delta: u64) -> int {
    if delta <= i64::MAX {
        delta as int
    } else {
        delta - 0x1_0000_0000_0000_0000
    }
}

/// The negative of a signed number; that of the smallest number wraps around to itself.
pub open spec fn negated(value: int) -> int {
    if value == i64::MIN {
        value
    } else {
        -value
    }
}

/// No record matches.
pub open spec fn no_match() -> MatchResult {
    MatchResult { status: MatchStatus::Missing, delta_ns: None, record: None }
}

/// The nearest record, where it is near enough; of two that are equally near the earlier one.
pub open spec fn nearest_match(
    records: Seq<StampedRecord>,
    time: u64,
    place: int,
    max_skew_ns: u64,
) -> MatchResult {
    let before = records[place - 1];
    let behind = records[place];
    let takes_before = place > 0 && (place >= records.len() || time - before.ts <= behind.ts
        - time);
    let (candidate, delta) = if takes_before {
        (before, (time - before.ts) as u64)
    } else {
        (behind, (behind.ts - time) as u64)
    };
    if records.len() > 0 && delta <= max_skew_ns {
        MatchResult {
            status: MatchStatus::Nearest,
            delta_ns: Some(
                if takes_before {
                    negated(as_signed(delta)) as i64
                } else {
                    as_signed(delta) as i64
                },
            ),
            record: Some(candidate.record),
        }
    } else {
        no_match()
    }
}

/// What a stream has for a point of the time line.
pub open spec fn matched(
    records: Seq<StampedRecord>,
    time: u64,
    fill_policy: FillPolicy,
    max_skew_ns: u64,
) -> MatchResult {
    let place = first_not_before(records, time);
    if place < records.len() && records[place].ts == time {
        MatchResult {
            status: MatchStatus::Exact,
            delta_ns: Some(0),
            record: Some(records[place].record),
        }
    } else if fill_policy != FillPolicy::Nearest {
        no_match()
    } else {
        nearest_match(records, time, place, max_skew_ns)
    }
}

/// The records before the place lie before the time, the others do not.
pub proof fn first_not_before_splits(records: Seq<StampedRecord>, time: u64)
    requires
        in_time_order(records),
    ensures
        0 <= first_not_before(records, time) <= records.len(),
        forall|i: int|
            #![trigger records[i]]
            0 <= i < records.len() ==> (records[i].ts < time <==> i < first_not_before(
                records,
                time,
            )),
    decreases records.len(),
{
    if records.len() > 0 && records[0].ts < time {
        let rest = records.drop_first();
        assert(in_time_order(rest)) by {
            assert forall|i: int, j: int|
                #![trigger rest[i], rest[j]]
                0 <= i < j < rest.len() implies rest[i].ts <= rest[j].ts by {
                assert(records[i + 1].ts <= records[j + 1].ts);
            }
        }
        first_not_before_splits(rest, time);
        assert forall|i: int| #![trigger records[i]] 0 <= i < records.len() implies (records[i].ts
            < time <==> i < first_not_before(records, time)) by {
            if i > 0 {
                assert(rest[i - 1] == records[i]);
            }
        }
    } else if records.len() > 0 {
        assert forall|i: int| #![trigger records[i]] 0 <= i < records.len() implies records[i].ts
            >= time by {
            if i > 0 {
                assert(records[0].ts <= records[i].ts);
            }
        }
    }
}

/// A number of nanoseconds as a signed number, turned around where that is asked for.
fn signed_delta(delta: u64, turned: bool) -> (value: i64)
    ensures
        value == if turned {
            negated(as_signed(delta))
        } else {
            as_signed(delta)
        },
{
    let wide: i128 = delta as i128;
    let signed: i128 = if wide <= i64::MAX as i128 {
        wide
    } else {
        wide - 0x1_0000_0000_0000_0000
    };
    if !turned || signed == i64::MIN as i128 {
        signed as i64
    } else {
        (-signed) as i64
    }
}

/// Finds what a stream has for a point of the time line. The records are in order of their
/// timestamps; of several records with the very timestamp the first one is taken.
pub fn find_match(
    records: &[StampedRecord],
    aligned_time_ns: u64,
    fill_policy: FillPolicy,
    max_skew_ns: u64,
) -> (result: MatchResult)
    requires
        in_time_order(records@),
    ensures
        result == matched(records@, aligned_time_ns, fill_policy, max_skew_ns),
{
    let missing = MatchResult { status: MatchStatus::Missing, delta_ns: None, record: None };
    let n: usize = records.len();
    if n == 0 {
        return missing;
    }
    proof {
        first_not_before_splits(records@, aligned_time_ns);
    }
    let mut low: usize = 0;
    let mut high: usize = n;
    while low < high
        invariant
            low <= high <= n == records@.len(),
            forall|i: int|
                #![trigger records@[i]]
                0 <= i < n ==> (records@[i].ts < aligned_time_ns <==> i < first_not_before(
                    records@,
                    aligned_time_ns,
                )),
            low <= first_not_before(records@, aligned_time_ns) <= high,
        decreases high - low,
    {
        let middle: usize = low + (high - low) / 2;
        if records[middle].ts < aligned_time_ns {
            low = middle + 1;
        } else {
            high = middle;
        }
    }
    if low < n && records[low].ts == aligned_time_ns {
        return MatchResult {
            status: MatchStatus::Exact,
            delta_ns: Some(0),
            record: Some(records[low].record),
        };
    }
    if fill_policy != FillPolicy::Nearest {
        return missing;
    }
    let takes_before = low > 0 && (low >= n || aligned_time_ns - records[low - 1].ts
        <= records[low].ts - aligned_time_ns);
    let candidate: StampedRecord = if takes_before {
        records[low - 1]
    } else {
        records[low]
    };
    let delta: u64 = if takes_before {
        aligned_time_ns - candidate.ts
    } else {
        candidate.ts - aligned_time_ns
    };
    if delta > max_skew_ns {
        return missing;
    }
    MatchResult {
        status: MatchStatus::Nearest,
        delta_ns: Some(signed_delta(delta, takes_before)),
        record: Some(candidate.record),
    }
}

/// What all streams have for a point of the time line.
pub open spec fn row_matches(
    data: Seq<Seq<StampedRecord>>,
    time: u64,
    fill_policy: FillPolicy,
    max_skew_ns: u64,
) -> Seq<MatchResult> {
    data.map_values(
        |records: Seq<StampedRecord>| matched(records, time, fill_policy, max_skew_ns),
    )
}

/// A stream has no record for the point.
pub open spec fn has_gap(matches: Seq<MatchResult>) -> bool {
    exists|i: int| 0 <= i < matches.len() && (#[trigger] matches[i]).status == MatchStatus::Missing
}

/// The row of a point of the time line; none where a stream has no record and the row has to be
/// whole.
pub open spec fn aligned_row(
    data: Seq<Seq<StampedRecord>>,
    time: u64,
    fill_policy: FillPolicy,
    max_skew_ns: u64,
    require_all_streams: bool,
) -> Option<Seq<MatchResult>> {
    let matches = row_matches(data, time, fill_policy, max_skew_ns);
    if (require_all_streams || fill_policy == FillPolicy::Drop) && has_gap(matches) {
        None
    } else {
        Some(matches)
    }
}

/// How rows are built.
#[derive(Debug, Clone, Copy)]
pub struct AlignBuildContext {
    /// What happens to a stream without a record.
    pub fill_policy: FillPolicy,
    /// How far the nearest record may lie off.
    pub max_skew_ns: u64,
    /// Rows in which a stream has no record are left out.
    pub require_all_streams: bool,
}

/// Builds the row of a point of the time line: for each stream what it has there.
pub fn build_aligned_row(
    aligned_time_ns: u64,
    data: &[Vec<StampedRecord>],
    context: &AlignBuildContext,
) -> (row: Option<Vec<MatchResult>>)
    requires
        forall|i: int|
            #![trigger data@[i]]
            0 <= i < data@.len() ==> in_time_order(data@[i]@),
    ensures
        ({
            let expected = aligned_row(
                record_lists(data@),
                aligned_time_ns,
                context.fill_policy,
                context.max_skew_ns,
                context.require_all_streams,
            );
            match row {
                Some(row) => expected == Some(row@),
                None => expected is None,
            }
        }),
{
    let n: usize = data.len();
    let mut row: Vec<MatchResult> = Vec::new();
    let mut missing: bool = false;
    let ghost lists = record_lists(data@);
    let ghost matches = row_matches(
        lists,
        aligned_time_ns,
        context.fill_policy,
        context.max_skew_ns,
    );
    for i in 0..n
        invariant
            n == data@.len(),
            lists == record_lists(data@),
            matches == row_matches(
                lists,
                aligned_time_ns,
                context.fill_policy,
                context.max_skew_ns,
            ),
            forall|k: int| #![trigger data@[k]] 0 <= k < data@.len() ==> in_time_order(data@[k]@),
            row@.len() == i,
            forall|k: int| 0 <= k < i ==> #[trigger] row@[k] == matches[k],
            missing == exists|k: int|
                0 <= k < i && (#[trigger] matches[k]).status == MatchStatus::Missing,
    {
        let found = find_match(
            &data[i],
            aligned_time_ns,
            context.fill_policy,
            context.max_skew_ns,
        );
        assert(lists[i as int] == data@[i as int]@);
        assert(found == matches[i as int]);
        if found.status == MatchStatus::Missing {
            missing = true;
        }
        row.push(found);
    }
    assert(row@ =~= matches);
    if (context.require_all_streams || context.fill_policy == FillPolicy::Drop) && missing {
        return None;
    }
    Some(row)
}

/// The distance of two times.
pub open spec fn distance(a: u64, b: u64) -> int {
    if a < b {
        b - a
    } else {
        a - b
    }
}

/// The nearest record is the nearest one: where one is taken, no record lies nearer to the point
/// and it lies within the skew; where none is taken, every record lies farther off than the skew.
pub proof fn nearest_match_is_nearest(
    records: Seq<StampedRecord>,
    time: u64,
    max_skew_ns: u64,
    i: int,
)
    requires
        in_time_order(records),
        0 <= i < records.len(),
    ensures
        ({
            let found = matched(records, time, FillPolicy::Nearest, max_skew_ns);
            match found.status {
                MatchStatus::Exact => exists|k: int|
                    0 <= k < records.len() && (#[trigger] records[k]).ts == time && found.record
                        == Some(records[k].record),
                MatchStatus::Nearest => exists|k: int|
                    0 <= k < records.len() && found.record == Some((#[trigger] records[k]).record)
                        && distance(records[k].ts, time) <= distance(records[i].ts, time)
                        && distance(records[k].ts, time) <= max_skew_ns,
                MatchStatus::Missing => distance(records[i].ts, time) > max_skew_ns,
            }
        }),
{
    first_not_before_splits(records, time);
    let place = first_not_before(records, time);
    let n = records.len() as int;
    if place < n {
        if i > place {
            assert(records[place].ts <= records[i].ts);
        }
        assert(records[place].ts >= time);
    }
    if place > 0 {
        if i < place - 1 {
            assert(records[i].ts <= records[place - 1].ts);
        }
        assert(records[place - 1].ts < time);
    }
    assert(records[i].ts < time <==> i < place);
    let takes_before = place > 0 && (place >= n || time - records[place - 1].ts
        <= records[place].ts - time);
    let k = if takes_before {
        place - 1
    } else {
        place
    };
    let found = matched(records, time, FillPolicy::Nearest, max_skew_ns);
    if found.status == MatchStatus::Nearest {
        assert(found.record == Some(records[k].record));
    }
}

/// Tells whether records are in order of their timestamps.
pub fn check_time_order(records: &[StampedRecord]) -> (ordered: bool)
    ensures
        ordered == in_time_order(records@),
{
    let n: usize = records.len();
    for i in 0..n
        invariant
            n == records@.len(),
            forall|a: int, b: int|
                #![trigger records@[a], records@[b]]
                0 <= a < b < i ==> records@[a].ts <= records@[b].ts,
    {
        if i > 0 && records[i - 1].ts > records[i].ts {
            assert(records@[i - 1].ts > records@[i as int].ts);
            return false;
        }
        assert forall|a: int, b: int|
            #![trigger records@[a], records@[b]]
            0 <= a < b < i + 1 implies records@[a].ts <= records@[b].ts by {
            if b == i && a < i - 1 {
                assert(records@[a].ts <= records@[i - 1].ts);
            }
        }
    }
    true
}

/// A row of an alignment.
#[derive(Debug)]
pub struct AlignedRow {
    /// The point of the time line.
    pub aligned_time_ns: u64,
    /// What each stream has there.
    pub matches: Vec<MatchResult>,
}

/// A row of an alignment, as a value.
#[verifier::ext_equal]
pub struct RowModel {
    pub aligned_time_ns: u64,
    pub matches: Seq<MatchResult>,
}

impl View for AlignedRow {
    type V = RowModel;

    open spec fn view(&self) -> RowModel {
        RowModel { aligned_time_ns: self.aligned_time_ns, matches: self.matches@ }
    }
}

/// The rows of a list.
pub open spec fn row_models(rows: Seq<AlignedRow>) -> Seq<RowModel> {
    rows.map_values(|row: AlignedRow| row@)
}

/// The rows of the first `n` points of a time line.
pub open spec fn aligned_rows(
    timeline: Seq<u64>,
    data: Seq<Seq<StampedRecord>>,
    context: AlignBuildContext,
    n: int,
) -> Seq<RowModel>
    decreases n,
{
    if n <= 0 {
        Seq::empty()
    } else {
        let before = aligned_rows(timeline, data, context, n - 1);
        match aligned_row(
            data,
            timeline[n - 1],
            context.fill_policy,
            context.max_skew_ns,
            context.require_all_streams,
        ) {
            None => before,
            Some(matches) => before.push(
                RowModel { aligned_time_ns: timeline[n - 1], matches },
            ),
        }
    }
}

/// Builds the rows of a time line.
pub fn build_rows(
    timeline: &[u64],
    data: &[Vec<StampedRecord>],
    context: &AlignBuildContext,
) -> (rows: Vec<AlignedRow>)
    requires
        forall|i: int|
            #![trigger data@[i]]
            0 <= i < data@.len() ==> in_time_order(data@[i]@),
    ensures
        row_models(rows@) == aligned_rows(
            timeline@,
            record_lists(data@),
            *context,
            timeline@.len() as int,
        ),
{
    let mut rows: Vec<AlignedRow> = Vec::new();
    let n: usize = timeline.len();
    assert(row_models(rows@) =~= Seq::<RowModel>::empty());
    for i in 0..n
        invariant
            n == timeline@.len(),
            forall|k: int| #![trigger data@[k]] 0 <= k < data@.len() ==> in_time_order(data@[k]@),
            row_models(rows@) == aligned_rows(
                timeline@,
                record_lists(data@),
                *context,
                i as int,
            ),
    {
        if let Some(matches) = build_aligned_row(timeline[i], data, context) {
            let ghost before = rows@;
            rows.push(AlignedRow { aligned_time_ns: timeline[i], matches });
            assert(row_models(rows@) =~= row_models(before).push(rows@.last()@));
        }
    }
    rows
}

/// The label of a match.
pub fn match_status_label(status: MatchStatus) -> (label: &'static str)
    ensures
        label@ == match status {
            MatchStatus::Exact => "exact"@,
            MatchStatus::Nearest => "nearest"@,
            MatchStatus::Missing => "missing"@,
        },
{
    match status {
        MatchStatus::Exact => "exact",
        MatchStatus::Nearest => "nearest",
        MatchStatus::Missing => "missing",
    }
}

/// The label of a timestamp that counts.
pub fn time_field_label(field: TimeField) -> (label: &'static str)
    ensures
        label@ == match field {
            TimeField::Event => "event"@,
            TimeField::Commit => "commit"@,
        },
{
    match field {
        TimeField::Event => "event",
        TimeField::Commit => "commit",
    }
}

/// The label of an alignment mode.
pub fn align_mode_label(mode: AlignMode) -> (label: &'static str)
    ensures
        label@ == match mode {
            AlignMode::Anchor => "anchor"@,
            AlignMode::Grid => "grid"@,
        },
{
    match mode {
        AlignMode::Anchor => "anchor",
        AlignMode::Grid => "grid",
    }
}

} // verus!
