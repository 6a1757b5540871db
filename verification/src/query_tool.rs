//! The tool that indexes and queries the metadata of archives: its options and their checks.

use crate::align::{
    aligned_rows, anchor_timeline, build_anchor_timeline, build_grid, build_rows, grid_timeline,
    in_time_order, normalize_streams, normalized_streams, position_of, record_lists, row_models,
    texts, validate_stream_id, AlignBuildContext, AlignMode, AlignedRow, FillPolicy, RowModel,
    StampedRecord, TimeField, DEFAULT_ALIGN_ROW_LIMIT,
};
use crate::command::{CommandError, CommandFailure};
use crate::metadata::MetadataWatermark;
use crate::text::{decimal, is_blank, push_decimal, push_text};
use vstd::prelude::*;

verus! {

/// Most records that a range or window query gives.
pub const DEFAULT_RANGE_QUERY_LIMIT: usize = 100_000;

/// How far a catch-up goes.
#[derive(Debug, Clone, Copy, PartialEq, Eq, Structural)]
pub enum IndexCatchUpTarget {
    /// Up to what was committed when it started.
    Current,
    /// Up to what is committed when it ends.
    Latest,
}

/// What a query prints.
#[derive(Debug, Clone, Copy, PartialEq, Eq, Structural)]
pub enum QueryEmitMode {
    /// Selectors, for a replay.
    Selectors,
    /// Aligned rows.
    Aligned,
    /// A summary.
    Summary,
}

/// The options of a running indexer.
#[derive(Debug, Clone)]
pub struct IndexRunOptions {
    /// Stream that is indexed.
    pub stream_id: String,
    /// Metadata-log root of the archive.
    pub metadata_log_path: String,
    /// Path of the index database.
    pub db_path: String,
    /// Pause between two cycles, in milliseconds.
    pub poll_interval_ms: u64,
    /// Most records of a cycle.
    pub batch_max_records: usize,
    /// Whether the index is built anew.
    pub reindex: bool,
}

/// The options of a catch-up.
#[derive(Debug, Clone)]
pub struct IndexCatchUpOptions {
    /// Stream that is indexed.
    pub stream_id: String,
    /// Metadata-log root of the archive.
    pub metadata_log_path: String,
    /// Path of the index database.
    pub db_path: String,
    /// Most records of a cycle.
    pub max_records: Option<usize>,
    /// How far the catch-up goes.
    pub target: IndexCatchUpTarget,
    /// Whether the index is built anew.
    pub reindex: bool,
}

/// What the indexer is asked to do.
#[derive(Debug, Clone)]
pub enum IndexAction {
    /// Index on and on.
    Run(IndexRunOptions),
    /// Catch up once.
    CatchUp(IndexCatchUpOptions),
}

/// The options of a status report.
#[derive(Debug, Clone)]
pub struct StatusOptions {
    /// Path of the index database.
    pub db_path: String,
    /// The one stream that is reported.
    pub stream_id: Option<String>,
}

/// The options of a query for one sequence.
#[derive(Debug, Clone)]
pub struct LocateSequenceOptions {
    /// Path of the index database.
    pub db_path: String,
    /// Stream that is queried.
    pub stream_id: String,
    /// The sequence.
    pub at: u64,
}

/// The options of a query for a range of sequences.
#[derive(Debug, Clone)]
pub struct LocateRangeOptions {
    /// Path of the index database.
    pub db_path: String,
    /// Stream that is queried.
    pub stream_id: String,
    /// The first sequence.
    pub from: u64,
    /// How many sequences.
    pub count: usize,
    /// What is printed.
    pub emit: QueryEmitMode,
    /// Whether each record gets a selector of its own.
    pub expand_selectors: bool,
}

/// The options of a query for one locator.
#[derive(Debug, Clone)]
pub struct LocateLocatorOptions {
    /// Path of the index database.
    pub db_path: String,
    /// Stream that is queried.
    pub stream_id: String,
    /// The locator, in `<segment_id>:<generation>:<offset>:<frame_len>` format.
    pub at: String,
}

/// The options of a query for a time window.
#[derive(Debug, Clone)]
pub struct LocateWindowOptions {
    /// Path of the index database.
    pub db_path: String,
    /// Stream that is queried.
    pub stream_id: String,
    /// Start, in nanoseconds.
    pub start_ns: Option<u64>,
    /// End, in nanoseconds.
    pub end_ns: Option<u64>,
    /// Start, as an RFC 3339 timestamp.
    pub start_utc: Option<String>,
    /// End, as an RFC 3339 timestamp.
    pub end_utc: Option<String>,
    /// The timestamp that counts.
    pub time_field: TimeField,
    /// What is printed.
    pub emit: QueryEmitMode,
}

/// The options of an alignment.
#[derive(Debug, Clone)]
pub struct AlignWindowOptions {
    /// Path of the index database.
    pub db_path: String,
    /// Streams that are aligned.
    pub streams: Vec<String>,
    /// Start, in nanoseconds.
    pub start_ns: Option<u64>,
    /// End, in nanoseconds.
    pub end_ns: Option<u64>,
    /// Start, as an RFC 3339 timestamp.
    pub start_utc: Option<String>,
    /// End, as an RFC 3339 timestamp.
    pub end_utc: Option<String>,
    /// The timestamp that counts.
    pub time_field: TimeField,
    /// Where the time line comes from.
    pub mode: AlignMode,
    /// The stream that gives the time line.
    pub anchor_stream: Option<String>,
    /// The step of the grid.
    pub step_ns: Option<u64>,
    /// How far the nearest record may lie off.
    pub max_skew_ns: u64,
    /// What happens to a stream without a record.
    pub fill_policy: FillPolicy,
    /// Rows in which a stream has no record are left out.
    pub require_all_streams: bool,
    /// What is printed.
    pub emit: QueryEmitMode,
    /// Whether the rows say where the records come from.
    pub include_provenance: bool,
    /// Most rows of the alignment.
    pub limit: Option<usize>,
}

/// A query.
#[derive(Debug, Clone)]
pub enum QueryAction {
    /// For one sequence.
    LocateSequence(LocateSequenceOptions),
    /// For a range of sequences.
    LocateRange(LocateRangeOptions),
    /// For one locator.
    LocateLocator(LocateLocatorOptions),
    /// For a time window.
    LocateWindow(LocateWindowOptions),
    /// For an alignment of several streams.
    AlignWindow(AlignWindowOptions),
}

/// What the tool is asked to do.
#[derive(Debug, Clone)]
pub enum LogQueryAction {
    /// Index.
    Index {
        /// How.
        action: IndexAction,
    },
    /// Report how far the index is.
    Status(StatusOptions),
    /// Query.
    Query {
        /// What for.
        action: QueryAction,
    },
}

/// What is wrong with the options of a running indexer, if anything is.
pub open spec fn run_problem(options: IndexRunOptions) -> Option<Seq<char>> {
    if is_blank(options.stream_id@) {
        Some("--stream-id must not be empty"@)
    } else if options.batch_max_records == 0 {
        Some("--batch-max-records must be > 0"@)
    } else {
        None
    }
}

/// Checks the options of a running indexer.
pub fn check_index_run(options: &IndexRunOptions) -> (result: Result<(), CommandError>)
    ensures
        match result {
            Ok(_) => run_problem(*options) is None,
            Err(error) => run_problem(*options) matches Some(message) && error@
                == CommandFailure::InvalidInput(message),
        },
{
    validate_stream_id(options.stream_id.as_str())?;
    if options.batch_max_records == 0 {
        return Err(CommandError::invalid_input("--batch-max-records must be > 0"));
    }
    Ok(())
}

/// What is wrong with the options of a catch-up, if anything is.
pub open spec fn catch_up_problem(options: IndexCatchUpOptions) -> Option<Seq<char>> {
    if is_blank(options.stream_id@) {
        Some("--stream-id must not be empty"@)
    } else if options.max_records == Some(0usize) {
        Some("--max-records must be > 0 when provided"@)
    } else {
        None
    }
}

/// Checks the options of a catch-up.
pub fn check_catch_up(options: &IndexCatchUpOptions) -> (result: Result<(), CommandError>)
    ensures
        match result {
            Ok(_) => catch_up_problem(*options) is None,
            Err(error) => catch_up_problem(*options) matches Some(message) && error@
                == CommandFailure::InvalidInput(message),
        },
{
    validate_stream_id(options.stream_id.as_str())?;
    if let Some(max_records) = options.max_records {
        if max_records == 0 {
            return Err(CommandError::invalid_input("--max-records must be > 0 when provided"));
        }
    }
    Ok(())
}

/// A catch-up is done when it has reached its target, or when a cycle found nothing to index.
pub open spec fn is_caught_up(
    target: IndexCatchUpTarget,
    committed_at_start: u64,
    watermark: MetadataWatermark,
    processed: int,
) -> bool {
    processed == 0 || watermark.last_indexed_commit_ordinal >= match target {
        IndexCatchUpTarget::Current => committed_at_start,
        IndexCatchUpTarget::Latest => watermark.last_commit_ordinal,
    }
}

/// Tells after a cycle whether a catch-up is done.
pub fn catch_up_is_done(
    target: IndexCatchUpTarget,
    committed_at_start: u64,
    watermark: MetadataWatermark,
    processed: usize,
) -> (done: bool)
    ensures
        done == is_caught_up(target, committed_at_start, watermark, processed as int),
{
    let goal: u64 = match target {
        IndexCatchUpTarget::Current => committed_at_start,
        IndexCatchUpTarget::Latest => watermark.last_commit_ordinal,
    };
    watermark.last_indexed_commit_ordinal >= goal || processed == 0
}

/// The label of a target.
pub fn catch_up_target_label(target: IndexCatchUpTarget) -> (label: &'static str)
    ensures
        label@ == match target {
            IndexCatchUpTarget::Current => "current"@,
            IndexCatchUpTarget::Latest => "latest"@,
        },
{
    match target {
        IndexCatchUpTarget::Current => "current",
        IndexCatchUpTarget::Latest => "latest",
    }
}

/// The instant of an RFC 3339 timestamp in nanoseconds since the Unix epoch; where the text is
/// no such timestamp, why not.
pub uninterp spec fn rfc3339_instant(text: Seq<char>) -> Result<i128, Seq<char>>;

/// Calls `time::OffsetDateTime::parse` with the well-known description `Rfc3339`. The result,
/// as nanoseconds since the Unix epoch by `unix_timestamp_nanos`, or the error's own text,
/// depends on the text alone.
#[verifier::external_body]
fn parse_rfc3339(value: &str) -> (result: Result<i128, String>)
    ensures
        match result {
            Ok(instant) => rfc3339_instant(value@) == Ok::<i128, Seq<char>>(instant),
            Err(message) => rfc3339_instant(value@) == Err::<i128, Seq<char>>(message@),
        },
{
    match time::OffsetDateTime::parse(value, &time::format_description::well_known::Rfc3339) {
        Ok(instant) => Ok(instant.unix_timestamp_nanos()),
        Err(error) => Err(format!("{error}")),
    }
}

/// The nanoseconds of a timestamp for which `parsed` was found.
pub open spec fn epoch_of(value: Seq<char>, parsed: Result<i128, Seq<char>>) -> Result<
    u64,
    CommandFailure,
> {
    match parsed {
        Err(message) => Err(
            CommandFailure::InvalidInput(
                "invalid RFC3339 timestamp '"@ + value + "': "@ + message,
            ),
        ),
        Ok(nanos) => if nanos < 0 {
            Err(
                CommandFailure::InvalidInput(
                    "timestamp '"@ + value + "' resolves to a negative epoch value"@,
                ),
            )
        } else if nanos > u64::MAX {
            Err(
                CommandFailure::InvalidInput(
                    "timestamp '"@ + value + "' exceeds u64 nanosecond range"@,
                ),
            )
        } else {
            Ok(nanos as u64)
        },
    }
}

/// Gives the nanoseconds of a timestamp for which `parsed` was found.
pub fn epoch_ns(value: &str, parsed: Result<i128, String>) -> (result: Result<u64, CommandError>)
    ensures
        ({
            let expected = epoch_of(
                value@,
                match parsed {
                    Ok(instant) => Ok(instant),
                    Err(message) => Err(message@),
                },
            );
            match result {
                Ok(nanos) => expected == Ok::<u64, CommandFailure>(nanos),
                Err(error) => expected == Err::<u64, CommandFailure>(error@),
            }
        }),
{
    match parsed {
        Err(reason) => {
            let mut message = "invalid RFC3339 timestamp '".to_owned();
            push_text(&mut message, value);
            push_text(&mut message, "': ");
            push_text(&mut message, reason.as_str());
            Err(CommandError::InvalidInput(message))
        },
        Ok(nanos) => {
            let mut message = "timestamp '".to_owned();
            push_text(&mut message, value);
            if nanos < 0 {
                push_text(&mut message, "' resolves to a negative epoch value");
                return Err(CommandError::InvalidInput(message));
            }
            if nanos > 0xffff_ffff_ffff_ffff {
                push_text(&mut message, "' exceeds u64 nanosecond range");
                return Err(CommandError::InvalidInput(message));
            }
            Ok(nanos as u64)
        },
    }
}

/// Reads an RFC 3339 timestamp as nanoseconds since the Unix epoch.
pub fn parse_utc_ns(value: &str) -> (result: Result<u64, CommandError>)
    ensures
        match result {
            Ok(nanos) => epoch_of(value@, rfc3339_instant(value@)) == Ok::<u64, CommandFailure>(
                nanos,
            ),
            Err(error) => epoch_of(value@, rfc3339_instant(value@)) == Err::<
                u64,
                CommandFailure,
            >(error@),
        },
{
    epoch_ns(value, parse_rfc3339(value))
}

/// The text of an optional string.
pub open spec fn optional_text(value: Option<&str>) -> Option<Seq<char>> {
    match value {
        Some(text) => Some(text@),
        None => None,
    }
}

/// The window between two times.
pub open spec fn window_between(start: u64, end: u64) -> Result<(u64, u64), CommandFailure> {
    if start > end {
        Err(CommandFailure::InvalidInput("time window start must be <= end"@))
    } else {
        Ok((start, end))
    }
}

/// The window that the options give: either both bounds in nanoseconds, or both as timestamps.
pub open spec fn window_of(
    start_ns: Option<u64>,
    end_ns: Option<u64>,
    start_utc: Option<Seq<char>>,
    end_utc: Option<Seq<char>>,
) -> Result<(u64, u64), CommandFailure> {
    match (start_ns, end_ns, start_utc, end_utc) {
        (Some(start), Some(end), None, None) => window_between(start, end),
        (None, None, Some(start), Some(end)) => match epoch_of(start, rfc3339_instant(start)) {
            Err(error) => Err(error),
            Ok(start) => match epoch_of(end, rfc3339_instant(end)) {
                Err(error) => Err(error),
                Ok(end) => window_between(start, end),
            },
        },
        _ => Err(
            CommandFailure::InvalidInput(
                "provide either (--start-ns and --end-ns) or (--start-utc and --end-utc)"@,
            ),
        ),
    }
}

/// Makes a window of two times.
pub fn make_window(start: u64, end: u64) -> (result: Result<(u64, u64), CommandError>)
    ensures
        match result {
            Ok(window) => window_between(start, end) == Ok::<(u64, u64), CommandFailure>(window),
            Err(error) => window_between(start, end) == Err::<(u64, u64), CommandFailure>(error@),
        },
{
    if start > end {
        return Err(CommandError::invalid_input("time window start must be <= end"));
    }
    Ok((start, end))
}

/// Finds the window that the options give.
pub fn resolve_time_window(
    start_ns: Option<u64>,
    end_ns: Option<u64>,
    start_utc: Option<&str>,
    end_utc: Option<&str>,
) -> (result: Result<(u64, u64), CommandError>)
    ensures
        ({
            let expected = window_of(
                start_ns,
                end_ns,
                optional_text(start_utc),
                optional_text(end_utc),
            );
            match result {
                Ok(window) => expected == Ok::<(u64, u64), CommandFailure>(window),
                Err(error) => expected == Err::<(u64, u64), CommandFailure>(error@),
            }
        }),
{
    match (start_ns, end_ns, start_utc, end_utc) {
        (Some(start), Some(end), None, None) => make_window(start, end),
        (None, None, Some(start), Some(end)) => {
            let start: u64 = parse_utc_ns(start)?;
            let end: u64 = parse_utc_ns(end)?;
            make_window(start, end)
        },
        _ => Err(
            CommandError::invalid_input(
                "provide either (--start-ns and --end-ns) or (--start-utc and --end-utc)",
            ),
        ),
    }
}

/// The text of an optional string.
pub open spec fn owned_text(value: Option<String>) -> Option<Seq<char>> {
    match value {
        Some(text) => Some(text@),
        None => None,
    }
}

/// Gives an optional string as a slice.
fn as_text(value: &Option<String>) -> (text: Option<&str>)
    ensures
        optional_text(text) == owned_text(*value),
{
    match value {
        Some(text) => Some(text.as_str()),
        None => None,
    }
}

/// What is wrong with the options of a range query, if anything is.
pub open spec fn range_problem(options: LocateRangeOptions) -> Option<Seq<char>> {
    if options.count == 0 {
        Some("--count must be > 0"@)
    } else if options.count > DEFAULT_RANGE_QUERY_LIMIT {
        Some("--count must be <= "@ + decimal(DEFAULT_RANGE_QUERY_LIMIT as nat))
    } else if options.emit == QueryEmitMode::Aligned {
        Some("--emit aligned is not supported by locate-range"@)
    } else {
        None
    }
}

/// Checks the options of a range query.
pub fn check_range(options: &LocateRangeOptions) -> (result: Result<(), CommandError>)
    ensures
        match result {
            Ok(_) => range_problem(*options) is None,
            Err(error) => range_problem(*options) matches Some(message) && error@
                == CommandFailure::InvalidInput(message),
        },
{
    if options.count == 0 {
        return Err(CommandError::invalid_input("--count must be > 0"));
    }
    if options.count > DEFAULT_RANGE_QUERY_LIMIT {
        let mut message = "--count must be <= ".to_owned();
        push_decimal(&mut message, DEFAULT_RANGE_QUERY_LIMIT as u64);
        return Err(CommandError::InvalidInput(message));
    }
    if options.emit == QueryEmitMode::Aligned {
        return Err(CommandError::invalid_input("--emit aligned is not supported by locate-range"));
    }
    Ok(())
}

/// The window of a window query.
pub open spec fn query_window_of(options: LocateWindowOptions) -> Result<
    (u64, u64),
    CommandFailure,
> {
    if options.emit == QueryEmitMode::Aligned {
        Err(CommandFailure::InvalidInput("--emit aligned is not supported by locate-window"@))
    } else {
        window_of(
            options.start_ns,
            options.end_ns,
            owned_text(options.start_utc),
            owned_text(options.end_utc),
        )
    }
}

/// Checks the options of a window query and finds the window.
pub fn check_window(options: &LocateWindowOptions) -> (result: Result<(u64, u64), CommandError>)
    ensures
        match result {
            Ok(window) => query_window_of(*options) == Ok::<(u64, u64), CommandFailure>(window),
            Err(error) => query_window_of(*options) == Err::<(u64, u64), CommandFailure>(error@),
        },
{
    if options.emit == QueryEmitMode::Aligned {
        return Err(
            CommandError::invalid_input("--emit aligned is not supported by locate-window"),
        );
    }
    resolve_time_window(
        options.start_ns,
        options.end_ns,
        as_text(&options.start_utc),
        as_text(&options.end_utc),
    )
}

/// What an alignment is made of.
#[derive(Debug)]
pub struct AlignmentPlan {
    /// The streams, each once.
    pub streams: Vec<String>,
    /// Start of the window.
    pub start_ns: u64,
    /// End of the window.
    pub end_ns: u64,
    /// Most rows.
    pub limit: usize,
}

/// What an alignment is made of, as a value.
#[verifier::ext_equal]
pub struct PlanModel {
    pub streams: Seq<Seq<char>>,
    pub start_ns: u64,
    pub end_ns: u64,
    pub limit: usize,
}

impl View for AlignmentPlan {
    type V = PlanModel;

    open spec fn view(&self) -> PlanModel {
        PlanModel {
            streams: texts(self.streams@),
            start_ns: self.start_ns,
            end_ns: self.end_ns,
            limit: self.limit,
        }
    }
}

/// What is wrong with the mode of an alignment, if anything is.
pub open spec fn mode_problem(options: AlignWindowOptions, streams: Seq<Seq<char>>) -> Option<
    Seq<char>,
> {
    match options.mode {
        AlignMode::Anchor => match options.anchor_stream {
            None => Some("--anchor-stream is required with --mode anchor"@),
            Some(anchor) => if streams.contains(anchor@) {
                None
            } else {
                Some("--anchor-stream must be part of --streams"@)
            },
        },
        AlignMode::Grid => match options.step_ns {
            None => Some("--step-ns is required with --mode grid"@),
            Some(step) => if step == 0 {
                Some("--step-ns must be > 0"@)
            } else {
                None
            },
        },
    }
}

/// Most rows that an alignment may have.
pub open spec fn row_limit(options: AlignWindowOptions) -> usize {
    match options.limit {
        Some(limit) => limit,
        None => DEFAULT_ALIGN_ROW_LIMIT,
    }
}

/// The plan of an alignment.
pub open spec fn plan_of(options: AlignWindowOptions) -> Result<PlanModel, CommandFailure> {
    match normalized_streams(texts(options.streams@)) {
        Err(error) => Err(error),
        Ok(streams) => match window_of(
            options.start_ns,
            options.end_ns,
            owned_text(options.start_utc),
            owned_text(options.end_utc),
        ) {
            Err(error) => Err(error),
            Ok(window) => if !(1 <= row_limit(options) <= DEFAULT_ALIGN_ROW_LIMIT) {
                Err(
                    CommandFailure::InvalidInput(
                        "--limit must be in [1, "@ + decimal(DEFAULT_ALIGN_ROW_LIMIT as nat)
                            + "]"@,
                    ),
                )
            } else {
                match mode_problem(options, streams) {
                    Some(message) => Err(CommandFailure::InvalidInput(message)),
                    None => Ok(
                        PlanModel {
                            streams,
                            start_ns: window.0,
                            end_ns: window.1,
                            limit: row_limit(options),
                        },
                    ),
                }
            },
        },
    }
}

/// Checks the mode of an alignment.
fn check_mode(options: &AlignWindowOptions, streams: &[String]) -> (result: Result<
    (),
    CommandError,
>)
    ensures
        match result {
            Ok(_) => mode_problem(*options, texts(streams@)) is None,
            Err(error) => mode_problem(*options, texts(streams@)) matches Some(message) && error@
                == CommandFailure::InvalidInput(message),
        },
{
    match options.mode {
        AlignMode::Anchor => match &options.anchor_stream {
            None => Err(
                CommandError::invalid_input("--anchor-stream is required with --mode anchor"),
            ),
            Some(anchor) => if position_of(streams, anchor.as_str()).is_some() {
                Ok(())
            } else {
                Err(CommandError::invalid_input("--anchor-stream must be part of --streams"))
            },
        },
        AlignMode::Grid => match options.step_ns {
            None => Err(CommandError::invalid_input("--step-ns is required with --mode grid")),
            Some(step) => if step == 0 {
                Err(CommandError::invalid_input("--step-ns must be > 0"))
            } else {
                Ok(())
            },
        },
    }
}

/// Checks the options of an alignment and finds what it is made of.
pub fn plan_alignment(options: &AlignWindowOptions) -> (result: Result<
    AlignmentPlan,
    CommandError,
>)
    ensures
        match result {
            Ok(plan) => plan_of(*options) == Ok::<PlanModel, CommandFailure>(plan@),
            Err(error) => plan_of(*options) == Err::<PlanModel, CommandFailure>(error@),
        },
{
    let streams = normalize_streams(options.streams.as_slice())?;
    let (start_ns, end_ns) = resolve_time_window(
        options.start_ns,
        options.end_ns,
        as_text(&options.start_utc),
        as_text(&options.end_utc),
    )?;
    let limit: usize = match options.limit {
        Some(limit) => limit,
        None => DEFAULT_ALIGN_ROW_LIMIT,
    };
    if limit == 0 || limit > DEFAULT_ALIGN_ROW_LIMIT {
        let mut message = "--limit must be in [1, ".to_owned();
        push_decimal(&mut message, DEFAULT_ALIGN_ROW_LIMIT as u64);
        push_text(&mut message, "]");
        return Err(CommandError::InvalidInput(message));
    }
    check_mode(options, streams.as_slice())?;
    Ok(AlignmentPlan { streams, start_ns, end_ns, limit })
}

/// The time line of an alignment.
pub open spec fn timeline_of(
    options: AlignWindowOptions,
    plan: PlanModel,
    data: Seq<Seq<StampedRecord>>,
) -> Result<Seq<u64>, CommandFailure> {
    match options.mode {
        AlignMode::Anchor => anchor_timeline(
            plan.streams,
            data,
            owned_text(options.anchor_stream),
            plan.limit,
        ),
        AlignMode::Grid => grid_timeline(
            options.step_ns,
            plan.start_ns,
            plan.end_ns,
            plan.limit,
        ),
    }
}

/// Builds the time line of an alignment.
pub fn build_timeline(
    options: &AlignWindowOptions,
    plan: &AlignmentPlan,
    data: &[Vec<StampedRecord>],
) -> (result: Result<Vec<u64>, CommandError>)
    requires
        plan.streams@.len() == data@.len(),
    ensures
        match result {
            Ok(timeline) => timeline_of(*options, plan@, record_lists(data@)) == Ok::<
                Seq<u64>,
                CommandFailure,
            >(timeline@),
            Err(error) => timeline_of(*options, plan@, record_lists(data@)) == Err::<
                Seq<u64>,
                CommandFailure,
            >(error@),
        },
{
    match options.mode {
        AlignMode::Anchor => build_anchor_timeline(
            plan.streams.as_slice(),
            data,
            as_text(&options.anchor_stream),
            plan.limit,
        ),
        AlignMode::Grid => build_grid(options.step_ns, plan.start_ns, plan.end_ns, plan.limit),
    }
}

/// How the rows of an alignment are built.
pub open spec fn context_of(options: AlignWindowOptions) -> AlignBuildContext {
    AlignBuildContext {
        fill_policy: options.fill_policy,
        max_skew_ns: options.max_skew_ns,
        require_all_streams: options.require_all_streams,
    }
}

/// The rows of an alignment.
pub open spec fn alignment(
    options: AlignWindowOptions,
    plan: PlanModel,
    data: Seq<Seq<StampedRecord>>,
) -> Result<Seq<RowModel>, CommandFailure> {
    match timeline_of(options, plan, data) {
        Err(error) => Err(error),
        Ok(timeline) => Ok(
            aligned_rows(timeline, data, context_of(options), timeline.len() as int),
        ),
    }
}

/// Aligns the records of the planned streams.
pub fn align_window(
    options: &AlignWindowOptions,
    plan: &AlignmentPlan,
    data: &[Vec<StampedRecord>],
) -> (result: Result<Vec<AlignedRow>, CommandError>)
    requires
        plan.streams@.len() == data@.len(),
        forall|i: int|
            #![trigger data@[i]]
            0 <= i < data@.len() ==> in_time_order(data@[i]@),
    ensures
        match result {
            Ok(rows) => alignment(*options, plan@, record_lists(data@)) == Ok::<
                Seq<RowModel>,
                CommandFailure,
            >(row_models(rows@)),
            Err(error) => alignment(*options, plan@, record_lists(data@)) == Err::<
                Seq<RowModel>,
                CommandFailure,
            >(error@),
        },
{
    let timeline = build_timeline(options, plan, data)?;
    let context = AlignBuildContext {
        fill_policy: options.fill_policy,
        max_skew_ns: options.max_skew_ns,
        require_all_streams: options.require_all_streams,
    };
    Ok(build_rows(timeline.as_slice(), data, &context))
}

} // verus!
