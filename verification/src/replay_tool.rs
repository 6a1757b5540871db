//! The tool that replays the records of an archive.

use crate::adapter::{adapter_metadata, decode_adapter_user_header};
use crate::command::{
    locator_text, map_replay_error, missing_archive, missing_part, push_locator, replay_failure,
    text_or, ArchivePaths, CommandError, CommandFailure, Roots,
};
use crate::error::ArchiveReplayError;
use crate::order::lower_bound_of;
use crate::query_tool::owned_text;
use crate::replayer::{
    all_sequences, batch_keeps_budget, budgeted_batch, entry_frame, indexed_entry,
    located_frame, smaller, ArchiveReplayer, ReplayerModel,
};
use crate::selectors::{parse_usable_locator, usable_locator_of, Selector};
use crate::store::{ArchiveStore, StoreModel};
use crate::text::{blank, decimal, is_blank, push_decimal, push_text};
use crate::types::{frame_models, ArchiveLocator, FrameModel, ReplayedFrame};
use vstd::prelude::*;

verus! {

/// Where replayed records go.
#[derive(Debug, Clone, Copy, PartialEq, Eq, Structural)]
pub enum ReplayDestination {
    /// To the standard output.
    Stdout,
    /// To a publish-subscribe service.
    PublishSubscribe,
}

/// How fast records are replayed.
#[derive(Debug, Clone, Copy, PartialEq, Eq, Structural)]
pub enum ReplayRateMode {
    /// As fast as possible.
    Fast,
    /// As they were recorded.
    Recorded,
    /// At a fixed rate.
    Fixed,
}

/// How selectors are written down.
#[derive(Debug, Clone, Copy, PartialEq, Eq, Structural)]
pub enum SelectorFormat {
    /// A JSON record in each line.
    Ndjson,
    /// A table with a header.
    Csv,
}

/// One record, by its sequence.
#[derive(Debug, Clone)]
pub struct SequenceSelector {
    /// The sequence.
    pub at: u64,
}

/// A range of sequences.
#[derive(Debug, Clone)]
pub struct RangeSelector {
    /// The first sequence.
    pub from: u64,
    /// How many records.
    pub count: usize,
}

/// One record, by its locator.
#[derive(Debug, Clone)]
pub struct LocatorSelector {
    /// The locator, in `<segment_id>:<generation>:<offset>:<frame_len>` format.
    pub at: String,
}

/// Selectors from a stream.
#[derive(Debug, Clone)]
pub struct SelectorsSelector {
    /// Whether they come from the standard input.
    pub stdin: bool,
    /// The file they come from otherwise.
    pub file: Option<String>,
    /// How they are written down.
    pub selector_format: SelectorFormat,
}

/// Which records are replayed.
#[derive(Debug, Clone)]
pub enum ReplaySelector {
    /// Every record, in order of the sequences.
    All,
    /// One record by its sequence.
    Sequence(SequenceSelector),
    /// A range of sequences.
    Range(RangeSelector),
    /// One record by its locator.
    Locator(LocatorSelector),
    /// What the selectors of a stream select.
    Selectors(SelectorsSelector),
}

/// The options of a replay.
#[derive(Debug, Clone)]
pub struct ReplayOptions {
    /// Storage root of the archive.
    pub storage_path: String,
    /// Metadata-log root of the archive.
    pub metadata_log_path: Option<String>,
    /// Where the records go.
    pub to: ReplayDestination,
    /// Name of the destination service.
    pub service: Option<String>,
    /// How fast the records are replayed.
    pub rate: ReplayRateMode,
    /// The fixed rate.
    pub messages_per_sec: Option<u64>,
    /// Longest pause at the recorded rate, in milliseconds.
    pub max_recorded_gap_ms: u64,
    /// Node name for a destination service.
    pub node_name: String,
    /// Whether missing records are skipped.
    pub skip_missing: bool,
    /// With how many errors the replay fails.
    pub max_errors: Option<usize>,
    /// Whether newly committed records are followed.
    pub follow: bool,
    /// Pause between two looks for new records, in milliseconds.
    pub follow_poll_ms: u64,
    /// How long to wait for a new record, in milliseconds.
    pub follow_idle_timeout_ms: Option<u64>,
    /// Which records are replayed.
    pub selector: ReplaySelector,
}

/// What the tool is asked to do.
#[derive(Debug, Clone)]
pub enum LogReplayAction {
    /// Replay records.
    Replay(ReplayOptions),
}

/// The sum of two numbers, or the highest number there is.
pub open spec fn capped_sum(a: usize, b: usize) -> usize {
    if a + b > usize::MAX {
        usize::MAX
    } else {
        (a + b) as usize
    }
}

/// Adds two numbers, up to the highest there is.
fn add_capped(a: usize, b: usize) -> (sum: usize)
    ensures
        sum == capped_sum(a, b),
{
    if b > usize::MAX - a {
        usize::MAX
    } else {
        a + b
    }
}

/// What a replay has done so far.
#[derive(Debug, Clone, Copy, PartialEq, Eq, Structural)]
pub struct ReplayCounters {
    /// Records that were selected.
    pub selected: usize,
    /// Records that were emitted.
    pub emitted: usize,
    /// Missing records that were skipped.
    pub skipped_missing: usize,
    /// Missing records that count as errors.
    pub errors: usize,
    /// Bytes of user headers and payloads that were emitted.
    pub bytes_emitted: usize,
}

/// A replay that has done nothing yet.
pub open spec fn no_counts() -> ReplayCounters {
    ReplayCounters { selected: 0, emitted: 0, skipped_missing: 0, errors: 0, bytes_emitted: 0 }
}

/// The counters after `missing` records were not found, and the failure where there are too many
/// errors.
pub open spec fn missed(
    counters: ReplayCounters,
    missing: usize,
    skip_missing: bool,
    max_errors: usize,
    context: Seq<char>,
) -> (ReplayCounters, Result<(), CommandFailure>) {
    if missing == 0 {
        (counters, Ok(()))
    } else if skip_missing {
        (
            ReplayCounters {
                skipped_missing: capped_sum(counters.skipped_missing, missing),
                ..counters
            },
            Ok(()),
        )
    } else {
        let errors = capped_sum(counters.errors, missing);
        (
            ReplayCounters { errors, ..counters },
            if errors >= max_errors {
                Err(
                    CommandFailure::NotAvailable(
                        context + "; reached error limit ("@ + decimal(errors as nat) + "/"@
                            + decimal(max_errors as nat) + ")"@,
                    ),
                )
            } else {
                Ok(())
            },
        )
    }
}

/// The user header of a frame as its source wrote it: without the prefix of the adapter.
pub open spec fn source_user_header(user_header: Seq<u8>) -> Seq<u8> {
    if adapter_metadata(user_header) is Some {
        user_header.subrange(40, user_header.len() as int)
    } else {
        user_header
    }
}

/// Gives the user header of a frame as its source wrote it.
pub fn effective_user_header(frame: &ReplayedFrame) -> (header: &[u8])
    ensures
        header@ == source_user_header(frame@.user_header),
{
    match decode_adapter_user_header(frame.user_header.as_slice()) {
        Some(decoded) => decoded.user_header,
        None => frame.user_header.as_slice(),
    }
}

/// The counters after a frame was emitted.
pub open spec fn emitted(counters: ReplayCounters, frame: FrameModel) -> ReplayCounters {
    ReplayCounters {
        emitted: capped_sum(counters.emitted, 1),
        bytes_emitted: capped_sum(
            capped_sum(counters.bytes_emitted, frame.payload.len() as usize),
            source_user_header(frame.user_header).len() as usize,
        ),
        ..counters
    }
}

impl ReplayCounters {
    /// A replay that has done nothing yet.
    pub fn new() -> (counters: ReplayCounters)
        ensures
            counters == no_counts(),
    {
        ReplayCounters { selected: 0, emitted: 0, skipped_missing: 0, errors: 0, bytes_emitted: 0 }
    }

    /// Counts records that were not found.
    pub fn handle_missing(
        &mut self,
        missing: usize,
        skip_missing: bool,
        max_errors: usize,
        context: &str,
    ) -> (result: Result<(), CommandError>)
        ensures
            ({
                let expected = missed(*old(self), missing, skip_missing, max_errors, context@);
                &&& *final(self) == expected.0
                &&& match result {
                    Ok(_) => expected.1 is Ok,
                    Err(error) => expected.1 == Err::<(), CommandFailure>(error@),
                }
            }),
    {
        if missing == 0 {
            return Ok(());
        }
        if skip_missing {
            self.skipped_missing = add_capped(self.skipped_missing, missing);
            return Ok(());
        }
        self.errors = add_capped(self.errors, missing);
        if self.errors >= max_errors {
            let mut message = context.to_owned();
            push_text(&mut message, "; reached error limit (");
            push_decimal(&mut message, self.errors as u64);
            push_text(&mut message, "/");
            push_decimal(&mut message, max_errors as u64);
            push_text(&mut message, ")");
            return Err(CommandError::NotAvailable(message));
        }
        Ok(())
    }

    /// Counts a frame that was emitted.
    pub fn note_emitted(&mut self, frame: &ReplayedFrame)
        ensures
            *final(self) == emitted(*old(self), frame@),
    {
        self.emitted = add_capped(self.emitted, 1);
        self.bytes_emitted = add_capped(self.bytes_emitted, frame.payload.len());
        self.bytes_emitted = add_capped(self.bytes_emitted, effective_user_header(frame).len());
    }
}

/// How long to wait before a record is emitted.
#[derive(Debug, Clone, Copy, PartialEq, Eq, Structural)]
pub enum ReplayPause {
    /// Not at all.
    NoPause,
    /// The interval of the fixed rate.
    FixedInterval,
    /// So many nanoseconds.
    Nanoseconds(u64),
}

/// Keeps the rate of a replay.
#[derive(Debug, Clone, Copy, PartialEq, Eq, Structural)]
pub struct ReplayPacer {
    /// How fast records are replayed.
    pub mode: ReplayRateMode,
    /// Longest pause at the recorded rate, in milliseconds.
    pub max_recorded_gap_ms: u64,
    /// Event time of the record before.
    pub last_event_time_ns: Option<u64>,
    /// How many records have passed.
    pub emitted_records: usize,
}

/// What is wrong with the rate that options ask for, if anything is.
pub open spec fn rate_problem(rate: ReplayRateMode, messages_per_sec: Option<u64>) -> Option<
    Seq<char>,
> {
    match (rate, messages_per_sec) {
        (ReplayRateMode::Fixed, None) => Some(
            "--messages-per-sec is required when --rate=fixed"@,
        ),
        (ReplayRateMode::Fixed, Some(number)) => if number == 0 {
            Some("--messages-per-sec must be > 0"@)
        } else {
            None
        },
        (_, Some(_)) => Some("--messages-per-sec is only valid when --rate=fixed"@),
        (_, None) => None,
    }
}

/// The pause before a record, and the pacer behind it. At the recorded rate the pause is what
/// lay between the events, up to the longest pause.
pub open spec fn paced(pacer: ReplayPacer, event_time_ns: u64) -> (ReplayPacer, ReplayPause) {
    let behind = ReplayPacer {
        emitted_records: capped_sum(pacer.emitted_records, 1),
        last_event_time_ns: if pacer.mode == ReplayRateMode::Recorded {
            Some(event_time_ns)
        } else {
            pacer.last_event_time_ns
        },
        ..pacer
    };
    let pause = match pacer.mode {
        ReplayRateMode::Fast => ReplayPause::NoPause,
        ReplayRateMode::Fixed => if pacer.emitted_records > 0 {
            ReplayPause::FixedInterval
        } else {
            ReplayPause::NoPause
        },
        ReplayRateMode::Recorded => match pacer.last_event_time_ns {
            None => ReplayPause::NoPause,
            Some(previous) => {
                let gap = event_time_ns - previous;
                let longest = pacer.max_recorded_gap_ms * 1_000_000;
                if gap <= 0 || longest == 0 {
                    ReplayPause::NoPause
                } else if gap < longest {
                    ReplayPause::Nanoseconds(gap as u64)
                } else {
                    ReplayPause::Nanoseconds(longest as u64)
                }
            },
        },
    };
    (behind, pause)
}

impl ReplayPacer {
    /// Makes the pacer that options ask for.
    pub fn new(options: &ReplayOptions) -> (result: Result<ReplayPacer, CommandError>)
        ensures
            match result {
                Ok(pacer) => rate_problem(options.rate, options.messages_per_sec) is None && pacer
                    == (ReplayPacer {
                    mode: options.rate,
                    max_recorded_gap_ms: options.max_recorded_gap_ms,
                    last_event_time_ns: None,
                    emitted_records: 0,
                }),
                Err(error) => rate_problem(options.rate, options.messages_per_sec) matches Some(
                    message,
                ) && error@ == CommandFailure::InvalidInput(message),
            },
            result is Ok <==> match options.messages_per_sec {
                Some(number) => options.rate is Fixed && number > 0,
                None => !(options.rate is Fixed),
            },
    {
        match options.rate {
            ReplayRateMode::Fixed => match options.messages_per_sec {
                None => {
                    return Err(
                        CommandError::invalid_input(
                            "--messages-per-sec is required when --rate=fixed",
                        ),
                    );
                },
                Some(number) => {
                    if number == 0 {
                        return Err(CommandError::invalid_input("--messages-per-sec must be > 0"));
                    }
                },
            },
            _ => {
                if options.messages_per_sec.is_some() {
                    return Err(
                        CommandError::invalid_input(
                            "--messages-per-sec is only valid when --rate=fixed",
                        ),
                    );
                }
            },
        }
        Ok(
            ReplayPacer {
                mode: options.rate,
                max_recorded_gap_ms: options.max_recorded_gap_ms,
                last_event_time_ns: None,
                emitted_records: 0,
            },
        )
    }

    /// Says how long to wait before a record is emitted.
    pub fn pace(&mut self, event_time_ns: u64) -> (pause: ReplayPause)
        ensures
            (*final(self), pause) == paced(*old(self), event_time_ns),
            old(self).mode is Fast ==> pause is NoPause,
            old(self).mode is Fixed ==> (pause is FixedInterval <==> old(self).emitted_records > 0)
                && !(pause is Nanoseconds),
            old(self).mode is Recorded ==> !(pause is FixedInterval),
            old(self).mode is Recorded && old(self).last_event_time_ns is None ==> pause is NoPause,
            final(self).mode == old(self).mode,
            final(self).max_recorded_gap_ms == old(self).max_recorded_gap_ms,
            old(self).emitted_records < usize::MAX ==> final(self).emitted_records
                == old(self).emitted_records + 1,
            old(self).mode is Recorded ==> final(self).last_event_time_ns == Some(event_time_ns),
    {
        let pause = match self.mode {
            ReplayRateMode::Fast => ReplayPause::NoPause,
            ReplayRateMode::Fixed => if self.emitted_records > 0 {
                ReplayPause::FixedInterval
            } else {
                ReplayPause::NoPause
            },
            ReplayRateMode::Recorded => {
                let pause = match self.last_event_time_ns {
                    None => ReplayPause::NoPause,
                    Some(previous) => {
                        let longest: u128 = self.max_recorded_gap_ms as u128 * 1_000_000;
                        if event_time_ns <= previous || longest == 0 {
                            ReplayPause::NoPause
                        } else {
                            let gap: u64 = event_time_ns - previous;
                            if (gap as u128) < longest {
                                ReplayPause::Nanoseconds(gap)
                            } else {
                                ReplayPause::Nanoseconds(longest as u64)
                            }
                        }
                    },
                };
                self.last_event_time_ns = Some(event_time_ns);
                pause
            },
        };
        self.emitted_records = add_capped(self.emitted_records, 1);
        pause
    }
}

/// The destination service that options name; none for the standard output.
pub open spec fn destination_of(to: ReplayDestination, service: Option<Seq<char>>) -> Result<
    Option<Seq<char>>,
    CommandFailure,
> {
    match (to, service) {
        (ReplayDestination::Stdout, Some(_)) => Err(
            CommandFailure::InvalidInput("--service is only valid with --to=publish-subscribe"@),
        ),
        (ReplayDestination::Stdout, None) => Ok(None),
        (ReplayDestination::PublishSubscribe, None) => Err(
            CommandFailure::InvalidInput("--service is required for --to=publish-subscribe"@),
        ),
        (ReplayDestination::PublishSubscribe, Some(service)) => if is_blank(service) {
            Err(CommandFailure::InvalidInput("--service must not be empty"@))
        } else {
            Ok(Some(service))
        },
    }
}

/// Finds the destination service that options name.
pub fn destination_service(options: &ReplayOptions) -> (result: Result<
    Option<String>,
    CommandError,
>)
    ensures
        ({
            let expected = destination_of(options.to, owned_text(options.service));
            match result {
                Ok(service) => expected == Ok::<Option<Seq<char>>, CommandFailure>(
                    owned_text(service),
                ),
                Err(error) => expected == Err::<Option<Seq<char>>, CommandFailure>(error@),
            }
        }),
{
    match options.to {
        ReplayDestination::Stdout => {
            if options.service.is_some() {
                return Err(
                    CommandError::invalid_input(
                        "--service is only valid with --to=publish-subscribe",
                    ),
                );
            }
            Ok(None)
        },
        ReplayDestination::PublishSubscribe => match &options.service {
            None => Err(
                CommandError::invalid_input("--service is required for --to=publish-subscribe"),
            ),
            Some(service) => {
                if blank(service.as_str()) {
                    return Err(CommandError::invalid_input("--service must not be empty"));
                }
                Ok(Some(service.clone()))
            },
        },
    }
}

/// With how many errors a replay fails.
pub open spec fn error_limit(max_errors: Option<usize>, skip_missing: bool) -> usize {
    match max_errors {
        Some(limit) => limit,
        None => if skip_missing {
            usize::MAX
        } else {
            1
        },
    }
}

/// What a replay needs besides the archive.
#[derive(Debug)]
pub struct ReplaySetup {
    /// The destination service; none for the standard output.
    pub service: Option<String>,
    /// Keeps the rate.
    pub pacer: ReplayPacer,
    /// With how many errors the replay fails.
    pub max_errors: usize,
}

/// Why a replay cannot start, if it cannot.
pub open spec fn setup_failure(options: ReplayOptions, store: StoreModel) -> Option<
    CommandFailure,
> {
    let roots = Roots {
        storage: options.storage_path@,
        metadata: text_or(options.metadata_log_path, options.storage_path@),
    };
    if is_blank(options.node_name@) {
        Some(CommandFailure::InvalidInput("--node-name must not be empty"@))
    } else if options.max_errors == Some(0usize) {
        Some(CommandFailure::InvalidInput("--max-errors must be > 0"@))
    } else {
        match missing_part(store) {
            Some(part) => Some(missing_archive(roots, None, part)),
            None => match destination_of(options.to, owned_text(options.service)) {
                Err(error) => Some(error),
                Ok(_) => match rate_problem(options.rate, options.messages_per_sec) {
                    Some(message) => Some(CommandFailure::InvalidInput(message)),
                    None => None,
                },
            },
        }
    }
}

/// Checks the options of a replay against the archive.
pub fn prepare_replay(options: &ReplayOptions, store: &ArchiveStore) -> (result: Result<
    ReplaySetup,
    CommandError,
>)
    ensures
        match result {
            Ok(setup) => {
                &&& setup_failure(*options, store@) is None
                &&& destination_of(options.to, owned_text(options.service)) == Ok::<
                    Option<Seq<char>>,
                    CommandFailure,
                >(owned_text(setup.service))
                &&& setup.pacer == (ReplayPacer {
                    mode: options.rate,
                    max_recorded_gap_ms: options.max_recorded_gap_ms,
                    last_event_time_ns: None,
                    emitted_records: 0,
                })
                &&& setup.max_errors == error_limit(options.max_errors, options.skip_missing)
            },
            Err(error) => setup_failure(*options, store@) == Some(error@),
        },
{
    if blank(options.node_name.as_str()) {
        return Err(CommandError::invalid_input("--node-name must not be empty"));
    }
    if options.max_errors == Some(0) {
        return Err(CommandError::invalid_input("--max-errors must be > 0"));
    }
    let paths = ArchivePaths::new(options.storage_path.as_str(), &options.metadata_log_path);
    paths.ensure_archive_exists(store, None)?;
    let service = destination_service(options)?;
    let pacer = ReplayPacer::new(options)?;
    let max_errors: usize = match options.max_errors {
        Some(limit) => limit,
        None => if options.skip_missing {
            usize::MAX
        } else {
            1
        },
    };
    Ok(ReplaySetup { service, pacer, max_errors })
}

/// The selectors that an option stands for by itself. `sequences` are those of the archive.
/// There is none where they come from a stream.
pub open spec fn direct_selectors_of(selector: ReplaySelector, sequences: Seq<u64>) -> Result<
    Option<Seq<Selector>>,
    CommandFailure,
> {
    match selector {
        ReplaySelector::All => Ok(
            Some(sequences.map_values(|sequence: u64| Selector::Sequence(sequence))),
        ),
        ReplaySelector::Sequence(selector) => Ok(Some(seq![Selector::Sequence(selector.at)])),
        ReplaySelector::Range(selector) => if selector.count == 0 {
            Err(CommandFailure::InvalidInput("--count must be > 0"@))
        } else {
            Ok(Some(seq![Selector::Range { from: selector.from, count: selector.count }]))
        },
        ReplaySelector::Locator(selector) => match usable_locator_of(selector.at@) {
            Err(error) => Err(error),
            Ok(locator) => Ok(Some(seq![Selector::Locator(locator)])),
        },
        ReplaySelector::Selectors(_) => Ok(None),
    }
}

/// A list, as a sequence.
pub open spec fn optional_list(list: Option<Vec<Selector>>) -> Option<Seq<Selector>> {
    match list {
        Some(list) => Some(list@),
        None => None,
    }
}

/// A list of one selector.
fn single(selector: Selector) -> (list: Vec<Selector>)
    ensures
        list@ == seq![selector],
{
    let mut list: Vec<Selector> = Vec::new();
    list.push(selector);
    assert(list@ =~= seq![selector]);
    list
}

/// Gives the selectors that an option stands for by itself.
pub fn selectors_from_options(selector: &ReplaySelector, sequences: &[u64]) -> (result: Result<
    Option<Vec<Selector>>,
    CommandError,
>)
    ensures
        ({
            let expected = direct_selectors_of(*selector, sequences@);
            match result {
                Ok(list) => expected == Ok::<Option<Seq<Selector>>, CommandFailure>(
                    optional_list(list),
                ),
                Err(error) => expected == Err::<Option<Seq<Selector>>, CommandFailure>(error@),
            }
        }),
{
    match selector {
        ReplaySelector::All => {
            let n: usize = sequences.len();
            let mut list: Vec<Selector> = Vec::new();
            for i in 0..n
                invariant
                    n == sequences@.len(),
                    list@.len() == i,
                    forall|k: int|
                        0 <= k < i ==> #[trigger] list@[k] == Selector::Sequence(sequences@[k]),
            {
                list.push(Selector::Sequence(sequences[i]));
            }
            assert(list@ =~= sequences@.map_values(|sequence: u64| Selector::Sequence(sequence)));
            Ok(Some(list))
        },
        ReplaySelector::Sequence(selector) => Ok(Some(single(Selector::Sequence(selector.at)))),
        ReplaySelector::Range(selector) => {
            if selector.count == 0 {
                return Err(CommandError::invalid_input("--count must be > 0"));
            }
            Ok(Some(single(Selector::Range { from: selector.from, count: selector.count })))
        },
        ReplaySelector::Locator(selector) => {
            let locator = parse_usable_locator(selector.at.as_str())?;
            Ok(Some(single(Selector::Locator(locator))))
        },
        ReplaySelector::Selectors(_) => Ok(None),
    }
}

/// The replay of a range so far.
#[derive(Debug, Clone, Copy, PartialEq, Eq, Structural)]
pub struct RangeProgress {
    /// The first sequence of the range.
    pub from: u64,
    /// How many records it has.
    pub count: usize,
    /// Where the next batch starts; none behind the highest sequence there is.
    pub next: Option<u64>,
    /// How many records are still to come.
    pub remaining: usize,
    /// How many records were found.
    pub found: usize,
}

/// A replay: it walks through the selectors and hands out frames, one batch in each step.
#[derive(Debug)]
pub struct ReplayRun {
    /// The selectors.
    pub selectors: Vec<Selector>,
    /// The selector whose turn it is.
    pub place: usize,
    /// The range that is being replayed.
    pub range: Option<RangeProgress>,
    /// Whether missing records are skipped.
    pub skip_missing: bool,
    /// With how many errors the replay fails.
    pub max_errors: usize,
    /// What was done so far.
    pub counters: ReplayCounters,
}

/// A replay, as a value.
#[verifier::ext_equal]
pub struct RunModel {
    pub selectors: Seq<Selector>,
    pub place: usize,
    pub range: Option<RangeProgress>,
    pub skip_missing: bool,
    pub max_errors: usize,
    pub counters: ReplayCounters,
}

impl View for ReplayRun {
    type V = RunModel;

    open spec fn view(&self) -> RunModel {
        RunModel {
            selectors: self.selectors@,
            place: self.place,
            range: self.range,
            skip_missing: self.skip_missing,
            max_errors: self.max_errors,
            counters: self.counters,
        }
    }
}

/// What a step of a replay gives: a batch of frames, nothing at the end, or a failure.
pub type StepResult = Result<Option<Seq<FrameModel>>, CommandFailure>;

/// The step in which `missing` records were not found.
pub open spec fn missing_step(run: RunModel, missing: usize, context: Seq<char>) -> (
    RunModel,
    StepResult,
) {
    let (counters, result) = missed(
        run.counters,
        missing,
        run.skip_missing,
        run.max_errors,
        context,
    );
    (
        RunModel { counters, ..run },
        match result {
            Ok(_) => Ok(Some(Seq::<FrameModel>::empty())),
            Err(error) => Err(error),
        },
    )
}

/// The step for one sequence.
pub open spec fn sequence_step(
    run: RunModel,
    store: StoreModel,
    replayer: ReplayerModel,
    roots: Roots,
    sequence: u64,
) -> (RunModel, StepResult) {
    match indexed_entry(replayer.index, sequence) {
        None => missing_step(
            run,
            1,
            "sequence "@ + decimal(sequence as nat) + " is not available"@,
        ),
        Some(entry) => match entry_frame(store, entry, replayer.verify) {
            Err(error) => (run, Err(replay_failure(roots, error))),
            Ok(frame) => (run, Ok(Some(seq![frame]))),
        },
    }
}

/// The step for one locator. Only a segment that is not there counts as missing.
pub open spec fn locator_step(
    run: RunModel,
    store: StoreModel,
    replayer: ReplayerModel,
    roots: Roots,
    locator: ArchiveLocator,
) -> (RunModel, StepResult) {
    match located_frame(store, locator, replayer.verify) {
        Ok(frame) => (run, Ok(Some(seq![frame]))),
        Err(ArchiveReplayError::MissingSegment(_)) => missing_step(
            run,
            1,
            "locator "@ + locator_text(locator) + " is not available"@,
        ),
        Err(error) => (run, Err(replay_failure(roots, error))),
    }
}

/// The step that ends a range.
pub open spec fn range_end_step(run: RunModel, progress: RangeProgress) -> (RunModel, StepResult) {
    let missing = if progress.count > progress.found {
        (progress.count - progress.found) as usize
    } else {
        0
    };
    missing_step(
        RunModel { range: None, ..run },
        missing,
        "range from "@ + decimal(progress.from as nat) + " count "@ + decimal(
            progress.count as nat,
        ) + " resolved only "@ + decimal(progress.found as nat) + " records"@,
    )
}

/// The range behind a batch.
pub open spec fn advanced(progress: RangeProgress, frames: Seq<FrameModel>) -> RangeProgress {
    RangeProgress {
        next: if frames.last().sequence == u64::MAX {
            None
        } else {
            Some((frames.last().sequence + 1) as u64)
        },
        remaining: if progress.remaining > frames.len() {
            (progress.remaining - frames.len()) as usize
        } else {
            0
        },
        found: capped_sum(progress.found, frames.len() as usize),
        ..progress
    }
}

/// Most records of a batch of a range.
pub open spec fn batch_size(remaining: usize) -> usize {
    if remaining < 1024 {
        remaining
    } else {
        1024
    }
}

/// The step within a range.
pub open spec fn range_step(
    run: RunModel,
    store: StoreModel,
    replayer: ReplayerModel,
    roots: Roots,
    progress: RangeProgress,
) -> (RunModel, StepResult) {
    match progress.next {
        None => (
            run,
            Err(CommandFailure::InvalidInput("sequence overflow while replaying range"@)),
        ),
        Some(next) => if progress.remaining == 0 {
            range_end_step(run, progress)
        } else {
            match budgeted_batch(
                store,
                replayer.index,
                lower_bound_of(all_sequences(replayer.index), next),
                batch_size(progress.remaining),
                replayer.budget,
                replayer.verify,
            ).frames {
                Err(error) => (run, Err(replay_failure(roots, error))),
                Ok(frames) => if frames.len() == 0 {
                    range_end_step(run, progress)
                } else {
                    (
                        RunModel { range: Some(advanced(progress, frames)), ..run },
                        Ok(Some(frames)),
                    )
                },
            }
        },
    }
}

/// The run with `count` more records selected, at the next selector.
pub open spec fn selecting(run: RunModel, count: usize) -> RunModel {
    RunModel {
        place: (run.place + 1) as usize,
        counters: ReplayCounters {
            selected: capped_sum(run.counters.selected, count),
            ..run.counters
        },
        ..run
    }
}

/// A step of a replay.
pub open spec fn run_step(
    run: RunModel,
    store: StoreModel,
    replayer: ReplayerModel,
    roots: Roots,
) -> (RunModel, StepResult) {
    match run.range {
        Some(progress) => range_step(run, store, replayer, roots, progress),
        None => if run.place >= run.selectors.len() {
            (run, Ok(None))
        } else {
            match run.selectors[run.place as int] {
                Selector::Sequence(sequence) => sequence_step(
                    selecting(run, 1),
                    store,
                    replayer,
                    roots,
                    sequence,
                ),
                Selector::Locator(locator) => locator_step(
                    selecting(run, 1),
                    store,
                    replayer,
                    roots,
                    locator,
                ),
                Selector::Range { from, count } => (
                    RunModel {
                        range: Some(
                            RangeProgress {
                                from,
                                count,
                                next: Some(from),
                                remaining: count,
                                found: 0,
                            },
                        ),
                        ..selecting(run, count)
                    },
                    Ok(Some(Seq::<FrameModel>::empty())),
                ),
            }
        },
    }
}

/// The step that was taken is the expected one.
pub open spec fn is_step(
    result: Result<Option<Vec<ReplayedFrame>>, CommandError>,
    expected: StepResult,
) -> bool {
    match result {
        Ok(None) => expected == Ok::<Option<Seq<FrameModel>>, CommandFailure>(None),
        Ok(Some(frames)) => expected == Ok::<Option<Seq<FrameModel>>, CommandFailure>(
            Some(frame_models(frames@)),
        ),
        Err(error) => expected == Err::<Option<Seq<FrameModel>>, CommandFailure>(error@),
    }
}

impl ReplayRun {
    /// Begins a replay; there has to be something to replay.
    pub fn new(selectors: Vec<Selector>, skip_missing: bool, max_errors: usize) -> (result: Result<
        ReplayRun,
        CommandError,
    >)
        ensures
            match result {
                Ok(run) => selectors@.len() > 0 && run@ == (RunModel {
                    selectors: selectors@,
                    place: 0,
                    range: None,
                    skip_missing,
                    max_errors,
                    counters: no_counts(),
                }),
                Err(error) => selectors@.len() == 0 && error@ == CommandFailure::InvalidInput(
                    "no selectors resolved for replay"@,
                ),
            },
    {
        if selectors.len() == 0 {
            return Err(CommandError::invalid_input("no selectors resolved for replay"));
        }
        Ok(
            ReplayRun {
                selectors,
                place: 0,
                range: None,
                skip_missing,
                max_errors,
                counters: ReplayCounters::new(),
            },
        )
    }

    /// Counts records that were not found.
    fn miss(&mut self, missing: usize, context: &str) -> (result: Result<
        Option<Vec<ReplayedFrame>>,
        CommandError,
    >)
        ensures
            ({
                let expected = missing_step(old(self)@, missing, context@);
                final(self)@ == expected.0 && is_step(result, expected.1)
            }),
    {
        match self.counters.handle_missing(missing, self.skip_missing, self.max_errors, context) {
            Ok(_) => {
                let none: Vec<ReplayedFrame> = Vec::new();
                assert(frame_models(none@) =~= Seq::<FrameModel>::empty());
                Ok(Some(none))
            },
            Err(error) => Err(error),
        }
    }

    /// Ends a range.
    fn end_range(&mut self, progress: RangeProgress) -> (result: Result<
        Option<Vec<ReplayedFrame>>,
        CommandError,
    >)
        ensures
            ({
                let expected = range_end_step(old(self)@, progress);
                final(self)@ == expected.0 && is_step(result, expected.1)
            }),
    {
        let missing: usize = if progress.count > progress.found {
            progress.count - progress.found
        } else {
            0
        };
        self.range = None;
        let mut context = "range from ".to_owned();
        push_decimal(&mut context, progress.from);
        push_text(&mut context, " count ");
        push_decimal(&mut context, progress.count as u64);
        push_text(&mut context, " resolved only ");
        push_decimal(&mut context, progress.found as u64);
        push_text(&mut context, " records");
        self.miss(missing, context.as_str())
    }

    /// Reads the next batch of a range.
    fn step_range(
        &mut self,
        store: &ArchiveStore,
        replayer: &ArchiveReplayer,
        paths: &ArchivePaths,
        progress: RangeProgress,
    ) -> (result: Result<Option<Vec<ReplayedFrame>>, CommandError>)
        ensures
            ({
                let expected = range_step(old(self)@, store@, replayer@, paths@, progress);
                final(self)@ == expected.0 && is_step(result, expected.1)
            }),
    {
        let next: u64 = match progress.next {
            None => {
                return Err(CommandError::invalid_input("sequence overflow while replaying range"));
            },
            Some(next) => next,
        };
        if progress.remaining == 0 {
            return self.end_range(progress);
        }
        let size: usize = if progress.remaining < 1024 {
            progress.remaining
        } else {
            1024
        };
        match replayer.read_range(store, next, size) {
            Err(error) => Err(map_replay_error(paths, error)),
            Ok(frames) => {
                let n: usize = frames.len();
                if n == 0 {
                    assert(frame_models(frames@).len() == 0);
                    return self.end_range(progress);
                }
                let last: u64 = frames[n - 1].sequence;
                assert(frame_models(frames@).last().sequence == last);
                self.range =
                Some(
                    RangeProgress {
                        from: progress.from,
                        count: progress.count,
                        next: if last == u64::MAX {
                            None
                        } else {
                            Some(last + 1)
                        },
                        remaining: if progress.remaining > n {
                            progress.remaining - n
                        } else {
                            0
                        },
                        found: add_capped(progress.found, n),
                    },
                );
                Ok(Some(frames))
            },
        }
    }

    /// Takes a step: gives the next frames, or nothing at the end. The frames are to be emitted,
    /// and counted, before the next step.
    pub fn step(&mut self, store: &ArchiveStore, replayer: &ArchiveReplayer, paths: &ArchivePaths)
        -> (result: Result<Option<Vec<ReplayedFrame>>, CommandError>)
        ensures
            ({
                let expected = run_step(old(self)@, store@, replayer@, paths@);
                final(self)@ == expected.0 && is_step(result, expected.1)
            }),
    {
        if let Some(progress) = self.range {
            return self.step_range(store, replayer, paths, progress);
        }
        if self.place >= self.selectors.len() {
            return Ok(None);
        }
        let selector = self.selectors[self.place];
        self.place = self.place + 1;
        match selector {
            Selector::Sequence(sequence) => {
                self.counters.selected = add_capped(self.counters.selected, 1);
                match replayer.read_at_sequence(store, sequence) {
                    Err(error) => Err(map_replay_error(paths, error)),
                    Ok(None) => {
                        let mut context = "sequence ".to_owned();
                        push_decimal(&mut context, sequence);
                        push_text(&mut context, " is not available");
                        self.miss(1, context.as_str())
                    },
                    Ok(Some(frame)) => Ok(Some(one_frame(frame))),
                }
            },
            Selector::Locator(locator) => {
                self.counters.selected = add_capped(self.counters.selected, 1);
                match replayer.read_at_locator(store, locator) {
                    Ok(frame) => Ok(Some(one_frame(frame))),
                    Err(ArchiveReplayError::MissingSegment(_)) => {
                        let mut context = "locator ".to_owned();
                        push_locator(&mut context, locator);
                        push_text(&mut context, " is not available");
                        self.miss(1, context.as_str())
                    },
                    Err(error) => Err(map_replay_error(paths, error)),
                }
            },
            Selector::Range { from, count } => {
                self.counters.selected = add_capped(self.counters.selected, count);
                self.range =
                Some(
                    RangeProgress { from, count, next: Some(from), remaining: count, found: 0 },
                );
                let none: Vec<ReplayedFrame> = Vec::new();
                assert(frame_models(none@) =~= Seq::<FrameModel>::empty());
                Ok(Some(none))
            },
        }
    }
}

/// A batch of one frame.
fn one_frame(frame: ReplayedFrame) -> (frames: Vec<ReplayedFrame>)
    ensures
        frame_models(frames@) == seq![frame@],
{
    let ghost model = frame@;
    let mut frames: Vec<ReplayedFrame> = Vec::new();
    frames.push(frame);
    assert(frame_models(frames@) =~= seq![model]);
    frames
}

/// The counters after frames were emitted.
pub open spec fn all_emitted(counters: ReplayCounters, frames: Seq<FrameModel>) -> ReplayCounters
    decreases frames.len(),
{
    if frames.len() == 0 {
        counters
    } else {
        emitted(all_emitted(counters, frames.drop_last()), frames.last())
    }
}

/// Emitting frames counts each of them, and nothing else but their bytes.
proof fn emitting_counts(counters: ReplayCounters, frames: Seq<FrameModel>)
    requires
        counters.emitted + frames.len() <= usize::MAX,
    ensures
        ({
            let after = all_emitted(counters, frames);
            &&& after.emitted == counters.emitted + frames.len()
            &&& after.selected == counters.selected
            &&& after.skipped_missing == counters.skipped_missing
            &&& after.errors == counters.errors
        }),
    decreases frames.len(),
{
    if frames.len() > 0 {
        emitting_counts(counters, frames.drop_last());
    }
}

/// Every selected record was emitted, was skipped, counts as an error, or is still to come.
pub open spec fn is_balanced(run: RunModel) -> bool {
    let counters = run.counters;
    let settled = counters.emitted + counters.skipped_missing + counters.errors;
    match run.range {
        None => counters.selected == settled,
        Some(progress) => {
            &&& counters.selected == settled + progress.remaining
            &&& progress.count == progress.found + progress.remaining
        },
    }
}

/// How many records the next step selects.
pub open spec fn next_selection(run: RunModel) -> int {
    if run.range is Some || run.place >= run.selectors.len() {
        0
    } else {
        match run.selectors[run.place as int] {
            Selector::Range { from, count } => count as int,
            _ => 1,
        }
    }
}

/// No record is lost by a replay: every step keeps the balance when its frames are emitted. So
/// at the end, every selected record was emitted, was skipped, or counts as an error.
pub proof fn replay_accounts_for_every_record(
    run: RunModel,
    store: StoreModel,
    replayer: ReplayerModel,
    roots: Roots,
)
    requires
        is_balanced(run),
        run.counters.selected + next_selection(run) <= usize::MAX,
    ensures
        ({
            let (after, result) = run_step(run, store, replayer, roots);
            match result {
                Ok(Some(frames)) => is_balanced(
                    RunModel { counters: all_emitted(after.counters, frames), ..after },
                ),
                Ok(None) => after.counters.selected == after.counters.emitted
                    + after.counters.skipped_missing + after.counters.errors,
                Err(_) => true,
            }
        }),
{
    let (after, result) = run_step(run, store, replayer, roots);
    if let Ok(Some(frames)) = result {
        if let Some(progress) = run.range {
            let next = progress.next->Some_0;
            let at = lower_bound_of(all_sequences(replayer.index), next);
            let size = batch_size(progress.remaining);
            let batch = budgeted_batch(store, replayer.index, at, size, replayer.budget, replayer.verify);
            if progress.remaining > 0 && batch.frames is Ok {
                lower_bound_within(all_sequences(replayer.index), next);
                batch_keeps_budget(
                    store,
                    replayer.index,
                    at,
                    smaller(size, replayer.budget.max_records_per_call) as int,
                    replayer.budget.max_bytes_per_call as int,
                    Seq::empty(),
                    0,
                    replayer.verify,
                );
            }
        }
        emitting_counts(after.counters, frames);
    }
}

/// A lower bound lies within the list.
proof fn lower_bound_within(values: Seq<u64>, needle: u64)
    ensures
        0 <= lower_bound_of(values, needle) <= values.len(),
    decreases values.len(),
{
    if values.len() > 0 && values[0] < needle {
        lower_bound_within(values.drop_first(), needle);
    }
}

/// Why a frame could not be sent to a service.
#[derive(Debug)]
pub enum ArchiveRematerializeError {
    /// The configuration is not valid.
    InvalidConfiguration(String),
    /// The frame could not be read.
    Replay(ArchiveReplayError),
    /// The user header has another size than the service.
    IncompatibleUserHeaderSize {
        /// The size that the service has.
        expected: usize,
        /// The size that the frame has.
        actual: usize,
        /// Sequence of the frame.
        sequence: u64,
    },
    /// The transport failed.
    Transport(String),
}

/// What a frame that could not be sent means for the tool.
pub open spec fn rematerialize_failure(roots: Roots, error: ArchiveRematerializeError)
    -> CommandFailure {
    match error {
        ArchiveRematerializeError::InvalidConfiguration(message) => CommandFailure::InvalidInput(
            message@,
        ),
        ArchiveRematerializeError::Replay(error) => replay_failure(roots, error),
        ArchiveRematerializeError::IncompatibleUserHeaderSize { expected, actual, sequence } =>
            CommandFailure::InvalidInput(
            "incompatible user header for sequence "@ + decimal(sequence as nat) + ": expected "@
                + decimal(expected as nat) + " bytes, got "@ + decimal(actual as nat),
        ),
        ArchiveRematerializeError::Transport(message) => CommandFailure::Internal(message@),
    }
}

/// Tells what a frame that could not be sent means for the tool.
pub fn map_rematerialize_error(paths: &ArchivePaths, error: ArchiveRematerializeError) -> (result:
    CommandError)
    ensures
        result@ == rematerialize_failure(paths@, error),
{
    match error {
        ArchiveRematerializeError::InvalidConfiguration(message) => CommandError::InvalidInput(
            message,
        ),
        ArchiveRematerializeError::Replay(error) => map_replay_error(paths, error),
        ArchiveRematerializeError::IncompatibleUserHeaderSize { expected, actual, sequence } => {
            let mut message = "incompatible user header for sequence ".to_owned();
            push_decimal(&mut message, sequence);
            push_text(&mut message, ": expected ");
            push_decimal(&mut message, expected as u64);
            push_text(&mut message, " bytes, got ");
            push_decimal(&mut message, actual as u64);
            CommandError::InvalidInput(message)
        },
        ArchiveRematerializeError::Transport(message) => CommandError::Internal(message),
    }
}

/// The label of a destination.
pub fn destination_label(to: ReplayDestination) -> (label: &'static str)
    ensures
        label@ == match to {
            ReplayDestination::Stdout => "stdout"@,
            ReplayDestination::PublishSubscribe => "publish-subscribe"@,
        },
{
    match to {
        ReplayDestination::Stdout => "stdout",
        ReplayDestination::PublishSubscribe => "publish-subscribe",
    }
}

/// The label of a rate.
pub fn rate_mode_label(value: ReplayRateMode) -> (label: &'static str)
    ensures
        label@ == match value {
            ReplayRateMode::Fast => "fast"@,
            ReplayRateMode::Recorded => "recorded"@,
            ReplayRateMode::Fixed => "fixed"@,
        },
{
    match value {
        ReplayRateMode::Fast => "fast",
        ReplayRateMode::Recorded => "recorded",
        ReplayRateMode::Fixed => "fixed",
    }
}

/// The label of where selectors come from.
pub open spec fn source_label(selector: ReplaySelector) -> Seq<char> {
    match selector {
        ReplaySelector::All => "all"@,
        ReplaySelector::Sequence(_) => "sequence"@,
        ReplaySelector::Range(_) => "range"@,
        ReplaySelector::Locator(_) => "locator"@,
        ReplaySelector::Selectors(options) => if options.stdin {
            match options.selector_format {
                SelectorFormat::Ndjson => "selectors:stdin:ndjson"@,
                SelectorFormat::Csv => "selectors:stdin:csv"@,
            }
        } else {
            match options.selector_format {
                SelectorFormat::Ndjson => "selectors:file:ndjson"@,
                SelectorFormat::Csv => "selectors:file:csv"@,
            }
        },
    }
}

/// Gives the label of where selectors come from.
pub fn selector_source_label(selector: &ReplaySelector) -> (label: &'static str)
    ensures
        label@ == source_label(*selector),
{
    match selector {
        ReplaySelector::All => "all",
        ReplaySelector::Sequence(_) => "sequence",
        ReplaySelector::Range(_) => "range",
        ReplaySelector::Locator(_) => "locator",
        ReplaySelector::Selectors(options) => if options.stdin {
            match options.selector_format {
                SelectorFormat::Ndjson => "selectors:stdin:ndjson",
                SelectorFormat::Csv => "selectors:stdin:csv",
            }
        } else {
            match options.selector_format {
                SelectorFormat::Ndjson => "selectors:file:ndjson",
                SelectorFormat::Csv => "selectors:file:csv",
            }
        },
    }
}

} // verus!
