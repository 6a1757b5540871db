//! The answers of the query tool: what the index says, and what it cannot say yet.

use crate::align::{MatchResult, MatchStatus};
use crate::bytes::zeros;
use crate::checkpoint::{checkpoint_of, resolve_checkpoint};
use crate::command::{locator_text, push_locator, CommandError, CommandFailure};
use crate::control_tool::{holds, holds_text};
use crate::layout::same_text;
use crate::metadata::{ArchiveMetadataSinkError, MetadataCommitRecord, MetadataWatermark};
use crate::query_tool::{
    optional_text, LocateLocatorOptions, LocateRangeOptions, LocateSequenceOptions,
};
use crate::selectors::Selector;
use crate::store::{ArchiveStore, StoreModel};
use crate::text::{
    bytes_to_hex, chars_of, decimal, hex, join_path, joined, push_decimal, push_text,
};
use crate::types::ArchiveLocator;
use vstd::prelude::*;

verus! {

/// How far the index of a stream is.
#[derive(Debug, Clone)]
pub struct IndexerState {
    /// The stream.
    pub stream_id: String,
    /// Identity of its log.
    pub log_id: [u8; 16],
    /// Up to here entries are committed.
    pub last_commit_ordinal: u64,
    /// Up to here entries are indexed.
    pub last_indexed_commit_ordinal: u64,
    /// Commit log behind whose indexed entries the indexer stands.
    pub roll_file: String,
    /// Where in that log it stands.
    pub byte_offset: u64,
    /// When the state was written.
    pub updated_at_ns: u64,
    /// Schema of the index database.
    pub schema_version: u32,
}

/// How far the index of a stream is, as a value.
#[verifier::ext_equal]
pub struct IndexerStateModel {
    pub stream_id: Seq<char>,
    pub log_id: Seq<u8>,
    pub last_commit_ordinal: u64,
    pub last_indexed_commit_ordinal: u64,
    pub roll_file: Seq<char>,
    pub byte_offset: u64,
    pub updated_at_ns: u64,
    pub schema_version: u32,
}

impl View for IndexerState {
    type V = IndexerStateModel;

    open spec fn view(&self) -> IndexerStateModel {
        IndexerStateModel {
            stream_id: self.stream_id@,
            log_id: self.log_id@,
            last_commit_ordinal: self.last_commit_ordinal,
            last_indexed_commit_ordinal: self.last_indexed_commit_ordinal,
            roll_file: self.roll_file@,
            byte_offset: self.byte_offset,
            updated_at_ns: self.updated_at_ns,
            schema_version: self.schema_version,
        }
    }
}

/// The state of a stream of which the index knows nothing.
pub open spec fn unknown_state(stream_id: Seq<char>, schema_version: u32) -> IndexerStateModel {
    IndexerStateModel {
        stream_id,
        log_id: zeros(16),
        last_commit_ordinal: 0,
        last_indexed_commit_ordinal: 0,
        roll_file: "commit.idxlog"@,
        byte_offset: 0,
        updated_at_ns: 0,
        schema_version,
    }
}

/// The state that was stored, or that of a stream of which the index knows nothing.
pub fn state_or_default(stored: Option<IndexerState>, stream_id: &str, schema_version: u32) -> (
    state: IndexerState)
    ensures
        match stored {
            Some(found) => state@ == found@,
            None => state@ == unknown_state(stream_id@, schema_version),
        },
{
    match stored {
        Some(found) => found,
        None => IndexerState {
            stream_id: stream_id.to_owned(),
            log_id: [0u8; 16],
            last_commit_ordinal: 0,
            last_indexed_commit_ordinal: 0,
            roll_file: "commit.idxlog".to_owned(),
            byte_offset: 0,
            updated_at_ns: 0,
            schema_version,
        },
    }
}

/// The identity of the log: that of the latest record, else the one known before.
pub open spec fn log_id_of(
    latest: Option<MetadataCommitRecord>,
    previous: Option<IndexerState>,
) -> Seq<u8> {
    match latest {
        Some(record) => record.log_id@,
        None => match previous {
            Some(state) => state.log_id@,
            None => zeros(16),
        },
    }
}

/// The state that is stored after a cycle.
pub open spec fn state_after_cycle(
    store: StoreModel,
    metadata_log_path: Seq<char>,
    stream_id: Seq<char>,
    log_id: Seq<u8>,
    watermark: MetadataWatermark,
    now_ns: u64,
    schema_version: u32,
) -> Result<IndexerStateModel, CommandFailure> {
    match checkpoint_of(store, metadata_log_path, watermark.last_indexed_commit_ordinal) {
        Err(error) => Err(error),
        Ok(checkpoint) => Ok(
            IndexerStateModel {
                stream_id,
                log_id,
                last_commit_ordinal: watermark.last_commit_ordinal,
                last_indexed_commit_ordinal: watermark.last_indexed_commit_ordinal,
                roll_file: checkpoint.roll_file,
                byte_offset: checkpoint.byte_offset,
                updated_at_ns: now_ns,
                schema_version,
            },
        ),
    }
}

/// Makes the state that is stored after a cycle.
pub fn make_indexer_state(
    store: &ArchiveStore,
    metadata_log_path: &str,
    stream_id: &str,
    latest: Option<MetadataCommitRecord>,
    previous: Option<IndexerState>,
    watermark: MetadataWatermark,
    now_ns: u64,
    schema_version: u32,
) -> (result: Result<IndexerState, CommandError>)
    ensures
        ({
            let expected = state_after_cycle(
                store@,
                metadata_log_path@,
                stream_id@,
                log_id_of(latest, previous),
                watermark,
                now_ns,
                schema_version,
            );
            match result {
                Ok(state) => expected == Ok::<IndexerStateModel, CommandFailure>(state@),
                Err(error) => expected == Err::<IndexerStateModel, CommandFailure>(error@),
            }
        }),
{
    let log_id: [u8; 16] = match latest {
        Some(record) => record.log_id,
        None => match previous {
            Some(state) => state.log_id,
            None => [0u8; 16],
        },
    };
    assert(log_id@ =~= log_id_of(latest, previous));
    let checkpoint = resolve_checkpoint(
        store,
        metadata_log_path,
        watermark.last_indexed_commit_ordinal,
    )?;
    Ok(
        IndexerState {
            stream_id: stream_id.to_owned(),
            log_id,
            last_commit_ordinal: watermark.last_commit_ordinal,
            last_indexed_commit_ordinal: watermark.last_indexed_commit_ordinal,
            roll_file: checkpoint.roll_file,
            byte_offset: checkpoint.byte_offset,
            updated_at_ns: now_ns,
            schema_version,
        },
    )
}

/// How far the index of a stream is, as it is reported.
#[derive(Debug)]
pub struct StatusStream {
    /// The stream.
    pub stream_id: String,
    /// Identity of its log, in hexadecimal digits.
    pub log_id: String,
    /// Up to here entries are committed.
    pub last_commit_ordinal: u64,
    /// Up to here entries are indexed.
    pub last_indexed_commit_ordinal: u64,
    /// How many entries are committed and not indexed.
    pub lag_commits: u64,
    /// When the state was written.
    pub updated_at_ns: u64,
    /// Commit log in which the indexer stands.
    pub roll_file: String,
    /// Where in that log it stands.
    pub byte_offset: u64,
}

/// How far the index of a stream is, as it is reported, as a value.
pub struct StatusModel {
    pub stream_id: Seq<char>,
    pub log_id: Seq<char>,
    pub last_commit_ordinal: u64,
    pub last_indexed_commit_ordinal: u64,
    pub lag_commits: u64,
    pub updated_at_ns: u64,
    pub roll_file: Seq<char>,
    pub byte_offset: u64,
}

impl View for StatusStream {
    type V = StatusModel;

    open spec fn view(&self) -> StatusModel {
        StatusModel {
            stream_id: self.stream_id@,
            log_id: self.log_id@,
            last_commit_ordinal: self.last_commit_ordinal,
            last_indexed_commit_ordinal: self.last_indexed_commit_ordinal,
            lag_commits: self.lag_commits,
            updated_at_ns: self.updated_at_ns,
            roll_file: self.roll_file@,
            byte_offset: self.byte_offset,
        }
    }
}

/// How a state is reported.
pub open spec fn status_of(state: IndexerStateModel) -> StatusModel {
    StatusModel {
        stream_id: state.stream_id,
        log_id: hex(state.log_id),
        last_commit_ordinal: state.last_commit_ordinal,
        last_indexed_commit_ordinal: state.last_indexed_commit_ordinal,
        lag_commits: if state.last_commit_ordinal > state.last_indexed_commit_ordinal {
            (state.last_commit_ordinal - state.last_indexed_commit_ordinal) as u64
        } else {
            0
        },
        updated_at_ns: state.updated_at_ns,
        roll_file: state.roll_file,
        byte_offset: state.byte_offset,
    }
}

/// Reports a state.
fn report_state(state: &IndexerState) -> (status: StatusStream)
    ensures
        status@ == status_of(state@),
{
    StatusStream {
        stream_id: state.stream_id.clone(),
        log_id: bytes_to_hex(&state.log_id),
        last_commit_ordinal: state.last_commit_ordinal,
        last_indexed_commit_ordinal: state.last_indexed_commit_ordinal,
        lag_commits: if state.last_commit_ordinal > state.last_indexed_commit_ordinal {
            state.last_commit_ordinal - state.last_indexed_commit_ordinal
        } else {
            0
        },
        updated_at_ns: state.updated_at_ns,
        roll_file: state.roll_file.clone(),
        byte_offset: state.byte_offset,
    }
}

/// The states, as values.
pub open spec fn state_models(states: Seq<IndexerState>) -> Seq<IndexerStateModel> {
    states.map_values(|state: IndexerState| state@)
}

/// The reports, as values.
pub open spec fn status_models(list: Seq<StatusStream>) -> Seq<StatusModel> {
    list.map_values(|status: StatusStream| status@)
}

/// The state is the one that is asked for.
pub open spec fn is_wanted(state: IndexerStateModel, stream_id: Option<Seq<char>>) -> bool {
    stream_id is None || stream_id == Some(state.stream_id)
}

/// Those of the first `n` states that are asked for.
pub open spec fn wanted_states(
    states: Seq<IndexerStateModel>,
    stream_id: Option<Seq<char>>,
    n: int,
) -> Seq<IndexerStateModel>
    decreases n,
{
    if n <= 0 {
        Seq::empty()
    } else {
        let before = wanted_states(states, stream_id, n - 1);
        if is_wanted(states[n - 1], stream_id) {
            before.push(states[n - 1])
        } else {
            before
        }
    }
}

/// The ordinal up to which all of the states are indexed; `start` where there is none.
pub open spec fn lowest_indexed(states: Seq<IndexerStateModel>, start: u64) -> u64
    decreases states.len(),
{
    if states.len() == 0 {
        start
    } else {
        let before = lowest_indexed(states.drop_last(), start);
        if states.last().last_indexed_commit_ordinal < before {
            states.last().last_indexed_commit_ordinal
        } else {
            before
        }
    }
}

/// The highest ordinal that is committed in one of the states.
pub open spec fn highest_committed(states: Seq<IndexerStateModel>) -> u64
    decreases states.len(),
{
    if states.len() == 0 {
        0
    } else {
        let before = highest_committed(states.drop_last());
        if states.last().last_commit_ordinal > before {
            states.last().last_commit_ordinal
        } else {
            before
        }
    }
}

/// A report of how far the index is.
#[derive(Debug)]
pub struct StatusReport {
    /// Each stream.
    pub streams: Vec<StatusStream>,
    /// Up to here all of them are indexed.
    pub aligned_horizon_commit_ordinal: u64,
}

/// Reports how far the index is, of all streams or of one.
pub fn status_report(states: &[IndexerState], stream_id: Option<&str>) -> (report: StatusReport)
    ensures
        ({
            let wanted = wanted_states(
                state_models(states@),
                optional_text(stream_id),
                states@.len() as int,
            );
            &&& status_models(report.streams@) == wanted.map_values(
                |state: IndexerStateModel| status_of(state),
            )
            &&& report.aligned_horizon_commit_ordinal == if wanted.len() == 0 {
                0
            } else {
                lowest_indexed(wanted, u64::MAX)
            }
        }),
{
    let n: usize = states.len();
    let mut streams: Vec<StatusStream> = Vec::new();
    let mut horizon: u64 = u64::MAX;
    let ghost all = state_models(states@);
    let ghost id = optional_text(stream_id);
    let ghost report_of = |state: IndexerStateModel| status_of(state);
    assert(status_models(streams@) =~= Seq::<IndexerStateModel>::empty().map_values(report_of));
    for i in 0..n
        invariant
            n == states@.len(),
            all == state_models(states@),
            id == optional_text(stream_id),
            report_of == |state: IndexerStateModel| status_of(state),
            status_models(streams@) == wanted_states(all, id, i as int).map_values(report_of),
            horizon == lowest_indexed(wanted_states(all, id, i as int), u64::MAX),
    {
        let wanted: bool = match stream_id {
            None => true,
            Some(id) => same_text(states[i].stream_id.as_str(), id),
        };
        assert(all[i as int] == states@[i as int]@);
        assert(wanted == is_wanted(all[i as int], id));
        if wanted {
            let ghost taken = wanted_states(all, id, i as int);
            let ghost before = streams@;
            streams.push(report_state(&states[i]));
            assert(taken.push(all[i as int]).drop_last() =~= taken);
            assert(status_models(streams@) =~= taken.push(all[i as int]).map_values(report_of))
                by {
                assert(status_models(streams@) =~= status_models(before).push(
                    status_of(all[i as int]),
                ));
            }
            if states[i].last_indexed_commit_ordinal < horizon {
                horizon = states[i].last_indexed_commit_ordinal;
            }
        }
    }
    if streams.len() == 0 {
        assert(status_models(streams@).len() == 0);
        return StatusReport { streams, aligned_horizon_commit_ordinal: 0 };
    }
    assert(status_models(streams@).len() > 0);
    StatusReport { streams, aligned_horizon_commit_ordinal: horizon }
}

/// The ordinal up to which aligned streams are indexed, no higher than what is committed.
pub fn aligned_horizon(states: &[IndexerState]) -> (ordinal: u64)
    ensures
        ({
            let lowest = lowest_indexed(state_models(states@), u64::MAX);
            let highest = highest_committed(state_models(states@));
            ordinal == if lowest < highest {
                lowest
            } else {
                highest
            }
        }),
        forall|i: int|
            0 <= i < states@.len() ==> ordinal <= (
            #[trigger] states@[i]).last_indexed_commit_ordinal,
        (forall|i: int|
            0 <= i < states@.len() ==> (#[trigger] states@[i]).last_commit_ordinal == 0)
            ==> ordinal == 0,
{
    let n: usize = states.len();
    let mut lowest: u64 = u64::MAX;
    let mut highest: u64 = 0;
    let ghost all = state_models(states@);
    for i in 0..n
        invariant
            n == states@.len(),
            all == state_models(states@),
            lowest == lowest_indexed(all.subrange(0, i as int), u64::MAX),
            highest == highest_committed(all.subrange(0, i as int)),
            forall|k: int|
                0 <= k < i ==> lowest <= (#[trigger] states@[k]).last_indexed_commit_ordinal,
            (forall|k: int|
                0 <= k < states@.len() ==> (#[trigger] states@[k]).last_commit_ordinal == 0)
                ==> highest == 0,
    {
        assert(all.subrange(0, i + 1).drop_last() =~= all.subrange(0, i as int));
        assert(all.subrange(0, i + 1).last() == states@[i as int]@);
        if states[i].last_indexed_commit_ordinal < lowest {
            lowest = states[i].last_indexed_commit_ordinal;
        }
        if states[i].last_commit_ordinal > highest {
            highest = states[i].last_commit_ordinal;
        }
    }
    assert(all.subrange(0, n as int) =~= all);
    if lowest < highest {
        lowest
    } else {
        highest
    }
}

/// The index lies behind what is committed.
pub open spec fn lags(state: IndexerStateModel) -> bool {
    state.last_indexed_commit_ordinal < state.last_commit_ordinal
}

/// A sequence that the index does not know may yet be indexed: the index lies behind, and the
/// sequence lies above all that is indexed.
pub open spec fn may_be_indexed_yet(
    sequence: u64,
    indexed_upper_bound: Option<u64>,
    state: IndexerStateModel,
) -> bool {
    lags(state) && sequence > match indexed_upper_bound {
        Some(upper) => upper,
        None => 0,
    }
}

/// Tells whether a sequence that the index does not know may yet be indexed.
pub fn is_sequence_not_indexed_yet(
    requested_sequence: u64,
    indexed_upper_bound: Option<u64>,
    state: &IndexerState,
) -> (is: bool)
    ensures
        is == may_be_indexed_yet(requested_sequence, indexed_upper_bound, state@),
{
    if state.last_indexed_commit_ordinal >= state.last_commit_ordinal {
        return false;
    }
    match indexed_upper_bound {
        Some(upper) => requested_sequence > upper,
        None => requested_sequence > 0,
    }
}

/// The failure of a query for something that is not indexed yet.
pub open spec fn not_indexed(bound: Seq<char>, state: IndexerStateModel) -> CommandFailure {
    CommandFailure::NotIndexedYet {
        requested_bound: bound,
        query_watermark: state.last_indexed_commit_ordinal,
        last_commit_ordinal: state.last_commit_ordinal,
    }
}

/// Makes the error of a query for something that is not indexed yet.
fn not_indexed_error(requested_bound: String, state: &IndexerState) -> (error: CommandError)
    ensures
        error@ == not_indexed(requested_bound@, state@),
{
    CommandError::NotIndexedYet {
        requested_bound,
        query_watermark: state.last_indexed_commit_ordinal,
        last_commit_ordinal: state.last_commit_ordinal,
    }
}

/// The answer to a query for one sequence.
pub open spec fn sequence_answer(
    options: LocateSequenceOptions,
    found: bool,
    indexed_upper_bound: Option<u64>,
    state: IndexerStateModel,
) -> Result<Selector, CommandFailure> {
    if found {
        Ok(Selector::Sequence(options.at))
    } else if may_be_indexed_yet(options.at, indexed_upper_bound, state) {
        Err(not_indexed("sequence="@ + decimal(options.at as nat), state))
    } else {
        Err(
            CommandFailure::NotAvailable(
                "sequence "@ + decimal(options.at as nat) + " is not available for stream '"@
                    + options.stream_id@ + "'"@,
            ),
        )
    }
}

/// Answers a query for one sequence.
pub fn locate_sequence(
    options: &LocateSequenceOptions,
    found: bool,
    indexed_upper_bound: Option<u64>,
    state: &IndexerState,
) -> (result: Result<Selector, CommandError>)
    ensures
        ({
            let expected = sequence_answer(*options, found, indexed_upper_bound, state@);
            match result {
                Ok(selector) => expected == Ok::<Selector, CommandFailure>(selector),
                Err(error) => expected == Err::<Selector, CommandFailure>(error@),
            }
        }),
{
    if found {
        return Ok(Selector::Sequence(options.at));
    }
    if is_sequence_not_indexed_yet(options.at, indexed_upper_bound, state) {
        let mut bound = "sequence=".to_owned();
        push_decimal(&mut bound, options.at);
        return Err(not_indexed_error(bound, state));
    }
    let mut message = "sequence ".to_owned();
    push_decimal(&mut message, options.at);
    push_text(&mut message, " is not available for stream '");
    push_text(&mut message, options.stream_id.as_str());
    push_text(&mut message, "'");
    Err(CommandError::NotAvailable(message))
}

/// The sequence `i` places behind `from`, no higher than the highest sequence there is.
pub open spec fn sequence_behind(from: u64, i: int) -> int {
    if from + i > u64::MAX {
        u64::MAX as int
    } else {
        from + i
    }
}

/// The records are those of the range, without a gap.
pub open spec fn is_whole_range(from: u64, count: int, records: Seq<MetadataCommitRecord>) -> bool {
    records.len() == count && forall|i: int|
        0 <= i < count ==> (#[trigger] records[i]).sequence == sequence_behind(from, i)
}

/// Tells whether the records are those of the range, without a gap.
pub fn range_is_complete(from: u64, count: usize, records: &[MetadataCommitRecord]) -> (is: bool)
    ensures
        is == is_whole_range(from, count as int, records@),
{
    let n: usize = records.len();
    if n != count {
        return false;
    }
    let mut expected: u64 = from;
    for i in 0..n
        invariant
            n == count == records@.len(),
            expected == sequence_behind(from, i as int),
            forall|k: int|
                0 <= k < i ==> (#[trigger] records@[k]).sequence == sequence_behind(from, k),
    {
        if records[i].sequence != expected {
            assert(records@[i as int].sequence != sequence_behind(from, i as int));
            return false;
        }
        if expected < u64::MAX {
            expected = expected + 1;
        }
    }
    true
}

/// Selectors by the locators of records.
pub open spec fn locator_selectors(records: Seq<MetadataCommitRecord>) -> Seq<Selector> {
    records.map_values(|record: MetadataCommitRecord| Selector::Locator(record.locator))
}

/// Makes selectors by the locators of records.
pub fn select_locators(records: &[MetadataCommitRecord]) -> (list: Vec<Selector>)
    ensures
        list@ == locator_selectors(records@),
{
    let n: usize = records.len();
    let mut list: Vec<Selector> = Vec::new();
    for i in 0..n
        invariant
            n == records@.len(),
            list@.len() == i,
            forall|k: int|
                0 <= k < i ==> #[trigger] list@[k] == Selector::Locator(records@[k].locator),
    {
        list.push(Selector::Locator(records[i].locator));
    }
    assert(list@ =~= locator_selectors(records@));
    list
}

/// The selector by which a matched record is replayed; none where a stream has no record.
pub open spec fn match_selector(found: MatchResult) -> Option<Selector> {
    match (found.status, found.record) {
        (MatchStatus::Missing, _) => None,
        (_, None) => None,
        (_, Some(record)) => Some(Selector::Locator(record.locator)),
    }
}

/// Makes the selectors by which the records of a row are replayed, one for each stream.
pub fn build_align_selector_row(matches: &[MatchResult]) -> (list: Vec<Option<Selector>>)
    ensures
        list@ == matches@.map_values(|found: MatchResult| match_selector(found)),
{
    let n: usize = matches.len();
    let mut list: Vec<Option<Selector>> = Vec::new();
    for i in 0..n
        invariant
            n == matches@.len(),
            list@.len() == i,
            forall|k: int| 0 <= k < i ==> #[trigger] list@[k] == match_selector(matches@[k]),
    {
        let selector = match (matches[i].status, matches[i].record) {
            (MatchStatus::Missing, _) => None,
            (_, None) => None,
            (_, Some(record)) => Some(Selector::Locator(record.locator)),
        };
        list.push(selector);
    }
    assert(list@ =~= matches@.map_values(|found: MatchResult| match_selector(found)));
    list
}

/// The last sequence of a range, as it is reported.
pub open spec fn range_end(from: u64, count: usize) -> int {
    if from + count > u64::MAX {
        u64::MAX - 1
    } else if from + count == 0 {
        0
    } else {
        from + count - 1
    }
}

/// The answer to a query for a range.
pub open spec fn range_answer(
    options: LocateRangeOptions,
    records: Seq<MetadataCommitRecord>,
    indexed_upper_bound: Option<u64>,
    state: IndexerStateModel,
) -> Result<Seq<Selector>, CommandFailure> {
    let end = range_end(options.from, options.count) as u64;
    if is_whole_range(options.from, options.count as int, records) {
        Ok(
            if options.expand_selectors {
                locator_selectors(records)
            } else {
                seq![Selector::Range { from: options.from, count: options.count }]
            },
        )
    } else if may_be_indexed_yet(end, indexed_upper_bound, state) {
        Err(
            not_indexed(
                "range="@ + decimal(options.from as nat) + "..="@ + decimal(end as nat),
                state,
            ),
        )
    } else {
        Err(
            CommandFailure::NotAvailable(
                "sequence range from "@ + decimal(options.from as nat) + " (count="@ + decimal(
                    options.count as nat,
                ) + ") is not available for stream '"@ + options.stream_id@ + "'"@,
            ),
        )
    }
}

/// Answers a query for a range.
pub fn locate_range(
    options: &LocateRangeOptions,
    records: &[MetadataCommitRecord],
    indexed_upper_bound: Option<u64>,
    state: &IndexerState,
) -> (result: Result<Vec<Selector>, CommandError>)
    ensures
        ({
            let expected = range_answer(*options, records@, indexed_upper_bound, state@);
            match result {
                Ok(list) => expected == Ok::<Seq<Selector>, CommandFailure>(list@),
                Err(error) => expected == Err::<Seq<Selector>, CommandFailure>(error@),
            }
        }),
{
    if range_is_complete(options.from, options.count, records) {
        if options.expand_selectors {
            return Ok(select_locators(records));
        }
        let mut list: Vec<Selector> = Vec::new();
        list.push(Selector::Range { from: options.from, count: options.count });
        assert(list@ =~= seq![Selector::Range { from: options.from, count: options.count }]);
        return Ok(list);
    }
    let end: u64 = options.from.saturating_add(options.count as u64).saturating_sub(1);
    if is_sequence_not_indexed_yet(end, indexed_upper_bound, state) {
        let mut bound = "range=".to_owned();
        push_decimal(&mut bound, options.from);
        push_text(&mut bound, "..=");
        push_decimal(&mut bound, end);
        return Err(not_indexed_error(bound, state));
    }
    let mut message = "sequence range from ".to_owned();
    push_decimal(&mut message, options.from);
    push_text(&mut message, " (count=");
    push_decimal(&mut message, options.count as u64);
    push_text(&mut message, ") is not available for stream '");
    push_text(&mut message, options.stream_id.as_str());
    push_text(&mut message, "'");
    Err(CommandError::NotAvailable(message))
}

/// The answer to a query for one locator.
pub open spec fn locator_answer(
    options: LocateLocatorOptions,
    locator: ArchiveLocator,
    found: bool,
    state: IndexerStateModel,
) -> Result<Selector, CommandFailure> {
    if found {
        Ok(Selector::Locator(locator))
    } else if lags(state) {
        Err(not_indexed("locator="@ + locator_text(locator), state))
    } else {
        Err(
            CommandFailure::NotAvailable(
                "locator "@ + options.at@ + " is not available for stream '"@
                    + options.stream_id@ + "'"@,
            ),
        )
    }
}

/// Answers a query for one locator.
pub fn locate_locator(
    options: &LocateLocatorOptions,
    locator: ArchiveLocator,
    found: bool,
    state: &IndexerState,
) -> (result: Result<Selector, CommandError>)
    ensures
        match result {
            Ok(selector) => locator_answer(*options, locator, found, state@) == Ok::<
                Selector,
                CommandFailure,
            >(selector),
            Err(error) => locator_answer(*options, locator, found, state@) == Err::<
                Selector,
                CommandFailure,
            >(error@),
        },
{
    if found {
        return Ok(Selector::Locator(locator));
    }
    if state.last_indexed_commit_ordinal < state.last_commit_ordinal {
        let mut bound = "locator=".to_owned();
        push_locator(&mut bound, locator);
        return Err(not_indexed_error(bound, state));
    }
    let mut message = "locator ".to_owned();
    push_text(&mut message, options.at.as_str());
    push_text(&mut message, " is not available for stream '");
    push_text(&mut message, options.stream_id.as_str());
    push_text(&mut message, "'");
    Err(CommandError::NotAvailable(message))
}

/// Why a window cannot be queried yet, if it cannot: it ends behind the last indexed time, and
/// the index lies behind. An aligned stream is named.
pub open spec fn window_failure(
    stream_id: Option<Seq<char>>,
    end_ns: u64,
    max_indexed_time: Option<u64>,
    state: IndexerStateModel,
) -> Option<CommandFailure> {
    let last = match max_indexed_time {
        Some(time) => time,
        None => 0,
    };
    if end_ns > last && lags(state) {
        Some(
            not_indexed(
                match stream_id {
                    None => "window_end_ns="@ + decimal(end_ns as nat),
                    Some(stream) => "stream='"@ + stream + "',window_end_ns="@ + decimal(
                        end_ns as nat,
                    ),
                },
                state,
            ),
        )
    } else {
        None
    }
}

/// Checks whether a window can be queried yet.
pub fn check_window_indexed(
    stream_id: Option<&str>,
    end_ns: u64,
    max_indexed_time: Option<u64>,
    state: &IndexerState,
) -> (result: Result<(), CommandError>)
    ensures
        ({
            let expected = window_failure(
                optional_text(stream_id),
                end_ns,
                max_indexed_time,
                state@,
            );
            match result {
                Ok(_) => expected is None,
                Err(error) => expected == Some(error@),
            }
        }),
{
    let last: u64 = match max_indexed_time {
        Some(time) => time,
        None => 0,
    };
    if end_ns > last && state.last_indexed_commit_ordinal < state.last_commit_ordinal {
        let mut bound = String::new();
        match stream_id {
            None => {
                push_text(&mut bound, "window_end_ns=");
                push_decimal(&mut bound, end_ns);
                assert(bound@ =~= "window_end_ns="@ + decimal(end_ns as nat));
            },
            Some(stream) => {
                push_text(&mut bound, "stream='");
                push_text(&mut bound, stream);
                push_text(&mut bound, "',window_end_ns=");
                push_decimal(&mut bound, end_ns);
                assert(bound@ =~= "stream='"@ + stream@ + "',window_end_ns="@ + decimal(
                    end_ns as nat,
                ));
            },
        }
        return Err(not_indexed_error(bound, state));
    }
    Ok(())
}

/// What a failure of the index database means for the tool.
pub open spec fn sink_failure(details: Seq<char>) -> CommandFailure {
    if holds(details, "database is locked"@) || holds(details, "database is busy"@) || holds(
        details,
        "writer lock is already held"@,
    ) {
        CommandFailure::ResourceBusy(details)
    } else {
        CommandFailure::Internal("ArchiveMetadataSinkError("@ + details + ")"@)
    }
}

/// Tells what a failure of the index database means for the tool.
pub fn map_sink_error(error: ArchiveMetadataSinkError) -> (result: CommandError)
    ensures
        result@ == sink_failure(error.details@),
{
    let details = error.details.as_str();
    if holds_text(details, "database is locked") || holds_text(details, "database is busy")
        || holds_text(details, "writer lock is already held") {
        return CommandError::ResourceBusy(error.details);
    }
    let mut message = "ArchiveMetadataSinkError(".to_owned();
    push_text(&mut message, details);
    push_text(&mut message, ")");
    CommandError::Internal(message)
}

/// What is done with an index database before it is used.
#[derive(Debug, Clone, Copy, PartialEq, Eq, Structural)]
pub enum SchemaStep {
    /// It is used as it is.
    Proceed,
    /// It is removed first.
    Reset,
}

/// What is done with a database whose schema does not fit.
pub open spec fn unfit_schema(allow_reindex_reset: bool, message: Seq<char>) -> Result<
    SchemaStep,
    CommandFailure,
> {
    if allow_reindex_reset {
        Ok(SchemaStep::Reset)
    } else {
        Err(CommandFailure::InvalidInput(message))
    }
}

/// What is done with a database in which these schema versions were found, or the failure.
pub open spec fn schema_step(
    db_path: Seq<char>,
    versions: Result<Seq<u32>, Seq<char>>,
    allow_reindex_reset: bool,
    supported: (u32, u32),
) -> Result<SchemaStep, CommandFailure> {
    match versions {
        Err(details) => if holds(details, "schema_migrations table is missing"@) {
            unfit_schema(
                allow_reindex_reset,
                "index DB at '"@ + db_path
                    + "' has no schema migration metadata; migration is required or rerun with --reindex"@,
            )
        } else {
            Err(sink_failure(details))
        },
        Ok(list) => if list.len() == 0 {
            Ok(SchemaStep::Proceed)
        } else if list[0] < supported.0 {
            unfit_schema(
                allow_reindex_reset,
                "index DB schema version "@ + decimal(list[0] as nat)
                    + " is below supported minimum "@ + decimal(supported.0 as nat)
                    + "; migration required or rerun with --reindex"@,
            )
        } else if list.last() > supported.1 {
            unfit_schema(
                allow_reindex_reset,
                "index DB schema version "@ + decimal(list.last() as nat)
                    + " is above supported maximum "@ + decimal(supported.1 as nat)
                    + "; upgrade iox2-log-query or rerun with --reindex to rebuild this DB"@,
            )
        } else {
            Ok(SchemaStep::Proceed)
        },
    }
}

/// Decides about a database whose schema does not fit.
fn decide_unfit(allow_reindex_reset: bool, message: String) -> (result: Result<
    SchemaStep,
    CommandError,
>)
    ensures
        match result {
            Ok(step) => unfit_schema(allow_reindex_reset, message@) == Ok::<
                SchemaStep,
                CommandFailure,
            >(step),
            Err(error) => unfit_schema(allow_reindex_reset, message@) == Err::<
                SchemaStep,
                CommandFailure,
            >(error@),
        },
{
    if allow_reindex_reset {
        Ok(SchemaStep::Reset)
    } else {
        Err(CommandError::InvalidInput(message))
    }
}

/// Decides about a database in which these schema versions were found, in order. `supported` are
/// the lowest and the highest version that can be used.
pub fn ensure_schema_compatibility(
    db_path: &str,
    versions: Result<Vec<u32>, ArchiveMetadataSinkError>,
    allow_reindex_reset: bool,
    supported: (u32, u32),
) -> (result: Result<SchemaStep, CommandError>)
    ensures
        ({
            let expected = schema_step(
                db_path@,
                match versions {
                    Ok(list) => Ok(list@),
                    Err(error) => Err(error.details@),
                },
                allow_reindex_reset,
                supported,
            );
            match result {
                Ok(step) => expected == Ok::<SchemaStep, CommandFailure>(step),
                Err(error) => expected == Err::<SchemaStep, CommandFailure>(error@),
            }
        }),
{
    let list = match versions {
        Err(error) => {
            if holds_text(error.details.as_str(), "schema_migrations table is missing") {
                let mut message = "index DB at '".to_owned();
                push_text(&mut message, db_path);
                push_text(
                    &mut message,
                    "' has no schema migration metadata; migration is required or rerun with --reindex",
                );
                return decide_unfit(allow_reindex_reset, message);
            }
            return Err(map_sink_error(error));
        },
        Ok(list) => list,
    };
    let n: usize = list.len();
    if n == 0 {
        return Ok(SchemaStep::Proceed);
    }
    let lowest: u32 = list[0];
    if lowest < supported.0 {
        let mut message = "index DB schema version ".to_owned();
        push_decimal(&mut message, lowest as u64);
        push_text(&mut message, " is below supported minimum ");
        push_decimal(&mut message, supported.0 as u64);
        push_text(&mut message, "; migration required or rerun with --reindex");
        return decide_unfit(allow_reindex_reset, message);
    }
    let highest: u32 = list[n - 1];
    if highest > supported.1 {
        let mut message = "index DB schema version ".to_owned();
        push_decimal(&mut message, highest as u64);
        push_text(&mut message, " is above supported maximum ");
        push_decimal(&mut message, supported.1 as u64);
        push_text(
            &mut message,
            "; upgrade iox2-log-query or rerun with --reindex to rebuild this DB",
        );
        return decide_unfit(allow_reindex_reset, message);
    }
    Ok(SchemaStep::Proceed)
}

/// The character is an ASCII letter or digit.
pub open spec fn is_plain(c: char) -> bool {
    ('a' <= c && c <= 'z') || ('A' <= c && c <= 'Z') || ('0' <= c && c <= '9')
}

/// The text with an underscore for every character that is no ASCII letter or digit.
pub open spec fn plain_text(s: Seq<char>) -> Seq<char> {
    s.map_values(
        |c: char|
            if is_plain(c) {
                c
            } else {
                '_'
            },
    )
}

/// The name of the watermark file of a stream, next to the index database.
pub open spec fn watermark_name(stem: Option<Seq<char>>, stream_id: Seq<char>) -> Seq<char> {
    let start = match stem {
        Some(stem) => stem,
        None => "index"@,
    };
    start + "."@ + plain_text(stream_id) + ".watermark"@
}

/// Finds the path of the watermark file of a stream. `parent` and `stem` are those of the path of
/// the index database.
pub fn stream_watermark_path(parent: Option<&str>, stem: Option<&str>, stream_id: &str) -> (
    result: Result<String, CommandError>)
    ensures
        match parent {
            Some(parent) => result is Ok && result->Ok_0@ == joined(
                parent@,
                watermark_name(optional_text(stem), stream_id@),
            ),
            None => result is Err && result->Err_0@ == CommandFailure::InvalidInput(
                "--db-path must have a parent directory"@,
            ),
        },
{
    let parent = match parent {
        Some(parent) => parent,
        None => {
            return Err(CommandError::invalid_input("--db-path must have a parent directory"));
        },
    };
    let mut name = match stem {
        Some(stem) => stem.to_owned(),
        None => "index".to_owned(),
    };
    push_text(&mut name, ".");
    let chars = chars_of(stream_id);
    let n: usize = chars.len();
    let ghost start = name@;
    for i in 0..n
        invariant
            n == chars@.len(),
            name@ == start + plain_text(chars@.subrange(0, i as int)),
    {
        let c: char = chars[i];
        let plain: char = if ('a' <= c && c <= 'z') || ('A' <= c && c <= 'Z') || ('0' <= c && c
            <= '9') {
            c
        } else {
            '_'
        };
        let ghost before = chars@.subrange(0, i as int);
        assert(chars@.subrange(0, i + 1) =~= before.push(c));
        name.push(plain);
        assert(plain_text(before.push(c)) =~= plain_text(before).push(plain));
        assert(name@ =~= start + plain_text(chars@.subrange(0, i + 1)));
    }
    assert(chars@.subrange(0, n as int) =~= chars@);
    push_text(&mut name, ".watermark");
    Ok(join_path(parent, name.as_str()))
}

/// The files of an index database: the database itself and what its engine keeps beside it.
pub fn index_db_files(db_path: &str) -> (files: Vec<String>)
    ensures
        files@.len() == 3,
        files@[0]@ == db_path@,
        files@[1]@ == db_path@ + "-wal"@,
        files@[2]@ == db_path@ + "-shm"@,
{
    let mut wal = db_path.to_owned();
    push_text(&mut wal, "-wal");
    let mut shm = db_path.to_owned();
    push_text(&mut shm, "-shm");
    let mut files: Vec<String> = Vec::new();
    files.push(db_path.to_owned());
    files.push(wal);
    files.push(shm);
    files
}

} // verus!
