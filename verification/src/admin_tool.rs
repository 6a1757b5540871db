//! The tool that administers archives.

use crate::command::{
    check_service, locator_of_text, locator_text, map_replay_error, parse_locator, path_text,
    push_locator, replay_failure, text_or, ArchivePaths, CommandError, CommandFailure, Roots,
};
use crate::config::ArchiveRecorderBuilder;
use crate::error::ArchiveRecorderError;
use crate::query_tool::owned_text;
use crate::record_tool::{
    mode_of, persistence_mode_from_cli, profile_of, recorder_profile, CliPersistenceMode,
    CliRecorderProfile,
};
use crate::replayer::{
    entry_frame, indexed_entry, located_frame, ArchiveReplayer, ReplayerModel,
};
use crate::store::{ArchiveStore, StoreModel};
use crate::text::{bytes_to_hex, decimal, hex, is_blank, push_decimal, push_text};
use crate::types::{
    ArchiveSegmentState, ArchiveSegmentTier, FrameModel, RecorderProfile, ReplayedFrame,
};
use vstd::prelude::*;

verus! {

/// Which archive is meant.
#[derive(Debug, Clone)]
pub struct LogRecorderArchiveOptions {
    /// Service that the archive stands for.
    pub service: String,
    /// Storage root of the archive.
    pub storage_path: String,
    /// Metadata-log root of the archive.
    pub metadata_log_path: Option<String>,
}

/// The options of a start.
#[derive(Debug, Clone)]
pub struct LogRecorderStartOptions {
    /// The archive.
    pub archive: LogRecorderArchiveOptions,
    /// Profile.
    pub profile: CliRecorderProfile,
    /// Durability mode.
    pub mode: CliPersistenceMode,
    /// Size of a segment file.
    pub segment_bytes: usize,
    /// Number of segments that are prepared ahead.
    pub spare_preallocated_segments: usize,
    /// Segments get their full size when they are opened.
    pub segment_preallocate: bool,
    /// Cap on retained bytes.
    pub max_disk_bytes: Option<u64>,
}

/// The options of a stop.
#[derive(Debug, Clone)]
pub struct LogRecorderStopOptions {
    /// The archive.
    pub archive: LogRecorderArchiveOptions,
}

/// The options of a status report.
#[derive(Debug, Clone)]
pub struct LogRecorderStatusOptions {
    /// The archive.
    pub archive: LogRecorderArchiveOptions,
}

/// The options of a flush.
#[derive(Debug, Clone)]
pub struct LogRecorderFlushOptions {
    /// The archive.
    pub archive: LogRecorderArchiveOptions,
}

/// The options of a trim.
#[derive(Debug, Clone)]
pub struct LogRecorderTrimOptions {
    /// The archive.
    pub archive: LogRecorderArchiveOptions,
    /// Segments that end before this sequence are removed.
    pub before_sequence: u64,
}

/// The options of a detachment.
#[derive(Debug, Clone)]
pub struct LogRecorderDetachOptions {
    /// The archive.
    pub archive: LogRecorderArchiveOptions,
    /// Segments that end before this sequence are detached.
    pub before_sequence: u64,
}

/// The options of an attachment.
#[derive(Debug, Clone)]
pub struct LogRecorderAttachOptions {
    /// The archive.
    pub archive: LogRecorderArchiveOptions,
}

/// The options of a deletion of detached segments.
#[derive(Debug, Clone)]
pub struct LogRecorderDeleteDetachedOptions {
    /// The archive.
    pub archive: LogRecorderArchiveOptions,
    /// Only segments that end before this sequence are deleted.
    pub before_sequence: Option<u64>,
}

/// The options of a list of segments.
#[derive(Debug, Clone)]
pub struct LogRecorderListSegmentsOptions {
    /// The archive.
    pub archive: LogRecorderArchiveOptions,
    /// Only detached segments are listed.
    pub detached_only: bool,
}

/// The options of a look into the commit log.
#[derive(Debug, Clone)]
pub struct LogRecorderInspectCommitLogOptions {
    /// The archive.
    pub archive: LogRecorderArchiveOptions,
    /// The first entry.
    pub from_ordinal: u64,
    /// Most entries.
    pub limit: usize,
}

/// The options of a look at a record.
#[derive(Debug, Clone)]
pub struct LogRecorderInspectRecordOptions {
    /// The archive.
    pub archive: LogRecorderArchiveOptions,
    /// Sequence of the record.
    pub at_sequence: Option<u64>,
    /// Locator of the record.
    pub at_locator: Option<String>,
    /// Most bytes that are shown.
    pub preview_bytes: usize,
}

/// What the tool is asked to do.
#[derive(Debug, Clone)]
pub enum LogRecorderAction {
    /// Create or recover an archive.
    Start(LogRecorderStartOptions),
    /// Finalize an archive.
    Stop(LogRecorderStopOptions),
    /// Report on an archive.
    Status(LogRecorderStatusOptions),
    /// Flush an archive.
    Flush(LogRecorderFlushOptions),
    /// Remove old segments.
    Trim(LogRecorderTrimOptions),
    /// Detach old segments.
    Detach(LogRecorderDetachOptions),
    /// Attach all detached segments.
    Attach(LogRecorderAttachOptions),
    /// Delete detached segments.
    DeleteDetached(LogRecorderDeleteDetachedOptions),
    /// List the segments.
    ListSegments(LogRecorderListSegmentsOptions),
    /// Show entries of the commit log.
    InspectCommitLog(LogRecorderInspectCommitLogOptions),
    /// Show a record.
    InspectRecord(LogRecorderInspectRecordOptions),
}

/// The roots of an archive.
pub open spec fn roots_of(options: LogRecorderArchiveOptions) -> Roots {
    Roots {
        storage: options.storage_path@,
        metadata: text_or(options.metadata_log_path, options.storage_path@),
    }
}

/// Checks which archive is meant, and finds its roots.
pub fn archive_paths(options: &LogRecorderArchiveOptions) -> (result: Result<
    ArchivePaths,
    CommandError,
>)
    ensures
        match result {
            Ok(paths) => !is_blank(options.service@) && paths@ == roots_of(*options),
            Err(error) => is_blank(options.service@) && error@ == CommandFailure::InvalidInput(
                "--service must not be empty"@,
            ),
        },
{
    check_service(options.service.as_str())?;
    Ok(ArchivePaths::new(options.storage_path.as_str(), &options.metadata_log_path))
}

/// Makes the builder of the recorder that is started.
pub fn start_builder(options: &LogRecorderStartOptions, paths: &ArchivePaths) -> (builder:
    ArchiveRecorderBuilder)
    ensures
        builder.storage_path@ == paths@.storage,
        owned_text(builder.metadata_log_path) == Some(paths@.metadata),
        builder.profile == profile_of(options.profile),
        builder.persistence_mode == mode_of(options.mode),
        builder.persistence_mode_overridden,
        builder.segment_bytes == options.segment_bytes,
        builder.segment_bytes_overridden,
        builder.spare_preallocated_segments == options.spare_preallocated_segments,
        builder.spare_preallocated_segments_overridden,
        builder.segment_preallocate == options.segment_preallocate,
        builder.max_disk_bytes == options.max_disk_bytes,
        builder.follows_profile(),
        builder.has_other_defaults(),
{
    let builder = ArchiveRecorderBuilder::new(paths.storage_path.as_str()).metadata_log_path(
        paths.metadata_log_path.as_str(),
    ).profile(recorder_profile(options.profile)).persistence_mode(
        persistence_mode_from_cli(options.mode),
    ).segment_bytes(options.segment_bytes).spare_preallocated_segments(
        options.spare_preallocated_segments,
    ).segment_preallocate(options.segment_preallocate);
    match options.max_disk_bytes {
        Some(value) => builder.max_disk_bytes(value),
        None => builder,
    }
}

/// Makes the builder of a recorder of an archive that is there.
pub fn existing_builder(paths: &ArchivePaths) -> (builder: ArchiveRecorderBuilder)
    ensures
        builder.storage_path@ == paths@.storage,
        owned_text(builder.metadata_log_path) == Some(paths@.metadata),
        builder.profile == RecorderProfile::Balanced,
        builder.has_defaults(),
        builder.problem() is None,
{
    ArchiveRecorderBuilder::new(paths.storage_path.as_str()).metadata_log_path(
        paths.metadata_log_path.as_str(),
    )
}

/// The highest sequence before which detached segments are deleted.
pub fn delete_bound(options: &LogRecorderDeleteDetachedOptions) -> (bound: u64)
    ensures
        bound == match options.before_sequence {
            Some(bound) => bound,
            None => u64::MAX,
        },
{
    match options.before_sequence {
        Some(bound) => bound,
        None => u64::MAX,
    }
}

/// The segments that are listed.
pub open spec fn listed(segments: Seq<ArchiveSegmentState>, detached_only: bool) -> Seq<
    ArchiveSegmentState,
>
    decreases segments.len(),
{
    if segments.len() == 0 {
        Seq::empty()
    } else {
        let before = listed(segments.drop_last(), detached_only);
        if !detached_only || segments.last().tier == ArchiveSegmentTier::ColdDetached {
            before.push(segments.last())
        } else {
            before
        }
    }
}

/// Chooses the segments that are listed.
pub fn list_segments(segments: &[ArchiveSegmentState], detached_only: bool) -> (list: Vec<
    ArchiveSegmentState,
>)
    ensures
        list@ == listed(segments@, detached_only),
{
    let n: usize = segments.len();
    let mut list: Vec<ArchiveSegmentState> = Vec::new();
    for i in 0..n
        invariant
            n == segments@.len(),
            list@ == listed(segments@.subrange(0, i as int), detached_only),
    {
        assert(segments@.subrange(0, i + 1).drop_last() =~= segments@.subrange(0, i as int));
        if !detached_only || segments[i].tier == ArchiveSegmentTier::ColdDetached {
            list.push(segments[i]);
        }
    }
    assert(segments@.subrange(0, n as int) =~= segments@);
    list
}

/// The label of a tier.
pub fn tier_label(tier: ArchiveSegmentTier) -> (label: &'static str)
    ensures
        label@ == match tier {
            ArchiveSegmentTier::HotAttached => "HotAttached"@,
            ArchiveSegmentTier::ColdDetached => "ColdDetached"@,
        },
{
    match tier {
        ArchiveSegmentTier::HotAttached => "HotAttached",
        ArchiveSegmentTier::ColdDetached => "ColdDetached",
    }
}

/// Checks how many entries of the commit log are shown.
pub fn check_limit(limit: usize) -> (result: Result<(), CommandError>)
    ensures
        match result {
            Ok(_) => limit > 0,
            Err(error) => limit == 0 && error@ == CommandFailure::InvalidInput(
                "--limit must be > 0"@,
            ),
        },
{
    if limit == 0 {
        return Err(CommandError::invalid_input("--limit must be > 0"));
    }
    Ok(())
}

/// The record that is asked for, and the query that found it.
pub open spec fn inspected(
    store: StoreModel,
    replayer: ReplayerModel,
    roots: Roots,
    at_sequence: Option<u64>,
    at_locator: Option<Seq<char>>,
) -> Result<(Seq<char>, FrameModel), CommandFailure> {
    match (at_sequence, at_locator) {
        (Some(sequence), _) => match indexed_entry(replayer.index, sequence) {
            None => Err(
                CommandFailure::NotAvailable(
                    "sequence "@ + decimal(sequence as nat) + " is not available"@,
                ),
            ),
            Some(entry) => match entry_frame(store, entry, replayer.verify) {
                Err(error) => Err(replay_failure(roots, error)),
                Ok(frame) => Ok(("sequence:"@ + decimal(sequence as nat), frame)),
            },
        },
        (None, Some(text)) => match locator_of_text(text) {
            Err(error) => Err(error),
            Ok(locator) => match located_frame(store, locator, replayer.verify) {
                Err(error) => Err(replay_failure(roots, error)),
                Ok(frame) => Ok(("locator:"@ + locator_text(locator), frame)),
            },
        },
        (None, None) => Err(
            CommandFailure::InvalidInput("either --at-sequence or --at-locator is required"@),
        ),
    }
}

/// Reads the record that is asked for.
pub fn inspect_record(
    store: &ArchiveStore,
    replayer: &ArchiveReplayer,
    paths: &ArchivePaths,
    at_sequence: Option<u64>,
    at_locator: &Option<String>,
) -> (result: Result<(String, ReplayedFrame), CommandError>)
    ensures
        ({
            let expected = inspected(
                store@,
                replayer@,
                paths@,
                at_sequence,
                owned_text(*at_locator),
            );
            match result {
                Ok(found) => expected == Ok::<(Seq<char>, FrameModel), CommandFailure>(
                    (found.0@, found.1@),
                ),
                Err(error) => expected == Err::<(Seq<char>, FrameModel), CommandFailure>(error@),
            }
        }),
{
    if let Some(sequence) = at_sequence {
        return match replayer.read_at_sequence(store, sequence) {
            Err(error) => Err(map_replay_error(paths, error)),
            Ok(None) => {
                let mut message = "sequence ".to_owned();
                push_decimal(&mut message, sequence);
                push_text(&mut message, " is not available");
                Err(CommandError::NotAvailable(message))
            },
            Ok(Some(frame)) => {
                let mut query = "sequence:".to_owned();
                push_decimal(&mut query, sequence);
                Ok((query, frame))
            },
        };
    }
    match at_locator {
        None => Err(
            CommandError::invalid_input("either --at-sequence or --at-locator is required"),
        ),
        Some(text) => {
            let locator = parse_locator(text.as_str())?;
            let mut query = "locator:".to_owned();
            push_locator(&mut query, locator);
            match replayer.read_at_locator(store, locator) {
                Err(error) => Err(map_replay_error(paths, error)),
                Ok(frame) => Ok((query, frame)),
            }
        },
    }
}

/// The first bytes of a payload, to be shown.
#[derive(Debug)]
pub struct RecordPayloadPreview {
    /// Length of the payload.
    pub total_len: usize,
    /// How many bytes are shown.
    pub preview_len: usize,
    /// Not all bytes are shown.
    pub truncated: bool,
    /// The bytes that are shown, in hexadecimal digits.
    pub hex: String,
}

/// Shows the first bytes of a payload.
pub fn preview_bytes_as_hex(payload: &[u8], preview_bytes: usize) -> (preview: RecordPayloadPreview)
    ensures
        ({
            let shown: int = if payload@.len() < preview_bytes {
                payload@.len() as int
            } else {
                preview_bytes as int
            };
            &&& preview.total_len == payload@.len()
            &&& preview.preview_len == shown
            &&& preview.truncated == (shown < payload@.len())
            &&& preview.hex@ == hex(payload@.subrange(0, shown))
        }),
{
    let total_len: usize = payload.len();
    let preview_len: usize = if total_len < preview_bytes {
        total_len
    } else {
        preview_bytes
    };
    let shown = vstd::slice::slice_subrange(payload, 0, preview_len);
    RecordPayloadPreview {
        total_len,
        preview_len,
        truncated: preview_len < total_len,
        hex: bytes_to_hex(shown),
    }
}

/// What a failure of the recorder means for the tool.
pub open spec fn admin_failure(roots: Roots, error: ArchiveRecorderError) -> CommandFailure {
    match error {
        ArchiveRecorderError::MissingArchiveComponent(path) => CommandFailure::NotAvailable(
            "archive component unavailable: "@ + path_text(roots, path),
        ),
        ArchiveRecorderError::ArchiveAlreadyExists(path) => CommandFailure::NotAvailable(
            "archive component unavailable: "@ + path_text(roots, path),
        ),
        ArchiveRecorderError::OutOfSpace(path) => CommandFailure::NotAvailable(
            "archive component unavailable: "@ + path_text(roots, path),
        ),
        ArchiveRecorderError::InvalidConfiguration(message) => CommandFailure::InvalidInput(
            message@,
        ),
        other => CommandFailure::Recorder(other),
    }
}

/// Tells what a failure of the recorder means for the tool.
pub fn map_recorder_error(paths: &ArchivePaths, error: ArchiveRecorderError) -> (result:
    CommandError)
    ensures
        result@ == admin_failure(paths@, error),
{
    let path = match error {
        ArchiveRecorderError::MissingArchiveComponent(path) => path,
        ArchiveRecorderError::ArchiveAlreadyExists(path) => path,
        ArchiveRecorderError::OutOfSpace(path) => path,
        ArchiveRecorderError::InvalidConfiguration(message) => {
            return CommandError::invalid_input(message);
        },
        other => {
            return CommandError::Recorder(other);
        },
    };
    let mut message = "archive component unavailable: ".to_owned();
    push_text(&mut message, paths.path_of(path).as_str());
    CommandError::NotAvailable(message)
}

} // verus!
