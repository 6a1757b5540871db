//! What the command-line tools have in common: their errors, the paths of an archive, and how
//! values are written and read as text.

use crate::error::{
    ArchiveDirectory, ArchiveFile, ArchivePath, ArchiveRecorderError, ArchiveReplayError,
};
use crate::layout::{file_place, locate_file};
use crate::store::{ArchiveStore, StoreModel};
use crate::text::{
    blank, chars_of, decimal, decimal_round_trip, is_blank, is_digit, join_path, joined,
    parse_u32, parse_u64, parsed_number, push_decimal, push_text,
};
use crate::types::{
    ArchiveLocator, ArchiveSourcePattern, AsyncIoBackend, ChecksumMode, EffectiveAsyncIoBackend,
    OutOfSpacePolicy, PersistenceMode, RecorderAckLevel, RecorderProfile,
};
use vstd::prelude::*;

verus! {

/// Why a command failed.
#[derive(Debug)]
pub enum CommandError {
    /// The arguments are not valid.
    InvalidInput(String),
    /// What was asked for is not there.
    NotAvailable(String),
    /// What was asked for has been committed, but not indexed yet.
    NotIndexedYet {
        /// The bound that was asked for.
        requested_bound: String,
        /// Up to here queries can be answered.
        query_watermark: u64,
        /// Up to here entries are committed.
        last_commit_ordinal: u64,
    },
    /// Another process holds the resource.
    ResourceBusy(String),
    /// The recorder failed in another way.
    Recorder(ArchiveRecorderError),
    /// The replayer failed in another way.
    Replay(ArchiveReplayError),
    /// Something else failed.
    Internal(String),
}

/// Why a command failed, with the texts as sequences of characters.
pub enum CommandFailure {
    /// The arguments are not valid.
    InvalidInput(Seq<char>),
    /// What was asked for is not there.
    NotAvailable(Seq<char>),
    /// What was asked for has been committed, but not indexed yet.
    NotIndexedYet {
        /// The bound that was asked for.
        requested_bound: Seq<char>,
        /// Up to here queries can be answered.
        query_watermark: u64,
        /// Up to here entries are committed.
        last_commit_ordinal: u64,
    },
    /// Another process holds the resource.
    ResourceBusy(Seq<char>),
    /// The recorder failed in another way.
    Recorder(ArchiveRecorderError),
    /// The replayer failed in another way.
    Replay(ArchiveReplayError),
    /// Something else failed.
    Internal(Seq<char>),
}

impl View for CommandError {
    type V = CommandFailure;

    open spec fn view(&self) -> CommandFailure {
        match *self {
            CommandError::InvalidInput(message) => CommandFailure::InvalidInput(message@),
            CommandError::NotAvailable(message) => CommandFailure::NotAvailable(message@),
            CommandError::NotIndexedYet {
                requested_bound,
                query_watermark,
                last_commit_ordinal,
            } => CommandFailure::NotIndexedYet {
                requested_bound: requested_bound@,
                query_watermark,
                last_commit_ordinal,
            },
            CommandError::ResourceBusy(message) => CommandFailure::ResourceBusy(message@),
            CommandError::Recorder(error) => CommandFailure::Recorder(error),
            CommandError::Replay(error) => CommandFailure::Replay(error),
            CommandError::Internal(message) => CommandFailure::Internal(message@),
        }
    }
}

impl CommandFailure {
    /// The exit code of the process.
    pub open spec fn spec_exit_code(self) -> i32 {
        match self {
            CommandFailure::InvalidInput(_) => 2,
            CommandFailure::NotAvailable(_) => 3,
            CommandFailure::NotIndexedYet { .. } => 3,
            CommandFailure::ResourceBusy(_) => 3,
            CommandFailure::Recorder(_) => 1,
            CommandFailure::Replay(_) => 1,
            CommandFailure::Internal(_) => 1,
        }
    }

    /// The code under which the error is reported.
    pub open spec fn spec_error_code(self) -> Seq<char> {
        match self {
            CommandFailure::InvalidInput(_) => "InvalidInput"@,
            CommandFailure::NotAvailable(_) => "NotAvailable"@,
            CommandFailure::NotIndexedYet { .. } => "NotIndexedYet"@,
            CommandFailure::ResourceBusy(_) => "ResourceBusy"@,
            CommandFailure::Recorder(_) => "Internal"@,
            CommandFailure::Replay(_) => "Internal"@,
            CommandFailure::Internal(_) => "Internal"@,
        }
    }

    /// The message of the error, where it has one of its own.
    pub open spec fn spec_message(self) -> Option<Seq<char>> {
        match self {
            CommandFailure::InvalidInput(message) => Some(message),
            CommandFailure::NotAvailable(message) => Some(message),
            CommandFailure::NotIndexedYet {
                requested_bound,
                query_watermark,
                last_commit_ordinal,
            } => Some(not_indexed_message(requested_bound, query_watermark, last_commit_ordinal)),
            CommandFailure::ResourceBusy(message) => Some(message),
            CommandFailure::Recorder(_) => None,
            CommandFailure::Replay(_) => None,
            CommandFailure::Internal(message) => Some(message),
        }
    }
}

/// The message for a bound that is not indexed yet.
pub open spec fn not_indexed_message(
    requested_bound: Seq<char>,
    query_watermark: u64,
    last_commit_ordinal: u64,
) -> Seq<char> {
    "requested bound '"@ + requested_bound + "' exceeds query watermark "@ + decimal(
        query_watermark as nat,
    ) + " (last_commit_ordinal="@ + decimal(last_commit_ordinal as nat) + ")"@
}

impl CommandError {
    /// An error that says that the arguments are not valid.
    pub fn invalid_input(message: &str) -> (error: CommandError)
        ensures
            error@ == CommandFailure::InvalidInput(message@),
    {
        CommandError::InvalidInput(message.to_owned())
    }

    /// The exit code of the process.
    pub fn exit_code(&self) -> (code: i32)
        ensures
            code == self@.spec_exit_code(),
    {
        match self {
            CommandError::InvalidInput(_) => 2,
            CommandError::NotAvailable(_) => 3,
            CommandError::NotIndexedYet { .. } => 3,
            CommandError::ResourceBusy(_) => 3,
            CommandError::Recorder(_) => 1,
            CommandError::Replay(_) => 1,
            CommandError::Internal(_) => 1,
        }
    }

    /// The code under which the error is reported.
    pub fn error_code(&self) -> (code: &'static str)
        ensures
            code@ == self@.spec_error_code(),
    {
        match self {
            CommandError::InvalidInput(_) => "InvalidInput",
            CommandError::NotAvailable(_) => "NotAvailable",
            CommandError::NotIndexedYet { .. } => "NotIndexedYet",
            CommandError::ResourceBusy(_) => "ResourceBusy",
            CommandError::Recorder(_) => "Internal",
            CommandError::Replay(_) => "Internal",
            CommandError::Internal(_) => "Internal",
        }
    }

    /// The message of the error; `None` where the recorder's or the replayer's own error says it.
    pub fn message(&self) -> (message: Option<String>)
        ensures
            match message {
                Some(text) => self@.spec_message() == Some(text@),
                None => self@.spec_message() is None,
            },
    {
        match self {
            CommandError::InvalidInput(message) => Some(message.clone()),
            CommandError::NotAvailable(message) => Some(message.clone()),
            CommandError::NotIndexedYet {
                requested_bound,
                query_watermark,
                last_commit_ordinal,
            } => {
                let mut text = "requested bound '".to_owned();
                push_text(&mut text, requested_bound.as_str());
                push_text(&mut text, "' exceeds query watermark ");
                push_decimal(&mut text, *query_watermark);
                push_text(&mut text, " (last_commit_ordinal=");
                push_decimal(&mut text, *last_commit_ordinal);
                push_text(&mut text, ")");
                Some(text)
            },
            CommandError::ResourceBusy(message) => Some(message.clone()),
            CommandError::Recorder(_) => None,
            CommandError::Replay(_) => None,
            CommandError::Internal(message) => Some(message.clone()),
        }
    }
}

/// The two roots of an archive.
#[derive(Debug, Clone)]
pub struct ArchivePaths {
    /// Storage root.
    pub storage_path: String,
    /// Metadata-log root.
    pub metadata_log_path: String,
}

/// The two roots of an archive, as sequences of characters.
pub struct Roots {
    /// Storage root.
    pub storage: Seq<char>,
    /// Metadata-log root.
    pub metadata: Seq<char>,
}

impl View for ArchivePaths {
    type V = Roots;

    open spec fn view(&self) -> Roots {
        Roots { storage: self.storage_path@, metadata: self.metadata_log_path@ }
    }
}

/// The text of an optional string.
pub open spec fn text_or(value: Option<String>, default: Seq<char>) -> Seq<char> {
    match value {
        Some(text) => text@,
        None => default,
    }
}

/// The path of a directory below the roots.
pub open spec fn directory_text(roots: Roots, directory: ArchiveDirectory) -> Seq<char> {
    match directory {
        ArchiveDirectory::Storage => roots.storage,
        ArchiveDirectory::Segments => joined(roots.storage, "segments"@),
        ArchiveDirectory::Detached => joined(roots.storage, "detached"@),
        ArchiveDirectory::Metadata => roots.metadata,
        ArchiveDirectory::Pins => joined(roots.metadata, "pins"@),
    }
}

/// The path of a file or a directory below the roots.
pub open spec fn path_text(roots: Roots, path: ArchivePath) -> Seq<char> {
    match path {
        ArchivePath::Directory(directory) => directory_text(roots, directory),
        ArchivePath::File(file) => joined(
            directory_text(roots, file_place(file).0),
            file_place(file).1,
        ),
    }
}

/// What a store lacks of an archive: first the catalog, then the active commit log.
pub open spec fn missing_part(store: StoreModel) -> Option<ArchiveFile> {
    if !store.files.contains_key(ArchiveFile::Catalog) {
        Some(ArchiveFile::Catalog)
    } else if !store.files.contains_key(ArchiveFile::CommitLog) {
        Some(ArchiveFile::CommitLog)
    } else {
        None
    }
}

/// The failure for an archive of which a part is missing.
pub open spec fn missing_archive(
    roots: Roots,
    service: Option<Seq<char>>,
    part: ArchiveFile,
) -> CommandFailure {
    let whose = match service {
        Some(service) => " for service '"@ + service + "'"@,
        None => Seq::<char>::empty(),
    };
    CommandFailure::NotAvailable(
        if part == ArchiveFile::Catalog {
            "archive not found"@ + whose + " at "@ + roots.storage
        } else {
            "commit.idxlog not found"@ + whose + " at "@ + roots.metadata
        },
    )
}

impl ArchivePaths {
    /// The roots that options name; the metadata log lies in the storage root by default.
    pub fn new(storage_path: &str, metadata_log_path: &Option<String>) -> (paths: ArchivePaths)
        ensures
            paths@ == (Roots {
                storage: storage_path@,
                metadata: text_or(*metadata_log_path, storage_path@),
            }),
    {
        ArchivePaths {
            storage_path: storage_path.to_owned(),
            metadata_log_path: match metadata_log_path {
                Some(path) => path.clone(),
                None => storage_path.to_owned(),
            },
        }
    }

    /// The path of a directory.
    pub fn directory_path(&self, directory: ArchiveDirectory) -> (path: String)
        ensures
            path@ == directory_text(self@, directory),
    {
        match directory {
            ArchiveDirectory::Storage => self.storage_path.clone(),
            ArchiveDirectory::Segments => join_path(self.storage_path.as_str(), "segments"),
            ArchiveDirectory::Detached => join_path(self.storage_path.as_str(), "detached"),
            ArchiveDirectory::Metadata => self.metadata_log_path.clone(),
            ArchiveDirectory::Pins => join_path(self.metadata_log_path.as_str(), "pins"),
        }
    }

    /// The path of a file or a directory.
    pub fn path_of(&self, path: ArchivePath) -> (text: String)
        ensures
            text@ == path_text(self@, path),
    {
        match path {
            ArchivePath::Directory(directory) => self.directory_path(directory),
            ArchivePath::File(file) => {
                let (directory, name) = locate_file(file);
                let root = self.directory_path(directory);
                join_path(root.as_str(), name.as_str())
            },
        }
    }

    /// Checks that the catalog and the active commit log of an archive are there.
    pub fn ensure_archive_exists(&self, store: &ArchiveStore, service: Option<&str>) -> (result:
        Result<(), CommandError>)
        ensures
            match result {
                Ok(_) => missing_part(store@) is None,
                Err(error) => missing_part(store@) matches Some(part) && error@ == missing_archive(
                    self@,
                    match service {
                        Some(service) => Some(service@),
                        None => None,
                    },
                    part,
                ),
            },
    {
        let mut whose = String::new();
        if let Some(service) = service {
            push_text(&mut whose, " for service '");
            push_text(&mut whose, service);
            push_text(&mut whose, "'");
            assert(whose@ =~= " for service '"@ + service@ + "'"@);
        }
        if !store.contains(ArchiveFile::Catalog) {
            let mut message = "archive not found".to_owned();
            push_text(&mut message, whose.as_str());
            push_text(&mut message, " at ");
            push_text(&mut message, self.storage_path.as_str());
            return Err(CommandError::NotAvailable(message));
        }
        if !store.contains(ArchiveFile::CommitLog) {
            let mut message = "commit.idxlog not found".to_owned();
            push_text(&mut message, whose.as_str());
            push_text(&mut message, " at ");
            push_text(&mut message, self.metadata_log_path.as_str());
            return Err(CommandError::NotAvailable(message));
        }
        Ok(())
    }
}

/// Checks that the name of a service is not blank.
pub fn check_service(service: &str) -> (result: Result<(), CommandError>)
    ensures
        match result {
            Ok(_) => !is_blank(service@),
            Err(error) => is_blank(service@) && error@ == CommandFailure::InvalidInput(
                "--service must not be empty"@,
            ),
        },
{
    if blank(service) {
        return Err(CommandError::invalid_input("--service must not be empty"));
    }
    Ok(())
}

/// The parts of a text between separators.
pub open spec fn split_all(s: Seq<char>, separator: char) -> Seq<Seq<char>>
    decreases s.len(),
{
    if s.len() == 0 {
        seq![s]
    } else {
        let before = split_all(s.drop_last(), separator);
        if s.last() == separator {
            before.push(Seq::<char>::empty())
        } else {
            before.drop_last().push(before.last().push(s.last()))
        }
    }
}

/// The characters of each text.
pub open spec fn all_chars(parts: Seq<Vec<char>>) -> Seq<Seq<char>> {
    parts.map_values(|part: Vec<char>| part@)
}

/// Splits a text at every separator.
pub fn split_text(s: &[char], separator: char) -> (parts: Vec<Vec<char>>)
    ensures
        all_chars(parts@) == split_all(s@, separator),
        parts@.len() > 0,
{
    let n: usize = s.len();
    let mut parts: Vec<Vec<char>> = Vec::new();
    let mut current: Vec<char> = Vec::new();
    assert(current@ =~= s@.subrange(0, 0));
    assert(all_chars(parts@).push(current@) =~= split_all(s@.subrange(0, 0), separator));
    for i in 0..n
        invariant
            n == s@.len(),
            all_chars(parts@).push(current@) == split_all(s@.subrange(0, i as int), separator),
    {
        let c: char = s[i];
        let ghost before = all_chars(parts@).push(current@);
        let ghost held = current@;
        assert(s@.subrange(0, i + 1).drop_last() =~= s@.subrange(0, i as int));
        assert(before.drop_last() =~= all_chars(parts@));
        if c == separator {
            let ghost listed = parts@;
            parts.push(current);
            current = Vec::new();
            assert(all_chars(parts@) =~= before);
            assert(current@ =~= Seq::<char>::empty());
        } else {
            current.push(c);
            assert(current@ =~= held.push(c));
        }
        assert(all_chars(parts@).push(current@) =~= split_all(s@.subrange(0, i + 1), separator));
    }
    assert(s@.subrange(0, n as int) =~= s@);
    let ghost listed = all_chars(parts@);
    let ghost held = current@;
    parts.push(current);
    assert(all_chars(parts@) =~= listed.push(held));
    parts
}

/// The message for a text that is no locator.
pub open spec fn invalid_locator(value: Seq<char>) -> CommandFailure {
    CommandFailure::InvalidInput(
        "invalid locator '"@ + value
            + "', expected <segment_id>:<generation>:<offset>:<frame_len>"@,
    )
}

/// The failure for a locator without a generation.
pub open spec fn zero_generation() -> CommandFailure {
    CommandFailure::InvalidInput("invalid locator segment generation '0', expected > 0"@)
}

/// The locator that a text stands for: segment id, generation, offset and frame length, divided
/// by colons.
pub open spec fn locator_of_text(value: Seq<char>) -> Result<ArchiveLocator, CommandFailure> {
    let parts = split_all(value, ':');
    if parts.len() != 4 {
        Err(invalid_locator(value))
    } else {
        match (
            parsed_number(parts[0], u64::MAX as int),
            parsed_number(parts[1], u32::MAX as int),
            parsed_number(parts[2], u64::MAX as int),
            parsed_number(parts[3], u32::MAX as int),
        ) {
            (Some(id), Some(generation), Some(offset), Some(len)) => if generation == 0 {
                Err(zero_generation())
            } else {
                Ok(
                    ArchiveLocator {
                        segment_id: id as u64,
                        segment_generation: generation as u32,
                        file_offset: offset as u64,
                        frame_len: len as u32,
                    },
                )
            },
            _ => Err(invalid_locator(value)),
        }
    }
}

/// Makes the error for a text that is no locator.
fn make_invalid_locator(value: &str) -> (error: CommandError)
    ensures
        error@ == invalid_locator(value@),
{
    let mut message = "invalid locator '".to_owned();
    push_text(&mut message, value);
    push_text(&mut message, "', expected <segment_id>:<generation>:<offset>:<frame_len>");
    CommandError::InvalidInput(message)
}

/// Reads a locator.
pub fn parse_locator(value: &str) -> (result: Result<ArchiveLocator, CommandError>)
    ensures
        match result {
            Ok(locator) => locator_of_text(value@) == Ok::<ArchiveLocator, CommandFailure>(locator),
            Err(error) => locator_of_text(value@) == Err::<ArchiveLocator, CommandFailure>(error@),
        },
{
    let chars = chars_of(value);
    let parts = split_text(&chars, ':');
    let ghost split = split_all(value@, ':');
    assert(split.len() == parts@.len());
    assert(forall|i: int| 0 <= i < parts@.len() ==> #[trigger] parts@[i]@ == split[i]);
    if parts.len() != 4 {
        return Err(make_invalid_locator(value));
    }
    let (id, generation, offset, len) = match (
        parse_u64(&parts[0]),
        parse_u32(&parts[1]),
        parse_u64(&parts[2]),
        parse_u32(&parts[3]),
    ) {
        (Some(id), Some(generation), Some(offset), Some(len)) => (id, generation, offset, len),
        _ => {
            return Err(make_invalid_locator(value));
        },
    };
    if generation == 0 {
        return Err(
            CommandError::invalid_input("invalid locator segment generation '0', expected > 0"),
        );
    }
    Ok(
        ArchiveLocator {
            segment_id: id,
            segment_generation: generation,
            file_offset: offset,
            frame_len: len,
        },
    )
}

/// A locator as text.
pub open spec fn locator_text(locator: ArchiveLocator) -> Seq<char> {
    decimal(locator.segment_id as nat) + ":"@ + decimal(locator.segment_generation as nat) + ":"@
        + decimal(locator.file_offset as nat) + ":"@ + decimal(locator.frame_len as nat)
}

/// Adds a locator behind a text.
pub fn push_locator(text: &mut String, locator: ArchiveLocator)
    ensures
        final(text)@ == old(text)@ + locator_text(locator),
{
    push_decimal(text, locator.segment_id);
    push_text(text, ":");
    push_decimal(text, locator.segment_generation as u64);
    push_text(text, ":");
    push_decimal(text, locator.file_offset);
    push_text(text, ":");
    push_decimal(text, locator.frame_len as u64);
    assert(text@ =~= old(text)@ + locator_text(locator));
}

/// A separator that does not occur in a text leaves it whole.
proof fn unsplit(s: Seq<char>, separator: char)
    requires
        !s.contains(separator),
    ensures
        split_all(s, separator) == seq![s],
    decreases s.len(),
{
    if s.len() > 0 {
        let shorter = s.drop_last();
        assert(s[s.len() - 1] == s.last());
        assert(s.contains(s.last()));
        assert forall|i: int| 0 <= i < shorter.len() implies shorter[i] != separator by {
            assert(s[i] == shorter[i]);
            assert(s.contains(s[i]));
        }
        unsplit(shorter, separator);
        assert(seq![shorter].drop_last().push(seq![shorter].last().push(s.last())) =~= seq![s])
            by {
            assert(shorter.push(s.last()) =~= s);
        }
    }
}

/// A text behind another one and a separator is one more part.
proof fn split_behind(before: Seq<char>, separator: char, part: Seq<char>)
    requires
        !part.contains(separator),
    ensures
        split_all(before.push(separator) + part, separator) == split_all(before, separator).push(
            part,
        ),
    decreases part.len(),
{
    let whole = before.push(separator) + part;
    if part.len() == 0 {
        assert(whole.drop_last() =~= before);
        assert(part =~= Seq::<char>::empty());
    } else {
        let shorter = part.drop_last();
        assert(part[part.len() - 1] == part.last());
        assert(part.contains(part.last()));
        assert forall|i: int| 0 <= i < shorter.len() implies shorter[i] != separator by {
            assert(part[i] == shorter[i]);
            assert(part.contains(part[i]));
        }
        split_behind(before, separator, shorter);
        assert(whole.drop_last() =~= before.push(separator) + shorter);
        assert(shorter.push(part.last()) =~= part);
        let list = split_all(before, separator).push(shorter);
        assert(list.drop_last() =~= split_all(before, separator));
    }
}

/// The digits of a number hold no colon.
proof fn digits_hold_no_colon(n: nat)
    ensures
        !decimal(n).contains(':'),
{
    decimal_round_trip(n);
    assert forall|i: int| 0 <= i < decimal(n).len() implies decimal(n)[i] != ':' by {
        assert(is_digit(decimal(n)[i]));
    }
}

/// A locator that is written as text is read back, where its generation can be used.
pub proof fn locator_round_trip(locator: ArchiveLocator)
    requires
        locator.segment_generation != 0,
    ensures
        locator_of_text(locator_text(locator)) == Ok::<ArchiveLocator, CommandFailure>(locator),
{
    reveal_strlit(":");
    let a = decimal(locator.segment_id as nat);
    let b = decimal(locator.segment_generation as nat);
    let c = decimal(locator.file_offset as nat);
    let d = decimal(locator.frame_len as nat);
    digits_hold_no_colon(locator.segment_id as nat);
    digits_hold_no_colon(locator.segment_generation as nat);
    digits_hold_no_colon(locator.file_offset as nat);
    digits_hold_no_colon(locator.frame_len as nat);
    let ab = a.push(':') + b;
    let abc = ab.push(':') + c;
    let abcd = abc.push(':') + d;
    assert(locator_text(locator) =~= abcd);
    unsplit(a, ':');
    split_behind(a, ':', b);
    split_behind(ab, ':', c);
    split_behind(abc, ':', d);
    assert(split_all(abcd, ':') =~= seq![a, b, c, d]);
    decimal_round_trip(locator.segment_id as nat);
    decimal_round_trip(locator.segment_generation as nat);
    decimal_round_trip(locator.file_offset as nat);
    decimal_round_trip(locator.frame_len as nat);
}

/// The label of a profile.
pub open spec fn profile_label(value: RecorderProfile) -> Seq<char> {
    match value {
        RecorderProfile::Durable => "Durable"@,
        RecorderProfile::Balanced => "Balanced"@,
        RecorderProfile::Throughput => "Throughput"@,
        RecorderProfile::Replay => "Replay"@,
    }
}

/// Gives the label of a profile.
pub fn recorder_profile_label(value: RecorderProfile) -> (label: &'static str)
    ensures
        label@ == profile_label(value),
{
    match value {
        RecorderProfile::Durable => "Durable",
        RecorderProfile::Balanced => "Balanced",
        RecorderProfile::Throughput => "Throughput",
        RecorderProfile::Replay => "Replay",
    }
}

/// The label of a durability mode.
pub fn persistence_mode_label(value: PersistenceMode) -> (label: &'static str)
    ensures
        label@ == match value {
            PersistenceMode::Volatile => "Volatile"@,
            PersistenceMode::Async => "Async"@,
            PersistenceMode::Sync => "Sync"@,
        },
{
    match value {
        PersistenceMode::Volatile => "Volatile",
        PersistenceMode::Async => "Async",
        PersistenceMode::Sync => "Sync",
    }
}

/// The label of an acknowledgment level.
pub fn ack_level_label(value: RecorderAckLevel) -> (label: &'static str)
    ensures
        label@ == match value {
            RecorderAckLevel::Accepted => "Accepted"@,
            RecorderAckLevel::DurableData => "DurableData"@,
            RecorderAckLevel::DurableDataAndCommitLog => "DurableDataAndCommitLog"@,
        },
{
    match value {
        RecorderAckLevel::Accepted => "Accepted",
        RecorderAckLevel::DurableData => "DurableData",
        RecorderAckLevel::DurableDataAndCommitLog => "DurableDataAndCommitLog",
    }
}

/// The label of a requested backend.
pub fn async_backend_label(value: AsyncIoBackend) -> (label: &'static str)
    ensures
        label@ == match value {
            AsyncIoBackend::IoUringPreferred => "IoUringPreferred"@,
            AsyncIoBackend::IoUringRequired => "IoUringRequired"@,
            AsyncIoBackend::Blocking => "Blocking"@,
        },
{
    match value {
        AsyncIoBackend::IoUringPreferred => "IoUringPreferred",
        AsyncIoBackend::IoUringRequired => "IoUringRequired",
        AsyncIoBackend::Blocking => "Blocking",
    }
}

/// The label of the backend in use.
pub fn effective_async_backend_label(value: EffectiveAsyncIoBackend) -> (label: &'static str)
    ensures
        label@ == match value {
            EffectiveAsyncIoBackend::IoUring => "IoUring"@,
            EffectiveAsyncIoBackend::Blocking => "Blocking"@,
        },
{
    match value {
        EffectiveAsyncIoBackend::IoUring => "IoUring",
        EffectiveAsyncIoBackend::Blocking => "Blocking",
    }
}

/// The label of a checksum mode.
pub fn checksum_mode_label(value: ChecksumMode) -> (label: &'static str)
    ensures
        label@ == match value {
            ChecksumMode::Disabled => "None"@,
            ChecksumMode::Crc32c => "Crc32c"@,
        },
{
    match value {
        ChecksumMode::Disabled => "None",
        ChecksumMode::Crc32c => "Crc32c",
    }
}

/// The label of a policy for a full disk.
pub fn out_of_space_policy_label(value: OutOfSpacePolicy) -> (label: &'static str)
    ensures
        label@ == "FailWriter"@,
{
    match value {
        OutOfSpacePolicy::FailWriter => "FailWriter",
    }
}

/// The label of a source pattern.
pub fn source_pattern_label(value: ArchiveSourcePattern) -> (label: &'static str)
    ensures
        label@ == match value {
            ArchiveSourcePattern::Log => "Log"@,
            ArchiveSourcePattern::PublishSubscribe => "PublishSubscribe"@,
            ArchiveSourcePattern::Pipeline => "Pipeline"@,
        },
{
    match value {
        ArchiveSourcePattern::Log => "Log",
        ArchiveSourcePattern::PublishSubscribe => "PublishSubscribe",
        ArchiveSourcePattern::Pipeline => "Pipeline",
    }
}

/// What a failure of the replayer means for a command.
pub open spec fn replay_failure(roots: Roots, error: ArchiveReplayError) -> CommandFailure {
    match error {
        ArchiveReplayError::MissingCommitLog(path) => CommandFailure::NotAvailable(
            "requested data is not available: "@ + path_text(roots, path),
        ),
        ArchiveReplayError::MissingSegment(path) => CommandFailure::NotAvailable(
            "requested data is not available: "@ + path_text(roots, path),
        ),
        ArchiveReplayError::InvalidConfiguration(message) => CommandFailure::InvalidInput(message@),
        ArchiveReplayError::InvalidCommitEntry(message) => CommandFailure::InvalidInput(message@),
        ArchiveReplayError::InvalidPinState(message) => CommandFailure::InvalidInput(message@),
        other => CommandFailure::Replay(other),
    }
}

/// Tells what a failure of the replayer means for a command.
pub fn map_replay_error(paths: &ArchivePaths, error: ArchiveReplayError) -> (result: CommandError)
    ensures
        result@ == replay_failure(paths@, error),
{
    match error {
        ArchiveReplayError::MissingCommitLog(path) => {
            let mut message = "requested data is not available: ".to_owned();
            push_text(&mut message, paths.path_of(path).as_str());
            CommandError::NotAvailable(message)
        },
        ArchiveReplayError::MissingSegment(path) => {
            let mut message = "requested data is not available: ".to_owned();
            push_text(&mut message, paths.path_of(path).as_str());
            CommandError::NotAvailable(message)
        },
        ArchiveReplayError::InvalidConfiguration(message) => CommandError::invalid_input(message),
        ArchiveReplayError::InvalidCommitEntry(message) => CommandError::invalid_input(message),
        ArchiveReplayError::InvalidPinState(message) => CommandError::invalid_input(message),
        other => CommandError::Replay(other),
    }
}

} // verus!
