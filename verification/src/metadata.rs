//! The metadata indexer: it follows the commit log and answers queries up to its watermark.

use crate::bytes::{
    push_slice, push_u16, push_u64, push_zeros, read_u16, read_u64, u16_at, u16_bytes,
    u16_round_trip, u64_at, u64_bytes, u64_round_trip, zeros,
};
use crate::commit_entry::{encode_entry_as, entry_fields, read_entry_fields, CommitEntry};
use crate::error::{
    ArchiveDirectory, ArchiveFile, ArchivePath, ArchiveReplayError, IoFault,
};
use crate::header::{same_array4, ArchiveFileHeaderError};
use crate::store::{overwritten, ArchiveStore, StoreModel};
use crate::types::{ArchiveLocator, ArchiveSourcePattern};
use vstd::prelude::*;

verus! {

/// Magic of a watermark file.
pub const WATERMARK_MAGIC: [u8; 4] = [0x57, 0x4D, 0x4B, 0x31];

/// Length of a watermark file.
pub const WATERMARK_LEN: usize = 24;

/// Magic of a core-locator index.
pub const CORE_LOCATOR_INDEX_HEADER_MAGIC: [u8; 4] = [0x43, 0x4C, 0x58, 0x31];

/// Length of the header of a core-locator index.
pub const CORE_LOCATOR_INDEX_HEADER_LEN: usize = 16;

/// Magic of an entry of a core-locator index.
pub const CORE_LOCATOR_INDEX_ENTRY_MAGIC: [u8; 4] = [0x43, 0x49, 0x58, 0x31];

/// Length of an entry of a core-locator index.
pub const CORE_LOCATOR_INDEX_ENTRY_LEN: usize = 104;

/// Metadata schema major version used by the indexer contract.
pub const METADATA_SCHEMA_VERSION_MAJOR: u16 = 1;

/// Metadata schema minor version used by the indexer contract.
pub const METADATA_SCHEMA_VERSION_MINOR: u16 = 0;

/// Query readiness mode reported by metadata indexer status.
#[derive(Debug, Clone, Copy, Eq, PartialEq, Structural)]
pub enum QueryReadinessMode {
    /// Query surfaces are unavailable until an external indexer catches up.
    Unavailable,
    /// Query surfaces are served by an external metadata indexer/sink.
    IndexerBacked,
    /// Query surfaces are served by the optional built-in `core-locator.idx`.
    CoreLocatorIndex,
}

/// Watermark contract for query readiness.
#[derive(Debug, Clone, Copy, Eq, PartialEq, Structural)]
pub struct MetadataWatermark {
    /// Recorder durable metadata boundary (`commit.idxlog`).
    pub last_commit_ordinal: u64,
    /// Queryable metadata boundary.
    pub last_indexed_commit_ordinal: u64,
}

impl Default for MetadataWatermark {
    fn default() -> (watermark: Self)
        ensures
            watermark == MetadataWatermark::zero(),
    {
        MetadataWatermark { last_commit_ordinal: 0, last_indexed_commit_ordinal: 0 }
    }
}

impl MetadataWatermark {
    /// The watermark of an indexer that has seen nothing.
    pub open spec fn zero() -> MetadataWatermark {
        MetadataWatermark { last_commit_ordinal: 0, last_indexed_commit_ordinal: 0 }
    }

    /// Returns the query watermark (`last_indexed_commit_ordinal`).
    pub fn query_watermark(&self) -> (watermark: u64)
        ensures
            watermark == self.last_indexed_commit_ordinal,
    {
        self.last_indexed_commit_ordinal
    }

    /// The watermark as it is stored.
    pub open spec fn encoded(self) -> Seq<u8> {
        WATERMARK_MAGIC@ + u16_bytes(1) + u16_bytes(0) + u64_bytes(self.last_commit_ordinal)
            + u64_bytes(self.last_indexed_commit_ordinal)
    }
}

/// Canonical metadata record keyed by archive locator.
#[derive(Debug, Clone, Copy, Eq, PartialEq)]
pub struct MetadataCommitRecord {
    /// Stable log identity.
    pub log_id: [u8; 16],
    /// Recorder-local commit ordering key.
    pub commit_ordinal: u64,
    /// Source sequence.
    pub sequence: u64,
    /// Canonical archive locator.
    pub locator: ArchiveLocator,
    /// Frame checksum as recorded in `commit.idxlog`.
    pub frame_checksum: u32,
    /// Event timestamp in nanoseconds.
    pub event_time_ns: u64,
    /// Commit timestamp in nanoseconds.
    pub commit_time_ns: u64,
    /// Source pattern (`log`, `publish_subscribe`, `pipeline`).
    pub source_pattern: ArchiveSourcePattern,
    /// Stable source service identity (`0` when unavailable).
    pub source_service_id: u64,
    /// Pattern-local source identity (`0` when unavailable).
    pub source_instance_id: u64,
    /// Optional source sequence when available.
    pub source_sequence: Option<u64>,
}

/// The record of a commit entry.
pub open spec fn record_of(log_id: [u8; 16], entry: CommitEntry) -> MetadataCommitRecord {
    MetadataCommitRecord {
        log_id,
        commit_ordinal: entry.commit_ordinal,
        sequence: entry.sequence,
        locator: entry.locator,
        frame_checksum: entry.frame_checksum,
        event_time_ns: entry.event_time_ns,
        commit_time_ns: entry.commit_time_ns,
        source_pattern: entry.source_pattern,
        source_service_id: entry.source_service_id,
        source_instance_id: entry.source_instance_id,
        source_sequence: entry.source_sequence,
    }
}

/// The commit entry of a record.
pub open spec fn entry_of(record: MetadataCommitRecord) -> CommitEntry {
    CommitEntry {
        commit_ordinal: record.commit_ordinal,
        sequence: record.sequence,
        locator: record.locator,
        frame_checksum: record.frame_checksum,
        event_time_ns: record.event_time_ns,
        commit_time_ns: record.commit_time_ns,
        source_pattern: record.source_pattern,
        source_service_id: record.source_service_id,
        source_instance_id: record.source_instance_id,
        source_sequence: record.source_sequence,
    }
}

/// The record of a commit entry.
pub fn make_record(log_id: [u8; 16], entry: &CommitEntry) -> (record: MetadataCommitRecord)
    ensures
        record == record_of(log_id, *entry),
        record.log_id == log_id,
        record.commit_ordinal == entry.commit_ordinal,
        record.sequence == entry.sequence,
        record.locator == entry.locator,
        record.frame_checksum == entry.frame_checksum,
        record.event_time_ns == entry.event_time_ns,
        record.commit_time_ns == entry.commit_time_ns,
        record.source_pattern == entry.source_pattern,
        record.source_service_id == entry.source_service_id,
        record.source_instance_id == entry.source_instance_id,
        record.source_sequence == entry.source_sequence,
{
    MetadataCommitRecord {
        log_id,
        commit_ordinal: entry.commit_ordinal,
        sequence: entry.sequence,
        locator: entry.locator,
        frame_checksum: entry.frame_checksum,
        event_time_ns: entry.event_time_ns,
        commit_time_ns: entry.commit_time_ns,
        source_pattern: entry.source_pattern,
        source_service_id: entry.source_service_id,
        source_instance_id: entry.source_instance_id,
        source_sequence: entry.source_sequence,
    }
}

/// The commit entry of a record.
pub fn make_entry(record: &MetadataCommitRecord) -> (entry: CommitEntry)
    ensures
        entry == entry_of(*record),
        entry.commit_ordinal == record.commit_ordinal,
        entry.sequence == record.sequence,
        entry.locator == record.locator,
        entry.frame_checksum == record.frame_checksum,
        entry.event_time_ns == record.event_time_ns,
        entry.commit_time_ns == record.commit_time_ns,
        entry.source_pattern == record.source_pattern,
        entry.source_service_id == record.source_service_id,
        entry.source_instance_id == record.source_instance_id,
        entry.source_sequence == record.source_sequence,
{
    CommitEntry {
        commit_ordinal: record.commit_ordinal,
        sequence: record.sequence,
        locator: record.locator,
        frame_checksum: record.frame_checksum,
        event_time_ns: record.event_time_ns,
        commit_time_ns: record.commit_time_ns,
        source_pattern: record.source_pattern,
        source_service_id: record.source_service_id,
        source_instance_id: record.source_instance_id,
        source_sequence: record.source_sequence,
    }
}

/// Error payload returned by metadata sinks.
#[derive(Debug, Clone, Eq, PartialEq)]
pub struct ArchiveMetadataSinkError {
    /// Human-readable sink failure details.
    pub details: String,
}

impl ArchiveMetadataSinkError {
    /// Creates a new sink error.
    pub fn new(details: String) -> (error: ArchiveMetadataSinkError)
        ensures
            error.details == details,
    {
        ArchiveMetadataSinkError { details }
    }
}

/// Sink interface for metadata index materialization.
pub trait ArchiveMetadataSink: Sized {
    /// A sink that was `before` may answer a batch like this, and is `after` then. A sink of which
    /// nothing is known may answer anything.
    open spec fn took(
        before: Self,
        records: Seq<MetadataCommitRecord>,
        answer: Result<(), ArchiveMetadataSinkError>,
        after: Self,
    ) -> bool {
        true
    }

    /// A sink that was `before` may answer a flush like this, and is `after` then. A sink of which
    /// nothing is known may answer anything.
    open spec fn flushed(
        before: Self,
        answer: Result<(), ArchiveMetadataSinkError>,
        after: Self,
    ) -> bool {
        true
    }

    /// Consumes one index batch.
    fn on_records(&mut self, records: &[MetadataCommitRecord]) -> (answer: Result<
        (),
        ArchiveMetadataSinkError,
    >)
        ensures
            Self::took(*old(self), records@, answer, *final(self)),
    ;

    /// Flushes sink state.
    fn flush(&mut self) -> (answer: Result<(), ArchiveMetadataSinkError>)
        ensures
            Self::flushed(*old(self), answer, *final(self)),
    ;
}

/// The sink type of an indexer without a sink.
#[derive(Debug, Clone, Copy)]
pub struct NoSink;

impl ArchiveMetadataSink for NoSink {
    open spec fn took(
        before: NoSink,
        records: Seq<MetadataCommitRecord>,
        answer: Result<(), ArchiveMetadataSinkError>,
        after: NoSink,
    ) -> bool {
        answer == Ok::<(), ArchiveMetadataSinkError>(())
    }

    open spec fn flushed(
        before: NoSink,
        answer: Result<(), ArchiveMetadataSinkError>,
        after: NoSink,
    ) -> bool {
        answer == Ok::<(), ArchiveMetadataSinkError>(())
    }

    fn on_records(&mut self, records: &[MetadataCommitRecord]) -> (answer: Result<
        (),
        ArchiveMetadataSinkError,
    >) {
        Ok(())
    }

    fn flush(&mut self) -> (answer: Result<(), ArchiveMetadataSinkError>) {
        Ok(())
    }
}

/// Errors returned by [`ArchiveMetadataIndexer`] operations.
#[derive(Debug)]
pub enum ArchiveMetadataIndexerError {
    /// Invalid configuration value.
    InvalidConfiguration(&'static str),
    /// Required commit-log file is missing.
    MissingCommitLog(ArchivePath),
    /// Invalid archive file header in metadata-log file.
    FileHeader(ArchiveFileHeaderError),
    /// Commit-log parsing/replay error.
    Replay(ArchiveReplayError),
    /// Corrupted watermark or core index file.
    Corrupted(&'static str),
    /// Metadata sink error.
    Sink(ArchiveMetadataSinkError),
    /// Underlying I/O failure.
    Io {
        /// Operation name.
        operation: &'static str,
        /// Path involved in operation.
        path: ArchivePath,
        /// Source error.
        source: IoFault,
    },
}

/// Errors returned by metadata query operations.
#[derive(Debug)]
pub enum MetadataQueryError {
    /// Query target is above current query watermark.
    NotIndexedYet {
        /// Sequence requested by caller when available.
        requested_sequence: Option<u64>,
        /// Locator requested by caller when available.
        requested_locator: Option<ArchiveLocator>,
        /// Current query watermark.
        query_watermark: u64,
        /// Current recorder durable boundary.
        last_commit_ordinal: u64,
    },
    /// Sequence is not available within indexed history.
    NotAvailableSequence(u64),
    /// Locator is not available within indexed history.
    NotAvailableLocator(ArchiveLocator),
    /// Underlying indexer error.
    Indexer(ArchiveMetadataIndexerError),
}

/// The watermark that a watermark file holds.
pub open spec fn stored_watermark(s: Seq<u8>) -> Result<MetadataWatermark, ArchiveMetadataIndexerError> {
    if s.len() < 24 {
        Err(
            ArchiveMetadataIndexerError::Io {
                operation: "read watermark file",
                path: ArchivePath::File(ArchiveFile::Watermark),
                source: IoFault::UnexpectedEnd,
            },
        )
    } else if s.subrange(0, 4) != WATERMARK_MAGIC@ {
        Err(ArchiveMetadataIndexerError::Corrupted("invalid watermark file magic"))
    } else if u16_at(s, 4) != 1 {
        Err(ArchiveMetadataIndexerError::Corrupted("unsupported watermark major version"))
    } else {
        Ok(
            MetadataWatermark {
                last_commit_ordinal: u64_at(s, 8),
                last_indexed_commit_ordinal: u64_at(s, 16),
            },
        )
    }
}

/// What loading the watermark gives.
pub open spec fn loaded_watermark(store: StoreModel) -> Result<
    MetadataWatermark,
    ArchiveMetadataIndexerError,
> {
    if !store.has(ArchiveFile::Watermark) {
        Ok(MetadataWatermark::zero())
    } else {
        stored_watermark(store.bytes(ArchiveFile::Watermark))
    }
}

/// Loads the persisted watermark.
pub fn load_watermark(store: &ArchiveStore) -> (result: Result<
    MetadataWatermark,
    ArchiveMetadataIndexerError,
>)
    ensures
        result == loaded_watermark(store@),
{
    if !store.contains(ArchiveFile::Watermark) {
        return Ok(MetadataWatermark::default());
    }
    let bytes = match store.read(ArchiveFile::Watermark, 0, WATERMARK_LEN) {
        Ok(bytes) => bytes,
        Err(source) => {
            return Err(
                ArchiveMetadataIndexerError::Io {
                    operation: "read watermark file",
                    path: ArchivePath::File(ArchiveFile::Watermark),
                    source,
                },
            );
        },
    };
    let ghost s = store@.bytes(ArchiveFile::Watermark);
    assert(bytes@ == s.subrange(0, 24));
    let magic: [u8; 4] = [bytes[0], bytes[1], bytes[2], bytes[3]];
    assert(s.subrange(0, 4) =~= magic@);
    assert(forall|i: int| 0 <= i < 24 ==> #[trigger] bytes@[i] == s[i]);
    if !same_array4(&magic, &WATERMARK_MAGIC) {
        return Err(ArchiveMetadataIndexerError::Corrupted("invalid watermark file magic"));
    }
    if read_u16(&bytes, 4) != METADATA_SCHEMA_VERSION_MAJOR {
        return Err(ArchiveMetadataIndexerError::Corrupted("unsupported watermark major version"));
    }
    Ok(
        MetadataWatermark {
            last_commit_ordinal: read_u64(&bytes, 8),
            last_indexed_commit_ordinal: read_u64(&bytes, 16),
        },
    )
}

/// The store after the watermark was prepared in the temporary file and put in place.
pub open spec fn watermark_persisted(store: StoreModel, watermark: MetadataWatermark) -> StoreModel {
    let temp = ArchiveFile::WatermarkTemp;
    store.with_directory(ArchiveDirectory::Metadata).with_empty(temp).written(
        temp,
        0,
        watermark.encoded(),
    ).moved(temp, ArchiveFile::Watermark)
}

/// Persists the watermark.
pub fn persist_watermark(store: &mut ArchiveStore, watermark: MetadataWatermark)
    ensures
        final(store).base() == old(store).base(),
        final(store)@ == watermark_persisted(old(store)@, watermark),
{
    store.create_directory(ArchiveDirectory::Metadata, "create watermark directory");
    let mut bytes: Vec<u8> = Vec::new();
    push_slice(&mut bytes, &WATERMARK_MAGIC);
    push_u16(&mut bytes, METADATA_SCHEMA_VERSION_MAJOR);
    push_u16(&mut bytes, METADATA_SCHEMA_VERSION_MINOR);
    push_u64(&mut bytes, watermark.last_commit_ordinal);
    push_u64(&mut bytes, watermark.last_indexed_commit_ordinal);
    assert(bytes@ =~= watermark.encoded());
    let temp = ArchiveFile::WatermarkTemp;
    store.create_or_truncate(temp, "open watermark temp file");
    let _ = store.write_at(temp, 0, &bytes, "write watermark temp file");
    let _ = store.rename(temp, ArchiveFile::Watermark, "commit watermark file");
}

/// Loading the watermark gives back the one that was persisted.
pub proof fn watermark_round_trip(store: StoreModel, watermark: MetadataWatermark)
    ensures
        loaded_watermark(watermark_persisted(store, watermark)) == Ok::<
            MetadataWatermark,
            ArchiveMetadataIndexerError,
        >(watermark),
{
    let e = watermark.encoded();
    let s = watermark_persisted(store, watermark).bytes(ArchiveFile::Watermark);
    assert(overwritten(Seq::empty(), 0, e) =~= e);
    assert(s == e);
    assert(e.len() == 24);
    assert(e.subrange(0, 4) =~= WATERMARK_MAGIC@);
    assert(e.subrange(4, 6) =~= u16_bytes(1));
    assert(e.subrange(8, 16) =~= u64_bytes(watermark.last_commit_ordinal));
    assert(e.subrange(16, 24) =~= u64_bytes(watermark.last_indexed_commit_ordinal));
    u16_round_trip(e, 4, 1);
    u64_round_trip(e, 8, watermark.last_commit_ordinal);
    u64_round_trip(e, 16, watermark.last_indexed_commit_ordinal);
}

/// The header of a core-locator index.
pub open spec fn core_index_header() -> Seq<u8> {
    CORE_LOCATOR_INDEX_HEADER_MAGIC@ + u16_bytes(1) + u16_bytes(0) + u16_bytes(104) + zeros(6)
}

/// The store with an empty core-locator index.
pub open spec fn core_index_reset(store: StoreModel) -> StoreModel {
    let file = ArchiveFile::CoreLocatorIndex;
    store.with_directory(ArchiveDirectory::Storage).with_empty(file).written(
        file,
        0,
        core_index_header(),
    )
}

/// Starts an empty core-locator index.
pub fn reset_core_locator_index(store: &mut ArchiveStore)
    ensures
        final(store).base() == old(store).base(),
        final(store)@ == core_index_reset(old(store)@),
{
    store.create_directory(ArchiveDirectory::Storage, "create core-locator index directory");
    let file = ArchiveFile::CoreLocatorIndex;
    store.create_or_truncate(file, "reset core-locator index");
    let mut header: Vec<u8> = Vec::new();
    push_slice(&mut header, &CORE_LOCATOR_INDEX_HEADER_MAGIC);
    push_u16(&mut header, METADATA_SCHEMA_VERSION_MAJOR);
    push_u16(&mut header, METADATA_SCHEMA_VERSION_MINOR);
    push_u16(&mut header, CORE_LOCATOR_INDEX_ENTRY_LEN as u16);
    push_zeros(&mut header, 6);
    assert(header@ =~= core_index_header());
    let _ = store.write_at(file, 0, &header, "write core-locator index header");
}

/// The entry of a record in the core-locator index.
pub open spec fn core_entry(record: MetadataCommitRecord) -> Seq<u8> {
    entry_of(record).encoded_as(CORE_LOCATOR_INDEX_ENTRY_MAGIC@)
}

/// The first `n` records are written behind the core-locator index.
pub open spec fn core_entries_written(
    store: StoreModel,
    records: Seq<MetadataCommitRecord>,
    n: int,
) -> (StoreModel, Result<(), ArchiveMetadataIndexerError>)
    decreases n,
{
    let file = ArchiveFile::CoreLocatorIndex;
    if n <= 0 {
        (store, Ok(()))
    } else {
        let (before, result) = core_entries_written(store, records, n - 1);
        let end = before.bytes(file).len() as u64;
        match result {
            Err(error) => (before, Err(error)),
            Ok(()) => match before.write_fault(file, end, 104) {
                Some(source) => (
                    before,
                    Err(
                        ArchiveMetadataIndexerError::Io {
                            operation: "append core-locator index entry",
                            path: ArchivePath::File(file),
                            source,
                        },
                    ),
                ),
                None => (before.written(file, end, core_entry(records[n - 1])), Ok(())),
            },
        }
    }
}

/// The records are written behind the core-locator index, which is started where it is missing.
pub open spec fn core_index_appended(store: StoreModel, records: Seq<MetadataCommitRecord>) -> (
    StoreModel,
    Result<(), ArchiveMetadataIndexerError>,
) {
    let started = if store.has(ArchiveFile::CoreLocatorIndex) {
        store
    } else {
        core_index_reset(store)
    };
    core_entries_written(started, records, records.len() as int)
}

/// A failed write stays failed.
proof fn core_entries_fail(
    store: StoreModel,
    records: Seq<MetadataCommitRecord>,
    i: int,
    n: int,
)
    requires
        0 <= i <= n <= records.len(),
        core_entries_written(store, records, i).1 is Err,
    ensures
        core_entries_written(store, records, n) == core_entries_written(store, records, i),
    decreases n - i,
{
    if i < n {
        core_entries_fail(store, records, i, n - 1);
    }
}

/// Appends records to the core-locator index.
pub fn append_core_locator_index(store: &mut ArchiveStore, records: &[MetadataCommitRecord]) -> (
    result: Result<(), ArchiveMetadataIndexerError>)
    ensures
        final(store).base() == old(store).base(),
        (final(store)@, result) == core_index_appended(old(store)@, records@),
{
    let file = ArchiveFile::CoreLocatorIndex;
    if !store.contains(file) {
        reset_core_locator_index(store);
    }
    let ghost started = store@;
    let n: usize = records.len();
    for i in 0..n
        invariant
            n == records@.len(),
            store.base() == old(store).base(),
            file == ArchiveFile::CoreLocatorIndex,
            store@.has(file),
            (store@, Ok::<(), ArchiveMetadataIndexerError>(())) == core_entries_written(
                started,
                records@,
                i as int,
            ),
            core_index_appended(old(store)@, records@) == core_entries_written(
                started,
                records@,
                n as int,
            ),
    {
        let end: u64 = match store.file_len(file) {
            Some(len) => len,
            None => 0,
        };
        let bytes = encode_entry_as(make_entry(&records[i]), CORE_LOCATOR_INDEX_ENTRY_MAGIC);
        match store.write_at(file, end, &bytes, "append core-locator index entry") {
            Ok(()) => {},
            Err(source) => {
                proof {
                    core_entries_fail(started, records@, i + 1, n as int);
                }
                return Err(
                    ArchiveMetadataIndexerError::Io {
                        operation: "append core-locator index entry",
                        path: ArchivePath::File(file),
                        source,
                    },
                );
            },
        }
    }
    Ok(())
}

/// The record that an entry of the core-locator index holds.
pub open spec fn core_record(s: Seq<u8>, log_id: [u8; 16]) -> Result<
    MetadataCommitRecord,
    &'static str,
> {
    if s.subrange(0, 4) != CORE_LOCATOR_INDEX_ENTRY_MAGIC@ {
        Err("invalid core-locator index entry magic")
    } else if u16_at(s, 4) != 104 {
        Err("invalid core-locator index entry length")
    } else {
        match ArchiveSourcePattern::of_code(s[96]) {
            None => Err("invalid source pattern"),
            Some(pattern) => Ok(record_of(log_id, entry_fields(s, pattern))),
        }
    }
}

/// The first `n` records behind the header of a core-locator index.
pub open spec fn core_records(s: Seq<u8>, log_id: [u8; 16], n: int) -> Result<
    Seq<MetadataCommitRecord>,
    &'static str,
>
    decreases n,
{
    if n <= 0 {
        Ok(Seq::empty())
    } else {
        match core_records(s, log_id, n - 1) {
            Err(message) => Err(message),
            Ok(before) => match core_record(
                s.subrange(16 + 104 * (n - 1), 16 + 104 * n),
                log_id,
            ) {
                Err(message) => Err(message),
                Ok(record) => Ok(before.push(record)),
            },
        }
    }
}

/// What is wrong with the header of a core-locator index, if anything is.
pub open spec fn core_header_problem(s: Seq<u8>) -> Option<&'static str> {
    if s.subrange(0, 4) != CORE_LOCATOR_INDEX_HEADER_MAGIC@ {
        Some("invalid core-locator index header magic")
    } else if u16_at(s, 4) != 1 {
        Some("unsupported core-locator index major version")
    } else if u16_at(s, 8) != 104 {
        Some("unsupported core-locator index entry length")
    } else if (s.len() - 16) % 104 != 0 {
        Some("core-locator index trailing bytes are not aligned to entry length")
    } else {
        None
    }
}

/// What loading the core-locator index gives.
pub open spec fn core_index_loaded(store: StoreModel, log_id: [u8; 16]) -> Result<
    Seq<MetadataCommitRecord>,
    ArchiveMetadataIndexerError,
> {
    let file = ArchiveFile::CoreLocatorIndex;
    let s = store.bytes(file);
    if !store.has(file) {
        Ok(Seq::empty())
    } else if s.len() < 16 {
        Err(
            ArchiveMetadataIndexerError::Io {
                operation: "read core-locator index header",
                path: ArchivePath::File(file),
                source: IoFault::UnexpectedEnd,
            },
        )
    } else {
        match core_header_problem(s) {
            Some(message) => Err(ArchiveMetadataIndexerError::Corrupted(message)),
            None => match core_records(s, log_id, (s.len() - 16) / 104) {
                Err(message) => Err(ArchiveMetadataIndexerError::Corrupted(message)),
                Ok(records) => Ok(records),
            },
        }
    }
}

/// An error among the first records is the error of all.
proof fn core_records_fail(s: Seq<u8>, log_id: [u8; 16], i: int, n: int)
    requires
        0 <= i <= n,
        core_records(s, log_id, i) is Err,
    ensures
        core_records(s, log_id, n) == core_records(s, log_id, i),
    decreases n - i,
{
    if i < n {
        core_records_fail(s, log_id, i, n - 1);
    }
}

/// Reads the record of an entry of the core-locator index.
fn read_core_record(bytes: &[u8], log_id: [u8; 16]) -> (result: Result<
    MetadataCommitRecord,
    &'static str,
>)
    requires
        bytes@.len() == 104,
    ensures
        result == core_record(bytes@, log_id),
{
    let magic: [u8; 4] = [bytes[0], bytes[1], bytes[2], bytes[3]];
    assert(bytes@.subrange(0, 4) =~= magic@);
    if !same_array4(&magic, &CORE_LOCATOR_INDEX_ENTRY_MAGIC) {
        return Err("invalid core-locator index entry magic");
    }
    if read_u16(bytes, 4) as usize != CORE_LOCATOR_INDEX_ENTRY_LEN {
        return Err("invalid core-locator index entry length");
    }
    match ArchiveSourcePattern::try_from(bytes[96]) {
        Ok(pattern) => Ok(make_record(log_id, &read_entry_fields(bytes, pattern))),
        Err(_) => Err("invalid source pattern"),
    }
}

/// Finds what is wrong with the header of a core-locator index.
fn find_core_header_problem(bytes: &[u8]) -> (problem: Option<&'static str>)
    requires
        16 <= bytes@.len(),
    ensures
        problem == core_header_problem(bytes@),
{
    let magic: [u8; 4] = [bytes[0], bytes[1], bytes[2], bytes[3]];
    assert(bytes@.subrange(0, 4) =~= magic@);
    if !same_array4(&magic, &CORE_LOCATOR_INDEX_HEADER_MAGIC) {
        Some("invalid core-locator index header magic")
    } else if read_u16(bytes, 4) != METADATA_SCHEMA_VERSION_MAJOR {
        Some("unsupported core-locator index major version")
    } else if read_u16(bytes, 8) as usize != CORE_LOCATOR_INDEX_ENTRY_LEN {
        Some("unsupported core-locator index entry length")
    } else if (bytes.len() - CORE_LOCATOR_INDEX_HEADER_LEN) % CORE_LOCATOR_INDEX_ENTRY_LEN != 0 {
        Some("core-locator index trailing bytes are not aligned to entry length")
    } else {
        None
    }
}

/// One record more: what the records up to it read as goes by the ones before and by itself.
proof fn core_records_step(s: Seq<u8>, log_id: [u8; 16], i: int)
    requires
        0 <= i,
        core_records(s, log_id, i) is Ok,
    ensures
        core_records(s, log_id, i + 1) == match core_record(
            s.subrange(16 + 104 * i, 16 + 104 * i + 104),
            log_id,
        ) {
            Err(message) => Err::<Seq<MetadataCommitRecord>, &'static str>(message),
            Ok(record) => Ok(core_records(s, log_id, i)->Ok_0.push(record)),
        },
{
    assert(16 + 104 * (i + 1) == 16 + 104 * i + 104);
}

/// Reads the first records behind the header of a core-locator index.
#[verifier::spinoff_prover]
fn read_core_records(bytes: &[u8], log_id: [u8; 16], count: usize) -> (result: Result<
    Vec<MetadataCommitRecord>,
    &'static str,
>)
    requires
        16 + 104 * count <= bytes@.len(),
    ensures
        match result {
            Ok(records) => core_records(bytes@, log_id, count as int) == Ok::<
                Seq<MetadataCommitRecord>,
                &'static str,
            >(records@),
            Err(message) => core_records(bytes@, log_id, count as int) == Err::<
                Seq<MetadataCommitRecord>,
                &'static str,
            >(message),
        },
{
    let len: usize = bytes.len();
    let mut records: Vec<MetadataCommitRecord> = Vec::new();
    let mut at: usize = CORE_LOCATOR_INDEX_HEADER_LEN;
    assert(records@ =~= Seq::empty());
    for i in 0..count
        invariant
            16 + 104 * count <= len == bytes@.len(),
            at == 16 + 104 * i,
            core_records(bytes@, log_id, i as int) == Ok::<
                Seq<MetadataCommitRecord>,
                &'static str,
            >(records@),
    {
        proof {
            core_records_step(bytes@, log_id, i as int);
        }
        let part = &bytes[at..at + CORE_LOCATOR_INDEX_ENTRY_LEN];
        match read_core_record(part, log_id) {
            Ok(record) => {
                records.push(record);
            },
            Err(message) => {
                proof {
                    core_records_fail(bytes@, log_id, i + 1, count as int);
                }
                return Err(message);
            },
        }
        at = at + CORE_LOCATOR_INDEX_ENTRY_LEN;
    }
    Ok(records)
}

/// Loads the core-locator index.
pub fn load_core_locator_index(store: &ArchiveStore, expected_log_id: [u8; 16]) -> (result: Result<
    Vec<MetadataCommitRecord>,
    ArchiveMetadataIndexerError,
>)
    ensures
        match result {
            Ok(records) => core_index_loaded(store@, expected_log_id) == Ok::<
                Seq<MetadataCommitRecord>,
                ArchiveMetadataIndexerError,
            >(records@),
            Err(error) => core_index_loaded(store@, expected_log_id) == Err::<
                Seq<MetadataCommitRecord>,
                ArchiveMetadataIndexerError,
            >(error),
        },
{
    let file = ArchiveFile::CoreLocatorIndex;
    let bytes = match store.read_all(file) {
        Ok(bytes) => bytes,
        Err(_) => {
            let none: Vec<MetadataCommitRecord> = Vec::new();
            assert(none@ =~= Seq::empty());
            return Ok(none);
        },
    };
    let len: usize = bytes.len();
    if len < CORE_LOCATOR_INDEX_HEADER_LEN {
        return Err(
            ArchiveMetadataIndexerError::Io {
                operation: "read core-locator index header",
                path: ArchivePath::File(file),
                source: IoFault::UnexpectedEnd,
            },
        );
    }
    match find_core_header_problem(&bytes) {
        Some(message) => Err(ArchiveMetadataIndexerError::Corrupted(message)),
        None => {
            let count: usize = (len - CORE_LOCATOR_INDEX_HEADER_LEN) / CORE_LOCATOR_INDEX_ENTRY_LEN;
            match read_core_records(&bytes, expected_log_id, count) {
                Ok(records) => Ok(records),
                Err(message) => Err(ArchiveMetadataIndexerError::Corrupted(message)),
            }
        },
    }
}

} // verus!
