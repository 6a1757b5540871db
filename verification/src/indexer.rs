//! Following the commit log, and answering queries up to the watermark.

use crate::commit_entry::CommitEntry;
use crate::commit_log::{all_entries, file_header, last_ordinal, read_commit_entries};
use crate::error::{ArchiveFile, ArchivePath, IoFault};
use crate::header::{ArchiveFileHeaderV1, ArchiveFileKind, ARCHIVE_FILE_HEADER_V1_LEN};
use crate::metadata::{
    append_core_locator_index, core_index_appended, core_index_loaded, core_index_reset,
    load_core_locator_index, load_watermark, loaded_watermark, make_record, persist_watermark,
    record_of, reset_core_locator_index, watermark_persisted, ArchiveMetadataIndexerError,
    ArchiveMetadataSink, ArchiveMetadataSinkError, MetadataCommitRecord, MetadataQueryError,
    MetadataWatermark, NoSink, QueryReadinessMode, METADATA_SCHEMA_VERSION_MAJOR,
    METADATA_SCHEMA_VERSION_MINOR,
};
use crate::record_index::RecordIndex;
use crate::replayer::{located_frame, ArchiveReplayer};
use crate::store::{ArchiveStore, StoreModel};
use crate::text::{join_path, joined};
use crate::types::{ArchiveLocator, FrameModel, ReplayedFrame};
use vstd::prelude::*;

verus! {

/// Indexer admin/status snapshot.
#[derive(Debug, Clone, Eq, PartialEq)]
pub struct ArchiveMetadataIndexerStatus {
    /// Active readiness mode.
    pub query_readiness_mode: QueryReadinessMode,
    /// Current watermark values.
    pub watermark: MetadataWatermark,
    /// Metadata-log root path.
    pub metadata_log_path: String,
    /// Commit-log path.
    pub commit_log_path: String,
    /// Optional core-locator index path.
    pub core_locator_index_path: Option<String>,
}

/// Builder for [`ArchiveMetadataIndexer`].
#[derive(Debug)]
pub struct ArchiveMetadataIndexerBuilder<S = NoSink> {
    /// Storage root.
    pub storage_path: String,
    /// Metadata-log root, where it is not the storage root.
    pub metadata_log_path: Option<String>,
    /// Path of the persisted watermark, where it was set.
    pub watermark_path: Option<String>,
    /// Path of the core-locator index, where it was set.
    pub core_locator_index_path: Option<String>,
    /// Whether the core-locator index is kept, where it was set.
    pub enable_core_locator_index: Option<bool>,
    /// The sink that takes the records, where one was set.
    pub sink: Option<S>,
    /// Readiness mode, where it was set.
    pub query_readiness_mode: Option<QueryReadinessMode>,
}

impl ArchiveMetadataIndexerBuilder<NoSink> {
    /// Creates a metadata indexer builder.
    pub fn new(storage_path: &str) -> (builder: ArchiveMetadataIndexerBuilder<NoSink>)
        ensures
            builder.storage_path@ == storage_path@,
            builder.metadata_log_path is None,
            builder.watermark_path is None,
            builder.core_locator_index_path is None,
            builder.enable_core_locator_index is None,
            builder.sink is None,
            builder.query_readiness_mode is None,
    {
        ArchiveMetadataIndexerBuilder {
            storage_path: storage_path.to_owned(),
            metadata_log_path: None,
            watermark_path: None,
            core_locator_index_path: None,
            enable_core_locator_index: None,
            sink: None,
            query_readiness_mode: None,
        }
    }
}

impl<S: ArchiveMetadataSink> ArchiveMetadataIndexerBuilder<S> {
    /// The path of the core-locator index, where one is kept. One that was disabled is not kept,
    /// whatever path was set.
    pub open spec fn core_path(self) -> Option<Seq<char>> {
        match (self.enable_core_locator_index, self.core_locator_index_path) {
            (Some(false), _) => None,
            (_, Some(path)) => Some(path@),
            (Some(true), None) => Some(joined(self.storage_path@, "core-locator.idx"@)),
            (None, None) => None,
        }
    }

    /// The metadata-log root.
    pub open spec fn metadata_root_path(self) -> Seq<char> {
        match self.metadata_log_path {
            Some(path) => path@,
            None => self.storage_path@,
        }
    }

    /// The path of the persisted watermark.
    pub open spec fn watermark_file(self) -> Seq<char> {
        match self.watermark_path {
            Some(path) => path@,
            None => joined(self.metadata_root_path(), "indexer.watermark"@),
        }
    }

    /// The readiness mode: the one that was set, or what serves the queries.
    pub open spec fn readiness(self) -> QueryReadinessMode {
        match self.query_readiness_mode {
            Some(mode) => mode,
            None => if self.core_path() is Some {
                QueryReadinessMode::CoreLocatorIndex
            } else if self.sink is Some {
                QueryReadinessMode::IndexerBacked
            } else {
                QueryReadinessMode::Unavailable
            },
        }
    }

    /// Overrides metadata-log root path.
    pub fn metadata_log_path(self, value: &str) -> (result: ArchiveMetadataIndexerBuilder<S>)
        ensures
            result.metadata_log_path is Some,
            result.metadata_log_path->Some_0@ == value@,
            result == (ArchiveMetadataIndexerBuilder {
                metadata_log_path: result.metadata_log_path,
                ..self
            }),
    {
        let mut built = self;
        built.metadata_log_path = Some(value.to_owned());
        built
    }

    /// Overrides persisted watermark path.
    pub fn watermark_path(self, value: &str) -> (result: ArchiveMetadataIndexerBuilder<S>)
        ensures
            result.watermark_path is Some,
            result.watermark_path->Some_0@ == value@,
            result == (ArchiveMetadataIndexerBuilder {
                watermark_path: result.watermark_path,
                ..self
            }),
    {
        let mut built = self;
        built.watermark_path = Some(value.to_owned());
        built
    }

    /// Overrides optional `core-locator.idx` path.
    pub fn core_locator_index_path(self, value: &str) -> (result: ArchiveMetadataIndexerBuilder<S>)
        ensures
            result.core_locator_index_path is Some,
            result.core_locator_index_path->Some_0@ == value@,
            result == (ArchiveMetadataIndexerBuilder {
                core_locator_index_path: result.core_locator_index_path,
                ..self
            }),
    {
        let mut built = self;
        built.core_locator_index_path = Some(value.to_owned());
        built
    }

    /// Enables/disables built-in `core-locator.idx` updates.
    pub fn enable_core_locator_index(self, value: bool) -> (result:
        ArchiveMetadataIndexerBuilder<S>)
        ensures
            result == (ArchiveMetadataIndexerBuilder {
                enable_core_locator_index: Some(value),
                ..self
            }),
    {
        let mut built = self;
        built.enable_core_locator_index = Some(value);
        built
    }

    /// Configures metadata sink implementation.
    pub fn sink<T: ArchiveMetadataSink>(self, value: T) -> (result:
        ArchiveMetadataIndexerBuilder<T>)
        ensures
            result.storage_path == self.storage_path,
            result.metadata_log_path == self.metadata_log_path,
            result.watermark_path == self.watermark_path,
            result.core_locator_index_path == self.core_locator_index_path,
            result.enable_core_locator_index == self.enable_core_locator_index,
            result.sink == Some(value),
            result.query_readiness_mode == self.query_readiness_mode,
    {
        ArchiveMetadataIndexerBuilder {
            storage_path: self.storage_path,
            metadata_log_path: self.metadata_log_path,
            watermark_path: self.watermark_path,
            core_locator_index_path: self.core_locator_index_path,
            enable_core_locator_index: self.enable_core_locator_index,
            sink: Some(value),
            query_readiness_mode: self.query_readiness_mode,
        }
    }

    /// Overrides query readiness mode reported by status.
    pub fn query_readiness_mode(self, value: QueryReadinessMode) -> (result:
        ArchiveMetadataIndexerBuilder<S>)
        ensures
            result == (ArchiveMetadataIndexerBuilder {
                query_readiness_mode: Some(value),
                ..self
            }),
    {
        let mut built = self;
        built.query_readiness_mode = Some(value);
        built
    }

    /// The path of the persisted watermark.
    pub fn resolved_watermark_path(&self) -> (path: String)
        ensures
            path@ == self.watermark_file(),
    {
        match &self.watermark_path {
            Some(path) => path.clone(),
            None => {
                let root = self.metadata_root();
                join_path(root.as_str(), "indexer.watermark")
            },
        }
    }

    /// The metadata-log root.
    fn metadata_root(&self) -> (path: String)
        ensures
            path@ == self.metadata_root_path(),
    {
        match &self.metadata_log_path {
            Some(path) => path.clone(),
            None => self.storage_path.clone(),
        }
    }

    /// The path of the core-locator index, where one is kept.
    fn core_index_path(&self) -> (path: Option<String>)
        ensures
            match path {
                Some(path) => self.core_path() == Some(path@),
                None => self.core_path() is None,
            },
    {
        match (self.enable_core_locator_index, &self.core_locator_index_path) {
            (Some(false), _) => None,
            (_, Some(path)) => Some(path.clone()),
            (Some(true), None) => Some(join_path(self.storage_path.as_str(), "core-locator.idx")),
            (None, None) => None,
        }
    }

    /// Opens metadata indexer state.
    pub fn open(self, store: &ArchiveStore) -> (result: Result<
        ArchiveMetadataIndexer<S>,
        ArchiveMetadataIndexerError,
    >)
        ensures
            match result {
                Ok(indexer) => {
                    &&& indexer_opened(self, store@) == Ok::<
                        IndexerModel,
                        ArchiveMetadataIndexerError,
                    >(indexer@)
                    &&& indexer.metadata_path() == self.metadata_root_path()
                    &&& indexer.core_path() == self.core_path()
                    &&& indexer.attached_sink() == self.sink
                },
                Err(error) => indexer_opened(self, store@) == Err::<
                    IndexerModel,
                    ArchiveMetadataIndexerError,
                >(error),
            },
    {
        if !store.contains(ArchiveFile::CommitLog) {
            return Err(
                ArchiveMetadataIndexerError::MissingCommitLog(
                    ArchivePath::File(ArchiveFile::CommitLog),
                ),
            );
        }
        let metadata_log_path = self.metadata_root();
        let core_locator_index_path = self.core_index_path();
        let query_readiness_mode = match self.query_readiness_mode {
            Some(mode) => mode,
            None => if core_locator_index_path.is_some() {
                QueryReadinessMode::CoreLocatorIndex
            } else if self.sink.is_some() {
                QueryReadinessMode::IndexerBacked
            } else {
                QueryReadinessMode::Unavailable
            },
        };
        let log_id = match read_commit_log_header_log_id(store) {
            Ok(log_id) => log_id,
            Err(error) => {
                return Err(error);
            },
        };
        let mut indexer = ArchiveMetadataIndexer {
            metadata_log_path,
            core_locator_index_path,
            query_readiness_mode,
            sink: self.sink,
            log_id,
            index: RecordIndex::new(),
            watermark: MetadataWatermark::default(),
        };
        match indexer.load_persisted_state(store) {
            Ok(()) => Ok(indexer),
            Err(error) => Err(error),
        }
    }
}

/// What reading the log id of the commit log gives.
pub open spec fn commit_log_id(store: StoreModel) -> Result<
    [u8; 16],
    ArchiveMetadataIndexerError,
> {
    let path = ArchivePath::File(ArchiveFile::CommitLog);
    let s = store.bytes(ArchiveFile::CommitLog);
    if !store.has(ArchiveFile::CommitLog) {
        Err(
            ArchiveMetadataIndexerError::Io {
                operation: "open commit idxlog for metadata schema",
                path,
                source: IoFault::NotFound,
            },
        )
    } else if s.len() < 76 {
        Err(
            ArchiveMetadataIndexerError::Io {
                operation: "read commit idxlog header for metadata schema",
                path,
                source: IoFault::UnexpectedEnd,
            },
        )
    } else {
        match file_header(s) {
            Err(error) => Err(ArchiveMetadataIndexerError::FileHeader(error)),
            Ok(header) => if header.file_kind != ArchiveFileKind::CommitIdxLog {
                Err(
                    ArchiveMetadataIndexerError::Corrupted(
                        "metadata schema expected commit idxlog file kind",
                    ),
                )
            } else {
                Ok(header.log_id)
            },
        }
    }
}

/// Reads the log id of the commit log.
pub fn read_commit_log_header_log_id(store: &ArchiveStore) -> (result: Result<
    [u8; 16],
    ArchiveMetadataIndexerError,
>)
    ensures
        result == commit_log_id(store@),
{
    let path = ArchivePath::File(ArchiveFile::CommitLog);
    let bytes = match store.read(ArchiveFile::CommitLog, 0, ARCHIVE_FILE_HEADER_V1_LEN) {
        Ok(bytes) => bytes,
        Err(IoFault::NotFound) => {
            return Err(
                ArchiveMetadataIndexerError::Io {
                    operation: "open commit idxlog for metadata schema",
                    path,
                    source: IoFault::NotFound,
                },
            );
        },
        Err(source) => {
            return Err(
                ArchiveMetadataIndexerError::Io {
                    operation: "read commit idxlog header for metadata schema",
                    path,
                    source,
                },
            );
        },
    };
    let header = match ArchiveFileHeaderV1::from_bytes(&bytes) {
        Ok(header) => header,
        Err(error) => {
            return Err(ArchiveMetadataIndexerError::FileHeader(error));
        },
    };
    if header.file_kind != ArchiveFileKind::CommitIdxLog {
        return Err(
            ArchiveMetadataIndexerError::Corrupted(
                "metadata schema expected commit idxlog file kind",
            ),
        );
    }
    Ok(header.log_id)
}

/// Metadata indexer for `commit.idxlog` ingestion and query watermark reporting.
#[derive(Debug)]
pub struct ArchiveMetadataIndexer<S = NoSink> {
    metadata_log_path: String,
    core_locator_index_path: Option<String>,
    query_readiness_mode: QueryReadinessMode,
    sink: Option<S>,
    log_id: [u8; 16],
    index: RecordIndex,
    watermark: MetadataWatermark,
}

/// The mathematical value of an [`ArchiveMetadataIndexer`].
#[verifier::ext_equal]
pub struct IndexerModel {
    pub keeps_core_index: bool,
    pub mode: QueryReadinessMode,
    pub log_id: [u8; 16],
    pub by_sequence: Map<u64, MetadataCommitRecord>,
    pub by_locator: Map<ArchiveLocator, MetadataCommitRecord>,
    pub watermark: MetadataWatermark,
}

impl<S> View for ArchiveMetadataIndexer<S> {
    type V = IndexerModel;

    closed spec fn view(&self) -> IndexerModel {
        IndexerModel {
            keeps_core_index: self.core_locator_index_path is Some,
            mode: self.query_readiness_mode,
            log_id: self.log_id,
            by_sequence: self.index@.by_sequence,
            by_locator: self.index@.by_locator,
            watermark: self.watermark,
        }
    }
}

impl IndexerModel {
    /// The indexer with one more record.
    pub open spec fn with_record(self, record: MetadataCommitRecord) -> IndexerModel {
        IndexerModel {
            by_sequence: self.by_sequence.insert(record.sequence, record),
            by_locator: self.by_locator.insert(record.locator, record),
            ..self
        }
    }

    /// The indexer with the first `n` of some records.
    pub open spec fn with_records(self, records: Seq<MetadataCommitRecord>, n: int) -> IndexerModel
        decreases n,
    {
        if n <= 0 {
            self
        } else {
            self.with_records(records, n - 1).with_record(records[n - 1])
        }
    }

    /// The indexer with another watermark.
    pub open spec fn with_watermark(self, watermark: MetadataWatermark) -> IndexerModel {
        IndexerModel { watermark, ..self }
    }
}

/// An indexer that has seen nothing.
pub open spec fn empty_indexer(
    keeps_core_index: bool,
    mode: QueryReadinessMode,
    log_id: [u8; 16],
) -> IndexerModel {
    IndexerModel {
        keeps_core_index,
        mode,
        log_id,
        by_sequence: Map::empty(),
        by_locator: Map::empty(),
        watermark: MetadataWatermark::zero(),
    }
}

/// The largest ordinal of the first `n` records, or zero.
pub open spec fn highest_ordinal(records: Seq<MetadataCommitRecord>, n: int) -> u64
    decreases n,
{
    if n <= 0 {
        0
    } else if records[n - 1].commit_ordinal > highest_ordinal(records, n - 1) {
        records[n - 1].commit_ordinal
    } else {
        highest_ordinal(records, n - 1)
    }
}

/// The larger number.
pub open spec fn larger(a: u64, b: u64) -> u64 {
    if a > b {
        a
    } else {
        b
    }
}

/// What loading the persisted state gives.
pub open spec fn state_loaded(indexer: IndexerModel, store: StoreModel) -> Result<
    IndexerModel,
    ArchiveMetadataIndexerError,
> {
    match loaded_watermark(store) {
        Err(error) => Err(error),
        Ok(watermark) => {
            let core = if indexer.keeps_core_index {
                core_index_loaded(store, indexer.log_id)
            } else {
                Ok(Seq::empty())
            };
            match core {
                Err(error) => Err(error),
                Ok(records) => match all_entries(store) {
                    Err(error) => Err(ArchiveMetadataIndexerError::Replay(error)),
                    Ok(entries) => Ok(
                        indexer.with_records(records, records.len() as int).with_watermark(
                            MetadataWatermark {
                                last_commit_ordinal: last_ordinal(entries),
                                last_indexed_commit_ordinal: larger(
                                    watermark.last_indexed_commit_ordinal,
                                    highest_ordinal(records, records.len() as int),
                                ),
                            },
                        ),
                    ),
                },
            }
        },
    }
}

/// What opening an indexer gives.
pub open spec fn indexer_opened<S: ArchiveMetadataSink>(
    builder: ArchiveMetadataIndexerBuilder<S>,
    store: StoreModel,
) -> Result<IndexerModel, ArchiveMetadataIndexerError> {
    if !store.has(ArchiveFile::CommitLog) {
        Err(
            ArchiveMetadataIndexerError::MissingCommitLog(
                ArchivePath::File(ArchiveFile::CommitLog),
            ),
        )
    } else {
        match commit_log_id(store) {
            Err(error) => Err(error),
            Ok(log_id) => state_loaded(
                empty_indexer(builder.core_path() is Some, builder.readiness(), log_id),
                store,
            ),
        }
    }
}

/// The records of those of the first `n` entries that lie behind an ordinal, up to a number of
/// them.
pub open spec fn new_records(
    log_id: [u8; 16],
    entries: Seq<CommitEntry>,
    behind: u64,
    limit: int,
    n: int,
) -> Seq<MetadataCommitRecord>
    decreases n,
{
    if n <= 0 {
        Seq::empty()
    } else {
        let before = new_records(log_id, entries, behind, limit, n - 1);
        if entries[n - 1].commit_ordinal > behind && before.len() < limit {
            before.push(record_of(log_id, entries[n - 1]))
        } else {
            before
        }
    }
}

/// The number of records that a call may ingest.
pub open spec fn ingest_limit(max_new_records: Option<usize>) -> int {
    match max_new_records {
        Some(limit) => limit as int,
        None => usize::MAX as int,
    }
}

/// What ingesting leaves behind before the watermark moves.
pub struct Ingest {
    pub indexer: IndexerModel,
    pub store: StoreModel,
    pub records: Seq<MetadataCommitRecord>,
    pub last_commit_ordinal: u64,
    pub result: Result<(), ArchiveMetadataIndexerError>,
}

/// New entries of the commit log are taken into the index and the core-locator index.
pub open spec fn ingested(
    indexer: IndexerModel,
    store: StoreModel,
    max_new_records: Option<usize>,
) -> Ingest {
    match all_entries(store) {
        Err(error) => Ingest {
            indexer,
            store,
            records: Seq::empty(),
            last_commit_ordinal: 0,
            result: Err(ArchiveMetadataIndexerError::Replay(error)),
        },
        Ok(entries) => {
            let records = new_records(
                indexer.log_id,
                entries,
                indexer.watermark.last_indexed_commit_ordinal,
                ingest_limit(max_new_records),
                entries.len() as int,
            );
            let (appended, result) = if indexer.keeps_core_index && records.len() > 0 {
                core_index_appended(store, records)
            } else {
                (store, Ok(()))
            };
            Ingest {
                indexer: indexer.with_records(records, records.len() as int),
                store: appended,
                records,
                last_commit_ordinal: last_ordinal(entries),
                result,
            }
        },
    }
}

/// The watermark behind ingested records.
pub open spec fn advanced(
    watermark: MetadataWatermark,
    records: Seq<MetadataCommitRecord>,
    last_commit_ordinal: u64,
) -> MetadataWatermark {
    MetadataWatermark {
        last_commit_ordinal,
        last_indexed_commit_ordinal: if records.len() > 0 {
            records.last().commit_ordinal
        } else {
            watermark.last_indexed_commit_ordinal
        },
    }
}

/// What a cycle leaves behind.
#[verifier::ext_equal]
pub struct Cycle {
    pub indexer: IndexerModel,
    pub store: StoreModel,
    pub result: Result<usize, ArchiveMetadataIndexerError>,
}

/// The watermark moves behind the ingested records and is persisted.
pub open spec fn settled(ingest: Ingest) -> Cycle {
    match ingest.result {
        Err(error) => Cycle {
            indexer: ingest.indexer,
            store: ingest.store,
            result: Err(error),
        },
        Ok(()) => {
            let watermark = advanced(
                ingest.indexer.watermark,
                ingest.records,
                ingest.last_commit_ordinal,
            );
            Cycle {
                indexer: ingest.indexer.with_watermark(watermark),
                store: watermark_persisted(ingest.store, watermark),
                result: Ok(ingest.records.len() as usize),
            }
        },
    }
}

/// One catch-up cycle.
pub open spec fn caught_up(
    indexer: IndexerModel,
    store: StoreModel,
    max_new_records: Option<usize>,
) -> Cycle {
    settled(ingested(indexer, store, max_new_records))
}

/// A sink that was `before` got a batch and, if it took it, a flush. It answered the first of the
/// two that failed, or that both went well, and is `after` now.
pub open spec fn delivered<S: ArchiveMetadataSink>(
    before: S,
    records: Seq<MetadataCommitRecord>,
    answer: Result<(), ArchiveMetadataSinkError>,
    after: S,
) -> bool {
    exists|taken: Result<(), ArchiveMetadataSinkError>, between: S| #[trigger]
        S::took(before, records, taken, between) && match taken {
            Err(_) => answer == taken && after == between,
            Ok(_) => S::flushed(between, answer, after),
        }
}

/// What becomes of a sink behind an ingest: it gets exactly the new records, then a flush. Without
/// new records, or where ingesting failed, it is left alone.
pub open spec fn handed_over<S: ArchiveMetadataSink>(
    ingest: Ingest,
    before: Option<S>,
    answer: Result<(), ArchiveMetadataSinkError>,
    after: Option<S>,
) -> bool {
    if ingest.result is Ok && ingest.records.len() > 0 && before is Some {
        after is Some && delivered(before->Some_0, ingest.records, answer, after->Some_0)
    } else {
        after == before && answer == Ok::<(), ArchiveMetadataSinkError>(())
    }
}

/// What a cycle leaves behind, given the answer of the sink. The watermark moves only where the
/// sink took the records; else its error is that of the cycle.
pub open spec fn answered(
    ingest: Ingest,
    answer: Result<(), ArchiveMetadataSinkError>,
) -> Cycle {
    match (ingest.result, answer) {
        (Ok(()), Err(error)) => Cycle {
            indexer: ingest.indexer,
            store: ingest.store,
            result: Err(ArchiveMetadataIndexerError::Sink(error)),
        },
        _ => settled(ingest),
    }
}

/// A cycle hands the new records of an ingest to the sink and goes by the sink's answer.
pub open spec fn sink_decided<S: ArchiveMetadataSink>(
    ingest: Ingest,
    before: Option<S>,
    cycle: Cycle,
    after: Option<S>,
) -> bool {
    exists|answer: Result<(), ArchiveMetadataSinkError>|
        #![trigger handed_over(ingest, before, answer, after)]
        handed_over(ingest, before, answer, after) && cycle == answered(ingest, answer)
}

/// The indexer from which an index is rebuilt.
pub open spec fn emptied(indexer: IndexerModel) -> IndexerModel {
    empty_indexer(indexer.keeps_core_index, indexer.mode, indexer.log_id)
}

/// The store from which an index is rebuilt.
pub open spec fn rebuild_store(indexer: IndexerModel, store: StoreModel) -> StoreModel {
    watermark_persisted(
        if indexer.keeps_core_index {
            core_index_reset(store)
        } else {
            store
        },
        MetadataWatermark::zero(),
    )
}

/// The index is rebuilt from scratch.
pub open spec fn reindexed(indexer: IndexerModel, store: StoreModel) -> Cycle {
    caught_up(emptied(indexer), rebuild_store(indexer, store), None)
}

/// What a query by sequence gives.
pub open spec fn queried_sequence(indexer: IndexerModel, sequence: u64) -> Result<
    MetadataCommitRecord,
    MetadataQueryError,
> {
    let watermark = indexer.watermark;
    if sequence > watermark.last_indexed_commit_ordinal {
        Err(
            MetadataQueryError::NotIndexedYet {
                requested_sequence: Some(sequence),
                requested_locator: None,
                query_watermark: watermark.last_indexed_commit_ordinal,
                last_commit_ordinal: watermark.last_commit_ordinal,
            },
        )
    } else if indexer.by_sequence.contains_key(sequence) {
        Ok(indexer.by_sequence[sequence])
    } else {
        Err(MetadataQueryError::NotAvailableSequence(sequence))
    }
}

/// What a query by locator gives.
pub open spec fn queried_locator(indexer: IndexerModel, locator: ArchiveLocator) -> Result<
    MetadataCommitRecord,
    MetadataQueryError,
> {
    let watermark = indexer.watermark;
    if indexer.by_locator.contains_key(locator) {
        Ok(indexer.by_locator[locator])
    } else if watermark.last_indexed_commit_ordinal < watermark.last_commit_ordinal {
        Err(
            MetadataQueryError::NotIndexedYet {
                requested_sequence: None,
                requested_locator: Some(locator),
                query_watermark: watermark.last_indexed_commit_ordinal,
                last_commit_ordinal: watermark.last_commit_ordinal,
            },
        )
    } else {
        Err(MetadataQueryError::NotAvailableLocator(locator))
    }
}

/// What replaying a sequence through the index gives.
pub open spec fn replayed_sequence(
    indexer: IndexerModel,
    store: StoreModel,
    verify: bool,
    sequence: u64,
) -> Result<FrameModel, MetadataQueryError> {
    match queried_sequence(indexer, sequence) {
        Err(error) => Err(error),
        Ok(record) => match located_frame(store, record.locator, verify) {
            Err(error) => Err(
                MetadataQueryError::Indexer(ArchiveMetadataIndexerError::Replay(error)),
            ),
            Ok(frame) => Ok(frame),
        },
    }
}

impl<S: ArchiveMetadataSink> ArchiveMetadataIndexer<S> {
    /// The sink that takes the records, where there is one.
    pub closed spec fn attached_sink(&self) -> Option<S> {
        self.sink
    }

    /// The metadata-log root.
    pub closed spec fn metadata_path(&self) -> Seq<char> {
        self.metadata_log_path@
    }

    /// The path of the core-locator index, where one is kept.
    pub closed spec fn core_path(&self) -> Option<Seq<char>> {
        match self.core_locator_index_path {
            Some(path) => Some(path@),
            None => None,
        }
    }

    /// Returns schema version `(major, minor)`.
    pub fn schema_version(&self) -> (version: (u16, u16))
        ensures
            version == (1u16, 0u16),
    {
        (METADATA_SCHEMA_VERSION_MAJOR, METADATA_SCHEMA_VERSION_MINOR)
    }

    /// Returns current query readiness mode.
    pub fn query_readiness_mode(&self) -> (mode: QueryReadinessMode)
        ensures
            mode == self@.mode,
    {
        self.query_readiness_mode
    }

    /// Returns current watermark values.
    pub fn watermark(&self) -> (watermark: MetadataWatermark)
        ensures
            watermark == self@.watermark,
    {
        self.watermark
    }

    /// Returns admin/status view.
    pub fn status(&self) -> (status: ArchiveMetadataIndexerStatus)
        ensures
            status.query_readiness_mode == self@.mode,
            status.watermark == self@.watermark,
            status.metadata_log_path@ == self.metadata_path(),
            status.commit_log_path@ == joined(self.metadata_path(), "commit.idxlog"@),
            match status.core_locator_index_path {
                Some(path) => self.core_path() == Some(path@),
                None => self.core_path() is None,
            },
    {
        ArchiveMetadataIndexerStatus {
            query_readiness_mode: self.query_readiness_mode,
            watermark: self.watermark,
            metadata_log_path: self.metadata_log_path.clone(),
            commit_log_path: join_path(self.metadata_log_path.as_str(), "commit.idxlog"),
            core_locator_index_path: match &self.core_locator_index_path {
                Some(path) => Some(path.clone()),
                None => None,
            },
        }
    }

    /// Takes one record into the index.
    fn add_record(&mut self, record: MetadataCommitRecord)
        ensures
            final(self)@ == old(self)@.with_record(record),
            final(self).metadata_path() == old(self).metadata_path(),
            final(self).core_path() == old(self).core_path(),
            final(self).attached_sink() == old(self).attached_sink(),
    {
        let mut index = RecordIndex::new();
        std::mem::swap(&mut index, &mut self.index);
        self.index = index.with_record(record);
    }

    /// Loads the persisted state.
    fn load_persisted_state(&mut self, store: &ArchiveStore) -> (result: Result<
        (),
        ArchiveMetadataIndexerError,
    >)
        ensures
            final(self).metadata_path() == old(self).metadata_path(),
            final(self).core_path() == old(self).core_path(),
            final(self).attached_sink() == old(self).attached_sink(),
            match result {
                Ok(()) => state_loaded(old(self)@, store@) == Ok::<
                    IndexerModel,
                    ArchiveMetadataIndexerError,
                >(final(self)@),
                Err(error) => state_loaded(old(self)@, store@) == Err::<
                    IndexerModel,
                    ArchiveMetadataIndexerError,
                >(error),
            },
    {
        let mut watermark = match load_watermark(store) {
            Ok(watermark) => watermark,
            Err(error) => {
                return Err(error);
            },
        };
        if self.core_locator_index_path.is_some() {
            let records = match load_core_locator_index(store, self.log_id) {
                Ok(records) => records,
                Err(error) => {
                    return Err(error);
                },
            };
            let mut highest: u64 = 0;
            let n: usize = records.len();
            for i in 0..n
                invariant
                    n == records@.len(),
                    self.metadata_path() == old(self).metadata_path(),
                    self.core_path() == old(self).core_path(),
                    self.attached_sink() == old(self).attached_sink(),
                    self@ == old(self)@.with_records(records@, i as int),
                    highest == highest_ordinal(records@, i as int),
            {
                self.add_record(records[i]);
                if records[i].commit_ordinal > highest {
                    highest = records[i].commit_ordinal;
                }
            }
            if highest > watermark.last_indexed_commit_ordinal {
                watermark.last_indexed_commit_ordinal = highest;
            }
        }
        let entries = match read_commit_entries(store) {
            Ok(entries) => entries,
            Err(error) => {
                return Err(ArchiveMetadataIndexerError::Replay(error));
            },
        };
        watermark.last_commit_ordinal = if entries.len() == 0 {
            0
        } else {
            entries[entries.len() - 1].commit_ordinal
        };
        self.watermark = watermark;
        Ok(())
    }

    /// Takes new entries of the commit log into the index and the core-locator index. Gives the
    /// new records and the last ordinal of the commit log.
    pub fn ingest(&mut self, store: &mut ArchiveStore, max_new_records: Option<usize>) -> (result:
        Result<(Vec<MetadataCommitRecord>, u64), ArchiveMetadataIndexerError>)
        ensures
            final(store).base() == old(store).base(),
            final(self).metadata_path() == old(self).metadata_path(),
            final(self).core_path() == old(self).core_path(),
            final(self).attached_sink() == old(self).attached_sink(),
            ({
                let ingest = ingested(old(self)@, old(store)@, max_new_records);
                &&& final(self)@ == ingest.indexer
                &&& final(store)@ == ingest.store
                &&& match result {
                    Ok((records, last)) => {
                        &&& ingest.result == Ok::<(), ArchiveMetadataIndexerError>(())
                        &&& records@ == ingest.records
                        &&& last == ingest.last_commit_ordinal
                    },
                    Err(error) => ingest.result == Err::<(), ArchiveMetadataIndexerError>(error),
                }
            }),
    {
        let entries = match read_commit_entries(store) {
            Ok(entries) => entries,
            Err(error) => {
                return Err(ArchiveMetadataIndexerError::Replay(error));
            },
        };
        let last: u64 = if entries.len() == 0 {
            0
        } else {
            entries[entries.len() - 1].commit_ordinal
        };
        let limit: usize = match max_new_records {
            Some(limit) => limit,
            None => usize::MAX,
        };
        let behind: u64 = self.watermark.last_indexed_commit_ordinal;
        let mut records: Vec<MetadataCommitRecord> = Vec::new();
        let n: usize = entries.len();
        assert(records@ =~= Seq::empty());
        for i in 0..n
            invariant
                n == entries@.len(),
                self.metadata_path() == old(self).metadata_path(),
                self.core_path() == old(self).core_path(),
                self.attached_sink() == old(self).attached_sink(),
                self.log_id == old(self)@.log_id,
                records@ == new_records(
                    old(self)@.log_id,
                    entries@,
                    behind,
                    limit as int,
                    i as int,
                ),
                self@ == old(self)@.with_records(records@, records@.len() as int),
        {
            let entry = entries[i];
            if entry.commit_ordinal > behind && records.len() < limit {
                let record = make_record(self.log_id, &entry);
                let ghost before = records@;
                self.add_record(record);
                records.push(record);
                proof {
                    with_records_prefix(old(self)@, before, records@, before.len() as int);
                }
            }
        }
        if self.core_locator_index_path.is_some() && records.len() > 0 {
            match append_core_locator_index(store, &records) {
                Ok(()) => {},
                Err(error) => {
                    return Err(error);
                },
            }
        }
        Ok((records, last))
    }

    /// Hands new records to the sink, and flushes it.
    fn deliver(&mut self, records: &[MetadataCommitRecord]) -> (answer: Result<
        (),
        ArchiveMetadataSinkError,
    >)
        ensures
            final(self)@ == old(self)@,
            final(self).metadata_path() == old(self).metadata_path(),
            final(self).core_path() == old(self).core_path(),
            match old(self).attached_sink() {
                Some(sink) if records@.len() > 0 => final(self).attached_sink() is Some
                    && delivered(sink, records@, answer, final(self).attached_sink()->Some_0),
                _ => final(self).attached_sink() == old(self).attached_sink() && answer == Ok::<
                    (),
                    ArchiveMetadataSinkError,
                >(()),
            },
    {
        if records.len() == 0 {
            return Ok(());
        }
        let mut attached: Option<S> = None;
        std::mem::swap(&mut attached, &mut self.sink);
        match attached {
            Some(sink) => {
                let mut sink = sink;
                let taken = sink.on_records(records);
                let ghost between = sink;
                let ghost first = taken;
                let answer = match taken {
                    Ok(()) => sink.flush(),
                    Err(error) => Err(error),
                };
                assert(S::took(old(self).sink->Some_0, records@, first, between));
                self.sink = Some(sink);
                answer
            },
            None => Ok(()),
        }
    }

    /// Ends a cycle with the answer of the sink: moves the watermark behind the records that the
    /// sink took, or passes its error on.
    pub fn settle_delivery(
        &mut self,
        store: &mut ArchiveStore,
        records: &[MetadataCommitRecord],
        last_commit_ordinal: u64,
        delivered: Result<(), ArchiveMetadataSinkError>,
    ) -> (result: Result<usize, ArchiveMetadataIndexerError>)
        ensures
            final(store).base() == old(store).base(),
            final(self).metadata_path() == old(self).metadata_path(),
            final(self).core_path() == old(self).core_path(),
            final(self).attached_sink() == old(self).attached_sink(),
            match delivered {
                Err(error) => {
                    &&& result == Err::<usize, ArchiveMetadataIndexerError>(
                        ArchiveMetadataIndexerError::Sink(error),
                    )
                    &&& final(self)@ == old(self)@
                    &&& final(store)@ == old(store)@
                },
                Ok(_) => {
                    let watermark = advanced(old(self)@.watermark, records@, last_commit_ordinal);
                    &&& result == Ok::<usize, ArchiveMetadataIndexerError>(records@.len() as usize)
                    &&& final(self)@ == old(self)@.with_watermark(watermark)
                    &&& final(store)@ == watermark_persisted(old(store)@, watermark)
                },
            },
    {
        match delivered {
            Ok(()) => {
                if records.len() > 0 {
                    self.watermark.last_indexed_commit_ordinal =
                    records[records.len() - 1].commit_ordinal;
                }
                self.watermark.last_commit_ordinal = last_commit_ordinal;
                persist_watermark(store, self.watermark);
                Ok(records.len())
            },
            Err(error) => Err(ArchiveMetadataIndexerError::Sink(error)),
        }
    }

    /// Performs one catch-up cycle from `commit.idxlog`.
    pub fn catch_up_once(&mut self, store: &mut ArchiveStore) -> (result: Result<
        usize,
        ArchiveMetadataIndexerError,
    >)
        ensures
            final(store).base() == old(store).base(),
            final(self).metadata_path() == old(self).metadata_path(),
            final(self).core_path() == old(self).core_path(),
            sink_decided(
                ingested(old(self)@, old(store)@, None),
                old(self).attached_sink(),
                Cycle { indexer: final(self)@, store: final(store)@, result },
                final(self).attached_sink(),
            ),
            old(self).attached_sink() is None ==> (Cycle {
                indexer: final(self)@,
                store: final(store)@,
                result,
            }) == caught_up(old(self)@, old(store)@, None),
    {
        self.catch_up_with_limit(store, None)
    }

    /// Performs one catch-up cycle while capping ingested records.
    ///
    /// This supports continuous indexing loops with bounded per-iteration work.
    pub fn catch_up_with_limit(
        &mut self,
        store: &mut ArchiveStore,
        max_new_records: Option<usize>,
    ) -> (result: Result<usize, ArchiveMetadataIndexerError>)
        ensures
            final(store).base() == old(store).base(),
            final(self).metadata_path() == old(self).metadata_path(),
            final(self).core_path() == old(self).core_path(),
            sink_decided(
                ingested(old(self)@, old(store)@, max_new_records),
                old(self).attached_sink(),
                Cycle { indexer: final(self)@, store: final(store)@, result },
                final(self).attached_sink(),
            ),
            old(self).attached_sink() is None ==> (Cycle {
                indexer: final(self)@,
                store: final(store)@,
                result,
            }) == caught_up(old(self)@, old(store)@, max_new_records),
    {
        let ghost ingest = ingested(self@, store@, max_new_records);
        let ghost before = self.attached_sink();
        match self.ingest(store, max_new_records) {
            Ok((records, last)) => {
                let answer = self.deliver(&records);
                assert(handed_over(ingest, before, answer, self.attached_sink()));
                self.settle_delivery(store, &records, last, answer)
            },
            Err(error) => {
                assert(handed_over(ingest, before, Ok(()), self.attached_sink()));
                Err(error)
            },
        }
    }

    /// Rebuilds index state from scratch in an idempotent way.
    pub fn reindex(&mut self, store: &mut ArchiveStore) -> (result: Result<
        (),
        ArchiveMetadataIndexerError,
    >)
        ensures
            final(store).base() == old(store).base(),
            final(self).metadata_path() == old(self).metadata_path(),
            final(self).core_path() == old(self).core_path(),
            exists|cycle: Cycle|
                {
                    &&& #[trigger] sink_decided(
                        ingested(
                            emptied(old(self)@),
                            rebuild_store(old(self)@, old(store)@),
                            None,
                        ),
                        old(self).attached_sink(),
                        cycle,
                        final(self).attached_sink(),
                    )
                    &&& final(self)@ == cycle.indexer
                    &&& final(store)@ == cycle.store
                    &&& match cycle.result {
                        Ok(_) => result == Ok::<(), ArchiveMetadataIndexerError>(()),
                        Err(error) => result == Err::<(), ArchiveMetadataIndexerError>(error),
                    }
                },
            old(self).attached_sink() is None ==> {
                let cycle = reindexed(old(self)@, old(store)@);
                &&& final(self)@ == cycle.indexer
                &&& final(store)@ == cycle.store
                &&& match cycle.result {
                    Ok(_) => result == Ok::<(), ArchiveMetadataIndexerError>(()),
                    Err(error) => result == Err::<(), ArchiveMetadataIndexerError>(error),
                }
            },
    {
        self.index = RecordIndex::new();
        self.watermark = MetadataWatermark::default();
        if self.core_locator_index_path.is_some() {
            reset_core_locator_index(store);
        }
        persist_watermark(store, self.watermark);
        assert(self@ =~= emptied(old(self)@));
        let ghost cleared = store@;
        let ghost attached = self.attached_sink();
        let cycled = self.catch_up_once(store);
        assert(sink_decided(
            ingested(emptied(old(self)@), cleared, None),
            attached,
            Cycle { indexer: self@, store: store@, result: cycled },
            self.attached_sink(),
        ));
        match cycled {
            Ok(_) => Ok(()),
            Err(error) => Err(error),
        }
    }

    /// Resolves metadata record by source sequence.
    pub fn query_by_sequence(&self, sequence: u64) -> (result: Result<
        MetadataCommitRecord,
        MetadataQueryError,
    >)
        ensures
            result == queried_sequence(self@, sequence),
            result matches Ok(record) ==> record.sequence == sequence,
    {
        if sequence > self.watermark.query_watermark() {
            return Err(
                MetadataQueryError::NotIndexedYet {
                    requested_sequence: Some(sequence),
                    requested_locator: None,
                    query_watermark: self.watermark.query_watermark(),
                    last_commit_ordinal: self.watermark.last_commit_ordinal,
                },
            );
        }
        match self.index.find_sequence(sequence) {
            Some(record) => Ok(record),
            None => Err(MetadataQueryError::NotAvailableSequence(sequence)),
        }
    }

    /// Resolves metadata record by physical locator.
    pub fn query_by_locator(&self, locator: ArchiveLocator) -> (result: Result<
        MetadataCommitRecord,
        MetadataQueryError,
    >)
        ensures
            result == queried_locator(self@, locator),
            result matches Ok(record) ==> record.locator == locator,
    {
        match self.index.find_locator(locator) {
            Some(record) => {
                return Ok(record);
            },
            None => {},
        }
        if self.watermark.last_indexed_commit_ordinal < self.watermark.last_commit_ordinal {
            return Err(
                MetadataQueryError::NotIndexedYet {
                    requested_sequence: None,
                    requested_locator: Some(locator),
                    query_watermark: self.watermark.query_watermark(),
                    last_commit_ordinal: self.watermark.last_commit_ordinal,
                },
            );
        }
        Err(MetadataQueryError::NotAvailableLocator(locator))
    }

    /// Replays a frame through locator query resolution.
    pub fn replay_by_sequence(
        &self,
        store: &ArchiveStore,
        replayer: &ArchiveReplayer,
        sequence: u64,
    ) -> (result: Result<ReplayedFrame, MetadataQueryError>)
        ensures
            match result {
                Ok(frame) => replayed_sequence(self@, store@, replayer@.verify, sequence) == Ok::<
                    FrameModel,
                    MetadataQueryError,
                >(frame@),
                Err(error) => replayed_sequence(self@, store@, replayer@.verify, sequence) == Err::<
                    FrameModel,
                    MetadataQueryError,
                >(error),
            },
    {
        let metadata = match self.query_by_sequence(sequence) {
            Ok(metadata) => metadata,
            Err(error) => {
                return Err(error);
            },
        };
        match replayer.read_at_locator(store, metadata.locator) {
            Ok(frame) => Ok(frame),
            Err(error) => Err(
                MetadataQueryError::Indexer(ArchiveMetadataIndexerError::Replay(error)),
            ),
        }
    }
}

/// Records behind the first `n` do not matter.
pub proof fn with_records_prefix(
    indexer: IndexerModel,
    records: Seq<MetadataCommitRecord>,
    longer: Seq<MetadataCommitRecord>,
    n: int,
)
    requires
        n <= records.len() <= longer.len(),
        forall|i: int| 0 <= i < n ==> #[trigger] records[i] == longer[i],
    ensures
        indexer.with_records(records, n) == indexer.with_records(longer, n),
    decreases n,
{
    if n > 0 {
        with_records_prefix(indexer, records, longer, n - 1);
    }
}

} // verus!
