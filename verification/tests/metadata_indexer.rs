use log_archive::adapter::decode_adapter_user_header;
use log_archive::config::ArchiveRecorderBuilder;
use log_archive::error::{ArchiveFile, ArchiveRecorderError};
use log_archive::indexer::ArchiveMetadataIndexerBuilder;
use log_archive::metadata::{
    load_watermark, persist_watermark, MetadataQueryError, MetadataWatermark, QueryReadinessMode,
};
use log_archive::recorder::ArchiveRecorder;
use log_archive::replayer::ArchiveReplayerBuilder;
use log_archive::store::ArchiveStore;
use log_archive::types::{
    ArchiveSourcePattern, ChecksumMode, PersistenceMode, PublishSubscribeRecordInput,
    RecordedCommit,
};

const NOW_NS: u64 = 1_700_000_000_000_000_000;

fn ring_available() -> bool {
    io_uring::IoUring::new(1).is_ok()
}

#[derive(Debug, Clone, Copy)]
struct LogRecordInput<'a> {
    sequence: u64,
    event_time_ns: u64,
    user_header: &'a [u8],
    payload: &'a [u8],
}

trait LogAppend {
    fn append_log_record(
        &mut self,
        store: &mut ArchiveStore,
        input: LogRecordInput<'_>,
    ) -> Result<RecordedCommit, ArchiveRecorderError>;
}

impl LogAppend for ArchiveRecorder {
    fn append_log_record(
        &mut self,
        store: &mut ArchiveStore,
        input: LogRecordInput<'_>,
    ) -> Result<RecordedCommit, ArchiveRecorderError> {
        self.append_publish_subscribe_record(
            store,
            PublishSubscribeRecordInput {
                event_time_ns: input.event_time_ns,
                source_service_id: 1,
                source_publisher_id: 1,
                source_sequence: Some(input.sequence),
                user_header: input.user_header,
                payload: input.payload,
            },
            NOW_NS,
        )
    }
}

fn create_recorder(
    store: &mut ArchiveStore,
    storage_path: &str,
    metadata_path: &str,
) -> ArchiveRecorder {
    ArchiveRecorderBuilder::new(storage_path)
        .metadata_log_path(metadata_path)
        .segment_bytes(1024)
        .segment_preallocate(false)
        .spare_preallocated_segments(0)
        .persistence_mode(PersistenceMode::Async)
        .checksum_mode(ChecksumMode::Crc32c)
        .create(store, ring_available(), NOW_NS)
        .unwrap()
}

#[test]
fn metadata_indexer_catch_up_restart_and_reindex_are_monotonic_and_idempotent() {
    let mut store = ArchiveStore::new();
    let storage_path = "archive";
    let metadata_path = "metadata";

    let mut recorder = create_recorder(&mut store, storage_path, metadata_path);
    for sequence in 1..=3u64 {
        recorder
            .append_log_record(&mut store, LogRecordInput {
                sequence,
                event_time_ns: sequence * 10,
                user_header: &[0x10, 0x11],
                payload: &[sequence as u8; 12],
            })
            .unwrap();
    }
    recorder.flush(&store).unwrap();

    let mut indexer = ArchiveMetadataIndexerBuilder::new(storage_path)
        .metadata_log_path(metadata_path)
        .enable_core_locator_index(true)
        .open(&store)
        .unwrap();
    let processed_initial = indexer.catch_up_once(&mut store).unwrap();
    assert_eq!(processed_initial, 3);
    let status_initial = indexer.status();
    assert_eq!(status_initial.watermark.last_commit_ordinal, 3);
    assert_eq!(status_initial.watermark.last_indexed_commit_ordinal, 3);
    assert_eq!(status_initial.query_readiness_mode, QueryReadinessMode::CoreLocatorIndex);
    assert_eq!(store.contains(ArchiveFile::CoreLocatorIndex), true);

    for sequence in 4..=5u64 {
        recorder
            .append_log_record(&mut store, LogRecordInput {
                sequence,
                event_time_ns: sequence * 10,
                user_header: &[0x20, 0x21],
                payload: &[sequence as u8; 16],
            })
            .unwrap();
    }
    recorder.flush(&store).unwrap();

    let processed_delta = indexer.catch_up_once(&mut store).unwrap();
    assert_eq!(processed_delta, 2);
    let status_delta = indexer.status();
    assert_eq!(status_delta.watermark.last_commit_ordinal, 5);
    assert_eq!(status_delta.watermark.last_indexed_commit_ordinal, 5);
    drop(indexer);

    let mut reopened = ArchiveMetadataIndexerBuilder::new(storage_path)
        .metadata_log_path(metadata_path)
        .enable_core_locator_index(true)
        .open(&store)
        .unwrap();
    let status_reopened = reopened.status();
    assert_eq!(status_reopened.watermark.last_indexed_commit_ordinal, 5);
    let processed_none = reopened.catch_up_once(&mut store).unwrap();
    assert_eq!(processed_none, 0);

    reopened.reindex(&mut store).unwrap();
    let status_reindexed = reopened.status();
    assert_eq!(status_reindexed.watermark.last_indexed_commit_ordinal, 5);
    assert_eq!(status_reindexed.watermark.last_commit_ordinal, 5);
    let metadata = reopened.query_by_sequence(5).unwrap();
    assert_eq!(metadata.sequence, 5);
    recorder.finalize(&mut store, NOW_NS).unwrap();
}

#[test]
fn metadata_indexer_queries_beyond_watermark_return_not_indexed_yet() {
    let mut store = ArchiveStore::new();
    let storage_path = "archive";
    let metadata_path = "metadata";

    let mut recorder = create_recorder(&mut store, storage_path, metadata_path);
    let mut commits = Vec::new();
    for sequence in 1..=4u64 {
        commits.push(
            recorder
                .append_log_record(&mut store, LogRecordInput {
                    sequence,
                    event_time_ns: sequence * 100,
                    user_header: &[0x30],
                    payload: &[sequence as u8; 8],
                })
                .unwrap(),
        );
    }
    recorder.flush(&store).unwrap();

    let mut indexer = ArchiveMetadataIndexerBuilder::new(storage_path)
        .metadata_log_path(metadata_path)
        .enable_core_locator_index(true)
        .open(&store)
        .unwrap();
    let processed = indexer.catch_up_with_limit(&mut store, Some(2)).unwrap();
    assert_eq!(processed, 2);
    let status = indexer.status();
    assert_eq!(status.watermark.last_commit_ordinal, 4);
    assert_eq!(status.watermark.last_indexed_commit_ordinal, 2);

    let beyond = indexer.query_by_sequence(4);
    assert_eq!(matches!(
            beyond,
            Err(MetadataQueryError::NotIndexedYet {
                requested_sequence: Some(4),
                requested_locator: None,
                query_watermark: 2,
                last_commit_ordinal: 4
            })
        ), true);
    let available = indexer.query_by_sequence(2).unwrap();
    assert_eq!(available.sequence, 2);

    let by_locator = indexer.query_by_locator(commits[3].locator);
    assert_eq!(matches!(
            by_locator,
            Err(MetadataQueryError::NotIndexedYet {
                requested_sequence: None,
                requested_locator: Some(_),
                query_watermark: 2,
                last_commit_ordinal: 4
            })
        ), true);
    recorder.finalize(&mut store, NOW_NS).unwrap();
}

#[test]
fn metadata_indexer_supports_offline_and_continuous_commitlog_ingestion() {
    let mut store = ArchiveStore::new();
    let storage_path = "archive";
    let metadata_path = "metadata";

    {
        let mut recorder = create_recorder(&mut store, storage_path, metadata_path);
        for sequence in 1..=5u64 {
            recorder
                .append_log_record(&mut store, LogRecordInput {
                    sequence,
                    event_time_ns: sequence,
                    user_header: &[0x44, 0x45],
                    payload: &[sequence as u8; 10],
                })
                .unwrap();
        }
        recorder.finalize(&mut store, NOW_NS).unwrap();
    }

    let mut indexer = ArchiveMetadataIndexerBuilder::new(storage_path)
        .metadata_log_path(metadata_path)
        .enable_core_locator_index(true)
        .open(&store)
        .unwrap();
    let processed_offline = indexer.catch_up_once(&mut store).unwrap();
    assert_eq!(processed_offline, 5);
    assert_eq!(indexer.status().watermark.query_watermark(), 5);

    let mut recorder = ArchiveRecorderBuilder::new(storage_path)
        .metadata_log_path(metadata_path)
        .segment_bytes(1024)
        .segment_preallocate(false)
        .spare_preallocated_segments(0)
        .persistence_mode(PersistenceMode::Async)
        .checksum_mode(ChecksumMode::Crc32c)
        .open_or_recover(&mut store, ring_available(), NOW_NS)
        .unwrap();

    for sequence in 6..=10u64 {
        recorder
            .append_log_record(&mut store, LogRecordInput {
                sequence,
                event_time_ns: sequence,
                user_header: &[0x55, 0x56],
                payload: &[sequence as u8; 10],
            })
            .unwrap();
        recorder.flush(&store).unwrap();
        let processed_live = indexer.catch_up_with_limit(&mut store, Some(1)).unwrap();
        assert_eq!(processed_live, 1);
    }
    recorder.finalize(&mut store, NOW_NS).unwrap();

    let status = indexer.status();
    assert_eq!(status.watermark.last_commit_ordinal, 10);
    assert_eq!(status.watermark.last_indexed_commit_ordinal, 10);
}

#[test]
fn metadata_indexer_query_to_replay_path_is_end_to_end_functional() {
    let mut store = ArchiveStore::new();
    let storage_path = "archive";
    let metadata_path = "metadata";

    let mut recorder = create_recorder(&mut store, storage_path, metadata_path);
    for sequence in 1..=4u64 {
        let payload = vec![sequence as u8; 6 + (sequence as usize)];
        recorder
            .append_log_record(&mut store, LogRecordInput {
                sequence,
                event_time_ns: sequence * 1_000,
                user_header: &[0xAA, sequence as u8],
                payload: &payload,
            })
            .unwrap();
    }
    recorder.finalize(&mut store, NOW_NS).unwrap();

    let mut indexer = ArchiveMetadataIndexerBuilder::new(storage_path)
        .metadata_log_path(metadata_path)
        .enable_core_locator_index(true)
        .open(&store)
        .unwrap();
    let _ = indexer.catch_up_once(&mut store).unwrap();

    let replayer = ArchiveReplayerBuilder::new(storage_path)
        .metadata_log_path(metadata_path)
        .open(&store)
        .unwrap();

    let replayed = indexer.replay_by_sequence(&store, &replayer, 3).unwrap();
    assert_eq!(replayed.sequence, 3);
    assert_eq!(replayed.payload, vec![3u8; 9]);
    let decoded = decode_adapter_user_header(&replayed.user_header).unwrap();
    assert_eq!(decoded.source_metadata.source_pattern, ArchiveSourcePattern::PublishSubscribe);
    assert_eq!(decoded.user_header.to_vec(), vec![0xAA, 3u8]);

    let metadata = indexer.query_by_sequence(4).unwrap();
    let by_locator = replayer.read_at_locator(&store, metadata.locator).unwrap();
    assert_eq!(by_locator.sequence, 4);
}

#[test]
fn watermark_roundtrip_persists_and_loads_values() {
    let mut store = ArchiveStore::new();
    let watermark = MetadataWatermark {
        last_commit_ordinal: 42,
        last_indexed_commit_ordinal: 40,
    };

    persist_watermark(&mut store, watermark);
    let loaded = load_watermark(&store).unwrap();
    assert_eq!(loaded, watermark);
}
