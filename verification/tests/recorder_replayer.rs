use std::time::Duration;

use log_archive::adapter::decode_adapter_user_header;
use log_archive::config::ArchiveRecorderBuilder;
use log_archive::error::{
    ArchiveDirectory, ArchiveFile, ArchiveRecorderError, ArchiveReplayError,
};
use log_archive::header::{ArchiveFileHeaderV1, ArchiveFileKind, ARCHIVE_FILE_HEADER_V1_LEN};
use log_archive::recorder::ArchiveRecorder;
use log_archive::replayer::{ArchiveReplayerBuilder, ReplayFrameBuffer};
use log_archive::store::ArchiveStore;
use log_archive::types::{
    ArchiveLocator, ArchiveSegmentTier, ArchiveSourcePattern, AsyncIoBackend, ChecksumMode,
    EffectiveAsyncIoBackend, PersistenceMode, PublishSubscribeExternalPayloadInput,
    PublishSubscribeRecordInput, RecordedCommit, RecorderAckLevel, ReplayBudget,
    DEFAULT_ACK_POLL_INTERVAL_MS, DEFAULT_WAIT_DURABLE_DATA_AND_COMMIT_LOG_TIMEOUT_MS,
    DEFAULT_WAIT_DURABLE_DATA_TIMEOUT_MS,
};

const NOW_NS: u64 = 1_700_000_000_000_000_000;

fn ring_available() -> bool {
    io_uring::IoUring::new(1).is_ok()
}

fn hot_data(locator: ArchiveLocator) -> ArchiveFile {
    ArchiveFile::SegmentData {
        tier: ArchiveSegmentTier::HotAttached,
        segment_id: locator.segment_id,
        segment_generation: locator.segment_generation,
    }
}

#[derive(Debug, Clone, Copy)]
struct LogRecordInput<'a> {
    sequence: u64,
    event_time_ns: u64,
    user_header: &'a [u8],
    payload: &'a [u8],
}

impl<'a> LogRecordInput<'a> {
    fn as_publish_subscribe(self) -> PublishSubscribeRecordInput<'a> {
        PublishSubscribeRecordInput {
            event_time_ns: self.event_time_ns,
            source_service_id: 1,
            source_publisher_id: 1,
            source_sequence: Some(self.sequence),
            user_header: self.user_header,
            payload: self.payload,
        }
    }
}

trait LogAppend {
    fn append_log_record(
        &mut self,
        store: &mut ArchiveStore,
        input: LogRecordInput<'_>,
    ) -> Result<RecordedCommit, ArchiveRecorderError>;

    fn append_log_record_with_ack(
        &mut self,
        store: &mut ArchiveStore,
        input: LogRecordInput<'_>,
        requested_ack: RecorderAckLevel,
        timeout: Duration,
    ) -> Result<RecordedCommit, ArchiveRecorderError>;
}

impl LogAppend for ArchiveRecorder {
    fn append_log_record(
        &mut self,
        store: &mut ArchiveStore,
        input: LogRecordInput<'_>,
    ) -> Result<RecordedCommit, ArchiveRecorderError> {
        self.append_publish_subscribe_record(store, input.as_publish_subscribe(), NOW_NS)
    }

    fn append_log_record_with_ack(
        &mut self,
        store: &mut ArchiveStore,
        input: LogRecordInput<'_>,
        requested_ack: RecorderAckLevel,
        timeout: Duration,
    ) -> Result<RecordedCommit, ArchiveRecorderError> {
        self.append_publish_subscribe_record_with_ack(
            store,
            input.as_publish_subscribe(),
            requested_ack,
            timeout.as_nanos(),
            NOW_NS,
        )
    }
}

fn read_archive_header(store: &ArchiveStore, file: ArchiveFile) -> ArchiveFileHeaderV1 {
    let bytes = store.read(file, 0, ARCHIVE_FILE_HEADER_V1_LEN).unwrap();
    ArchiveFileHeaderV1::from_bytes(&bytes).unwrap()
}

fn rewrite_archive_header_log_id(
    store: &mut ArchiveStore,
    file: ArchiveFile,
    expected_kind: ArchiveFileKind,
    log_id: [u8; 16],
) {
    let mut header = read_archive_header(store, file);
    assert_eq!(header.file_kind, expected_kind);
    header.log_id = log_id;
    let encoded = header.to_bytes().unwrap();
    store.write_at(file, 0, &encoded, "rewrite header").unwrap();
}

fn different_log_id(log_id: [u8; 16]) -> [u8; 16] {
    let mut value = log_id;
    value[0] ^= 0xFF;
    value
}

#[test]
fn log_archive_recorder_and_replayer_support_sequence_and_locator_reads() {
    let mut store = ArchiveStore::new();
    let storage_path = "archive";
    let metadata_path = "metadata";

    let mut recorder = ArchiveRecorderBuilder::new(storage_path)
        .metadata_log_path(metadata_path)
        .segment_bytes(1024)
        .segment_preallocate(false)
        .spare_preallocated_segments(0)
        .persistence_mode(PersistenceMode::Async)
        .checksum_mode(ChecksumMode::Crc32c)
        .create(&mut store, ring_available(), NOW_NS)
        .unwrap();

    let mut expected_payloads = Vec::new();
    let mut expected_headers = Vec::new();
    let mut locators = Vec::new();

    for sequence in 1..=5u64 {
        let user_header = vec![sequence as u8, (sequence + 1) as u8];
        let payload = vec![sequence as u8; (sequence as usize) + 3];
        expected_headers.push(user_header.clone());
        expected_payloads.push(payload.clone());

        let commit = recorder
            .append_log_record(&mut store, LogRecordInput {
                sequence,
                event_time_ns: sequence * 100,
                user_header: &user_header,
                payload: &payload,
            })
            .unwrap();
        locators.push(commit.locator);
    }

    recorder.finalize(&mut store, NOW_NS).unwrap();
    assert_eq!(store.contains(ArchiveFile::Catalog), true);
    assert_eq!(store.contains(ArchiveFile::CommitLog), true);

    let replayer = ArchiveReplayerBuilder::new(storage_path)
        .metadata_log_path(metadata_path)
        .open(&store)
        .unwrap();

    for sequence in 1..=5u64 {
        let frame = replayer.read_at_sequence(&store, sequence).unwrap().unwrap();
        assert_eq!(frame.sequence, sequence);
        let decoded = decode_adapter_user_header(&frame.user_header).unwrap();
        assert_eq!(decoded.source_metadata.source_pattern, ArchiveSourcePattern::PublishSubscribe);
        assert_eq!(decoded.source_metadata.source_sequence, Some(sequence));
        assert_eq!(decoded.user_header.to_vec(), expected_headers[(sequence - 1) as usize].clone());
        assert_eq!(frame.payload, expected_payloads[(sequence - 1) as usize].clone());

        let by_locator = replayer
            .read_at_locator(&store, locators[(sequence - 1) as usize])
            .unwrap();
        assert_eq!(by_locator.sequence, sequence);
        assert_eq!(by_locator.payload, expected_payloads[(sequence - 1) as usize].clone());

        let mut buffer = ReplayFrameBuffer::new();
        replayer
            .read_at_locator_into(&store, locators[(sequence - 1) as usize], &mut buffer)
            .unwrap();
        let view = buffer.frame().unwrap();
        assert_eq!(view.sequence, sequence);
        assert_eq!(view.payload.to_vec(), expected_payloads[(sequence - 1) as usize].clone());
    }
}

#[test]
fn log_archive_publish_subscribe_adapter_preserves_source_metadata_and_payload() {
    let mut store = ArchiveStore::new();
    let storage_path = "archive";
    let metadata_path = "metadata";

    let mut recorder = ArchiveRecorderBuilder::new(storage_path)
        .metadata_log_path(metadata_path)
        .segment_bytes(4096)
        .segment_preallocate(false)
        .spare_preallocated_segments(0)
        .persistence_mode(PersistenceMode::Async)
        .checksum_mode(ChecksumMode::Crc32c)
        .create(&mut store, ring_available(), NOW_NS)
        .unwrap();

    let first = recorder
        .append_publish_subscribe_record(&mut store, PublishSubscribeRecordInput {
            event_time_ns: 10,
            source_service_id: 0xAA10,
            source_publisher_id: 0xBEEF,
            source_sequence: None,
            user_header: &[0x10, 0x11],
            payload: &[0xAB; 12],
        }, NOW_NS)
        .unwrap();
    assert_eq!(first.sequence, 1);

    let second = recorder
        .append_publish_subscribe_record(&mut store, PublishSubscribeRecordInput {
            event_time_ns: 20,
            source_service_id: 0xAA10,
            source_publisher_id: 0xBEEF,
            source_sequence: Some(777),
            user_header: &[0x22, 0x23, 0x24],
            payload: &[0xCD; 16],
        }, NOW_NS)
        .unwrap();
    assert_eq!(second.sequence, 2);

    recorder.finalize(&mut store, NOW_NS).unwrap();

    let replayer = ArchiveReplayerBuilder::new(storage_path)
        .metadata_log_path(metadata_path)
        .open(&store)
        .unwrap();
    let commits = replayer.inspect_commit_log_entries(&store, 1, 8);
    assert_eq!(commits.len(), 2);
    assert_eq!(commits[0].source_pattern, ArchiveSourcePattern::PublishSubscribe);
    assert_eq!(commits[0].event_time_ns, 10);
    assert_eq!(commits[0].source_service_id, 0xAA10);
    assert_eq!(commits[0].source_instance_id, 0xBEEF);
    assert_eq!(commits[0].source_sequence, None);
    assert_eq!(commits[1].source_sequence, Some(777));

    let first_frame = replayer.read_at_sequence(&store, 1).unwrap().unwrap();
    let first_decoded = decode_adapter_user_header(&first_frame.user_header).unwrap();
    assert_eq!(first_decoded.source_metadata.source_pattern, ArchiveSourcePattern::PublishSubscribe);
    assert_eq!(first_decoded.source_metadata.source_service_id, 0xAA10);
    assert_eq!(first_decoded.source_metadata.source_instance_id, 0xBEEF);
    assert_eq!(first_decoded.source_metadata.source_sequence, None);
    assert_eq!(first_decoded.user_header, &[0x10, 0x11]);
    assert_eq!(first_frame.payload, vec![0xAB; 12]);

    let second_frame = replayer.read_at_locator(&store, second.locator).unwrap();
    let second_decoded = decode_adapter_user_header(&second_frame.user_header).unwrap();
    assert_eq!(second_decoded.source_metadata.source_pattern, ArchiveSourcePattern::PublishSubscribe);
    assert_eq!(second_decoded.source_metadata.source_service_id, 0xAA10);
    assert_eq!(second_decoded.source_metadata.source_instance_id, 0xBEEF);
    assert_eq!(second_decoded.source_metadata.source_sequence, Some(777));
    assert_eq!(second_decoded.user_header, &[0x22, 0x23, 0x24]);
    assert_eq!(second_frame.payload, vec![0xCD; 16]);
}

#[test]
fn log_archive_external_payload_fast_path_persists_and_verifies_checksums() {
    let mut store = ArchiveStore::new();
    let storage_path = "archive";
    let metadata_path = "metadata";

    let mut recorder = ArchiveRecorderBuilder::new(storage_path)
        .metadata_log_path(metadata_path)
        .segment_bytes(4096)
        .segment_preallocate(false)
        .spare_preallocated_segments(0)
        .persistence_mode(PersistenceMode::Async)
        .async_io_backend(AsyncIoBackend::Blocking)
        .checksum_mode(ChecksumMode::Crc32c)
        .create(&mut store, ring_available(), NOW_NS)
        .unwrap();

    let payload_owner = (0..64).map(|value| value as u8).collect::<Vec<_>>();
    let commit = recorder
        .append_publish_subscribe_external_payload_record(
            &mut store,
            PublishSubscribeExternalPayloadInput {
                event_time_ns: 1234,
                source_service_id: 0xCAFE,
                source_publisher_id: 0xBEEF,
                source_sequence: Some(42),
                user_header: &[0xA0, 0xA1, 0xA2],
                payload_owner,
            },
            NOW_NS,
        )
        .unwrap();
    recorder.finalize(&mut store, NOW_NS).unwrap();

    let replayer = ArchiveReplayerBuilder::new(storage_path)
        .metadata_log_path(metadata_path)
        .open(&store)
        .unwrap();
    let frame = replayer.read_at_sequence(&store, commit.sequence).unwrap().unwrap();
    assert_eq!(frame.sequence, 1);
    assert_eq!(frame.payload, (0..64).map(|value| value as u8).collect::<Vec<_>>());
    assert_eq!(frame.frame_checksum == 0, false);
    let decoded = decode_adapter_user_header(&frame.user_header).unwrap();
    assert_eq!(decoded.user_header, &[0xA0, 0xA1, 0xA2]);
    assert_eq!(decoded.source_metadata.source_pattern, ArchiveSourcePattern::PublishSubscribe);
    assert_eq!(decoded.source_metadata.source_service_id, 0xCAFE);
    assert_eq!(decoded.source_metadata.source_instance_id, 0xBEEF);
    assert_eq!(decoded.source_metadata.source_sequence, Some(42));

    store
        .write_at(
            hot_data(commit.locator),
            commit.locator.file_offset + u64::from(commit.locator.frame_len) - 1,
            &[0xFF],
            "corrupt frame",
        )
        .unwrap();

    let corrupt_replayer = ArchiveReplayerBuilder::new(storage_path)
        .metadata_log_path(metadata_path)
        .open(&store)
        .unwrap();
    let error = corrupt_replayer
        .read_at_sequence(&store, commit.sequence)
        .unwrap_err();
    assert_eq!(matches!(error, ArchiveReplayError::ChecksumMismatch { .. }), true);
}

#[test]
fn log_archive_recorder_rolls_segments_and_persists_segment_meta() {
    let mut store = ArchiveStore::new();
    let storage_path = "archive";
    let metadata_path = "metadata";

    let mut recorder = ArchiveRecorderBuilder::new(storage_path)
        .metadata_log_path(metadata_path)
        .segment_bytes(256)
        .segment_preallocate(false)
        .spare_preallocated_segments(0)
        .persistence_mode(PersistenceMode::Async)
        .checksum_mode(ChecksumMode::Crc32c)
        .create(&mut store, ring_available(), NOW_NS)
        .unwrap();

    for sequence in 1..=12u64 {
        let user_header = vec![0xAB, sequence as u8];
        let payload = vec![sequence as u8; 16];
        recorder
            .append_log_record(&mut store, LogRecordInput {
                sequence,
                event_time_ns: sequence * 10,
                user_header: &user_header,
                payload: &payload,
            })
            .unwrap();
    }
    recorder.finalize(&mut store, NOW_NS).unwrap();

    let stats = recorder.stats();
    assert_eq!(stats.rolled_segments > 0, true);
    assert_eq!(
        store.contains(ArchiveFile::SegmentMeta {
            tier: ArchiveSegmentTier::HotAttached,
            segment_id: 1,
            segment_generation: 1,
        }),
        true
    );

    let replayer = ArchiveReplayerBuilder::new(storage_path)
        .metadata_log_path(metadata_path)
        .open(&store)
        .unwrap();
    let records = replayer
        .read_range(&store, 1, 12)
        .unwrap();
    assert_eq!(records.len(), 12);
    for (index, record) in records.iter().enumerate() {
        assert_eq!(record.sequence, (index + 1) as u64);
    }
}

#[test]
fn log_archive_replayer_detects_corrupted_payload_with_checksum() {
    let mut store = ArchiveStore::new();
    let storage_path = "archive";
    let metadata_path = "metadata";

    let mut recorder = ArchiveRecorderBuilder::new(storage_path)
        .metadata_log_path(metadata_path)
        .segment_bytes(1024)
        .segment_preallocate(false)
        .spare_preallocated_segments(0)
        .persistence_mode(PersistenceMode::Sync)
        .checksum_mode(ChecksumMode::Crc32c)
        .create(&mut store, ring_available(), NOW_NS)
        .unwrap();

    let commit = recorder
        .append_log_record(&mut store, LogRecordInput {
            sequence: 1,
            event_time_ns: 42,
            user_header: &[1, 2, 3, 4],
            payload: &[9, 8, 7, 6, 5, 4, 3, 2],
        })
        .unwrap();
    recorder.finalize(&mut store, NOW_NS).unwrap();

    store
        .write_at(
            hot_data(commit.locator),
            commit.locator.file_offset + 65,
            &[0xEE],
            "corrupt frame",
        )
        .unwrap();

    let replayer = ArchiveReplayerBuilder::new(storage_path)
        .metadata_log_path(metadata_path)
        .open(&store)
        .unwrap();
    let result = replayer.read_at_sequence(&store, 1);
    assert_eq!(matches!(
            result,
            Err(ArchiveReplayError::ChecksumMismatch {
                expected: _,
                actual: _,
                locator: _
            })
        ), true);
}

#[test]
fn log_archive_replayer_honors_replay_budget_limits() {
    let mut store = ArchiveStore::new();
    let storage_path = "archive";
    let metadata_path = "metadata";

    let mut recorder = ArchiveRecorderBuilder::new(storage_path)
        .metadata_log_path(metadata_path)
        .segment_bytes(2048)
        .segment_preallocate(false)
        .spare_preallocated_segments(0)
        .persistence_mode(PersistenceMode::Async)
        .checksum_mode(ChecksumMode::Crc32c)
        .create(&mut store, ring_available(), NOW_NS)
        .unwrap();

    let mut one_frame_len = 0usize;
    for sequence in 1..=8u64 {
        let commit = recorder
            .append_log_record(&mut store, LogRecordInput {
                sequence,
                event_time_ns: sequence * 100,
                user_header: &[0xAA, 0xBB],
                payload: &[0x11; 24],
            })
            .unwrap();
        if sequence == 1 {
            one_frame_len = commit.locator.frame_len as usize;
        }
    }
    recorder.finalize(&mut store, NOW_NS).unwrap();

    let mut replayer = ArchiveReplayerBuilder::new(storage_path)
        .metadata_log_path(metadata_path)
        .replay_budget(ReplayBudget {
            max_records_per_call: 3,
            max_bytes_per_call: one_frame_len * 2 + 8,
        })
        .open(&store)
        .unwrap();

    let range = replayer
        .read_range(&store, 1, 8)
        .unwrap();
    assert_eq!(range.len(), 2);

    replayer.seek(1);
    let batch = replayer.next_batch(&store, 8).unwrap();
    assert_eq!(batch.len(), 2);
}

#[test]
fn log_archive_ack_levels_expose_durable_positions_and_timeout_behavior() {
    let mut store = ArchiveStore::new();
    let storage_path = "archive";
    let metadata_path = "metadata";

    let mut recorder = ArchiveRecorderBuilder::new(storage_path)
        .metadata_log_path(metadata_path)
        .segment_bytes(2048)
        .segment_preallocate(false)
        .spare_preallocated_segments(0)
        .persistence_mode(PersistenceMode::Async)
        .checksum_mode(ChecksumMode::Crc32c)
        .create(&mut store, ring_available(), NOW_NS)
        .unwrap();

    assert_eq!(recorder.default_ack_level(), RecorderAckLevel::Accepted);
    assert_eq!(recorder.last_durable_data_sequence(), None);
    assert_eq!(recorder.last_durable_commit_ordinal(), None);

    let commit = recorder
        .append_log_record(&mut store, LogRecordInput {
            sequence: 1,
            event_time_ns: 11,
            user_header: &[0xAA],
            payload: &[0xBB; 16],
        })
        .unwrap();

    let timeout_result =
        recorder.wait_for_ack(&mut store, commit, RecorderAckLevel::DurableData, Duration::ZERO.as_nanos());
    assert_eq!(matches!(
            timeout_result,
            Err(ArchiveRecorderError::AckTimeout {
                requested: RecorderAckLevel::DurableData,
                ..
            })
        ), true);

    recorder
        .wait_for_ack(&mut store, commit,
            RecorderAckLevel::DurableData,
            Duration::from_millis(200).as_nanos(),
        )
        .unwrap();
    assert_eq!(recorder.last_durable_data_sequence(), Some(1));
    assert_eq!(recorder.last_durable_commit_ordinal(), None);

    recorder
        .wait_for_ack(&mut store, commit,
            RecorderAckLevel::DurableDataAndCommitLog,
            Duration::from_millis(200).as_nanos(),
        )
        .unwrap();
    assert_eq!(recorder.last_durable_data_sequence(), Some(1));
    assert_eq!(recorder.last_durable_commit_ordinal(), Some(1));

    let second = recorder
        .append_log_record_with_ack(&mut store, LogRecordInput {
                sequence: 2,
                event_time_ns: 22,
                user_header: &[0xAB],
                payload: &[0xCD; 16],
            },
            RecorderAckLevel::DurableDataAndCommitLog,
            Duration::from_millis(200),
        )
        .unwrap();
    assert_eq!(second.commit_ordinal, 2);
    assert_eq!(recorder.last_durable_data_sequence(), Some(2));
    assert_eq!(recorder.last_durable_commit_ordinal(), Some(2));
}

#[test]
fn log_archive_sync_mode_defaults_to_durable_data_ack() {
    let mut store = ArchiveStore::new();
    let storage_path = "archive";
    let metadata_path = "metadata";

    let mut recorder = ArchiveRecorderBuilder::new(storage_path)
        .metadata_log_path(metadata_path)
        .segment_bytes(2048)
        .segment_preallocate(false)
        .spare_preallocated_segments(0)
        .persistence_mode(PersistenceMode::Sync)
        .checksum_mode(ChecksumMode::Crc32c)
        .create(&mut store, ring_available(), NOW_NS)
        .unwrap();

    assert_eq!(recorder.default_ack_level(), RecorderAckLevel::DurableData);

    let commit = recorder
        .append_log_record(&mut store, LogRecordInput {
            sequence: 1,
            event_time_ns: 1,
            user_header: &[0x01],
            payload: &[0x02; 8],
        })
        .unwrap();
    assert_eq!(commit.commit_ordinal, 1);
    assert_eq!(recorder.last_durable_data_sequence(), Some(1));
    assert_eq!(recorder.last_durable_commit_ordinal(), Some(1));
}

#[test]
fn log_archive_ack_timeout_defaults_match_spec_contract() {
    assert_eq!(
        Duration::from_millis(DEFAULT_WAIT_DURABLE_DATA_TIMEOUT_MS),
        Duration::from_secs(1)
    );
    assert_eq!(
        Duration::from_millis(DEFAULT_WAIT_DURABLE_DATA_AND_COMMIT_LOG_TIMEOUT_MS),
        Duration::from_secs(2)
    );
    assert_eq!(
        Duration::from_millis(DEFAULT_ACK_POLL_INTERVAL_MS),
        Duration::from_millis(1)
    );
}

#[test]
fn log_archive_replayer_read_many_locators_preserves_input_order() {
    let mut store = ArchiveStore::new();
    let storage_path = "archive";
    let metadata_path = "metadata";

    let mut recorder = ArchiveRecorderBuilder::new(storage_path)
        .metadata_log_path(metadata_path)
        .segment_bytes(2048)
        .segment_preallocate(false)
        .spare_preallocated_segments(0)
        .persistence_mode(PersistenceMode::Async)
        .checksum_mode(ChecksumMode::Crc32c)
        .create(&mut store, ring_available(), NOW_NS)
        .unwrap();

    let mut commits = Vec::new();
    for sequence in 1..=5u64 {
        commits.push(
            recorder
                .append_log_record(&mut store, LogRecordInput {
                    sequence,
                    event_time_ns: sequence * 1000,
                    user_header: &[0x11, 0x22],
                    payload: &[sequence as u8; 12],
                })
                .unwrap(),
        );
    }
    recorder.finalize(&mut store, NOW_NS).unwrap();

    let replayer = ArchiveReplayerBuilder::new(storage_path)
        .metadata_log_path(metadata_path)
        .open(&store)
        .unwrap();
    let requested = vec![
        commits[3].locator,
        commits[0].locator,
        commits[4].locator,
        commits[1].locator,
    ];
    let replayed = replayer.read_many_locators(&store, &requested).unwrap();

    assert_eq!(replayed.len(), requested.len());
    assert_eq!(replayed[0].sequence, 4);
    assert_eq!(replayed[1].sequence, 1);
    assert_eq!(replayed[2].sequence, 5);
    assert_eq!(replayed[3].sequence, 2);
}

#[test]
fn log_archive_replayer_exposes_commit_log_entries_for_introspection() {
    let mut store = ArchiveStore::new();
    let storage_path = "archive";
    let metadata_path = "metadata";

    let mut recorder = ArchiveRecorderBuilder::new(storage_path)
        .metadata_log_path(metadata_path)
        .segment_bytes(2048)
        .segment_preallocate(false)
        .spare_preallocated_segments(0)
        .persistence_mode(PersistenceMode::Async)
        .checksum_mode(ChecksumMode::Crc32c)
        .create(&mut store, ring_available(), NOW_NS)
        .unwrap();

    for sequence in 1..=6u64 {
        recorder
            .append_log_record(&mut store, LogRecordInput {
                sequence,
                event_time_ns: sequence * 10,
                user_header: &[0x44, 0x55],
                payload: &[0x66; 16],
            })
            .unwrap();
    }
    recorder.finalize(&mut store, NOW_NS).unwrap();

    let replayer = ArchiveReplayerBuilder::new(storage_path)
        .metadata_log_path(metadata_path)
        .open(&store)
        .unwrap();
    let entries = replayer.inspect_commit_log_entries(&store, 3, 2);

    assert_eq!(entries.len(), 2);
    assert_eq!(entries[0].commit_ordinal, 3);
    assert_eq!(entries[0].sequence, 3);
    assert_eq!(entries[0].event_time_ns, 30);
    assert_eq!(entries[0].source_pattern, ArchiveSourcePattern::PublishSubscribe);
    assert_eq!(entries[0].source_sequence, Some(3));
    assert_eq!(entries[0].source_service_id, 1);
    assert_eq!(entries[0].source_instance_id, 1);
    assert_eq!(entries[0].hot_attached, true);
    assert_eq!(entries[1].commit_ordinal, 4);
    assert_eq!(entries[1].sequence, 4);
    assert_eq!(entries[1].event_time_ns, 40);
    assert_eq!(entries[1].source_pattern, ArchiveSourcePattern::PublishSubscribe);
    assert_eq!(entries[1].source_sequence, Some(4));
    assert_eq!(entries[1].hot_attached, true);
}

#[test]
fn log_archive_recorder_rejects_zero_io_uring_queue_depth() {
    let mut store = ArchiveStore::new();
    let storage_path = "archive";

    let result = ArchiveRecorderBuilder::new(storage_path)
        .io_uring_queue_depth(0)
        .create(&mut store, ring_available(), NOW_NS);

    assert_eq!(matches!(
            result,
            Err(ArchiveRecorderError::InvalidConfiguration(
                "io_uring_queue_depth must be > 0"
            ))
        ), true);
}

#[test]
fn log_archive_recorder_rejects_zero_segment_generation() {
    let mut store = ArchiveStore::new();
    let storage_path = "archive";

    let result = ArchiveRecorderBuilder::new(storage_path)
        .segment_generation(0)
        .create(&mut store, ring_available(), NOW_NS);

    assert_eq!(matches!(
            result,
            Err(ArchiveRecorderError::InvalidConfiguration(
                "segment_generation must be > 0"
            ))
        ), true);
}

#[test]
fn log_archive_recorder_supports_explicit_blocking_backend_selection() {
    let mut store = ArchiveStore::new();
    let storage_path = "archive";
    let metadata_path = "metadata";

    let mut recorder = ArchiveRecorderBuilder::new(storage_path)
        .metadata_log_path(metadata_path)
        .segment_bytes(1024)
        .segment_preallocate(false)
        .spare_preallocated_segments(0)
        .persistence_mode(PersistenceMode::Async)
        .async_io_backend(AsyncIoBackend::Blocking)
        .create(&mut store, ring_available(), NOW_NS)
        .unwrap();

    assert_eq!(recorder.configured_async_io_backend(), AsyncIoBackend::Blocking);
    assert_eq!(recorder.effective_async_io_backend(), EffectiveAsyncIoBackend::Blocking);

    recorder
        .append_log_record(&mut store, LogRecordInput {
            sequence: 1,
            event_time_ns: 1,
            user_header: &[0xAA],
            payload: &[0x01, 0x02, 0x03, 0x04],
        })
        .unwrap();
    recorder.finalize(&mut store, NOW_NS).unwrap();
}

#[test]
fn log_archive_recorder_reports_effective_backend_for_preferred_selection() {
    let mut store = ArchiveStore::new();
    let storage_path = "archive";

    let recorder = ArchiveRecorderBuilder::new(storage_path)
        .io_uring_queue_depth(1)
        .io_submit_batch_max(1)
        .io_cqe_batch_max(2)
        .create(&mut store, ring_available(), NOW_NS)
        .unwrap();
    assert_eq!(recorder.configured_async_io_backend(), AsyncIoBackend::IoUringPreferred);
    let expected = if ring_available() {
        EffectiveAsyncIoBackend::IoUring
    } else {
        EffectiveAsyncIoBackend::Blocking
    };
    assert_eq!(recorder.effective_async_io_backend(), expected);
}

#[test]
fn log_archive_replayer_reports_missing_segment_for_invalid_locator() {
    let mut store = ArchiveStore::new();
    let storage_path = "archive";
    let metadata_path = "metadata";

    let mut recorder = ArchiveRecorderBuilder::new(storage_path)
        .metadata_log_path(metadata_path)
        .segment_bytes(1024)
        .segment_preallocate(false)
        .spare_preallocated_segments(0)
        .persistence_mode(PersistenceMode::Async)
        .checksum_mode(ChecksumMode::Crc32c)
        .create(&mut store, ring_available(), NOW_NS)
        .unwrap();
    let commit = recorder
        .append_log_record(&mut store, LogRecordInput {
            sequence: 1,
            event_time_ns: 1,
            user_header: &[1],
            payload: &[2, 3, 4, 5],
        })
        .unwrap();
    recorder.finalize(&mut store, NOW_NS).unwrap();

    let replayer = ArchiveReplayerBuilder::new(storage_path)
        .metadata_log_path(metadata_path)
        .open(&store)
        .unwrap();
    let mut invalid = commit.locator;
    invalid.segment_id = commit.locator.segment_id + 999;

    let result = replayer.read_at_locator(&store, invalid);
    assert_eq!(matches!(result, Err(ArchiveReplayError::MissingSegment(_))), true);
}

#[test]
fn log_archive_replayer_rejects_zero_locator_generation() {
    let mut store = ArchiveStore::new();
    let storage_path = "archive";
    let metadata_path = "metadata";

    let mut recorder = ArchiveRecorderBuilder::new(storage_path)
        .metadata_log_path(metadata_path)
        .segment_bytes(1024)
        .segment_preallocate(false)
        .spare_preallocated_segments(0)
        .persistence_mode(PersistenceMode::Async)
        .checksum_mode(ChecksumMode::Crc32c)
        .create(&mut store, ring_available(), NOW_NS)
        .unwrap();
    let commit = recorder
        .append_log_record(&mut store, LogRecordInput {
            sequence: 1,
            event_time_ns: 1,
            user_header: &[1],
            payload: &[2, 3, 4, 5],
        })
        .unwrap();
    recorder.finalize(&mut store, NOW_NS).unwrap();

    let replayer = ArchiveReplayerBuilder::new(storage_path)
        .metadata_log_path(metadata_path)
        .open(&store)
        .unwrap();
    let mut invalid = commit.locator;
    invalid.segment_generation = 0;

    let single = replayer.read_at_locator(&store, invalid);
    assert_eq!(matches!(
            single,
            Err(ArchiveReplayError::InvalidConfiguration(
                "locator segment_generation must be > 0"
            ))
        ), true);

    let many = replayer.read_many_locators(&store, &[invalid]);
    assert_eq!(matches!(
            many,
            Err(ArchiveReplayError::InvalidConfiguration(
                "locator segment_generation must be > 0"
            ))
        ), true);
}

#[test]
fn log_archive_replayer_reports_invalid_frame_length_for_locator_bounds_mismatch() {
    let mut store = ArchiveStore::new();
    let storage_path = "archive";
    let metadata_path = "metadata";

    let mut recorder = ArchiveRecorderBuilder::new(storage_path)
        .metadata_log_path(metadata_path)
        .segment_bytes(1024)
        .segment_preallocate(false)
        .spare_preallocated_segments(0)
        .persistence_mode(PersistenceMode::Async)
        .checksum_mode(ChecksumMode::Crc32c)
        .create(&mut store, ring_available(), NOW_NS)
        .unwrap();
    let commit = recorder
        .append_log_record(&mut store, LogRecordInput {
            sequence: 1,
            event_time_ns: 99,
            user_header: &[0xAA],
            payload: &[0xBB; 9],
        })
        .unwrap();
    recorder.finalize(&mut store, NOW_NS).unwrap();

    let replayer = ArchiveReplayerBuilder::new(storage_path)
        .metadata_log_path(metadata_path)
        .open(&store)
        .unwrap();
    let mut invalid = commit.locator;
    invalid.frame_len += 8;

    let result = replayer.read_at_locator(&store, invalid);
    assert_eq!(matches!(
            result,
            Err(ArchiveReplayError::InvalidFrameLength {
                expected: _,
                decoded: _
            })
        ), true);
}

#[test]
fn log_archive_replayer_reads_entries_while_metadata_log_has_preallocated_zero_tail() {
    let mut store = ArchiveStore::new();
    let storage_path = "archive";
    let metadata_path = "metadata";

    let mut recorder = ArchiveRecorderBuilder::new(storage_path)
        .metadata_log_path(metadata_path)
        .segment_bytes(2048)
        .segment_preallocate(false)
        .spare_preallocated_segments(0)
        .metadata_log_preallocate_entries(8)
        .persistence_mode(PersistenceMode::Async)
        .checksum_mode(ChecksumMode::Crc32c)
        .create(&mut store, ring_available(), NOW_NS)
        .unwrap();

    for sequence in 1..=2u64 {
        recorder
            .append_log_record(&mut store, LogRecordInput {
                sequence,
                event_time_ns: sequence,
                user_header: &[0x10],
                payload: &[0x22; 8],
            })
            .unwrap();
    }
    recorder.flush(&store).unwrap();

    let commit_log_len = store.file_len(ArchiveFile::CommitLog).unwrap() as usize;
    let logical_bytes = ARCHIVE_FILE_HEADER_V1_LEN + (2 * 104);
    assert_eq!(commit_log_len > logical_bytes, true);

    let replayer = ArchiveReplayerBuilder::new(storage_path)
        .metadata_log_path(metadata_path)
        .open(&store)
        .unwrap();
    let frames = replayer
        .read_range(&store, 1, 8)
        .unwrap();
    assert_eq!(frames.len(), 2);
    assert_eq!(frames[0].sequence, 1);
    assert_eq!(frames[1].sequence, 2);
}

#[test]
fn log_archive_open_or_recover_recovers_unsealed_archive_and_continues() {
    let mut store = ArchiveStore::new();
    let storage_path = "archive";
    let metadata_path = "metadata";

    {
        let mut recorder = ArchiveRecorderBuilder::new(storage_path)
            .metadata_log_path(metadata_path)
            .segment_bytes(2048)
            .segment_preallocate(false)
            .spare_preallocated_segments(0)
            .persistence_mode(PersistenceMode::Async)
            .checksum_mode(ChecksumMode::Crc32c)
            .create(&mut store, ring_available(), NOW_NS)
            .unwrap();
        for sequence in 1..=3u64 {
            recorder
                .append_log_record(&mut store, LogRecordInput {
                    sequence,
                    event_time_ns: sequence * 10,
                    user_header: &[0x10, 0x20],
                    payload: &[sequence as u8; 12],
                })
                .unwrap();
        }
        recorder.flush(&store).unwrap();
    }

    let mut recovered = ArchiveRecorderBuilder::new(storage_path)
        .metadata_log_path(metadata_path)
        .segment_bytes(2048)
        .segment_preallocate(false)
        .spare_preallocated_segments(0)
        .persistence_mode(PersistenceMode::Async)
        .checksum_mode(ChecksumMode::Crc32c)
        .open_or_recover(&mut store, ring_available(), NOW_NS)
        .unwrap();
    let recovery_status = recovered.recovery_status();
    assert_eq!(recovery_status.recovered_existing_archive, true);
    assert_eq!(recovery_status.commit_entries_loaded, 3);

    recovered
        .append_log_record(&mut store, LogRecordInput {
            sequence: 4,
            event_time_ns: 40,
            user_header: &[0x33, 0x44],
            payload: &[0x55; 12],
        })
        .unwrap();
    recovered.finalize(&mut store, NOW_NS).unwrap();

    let replayer = ArchiveReplayerBuilder::new(storage_path)
        .metadata_log_path(metadata_path)
        .open(&store)
        .unwrap();
    let replayed = replayer
        .read_range(&store, 1, 8)
        .unwrap();
    assert_eq!(replayed.len(), 4);
    assert_eq!(replayed[0].sequence, 1);
    assert_eq!(replayed[1].sequence, 2);
    assert_eq!(replayed[2].sequence, 3);
    assert_eq!(replayed[3].sequence, 4);
}

#[test]
fn log_archive_create_auto_assigns_non_zero_log_id_consistently() {
    let mut store = ArchiveStore::new();
    let storage_path = "archive";
    let metadata_path = "metadata";

    let mut recorder = ArchiveRecorderBuilder::new(storage_path)
        .metadata_log_path(metadata_path)
        .segment_bytes(2048)
        .segment_preallocate(false)
        .spare_preallocated_segments(0)
        .persistence_mode(PersistenceMode::Async)
        .checksum_mode(ChecksumMode::Crc32c)
        .create(&mut store, ring_available(), NOW_NS)
        .unwrap();
    let commit = recorder
        .append_log_record(&mut store, LogRecordInput {
            sequence: 1,
            event_time_ns: 10,
            user_header: &[0x10],
            payload: &[0x20; 8],
        })
        .unwrap();
    recorder.finalize(&mut store, NOW_NS).unwrap();

    let catalog_header = read_archive_header(&store, ArchiveFile::Catalog);
    let commit_log_header = read_archive_header(&store, ArchiveFile::CommitLog);
    let segment_header = read_archive_header(&store, hot_data(commit.locator));

    assert_eq!(catalog_header.file_kind, ArchiveFileKind::Catalog);
    assert_eq!(commit_log_header.file_kind, ArchiveFileKind::CommitIdxLog);
    assert_eq!(segment_header.file_kind, ArchiveFileKind::SegmentData);
    assert_eq!(catalog_header.log_id == [0u8; 16], false);
    assert_eq!(catalog_header.log_id, commit_log_header.log_id);
    assert_eq!(catalog_header.log_id, segment_header.log_id);
}

#[test]
fn log_archive_open_or_recover_rejects_mismatched_catalog_and_commit_log_log_id() {
    let mut store = ArchiveStore::new();
    let storage_path = "archive";
    let metadata_path = "metadata";

    {
        let mut recorder = ArchiveRecorderBuilder::new(storage_path)
            .metadata_log_path(metadata_path)
            .segment_bytes(2048)
            .segment_preallocate(false)
            .spare_preallocated_segments(0)
            .persistence_mode(PersistenceMode::Async)
            .checksum_mode(ChecksumMode::Crc32c)
            .create(&mut store, ring_available(), NOW_NS)
            .unwrap();
        recorder
            .append_log_record(&mut store, LogRecordInput {
                sequence: 1,
                event_time_ns: 10,
                user_header: &[0x10],
                payload: &[0x20; 8],
            })
            .unwrap();
        recorder.finalize(&mut store, NOW_NS).unwrap();
    }

    let catalog_header = read_archive_header(&store, ArchiveFile::Catalog);
    rewrite_archive_header_log_id(
        &mut store,
        ArchiveFile::CommitLog,
        ArchiveFileKind::CommitIdxLog,
        different_log_id(catalog_header.log_id),
    );

    let result = ArchiveRecorderBuilder::new(storage_path)
        .metadata_log_path(metadata_path)
        .segment_bytes(2048)
        .segment_preallocate(false)
        .spare_preallocated_segments(0)
        .persistence_mode(PersistenceMode::Async)
        .checksum_mode(ChecksumMode::Crc32c)
        .open_or_recover(&mut store, ring_available(), NOW_NS);
    assert_eq!(matches!(
            result,
            Err(ArchiveRecorderError::RecoveryInconsistent(
                "archive log_id mismatch between catalog.bin and commit.idxlog"
            ))
        ), true);
}

#[test]
fn log_archive_open_or_recover_rejects_configured_log_id_mismatch() {
    let mut store = ArchiveStore::new();
    let storage_path = "archive";
    let metadata_path = "metadata";

    {
        let mut recorder = ArchiveRecorderBuilder::new(storage_path)
            .metadata_log_path(metadata_path)
            .segment_bytes(2048)
            .segment_preallocate(false)
            .spare_preallocated_segments(0)
            .persistence_mode(PersistenceMode::Async)
            .checksum_mode(ChecksumMode::Crc32c)
            .create(&mut store, ring_available(), NOW_NS)
            .unwrap();
        recorder
            .append_log_record(&mut store, LogRecordInput {
                sequence: 1,
                event_time_ns: 10,
                user_header: &[0x10],
                payload: &[0x20; 8],
            })
            .unwrap();
        recorder.finalize(&mut store, NOW_NS).unwrap();
    }

    let catalog_header = read_archive_header(&store, ArchiveFile::Catalog);
    let result = ArchiveRecorderBuilder::new(storage_path)
        .metadata_log_path(metadata_path)
        .segment_bytes(2048)
        .segment_preallocate(false)
        .spare_preallocated_segments(0)
        .persistence_mode(PersistenceMode::Async)
        .checksum_mode(ChecksumMode::Crc32c)
        .log_id(different_log_id(catalog_header.log_id))
        .open_or_recover(&mut store, ring_available(), NOW_NS);
    assert_eq!(matches!(
            result,
            Err(ArchiveRecorderError::RecoveryInconsistent(
                "configured log_id does not match existing archive log_id"
            ))
        ), true);
}

#[test]
fn log_archive_open_or_recover_supports_sync_mode_restart() {
    let mut store = ArchiveStore::new();
    let storage_path = "archive";
    let metadata_path = "metadata";

    {
        let mut recorder = ArchiveRecorderBuilder::new(storage_path)
            .metadata_log_path(metadata_path)
            .segment_bytes(2048)
            .segment_preallocate(false)
            .spare_preallocated_segments(0)
            .persistence_mode(PersistenceMode::Sync)
            .checksum_mode(ChecksumMode::Crc32c)
            .create(&mut store, ring_available(), NOW_NS)
            .unwrap();
        recorder
            .append_log_record(&mut store, LogRecordInput {
                sequence: 1,
                event_time_ns: 11,
                user_header: &[0x44, 0x55],
                payload: &[0x66; 12],
            })
            .unwrap();
    }

    let mut recovered = ArchiveRecorderBuilder::new(storage_path)
        .metadata_log_path(metadata_path)
        .segment_bytes(2048)
        .segment_preallocate(false)
        .spare_preallocated_segments(0)
        .persistence_mode(PersistenceMode::Sync)
        .checksum_mode(ChecksumMode::Crc32c)
        .open_or_recover(&mut store, ring_available(), NOW_NS)
        .unwrap();
    let recovery_status = recovered.recovery_status();
    assert_eq!(recovery_status.recovered_existing_archive, true);
    assert_eq!(recovery_status.commit_entries_loaded, 1);

    recovered
        .append_log_record(&mut store, LogRecordInput {
            sequence: 2,
            event_time_ns: 22,
            user_header: &[0x77, 0x88],
            payload: &[0x99; 12],
        })
        .unwrap();
    recovered.finalize(&mut store, NOW_NS).unwrap();

    let replayer = ArchiveReplayerBuilder::new(storage_path)
        .metadata_log_path(metadata_path)
        .open(&store)
        .unwrap();
    let replayed = replayer
        .read_range(&store, 1, 4)
        .unwrap();
    assert_eq!(replayed.len(), 2);
    assert_eq!(replayed[0].sequence, 1);
    assert_eq!(replayed[1].sequence, 2);
}

#[test]
fn log_archive_open_or_recover_truncates_active_segment_corrupted_tail() {
    let mut store = ArchiveStore::new();
    let storage_path = "archive";
    let metadata_path = "metadata";

    let segment_path = {
        let mut recorder = ArchiveRecorderBuilder::new(storage_path)
            .metadata_log_path(metadata_path)
            .segment_bytes(2048)
            .segment_preallocate(false)
            .spare_preallocated_segments(0)
            .persistence_mode(PersistenceMode::Async)
            .checksum_mode(ChecksumMode::Crc32c)
            .create(&mut store, ring_available(), NOW_NS)
            .unwrap();
        let commit = recorder
            .append_log_record(&mut store, LogRecordInput {
                sequence: 1,
                event_time_ns: 10,
                user_header: &[0x10],
                payload: &[0x22; 8],
            })
            .unwrap();
        recorder.flush(&store).unwrap();
        hot_data(commit.locator)
    };

    let end = store.file_len(segment_path).unwrap();
    store
        .write_at(
            segment_path,
            end,
            &[0xAA, 0xBB, 0xCC, 0xDD, 0xEE, 0x01, 0x02],
            "damage tail",
        )
        .unwrap();

    let mut recovered = ArchiveRecorderBuilder::new(storage_path)
        .metadata_log_path(metadata_path)
        .segment_bytes(2048)
        .segment_preallocate(false)
        .spare_preallocated_segments(0)
        .persistence_mode(PersistenceMode::Async)
        .checksum_mode(ChecksumMode::Crc32c)
        .open_or_recover(&mut store, ring_available(), NOW_NS)
        .unwrap();
    let recovery_status = recovered.recovery_status();
    assert_eq!(recovery_status.segment_truncated_bytes > 0, true);

    recovered
        .append_log_record(&mut store, LogRecordInput {
            sequence: 2,
            event_time_ns: 20,
            user_header: &[0x11],
            payload: &[0x33; 8],
        })
        .unwrap();
    recovered.finalize(&mut store, NOW_NS).unwrap();

    let replayer = ArchiveReplayerBuilder::new(storage_path)
        .metadata_log_path(metadata_path)
        .open(&store)
        .unwrap();
    let replayed = replayer
        .read_range(&store, 1, 4)
        .unwrap();
    assert_eq!(replayed.len(), 2);
    assert_eq!(replayed[0].sequence, 1);
    assert_eq!(replayed[1].sequence, 2);
}

#[test]
fn log_archive_open_or_recover_truncates_partial_commit_log_tail() {
    let mut store = ArchiveStore::new();
    let storage_path = "archive";
    let metadata_path = "metadata";

    {
        let mut recorder = ArchiveRecorderBuilder::new(storage_path)
            .metadata_log_path(metadata_path)
            .segment_bytes(2048)
            .segment_preallocate(false)
            .spare_preallocated_segments(0)
            .persistence_mode(PersistenceMode::Async)
            .checksum_mode(ChecksumMode::Crc32c)
            .create(&mut store, ring_available(), NOW_NS)
            .unwrap();
        recorder
            .append_log_record(&mut store, LogRecordInput {
                sequence: 1,
                event_time_ns: 5,
                user_header: &[0x01],
                payload: &[0x02; 8],
            })
            .unwrap();
        recorder.flush(&store).unwrap();
    }

    let end = store.file_len(ArchiveFile::CommitLog).unwrap();
    store
        .write_at(
            ArchiveFile::CommitLog,
            end,
            &[0xDE, 0xAD, 0xBE, 0xEF, 0xFA],
            "damage tail",
        )
        .unwrap();

    let mut recovered = ArchiveRecorderBuilder::new(storage_path)
        .metadata_log_path(metadata_path)
        .segment_bytes(2048)
        .segment_preallocate(false)
        .spare_preallocated_segments(0)
        .persistence_mode(PersistenceMode::Async)
        .checksum_mode(ChecksumMode::Crc32c)
        .open_or_recover(&mut store, ring_available(), NOW_NS)
        .unwrap();
    let recovery_status = recovered.recovery_status();
    assert_eq!(recovery_status.commit_log_truncated_bytes > 0, true);
    assert_eq!(recovery_status.commit_entries_loaded, 1);

    recovered
        .append_log_record(&mut store, LogRecordInput {
            sequence: 2,
            event_time_ns: 6,
            user_header: &[0x03],
            payload: &[0x04; 8],
        })
        .unwrap();
    recovered.finalize(&mut store, NOW_NS).unwrap();

    let replayer = ArchiveReplayerBuilder::new(storage_path)
        .metadata_log_path(metadata_path)
        .open(&store)
        .unwrap();
    let replayed = replayer
        .read_range(&store, 1, 4)
        .unwrap();
    assert_eq!(replayed.len(), 2);
    assert_eq!(replayed[0].sequence, 1);
    assert_eq!(replayed[1].sequence, 2);
}

#[test]
fn log_archive_open_or_recover_loads_catalog_from_rolled_segments() {
    let mut store = ArchiveStore::new();
    let storage_path = "archive";
    let metadata_path = "metadata";

    {
        let mut recorder = ArchiveRecorderBuilder::new(storage_path)
            .metadata_log_path(metadata_path)
            .segment_bytes(256)
            .segment_preallocate(false)
            .spare_preallocated_segments(0)
            .persistence_mode(PersistenceMode::Async)
            .checksum_mode(ChecksumMode::Crc32c)
            .create(&mut store, ring_available(), NOW_NS)
            .unwrap();
        for sequence in 1..=12u64 {
            recorder
                .append_log_record(&mut store, LogRecordInput {
                    sequence,
                    event_time_ns: sequence * 2,
                    user_header: &[0x21, 0x22],
                    payload: &[sequence as u8; 16],
                })
                .unwrap();
        }
        recorder.flush(&store).unwrap();
    }

    let recovered = ArchiveRecorderBuilder::new(storage_path)
        .metadata_log_path(metadata_path)
        .segment_bytes(256)
        .segment_preallocate(false)
        .spare_preallocated_segments(0)
        .persistence_mode(PersistenceMode::Async)
        .checksum_mode(ChecksumMode::Crc32c)
        .open_or_recover(&mut store, ring_available(), NOW_NS)
        .unwrap();
    let recovery_status = recovered.recovery_status();
    assert_eq!(recovery_status.catalog_segments_loaded > 0, true);
    assert_eq!(recovery_status.recovered_existing_archive, true);
}

#[test]
fn log_archive_volatile_mode_avoids_disk_artifacts() {
    let mut store = ArchiveStore::new();
    let storage_path = "volatile_archive";

    let mut recorder = ArchiveRecorderBuilder::new(storage_path)
        .persistence_mode(PersistenceMode::Volatile)
        .create(&mut store, ring_available(), NOW_NS)
        .unwrap();

    recorder
        .append_log_record(&mut store, LogRecordInput {
            sequence: 1,
            event_time_ns: 0,
            user_header: &[1],
            payload: &[2, 3, 4],
        })
        .unwrap();
    recorder.finalize(&mut store, NOW_NS).unwrap();

    assert_eq!(store.files().is_empty(), true);
    assert_eq!(store.directory_exists(ArchiveDirectory::Storage), false);

    let replay_open = ArchiveReplayerBuilder::new(storage_path).open(&store);
    assert_eq!(matches!(replay_open, Err(ArchiveReplayError::MissingCommitLog(_))), true);
}

fn write_rolled_archive(
    store: &mut ArchiveStore,
    storage_path: &str,
    metadata_path: &str,
    max_disk_bytes: Option<u64>,
    records: u64,
) -> ArchiveRecorder {
    let mut builder = ArchiveRecorderBuilder::new(storage_path)
        .metadata_log_path(metadata_path)
        .segment_bytes(256)
        .segment_preallocate(false)
        .spare_preallocated_segments(0)
        .persistence_mode(PersistenceMode::Async)
        .checksum_mode(ChecksumMode::Crc32c);
    if let Some(value) = max_disk_bytes {
        builder = builder.max_disk_bytes(value);
    }

    let mut recorder = builder.create(store, ring_available(), NOW_NS).unwrap();
    for sequence in 1..=records {
        recorder
            .append_log_record(store, LogRecordInput {
                sequence,
                event_time_ns: sequence * 100,
                user_header: &[0xA1, 0xB2],
                payload: &[sequence as u8; 32],
            })
            .unwrap();
    }
    recorder.finalize(store, NOW_NS).unwrap();
    recorder
}

#[test]
fn log_archive_retention_arbiter_is_deterministic_for_equivalent_inputs() {
    let mut store_a = ArchiveStore::new();
    let mut store_b = ArchiveStore::new();
    let cap = 560u64;

    let recorder_a = write_rolled_archive(
        &mut store_a,
        "archive_a",
        "metadata_a",
        Some(cap),
        12,
    );
    let recorder_b = write_rolled_archive(
        &mut store_b,
        "archive_b",
        "metadata_b",
        Some(cap),
        12,
    );

    let status_a = recorder_a.retention_status(&store_a).unwrap();
    let status_b = recorder_b.retention_status(&store_b).unwrap();
    assert_eq!(status_a.retained_bytes_total <= cap, true);
    assert_eq!(status_b.retained_bytes_total <= cap, true);

    let remaining_a: Vec<(u64, u32)> = recorder_a
        .list_segments(&store_a)
        .unwrap()
        .into_iter()
        .map(|segment| (segment.segment_id, segment.segment_generation))
        .collect();
    let remaining_b: Vec<(u64, u32)> = recorder_b
        .list_segments(&store_b)
        .unwrap()
        .into_iter()
        .map(|segment| (segment.segment_id, segment.segment_generation))
        .collect();

    assert_eq!(remaining_a.is_empty(), false);
    assert_eq!(remaining_a, remaining_b);
}

#[test]
fn log_archive_detach_attach_delete_lifecycle_is_idempotent() {
    let mut store = ArchiveStore::new();
    let storage_path = "archive";
    let metadata_path = "metadata";

    let mut recorder = write_rolled_archive(&mut store, storage_path, metadata_path, None, 6);
    let initial_segments = recorder.list_segments(&store).unwrap();
    assert_eq!(initial_segments.is_empty(), false);

    let detached_once = recorder.detach_before_sequence(&mut store, u64::MAX).unwrap();
    let detached_twice = recorder.detach_before_sequence(&mut store, u64::MAX).unwrap();
    assert_eq!(detached_once, initial_segments.len() as u64);
    assert_eq!(detached_twice, 0);

    let status_detached = recorder.retention_status(&store).unwrap();
    assert_eq!(status_detached.segments_hot_attached, 0);
    assert_eq!(status_detached.segments_cold_detached, initial_segments.len());

    let attached_once = recorder.attach_all_detached(&mut store).unwrap();
    let attached_twice = recorder.attach_all_detached(&mut store).unwrap();
    assert_eq!(attached_once, initial_segments.len() as u64);
    assert_eq!(attached_twice, 0);

    let _ = recorder.detach_before_sequence(&mut store, u64::MAX).unwrap();
    let deleted_once = recorder.delete_detached_before_sequence(&mut store, u64::MAX).unwrap();
    let deleted_twice = recorder.delete_detached_before_sequence(&mut store, u64::MAX).unwrap();
    assert_eq!(deleted_once, initial_segments.len() as u64);
    assert_eq!(deleted_twice, 0);

    let status_deleted = recorder.retention_status(&store).unwrap();
    assert_eq!(status_deleted.segments_hot_attached, 0);
    assert_eq!(status_deleted.segments_cold_detached, 0);
    assert_eq!(status_deleted.retained_bytes_total, 0);
}

#[test]
fn log_archive_trim_respects_replay_snapshot_pins() {
    let mut store = ArchiveStore::new();
    let storage_path = "archive";
    let metadata_path = "metadata";

    let mut recorder = write_rolled_archive(&mut store, storage_path, metadata_path, None, 5);
    let replayer = ArchiveReplayerBuilder::new(storage_path)
        .metadata_log_path(metadata_path)
        .open(&store)
        .unwrap();
    let snapshot = replayer.begin_snapshot(&mut store, NOW_NS).unwrap();

    let pinned_before_trim = recorder
        .list_segments(&store)
        .unwrap()
        .iter()
        .all(|segment| segment.pinned);
    assert_eq!(pinned_before_trim, true);

    let trimmed_with_pin = recorder.trim_before_sequence(&mut store, u64::MAX).unwrap();
    assert_eq!(trimmed_with_pin, 0);
    assert_eq!(recorder.list_segments(&store).unwrap().is_empty(), false);

    replayer.release_snapshot(&mut store, snapshot).unwrap();
    let trimmed_after_release = recorder.trim_before_sequence(&mut store, u64::MAX).unwrap();
    assert_eq!(trimmed_after_release > 0, true);
    assert_eq!(recorder.list_segments(&store).unwrap().is_empty(), true);
}

#[test]
fn log_archive_replayer_returns_none_for_trimmed_sequences() {
    let mut store = ArchiveStore::new();
    let storage_path = "archive";
    let metadata_path = "metadata";

    let mut recorder = write_rolled_archive(&mut store, storage_path, metadata_path, None, 4);
    let trimmed = recorder.trim_before_sequence(&mut store, u64::MAX).unwrap();
    assert_eq!(trimmed > 0, true);

    let replayer = ArchiveReplayerBuilder::new(storage_path)
        .metadata_log_path(metadata_path)
        .open(&store)
        .unwrap();
    let replayed = replayer.read_at_sequence(&store, 1).unwrap();
    assert_eq!(replayed.is_none(), true);
}

#[test]
fn log_archive_capacity_enforcement_holds_under_sustained_ingest() {
    let mut store = ArchiveStore::new();
    let storage_path = "archive";
    let metadata_path = "metadata";
    let cap = 700u64;

    let recorder = write_rolled_archive(&mut store, storage_path, metadata_path, Some(cap), 100);
    let status = recorder.retention_status(&store).unwrap();
    assert_eq!(status.retained_bytes_total <= cap, true);
    assert_eq!(status.retained_bytes_hot_attached + status.retained_bytes_cold_detached, status.retained_bytes_total);

    let remaining = recorder.list_segments(&store).unwrap();
    assert_eq!(remaining.is_empty(), false);
    let oldest_retained = remaining
        .iter()
        .map(|segment| segment.sequence_start)
        .min()
        .unwrap();
    assert_eq!(oldest_retained > 1, true);
    let all_hot = remaining
        .iter()
        .all(|segment| segment.tier == ArchiveSegmentTier::HotAttached);
    assert_eq!(all_hot, true);
}
