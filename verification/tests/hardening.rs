use log_archive::config::ArchiveRecorderBuilder;
use log_archive::error::ArchiveRecorderError;
use log_archive::recorder::ArchiveRecorder;
use log_archive::replayer::ArchiveReplayerBuilder;
use log_archive::store::ArchiveStore;
use log_archive::types::{
    AsyncIoBackend, ChecksumMode, EffectiveAsyncIoBackend, PersistenceMode,
    PublishSubscribeRecordInput, RecordedCommit, RecorderProfile, ReplayBudget,
};

type ReplayedRecord = (u64, Vec<u8>, Vec<u8>);
type RecordAndReplayResult = (EffectiveAsyncIoBackend, Vec<ReplayedRecord>);

const NOW_NS: u64 = 1_700_000_000_000_000_000;

fn ring_available() -> bool {
    io_uring::IoUring::new(1).is_ok()
}

#[derive(Debug, Clone, Copy)]
struct LogRecordInput<'a> {
    sequence: u64,
    event_time_ns: u64,
    user_header: &'a [u8],
    payload: &'a [u8],
}

trait LogAppend {
    fn append_log_record(
        &mut self,
        store: &mut ArchiveStore,
        input: LogRecordInput<'_>,
    ) -> Result<RecordedCommit, ArchiveRecorderError>;
}

impl LogAppend for ArchiveRecorder {
    fn append_log_record(
        &mut self,
        store: &mut ArchiveStore,
        input: LogRecordInput<'_>,
    ) -> Result<RecordedCommit, ArchiveRecorderError> {
        self.append_publish_subscribe_record(
            store,
            PublishSubscribeRecordInput {
                event_time_ns: input.event_time_ns,
                source_service_id: 1,
                source_publisher_id: 1,
                source_sequence: Some(input.sequence),
                user_header: input.user_header,
                payload: input.payload,
            },
            NOW_NS,
        )
    }
}

fn payload_byte(sequence: u64, index: usize) -> u8 {
    let seed = (sequence as u8).wrapping_mul(31).wrapping_add(17);
    seed.wrapping_add(index as u8)
}

fn fill_payload(sequence: u64, payload: &mut [u8]) {
    for (index, byte) in payload.iter_mut().enumerate() {
        *byte = payload_byte(sequence, index);
    }
}

fn record_and_replay(
    storage_path: &str,
    metadata_path: &str,
    backend: AsyncIoBackend,
    records: u64,
    payload_len: usize,
) -> RecordAndReplayResult {
    let mut store = ArchiveStore::new();
    let mut recorder = ArchiveRecorderBuilder::new(storage_path)
        .metadata_log_path(metadata_path)
        .profile(RecorderProfile::Throughput)
        .segment_bytes(256 * 1024)
        .segment_preallocate(true)
        .spare_preallocated_segments(2)
        .persistence_mode(PersistenceMode::Async)
        .checksum_mode(ChecksumMode::Crc32c)
        .async_io_backend(backend)
        .io_uring_queue_depth(256)
        .io_submit_batch_max(64)
        .io_cqe_batch_max(128)
        .create(&mut store, ring_available(), NOW_NS)
        .unwrap();
    let effective_backend = recorder.effective_async_io_backend();

    let mut payload = vec![0u8; payload_len];
    for sequence in 1..=records {
        fill_payload(sequence, &mut payload);
        let user_header = [sequence as u8, (sequence >> 8) as u8, 0xAA, 0x55];
        recorder
            .append_log_record(&mut store, LogRecordInput {
                sequence,
                event_time_ns: sequence * 100,
                user_header: &user_header,
                payload: &payload,
            })
            .unwrap();
    }
    recorder.finalize(&mut store, NOW_NS).unwrap();

    let replayer = ArchiveReplayerBuilder::new(storage_path)
        .metadata_log_path(metadata_path)
        .open(&store)
        .unwrap();
    let replayed = replayer
        .read_range(&store, 1, records as usize)
        .unwrap()
        .into_iter()
        .map(|frame| (frame.sequence, frame.user_header, frame.payload))
        .collect();

    (effective_backend, replayed)
}

#[test]
fn log_archive_phase6_io_uring_required_selection_is_deterministic() {
    let mut store = ArchiveStore::new();
    let storage_path = "archive";
    let metadata_path = "metadata";

    let result = ArchiveRecorderBuilder::new(storage_path)
        .metadata_log_path(metadata_path)
        .segment_bytes(1024)
        .segment_preallocate(false)
        .spare_preallocated_segments(0)
        .persistence_mode(PersistenceMode::Async)
        .async_io_backend(AsyncIoBackend::IoUringRequired)
        .io_uring_queue_depth(8)
        .io_submit_batch_max(8)
        .io_cqe_batch_max(16)
        .create(&mut store, ring_available(), NOW_NS);

    let io_uring_available = io_uring::IoUring::new(8).is_ok();
    match (io_uring_available, result) {
        (true, Ok(recorder)) => {
            assert_eq!(recorder.effective_async_io_backend(), EffectiveAsyncIoBackend::IoUring);
        }
        (false, Err(ArchiveRecorderError::InvalidConfiguration(message))) => {
            assert_eq!(message, "io_uring backend required but unavailable");
        }
        (true, Err(error)) => {
            panic!("expected io_uring required backend creation to succeed, got {error:?}");
        }
        (false, Ok(_)) => {
            panic!("expected io_uring required backend creation to fail when unavailable");
        }
        (_, Err(error)) => {
            panic!("unexpected error for io_uring required backend: {error:?}");
        }
    }
}

#[test]
fn log_archive_phase6_backend_parity_between_blocking_and_io_uring() {
    if io_uring::IoUring::new(8).is_err() {
        return;
    }

    let records = 768u64;
    let payload_len = 1536usize;

    let (blocking_backend, blocking_replay) = record_and_replay(
        "archive_blocking",
        "metadata_blocking",
        AsyncIoBackend::Blocking,
        records,
        payload_len,
    );
    let (io_uring_backend, io_uring_replay) = record_and_replay(
        "archive_io_uring",
        "metadata_io_uring",
        AsyncIoBackend::IoUringRequired,
        records,
        payload_len,
    );

    assert_eq!(blocking_backend, EffectiveAsyncIoBackend::Blocking);
    assert_eq!(io_uring_backend, EffectiveAsyncIoBackend::IoUring);
    assert_eq!(io_uring_replay, blocking_replay);
}

#[test]
fn log_archive_phase6_sustained_ingest_soak_preserves_integrity() {
    let mut store = ArchiveStore::new();
    let storage_path = "archive";
    let metadata_path = "metadata";
    let record_count = 4096u64;
    let payload_len = 2048usize;

    let backend = if io_uring::IoUring::new(32).is_ok() {
        AsyncIoBackend::IoUringRequired
    } else {
        AsyncIoBackend::Blocking
    };

    let mut recorder = ArchiveRecorderBuilder::new(storage_path)
        .metadata_log_path(metadata_path)
        .profile(RecorderProfile::Throughput)
        .segment_bytes(2 * 1024 * 1024)
        .segment_preallocate(true)
        .spare_preallocated_segments(2)
        .persistence_mode(PersistenceMode::Async)
        .checksum_mode(ChecksumMode::Crc32c)
        .async_io_backend(backend)
        .io_uring_queue_depth(256)
        .io_submit_batch_max(64)
        .io_cqe_batch_max(128)
        .create(&mut store, ring_available(), NOW_NS)
        .unwrap();

    let mut payload = vec![0u8; payload_len];
    for sequence in 1..=record_count {
        fill_payload(sequence, &mut payload);
        let user_header = [sequence as u8, (sequence >> 8) as u8, 0x5A, 0xA5];
        recorder
            .append_log_record(&mut store, LogRecordInput {
                sequence,
                event_time_ns: sequence * 10,
                user_header: &user_header,
                payload: &payload,
            })
            .unwrap();
    }
    recorder.finalize(&mut store, NOW_NS).unwrap();

    let stats = recorder.stats();
    assert_eq!(stats.committed_records, record_count);
    assert_eq!(stats.payload_bytes_committed, record_count * payload_len as u64);

    let replayer = ArchiveReplayerBuilder::new(storage_path)
        .metadata_log_path(metadata_path)
        .replay_budget(ReplayBudget {
            max_records_per_call: record_count as usize,
            max_bytes_per_call: (record_count as usize) * (payload_len + 512),
        })
        .open(&store)
        .unwrap();
    let replayed = replayer
        .read_range(&store, 1, record_count as usize)
        .unwrap();

    assert_eq!(replayed.len(), record_count as usize);

    for (index, frame) in replayed.iter().enumerate().step_by(257) {
        let sequence = index as u64 + 1;
        assert_eq!(frame.sequence, sequence);
        assert_eq!(frame.payload.len(), payload_len);
        assert_eq!(frame.payload[0], payload_byte(sequence, 0));
        assert_eq!(frame.payload[payload_len / 2], payload_byte(sequence, payload_len / 2));
        assert_eq!(frame.payload[payload_len - 1], payload_byte(sequence, payload_len - 1));
    }

    let last = replayed.last().unwrap();
    assert_eq!(last.sequence, record_count);
    assert_eq!(last.payload[0], payload_byte(record_count, 0));
    assert_eq!(last.payload[payload_len - 1], payload_byte(record_count, payload_len - 1));
}

#[test]
fn log_archive_phase6_replay_budget_isolates_ingest_progress_under_concurrent_replay() {
    let mut store = ArchiveStore::new();
    let storage_path = "archive";
    let metadata_path = "metadata";

    let mut recorder = ArchiveRecorderBuilder::new(storage_path)
        .metadata_log_path(metadata_path)
        .profile(RecorderProfile::Throughput)
        .segment_bytes(2 * 1024 * 1024)
        .segment_preallocate(true)
        .spare_preallocated_segments(2)
        .persistence_mode(PersistenceMode::Async)
        .checksum_mode(ChecksumMode::Crc32c)
        .async_io_backend(AsyncIoBackend::Blocking)
        .create(&mut store, ring_available(), NOW_NS)
        .unwrap();

    let payload = vec![0x5A; 2048];
    for sequence in 1..=256u64 {
        recorder
            .append_log_record(&mut store, LogRecordInput {
                sequence,
                event_time_ns: sequence * 10,
                user_header: &[0x10, 0x11],
                payload: &payload,
            })
            .unwrap();
    }
    recorder.flush(&store).unwrap();

    let replayer = ArchiveReplayerBuilder::new(storage_path)
        .metadata_log_path(metadata_path)
        .replay_budget(ReplayBudget {
            max_records_per_call: 8,
            max_bytes_per_call: 64 * 1024,
        })
        .open(&store)
        .unwrap();
    let mut replay_iterations = 0usize;

    let mut last_commit = None;
    for sequence in 257..=2048u64 {
        last_commit = Some(
            recorder
                .append_log_record(&mut store, LogRecordInput {
                    sequence,
                    event_time_ns: sequence * 10,
                    user_header: &[0x20, 0x21],
                    payload: &payload,
                })
                .unwrap(),
        );
        if sequence % 16 == 0 {
            let batch = replayer.read_range(&store, 1, 512).unwrap();
            assert!(batch.len() <= 8);
            replay_iterations += 1;
        }
    }

    assert_eq!(replay_iterations > 0, true);

    recorder
        .wait_for_durable_data_and_commit_log(&mut store, last_commit.unwrap())
        .unwrap();
    recorder.finalize(&mut store, NOW_NS).unwrap();

    let stats = recorder.stats();
    assert_eq!(stats.committed_records, 2048);
    assert_eq!(recorder.last_durable_data_sequence(), Some(2048));
    assert_eq!(recorder.last_durable_commit_ordinal(), Some(2048));

    let replayer = ArchiveReplayerBuilder::new(storage_path)
        .metadata_log_path(metadata_path)
        .replay_budget(ReplayBudget {
            max_records_per_call: 4096,
            max_bytes_per_call: 4096 * 4096,
        })
        .open(&store)
        .unwrap();
    let replayed = replayer
        .read_range(&store, 1, 2048)
        .unwrap();
    assert_eq!(replayed.len(), 2048);
    assert_eq!(replayed.last().unwrap().sequence, 2048);
}
