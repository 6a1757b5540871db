use log_archive::config::ArchiveRecorderBuilder;
use log_archive::error::{ArchiveFile, ArchivePath, ArchiveRecorderError, IoFault};
use log_archive::recorder::ArchiveRecorder;
use log_archive::refused_append::{AppendStep, RefusedChange};
use log_archive::replayer::ArchiveReplayerBuilder;
use log_archive::store::ArchiveStore;
use log_archive::types::{PersistenceMode, PublishSubscribeRecordInput, RecordedCommit};

const NOW_NS: u64 = 1_700_000_000_000_000_000;
const NO_SPACE: i32 = 28;
const IO_ERROR: i32 = 5;

fn builder(mode: PersistenceMode, segment_bytes: usize) -> ArchiveRecorderBuilder {
    ArchiveRecorderBuilder::new("archive")
        .metadata_log_path("metadata")
        .segment_bytes(segment_bytes)
        .segment_preallocate(false)
        .spare_preallocated_segments(0)
        .metadata_log_roll_bytes(76 + 3 * 104)
        .metadata_log_preallocate_entries(2)
        .persistence_mode(mode)
}

fn sample(payload: &[u8]) -> PublishSubscribeRecordInput<'_> {
    PublishSubscribeRecordInput {
        event_time_ns: 10,
        source_service_id: 3,
        source_publisher_id: 4,
        source_sequence: Some(1),
        user_header: &[1, 2, 3],
        payload,
    }
}

fn append(
    recorder: &mut ArchiveRecorder,
    store: &mut ArchiveStore,
) -> Result<RecordedCommit, ArchiveRecorderError> {
    recorder.append_publish_subscribe_record(store, sample(&[7; 90]), NOW_NS)
}

fn filled(builder: ArchiveRecorderBuilder, count: u64) -> (ArchiveStore, ArchiveRecorder) {
    let mut store = ArchiveStore::new();
    let mut recorder = builder.create(&mut store, false, NOW_NS).unwrap();
    for _ in 0..count {
        append(&mut recorder, &mut store).unwrap();
    }
    (store, recorder)
}

fn fault(file: ArchiveFile, number: i32) -> ArchiveRecorderError {
    ArchiveRecorderError::Io {
        operation: "write",
        path: ArchivePath::File(file),
        source: IoFault::Os(number),
    }
}

fn refused(
    recorder: &mut ArchiveRecorder,
    store: &mut ArchiveStore,
    step: AppendStep,
    number: i32,
) -> Result<RecordedCommit, ArchiveRecorderError> {
    let error = fault(ArchiveFile::CommitLog, number);
    recorder.append_publish_subscribe_record_refused(
        store,
        sample(&[8; 90]),
        NOW_NS,
        RefusedChange { step, error },
    )
}

fn image(store: &ArchiveStore) -> Vec<(String, Vec<u8>)> {
    let mut files: Vec<(String, Vec<u8>)> = store
        .files()
        .into_iter()
        .map(|file| (format!("{file:?}"), store.read_all(file).unwrap()))
        .collect();
    files.sort();
    files
}

fn sequences(store: &ArchiveStore) -> Vec<u64> {
    ArchiveReplayerBuilder::new("archive")
        .metadata_log_path("metadata")
        .open(store)
        .unwrap()
        .sequences()
        .to_vec()
}

#[test]
fn refused_frames_degrade_and_are_not_counted() {
    for mode in [PersistenceMode::Async, PersistenceMode::Sync] {
        let (mut store, mut recorder) = filled(builder(mode, 5000), 1);
        let (before, stats) = (image(&store), recorder.stats());
        let result = refused(&mut recorder, &mut store, AppendStep::Frame, NO_SPACE);
        assert_eq!(
            result,
            Err(ArchiveRecorderError::OutOfSpace(ArchivePath::File(ArchiveFile::CommitLog)))
        );
        assert!(recorder.is_degraded());
        assert_eq!(image(&store), before);
        let after = recorder.stats();
        assert_eq!(after.committed_records, 1);
        assert_eq!(after.data_bytes_written, stats.data_bytes_written);
        assert_eq!(after.out_of_space_events, stats.out_of_space_events + 1);
        assert_eq!(sequences(&store), [1]);
        assert_eq!(append(&mut recorder, &mut store), Err(ArchiveRecorderError::Degraded));
    }
}

#[test]
fn refused_entries_degrade_after_the_frame() {
    let (mut store, mut recorder) = filled(builder(PersistenceMode::Async, 5000), 1);
    let (before, stats) = (image(&store), recorder.stats());
    let result = refused(&mut recorder, &mut store, AppendStep::Entry, IO_ERROR);
    assert_eq!(result, Err(fault(ArchiveFile::CommitLog, IO_ERROR)));
    assert!(recorder.is_degraded());
    assert_eq!(recorder.stats(), stats);
    assert_ne!(image(&store), before);
    assert_eq!(sequences(&store), [1]);
}

#[test]
fn refused_room_degrades() {
    let (mut store, mut recorder) = filled(builder(PersistenceMode::Async, 5000), 2);
    let result = refused(&mut recorder, &mut store, AppendStep::ReserveLog, IO_ERROR);
    assert_eq!(result, Err(fault(ArchiveFile::CommitLog, IO_ERROR)));
    assert!(recorder.is_degraded());
    assert_eq!(recorder.stats().committed_records, 2);
}

#[test]
fn refused_rolls_are_only_reported() {
    for step in [AppendStep::TrimLog, AppendStep::RollLog] {
        let (mut store, mut recorder) = filled(builder(PersistenceMode::Async, 5000), 3);
        let stats = recorder.stats();
        let result = refused(&mut recorder, &mut store, step, NO_SPACE);
        assert_eq!(result, Err(fault(ArchiveFile::CommitLog, NO_SPACE)));
        assert!(!recorder.is_degraded());
        assert_eq!(recorder.stats(), stats);
        let commit = append(&mut recorder, &mut store).unwrap();
        assert_eq!((commit.commit_ordinal, commit.sequence), (5, 5));
        assert_eq!(sequences(&store), [1, 2, 3, 5]);
    }
}

#[test]
fn refused_seals_leave_no_active_segment() {
    let cases = [
        (AppendStep::SealSummary, 0, 0),
        (AppendStep::SealCatalog, 164, 0),
        (AppendStep::OpenSegment, 252, 1),
    ];
    for (step, bytes, segments) in cases {
        let (mut store, mut recorder) = filled(builder(PersistenceMode::Async, 700), 3);
        let stats = recorder.stats();
        let result = refused(&mut recorder, &mut store, step, NO_SPACE);
        assert_eq!(result, Err(fault(ArchiveFile::CommitLog, NO_SPACE)));
        assert!(!recorder.is_degraded());
        assert!(!recorder.is_ready());
        let after = recorder.stats();
        assert_eq!(after.committed_records, 3);
        assert_eq!(after.metadata_bytes_written, stats.metadata_bytes_written + bytes);
        assert_eq!(after.rolled_segments, stats.rolled_segments + segments);
    }
}

#[test]
fn refused_spares_leave_the_next_segment_open() {
    let spares = builder(PersistenceMode::Async, 700)
        .segment_preallocate(true)
        .spare_preallocated_segments(1);
    let (mut store, mut recorder) = filled(spares, 3);
    let stats = recorder.stats();
    let result =
        refused(&mut recorder, &mut store, AppendStep::SpareSegment { made: 0 }, IO_ERROR);
    assert_eq!(result, Err(fault(ArchiveFile::CommitLog, IO_ERROR)));
    assert!(recorder.is_ready() && !recorder.is_degraded());
    assert_eq!(recorder.stats().preallocated_segments, stats.preallocated_segments);
    assert_eq!(recorder.stats().rolled_segments, stats.rolled_segments + 1);
}

#[test]
fn refused_removals_keep_what_was_removed_before() {
    let capped = builder(PersistenceMode::Async, 700).max_disk_bytes(1000);
    let (mut store, mut recorder) = filled(capped, 6);
    assert_eq!(recorder.list_segments(&store).unwrap().len(), 1);
    let result =
        refused(&mut recorder, &mut store, AppendStep::Retention { considered: 0 }, IO_ERROR);
    assert_eq!(result, Err(fault(ArchiveFile::CommitLog, IO_ERROR)));
    assert!(recorder.is_ready() && !recorder.is_degraded());
    assert_eq!(recorder.stats().committed_records, 6);
    assert_eq!(recorder.list_segments(&store).unwrap().len(), 2);
}

#[test]
fn frames_refused_after_a_seal_degrade_the_sealed_recorder() {
    let (mut store, mut recorder) = filled(builder(PersistenceMode::Async, 700), 3);
    let stats = recorder.stats();
    let result = refused(&mut recorder, &mut store, AppendStep::Frame, IO_ERROR);
    assert_eq!(result, Err(fault(ArchiveFile::CommitLog, IO_ERROR)));
    assert!(recorder.is_degraded());
    assert_eq!(recorder.stats().committed_records, 3);
    assert_eq!(recorder.stats().rolled_segments, stats.rolled_segments + 1);
    assert_eq!(sequences(&store), [1, 2, 3]);
}

#[test]
fn refused_syncs_come_after_the_record_is_counted() {
    let (mut store, mut recorder) = filled(builder(PersistenceMode::Sync, 5000), 1);
    let result = refused(&mut recorder, &mut store, AppendStep::Sync, IO_ERROR);
    assert_eq!(result, Err(fault(ArchiveFile::CommitLog, IO_ERROR)));
    assert!(!recorder.is_degraded());
    assert_eq!(recorder.stats().committed_records, 2);
    assert_eq!(recorder.last_durable_data_sequence(), Some(1));
    assert_eq!(sequences(&store), [1, 2]);
}

#[test]
fn steps_that_are_not_come_to_refuse_nothing() {
    let steps = [
        AppendStep::SealSummary,
        AppendStep::Retention { considered: 0 },
        AppendStep::RollLog,
        AppendStep::ReserveLog,
        AppendStep::Sync,
    ];
    for step in steps {
        let (mut store, mut recorder) = filled(builder(PersistenceMode::Async, 5000), 1);
        let (mut other_store, mut other) = filled(builder(PersistenceMode::Async, 5000), 1);
        let commit = refused(&mut recorder, &mut store, step, IO_ERROR).unwrap();
        let plain =
            other.append_publish_subscribe_record(&mut other_store, sample(&[8; 90]), NOW_NS);
        assert_eq!(Ok(commit), plain);
        assert_eq!(recorder.stats(), other.stats());
        assert_eq!(sequences(&store), sequences(&other_store));
    }
    let (mut store, mut recorder) = filled(builder(PersistenceMode::Volatile, 5000), 1);
    assert_eq!(
        refused(&mut recorder, &mut store, AppendStep::Frame, IO_ERROR).unwrap().sequence,
        2
    );
}
