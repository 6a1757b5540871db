use log_archive::adapter::decode_adapter_user_header;
use log_archive::catalog::list_data_segments;
use log_archive::config::ArchiveRecorderBuilder;
use log_archive::error::{
    ArchiveDirectory, ArchiveFile, ArchiveRecorderError, ArchiveReplayError,
};
use log_archive::indexer::ArchiveMetadataIndexerBuilder;
use log_archive::recorder::ArchiveRecorder;
use log_archive::replayer::ArchiveReplayerBuilder;
use log_archive::retention::active_replay_pins;
use log_archive::startup::{generate_random_log_id, make_log_id};
use log_archive::store::ArchiveStore;
use log_archive::types::{
    ArchiveLocator, ArchiveSegmentTier, AsyncIoBackend, ChecksumMode, PersistenceMode,
    PublishSubscribeRecordInput, RecordedCommit, RecorderAckLevel, RecorderProfile,
    ReplayPin,
};

const NOW_NS: u64 = 1_700_000_000_000_000_000;

fn builder(mode: PersistenceMode) -> ArchiveRecorderBuilder {
    ArchiveRecorderBuilder::new("archive")
        .metadata_log_path("metadata")
        .segment_bytes(700)
        .segment_preallocate(false)
        .spare_preallocated_segments(0)
        .metadata_log_roll_bytes(76 + 3 * 104)
        .persistence_mode(mode)
}

fn append(
    recorder: &mut ArchiveRecorder,
    store: &mut ArchiveStore,
    sequence: u64,
) -> Result<RecordedCommit, ArchiveRecorderError> {
    recorder.append_publish_subscribe_record(
        store,
        PublishSubscribeRecordInput {
            event_time_ns: sequence * 10,
            source_service_id: 3,
            source_publisher_id: 4,
            source_sequence: Some(sequence),
            user_header: &[1, 2, 3],
            payload: &[sequence as u8; 90],
        },
        NOW_NS,
    )
}

fn filled(mode: PersistenceMode, count: u64) -> (ArchiveStore, ArchiveRecorder) {
    let mut store = ArchiveStore::new();
    let mut recorder = builder(mode).create(&mut store, false, NOW_NS).unwrap();
    for sequence in 1..=count {
        append(&mut recorder, &mut store, sequence).unwrap();
    }
    (store, recorder)
}

fn image(store: &ArchiveStore) -> Vec<(String, Vec<u8>)> {
    let mut files: Vec<(String, Vec<u8>)> = store
        .files()
        .into_iter()
        .map(|file| (format!("{file:?}"), store.read_all(file).unwrap()))
        .collect();
    files.sort();
    files
}

fn payload_of(store: &ArchiveStore, locator: ArchiveLocator) -> Vec<u8> {
    ArchiveReplayerBuilder::new("archive")
        .metadata_log_path("metadata")
        .open(store)
        .unwrap()
        .read_at_locator(store, locator)
        .unwrap()
        .payload
}

#[test]
fn appended_records_read_back_and_stay() {
    let mut store = ArchiveStore::new();
    let mut recorder = builder(PersistenceMode::Async).create(&mut store, false, NOW_NS).unwrap();
    let mut locators = Vec::new();
    for sequence in 1..=12u64 {
        let commit = append(&mut recorder, &mut store, sequence).unwrap();
        assert_eq!(commit.commit_ordinal, sequence);
        locators.push(commit.locator);
        for (index, locator) in locators.iter().enumerate() {
            assert_eq!(payload_of(&store, *locator), vec![index as u8 + 1; 90]);
        }
        assert!(recorder.is_ready());
    }
    let replayer =
        ArchiveReplayerBuilder::new("archive").metadata_log_path("metadata").open(&store).unwrap();
    assert_eq!(replayer.sequences(), (1..=12).collect::<Vec<u64>>());
}

#[test]
fn refused_records_change_nothing() {
    let (mut store, mut recorder) = filled(PersistenceMode::Async, 2);
    let before = image(&store);
    let stats = recorder.stats();
    let refused = recorder.append_publish_subscribe_record(
        &mut store,
        PublishSubscribeRecordInput {
            event_time_ns: 1,
            source_service_id: 3,
            source_publisher_id: 4,
            source_sequence: None,
            user_header: &[],
            payload: &[9; 700],
        },
        NOW_NS,
    );
    assert!(matches!(
        refused,
        Err(ArchiveRecorderError::FrameTooLarge { segment_bytes: 700, .. })
    ));
    assert_eq!(image(&store), before);
    assert_eq!(recorder.stats(), stats);
}

#[test]
fn finalized_recorders_refuse_records() {
    let (mut store, mut recorder) = filled(PersistenceMode::Async, 2);
    recorder.finalize(&mut store, NOW_NS).unwrap();
    let before = image(&store);
    assert!(matches!(
        append(&mut recorder, &mut store, 3),
        Err(ArchiveRecorderError::Finalized)
    ));
    recorder.finalize(&mut store, NOW_NS).unwrap();
    assert_eq!(image(&store), before);
}

#[test]
fn synced_records_are_durable() {
    let (mut store, mut recorder) = filled(PersistenceMode::Sync, 1);
    assert_eq!(recorder.last_durable_data_sequence(), Some(1));
    let commit = append(&mut recorder, &mut store, 2).unwrap();
    assert_eq!(recorder.last_durable_data_sequence(), Some(2));
    recorder
        .wait_for_ack(&mut store, commit, RecorderAckLevel::DurableDataAndCommitLog, 5_000_000)
        .unwrap();
    assert_eq!(recorder.last_durable_commit_ordinal(), Some(commit.commit_ordinal));
    recorder.wait_for_durable_data(&mut store, commit).unwrap();
}

#[test]
fn volatile_records_touch_no_file() {
    let (store, recorder) = filled(PersistenceMode::Volatile, 3);
    assert!(store.files().is_empty());
    assert_eq!(recorder.stats().committed_records, 3);
}

#[test]
fn recovery_takes_up_where_the_recorder_stopped() {
    let (mut store, recorder) = filled(PersistenceMode::Async, 7);
    drop(recorder);
    let mut recovered = builder(PersistenceMode::Async)
        .open_or_recover(&mut store, false, NOW_NS)
        .unwrap();
    let commit = append(&mut recovered, &mut store, 8).unwrap();
    assert_eq!(commit.commit_ordinal, 8);
    let replayer =
        ArchiveReplayerBuilder::new("archive").metadata_log_path("metadata").open(&store).unwrap();
    assert_eq!(replayer.sequences(), (1..=8).collect::<Vec<u64>>());
}

#[test]
fn attaching_brings_back_what_was_detached() {
    let (mut store, mut recorder) = filled(PersistenceMode::Async, 12);
    let before = image(&store);
    let detached = recorder.detach_before_sequence(&mut store, 9).unwrap();
    assert!(detached > 0);
    let moved = image(&store);
    assert_ne!(moved, before);
    assert_eq!(recorder.detach_before_sequence(&mut store, 9).unwrap(), 0);
    assert_eq!(image(&store), moved);
    assert_eq!(recorder.attach_all_detached(&mut store).unwrap(), detached);
    assert_eq!(image(&store), before);
    assert_eq!(recorder.attach_all_detached(&mut store).unwrap(), 0);
}

#[test]
fn pinned_segments_stay() {
    let (mut store, mut recorder) = filled(PersistenceMode::Async, 12);
    let pin = recorder.begin_replay_pin(&mut store, 1, 2, NOW_NS).unwrap();
    recorder.trim_before_sequence(&mut store, 9).unwrap();
    let kept = recorder.list_segments(&store).unwrap();
    assert!(kept[0].pinned && kept[0].sequence_start == 1);
    assert!(kept.iter().all(|segment| segment.pinned || segment.sequence_end >= 9));
    recorder.release_replay_pin(&mut store, pin).unwrap();
    recorder.trim_before_sequence(&mut store, 9).unwrap();
    assert!(recorder
        .list_segments(&store)
        .unwrap()
        .iter()
        .all(|segment| segment.sequence_end >= 9));
}

#[test]
fn deleting_twice_is_deleting_once() {
    let (mut store, mut recorder) = filled(PersistenceMode::Async, 12);
    recorder.detach_before_sequence(&mut store, 9).unwrap();
    assert!(recorder.delete_detached_before_sequence(&mut store, 9).unwrap() > 0);
    let after = image(&store);
    assert_eq!(recorder.delete_detached_before_sequence(&mut store, 9).unwrap(), 0);
    assert_eq!(image(&store), after);
}

#[test]
fn retained_bytes_stay_below_the_cap() {
    let mut store = ArchiveStore::new();
    let mut recorder = builder(PersistenceMode::Async)
        .max_disk_bytes(1600)
        .create(&mut store, false, NOW_NS)
        .unwrap();
    for sequence in 1..=30 {
        append(&mut recorder, &mut store, sequence).unwrap();
        assert!(recorder.retention_status(&store).unwrap().retained_bytes_total <= 1600);
    }
}

#[test]
fn catching_up_twice_indexes_nothing_new() {
    let (mut store, _recorder) = filled(PersistenceMode::Async, 7);
    let mut indexer = ArchiveMetadataIndexerBuilder::new("archive")
        .metadata_log_path("metadata")
        .open(&store)
        .unwrap();
    assert_eq!(indexer.catch_up_once(&mut store).unwrap(), 7);
    let after = image(&store);
    assert_eq!(indexer.catch_up_once(&mut store).unwrap(), 0);
    assert_eq!(image(&store), after);
    for sequence in 1..=7 {
        let found = indexer.query_by_sequence(sequence).unwrap();
        assert_eq!(indexer.query_by_locator(found.locator).unwrap().sequence, sequence);
    }
    let before = indexer.status().watermark;
    indexer.reindex(&mut store).unwrap();
    assert_eq!(indexer.status().watermark, before);
}

#[test]
fn a_loaded_image_is_the_one_that_was_stored() {
    let (mut store, recorder) = filled(PersistenceMode::Async, 5);
    drop(recorder);
    assert!(!store.take_changes().is_empty());
    assert!(store.take_changes().is_empty());
    let mut loaded = ArchiveStore::new();
    loaded.load_directory(ArchiveDirectory::Segments);
    assert!(loaded.directory_exists(ArchiveDirectory::Segments));
    for file in store.files() {
        loaded.load_file(file, &store.read_all(file).unwrap());
    }
    assert!(loaded.take_changes().is_empty());
    assert_eq!(image(&loaded), image(&store));
    let recovered =
        builder(PersistenceMode::Async).open_or_recover(&mut loaded, false, NOW_NS).unwrap();
    assert!(recovered.recovery_status().recovered_existing_archive);
}

#[test]
fn profiles_keep_what_was_set() {
    let built = ArchiveRecorderBuilder::new("archive")
        .segment_bytes(4096)
        .async_io_backend(AsyncIoBackend::Blocking)
        .profile(RecorderProfile::Durable);
    assert_eq!(built.segment_bytes, 4096);
    assert_eq!(built.async_io_backend, AsyncIoBackend::Blocking);
    assert_eq!(built.persistence_mode, PersistenceMode::Sync);
}

#[test]
fn log_ids_are_drawn_at_random_and_never_zero() {
    let first = generate_random_log_id().unwrap();
    let second = generate_random_log_id().unwrap();
    assert_ne!(first, [0; 16]);
    assert_ne!(first, second);
    assert_ne!(make_log_id([0; 16]), [0; 16]);
    assert_eq!(make_log_id([7; 16]), [7; 16]);
}

#[test]
fn rolled_commit_logs_are_numbered_from_one() {
    let (store, _recorder) = filled(PersistenceMode::Async, 7);
    assert!(store.contains(ArchiveFile::RolledCommitLog { index: 1 }));
    assert!(store.contains(ArchiveFile::RolledCommitLog { index: 2 }));
    assert!(!store.contains(ArchiveFile::RolledCommitLog { index: 3 }));
    assert!(store.contains(ArchiveFile::SegmentData {
        tier: ArchiveSegmentTier::HotAttached,
        segment_id: 1,
        segment_generation: 1,
    }));
}

#[test]
fn commit_logs_stay_below_their_cap() {
    let mut store = ArchiveStore::new();
    let capped = || builder(PersistenceMode::Async).metadata_log_max_bytes(900);
    let used = |store: &ArchiveStore| -> u64 {
        store
            .files()
            .into_iter()
            .filter(|file| {
                matches!(file, ArchiveFile::CommitLog | ArchiveFile::RolledCommitLog { .. })
            })
            .map(|file| store.read_all(file).unwrap().len() as u64)
            .sum()
    };
    let mut recorder = capped().create(&mut store, false, NOW_NS).unwrap();
    assert_eq!(used(&store), 388);
    for sequence in 1..=6 {
        append(&mut recorder, &mut store, sequence).unwrap();
        assert_eq!(used(&store), if sequence <= 3 { 388 } else { 776 });
    }
    drop(recorder);
    let mut recovered = capped().open_or_recover(&mut store, false, NOW_NS).unwrap();
    assert_eq!(used(&store), 776);
    assert!(matches!(
        append(&mut recovered, &mut store, 7),
        Err(ArchiveRecorderError::MetadataLogCapacityExceeded {
            max_bytes: 900,
            required_bytes: 1164,
        })
    ));
}

#[test]
fn recovery_keeps_the_longest_sound_run() {
    let mut store = ArchiveStore::new();
    let mut recorder = builder(PersistenceMode::Async).create(&mut store, false, NOW_NS).unwrap();
    let mut locators = Vec::new();
    for sequence in 1..=6 {
        locators.push(append(&mut recorder, &mut store, sequence).unwrap().locator);
    }
    drop(recorder);
    let broken = locators[4];
    let file = ArchiveFile::SegmentData {
        tier: ArchiveSegmentTier::HotAttached,
        segment_id: broken.segment_id,
        segment_generation: broken.segment_generation,
    };
    store.write_at(file, broken.file_offset + 100, &[0xff; 4], "spoil").unwrap();
    builder(PersistenceMode::Async).open_or_recover(&mut store, false, NOW_NS).unwrap();
    let replayer =
        ArchiveReplayerBuilder::new("archive").metadata_log_path("metadata").open(&store).unwrap();
    assert_eq!(replayer.sequences(), vec![1, 2, 3, 4]);
}

#[test]
fn waits_shorter_than_a_millisecond_are_waits() {
    let (mut store, mut recorder) = filled(PersistenceMode::Async, 1);
    let commit = append(&mut recorder, &mut store, 2).unwrap();
    assert!(matches!(
        recorder.wait_for_ack(&mut store, commit, RecorderAckLevel::DurableData, 0),
        Err(ArchiveRecorderError::AckTimeout { timeout_ms: 0, .. })
    ));
    recorder.wait_for_ack(&mut store, commit, RecorderAckLevel::DurableData, 1).unwrap();
    let (mut store, mut recorder) = filled(PersistenceMode::Volatile, 1);
    let commit = append(&mut recorder, &mut store, 2).unwrap();
    assert!(matches!(
        recorder.wait_for_ack(&mut store, commit, RecorderAckLevel::DurableData, 2_999_999),
        Err(ArchiveRecorderError::AckTimeout { timeout_ms: 2, .. })
    ));
}

#[test]
fn archives_without_checksums_record_and_replay() {
    let mut store = ArchiveStore::new();
    let mut recorder = builder(PersistenceMode::Async)
        .checksum_mode(ChecksumMode::Disabled)
        .create(&mut store, false, NOW_NS)
        .unwrap();
    let commit = append(&mut recorder, &mut store, 1).unwrap();
    let replayer =
        ArchiveReplayerBuilder::new("archive").metadata_log_path("metadata").open(&store).unwrap();
    let frame = replayer.read_at_sequence(&store, commit.sequence).unwrap().unwrap();
    assert_eq!(frame.frame_checksum, 0);
    assert_eq!(frame.payload, vec![1; 90]);
    assert_eq!(replayer.inspect_commit_log_entries(&store, 0, 10)[0].frame_checksum, 0);
    let recovered = builder(PersistenceMode::Async)
        .checksum_mode(ChecksumMode::Disabled)
        .open_or_recover(&mut store, false, NOW_NS)
        .unwrap();
    assert!(recovered.is_ready());
}

#[test]
fn checksums_count_only_where_they_are_verified() {
    let (mut store, _recorder) = filled(PersistenceMode::Async, 2);
    let open = |store: &ArchiveStore, verify: bool| {
        ArchiveReplayerBuilder::new("archive")
            .metadata_log_path("metadata")
            .verify_checksums(verify)
            .open(store)
            .unwrap()
    };
    let sound = open(&store, true).read_at_sequence(&store, 1).unwrap().unwrap();
    let unverified = open(&store, false).read_at_sequence(&store, 1).unwrap().unwrap();
    assert_eq!(unverified.payload, sound.payload);
    let locator = sound.locator;
    let file = ArchiveFile::SegmentData {
        tier: ArchiveSegmentTier::HotAttached,
        segment_id: locator.segment_id,
        segment_generation: locator.segment_generation,
    };
    store.write_at(file, locator.file_offset + 120, &[0xff], "spoil").unwrap();
    assert!(matches!(
        open(&store, true).read_at_locator(&store, locator),
        Err(ArchiveReplayError::ChecksumMismatch { .. })
    ));
    let mut replayer = open(&store, false);
    let read = replayer.read_at_locator(&store, locator).unwrap();
    assert_ne!(read.payload, sound.payload);
    assert_eq!(read.frame_checksum, sound.frame_checksum);
    assert!(replayer.read_at_sequence(&store, 1).unwrap().is_some());
    assert_eq!(replayer.next_batch(&store, 5).unwrap().len(), 2);
    assert_eq!(replayer.read_many_locators(&store, &[locator]).unwrap().len(), 1);
}

#[test]
fn attaching_all_brings_back_the_list_and_every_record() {
    let (mut store, mut recorder) = filled(PersistenceMode::Async, 12);
    recorder.finalize(&mut store, NOW_NS).unwrap();
    let listed = recorder.list_segments(&store).unwrap();
    let read = |store: &ArchiveStore| -> Vec<Vec<u8>> {
        let replayer = ArchiveReplayerBuilder::new("archive")
            .metadata_log_path("metadata")
            .open(store)
            .unwrap();
        let frames = replayer.read_range(store, 1, 100).unwrap();
        frames.into_iter().map(|frame| frame.payload).collect()
    };
    let records = read(&store);
    assert_eq!(records.len(), 12);
    let count = recorder.detach_before_sequence(&mut store, u64::MAX).unwrap();
    assert_eq!(count, listed.len() as u64);
    assert_ne!(recorder.list_segments(&store).unwrap(), listed);
    assert_eq!(read(&store).len(), 0);
    assert_eq!(recorder.attach_all_detached(&mut store).unwrap(), count);
    assert_eq!(recorder.list_segments(&store).unwrap(), listed);
    assert_eq!(read(&store), records);
}

#[test]
fn samples_are_numbered_whatever_their_sources_say() {
    for mode in [PersistenceMode::Async, PersistenceMode::Sync, PersistenceMode::Volatile] {
        let mut store = ArchiveStore::new();
        let mut recorder = builder(mode).create(&mut store, false, NOW_NS).unwrap();
        for (index, source_sequence) in [Some(90), None, Some(3), Some(3)].into_iter().enumerate() {
            let commit = recorder
                .append_publish_subscribe_record(
                    &mut store,
                    PublishSubscribeRecordInput {
                        event_time_ns: 1,
                        source_service_id: 3,
                        source_publisher_id: 4,
                        source_sequence,
                        user_header: &[],
                        payload: &[1],
                    },
                    NOW_NS,
                )
                .unwrap();
            assert_eq!(commit.sequence, index as u64 + 1);
            assert_eq!(commit.commit_ordinal, index as u64 + 1);
        }
    }
}

#[test]
fn reindexing_finds_exactly_what_the_log_holds() {
    let (mut store, mut recorder) = filled(PersistenceMode::Async, 5);
    let mut indexer = ArchiveMetadataIndexerBuilder::new("archive")
        .metadata_log_path("metadata")
        .enable_core_locator_index(true)
        .open(&store)
        .unwrap();
    indexer.catch_up_with_limit(&mut store, Some(2)).unwrap();
    let last = append(&mut recorder, &mut store, 6).unwrap();
    indexer.reindex(&mut store).unwrap();
    let watermark = indexer.watermark();
    assert_eq!(watermark.last_commit_ordinal, 6);
    assert_eq!(watermark.last_indexed_commit_ordinal, 6);
    let found = indexer.query_by_locator(last.locator).unwrap();
    assert_eq!((found.sequence, found.locator), (6, last.locator));
    let elsewhere = ArchiveLocator { file_offset: last.locator.file_offset + 1, ..last.locator };
    assert!(indexer.query_by_locator(elsewhere).is_err());
    for sequence in 1..=6 {
        assert_eq!(indexer.query_by_sequence(sequence).unwrap().sequence, sequence);
    }
}

#[test]
fn attaching_all_brings_back_segments_that_lie_in_both_tiers() {
    let (mut store, mut recorder) = filled(PersistenceMode::Async, 12);
    recorder.finalize(&mut store, NOW_NS).unwrap();
    let listed = recorder.list_segments(&store).unwrap();
    let first = listed[0];
    let data = |tier: ArchiveSegmentTier| ArchiveFile::SegmentData {
        tier,
        segment_id: first.segment_id,
        segment_generation: first.segment_generation,
    };
    let bytes = store.read_all(data(ArchiveSegmentTier::HotAttached)).unwrap();
    let _ = store.take_changes();
    store.load_file(data(ArchiveSegmentTier::ColdDetached), &bytes);
    assert_eq!(recorder.list_segments(&store).unwrap(), listed);
    let replayer =
        ArchiveReplayerBuilder::new("archive").metadata_log_path("metadata").open(&store).unwrap();
    let frames = replayer.read_range(&store, 1, 100).unwrap();
    let count = recorder.detach_before_sequence(&mut store, u64::MAX).unwrap();
    assert_eq!(count, listed.len() as u64);
    recorder.attach_all_detached(&mut store).unwrap();
    assert_eq!(recorder.list_segments(&store).unwrap(), listed);
    let again = replayer.read_range(&store, 1, 100).unwrap();
    assert_eq!(again.len(), 12);
    for (frame, before) in again.iter().zip(&frames) {
        assert_eq!((frame.sequence, &frame.payload), (before.sequence, &before.payload));
    }
}

#[test]
fn a_series_of_samples_is_numbered_and_replayed() {
    let mut store = ArchiveStore::new();
    let mut recorder = builder(PersistenceMode::Async).create(&mut store, false, NOW_NS).unwrap();
    let samples: [(Option<u64>, &[u8], &[u8]); 4] = [
        (Some(90), &[1, 2, 3], &[5; 90]),
        (None, &[], &[6; 40]),
        (Some(3), &[4], &[]),
        (Some(3), &[9; 20], &[7; 300]),
    ];
    for (source_sequence, user_header, payload) in samples {
        recorder
            .append_publish_subscribe_record(
                &mut store,
                PublishSubscribeRecordInput {
                    event_time_ns: 1,
                    source_service_id: 3,
                    source_publisher_id: 4,
                    source_sequence,
                    user_header,
                    payload,
                },
                NOW_NS,
            )
            .unwrap();
    }
    let replayer =
        ArchiveReplayerBuilder::new("archive").metadata_log_path("metadata").open(&store).unwrap();
    let frames = replayer.read_range(&store, 1, 100).unwrap();
    assert_eq!(frames.len(), samples.len());
    for (index, (frame, (source_sequence, user_header, payload))) in
        frames.iter().zip(samples).enumerate()
    {
        assert_eq!(frame.sequence, index as u64 + 1);
        assert_eq!(frame.commit_ordinal, index as u64 + 1);
        assert_eq!(frame.payload, payload);
        let decoded = decode_adapter_user_header(&frame.user_header).unwrap();
        let source = decoded.source_metadata;
        assert_eq!((source.source_service_id, source.source_instance_id), (3, 4));
        assert_eq!(source.source_sequence, source_sequence);
        assert_eq!(decoded.user_header, user_header);
    }
}

#[test]
fn files_under_other_names_are_listed_and_protect() {
    let (mut store, mut recorder) = filled(PersistenceMode::Async, 12);
    let pin = ReplayPin { pin_id: 9, sequence_start: 1, sequence_end: 2 };
    let _ = store.take_changes();
    store.load_directory(ArchiveDirectory::Pins);
    store.load_file(ArchiveFile::PinAlias { pin }, &[]);
    store.load_file(ArchiveFile::SegmentDataAlias { segment_id: 40, segment_generation: 1 }, &[]);
    assert_eq!(active_replay_pins(&store), [pin]);
    assert_eq!(list_data_segments(&store).last(), Some(&(40, 1)));
    recorder.release_replay_pin(&mut store, pin).unwrap();
    recorder.trim_before_sequence(&mut store, 9).unwrap();
    let kept = recorder.list_segments(&store).unwrap();
    assert!(kept[0].pinned && kept[0].sequence_start == 1);
    assert!(kept.iter().all(|segment| segment.segment_id != 40));
}
