use log_archive::admin_tool::{
    archive_paths, check_limit, delete_bound, existing_builder, inspect_record, list_segments,
    map_recorder_error, preview_bytes_as_hex, start_builder, tier_label,
    LogRecorderArchiveOptions, LogRecorderDeleteDetachedOptions, LogRecorderStartOptions,
};
use log_archive::command::{
    map_replay_error, parse_locator, persistence_mode_label,
    recorder_profile_label, ArchivePaths,
};
use log_archive::error::{
    ArchiveDirectory, ArchiveFile, ArchivePath, ArchiveRecorderError, ArchiveReplayError,
};
use log_archive::record_tool::{CliPersistenceMode, CliRecorderProfile};
use log_archive::replayer::ArchiveReplayerBuilder;
use log_archive::store::ArchiveStore;
use log_archive::types::{
    ArchiveSegmentTier, PersistenceMode, PublishSubscribeRecordInput, RecorderProfile,
};

const NOW_NS: u64 = 1_700_000_000_000_000_000;

fn archive() -> LogRecorderArchiveOptions {
    LogRecorderArchiveOptions {
        service: "camera".to_string(),
        storage_path: "archive".to_string(),
        metadata_log_path: None,
    }
}

fn start_options() -> LogRecorderStartOptions {
    LogRecorderStartOptions {
        archive: archive(),
        profile: CliRecorderProfile::Durable,
        mode: CliPersistenceMode::Async,
        segment_bytes: 512,
        spare_preallocated_segments: 0,
        segment_preallocate: false,
        max_disk_bytes: Some(1 << 20),
    }
}

#[test]
fn archives_are_named_by_a_service() {
    let paths = archive_paths(&archive()).unwrap();
    assert_eq!(paths.storage_path, "archive");
    assert_eq!(paths.metadata_log_path, "archive");
    let mut blank = archive();
    blank.service = "\u{a0}".to_string();
    assert_eq!(
        archive_paths(&blank).unwrap_err().message().unwrap(),
        "--service must not be empty",
    );
}

#[test]
fn started_recorders_follow_the_options() {
    let options = start_options();
    let paths = archive_paths(&options.archive).unwrap();
    let builder = start_builder(&options, &paths);
    assert_eq!(builder.segment_bytes, 512);
    assert_eq!(builder.max_disk_bytes, Some(1 << 20));
    assert_eq!(builder.log_id, [0; 16]);
    assert!(!builder.metadata_log_max_bytes_overridden);
    let mut store = ArchiveStore::new();
    let recorder = builder.open_or_recover(&mut store, false, NOW_NS).unwrap();
    assert_eq!(recorder.profile(), RecorderProfile::Durable);
    assert_eq!(recorder.persistence_mode(), PersistenceMode::Async);
    assert_eq!(recorder_profile_label(recorder.profile()), "Durable");
    assert_eq!(persistence_mode_label(recorder.persistence_mode()), "Async");
    assert!(!recorder.recovery_status().recovered_existing_archive);

    let existing = existing_builder(&paths);
    assert!(!existing.persistence_mode_overridden && existing.max_disk_bytes.is_none());
    assert_eq!(existing.persistence_mode, PersistenceMode::Async);
    let reopened = existing.open_or_recover(&mut store, false, NOW_NS).unwrap();
    assert!(reopened.recovery_status().recovered_existing_archive);
    assert_eq!(reopened.profile(), RecorderProfile::Balanced);
}

fn filled_store() -> (ArchiveStore, ArchivePaths) {
    let options = start_options();
    let paths = archive_paths(&options.archive).unwrap();
    let mut store = ArchiveStore::new();
    let mut recorder =
        start_builder(&options, &paths).open_or_recover(&mut store, false, NOW_NS).unwrap();
    for sequence in 1..=8u64 {
        recorder
            .append_publish_subscribe_record(
                &mut store,
                PublishSubscribeRecordInput {
                    event_time_ns: sequence,
                    source_service_id: 1,
                    source_publisher_id: 1,
                    source_sequence: Some(sequence),
                    user_header: &[],
                    payload: &[sequence as u8; 100],
                },
                NOW_NS,
            )
            .unwrap();
    }
    recorder.detach_before_sequence(&mut store, 4).unwrap();
    let all = recorder.list_segments(&store).unwrap();
    let detached = list_segments(&all, true);
    assert_eq!(list_segments(&all, false), all);
    assert!(!detached.is_empty() && detached.len() < all.len());
    assert!(detached.iter().all(|segment| segment.tier == ArchiveSegmentTier::ColdDetached));
    assert_eq!(tier_label(detached[0].tier), "ColdDetached");
    (store, paths)
}

#[test]
fn records_are_inspected_by_sequence_or_locator() {
    let (store, paths) = filled_store();
    let replayer = ArchiveReplayerBuilder::new("archive").open(&store).unwrap();
    let (query, frame) = inspect_record(&store, &replayer, &paths, Some(8), &None).unwrap();
    assert_eq!(query, "sequence:8");
    assert_eq!(frame.payload, vec![8; 100]);

    let text = format!(
        "{}:{}:{}:{}",
        frame.locator.segment_id,
        frame.locator.segment_generation,
        frame.locator.file_offset,
        frame.locator.frame_len,
    );
    assert_eq!(parse_locator(&text).unwrap(), frame.locator);
    let (query, same) =
        inspect_record(&store, &replayer, &paths, None, &Some(text.clone())).unwrap();
    assert_eq!(query, format!("locator:{text}"));
    assert_eq!(same.sequence, 8);

    let refusal = |at_sequence: Option<u64>, at_locator: Option<&str>| {
        inspect_record(
            &store,
            &replayer,
            &paths,
            at_sequence,
            &at_locator.map(|text| text.to_string()),
        )
        .unwrap_err()
        .message()
        .unwrap()
    };
    assert_eq!(refusal(Some(99), None), "sequence 99 is not available");
    assert_eq!(refusal(None, None), "either --at-sequence or --at-locator is required");
    assert_eq!(
        refusal(None, Some("1:0:2:3")),
        "invalid locator segment generation '0', expected > 0",
    );
    assert_eq!(
        refusal(None, Some("55:1:76:80")),
        "requested data is not available: archive/segments/segment-55-g1.data",
    );
}

#[test]
fn previews_show_the_first_bytes() {
    let preview = preview_bytes_as_hex(&[0x00, 0xAB, 0xFF], 2);
    assert_eq!(preview.total_len, 3);
    assert_eq!(preview.preview_len, 2);
    assert!(preview.truncated);
    assert_eq!(preview.hex, "00ab");
    let whole = preview_bytes_as_hex(&[0x10], 64);
    assert!(!whole.truncated);
    assert_eq!(whole.hex, "10");
}

#[test]
fn limits_and_bounds_have_defaults() {
    assert!(check_limit(1).is_ok());
    assert_eq!(check_limit(0).unwrap_err().message().unwrap(), "--limit must be > 0");
    let mut options =
        LogRecorderDeleteDetachedOptions { archive: archive(), before_sequence: None };
    assert_eq!(delete_bound(&options), u64::MAX);
    options.before_sequence = Some(4);
    assert_eq!(delete_bound(&options), 4);
}

#[test]
fn recorder_failures_name_what_is_missing() {
    let paths = ArchivePaths::new("archive", &Some("metadata".to_string()));
    let failure = |error: ArchiveRecorderError| map_recorder_error(&paths, error);
    assert_eq!(
        failure(ArchiveRecorderError::MissingArchiveComponent(ArchivePath::File(
            ArchiveFile::CommitLog,
        )))
        .message()
        .unwrap(),
        "archive component unavailable: metadata/commit.idxlog",
    );
    assert_eq!(
        failure(ArchiveRecorderError::ArchiveAlreadyExists(ArchivePath::File(
            ArchiveFile::Catalog,
        )))
        .message()
        .unwrap(),
        "archive component unavailable: archive/catalog.bin",
    );
    assert_eq!(
        failure(ArchiveRecorderError::OutOfSpace(ArchivePath::Directory(
            ArchiveDirectory::Segments,
        )))
        .exit_code(),
        3,
    );
    assert_eq!(failure(ArchiveRecorderError::InvalidConfiguration("no")).exit_code(), 2);
    assert_eq!(failure(ArchiveRecorderError::Finalized).exit_code(), 1);
    let replay = map_replay_error(&paths, ArchiveReplayError::InvalidPinState("no pin"));
    assert_eq!(replay.exit_code(), 2);
    assert_eq!(replay.message().unwrap(), "no pin");
}
