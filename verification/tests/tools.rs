use log_archive::checkpoint::scan_commit_log;
use log_archive::command::{ArchivePaths, CommandError};
use log_archive::config::ArchiveRecorderBuilder;
use log_archive::error::{
    ArchiveFile, ArchivePath, ArchiveRecorderError, ArchiveReplayError, IoFault,
};
use log_archive::indexer::ArchiveMetadataIndexerBuilder;
use log_archive::metadata::{
    ArchiveMetadataSink, ArchiveMetadataSinkError, MetadataCommitRecord, MetadataWatermark,
};
use log_archive::query_answer::{locate_range, make_indexer_state, state_or_default};
use log_archive::query_tool::{check_range, LocateRangeOptions, QueryEmitMode};
use log_archive::record_tool::{
    cli_profile_defaults, recorder_config, stop_reason_label, validate_runtime_options,
    CliPersistenceMode, CliRecorderProfile, LogRecordArchiveOptions,
    LogRecordPublishSubscribeOptions, LogRecordPublishSubscribeRuntimeOptions,
    LogRecordRuntimeOptions, PubSubRecorderStopReason,
};
use log_archive::recorder::ArchiveRecorder;
use log_archive::replay_tool::{
    effective_user_header, prepare_replay, selector_source_label, selectors_from_options,
    LocatorSelector, RangeSelector, ReplayCounters, ReplayDestination, ReplayOptions, ReplayPacer,
    ReplayPause, ReplayRateMode, ReplayRun, ReplaySelector, SelectorFormat, SelectorsSelector,
    SequenceSelector,
};
use log_archive::replayer::{ArchiveReplayer, ArchiveReplayerBuilder};
use log_archive::selectors::{selector_from_ndjson_record, NdjsonSelectorRecord, Selector};
use log_archive::store::ArchiveStore;
use log_archive::types::{
    ArchiveLocator, ArchiveSegmentTier, AsyncIoBackend, ChecksumMode, PersistenceMode,
    PublishSubscribeRecordInput, ReplayedFrame,
};
use std::cell::{Cell, RefCell};
use std::rc::Rc;

const NOW_NS: u64 = 1_700_000_000_000_000_000;
const SUPPORTED_SCHEMA: u32 = 1;

fn create_archive(store: &mut ArchiveStore, storage_path: &str, metadata_path: &str) {
    let mut recorder = ArchiveRecorderBuilder::new(storage_path)
        .metadata_log_path(metadata_path)
        .segment_bytes(1024)
        .segment_preallocate(false)
        .spare_preallocated_segments(0)
        .persistence_mode(PersistenceMode::Async)
        .checksum_mode(ChecksumMode::Crc32c)
        .create(store, false, NOW_NS)
        .unwrap();

    for sequence in 1..=4u64 {
        let payload = vec![sequence as u8; sequence as usize + 4];
        recorder
            .append_publish_subscribe_record(
                store,
                PublishSubscribeRecordInput {
                    event_time_ns: sequence * 1_000,
                    source_service_id: 1,
                    source_publisher_id: 1,
                    source_sequence: Some(sequence),
                    user_header: &[0xA1, sequence as u8],
                    payload: &payload,
                },
                NOW_NS,
            )
            .unwrap();
    }
    recorder.finalize(store, NOW_NS).unwrap();
}

fn open_replayer(store: &ArchiveStore) -> ArchiveReplayer {
    ArchiveReplayerBuilder::new("archive").metadata_log_path("metadata").open(store).unwrap()
}

fn archive_paths() -> ArchivePaths {
    ArchivePaths::new("archive", &Some("metadata".to_string()))
}

fn replay_options(selector: ReplaySelector) -> ReplayOptions {
    ReplayOptions {
        storage_path: "archive".to_string(),
        metadata_log_path: Some("metadata".to_string()),
        to: ReplayDestination::Stdout,
        service: None,
        rate: ReplayRateMode::Fast,
        messages_per_sec: None,
        max_recorded_gap_ms: 2000,
        node_name: "iox2-log-replay".to_string(),
        skip_missing: false,
        max_errors: None,
        follow: false,
        follow_poll_ms: 100,
        follow_idle_timeout_ms: None,
        selector,
    }
}

fn run_replay(
    store: &ArchiveStore,
    replayer: &ArchiveReplayer,
    run: &mut ReplayRun,
) -> Result<Vec<ReplayedFrame>, CommandError> {
    let paths = archive_paths();
    let mut emitted = Vec::new();
    while let Some(frames) = run.step(store, replayer, &paths)? {
        for frame in frames {
            run.counters.note_emitted(&frame);
            emitted.push(frame);
        }
    }
    Ok(emitted)
}

/// A sink that keeps the batches and counts the flushes; it answers as it is told to.
#[derive(Clone, Default)]
struct RecordingSink {
    batches: Rc<RefCell<Vec<Vec<MetadataCommitRecord>>>>,
    flushes: Rc<Cell<usize>>,
    refuses_records: Rc<Cell<bool>>,
    refuses_flush: Rc<Cell<bool>>,
}

impl RecordingSink {
    fn records(&self) -> Vec<MetadataCommitRecord> {
        self.batches.borrow().iter().flatten().copied().collect()
    }
}

impl ArchiveMetadataSink for RecordingSink {
    fn on_records(
        &mut self,
        records: &[MetadataCommitRecord],
    ) -> Result<(), ArchiveMetadataSinkError> {
        self.batches.borrow_mut().push(records.to_vec());
        if self.refuses_records.get() {
            return Err(ArchiveMetadataSinkError::new("no records".to_string()));
        }
        Ok(())
    }

    fn flush(&mut self) -> Result<(), ArchiveMetadataSinkError> {
        self.flushes.set(self.flushes.get() + 1);
        if self.refuses_flush.get() {
            return Err(ArchiveMetadataSinkError::new("no flush".to_string()));
        }
        Ok(())
    }
}

#[test]
fn throughput_profile_does_not_assume_large_payload_borrow_capacity() {
    let defaults = cli_profile_defaults(CliRecorderProfile::Throughput);

    assert_eq!(defaults.persistence_mode, CliPersistenceMode::Async);
    assert_eq!(defaults.segment_bytes, 1024 * 1024 * 1024);
    assert_eq!(defaults.spare_preallocated_segments, 2);
    assert!(defaults.segment_preallocate);
    assert_eq!(defaults.subscriber_max_borrowed_samples, None);
}

#[test]
fn query_expanded_selectors_pipe_to_replay_stdout() {
    let mut store = ArchiveStore::new();
    create_archive(&mut store, "archive", "metadata");

    let sink = RecordingSink::default();
    let mut indexer = ArchiveMetadataIndexerBuilder::new("metadata")
        .metadata_log_path("metadata")
        .enable_core_locator_index(false)
        .sink(sink.clone())
        .open(&store)
        .unwrap();
    let processed = indexer.catch_up_once(&mut store).unwrap();
    assert_eq!(processed, 4);
    let watermark = indexer.status().watermark;
    let state = make_indexer_state(
        &store,
        "metadata",
        "smoke",
        sink.records().last().copied(),
        None,
        watermark,
        NOW_NS,
        SUPPORTED_SCHEMA,
    )
    .unwrap();
    assert_eq!(state.last_indexed_commit_ordinal, 4);
    assert_eq!(state.roll_file, "commit.idxlog");
    assert_eq!(state.byte_offset, 76 + 4 * 104);

    let options = LocateRangeOptions {
        db_path: "query.sqlite".to_string(),
        stream_id: "smoke".to_string(),
        from: 1,
        count: 4,
        emit: QueryEmitMode::Selectors,
        expand_selectors: true,
    };
    check_range(&options).unwrap();
    let selectors = locate_range(&options, &sink.records(), Some(4), &state).unwrap();
    assert_eq!(selectors.len(), 4);

    let mut piped = Vec::new();
    for (index, selector) in selectors.iter().enumerate() {
        let locator = match selector {
            Selector::Locator(locator) => *locator,
            other => panic!("unexpected selector {other:?}"),
        };
        let record = NdjsonSelectorRecord {
            kind: "locator".to_string(),
            sequence: None,
            from: None,
            count: None,
            segment_id: Some(locator.segment_id),
            segment_generation: Some(locator.segment_generation),
            file_offset: Some(locator.file_offset),
            frame_len: Some(locator.frame_len),
        };
        piped.push(selector_from_ndjson_record(record, index + 1).unwrap());
    }

    let replayer = open_replayer(&store);
    let mut run = ReplayRun::new(piped, false, 1).unwrap();
    let frames = run_replay(&store, &replayer, &mut run).unwrap();
    assert_eq!(frames.len(), 4);
    assert_eq!(run.counters.emitted, 4);
}

#[test]
fn replay_all_replays_every_record() {
    let mut store = ArchiveStore::new();
    create_archive(&mut store, "archive", "metadata");

    let options = replay_options(ReplaySelector::All);
    let setup = prepare_replay(&options, &store).unwrap();
    assert_eq!(setup.max_errors, 1);
    let replayer = open_replayer(&store);
    let selectors =
        selectors_from_options(&options.selector, replayer.sequences()).unwrap().unwrap();
    let mut run = ReplayRun::new(selectors, options.skip_missing, setup.max_errors).unwrap();
    let frames = run_replay(&store, &replayer, &mut run).unwrap();
    assert_eq!(frames.len(), 4);
    assert_eq!(selector_source_label(&options.selector), "all");
    assert_eq!(run.counters.emitted, 4);
    assert_eq!(
        frames.iter().map(|frame| frame.sequence).collect::<Vec<_>>(),
        vec![1, 2, 3, 4],
    );
    assert_eq!(run.counters.bytes_emitted, (5 + 6 + 7 + 8) + 4 * 2);
    assert_eq!(effective_user_header(&frames[2]), &[0xA1, 3]);
}

fn record_options() -> LogRecordPublishSubscribeOptions {
    LogRecordPublishSubscribeOptions {
        archive: LogRecordArchiveOptions {
            service: "Test/Recorder/InvalidBorrowCapacity".to_string(),
            storage_path: "archive".to_string(),
            metadata_log_path: Some("metadata".to_string()),
            profile: CliRecorderProfile::Balanced,
            mode: None,
            segment_bytes: None,
            spare_preallocated_segments: None,
            segment_preallocate: None,
            max_disk_bytes: None,
            async_io_backend: None,
            io_uring_queue_depth: None,
            io_submit_batch_max: None,
            io_cqe_batch_max: None,
            io_uring_register_files: None,
            checksum_mode: None,
            out_of_space_policy: None,
            metadata_log_roll_bytes: None,
            metadata_log_max_bytes: None,
        },
        runtime: LogRecordPublishSubscribeRuntimeOptions {
            common: LogRecordRuntimeOptions {
                node_name: "iox2-log-recorder".to_string(),
                cycle_time_ms: 10,
                max_messages: None,
                timeout_ms: Some(1),
                flush_interval_ms: 0,
                ack_level: None,
            },
            source_service_id: None,
            subscriber_max_borrowed_samples: Some(0),
        },
    }
}

#[test]
fn recorder_rejects_zero_borrowed_sample_capacity() {
    let error = validate_runtime_options(&record_options()).unwrap_err();
    assert_eq!(error.exit_code(), 2);
    assert_eq!(
        error.message().unwrap(),
        "--subscriber-max-borrowed-samples must be greater than 0",
    );
}

#[test]
fn record_options_are_refused_one_by_one() {
    let refusal = |change: &dyn Fn(&mut LogRecordPublishSubscribeOptions)| {
        let mut options = record_options();
        options.runtime.subscriber_max_borrowed_samples = None;
        change(&mut options);
        validate_runtime_options(&options).map_err(|error| error.message().unwrap())
    };
    assert_eq!(refusal(&|_| {}), Ok(()));
    assert_eq!(
        refusal(&|options| options.archive.service = " \t".to_string()),
        Err("--service must not be empty".to_string()),
    );
    assert_eq!(
        refusal(&|options| options.runtime.common.cycle_time_ms = 0),
        Err("--cycle-time-ms must be greater than 0".to_string()),
    );
    assert_eq!(
        refusal(&|options| options.archive.segment_bytes = Some(0)),
        Err("--segment-bytes must be greater than 0".to_string()),
    );
    assert_eq!(
        refusal(&|options| options.archive.io_uring_queue_depth = Some(0)),
        Err("--io-uring-queue-depth must be greater than 0".to_string()),
    );
    assert_eq!(
        refusal(&|options| options.archive.io_submit_batch_max = Some(0)),
        Err("--io-submit-batch-max must be greater than 0".to_string()),
    );
    assert_eq!(
        refusal(&|options| options.archive.io_cqe_batch_max = Some(0)),
        Err("--io-cqe-batch-max must be greater than 0".to_string()),
    );
}

#[test]
fn recorder_config_takes_what_is_not_set_from_the_profile() {
    let mut options = record_options();
    options.runtime.subscriber_max_borrowed_samples = Some(7);
    options.archive.profile = CliRecorderProfile::Durable;
    options.archive.segment_bytes = Some(4096);
    let config = recorder_config(&options).unwrap();
    assert_eq!(config.settings.persistence_mode, PersistenceMode::Sync);
    assert_eq!(config.settings.segment_bytes, 4096);
    assert_eq!(config.settings.spare_preallocated_segments, 1);
    assert_eq!(config.settings.subscriber_max_borrowed_samples, Some(7));
    assert_eq!(config.paths.storage_path, "archive");
    assert_eq!(config.paths.metadata_log_path, "metadata");
    assert_eq!(stop_reason_label(PubSubRecorderStopReason::MaxMessages), "MaxMessages");
}

fn baseline_recorder() -> ArchiveRecorder {
    let mut store = ArchiveStore::new();
    ArchiveRecorderBuilder::new("archive")
        .persistence_mode(PersistenceMode::Volatile)
        .async_io_backend(AsyncIoBackend::Blocking)
        .create(&mut store, false, NOW_NS)
        .unwrap()
}

fn failing_segment() -> ArchivePath {
    ArchivePath::File(ArchiveFile::SegmentData {
        tier: ArchiveSegmentTier::HotAttached,
        segment_id: 1,
        segment_generation: 0,
    })
}

#[test]
fn fail_writer_policy_marks_recorder_degraded_on_enospc() {
    let mut recorder = baseline_recorder();

    let result = recorder.handle_write_failure(failing_segment(), IoFault::Os(28));
    assert!(matches!(result, Err(ArchiveRecorderError::OutOfSpace(_))));
    assert!(recorder.is_degraded());
    assert_eq!(recorder.stats().out_of_space_events, 1);
}

#[test]
fn non_enospc_write_failures_return_io_error_and_mark_degraded() {
    let mut recorder = baseline_recorder();

    let result = recorder.handle_write_failure(failing_segment(), IoFault::Os(5));
    assert!(matches!(result, Err(ArchiveRecorderError::Io { .. })));
    assert!(recorder.is_degraded());
    assert_eq!(recorder.stats().out_of_space_events, 0);
}

#[test]
fn recovery_duration_is_what_the_opener_measured() {
    let mut recorder = baseline_recorder();
    assert_eq!(recorder.recovery_status().recovery_duration_ns, 0);
    recorder.note_recovery_duration(17);
    assert_eq!(recorder.recovery_status().recovery_duration_ns, 17);
}

#[test]
fn replay_refuses_bad_options_in_order() {
    let mut store = ArchiveStore::new();
    let refusal = |store: &ArchiveStore, options: &ReplayOptions| {
        let error = prepare_replay(options, store).unwrap_err();
        (error.exit_code(), error.message().unwrap())
    };
    let mut options = replay_options(ReplaySelector::All);
    options.node_name = "  ".to_string();
    options.max_errors = Some(0);
    options.service = Some("destination".to_string());
    options.messages_per_sec = Some(1);
    assert_eq!(refusal(&store, &options), (2, "--node-name must not be empty".to_string()));
    options.node_name = "node".to_string();
    assert_eq!(refusal(&store, &options), (2, "--max-errors must be > 0".to_string()));
    options.max_errors = Some(2);
    assert_eq!(refusal(&store, &options), (3, "archive not found at archive".to_string()));
    create_archive(&mut store, "archive", "metadata");
    assert_eq!(
        refusal(&store, &options),
        (2, "--service is only valid with --to=publish-subscribe".to_string()),
    );
    options.to = ReplayDestination::PublishSubscribe;
    options.service = None;
    assert_eq!(
        refusal(&store, &options),
        (2, "--service is required for --to=publish-subscribe".to_string()),
    );
    options.service = Some("\u{2003}".to_string());
    assert_eq!(refusal(&store, &options), (2, "--service must not be empty".to_string()));
    options.service = Some("destination".to_string());
    assert_eq!(
        refusal(&store, &options),
        (2, "--messages-per-sec is only valid when --rate=fixed".to_string()),
    );
    options.rate = ReplayRateMode::Fixed;
    let setup = prepare_replay(&options, &store).unwrap();
    assert_eq!(setup.service.as_deref(), Some("destination"));
    assert_eq!(setup.max_errors, 2);
    options.messages_per_sec = Some(0);
    assert_eq!(refusal(&store, &options), (2, "--messages-per-sec must be > 0".to_string()));
    options.messages_per_sec = None;
    assert_eq!(
        refusal(&store, &options),
        (2, "--messages-per-sec is required when --rate=fixed".to_string()),
    );
}

#[test]
fn replay_without_the_commit_log_is_not_available() {
    let mut store = ArchiveStore::new();
    create_archive(&mut store, "archive", "metadata");
    assert!(store.remove(ArchiveFile::CommitLog, "remove"));
    let error = prepare_replay(&replay_options(ReplaySelector::All), &store).unwrap_err();
    assert_eq!(error.message().unwrap(), "commit.idxlog not found at metadata");
}

#[test]
fn missing_records_stop_a_replay_or_are_skipped() {
    let mut store = ArchiveStore::new();
    create_archive(&mut store, "archive", "metadata");
    let replayer = open_replayer(&store);
    let selectors = || vec![Selector::Sequence(9), Selector::Range { from: 3, count: 5 }];

    let mut strict = ReplayRun::new(selectors(), false, 1).unwrap();
    let error = run_replay(&store, &replayer, &mut strict).unwrap_err();
    assert_eq!(
        error.message().unwrap(),
        "sequence 9 is not available; reached error limit (1/1)",
    );
    assert_eq!(strict.counters.errors, 1);

    let mut patient = ReplayRun::new(selectors(), false, 4).unwrap();
    let error = run_replay(&store, &replayer, &mut patient).unwrap_err();
    assert_eq!(
        error.message().unwrap(),
        "range from 3 count 5 resolved only 2 records; reached error limit (4/4)",
    );
    assert_eq!(patient.counters.emitted, 2);

    let mut skipping = ReplayRun::new(selectors(), true, usize::MAX).unwrap();
    let frames = run_replay(&store, &replayer, &mut skipping).unwrap();
    assert_eq!(frames.len(), 2);
    assert_eq!(skipping.counters.selected, 6);
    assert_eq!(skipping.counters.skipped_missing, 4);
    let counters = skipping.counters;
    assert_eq!(
        counters.selected,
        counters.emitted + counters.skipped_missing + counters.errors,
    );
}

#[test]
fn missing_locators_are_told_from_broken_ones() {
    let mut store = ArchiveStore::new();
    create_archive(&mut store, "archive", "metadata");
    let replayer = open_replayer(&store);
    let elsewhere =
        ArchiveLocator { segment_id: 77, segment_generation: 1, file_offset: 76, frame_len: 72 };
    let mut skipping = ReplayRun::new(vec![Selector::Locator(elsewhere)], true, 1).unwrap();
    assert_eq!(run_replay(&store, &replayer, &mut skipping).unwrap().len(), 0);
    assert_eq!(skipping.counters.skipped_missing, 1);

    let mut strict = ReplayRun::new(vec![Selector::Locator(elsewhere)], false, 1).unwrap();
    let error = run_replay(&store, &replayer, &mut strict).unwrap_err();
    assert_eq!(
        error.message().unwrap(),
        "locator 77:1:76:72 is not available; reached error limit (1/1)",
    );

    let real = replayer.read_at_sequence(&store, 1).unwrap().unwrap().locator;
    let broken = ArchiveLocator { frame_len: real.frame_len + 8, ..real };
    let mut failing = ReplayRun::new(vec![Selector::Locator(broken)], true, 1).unwrap();
    let error = run_replay(&store, &replayer, &mut failing).unwrap_err();
    assert!(matches!(error, CommandError::Replay(ArchiveReplayError::InvalidFrameLength { .. })));
    assert_eq!(error.exit_code(), 1);
}

#[test]
fn a_replay_needs_selectors() {
    let error = ReplayRun::new(Vec::new(), false, 1).unwrap_err();
    assert_eq!(error.message().unwrap(), "no selectors resolved for replay");
}

#[test]
fn options_stand_for_their_selectors() {
    let direct = |selector: ReplaySelector| selectors_from_options(&selector, &[5, 9]);
    assert_eq!(
        direct(ReplaySelector::All).unwrap().unwrap(),
        vec![Selector::Sequence(5), Selector::Sequence(9)],
    );
    assert_eq!(
        direct(ReplaySelector::Sequence(SequenceSelector { at: 3 })).unwrap().unwrap(),
        vec![Selector::Sequence(3)],
    );
    assert_eq!(
        direct(ReplaySelector::Range(RangeSelector { from: 3, count: 2 })).unwrap().unwrap(),
        vec![Selector::Range { from: 3, count: 2 }],
    );
    assert_eq!(
        direct(ReplaySelector::Range(RangeSelector { from: 3, count: 0 }))
            .unwrap_err()
            .message()
            .unwrap(),
        "--count must be > 0",
    );
    let locator = |text: &str| direct(ReplaySelector::Locator(LocatorSelector {
        at: text.to_string(),
    }));
    assert_eq!(
        locator("1:2:3:4").unwrap().unwrap(),
        vec![Selector::Locator(ArchiveLocator {
            segment_id: 1,
            segment_generation: 2,
            file_offset: 3,
            frame_len: 4,
        })],
    );
    assert_eq!(
        locator("1:0:3:4").unwrap_err().message().unwrap(),
        "invalid locator segment generation '0', expected > 0",
    );
    assert_eq!(
        locator("1:2:3:0").unwrap_err().message().unwrap(),
        "invalid locator frame_len '0', expected > 0",
    );
    assert_eq!(
        locator("1:2:3").unwrap_err().message().unwrap(),
        "invalid locator '1:2:3', expected <segment_id>:<generation>:<offset>:<frame_len>",
    );
    let streamed = ReplaySelector::Selectors(SelectorsSelector {
        stdin: false,
        file: Some("selectors.csv".to_string()),
        selector_format: SelectorFormat::Csv,
    });
    assert_eq!(selector_source_label(&streamed), "selectors:file:csv");
    assert!(direct(streamed).unwrap().is_none());
}

#[test]
fn the_pacer_keeps_the_rate() {
    let mut options = replay_options(ReplaySelector::All);
    let mut fast = ReplayPacer::new(&options).unwrap();
    assert_eq!(fast.pace(5), ReplayPause::NoPause);
    assert_eq!(fast.pace(9), ReplayPause::NoPause);

    options.rate = ReplayRateMode::Recorded;
    options.max_recorded_gap_ms = 1;
    let mut recorded = ReplayPacer::new(&options).unwrap();
    assert_eq!(recorded.pace(1_000), ReplayPause::NoPause);
    assert_eq!(recorded.pace(4_000), ReplayPause::Nanoseconds(3_000));
    assert_eq!(recorded.pace(2_000), ReplayPause::NoPause);
    assert_eq!(recorded.pace(9_000_000), ReplayPause::Nanoseconds(1_000_000));
    options.max_recorded_gap_ms = 0;
    let mut hurried = ReplayPacer::new(&options).unwrap();
    assert_eq!(hurried.pace(1), ReplayPause::NoPause);
    assert_eq!(hurried.pace(2), ReplayPause::NoPause);

    options.rate = ReplayRateMode::Fixed;
    options.messages_per_sec = Some(10);
    let mut fixed = ReplayPacer::new(&options).unwrap();
    assert_eq!(fixed.pace(1), ReplayPause::NoPause);
    assert_eq!(fixed.pace(1), ReplayPause::FixedInterval);
}

#[test]
fn missing_counts_do_not_overflow() {
    let mut counters = ReplayCounters::new();
    counters.errors = usize::MAX - 1;
    assert!(counters.handle_missing(0, false, 1, "nothing").is_ok());
    assert!(counters.handle_missing(5, false, usize::MAX, "much").is_err());
    assert_eq!(counters.errors, usize::MAX);
}

#[test]
fn a_stream_without_state_is_unknown() {
    let state = state_or_default(None, "camera", 3);
    assert_eq!(state.stream_id, "camera");
    assert_eq!(state.log_id, [0; 16]);
    assert_eq!(state.roll_file, "commit.idxlog");
    assert_eq!(state.byte_offset, 0);
    assert_eq!(state.schema_version, 3);
}

#[test]
fn checkpoints_need_a_log_that_reaches_them() {
    let mut store = ArchiveStore::new();
    let state = |store: &ArchiveStore, ordinal: u64| {
        make_indexer_state(
            store,
            "metadata",
            "smoke",
            None,
            None,
            MetadataWatermark { last_commit_ordinal: 9, last_indexed_commit_ordinal: ordinal },
            NOW_NS,
            SUPPORTED_SCHEMA,
        )
        .map(|state| (state.roll_file, state.byte_offset))
        .map_err(|error| error.message().unwrap())
    };
    assert_eq!(state(&store, 0), Err("no commit log files found in 'metadata'".to_string()));
    assert_eq!(
        scan_commit_log(&store, "metadata", ArchiveFile::CommitLog, 1)
            .map_err(|error| error.message().unwrap()),
        Err("open commit log 'metadata/commit.idxlog' failed: \
             No such file or directory (os error 2)"
            .to_string()),
    );
    create_archive(&mut store, "archive", "metadata");
    assert_eq!(state(&store, 0), Ok(("commit.idxlog".to_string(), 76)));
    assert_eq!(state(&store, 3), Ok(("commit.idxlog".to_string(), 76 + 3 * 104)));
    assert_eq!(
        state(&store, 5),
        Err("unable to resolve checkpoint for commit ordinal 5 under 'metadata'; \
             visible ordinal range is smaller"
            .to_string()),
    );
    store.write_at(ArchiveFile::CommitLog, 76 + 104, b"XXXX", "spoil").unwrap();
    assert_eq!(
        state(&store, 3),
        Err("commit log 'metadata/commit.idxlog' contains invalid entry magic at offset 180"
            .to_string()),
    );
    store.set_len(ArchiveFile::CommitLog, 40, "cut").unwrap();
    assert_eq!(
        state(&store, 3),
        Err("commit log 'metadata/commit.idxlog' is shorter than archive header".to_string()),
    );
}

#[test]
fn a_sink_gets_exactly_the_new_records() {
    let mut store = ArchiveStore::new();
    create_archive(&mut store, "archive", "metadata");
    let sink = RecordingSink::default();
    let mut indexer = ArchiveMetadataIndexerBuilder::new("metadata")
        .metadata_log_path("metadata")
        .sink(sink.clone())
        .open(&store)
        .unwrap();
    let sequences = |batch: usize| -> Vec<u64> {
        sink.batches.borrow()[batch].iter().map(|record| record.sequence).collect()
    };
    assert_eq!(indexer.catch_up_with_limit(&mut store, Some(3)).unwrap(), 3);
    assert_eq!(sequences(0), vec![1, 2, 3]);
    assert_eq!(sink.flushes.get(), 1);
    assert_eq!(indexer.catch_up_once(&mut store).unwrap(), 1);
    assert_eq!(sequences(1), vec![4]);
    assert_eq!(sink.flushes.get(), 2);
    assert_eq!(indexer.catch_up_once(&mut store).unwrap(), 0);
    assert_eq!(sink.batches.borrow().len(), 2);
    assert_eq!(sink.flushes.get(), 2);
    indexer.reindex(&mut store).unwrap();
    assert_eq!(sequences(2), vec![1, 2, 3, 4]);
    assert_eq!(sink.flushes.get(), 3);
    assert_eq!(indexer.watermark().last_indexed_commit_ordinal, 4);
}

#[test]
fn a_sink_that_refuses_gets_the_records_again() {
    let mut store = ArchiveStore::new();
    create_archive(&mut store, "archive", "metadata");
    let sink = RecordingSink::default();
    let mut indexer = ArchiveMetadataIndexerBuilder::new("metadata")
        .metadata_log_path("metadata")
        .sink(sink.clone())
        .open(&store)
        .unwrap();
    let before = indexer.watermark();
    sink.refuses_records.set(true);
    let refused = indexer.catch_up_once(&mut store).unwrap_err();
    assert_eq!(format!("{refused:?}"), "Sink(ArchiveMetadataSinkError { details: \"no records\" })");
    assert_eq!(sink.flushes.get(), 0);
    assert_eq!(indexer.watermark(), before);
    assert!(!store.contains(ArchiveFile::Watermark));
    sink.refuses_records.set(false);
    sink.refuses_flush.set(true);
    let refused = indexer.catch_up_once(&mut store).unwrap_err();
    assert_eq!(format!("{refused:?}"), "Sink(ArchiveMetadataSinkError { details: \"no flush\" })");
    assert_eq!(indexer.watermark(), before);
    sink.refuses_flush.set(false);
    assert_eq!(indexer.catch_up_once(&mut store).unwrap(), 4);
    let batches = sink.batches.borrow();
    assert_eq!(batches.len(), 3);
    assert_eq!(batches[0], batches[1]);
    assert_eq!(batches[1], batches[2]);
    assert!(store.contains(ArchiveFile::Watermark));
}

#[test]
fn a_disabled_core_index_is_not_kept() {
    for (value, kept) in [(None, true), (Some(true), true), (Some(false), false)] {
        let mut store = ArchiveStore::new();
        create_archive(&mut store, "archive", "metadata");
        let builder = ArchiveMetadataIndexerBuilder::new("metadata")
            .metadata_log_path("metadata")
            .core_locator_index_path("metadata/core-locator.idx");
        let builder = match value {
            Some(value) => builder.enable_core_locator_index(value),
            None => builder,
        };
        let mut indexer = builder.open(&store).unwrap();
        assert_eq!(indexer.catch_up_once(&mut store).unwrap(), 4);
        assert_eq!(store.contains(ArchiveFile::CoreLocatorIndex), kept);
        assert_eq!(indexer.status().core_locator_index_path.is_some(), kept);
    }
}
