use log_archive::align::{
    build_aligned_row, build_grid, check_time_order, find_match, match_status_label,
    normalize_streams, stamp_records, time_field_label, AlignBuildContext, AlignMode, FillPolicy,
    MatchStatus, StampedRecord, TimeField, DEFAULT_ALIGN_ROW_LIMIT,
};
use log_archive::checkpoint::{scan_entries, CommitLogScan, ScanFault};
use log_archive::command::CommandError;
use log_archive::metadata::{ArchiveMetadataSinkError, MetadataCommitRecord, MetadataWatermark};
use log_archive::query_answer::{
    aligned_horizon, build_align_selector_row, check_window_indexed, ensure_schema_compatibility,
    index_db_files, is_sequence_not_indexed_yet, locate_locator, locate_range, locate_sequence,
    map_sink_error, range_is_complete, select_locators, status_report, stream_watermark_path,
    IndexerState, SchemaStep,
};
use log_archive::query_tool::{
    align_window, catch_up_is_done, catch_up_target_label, check_catch_up, check_index_run,
    check_range, check_window, epoch_ns, parse_utc_ns, plan_alignment, resolve_time_window,
    AlignWindowOptions, IndexCatchUpOptions, IndexCatchUpTarget, IndexRunOptions,
    LocateLocatorOptions, LocateRangeOptions, LocateSequenceOptions, LocateWindowOptions,
    QueryEmitMode,
};
use log_archive::selectors::Selector;
use log_archive::types::{ArchiveLocator, ArchiveSourcePattern};

fn record(sequence: u64, event_time_ns: u64) -> MetadataCommitRecord {
    MetadataCommitRecord {
        log_id: [0xAB; 16],
        commit_ordinal: sequence,
        sequence,
        locator: ArchiveLocator {
            segment_id: 1,
            segment_generation: 1,
            file_offset: 76 + sequence * 80,
            frame_len: 80,
        },
        frame_checksum: 7,
        event_time_ns,
        commit_time_ns: event_time_ns + 1,
        source_pattern: ArchiveSourcePattern::PublishSubscribe,
        source_service_id: 1,
        source_instance_id: 2,
        source_sequence: Some(sequence),
    }
}

fn state(last_indexed: u64, last_commit: u64) -> IndexerState {
    IndexerState {
        stream_id: "camera".to_string(),
        log_id: [0x0F; 16],
        last_commit_ordinal: last_commit,
        last_indexed_commit_ordinal: last_indexed,
        roll_file: "commit.idxlog".to_string(),
        byte_offset: 180,
        updated_at_ns: 5,
        schema_version: 1,
    }
}

fn message<T: std::fmt::Debug>(result: Result<T, CommandError>) -> String {
    result.unwrap_err().message().unwrap()
}

fn range_options(from: u64, count: usize) -> LocateRangeOptions {
    LocateRangeOptions {
        db_path: "index.db".to_string(),
        stream_id: "camera".to_string(),
        from,
        count,
        emit: QueryEmitMode::Selectors,
        expand_selectors: false,
    }
}

#[test]
fn index_options_are_checked() {
    let mut run = IndexRunOptions {
        stream_id: " ".to_string(),
        metadata_log_path: "metadata".to_string(),
        db_path: "index.db".to_string(),
        poll_interval_ms: 100,
        batch_max_records: 0,
        reindex: false,
    };
    assert_eq!(message(check_index_run(&run)), "--stream-id must not be empty");
    run.stream_id = "camera".to_string();
    assert_eq!(message(check_index_run(&run)), "--batch-max-records must be > 0");
    run.batch_max_records = 1;
    assert!(check_index_run(&run).is_ok());

    let mut catch_up = IndexCatchUpOptions {
        stream_id: "camera".to_string(),
        metadata_log_path: "metadata".to_string(),
        db_path: "index.db".to_string(),
        max_records: Some(0),
        target: IndexCatchUpTarget::Current,
        reindex: false,
    };
    assert_eq!(message(check_catch_up(&catch_up)), "--max-records must be > 0 when provided");
    catch_up.max_records = None;
    assert!(check_catch_up(&catch_up).is_ok());
}

#[test]
fn a_catch_up_ends_at_its_target() {
    let watermark = MetadataWatermark { last_commit_ordinal: 9, last_indexed_commit_ordinal: 5 };
    assert!(catch_up_is_done(IndexCatchUpTarget::Current, 5, watermark, 2));
    assert!(!catch_up_is_done(IndexCatchUpTarget::Current, 6, watermark, 2));
    assert!(catch_up_is_done(IndexCatchUpTarget::Current, 6, watermark, 0));
    assert!(!catch_up_is_done(IndexCatchUpTarget::Latest, 5, watermark, 2));
    assert!(catch_up_is_done(IndexCatchUpTarget::Latest, 5, watermark, 0));
    assert_eq!(catch_up_target_label(IndexCatchUpTarget::Latest), "latest");
}

#[test]
fn timestamps_become_nanoseconds_since_the_epoch() {
    assert_eq!(parse_utc_ns("1970-01-01T00:00:01Z").unwrap(), 1_000_000_000);
    assert_eq!(parse_utc_ns("1970-01-01T01:00:00.000000007+01:00").unwrap(), 7);
    assert_eq!(parse_utc_ns("2023-11-14T22:13:20Z").unwrap(), 1_700_000_000_000_000_000);
    assert_eq!(
        message(parse_utc_ns("1969-12-31T23:59:59Z")),
        "timestamp '1969-12-31T23:59:59Z' resolves to a negative epoch value",
    );
    assert_eq!(
        message(parse_utc_ns("9999-01-01T00:00:00Z")),
        "timestamp '9999-01-01T00:00:00Z' exceeds u64 nanosecond range",
    );
    assert!(message(parse_utc_ns("yesterday"))
        .starts_with("invalid RFC3339 timestamp 'yesterday': "));
}

#[test]
fn parsed_instants_are_bounded() {
    assert_eq!(epoch_ns("t", Ok(u64::MAX as i128)).unwrap(), u64::MAX);
    assert_eq!(
        message(epoch_ns("t", Ok(u64::MAX as i128 + 1))),
        "timestamp 't' exceeds u64 nanosecond range",
    );
    assert_eq!(
        message(epoch_ns("t", Ok(-1))),
        "timestamp 't' resolves to a negative epoch value",
    );
    assert_eq!(
        message(epoch_ns("t", Err("why".to_string()))),
        "invalid RFC3339 timestamp 't': why",
    );
}

#[test]
fn windows_come_in_one_of_two_forms() {
    assert_eq!(resolve_time_window(Some(3), Some(3), None, None).unwrap(), (3, 3));
    assert_eq!(
        resolve_time_window(
            None,
            None,
            Some("1970-01-01T00:00:01Z"),
            Some("1970-01-01T00:00:02Z"),
        )
        .unwrap(),
        (1_000_000_000, 2_000_000_000),
    );
    assert_eq!(
        message(resolve_time_window(Some(4), Some(3), None, None)),
        "time window start must be <= end",
    );
    assert_eq!(
        message(resolve_time_window(Some(4), None, None, Some("1970-01-01T00:00:02Z"))),
        "provide either (--start-ns and --end-ns) or (--start-utc and --end-utc)",
    );
}

#[test]
fn window_queries_do_not_emit_aligned_rows() {
    let mut options = LocateWindowOptions {
        db_path: "index.db".to_string(),
        stream_id: "camera".to_string(),
        start_ns: Some(1),
        end_ns: Some(2),
        start_utc: None,
        end_utc: None,
        time_field: TimeField::Event,
        emit: QueryEmitMode::Aligned,
    };
    assert_eq!(
        message(check_window(&options)),
        "--emit aligned is not supported by locate-window",
    );
    options.emit = QueryEmitMode::Summary;
    assert_eq!(check_window(&options).unwrap(), (1, 2));
}

#[test]
fn range_options_are_checked() {
    assert_eq!(message(check_range(&range_options(1, 0))), "--count must be > 0");
    assert_eq!(message(check_range(&range_options(1, 100_001))), "--count must be <= 100000");
    assert!(check_range(&range_options(1, 100_000)).is_ok());
    let mut aligned = range_options(1, 1);
    aligned.emit = QueryEmitMode::Aligned;
    assert_eq!(
        message(check_range(&aligned)),
        "--emit aligned is not supported by locate-range",
    );
}

#[test]
fn sequences_are_found_or_not_there_or_not_indexed_yet() {
    let options = LocateSequenceOptions {
        db_path: "index.db".to_string(),
        stream_id: "camera".to_string(),
        at: 8,
    };
    assert_eq!(
        locate_sequence(&options, true, None, &state(0, 0)).unwrap(),
        Selector::Sequence(8),
    );
    let missing = locate_sequence(&options, false, Some(7), &state(7, 7)).unwrap_err();
    assert_eq!(missing.error_code(), "NotAvailable");
    assert_eq!(missing.exit_code(), 3);
    assert_eq!(
        missing.message().unwrap(),
        "sequence 8 is not available for stream 'camera'",
    );
    let lagging = locate_sequence(&options, false, Some(7), &state(7, 9)).unwrap_err();
    assert_eq!(lagging.error_code(), "NotIndexedYet");
    assert_eq!(
        lagging.message().unwrap(),
        "requested bound 'sequence=8' exceeds query watermark 7 (last_commit_ordinal=9)",
    );
    assert!(!is_sequence_not_indexed_yet(8, Some(8), &state(7, 9)));
    assert!(is_sequence_not_indexed_yet(1, None, &state(0, 9)));
    assert!(!is_sequence_not_indexed_yet(0, None, &state(0, 9)));
}

#[test]
fn ranges_are_answered_only_when_they_are_whole() {
    let records = [record(3, 30), record(4, 40)];
    assert!(range_is_complete(3, 2, &records));
    assert!(!range_is_complete(3, 3, &records));
    assert!(!range_is_complete(2, 2, &records));
    assert!(range_is_complete(u64::MAX, 2, &[record(u64::MAX, 1), record(u64::MAX, 2)]));

    let mut options = range_options(3, 2);
    assert_eq!(
        locate_range(&options, &records, Some(4), &state(4, 4)).unwrap(),
        vec![Selector::Range { from: 3, count: 2 }],
    );
    options.expand_selectors = true;
    assert_eq!(
        locate_range(&options, &records, Some(4), &state(4, 4)).unwrap(),
        vec![Selector::Locator(records[0].locator), Selector::Locator(records[1].locator)],
    );
    assert_eq!(select_locators(&records[1..]), vec![Selector::Locator(records[1].locator)]);

    let more = range_options(3, 3);
    assert_eq!(
        message(locate_range(&more, &records, Some(4), &state(4, 4))),
        "sequence range from 3 (count=3) is not available for stream 'camera'",
    );
    assert_eq!(
        message(locate_range(&more, &records, Some(4), &state(4, 6))),
        "requested bound 'range=3..=5' exceeds query watermark 4 (last_commit_ordinal=6)",
    );
}

#[test]
fn locators_are_found_or_not_there_or_not_indexed_yet() {
    let options = LocateLocatorOptions {
        db_path: "index.db".to_string(),
        stream_id: "camera".to_string(),
        at: "1:1:156:80".to_string(),
    };
    let locator = record(1, 1).locator;
    assert_eq!(
        locate_locator(&options, locator, true, &state(1, 1)).unwrap(),
        Selector::Locator(locator),
    );
    assert_eq!(
        message(locate_locator(&options, locator, false, &state(1, 1))),
        "locator 1:1:156:80 is not available for stream 'camera'",
    );
    assert_eq!(
        message(locate_locator(&options, locator, false, &state(1, 2))),
        "requested bound 'locator=1:1:156:80' exceeds query watermark 1 (last_commit_ordinal=2)",
    );
}

#[test]
fn windows_behind_the_index_wait() {
    assert!(check_window_indexed(None, 50, Some(50), &state(1, 2)).is_ok());
    assert!(check_window_indexed(None, 51, Some(50), &state(2, 2)).is_ok());
    assert_eq!(
        message(check_window_indexed(None, 51, Some(50), &state(1, 2))),
        "requested bound 'window_end_ns=51' exceeds query watermark 1 (last_commit_ordinal=2)",
    );
    assert_eq!(
        message(check_window_indexed(Some("camera"), 1, None, &state(1, 2))),
        "requested bound 'stream='camera',window_end_ns=1' exceeds query watermark 1 \
         (last_commit_ordinal=2)",
    );
}

#[test]
fn status_reports_lag_and_horizon() {
    let mut other = state(3, 3);
    other.stream_id = "radar".to_string();
    let states = [state(5, 9), other];
    let all = status_report(&states, None);
    assert_eq!(all.streams.len(), 2);
    assert_eq!(all.streams[0].lag_commits, 4);
    assert_eq!(all.streams[0].log_id, "0f".repeat(16));
    assert_eq!(all.aligned_horizon_commit_ordinal, 3);
    let one = status_report(&states, Some("camera"));
    assert_eq!(one.streams.len(), 1);
    assert_eq!(one.aligned_horizon_commit_ordinal, 5);
    let none = status_report(&states, Some("lidar"));
    assert_eq!(none.streams.len(), 0);
    assert_eq!(none.aligned_horizon_commit_ordinal, 0);
    assert_eq!(aligned_horizon(&states), 3);
    assert_eq!(aligned_horizon(&[]), 0);
    assert_eq!(aligned_horizon(&[state(9, 4)]), 4);
}

#[test]
fn sink_errors_tell_busy_databases_apart() {
    for details in ["database is locked", "x: database is busy", "writer lock is already held!"] {
        let error = map_sink_error(ArchiveMetadataSinkError::new(details.to_string()));
        assert_eq!(error.error_code(), "ResourceBusy");
        assert_eq!(error.message().unwrap(), details);
    }
    let error = map_sink_error(ArchiveMetadataSinkError::new("disk I/O error".to_string()));
    assert_eq!(error.error_code(), "Internal");
    assert_eq!(error.exit_code(), 1);
    assert_eq!(error.message().unwrap(), "ArchiveMetadataSinkError(disk I/O error)");
}

#[test]
fn schemas_that_do_not_fit_are_refused_or_reset() {
    let decide = |versions: Result<Vec<u32>, &str>, reset: bool| {
        ensure_schema_compatibility(
            "index.db",
            versions.map_err(|details| ArchiveMetadataSinkError::new(details.to_string())),
            reset,
            (2, 3),
        )
        .map_err(|error| error.message().unwrap())
    };
    assert_eq!(decide(Ok(vec![]), false), Ok(SchemaStep::Proceed));
    assert_eq!(decide(Ok(vec![2, 3]), false), Ok(SchemaStep::Proceed));
    assert_eq!(decide(Ok(vec![1, 3]), true), Ok(SchemaStep::Reset));
    assert_eq!(
        decide(Ok(vec![1, 3]), false),
        Err("index DB schema version 1 is below supported minimum 2; migration required or \
             rerun with --reindex"
            .to_string()),
    );
    assert_eq!(
        decide(Ok(vec![2, 4]), false),
        Err("index DB schema version 4 is above supported maximum 3; upgrade iox2-log-query or \
             rerun with --reindex to rebuild this DB"
            .to_string()),
    );
    assert_eq!(decide(Err("schema_migrations table is missing"), true), Ok(SchemaStep::Reset));
    assert_eq!(
        decide(Err("schema_migrations table is missing"), false),
        Err("index DB at 'index.db' has no schema migration metadata; migration is required or \
             rerun with --reindex"
            .to_string()),
    );
    assert_eq!(decide(Err("database is locked"), true), Err("database is locked".to_string()));
}

#[test]
fn index_files_lie_next_to_the_database() {
    assert_eq!(
        stream_watermark_path(Some("/data"), Some("index"), "cam/front-1ä").unwrap(),
        "/data/index.cam_front_1_.watermark",
    );
    assert_eq!(
        stream_watermark_path(Some(""), None, "radar").unwrap(),
        "index.radar.watermark",
    );
    assert_eq!(
        message(stream_watermark_path(None, Some("index"), "radar")),
        "--db-path must have a parent directory",
    );
    assert_eq!(index_db_files("a.db"), vec!["a.db", "a.db-wal", "a.db-shm"]);
}

fn align_options(streams: &[&str]) -> AlignWindowOptions {
    AlignWindowOptions {
        db_path: "index.db".to_string(),
        streams: streams.iter().map(|stream| stream.to_string()).collect(),
        start_ns: Some(0),
        end_ns: Some(100),
        start_utc: None,
        end_utc: None,
        time_field: TimeField::Event,
        mode: AlignMode::Anchor,
        anchor_stream: Some("camera".to_string()),
        step_ns: None,
        max_skew_ns: 5,
        fill_policy: FillPolicy::Nearest,
        require_all_streams: false,
        emit: QueryEmitMode::Aligned,
        include_provenance: false,
        limit: None,
    }
}

#[test]
fn alignments_are_planned() {
    let plan = plan_alignment(&align_options(&["camera", "radar", "camera"])).unwrap();
    assert_eq!(plan.streams, vec!["camera", "radar"]);
    assert_eq!((plan.start_ns, plan.end_ns), (0, 100));
    assert_eq!(plan.limit, DEFAULT_ALIGN_ROW_LIMIT);

    assert_eq!(
        message(plan_alignment(&align_options(&[]))),
        "--streams must contain at least one stream id",
    );
    assert_eq!(
        message(plan_alignment(&align_options(&["camera", ""]))),
        "--stream-id must not be empty",
    );
    let mut options = align_options(&["camera"]);
    options.limit = Some(0);
    assert_eq!(message(plan_alignment(&options)), "--limit must be in [1, 1000000]");
    options.limit = Some(1_000_001);
    assert_eq!(message(plan_alignment(&options)), "--limit must be in [1, 1000000]");
    options.limit = Some(4);
    options.anchor_stream = None;
    assert_eq!(
        message(plan_alignment(&options)),
        "--anchor-stream is required with --mode anchor",
    );
    options.anchor_stream = Some("radar".to_string());
    assert_eq!(
        message(plan_alignment(&options)),
        "--anchor-stream must be part of --streams",
    );
    options.mode = AlignMode::Grid;
    assert_eq!(
        message(plan_alignment(&options)),
        "--step-ns is required with --mode grid",
    );
    options.step_ns = Some(0);
    assert_eq!(message(plan_alignment(&options)), "--step-ns must be > 0");
    options.step_ns = Some(1);
    assert!(plan_alignment(&options).is_ok());
    assert_eq!(
        normalize_streams(&["b".to_string(), "a".to_string(), "b".to_string()]).unwrap(),
        vec!["b", "a"],
    );
}

fn stamped(times: &[u64]) -> Vec<StampedRecord> {
    let records: Vec<MetadataCommitRecord> =
        times.iter().map(|time| record(*time, *time)).collect();
    stamp_records(&records, TimeField::Event)
}

#[test]
fn streams_are_aligned_on_the_anchor() {
    let mut options = align_options(&["camera", "radar"]);
    let plan = plan_alignment(&options).unwrap();
    let data = vec![stamped(&[10, 20, 30]), stamped(&[12, 20, 50])];
    let rows = align_window(&options, &plan, &data).unwrap();
    assert_eq!(rows.len(), 3);
    assert_eq!(rows[0].aligned_time_ns, 10);
    assert_eq!(rows[0].matches[0].status, MatchStatus::Exact);
    assert_eq!(rows[0].matches[1].status, MatchStatus::Nearest);
    assert_eq!(rows[0].matches[1].delta_ns, Some(2));
    assert_eq!(rows[1].matches[1].status, MatchStatus::Exact);
    assert_eq!(rows[2].matches[1].status, MatchStatus::Missing);
    let selectors = build_align_selector_row(&rows[2].matches);
    assert_eq!(
        selectors,
        vec![Some(Selector::Locator(record(30, 30).locator)), None],
    );

    options.require_all_streams = true;
    let whole = align_window(&options, &plan, &data).unwrap();
    assert_eq!(whole.len(), 2);

    options.require_all_streams = false;
    options.fill_policy = FillPolicy::Drop;
    let exact = align_window(&options, &plan, &data).unwrap();
    assert_eq!(
        exact.iter().map(|row| row.aligned_time_ns).collect::<Vec<_>>(),
        vec![20],
    );

    options.limit = Some(2);
    let short = plan_alignment(&options).unwrap();
    assert_eq!(
        message(align_window(&options, &short, &data)),
        "aligned row cap exceeded (3 > 2)",
    );
}

#[test]
fn grids_end_at_the_end_of_the_window() {
    assert_eq!(build_grid(Some(30), 0, 100, 10).unwrap(), vec![0, 30, 60, 90, 100]);
    assert_eq!(build_grid(Some(50), 0, 100, 3).unwrap(), vec![0, 50, 100]);
    assert_eq!(build_grid(Some(7), 5, 5, 1).unwrap(), vec![5]);
    assert_eq!(
        build_grid(Some(u64::MAX), 1, u64::MAX, 2).unwrap(),
        vec![1, u64::MAX],
    );
    assert_eq!(message(build_grid(Some(50), 0, 100, 2)), "aligned row cap exceeded (>2)");
}

#[test]
fn the_nearest_record_wins_and_the_earlier_one_on_a_tie() {
    let records = stamped(&[10, 20]);
    let near = |time: u64, skew: u64| find_match(&records, time, FillPolicy::Nearest, skew);
    assert_eq!(near(15, 5).delta_ns, Some(-5));
    assert_eq!(near(16, 5).delta_ns, Some(4));
    assert_eq!(near(16, 3).status, MatchStatus::Missing);
    assert_eq!(near(0, 10).delta_ns, Some(10));
    assert_eq!(near(99, 100).delta_ns, Some(-79));
    assert_eq!(near(10, 0).delta_ns, Some(0));
    assert_eq!(find_match(&records, 15, FillPolicy::Null, 99).status, MatchStatus::Missing);
    assert_eq!(find_match(&[], 15, FillPolicy::Nearest, 99).status, MatchStatus::Missing);
    let context = AlignBuildContext {
        fill_policy: FillPolicy::Null,
        max_skew_ns: 0,
        require_all_streams: false,
    };
    let row = build_aligned_row(10, &[records.clone(), stamped(&[])], &context).unwrap();
    assert_eq!(row[1].status, MatchStatus::Missing);
    assert_eq!(match_status_label(row[0].status), "exact");
    assert_eq!(time_field_label(TimeField::Commit), "commit");
    assert!(check_time_order(&records));
    assert!(!check_time_order(&stamped(&[20, 10])));
}

fn log_of(entries: &[(&[u8; 4], u16)], tail: &[u8]) -> Vec<u8> {
    let mut bytes = vec![0u8; 76];
    for (magic, len) in entries {
        let mut entry = vec![0x55u8; (*len as usize).max(8)];
        entry[..4].copy_from_slice(*magic);
        entry[4..6].copy_from_slice(&len.to_le_bytes());
        bytes.extend_from_slice(&entry);
    }
    bytes.extend_from_slice(tail);
    bytes
}

#[test]
fn commit_logs_are_scanned_up_to_an_entry() {
    let log = log_of(&[(b"CID1", 104), (b"CID1", 8), (b"CID1", 104)], &[0; 30]);
    assert_eq!(
        scan_entries(&log, 2),
        Ok(CommitLogScan { entries: 2, target_offset: Some(76 + 104 + 8) }),
    );
    assert_eq!(scan_entries(&log, 9), Ok(CommitLogScan { entries: 3, target_offset: None }));
    assert_eq!(scan_entries(&log, 0), Ok(CommitLogScan { entries: 3, target_offset: None }));
    assert_eq!(scan_entries(&log[..75], 1), Err(ScanFault::ShorterThanHeader));
    let mut dirty = log_of(&[], &[0; 30]);
    dirty[76 + 20] = 1;
    assert_eq!(scan_entries(&dirty, 1), Err(ScanFault::BytesBehindZeros));
    assert_eq!(scan_entries(&log_of(&[(b"CIDX", 104)], &[]), 1), Err(ScanFault::InvalidMagic(76)));
    assert_eq!(scan_entries(&log_of(&[(b"CID1", 7)], &[]), 1), Err(ScanFault::EntryTooShort(7)));
    let cut = log_of(&[(b"CID1", 104)], &[]);
    assert_eq!(scan_entries(&cut[..cut.len() - 1], 1), Err(ScanFault::EntryTooLong(76)));
}
