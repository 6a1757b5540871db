use log_archive::command::{
    check_service, parse_locator, push_locator, split_text, CommandError,
};
use log_archive::control_tool::{
    holds_text, map_control_error, validate_options, LogControlAction, LogControlOptions,
    LogRecorderControlError,
};
use log_archive::layout::{find_name_clash, identify_file, locate_file};
use log_archive::error::{ArchiveDirectory, ArchiveFile};
use log_archive::text::{
    blank, bytes_to_hex, chars_of, join_path, parse_u32, parse_u64, push_decimal,
    push_padded_decimal, text_of, trim, white_space,
};
use log_archive::types::{ArchiveLocator, ArchiveSegmentTier, ReplayPin};

#[test]
fn white_space_is_that_of_unicode() {
    for code in 0..=0x10FFFFu32 {
        if let Some(c) = char::from_u32(code) {
            assert_eq!(white_space(c), c.is_whitespace(), "{code:#x}");
        }
    }
}

#[test]
fn texts_are_trimmed() {
    for text in ["", "  ", " a b ", "\u{3000}x\n", "y", "\r\n\tz\u{85}"] {
        let chars = chars_of(text);
        assert_eq!(text_of(&trim(&chars)), text.trim());
        assert_eq!(blank(text), text.trim().is_empty());
    }
}

#[test]
fn numbers_are_written_and_read_as_decimals() {
    for number in [0, 7, 10, 4_294_967_295, 4_294_967_296, u64::MAX] {
        let mut text = "n=".to_string();
        push_decimal(&mut text, number);
        assert_eq!(text, format!("n={number}"));
        let digits = chars_of(&number.to_string());
        assert_eq!(parse_u64(&digits), Some(number));
        assert_eq!(parse_u32(&digits), u32::try_from(number).ok());
    }
    let mut padded = String::new();
    push_padded_decimal(&mut padded, 42, 5);
    assert_eq!(padded, "00042");
    for text in ["", "+", "-1", "1 ", "0x1", "18446744073709551616", "+3", "007"] {
        assert_eq!(parse_u64(&chars_of(text)), text.parse::<u64>().ok(), "{text}");
    }
}

#[test]
fn bytes_are_written_in_hexadecimal_digits() {
    let all: Vec<u8> = (0..=255).collect();
    let expected: String = all.iter().map(|byte| format!("{byte:02x}")).collect();
    assert_eq!(bytes_to_hex(&all), expected);
    assert_eq!(bytes_to_hex(&[]), "");
}

#[test]
fn texts_are_split_at_every_separator() {
    for text in ["", ",", "a", "a,b", ",a,,b,"] {
        let parts: Vec<String> =
            split_text(&chars_of(text), ',').iter().map(|part| text_of(part)).collect();
        assert_eq!(parts, text.split(',').collect::<Vec<_>>());
    }
    assert_eq!(join_path("a", "b"), "a/b");
    assert_eq!(join_path("a/", "b"), "a/b");
    assert_eq!(join_path("", "b"), "b");
}

#[test]
fn locators_survive_as_text() {
    for locator in [
        ArchiveLocator { segment_id: 0, segment_generation: 1, file_offset: 0, frame_len: 0 },
        ArchiveLocator {
            segment_id: u64::MAX,
            segment_generation: u32::MAX,
            file_offset: u64::MAX,
            frame_len: u32::MAX,
        },
    ] {
        let mut text = String::new();
        push_locator(&mut text, locator);
        assert_eq!(parse_locator(&text).unwrap(), locator);
    }
    for text in ["", "1", "1:2:3", "1:2:3:4:5", "1:2:3:x", ":2:3:4", "1:4294967296:3:4"] {
        assert_eq!(
            parse_locator(text).unwrap_err().message().unwrap(),
            format!(
                "invalid locator '{text}', expected <segment_id>:<generation>:<offset>:<frame_len>",
            ),
        );
    }
}

#[test]
fn files_are_found_again_by_their_names() {
    let mut files = vec![
        ArchiveFile::Catalog,
        ArchiveFile::CommitLog,
        ArchiveFile::RolledCommitLog { index: 12 },
        ArchiveFile::Watermark,
        ArchiveFile::CoreLocatorIndex,
        ArchiveFile::Pin {
            pin: ReplayPin { pin_id: 3, sequence_start: 1, sequence_end: 9 },
        },
    ];
    for tier in [ArchiveSegmentTier::HotAttached, ArchiveSegmentTier::ColdDetached] {
        files.push(ArchiveFile::SegmentData { tier, segment_id: 4, segment_generation: 2 });
        files.push(ArchiveFile::SegmentMeta { tier, segment_id: 4, segment_generation: 2 });
    }
    for file in files {
        let (directory, name) = locate_file(file);
        assert_eq!(identify_file(directory, &name), Some(file), "{name}");
    }
    assert_eq!(identify_file(ArchiveDirectory::Segments, "segment-x-g1.data"), None);
    assert_eq!(identify_file(ArchiveDirectory::Metadata, "commit-.idxlog"), None);
}

#[test]
fn names_with_other_zeros_or_a_plus_are_found() {
    for name in ["commit-5.idxlog", "commit-+5.idxlog", "commit-00000000000000000005.idxlog"] {
        assert_eq!(
            identify_file(ArchiveDirectory::Metadata, name),
            Some(ArchiveFile::RolledCommitLog { index: 5 }),
            "{name}"
        );
    }
    for name in ["segment-01-g1.data", "segment-1-g+1.data"] {
        assert_eq!(
            identify_file(ArchiveDirectory::Segments, name),
            Some(ArchiveFile::SegmentDataAlias { segment_id: 1, segment_generation: 1 }),
            "{name}"
        );
        assert_eq!(identify_file(ArchiveDirectory::Detached, name), None);
    }
    assert_eq!(identify_file(ArchiveDirectory::Segments, "segment-01-g1.meta"), None);
    assert_eq!(
        identify_file(ArchiveDirectory::Pins, "pin-03-s1-e9.pin"),
        Some(ArchiveFile::PinAlias {
            pin: ReplayPin { pin_id: 3, sequence_start: 1, sequence_end: 9 },
        })
    );
}

#[test]
fn two_names_of_one_rolled_log_clash() {
    let names = |names: &[&str]| -> Vec<String> {
        names.iter().map(|name| name.to_string()).collect()
    };
    let metadata = ArchiveDirectory::Metadata;
    let distinct = names(&["commit.idxlog", "commit-5.idxlog", "commit-06.idxlog", "other"]);
    assert_eq!(find_name_clash(metadata, &distinct), None);
    let doubled = names(&["commit-6.idxlog", "commit-5.idxlog", "x", "commit-05.idxlog"]);
    assert_eq!(find_name_clash(metadata, &doubled), Some((1, 3)));
    let segments = names(&["segment-1-g1.data", "segment-01-g1.data"]);
    assert_eq!(find_name_clash(ArchiveDirectory::Segments, &segments), None);
}

fn control_options(service: &str, timeout_ms: u64) -> LogControlOptions {
    LogControlOptions {
        service: service.to_string(),
        node_name: "iox2-log-control".to_string(),
        timeout_ms,
    }
}

#[test]
fn control_options_are_checked() {
    let refusal =
        |options: LogControlOptions| validate_options(&options).unwrap_err().message().unwrap();
    assert_eq!(refusal(control_options(" ", 0)), "--service must not be empty");
    assert_eq!(
        refusal(control_options("camera", 0)),
        "--timeout-ms must be greater than 0",
    );
    assert!(validate_options(&control_options("camera", 1)).is_ok());
    assert!(check_service("camera").is_ok());
    let (command, options) = LogControlAction::Pause(control_options("camera", 1)).into_parts();
    assert_eq!(command.operation(), "pause");
    assert_eq!(options.service, "camera");
}

#[test]
fn control_failures_are_told_apart() {
    let failure = |error: LogRecorderControlError| map_control_error(error, "flush");
    let rejected = failure(LogRecorderControlError::InvalidInput("daemon rejected it".to_string()));
    assert!(matches!(rejected, CommandError::InvalidInput(_)));
    assert_eq!(rejected.message().unwrap(), "daemon rejected flush command as invalid");
    let invalid = failure(LogRecorderControlError::InvalidInput("bad name".to_string()));
    assert_eq!(invalid.message().unwrap(), "bad name");
    let failed = failure(LogRecorderControlError::NotAvailable("the daemon failed".to_string()));
    assert_eq!(failed.message().unwrap(), "daemon failed to execute flush command");
    let absent = failure(LogRecorderControlError::NotAvailable("timed out".to_string()));
    assert_eq!(absent.exit_code(), 3);
    let broken = failure(LogRecorderControlError::Iceoryx2("no node".to_string()));
    assert_eq!((broken.exit_code(), broken.error_code()), (1, "Internal"));
    assert!(holds_text("abc", "") && holds_text("abc", "bc") && !holds_text("abc", "cb"));
}
