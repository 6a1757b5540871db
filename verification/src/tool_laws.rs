//! What the tools make of texts and options, in terms of the characters and values given to them.

use crate::admin_tool::listed;
use crate::align::first_of;
use crate::bytes::u16_at;
use crate::checkpoint::{
    checkpoint_from, checkpoint_of, scan_from, scanned, CheckpointModel, CommitLogScan, ScanFault,
};
use crate::command::{locator_of_text, replay_failure, split_all, CommandFailure, Roots};
use crate::commit_entry::COMMIT_ENTRY_MAGIC;
use crate::commit_log::commit_logs;
use crate::config::defaults_of;
use crate::control_tool::{
    control_failure, control_problem, holds, LogControlOptions, LogRecorderControlError,
};
use crate::error::{ArchiveFile, ArchiveReplayError};
use crate::layout::file_place;
use crate::record_tool::{
    cli_defaults, mode_of, options_problem, profile_of, settings_of, CliRecorderProfile,
    LogRecordPublishSubscribeOptions,
};
use crate::selectors::{
    column_value, csv_rows, csv_selector, filled_lines, lacking_column, ndjson_selector,
    required_columns, usable_locator, NdjsonSelectorRecord, Selector,
};
use crate::store::StoreModel;
use crate::text::{
    digits_value, first_place, hex, is_blank, is_digit, is_white_space, parsed_number, trimmed,
    trimmed_end, trimmed_start,
};
use crate::types::{ArchiveLocator, ArchiveSegmentState, ArchiveSegmentTier};
use vstd::prelude::*;

verus! {

/// The options of the recording tool default to what the recorder itself has for the profile of the
/// same name.
pub proof fn tool_defaults_are_those_of_the_profile(profile: CliRecorderProfile)
    ensures
        ({
            let tool = cli_defaults(profile);
            let recorder = defaults_of(profile_of(profile));
            &&& mode_of(tool.persistence_mode) == recorder.persistence_mode
            &&& tool.segment_bytes == recorder.segment_bytes
            &&& tool.spare_preallocated_segments == recorder.spare_preallocated_segments
            &&& tool.segment_preallocate
            &&& tool.subscriber_max_borrowed_samples is None
            &&& profile is Durable <==> profile_of(profile) is Durable
            &&& profile is Balanced <==> profile_of(profile) is Balanced
            &&& profile is Throughput <==> profile_of(profile) is Throughput
            &&& profile is Replay <==> profile_of(profile) is Replay
        }),
{
}

/// What an option of the recording tool gives is what the recorder gets; what none gives comes from
/// the profile, or stays open. An interval of no milliseconds is none.
pub proof fn recorder_gets_what_the_options_give(options: LogRecordPublishSubscribeOptions)
    ensures
        ({
            let settings = settings_of(options);
            let archive = options.archive;
            let runtime = options.runtime;
            let defaults = defaults_of(profile_of(archive.profile));
            &&& settings.profile == profile_of(archive.profile)
            &&& match archive.mode {
                Some(mode) => {
                    &&& settings.persistence_mode is Volatile <==> mode is Volatile
                    &&& settings.persistence_mode is Async <==> mode is Async
                    &&& settings.persistence_mode is Sync <==> mode is Sync
                },
                None => settings.persistence_mode == defaults.persistence_mode,
            }
            &&& match archive.segment_bytes {
                Some(bytes) => settings.segment_bytes == bytes,
                None => settings.segment_bytes == defaults.segment_bytes,
            }
            &&& match archive.spare_preallocated_segments {
                Some(spares) => settings.spare_preallocated_segments == spares,
                None => settings.spare_preallocated_segments
                    == defaults.spare_preallocated_segments,
            }
            &&& archive.segment_preallocate != Some(false) <==> settings.segment_preallocate
            &&& settings.max_disk_bytes == archive.max_disk_bytes
            &&& settings.io_uring_queue_depth == archive.io_uring_queue_depth
            &&& settings.io_submit_batch_max == archive.io_submit_batch_max
            &&& settings.io_cqe_batch_max == archive.io_cqe_batch_max
            &&& settings.io_uring_register_files == archive.io_uring_register_files
            &&& settings.metadata_log_roll_bytes == archive.metadata_log_roll_bytes
            &&& settings.metadata_log_max_bytes == archive.metadata_log_max_bytes
            &&& settings.subscriber_max_borrowed_samples
                == runtime.subscriber_max_borrowed_samples
            &&& settings.source_service_id == runtime.source_service_id
            &&& settings.cycle_time_ms == runtime.common.cycle_time_ms
            &&& settings.max_messages == runtime.common.max_messages
            &&& settings.timeout_ms == runtime.common.timeout_ms
            &&& match settings.flush_interval_ms {
                Some(ms) => ms == runtime.common.flush_interval_ms && ms > 0,
                None => runtime.common.flush_interval_ms == 0,
            }
            &&& settings.out_of_space_policy is Some <==> archive.out_of_space_policy is Some
            &&& settings.async_io_backend is Some <==> archive.async_io_backend is Some
            &&& settings.checksum_mode is Some <==> archive.checksum_mode is Some
            &&& settings.ack_level is Some <==> runtime.common.ack_level is Some
            &&& archive.async_io_backend is Some ==> {
                let asked = archive.async_io_backend->Some_0;
                let given = settings.async_io_backend->Some_0;
                &&& asked is IoUringPreferred <==> given is IoUringPreferred
                &&& asked is IoUringRequired <==> given is IoUringRequired
                &&& asked is Blocking <==> given is Blocking
            }
            &&& archive.checksum_mode is Some ==> (archive.checksum_mode->Some_0 is Crc32c
                <==> settings.checksum_mode->Some_0 is Crc32c)
            &&& runtime.common.ack_level is Some ==> {
                let asked = runtime.common.ack_level->Some_0;
                let given = settings.ack_level->Some_0;
                &&& asked is Accepted <==> given is Accepted
                &&& asked is DurableData <==> given is DurableData
                &&& asked is DurableDataAndCommitLog <==> given is DurableDataAndCommitLog
            }
        }),
{
}

/// Recording is refused exactly for a service of white space and for a number of zero.
pub proof fn recording_is_refused_for_empty_options(options: LogRecordPublishSubscribeOptions)
    ensures
        options_problem(options) is Some <==> {
            let service = options.archive.service@;
            ||| forall|i: int| 0 <= i < service.len() ==> is_white_space(#[trigger] service[i])
            ||| options.runtime.common.cycle_time_ms == 0
            ||| options.archive.segment_bytes == Some(0usize)
            ||| options.archive.io_uring_queue_depth == Some(0u32)
            ||| options.archive.io_submit_batch_max == Some(0u32)
            ||| options.archive.io_cqe_batch_max == Some(0u32)
            ||| options.runtime.subscriber_max_borrowed_samples == Some(0usize)
        },
{
}

/// A command exits with 2 where its input is at fault, with 3 where what it needs is not there yet
/// or in use, and with 1 otherwise. Never with 0. Errors of different exit codes are reported under
/// different names.
pub proof fn exit_codes_tell_whose_fault_it_is(a: CommandFailure, b: CommandFailure)
    ensures
        a.spec_exit_code() == 2 <==> a is InvalidInput,
        a.spec_exit_code() == 3 <==> a is NotAvailable || a is NotIndexedYet || a is ResourceBusy,
        a.spec_exit_code() == 1 <==> a is Recorder || a is Replay || a is Internal,
        a is InvalidInput ==> a.spec_message() == Some(a->InvalidInput_0),
        a is NotAvailable ==> a.spec_message() == Some(a->NotAvailable_0),
        a is ResourceBusy ==> a.spec_message() == Some(a->ResourceBusy_0),
        a is Internal ==> a.spec_message() == Some(a->Internal_0),
        a.spec_error_code() == b.spec_error_code() ==> a.spec_exit_code() == b.spec_exit_code(),
{
    reveal_strlit("InvalidInput");
    reveal_strlit("NotAvailable");
    reveal_strlit("NotIndexedYet");
    reveal_strlit("ResourceBusy");
    reveal_strlit("Internal");
    assert("InvalidInput"@[0] == 'I' && "InvalidInput"@.len() == 12);
    assert("NotAvailable"@[0] == 'N' && "NotAvailable"@.len() == 12);
    assert("NotIndexedYet"@.len() == 13);
    assert("ResourceBusy"@[0] == 'R' && "ResourceBusy"@.len() == 12);
    assert("Internal"@.len() == 8);
}

/// Data that is not there is told apart from input that is at fault and from an archive that cannot
/// be read.
pub proof fn replay_failures_keep_their_kind(roots: Roots, error: ArchiveReplayError)
    ensures
        ({
            let failure = replay_failure(roots, error);
            &&& failure is NotAvailable <==> error is MissingCommitLog || error is MissingSegment
            &&& failure is InvalidInput <==> error is InvalidConfiguration
                || error is InvalidCommitEntry || error is InvalidPinState
            &&& failure is NotAvailable || failure is InvalidInput || failure
                == CommandFailure::Replay(error)
        }),
{
}

/// A text is found in another where it stands somewhere in it.
pub proof fn text_is_found_where_it_stands(s: Seq<char>, part: Seq<char>, at: int)
    requires
        0 <= at,
    ensures
        first_place(s, part, at) is Some <==> exists|i: int|
            at <= i && i + part.len() <= s.len() && #[trigger] s.subrange(i, i + part.len())
                == part,
        match first_place(s, part, at) {
            Some(place) => {
                &&& at <= place
                &&& place + part.len() <= s.len()
                &&& s.subrange(place, place + part.len()) == part
                &&& forall|i: int|
                    at <= i < place ==> #[trigger] s.subrange(i, i + part.len()) != part
            },
            None => true,
        },
    decreases s.len() + 1 - at,
{
    if at + part.len() <= s.len() && s.subrange(at, at + part.len()) != part {
        text_is_found_where_it_stands(s, part, at + 1);
        if exists|i: int|
            at <= i && i + part.len() <= s.len() && #[trigger] s.subrange(i, i + part.len())
                == part {
            let i = choose|i: int|
                at <= i && i + part.len() <= s.len() && #[trigger] s.subrange(i, i + part.len())
                    == part;
            assert(at + 1 <= i);
        }
    }
}

/// A control request fails as what it failed as, and its own words are kept unless they tell that
/// the recorder itself refused or failed the command.
pub proof fn control_failures_keep_their_kind(
    error: LogRecorderControlError,
    operation: Seq<char>,
)
    ensures
        match error {
            LogRecorderControlError::InvalidInput(message) => {
                &&& control_failure(error, operation) is InvalidInput
                &&& !holds(message@, "daemon rejected"@) ==> control_failure(error, operation)
                    == CommandFailure::InvalidInput(message@)
            },
            LogRecorderControlError::NotAvailable(message) => {
                &&& control_failure(error, operation) is NotAvailable
                &&& !holds(message@, "daemon failed"@) ==> control_failure(error, operation)
                    == CommandFailure::NotAvailable(message@)
            },
            LogRecorderControlError::Iceoryx2(message) => control_failure(error, operation)
                == CommandFailure::Internal(message@),
        },
{
}

/// A control request needs a service and some time.
pub proof fn control_request_needs_service_and_time(options: LogControlOptions)
    ensures
        control_problem(options) is None <==> {
            let service = options.service@;
            &&& options.timeout_ms > 0
            &&& !forall|i: int| 0 <= i < service.len() ==> is_white_space(#[trigger] service[i])
        },
{
}

/// Parts with separators between them, as one text.
pub open spec fn glued(parts: Seq<Seq<char>>, separator: char) -> Seq<char>
    decreases parts.len(),
{
    if parts.len() == 0 {
        Seq::empty()
    } else if parts.len() == 1 {
        parts[0]
    } else {
        glued(parts.drop_last(), separator).push(separator) + parts.last()
    }
}

/// Splitting a text gives the parts that make it up again with separators between them, none of
/// which holds a separator.
pub proof fn split_parts_make_up_the_text(s: Seq<char>, separator: char)
    ensures
        ({
            let parts = split_all(s, separator);
            &&& parts.len() > 0
            &&& glued(parts, separator) == s
            &&& forall|k: int, i: int|
                #![trigger parts[k][i]]
                0 <= k < parts.len() && 0 <= i < parts[k].len() ==> parts[k][i] != separator
        }),
    decreases s.len(),
{
    let parts = split_all(s, separator);
    if s.len() == 0 {
        assert(parts[0] =~= s);
        assert(glued(parts, separator) =~= s);
    } else {
        split_parts_make_up_the_text(s.drop_last(), separator);
        let before = split_all(s.drop_last(), separator);
        if s.last() == separator {
            assert(parts.drop_last() =~= before);
            assert(glued(parts, separator) =~= s.drop_last().push(separator));
            assert(s =~= s.drop_last().push(separator));
            assert forall|k: int, i: int|
                #![trigger parts[k][i]]
                0 <= k < parts.len() && 0 <= i < parts[k].len() implies parts[k][i]
                != separator by {
                assert(k < before.len());
                assert(parts[k] == before[k]);
                assert(before[k][i] != separator);
            }
        } else {
            assert(parts.drop_last() =~= before.drop_last());
            assert(s =~= s.drop_last().push(s.last()));
            if parts.len() == 1 {
                assert(glued(parts, separator) =~= s);
            } else {
                assert(glued(parts, separator) =~= glued(before, separator).push(s.last()));
            }
            assert forall|k: int, i: int|
                #![trigger parts[k][i]]
                0 <= k < parts.len() && 0 <= i < parts[k].len() implies parts[k][i]
                != separator by {
                if k < parts.len() - 1 {
                    assert(parts[k] == before[k]);
                    assert(before[k][i] != separator);
                } else if i < before.last().len() {
                    assert(before[before.len() - 1][i] != separator);
                }
            }
        }
    }
}

/// A text is a locator exactly where it has four numbers between colons, the second of them not
/// zero, and each fits its field. The numbers are, in order, the segment, its generation, the offset
/// and the length.
pub proof fn locator_is_four_numbers(text: Seq<char>)
    ensures
        ({
            let parts = split_all(text, ':');
            match locator_of_text(text) {
                Ok(locator) => {
                    &&& parts.len() == 4
                    &&& parsed_number(parts[0], u64::MAX as int) == Some(locator.segment_id as int)
                    &&& parsed_number(parts[1], u32::MAX as int) == Some(
                        locator.segment_generation as int,
                    )
                    &&& parsed_number(parts[2], u64::MAX as int) == Some(locator.file_offset as int)
                    &&& parsed_number(parts[3], u32::MAX as int) == Some(locator.frame_len as int)
                    &&& locator.segment_generation > 0
                },
                Err(error) => {
                    &&& error is InvalidInput
                    &&& {
                        ||| parts.len() != 4
                        ||| parsed_number(parts[0], u64::MAX as int) is None
                        ||| parsed_number(parts[1], u32::MAX as int) is None
                        ||| parsed_number(parts[2], u64::MAX as int) is None
                        ||| parsed_number(parts[3], u32::MAX as int) is None
                        ||| parsed_number(parts[1], u32::MAX as int) == Some(0int)
                    }
                },
            }
        }),
{
}

/// A digit in front counts as often as the digits behind it allow for: a text of digits reads as
/// ten times the number before its last digit, plus that digit. A plus sign in front changes
/// nothing, and any other character is refused.
pub proof fn numbers_are_read_digit_by_digit(s: Seq<char>, c: char, max: int)
    requires
        is_digit(c),
        parsed_number(s, max) is Some,
    ensures
        ({
            let value = 10 * parsed_number(s, max)->Some_0 + (c as u32 - 48);
            parsed_number(s.push(c), max) == if value <= max {
                Some(value)
            } else {
                None
            }
        }),
{
    let longer = s.push(c);
    let digits = crate::text::unsigned_digits(s);
    assert(crate::text::unsigned_digits(longer) =~= digits.push(c));
    assert(digits.push(c).drop_last() =~= digits);
    assert(digits_value(digits.push(c)) == 10 * digits_value(digits) + (c as u32 - 48));
    assert forall|i: int| 0 <= i < digits.push(c).len() implies is_digit(
        #[trigger] digits.push(c)[i],
    ) by {
        if i < digits.len() {
            assert(is_digit(digits[i]));
        }
    }
}

/// A locator can be replayed from exactly where it names a generation and a length.
pub proof fn locator_to_replay_has_generation_and_length(locator: ArchiveLocator)
    ensures
        usable_locator(locator) is Ok <==> locator.segment_generation > 0 && locator.frame_len > 0,
        usable_locator(locator) is Ok ==> usable_locator(locator)->Ok_0 == locator,
        usable_locator(locator) is Err ==> usable_locator(locator)->Err_0 is InvalidInput,
{
}

/// A column of the table holds the same number as a field of the record.
pub open spec fn same_number(
    header: Seq<Seq<char>>,
    values: Seq<Seq<char>>,
    column: Seq<char>,
    max: int,
    field: Option<int>,
) -> bool {
    field is Some && column_value(header, values, column).len() > 0 && parsed_number(
        column_value(header, values, column),
        max,
    ) == field
}

/// A row of a table and a record of the same kind with the same numbers give the same selector,
/// which holds these numbers.
pub proof fn table_and_record_give_the_same_selector(
    header: Seq<Seq<char>>,
    values: Seq<Seq<char>>,
    record: NdjsonSelectorRecord,
    line: nat,
)
    requires
        column_value(header, values, "kind"@) == record.kind@,
    ensures
        record.kind@ == "sequence"@ && record.sequence is Some && same_number(
            header,
            values,
            "sequence"@,
            u64::MAX as int,
            Some(record.sequence->Some_0 as int),
        ) ==> csv_selector(header, values, line) == ndjson_selector(record, line)
            && csv_selector(header, values, line) == Ok::<Selector, CommandFailure>(
            Selector::Sequence(record.sequence->Some_0),
        ),
        record.kind@ == "range"@ && record.from is Some && record.count is Some
            && record.count->Some_0 > 0 && same_number(
            header,
            values,
            "from"@,
            u64::MAX as int,
            Some(record.from->Some_0 as int),
        ) && same_number(
            header,
            values,
            "count"@,
            usize::MAX as int,
            Some(record.count->Some_0 as int),
        ) ==> csv_selector(header, values, line) == ndjson_selector(record, line)
            && csv_selector(header, values, line) == Ok::<Selector, CommandFailure>(
            Selector::Range { from: record.from->Some_0, count: record.count->Some_0 },
        ),
        record.kind@ == "locator"@ && record.segment_id is Some && record.segment_generation is Some
            && record.file_offset is Some && record.frame_len is Some && same_number(
            header,
            values,
            "segment_id"@,
            u64::MAX as int,
            Some(record.segment_id->Some_0 as int),
        ) && same_number(
            header,
            values,
            "segment_generation"@,
            u32::MAX as int,
            Some(record.segment_generation->Some_0 as int),
        ) && same_number(
            header,
            values,
            "file_offset"@,
            u64::MAX as int,
            Some(record.file_offset->Some_0 as int),
        ) && same_number(
            header,
            values,
            "frame_len"@,
            u32::MAX as int,
            Some(record.frame_len->Some_0 as int),
        ) ==> csv_selector(header, values, line) == ndjson_selector(record, line) && (csv_selector(
            header,
            values,
            line,
        ) is Ok <==> record.segment_generation->Some_0 > 0 && record.frame_len->Some_0 > 0),
{
    reveal_strlit("sequence");
    reveal_strlit("range");
    reveal_strlit("locator");
    assert("sequence"@.len() == 8);
    assert("range"@.len() == 5);
    assert("locator"@.len() == 7);
}

/// A table of selectors has a row for each of its lines that is not blank, and no other.
pub proof fn each_line_of_the_table_is_a_selector(
    header: Seq<Seq<char>>,
    lines: Seq<Seq<char>>,
    i: int,
    taken: Seq<Selector>,
)
    requires
        0 <= i,
        csv_rows(header, lines, i, taken) is Ok,
    ensures
        ({
            let all = csv_rows(header, lines, i, taken)->Ok_0;
            &&& all.len() == taken.len() + filled_lines(lines, i).len()
            &&& forall|k: int| 0 <= k < taken.len() ==> #[trigger] all[k] == taken[k]
        }),
    decreases lines.len() - i,
{
    if i < lines.len() {
        if is_blank(lines[i]) {
            each_line_of_the_table_is_a_selector(header, lines, i + 1, taken);
        } else {
            let selector = crate::selectors::csv_line(header, lines[i], (i + 1) as nat)->Ok_0;
            let longer = taken.push(selector);
            each_line_of_the_table_is_a_selector(header, lines, i + 1, longer);
            let all = csv_rows(header, lines, i, taken)->Ok_0;
            assert forall|k: int| 0 <= k < taken.len() implies #[trigger] all[k] == taken[k] by {
                assert(longer[k] == taken[k]);
            }
        }
    }
}

/// `part` is what is left of `s` without `front` characters in front and what stands behind it, all
/// of which is white space.
pub open spec fn left_of(s: Seq<char>, part: Seq<char>, front: int) -> bool {
    &&& 0 <= front
    &&& front + part.len() <= s.len()
    &&& part == s.subrange(front, front + part.len())
    &&& forall|i: int| 0 <= i < front ==> is_white_space(#[trigger] s[i])
    &&& forall|i: int| front + part.len() <= i < s.len() ==> is_white_space(#[trigger] s[i])
}

proof fn front_is_taken_off(s: Seq<char>)
    ensures
        ({
            let part = trimmed_start(s);
            &&& part.len() <= s.len()
            &&& part == s.subrange(s.len() - part.len(), s.len() as int)
            &&& forall|i: int| 0 <= i < s.len() - part.len() ==> is_white_space(#[trigger] s[i])
            &&& part.len() > 0 ==> !is_white_space(part[0])
        }),
    decreases s.len(),
{
    if s.len() > 0 && is_white_space(s[0]) {
        let rest = s.drop_first();
        front_is_taken_off(rest);
        let part = trimmed_start(s);
        assert(part =~= s.subrange(s.len() - part.len(), s.len() as int));
        assert forall|i: int| 0 <= i < s.len() - part.len() implies is_white_space(
            #[trigger] s[i],
        ) by {
            if i > 0 {
                assert(rest[i - 1] == s[i]);
            }
        }
    } else {
        assert(s =~= s.subrange(0, s.len() as int));
    }
}

proof fn back_is_taken_off(s: Seq<char>)
    ensures
        ({
            let part = trimmed_end(s);
            &&& part.len() <= s.len()
            &&& part == s.subrange(0, part.len() as int)
            &&& forall|i: int| part.len() <= i < s.len() ==> is_white_space(#[trigger] s[i])
            &&& part.len() > 0 ==> !is_white_space(part.last())
        }),
    decreases s.len(),
{
    if s.len() > 0 && is_white_space(s.last()) {
        let rest = s.drop_last();
        back_is_taken_off(rest);
        let part = trimmed_end(s);
        assert(part =~= s.subrange(0, part.len() as int));
        assert forall|i: int| part.len() <= i < s.len() implies is_white_space(
            #[trigger] s[i],
        ) by {
            if i < rest.len() {
                assert(rest[i] == s[i]);
            }
        }
    } else {
        assert(s =~= s.subrange(0, s.len() as int));
    }
}

/// Trimming a text takes off white space in front and behind and nothing else, and leaves none at
/// either end.
pub proof fn trimming_takes_off_white_space_only(s: Seq<char>)
    ensures
        exists|front: int| #[trigger] left_of(s, trimmed(s), front),
        trimmed(s).len() > 0 ==> !is_white_space(trimmed(s)[0]) && !is_white_space(
            trimmed(s).last(),
        ),
{
    let part = trimmed_start(s);
    front_is_taken_off(s);
    back_is_taken_off(part);
    let front = s.len() - part.len();
    let left = trimmed(s);
    assert(left =~= s.subrange(front, front + left.len()));
    assert forall|i: int| front + left.len() <= i < s.len() implies is_white_space(
        #[trigger] s[i],
    ) by {
        assert(part[i - front] == s[i]);
    }
    assert(left_of(s, left, front));
}

/// The value of a hexadecimal digit.
pub open spec fn hex_value(c: char) -> int {
    if is_digit(c) {
        c as u32 - 48
    } else {
        c as u32 - 87
    }
}

/// Bytes are written as two hexadecimal digits each, the higher one first, in small letters.
pub proof fn hex_tells_each_byte(bytes: Seq<u8>)
    ensures
        hex(bytes).len() == 2 * bytes.len(),
        forall|i: int|
            #![trigger bytes[i]]
            0 <= i < bytes.len() ==> bytes[i] == 16 * hex_value(hex(bytes)[2 * i]) + hex_value(
                hex(bytes)[2 * i + 1],
            ),
        forall|k: int|
            0 <= k < hex(bytes).len() ==> is_digit(#[trigger] hex(bytes)[k]) || 97 <= hex(
                bytes,
            )[k] as u32 <= 102,
{
    assert forall|i: int| #![trigger bytes[i]] 0 <= i < bytes.len() implies bytes[i] == 16
        * hex_value(hex(bytes)[2 * i]) + hex_value(hex(bytes)[2 * i + 1]) by {
        assert((2 * i) / 2 == i && (2 * i + 1) / 2 == i);
        assert((2 * i) % 2 == 0 && (2 * i + 1) % 2 == 1);
    }
}

/// The line at place `n` is among those kept, with its number.
pub open spec fn kept_with_number(kept: Seq<(int, Seq<char>)>, n: int, k: int) -> bool {
    0 <= k < kept.len() && kept[k].0 == n + 1
}

/// The lines kept are those that hold something but white space, in order and with their numbers
/// counted from one.
pub proof fn lines_keep_their_numbers(lines: Seq<Seq<char>>, i: int)
    requires
        0 <= i <= lines.len(),
    ensures
        ({
            let kept = filled_lines(lines, i);
            &&& forall|k: int|
                #![trigger kept[k]]
                0 <= k < kept.len() ==> i < kept[k].0 <= lines.len() && !is_blank(
                    lines[kept[k].0 - 1],
                ) && kept[k].1 == trimmed(lines[kept[k].0 - 1])
            &&& forall|k: int, l: int|
                #![trigger kept[k], kept[l]]
                0 <= k < l < kept.len() ==> kept[k].0 < kept[l].0
            &&& forall|n: int|
                #![trigger lines[n]]
                i <= n < lines.len() && !is_blank(lines[n]) ==> exists|k: int|
                    kept_with_number(kept, n, k)
        }),
    decreases lines.len() - i,
{
    if i < lines.len() {
        lines_keep_their_numbers(lines, i + 1);
        let rest = filled_lines(lines, i + 1);
        let kept = filled_lines(lines, i);
        if !is_blank(lines[i]) {
            assert(kept[0] == (i + 1, trimmed(lines[i])));
            assert forall|k: int|
                #![trigger kept[k]]
                0 <= k < kept.len() implies i < kept[k].0 <= lines.len() && !is_blank(
                lines[kept[k].0 - 1],
            ) && kept[k].1 == trimmed(lines[kept[k].0 - 1]) by {
                if k > 0 {
                    assert(kept[k] == rest[k - 1]);
                }
            }
            assert forall|k: int, l: int|
                #![trigger kept[k], kept[l]]
                0 <= k < l < kept.len() implies kept[k].0 < kept[l].0 by {
                assert(kept[l] == rest[l - 1]);
                if k > 0 {
                    assert(kept[k] == rest[k - 1]);
                }
            }
            assert forall|n: int|
                #![trigger lines[n]]
                i <= n < lines.len() && !is_blank(lines[n]) implies exists|k: int|
                kept_with_number(kept, n, k) by {
                if n == i {
                    assert(kept_with_number(kept, n, 0));
                } else {
                    let k = choose|k: int| kept_with_number(rest, n, k);
                    assert(kept[k + 1] == rest[k]);
                    assert(kept_with_number(kept, n, k + 1));
                }
            }
        }
    }
}

/// A header is accepted exactly where it has every column that a selector can need.
pub proof fn header_has_every_column(header: Seq<Seq<char>>, i: int)
    requires
        0 <= i,
    ensures
        lacking_column(header, i) is None <==> forall|k: int|
            i <= k < required_columns().len() ==> header.contains(
                #[trigger] required_columns()[k],
            ),
        lacking_column(header, i) is Some ==> !header.contains(lacking_column(header, i)->Some_0),
    decreases required_columns().len() - i,
{
    if i < required_columns().len() && header.contains(required_columns()[i]) {
        header_has_every_column(header, i + 1);
    }
}

/// A column is the first of its name.
pub proof fn column_is_the_first_of_its_name(header: Seq<Seq<char>>, column: Seq<char>)
    requires
        header.contains(column),
    ensures
        0 <= first_of(header, column) < header.len(),
        header[first_of(header, column)] == column,
        forall|i: int| 0 <= i < first_of(header, column) ==> #[trigger] header[i] != column,
    decreases header.len(),
{
    if header[0] != column {
        let rest = header.drop_first();
        let i = choose|i: int| 0 <= i < header.len() && header[i] == column;
        assert(rest[i - 1] == column);
        column_is_the_first_of_its_name(rest, column);
        assert forall|k: int| 0 <= k < first_of(header, column) implies #[trigger] header[k]
            != column by {
            if k > 0 {
                assert(rest[k - 1] == header[k]);
            }
        }
    }
}

/// A list of segments holds all of them, or exactly the detached ones, in order.
pub proof fn list_holds_the_segments_asked_for(
    segments: Seq<ArchiveSegmentState>,
    detached_only: bool,
)
    ensures
        !detached_only ==> listed(segments, detached_only) == segments,
        detached_only ==> forall|segment: ArchiveSegmentState| #[trigger]
            listed(segments, detached_only).contains(segment) <==> segments.contains(segment)
                && segment.tier == ArchiveSegmentTier::ColdDetached,
    decreases segments.len(),
{
    if segments.len() > 0 {
        let last = segments.last();
        let less = segments.drop_last();
        list_holds_the_segments_asked_for(less, detached_only);
        let before = listed(less, detached_only);
        let all = listed(segments, detached_only);
        assert(segments =~= less.push(last));
        if !detached_only {
            assert(all =~= segments);
        } else {
            assert forall|segment: ArchiveSegmentState| #[trigger]
                all.contains(segment) <==> segments.contains(segment) && segment.tier
                    == ArchiveSegmentTier::ColdDetached by {
                if all.contains(segment) {
                    let k = choose|k: int| 0 <= k < all.len() && all[k] == segment;
                    if k < before.len() {
                        assert(before[k] == segment);
                        assert(before.contains(segment));
                        let i = choose|i: int| 0 <= i < less.len() && less[i] == segment;
                        assert(segments[i] == segment);
                    } else {
                        assert(segments[segments.len() - 1] == segment);
                    }
                }
                if segments.contains(segment) && segment.tier
                    == ArchiveSegmentTier::ColdDetached {
                    let i = choose|i: int| 0 <= i < segments.len() && segments[i] == segment;
                    if i < less.len() {
                        assert(less[i] == segment);
                        assert(before.contains(segment));
                        let k = choose|k: int| 0 <= k < before.len() && before[k] == segment;
                        assert(all[k] == segment);
                    } else {
                        assert(all[all.len() - 1] == segment);
                    }
                }
            }
        }
    }
}

/// One entry of a commit log: it starts with the magic, tells its length, and lies within the log.
pub open spec fn entry_between(s: Seq<u8>, from: int, to: int) -> bool {
    &&& 0 <= from
    &&& from + 8 <= to <= s.len()
    &&& s.subrange(from, from + 4) == COMMIT_ENTRY_MAGIC@
    &&& u16_at(s, from + 4) == to - from
}

/// The places between the entries of a commit log.
pub open spec fn are_places(s: Seq<u8>, places: Seq<int>) -> bool {
    &&& places.len() > 0
    &&& forall|k: int|
        0 <= k < places.len() - 1 ==> #[trigger] entry_between(s, places[k], places[k + 1])
}

proof fn scan_follows_the_places(s: Seq<u8>, places: Seq<int>, k: int, target: u64)
    requires
        are_places(s, places),
        0 <= k < target < places.len(),
        s.len() <= u64::MAX,
    ensures
        scan_from(s, places[k], k, target) == Ok::<CommitLogScan, ScanFault>(
            CommitLogScan {
                entries: target,
                target_offset: Some(places[target as int] as u64),
            },
        ),
    decreases target - k,
{
    assert(entry_between(s, places[k], places[k + 1]));
    let at = places[k];
    assert(s.subrange(at, at + 8)[0] == s.subrange(at, at + 4)[0]);
    assert(COMMIT_ENTRY_MAGIC@[0] != 0);
    assert(!crate::bytes::all_zero(s.subrange(at, at + 8)));
    if k + 1 < target {
        scan_follows_the_places(s, places, k + 1, target);
    }
}

/// The checkpoint of the n-th entry of a log is the place behind it.
pub proof fn checkpoint_lies_behind_its_entry(s: Seq<u8>, places: Seq<int>, target: u64)
    requires
        are_places(s, places),
        places[0] == 76,
        0 < target < places.len(),
        s.len() <= u64::MAX,
    ensures
        scanned(s, target) == Ok::<CommitLogScan, ScanFault>(
            CommitLogScan {
                entries: target,
                target_offset: Some(places[target as int] as u64),
            },
        ),
{
    assert(entry_between(s, places[0], places[1]));
    scan_follows_the_places(s, places, 0, target);
}

proof fn scan_passes_the_places(s: Seq<u8>, places: Seq<int>, k: int, target: u64)
    requires
        are_places(s, places),
        places.last() + 8 > s.len(),
        0 <= places.last(),
        0 <= k < places.len(),
        target == 0 || target >= places.len(),
        places.len() <= u64::MAX,
    ensures
        scan_from(s, places[k], k, target) == Ok::<CommitLogScan, ScanFault>(
            CommitLogScan { entries: (places.len() - 1) as u64, target_offset: None },
        ),
    decreases places.len() - k,
{
    if k < places.len() - 1 {
        assert(entry_between(s, places[k], places[k + 1]));
        let at = places[k];
        assert(s.subrange(at, at + 8)[0] == s.subrange(at, at + 4)[0]);
        assert(COMMIT_ENTRY_MAGIC@[0] != 0);
        assert(!crate::bytes::all_zero(s.subrange(at, at + 8)));
        scan_passes_the_places(s, places, k + 1, target);
    }
}

/// Where a log that ends with its last entry has the entry asked for, the checkpoint lies in it,
/// behind that entry. Else the entries of the log are passed, and the search goes on in the next
/// one for what remains.
pub proof fn checkpoint_is_looked_for_log_by_log(
    store: StoreModel,
    root: Seq<char>,
    logs: Seq<ArchiveFile>,
    i: int,
    remaining: u64,
    wanted: u64,
    places: Seq<int>,
)
    requires
        0 <= i < logs.len(),
        remaining > 0,
        are_places(store.bytes(logs[i]), places),
        places[0] == 76,
        places.last() == store.bytes(logs[i]).len(),
        store.bytes(logs[i]).len() <= u64::MAX,
        places.len() <= u64::MAX,
    ensures
        remaining < places.len() ==> checkpoint_from(store, root, logs, i, remaining, wanted)
            == Ok::<CheckpointModel, CommandFailure>(
            CheckpointModel {
                roll_file: file_place(logs[i]).1,
                byte_offset: places[remaining as int] as u64,
            },
        ),
        remaining >= places.len() ==> checkpoint_from(store, root, logs, i, remaining, wanted)
            == checkpoint_from(
            store,
            root,
            logs,
            i + 1,
            (remaining - (places.len() - 1)) as u64,
            wanted,
        ),
{
    let s = store.bytes(logs[i]);
    if places.len() > 1 {
        assert(entry_between(s, places[0], places[1]));
    }
    if remaining < places.len() {
        checkpoint_lies_behind_its_entry(s, places, remaining);
    } else {
        scan_passes_the_places(s, places, 0, remaining);
    }
}

/// Before anything is indexed the checkpoint is the start of the last log, directly behind its
/// header.
pub proof fn first_checkpoint_is_behind_the_header(store: StoreModel, root: Seq<char>)
    requires
        commit_logs(store).len() > 0,
    ensures
        checkpoint_of(store, root, 0) == Ok::<CheckpointModel, CommandFailure>(
            CheckpointModel { roll_file: file_place(commit_logs(store).last()).1, byte_offset: 76 },
        ),
        store.has(ArchiveFile::CommitLog) ==> commit_logs(store).last() == ArchiveFile::CommitLog,
{
}

} // verus!
