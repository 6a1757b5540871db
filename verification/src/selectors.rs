//! Selectors: which records of an archive are replayed.

use crate::align::{first_of, position_of, texts};
use crate::command::{
    all_chars, parse_locator, split_all, split_text, zero_generation, locator_of_text,
    CommandError, CommandFailure,
};
use crate::layout::same_text;
use crate::text::{
    blank, blank_trims_to_nothing, chars_of, decimal, is_blank, parse_u32, parse_u64,
    parsed_number, push_decimal, push_text, text_of, trim, trimmed,
};
use crate::types::ArchiveLocator;
use vstd::prelude::*;

verus! {

/// Which records are replayed.
#[derive(Debug, Clone, Copy, PartialEq, Eq, Structural)]
pub enum Selector {
    /// The record with a sequence.
    Sequence(u64),
    /// The records of a range of sequences.
    Range {
        /// The first sequence.
        from: u64,
        /// How many records.
        count: usize,
    },
    /// The record at a locator.
    Locator(ArchiveLocator),
}

/// A locator by which a record can be replayed.
pub open spec fn usable_locator(locator: ArchiveLocator) -> Result<
    ArchiveLocator,
    CommandFailure,
> {
    if locator.segment_generation == 0 {
        Err(zero_generation())
    } else if locator.frame_len == 0 {
        Err(CommandFailure::InvalidInput("invalid locator frame_len '0', expected > 0"@))
    } else {
        Ok(locator)
    }
}

/// Checks a locator by which a record is to be replayed.
pub fn validate_locator(locator: ArchiveLocator) -> (result: Result<ArchiveLocator, CommandError>)
    ensures
        match result {
            Ok(value) => usable_locator(locator) == Ok::<ArchiveLocator, CommandFailure>(value),
            Err(error) => usable_locator(locator) == Err::<ArchiveLocator, CommandFailure>(
                error@,
            ),
        },
{
    if locator.segment_generation == 0 {
        return Err(
            CommandError::invalid_input("invalid locator segment generation '0', expected > 0"),
        );
    }
    if locator.frame_len == 0 {
        return Err(CommandError::invalid_input("invalid locator frame_len '0', expected > 0"));
    }
    Ok(locator)
}

/// The locator that a text names, by which a record is to be replayed.
pub open spec fn usable_locator_of(value: Seq<char>) -> Result<ArchiveLocator, CommandFailure> {
    match locator_of_text(value) {
        Err(error) => Err(error),
        Ok(locator) => usable_locator(locator),
    }
}

/// Reads a locator by which a record is to be replayed.
pub fn parse_usable_locator(value: &str) -> (result: Result<ArchiveLocator, CommandError>)
    ensures
        match result {
            Ok(locator) => usable_locator_of(value@) == Ok::<ArchiveLocator, CommandFailure>(
                locator,
            ),
            Err(error) => usable_locator_of(value@) == Err::<ArchiveLocator, CommandFailure>(
                error@,
            ),
        },
{
    validate_locator(parse_locator(value)?)
}

/// A selector as it stands in a line of JSON.
#[derive(Debug, Clone)]
pub struct NdjsonSelectorRecord {
    /// `sequence`, `range` or `locator`.
    pub kind: String,
    /// The sequence.
    pub sequence: Option<u64>,
    /// The first sequence of a range.
    pub from: Option<u64>,
    /// How many records a range has.
    pub count: Option<usize>,
    /// Segment id of a locator.
    pub segment_id: Option<u64>,
    /// Segment generation of a locator.
    pub segment_generation: Option<u32>,
    /// File offset of a locator.
    pub file_offset: Option<u64>,
    /// Frame length of a locator.
    pub frame_len: Option<u32>,
}

/// A complaint about a line of selectors.
pub open spec fn line_complaint(format: Seq<char>, line: nat, rest: Seq<char>) -> CommandFailure {
    CommandFailure::InvalidInput(format + " selector line "@ + decimal(line) + ": "@ + rest)
}

/// Makes a complaint about a line of selectors.
fn complain(format: &str, line: usize, rest: &str) -> (error: CommandError)
    ensures
        error@ == line_complaint(format@, line as nat, rest@),
{
    let mut message = String::new();
    push_text(&mut message, format);
    push_text(&mut message, " selector line ");
    push_decimal(&mut message, line as u64);
    push_text(&mut message, ": ");
    push_text(&mut message, rest);
    assert(message@ =~= format@ + " selector line "@ + decimal(line as nat) + ": "@ + rest@);
    CommandError::InvalidInput(message)
}

/// The complaint about a field that a line of JSON lacks.
pub open spec fn missing_field(field: Seq<char>, kind: Seq<char>) -> Seq<char> {
    "missing field '"@ + field + "' for kind="@ + kind
}

/// Makes the complaint about a field that a line of JSON lacks.
fn complain_missing(line: usize, field: &str, kind: &str) -> (error: CommandError)
    ensures
        error@ == line_complaint("ndjson"@, line as nat, missing_field(field@, kind@)),
{
    let mut rest = "missing field '".to_owned();
    push_text(&mut rest, field);
    push_text(&mut rest, "' for kind=");
    push_text(&mut rest, kind);
    complain("ndjson", line, rest.as_str())
}

/// The complaint about a kind of selector that there is not.
pub open spec fn unsupported_kind(kind: Seq<char>) -> Seq<char> {
    "unsupported kind '"@ + kind + "'"@
}

/// Makes the complaint about a kind of selector that there is not.
fn complain_kind(format: &str, line: usize, kind: &str) -> (error: CommandError)
    ensures
        error@ == line_complaint(format@, line as nat, unsupported_kind(kind@)),
{
    let mut rest = "unsupported kind '".to_owned();
    push_text(&mut rest, kind);
    push_text(&mut rest, "'");
    complain(format, line, rest.as_str())
}

/// The first of the fields of a locator that a record lacks.
pub open spec fn missing_locator_field(record: NdjsonSelectorRecord) -> Option<Seq<char>> {
    if record.segment_id is None {
        Some("segment_id"@)
    } else if record.segment_generation is None {
        Some("segment_generation"@)
    } else if record.file_offset is None {
        Some("file_offset"@)
    } else if record.frame_len is None {
        Some("frame_len"@)
    } else {
        None
    }
}

/// The selector that a record stands for.
pub open spec fn ndjson_selector(record: NdjsonSelectorRecord, line: nat) -> Result<
    Selector,
    CommandFailure,
> {
    let kind = record.kind@;
    if kind == "sequence"@ {
        match record.sequence {
            None => Err(line_complaint("ndjson"@, line, missing_field("sequence"@, kind))),
            Some(sequence) => Ok(Selector::Sequence(sequence)),
        }
    } else if kind == "range"@ {
        match (record.from, record.count) {
            (None, _) => Err(line_complaint("ndjson"@, line, missing_field("from"@, kind))),
            (_, None) => Err(line_complaint("ndjson"@, line, missing_field("count"@, kind))),
            (Some(from), Some(count)) => if count == 0 {
                Err(line_complaint("ndjson"@, line, "count must be > 0"@))
            } else {
                Ok(Selector::Range { from, count })
            },
        }
    } else if kind == "locator"@ {
        match missing_locator_field(record) {
            Some(field) => Err(line_complaint("ndjson"@, line, missing_field(field, kind))),
            None => match usable_locator(
                ArchiveLocator {
                    segment_id: record.segment_id->Some_0,
                    segment_generation: record.segment_generation->Some_0,
                    file_offset: record.file_offset->Some_0,
                    frame_len: record.frame_len->Some_0,
                },
            ) {
                Err(error) => Err(error),
                Ok(locator) => Ok(Selector::Locator(locator)),
            },
        }
    } else {
        Err(line_complaint("ndjson"@, line, unsupported_kind(kind)))
    }
}

/// Makes a selector of a record.
pub fn selector_from_ndjson_record(record: NdjsonSelectorRecord, line_number: usize) -> (result:
    Result<Selector, CommandError>)
    ensures
        match result {
            Ok(selector) => ndjson_selector(record, line_number as nat) == Ok::<
                Selector,
                CommandFailure,
            >(selector),
            Err(error) => ndjson_selector(record, line_number as nat) == Err::<
                Selector,
                CommandFailure,
            >(error@),
        },
{
    if same_text(record.kind.as_str(), "sequence") {
        return match record.sequence {
            None => Err(complain_missing(line_number, "sequence", "sequence")),
            Some(sequence) => Ok(Selector::Sequence(sequence)),
        };
    }
    if same_text(record.kind.as_str(), "range") {
        let from: u64 = match record.from {
            None => {
                return Err(complain_missing(line_number, "from", "range"));
            },
            Some(from) => from,
        };
        let count: usize = match record.count {
            None => {
                return Err(complain_missing(line_number, "count", "range"));
            },
            Some(count) => count,
        };
        if count == 0 {
            return Err(complain("ndjson", line_number, "count must be > 0"));
        }
        return Ok(Selector::Range { from, count });
    }
    if same_text(record.kind.as_str(), "locator") {
        let segment_id: u64 = match record.segment_id {
            None => {
                return Err(complain_missing(line_number, "segment_id", "locator"));
            },
            Some(value) => value,
        };
        let segment_generation: u32 = match record.segment_generation {
            None => {
                return Err(complain_missing(line_number, "segment_generation", "locator"));
            },
            Some(value) => value,
        };
        let file_offset: u64 = match record.file_offset {
            None => {
                return Err(complain_missing(line_number, "file_offset", "locator"));
            },
            Some(value) => value,
        };
        let frame_len: u32 = match record.frame_len {
            None => {
                return Err(complain_missing(line_number, "frame_len", "locator"));
            },
            Some(value) => value,
        };
        let locator = validate_locator(
            ArchiveLocator { segment_id, segment_generation, file_offset, frame_len },
        )?;
        return Ok(Selector::Locator(locator));
    }
    Err(complain_kind("ndjson", line_number, record.kind.as_str()))
}

/// A line of an input with its number.
#[derive(Debug)]
pub struct NumberedLine {
    /// The number of the line, from one on.
    pub number: usize,
    /// The line, without white space around it.
    pub text: String,
}

/// The lines of an input from place `i` on that are not blank, with their numbers.
pub open spec fn filled_lines(lines: Seq<Seq<char>>, i: int) -> Seq<(int, Seq<char>)>
    decreases lines.len() - i,
{
    if i >= lines.len() {
        Seq::empty()
    } else if is_blank(lines[i]) {
        filled_lines(lines, i + 1)
    } else {
        seq![(i + 1, trimmed(lines[i]))] + filled_lines(lines, i + 1)
    }
}

/// The numbers and texts of lines.
pub open spec fn line_models(lines: Seq<NumberedLine>) -> Seq<(int, Seq<char>)> {
    lines.map_values(|line: NumberedLine| (line.number as int, line.text@))
}

/// Gives the lines of an input that are not blank.
pub fn ndjson_lines(input: &str) -> (list: Vec<NumberedLine>)
    ensures
        line_models(list@) == filled_lines(split_all(input@, '\n'), 0),
{
    let chars = chars_of(input);
    let lines = split_text(&chars, '\n');
    let n: usize = lines.len();
    let mut list: Vec<NumberedLine> = Vec::new();
    let ghost all = split_all(input@, '\n');
    assert(line_models(list@) + filled_lines(all, 0) =~= filled_lines(all, 0));
    for i in 0..n
        invariant
            n == lines@.len(),
            all_chars(lines@) == all,
            line_models(list@) + filled_lines(all, i as int) == filled_lines(all, 0),
    {
        assert(all[i as int] == lines@[i as int]@);
        let text = trim(&lines[i]);
        proof {
            blank_trims_to_nothing(lines@[i as int]@);
        }
        if text.len() > 0 {
            let ghost before = line_models(list@);
            list.push(NumberedLine { number: i + 1, text: text_of(&text) });
            assert(line_models(list@) =~= before.push((i + 1, text@)));
            assert(before + (seq![(i + 1, text@)] + filled_lines(all, i + 1)) =~= line_models(
                list@,
            ) + filled_lines(all, i + 1));
        }
    }
    assert(filled_lines(all, n as int) =~= Seq::empty());
    assert(line_models(list@) =~= filled_lines(all, 0));
    list
}

/// Makes the error about a line that is no JSON record.
pub fn invalid_ndjson(line_number: usize, reason: &str) -> (error: CommandError)
    ensures
        error@ == CommandFailure::InvalidInput(
            "invalid ndjson selector at line "@ + decimal(line_number as nat) + ": "@ + reason@,
        ),
{
    let mut message = "invalid ndjson selector at line ".to_owned();
    push_decimal(&mut message, line_number as u64);
    push_text(&mut message, ": ");
    push_text(&mut message, reason);
    CommandError::InvalidInput(message)
}

/// The columns of a line.
pub open spec fn columns_of(line: Seq<char>) -> Seq<Seq<char>> {
    split_all(trimmed(line), ',').map_values(|part: Seq<char>| trimmed(part))
}

/// Takes a line apart into its columns.
fn split_columns(line: &[char]) -> (columns: Vec<String>)
    ensures
        texts(columns@) == columns_of(line@),
{
    let inner = trim(line);
    let parts = split_text(&inner, ',');
    let n: usize = parts.len();
    let mut columns: Vec<String> = Vec::new();
    for i in 0..n
        invariant
            n == parts@.len(),
            columns@.len() == i,
            forall|k: int| 0 <= k < i ==> (#[trigger] columns@[k])@ == trimmed(parts@[k]@),
    {
        columns.push(text_of(&trim(&parts[i])));
    }
    proof {
        let all = split_all(trimmed(line@), ',');
        assert(all_chars(parts@) == all);
        assert forall|k: int| 0 <= k < n implies texts(columns@)[k] == columns_of(line@)[k] by {
            assert(all_chars(parts@)[k] == parts@[k]@);
            assert(columns@[k]@ == trimmed(parts@[k]@));
        }
        assert(texts(columns@) =~= columns_of(line@));
    }
    columns
}

/// The columns that a header must have.
pub open spec fn required_columns() -> Seq<Seq<char>> {
    seq![
        "kind"@,
        "sequence"@,
        "from"@,
        "count"@,
        "segment_id"@,
        "segment_generation"@,
        "file_offset"@,
        "frame_len"@,
    ]
}

/// The complaint about a column that a header lacks.
pub open spec fn missing_column(column: Seq<char>) -> CommandFailure {
    CommandFailure::InvalidInput("csv selector header is missing '"@ + column + "'"@)
}

/// The first required column from place `i` on that a header lacks.
pub open spec fn lacking_column(header: Seq<Seq<char>>, i: int) -> Option<Seq<char>>
    decreases required_columns().len() - i,
{
    if i < 0 || i >= required_columns().len() {
        None
    } else if header.contains(required_columns()[i]) {
        lacking_column(header, i + 1)
    } else {
        Some(required_columns()[i])
    }
}

/// Checks that a header has a column.
fn check_column(header: &[String], column: &str) -> (result: Result<(), CommandError>)
    ensures
        match result {
            Ok(_) => texts(header@).contains(column@),
            Err(error) => !texts(header@).contains(column@) && error@ == missing_column(column@),
        },
{
    if position_of(header, column).is_none() {
        let mut message = "csv selector header is missing '".to_owned();
        push_text(&mut message, column);
        push_text(&mut message, "'");
        return Err(CommandError::InvalidInput(message));
    }
    Ok(())
}

/// Checks that a header has all columns.
fn check_header(header: &[String]) -> (result: Result<(), CommandError>)
    ensures
        match result {
            Ok(_) => lacking_column(texts(header@), 0) is None && forall|i: int|
                0 <= i < 8 ==> texts(header@).contains(#[trigger] required_columns()[i]),
            Err(error) => lacking_column(texts(header@), 0) matches Some(column) && error@
                == missing_column(column),
        },
{
    proof {
        reveal_with_fuel(lacking_column, 9);
    }
    check_column(header, "kind")?;
    check_column(header, "sequence")?;
    check_column(header, "from")?;
    check_column(header, "count")?;
    check_column(header, "segment_id")?;
    check_column(header, "segment_generation")?;
    check_column(header, "file_offset")?;
    check_column(header, "frame_len")?;
    Ok(())
}

/// The value of a column.
pub open spec fn column_value(
    header: Seq<Seq<char>>,
    values: Seq<Seq<char>>,
    column: Seq<char>,
) -> Seq<char> {
    values[first_of(header, column)]
}

/// Gives the value of a column.
fn value_of<'a>(header: &[String], values: &'a [String], column: &str) -> (value: &'a str)
    requires
        texts(header@).contains(column@),
        header@.len() == values@.len(),
    ensures
        value@ == column_value(texts(header@), texts(values@), column@),
{
    match position_of(header, column) {
        Some(place) => {
            assert(texts(values@)[place as int] == values@[place as int]@);
            values[place].as_str()
        },
        None => "",
    }
}

/// The number in a field.
pub open spec fn csv_number(
    value: Seq<char>,
    line: nat,
    field: Seq<char>,
    kind: Seq<char>,
    max: int,
) -> Result<int, CommandFailure> {
    if value.len() == 0 {
        Err(line_complaint("csv"@, line, "missing field '"@ + field + "'"@))
    } else {
        match parsed_number(value, max) {
            None => Err(
                line_complaint(
                    "csv"@,
                    line,
                    "invalid "@ + kind + " in field '"@ + field + "'"@,
                ),
            ),
            Some(number) => Ok(number),
        }
    }
}

/// Makes the complaint about a field that holds no number of its kind.
fn complain_number(value: &[char], line: usize, field: &str, kind: &str) -> (error: CommandError)
    ensures
        forall|max: int|
            value@.len() == 0 || parsed_number(value@, max) is None ==> Err::<
                int,
                CommandFailure,
            >(error@) == #[trigger] csv_number(value@, line as nat, field@, kind@, max),
{
    if value.len() == 0 {
        let mut rest = "missing field '".to_owned();
        push_text(&mut rest, field);
        push_text(&mut rest, "'");
        return complain("csv", line, rest.as_str());
    }
    let mut rest = "invalid ".to_owned();
    push_text(&mut rest, kind);
    push_text(&mut rest, " in field '");
    push_text(&mut rest, field);
    push_text(&mut rest, "'");
    complain("csv", line, rest.as_str())
}

/// Reads a field that holds a `u64`.
pub fn parse_required_csv_u64(value: &str, line_number: usize, field: &str) -> (result: Result<
    u64,
    CommandError,
>)
    ensures
        ({
            let expected = csv_number(
                value@,
                line_number as nat,
                field@,
                "u64"@,
                u64::MAX as int,
            );
            match result {
                Ok(number) => expected == Ok::<int, CommandFailure>(number as int),
                Err(error) => expected == Err::<int, CommandFailure>(error@),
            }
        }),
{
    let chars = chars_of(value);
    if chars.len() > 0 {
        if let Some(number) = parse_u64(&chars) {
            return Ok(number);
        }
    }
    Err(complain_number(&chars, line_number, field, "u64"))
}

/// Reads a field that holds a `u32`.
pub fn parse_required_csv_u32(value: &str, line_number: usize, field: &str) -> (result: Result<
    u32,
    CommandError,
>)
    ensures
        ({
            let expected = csv_number(
                value@,
                line_number as nat,
                field@,
                "u32"@,
                u32::MAX as int,
            );
            match result {
                Ok(number) => expected == Ok::<int, CommandFailure>(number as int),
                Err(error) => expected == Err::<int, CommandFailure>(error@),
            }
        }),
{
    let chars = chars_of(value);
    if chars.len() > 0 {
        if let Some(number) = parse_u32(&chars) {
            return Ok(number);
        }
    }
    Err(complain_number(&chars, line_number, field, "u32"))
}

/// Reads a field that holds a `usize`.
pub fn parse_required_csv_usize(value: &str, line_number: usize, field: &str) -> (result: Result<
    usize,
    CommandError,
>)
    ensures
        ({
            let expected = csv_number(
                value@,
                line_number as nat,
                field@,
                "usize"@,
                usize::MAX as int,
            );
            match result {
                Ok(number) => expected == Ok::<int, CommandFailure>(number as int),
                Err(error) => expected == Err::<int, CommandFailure>(error@),
            }
        }),
{
    let chars = chars_of(value);
    if chars.len() > 0 {
        if let Some(number) = parse_u64(&chars) {
            if number <= usize::MAX as u64 {
                return Ok(number as usize);
            }
        }
    }
    Err(complain_number(&chars, line_number, field, "usize"))
}

/// The locator in the fields of a line.
pub open spec fn csv_locator(header: Seq<Seq<char>>, values: Seq<Seq<char>>, line: nat) -> Result<
    ArchiveLocator,
    CommandFailure,
> {
    match csv_number(
        column_value(header, values, "segment_id"@),
        line,
        "segment_id"@,
        "u64"@,
        u64::MAX as int,
    ) {
        Err(error) => Err(error),
        Ok(segment_id) => match csv_number(
            column_value(header, values, "segment_generation"@),
            line,
            "segment_generation"@,
            "u32"@,
            u32::MAX as int,
        ) {
            Err(error) => Err(error),
            Ok(segment_generation) => match csv_number(
                column_value(header, values, "file_offset"@),
                line,
                "file_offset"@,
                "u64"@,
                u64::MAX as int,
            ) {
                Err(error) => Err(error),
                Ok(file_offset) => match csv_number(
                    column_value(header, values, "frame_len"@),
                    line,
                    "frame_len"@,
                    "u32"@,
                    u32::MAX as int,
                ) {
                    Err(error) => Err(error),
                    Ok(frame_len) => usable_locator(
                        ArchiveLocator {
                            segment_id: segment_id as u64,
                            segment_generation: segment_generation as u32,
                            file_offset: file_offset as u64,
                            frame_len: frame_len as u32,
                        },
                    ),
                },
            },
        },
    }
}

/// The selector in the fields of a line.
pub open spec fn csv_selector(header: Seq<Seq<char>>, values: Seq<Seq<char>>, line: nat) -> Result<
    Selector,
    CommandFailure,
> {
    let kind = column_value(header, values, "kind"@);
    if kind == "sequence"@ {
        match csv_number(
            column_value(header, values, "sequence"@),
            line,
            "sequence"@,
            "u64"@,
            u64::MAX as int,
        ) {
            Err(error) => Err(error),
            Ok(sequence) => Ok(Selector::Sequence(sequence as u64)),
        }
    } else if kind == "range"@ {
        match csv_number(
            column_value(header, values, "from"@),
            line,
            "from"@,
            "u64"@,
            u64::MAX as int,
        ) {
            Err(error) => Err(error),
            Ok(from) => match csv_number(
                column_value(header, values, "count"@),
                line,
                "count"@,
                "usize"@,
                usize::MAX as int,
            ) {
                Err(error) => Err(error),
                Ok(count) => if count == 0 {
                    Err(line_complaint("csv"@, line, "count must be > 0"@))
                } else {
                    Ok(Selector::Range { from: from as u64, count: count as usize })
                },
            },
        }
    } else if kind == "locator"@ {
        match csv_locator(header, values, line) {
            Err(error) => Err(error),
            Ok(locator) => Ok(Selector::Locator(locator)),
        }
    } else {
        Err(line_complaint("csv"@, line, unsupported_kind(kind)))
    }
}

/// The header has all columns.
pub open spec fn is_full_header(header: Seq<Seq<char>>) -> bool {
    forall|i: int| 0 <= i < 8 ==> header.contains(#[trigger] required_columns()[i])
}

/// Reads the locator in the fields of a line.
fn read_csv_locator(header: &[String], values: &[String], line_number: usize) -> (result: Result<
    ArchiveLocator,
    CommandError,
>)
    requires
        is_full_header(texts(header@)),
        header@.len() == values@.len(),
    ensures
        ({
            let expected = csv_locator(texts(header@), texts(values@), line_number as nat);
            match result {
                Ok(locator) => expected == Ok::<ArchiveLocator, CommandFailure>(locator),
                Err(error) => expected == Err::<ArchiveLocator, CommandFailure>(error@),
            }
        }),
{
    proof {
        assert(texts(header@).contains(required_columns()[4]));
        assert(texts(header@).contains(required_columns()[5]));
        assert(texts(header@).contains(required_columns()[6]));
        assert(texts(header@).contains(required_columns()[7]));
    }
    let segment_id: u64 = parse_required_csv_u64(
        value_of(header, values, "segment_id"),
        line_number,
        "segment_id",
    )?;
    let segment_generation: u32 = parse_required_csv_u32(
        value_of(header, values, "segment_generation"),
        line_number,
        "segment_generation",
    )?;
    let file_offset: u64 = parse_required_csv_u64(
        value_of(header, values, "file_offset"),
        line_number,
        "file_offset",
    )?;
    let frame_len: u32 = parse_required_csv_u32(
        value_of(header, values, "frame_len"),
        line_number,
        "frame_len",
    )?;
    validate_locator(ArchiveLocator { segment_id, segment_generation, file_offset, frame_len })
}

/// Reads the selector in the fields of a line.
fn read_csv_selector(header: &[String], values: &[String], line_number: usize) -> (result: Result<
    Selector,
    CommandError,
>)
    requires
        is_full_header(texts(header@)),
        header@.len() == values@.len(),
    ensures
        ({
            let expected = csv_selector(texts(header@), texts(values@), line_number as nat);
            match result {
                Ok(selector) => expected == Ok::<Selector, CommandFailure>(selector),
                Err(error) => expected == Err::<Selector, CommandFailure>(error@),
            }
        }),
{
    proof {
        assert(texts(header@).contains(required_columns()[0]));
        assert(texts(header@).contains(required_columns()[1]));
        assert(texts(header@).contains(required_columns()[2]));
        assert(texts(header@).contains(required_columns()[3]));
    }
    let kind = value_of(header, values, "kind");
    if same_text(kind, "sequence") {
        let sequence: u64 = parse_required_csv_u64(
            value_of(header, values, "sequence"),
            line_number,
            "sequence",
        )?;
        return Ok(Selector::Sequence(sequence));
    }
    if same_text(kind, "range") {
        let from: u64 = parse_required_csv_u64(
            value_of(header, values, "from"),
            line_number,
            "from",
        )?;
        let count: usize = parse_required_csv_usize(
            value_of(header, values, "count"),
            line_number,
            "count",
        )?;
        if count == 0 {
            return Err(complain("csv", line_number, "count must be > 0"));
        }
        return Ok(Selector::Range { from, count });
    }
    if same_text(kind, "locator") {
        return Ok(Selector::Locator(read_csv_locator(header, values, line_number)?));
    }
    Err(complain_kind("csv", line_number, kind))
}

/// The selector in a line.
pub open spec fn csv_line(header: Seq<Seq<char>>, line: Seq<char>, number: nat) -> Result<
    Selector,
    CommandFailure,
> {
    let values = columns_of(line);
    if values.len() != header.len() {
        Err(
            line_complaint(
                "csv"@,
                number,
                "expected "@ + decimal(header.len()) + " columns, got "@ + decimal(values.len()),
            ),
        )
    } else {
        csv_selector(header, values, number)
    }
}

/// Reads the selector in a line.
fn read_csv_line(header: &[String], line: &[char], number: usize) -> (result: Result<
    Selector,
    CommandError,
>)
    requires
        is_full_header(texts(header@)),
    ensures
        match result {
            Ok(selector) => csv_line(texts(header@), line@, number as nat) == Ok::<
                Selector,
                CommandFailure,
            >(selector),
            Err(error) => csv_line(texts(header@), line@, number as nat) == Err::<
                Selector,
                CommandFailure,
            >(error@),
        },
{
    let values = split_columns(line);
    if values.len() != header.len() {
        let mut rest = "expected ".to_owned();
        push_decimal(&mut rest, header.len() as u64);
        push_text(&mut rest, " columns, got ");
        push_decimal(&mut rest, values.len() as u64);
        return Err(complain("csv", number, rest.as_str()));
    }
    read_csv_selector(header, values.as_slice(), number)
}

/// The selectors in the lines from place `i` on, behind those already taken.
pub open spec fn csv_rows(
    header: Seq<Seq<char>>,
    lines: Seq<Seq<char>>,
    i: int,
    taken: Seq<Selector>,
) -> Result<Seq<Selector>, CommandFailure>
    decreases lines.len() - i,
{
    if i >= lines.len() {
        Ok(taken)
    } else if is_blank(lines[i]) {
        csv_rows(header, lines, i + 1, taken)
    } else {
        match csv_line(header, lines[i], (i + 1) as nat) {
            Err(error) => Err(error),
            Ok(selector) => csv_rows(header, lines, i + 1, taken.push(selector)),
        }
    }
}

/// The selectors in a table whose first line names its columns.
pub open spec fn csv_selectors(input: Seq<char>) -> Result<Seq<Selector>, CommandFailure> {
    let lines = split_all(input, '\n');
    if is_blank(lines[0]) {
        Err(CommandFailure::InvalidInput("csv selector input is empty"@))
    } else {
        match lacking_column(columns_of(lines[0]), 0) {
            Some(column) => Err(missing_column(column)),
            None => csv_rows(columns_of(lines[0]), lines, 1, Seq::empty()),
        }
    }
}

/// Reads the selectors in a table whose first line names its columns.
pub fn parse_csv_selectors(input: &str) -> (result: Result<Vec<Selector>, CommandError>)
    ensures
        match result {
            Ok(list) => csv_selectors(input@) == Ok::<Seq<Selector>, CommandFailure>(list@),
            Err(error) => csv_selectors(input@) == Err::<Seq<Selector>, CommandFailure>(error@),
        },
{
    let chars = chars_of(input);
    let lines = split_text(&chars, '\n');
    let n: usize = lines.len();
    let ghost all = split_all(input@, '\n');
    assert(all[0] == lines@[0]@);
    let first = trim(&lines[0]);
    proof {
        blank_trims_to_nothing(lines@[0]@);
    }
    if first.len() == 0 {
        return Err(CommandError::invalid_input("csv selector input is empty"));
    }
    let header = split_columns(&lines[0]);
    check_header(header.as_slice())?;
    let mut selectors: Vec<Selector> = Vec::new();
    assert(selectors@ =~= Seq::empty());
    for i in 1..n
        invariant
            n == lines@.len(),
            all_chars(lines@) == all,
            is_full_header(texts(header@)),
            csv_selectors(input@) == csv_rows(texts(header@), all, i as int, selectors@),
    {
        assert(all[i as int] == lines@[i as int]@);
        proof {
            blank_trims_to_nothing(lines@[i as int]@);
        }
        if trim(&lines[i]).len() > 0 {
            let selector = read_csv_line(header.as_slice(), &lines[i], i + 1)?;
            selectors.push(selector);
        }
    }
    Ok(selectors)
}

} // verus!
