//! The names of the files of an archive.

use crate::error::{ArchiveDirectory, ArchiveFile};
use crate::text::{
    all_digits, chars_of, decimal, decimal_round_trip, is_digit, padded_decimal,
    padded_round_trip, parse_u32, parse_u64, parsed_number, push_chars, push_decimal,
    push_padded_decimal, split_at_first, split_finds, split_once, strip, strip_finds, stripped,
};
use crate::types::{ArchiveSegmentTier, ReplayPin};
use vstd::prelude::*;

verus! {

/// `segment-{id}-g{generation}` with an ending.
pub open spec fn segment_name(
    segment_id: u64,
    segment_generation: u32,
    ending: Seq<char>,
) -> Seq<char> {
    "segment-"@ + (decimal(segment_id as nat) + seq!['-', 'g'] + decimal(
        segment_generation as nat,
    )) + ending
}

/// The id and the generation in the name of a segment file with this ending.
pub open spec fn parsed_segment_name(name: Seq<char>, ending: Seq<char>) -> Option<(u64, u32)> {
    match stripped(name, "segment-"@, ending) {
        None => None,
        Some(value) => match split_once(value, seq!['-', 'g']) {
            None => None,
            Some((id, generation)) => match (
                parsed_number(id, u64::MAX as int),
                parsed_number(generation, u32::MAX as int),
            ) {
                (Some(id), Some(generation)) => Some((id as u64, generation as u32)),
                _ => None,
            },
        },
    }
}

/// Parses the name of a segment file with this ending.
pub fn parse_segment_name(name: &str, ending: &str) -> (key: Option<(u64, u32)>)
    ensures
        key == parsed_segment_name(name@, ending@),
{
    let name_chars = chars_of(name);
    let prefix = chars_of("segment-");
    let suffix = chars_of(ending);
    let value = match strip(&name_chars, &prefix, &suffix) {
        Some(value) => value,
        None => {
            return None;
        },
    };
    let separator: [char; 2] = ['-', 'g'];
    assert(separator@ =~= seq!['-', 'g']);
    match split_at_first(&value, &separator) {
        Some((id, generation)) => match (parse_u64(&id), parse_u32(&generation)) {
            (Some(id), Some(generation)) => Some((id, generation)),
            _ => None,
        },
        None => None,
    }
}

/// Parses the name of a segment data file.
pub fn parse_segment_data_filename(file_name: &str) -> (key: Option<(u64, u32)>)
    ensures
        key == parsed_segment_name(file_name@, ".data"@),
{
    parse_segment_name(file_name, ".data")
}

/// The name of a segment file with this ending.
pub fn format_segment_name(segment_id: u64, segment_generation: u32, ending: &str) -> (name: String)
    ensures
        name@ == segment_name(segment_id, segment_generation, ending@),
{
    let mut name = "segment-".to_owned();
    push_decimal(&mut name, segment_id);
    name.push('-');
    name.push('g');
    push_decimal(&mut name, segment_generation as u64);
    let suffix = chars_of(ending);
    push_chars(&mut name, &suffix);
    assert(name@ =~= segment_name(segment_id, segment_generation, ending@));
    name
}

/// Digits hold no letter or dash.
proof fn digits_hold_no_dash(s: Seq<char>)
    requires
        all_digits(s),
    ensures
        !s.contains('-'),
{
    if s.contains('-') {
        let i = choose|i: int| 0 <= i < s.len() && s[i] == '-';
        assert(is_digit(s[i]));
    }
}

/// The name of a segment file gives back its id and generation.
pub proof fn segment_name_round_trip(
    segment_id: u64,
    segment_generation: u32,
    ending: Seq<char>,
)
    ensures
        parsed_segment_name(segment_name(segment_id, segment_generation, ending), ending) == Some(
            (segment_id, segment_generation),
        ),
{
    let id = decimal(segment_id as nat);
    let generation = decimal(segment_generation as nat);
    decimal_round_trip(segment_id as nat);
    decimal_round_trip(segment_generation as nat);
    strip_finds("segment-"@, id + seq!['-', 'g'] + generation, ending);
    digits_hold_no_dash(id);
    split_finds(id, '-', 'g', generation);
}

/// `commit-{index}.idxlog`, with the index in at least twenty digits.
pub open spec fn rolled_log_name(index: u64) -> Seq<char> {
    "commit-"@ + padded_decimal(index as nat, 20) + ".idxlog"@
}

/// The index in the name of a rolled commit log.
pub open spec fn parsed_rolled_log_name(name: Seq<char>) -> Option<u64> {
    match stripped(name, "commit-"@, ".idxlog"@) {
        None => None,
        Some(value) => match parsed_number(value, u64::MAX as int) {
            None => None,
            Some(index) => Some(index as u64),
        },
    }
}

/// Parses the name of a rolled commit log.
pub fn parse_rolled_commit_log_index(file_name: &str) -> (index: Option<u64>)
    ensures
        index == parsed_rolled_log_name(file_name@),
{
    let name_chars = chars_of(file_name);
    let prefix = chars_of("commit-");
    let suffix = chars_of(".idxlog");
    match strip(&name_chars, &prefix, &suffix) {
        Some(value) => parse_u64(&value),
        None => None,
    }
}

/// The name of a rolled commit log.
pub fn format_rolled_log_name(index: u64) -> (name: String)
    ensures
        name@ == rolled_log_name(index),
{
    let mut name = "commit-".to_owned();
    push_padded_decimal(&mut name, index, 20);
    let suffix = chars_of(".idxlog");
    push_chars(&mut name, &suffix);
    name
}

/// The name of a rolled commit log gives back its index.
pub proof fn rolled_log_name_round_trip(index: u64)
    ensures
        parsed_rolled_log_name(rolled_log_name(index)) == Some(index),
{
    padded_round_trip(index as nat, 20);
    strip_finds("commit-"@, padded_decimal(index as nat, 20), ".idxlog"@);
}

/// `pin-{id}-s{start}-e{end}.pin`
pub open spec fn pin_name(pin: ReplayPin) -> Seq<char> {
    "pin-"@ + (decimal(pin.pin_id as nat) + seq!['-', 's'] + (decimal(pin.sequence_start as nat)
        + seq!['-', 'e'] + decimal(pin.sequence_end as nat))) + ".pin"@
}

/// The pin that a file name stands for.
pub open spec fn parsed_pin_name(name: Seq<char>) -> Option<ReplayPin> {
    match stripped(name, "pin-"@, ".pin"@) {
        None => None,
        Some(value) => match split_once(value, seq!['-', 's']) {
            None => None,
            Some((id, rest)) => match split_once(rest, seq!['-', 'e']) {
                None => None,
                Some((start, end)) => match (
                    parsed_number(id, u64::MAX as int),
                    parsed_number(start, u64::MAX as int),
                    parsed_number(end, u64::MAX as int),
                ) {
                    (Some(id), Some(start), Some(end)) => Some(
                        ReplayPin {
                            pin_id: id as u64,
                            sequence_start: start as u64,
                            sequence_end: end as u64,
                        },
                    ),
                    _ => None,
                },
            },
        },
    }
}

/// Parses the name of a pin file.
pub fn parse_pin_file_name(name: &str) -> (pin: Option<ReplayPin>)
    ensures
        pin == parsed_pin_name(name@),
{
    let name_chars = chars_of(name);
    let prefix = chars_of("pin-");
    let suffix = chars_of(".pin");
    let value = match strip(&name_chars, &prefix, &suffix) {
        Some(value) => value,
        None => {
            return None;
        },
    };
    let first: [char; 2] = ['-', 's'];
    let second: [char; 2] = ['-', 'e'];
    assert(first@ =~= seq!['-', 's']);
    assert(second@ =~= seq!['-', 'e']);
    match split_at_first(&value, &first) {
        Some((id, rest)) => match split_at_first(&rest, &second) {
            Some((start, end)) => match (parse_u64(&id), parse_u64(&start), parse_u64(&end)) {
                (Some(pin_id), Some(sequence_start), Some(sequence_end)) => Some(
                    ReplayPin { pin_id, sequence_start, sequence_end },
                ),
                _ => None,
            },
            None => None,
        },
        None => None,
    }
}

/// The name of a pin file.
pub fn pin_file_name(pin: ReplayPin) -> (name: String)
    ensures
        name@ == pin_name(pin),
{
    let mut name = "pin-".to_owned();
    push_decimal(&mut name, pin.pin_id);
    name.push('-');
    name.push('s');
    push_decimal(&mut name, pin.sequence_start);
    name.push('-');
    name.push('e');
    push_decimal(&mut name, pin.sequence_end);
    let suffix = chars_of(".pin");
    push_chars(&mut name, &suffix);
    assert(name@ =~= pin_name(pin));
    name
}

/// The name of a pin file gives back the pin.
pub proof fn pin_name_round_trip(pin: ReplayPin)
    ensures
        parsed_pin_name(pin_name(pin)) == Some(pin),
{
    let id = decimal(pin.pin_id as nat);
    let start = decimal(pin.sequence_start as nat);
    let end = decimal(pin.sequence_end as nat);
    decimal_round_trip(pin.pin_id as nat);
    decimal_round_trip(pin.sequence_start as nat);
    decimal_round_trip(pin.sequence_end as nat);
    digits_hold_no_dash(id);
    digits_hold_no_dash(start);
    strip_finds("pin-"@, id + seq!['-', 's'] + (start + seq!['-', 'e'] + end), ".pin"@);
    split_finds(id, '-', 's', start + seq!['-', 'e'] + end);
    split_finds(start, '-', 'e', end);
}

/// The directory and the name of a file. Of a file under another name it is the name that the
/// archive would have given it.
pub open spec fn file_place(file: ArchiveFile) -> (ArchiveDirectory, Seq<char>) {
    match file {
        ArchiveFile::Catalog => (ArchiveDirectory::Storage, "catalog.bin"@),
        ArchiveFile::CommitLog => (ArchiveDirectory::Metadata, "commit.idxlog"@),
        ArchiveFile::RolledCommitLog { index } => (
            ArchiveDirectory::Metadata,
            rolled_log_name(index),
        ),
        ArchiveFile::SegmentData { tier, segment_id, segment_generation } => (
            tier_directory(tier),
            segment_name(segment_id, segment_generation, ".data"@),
        ),
        ArchiveFile::SegmentMeta { tier, segment_id, segment_generation } => (
            tier_directory(tier),
            segment_name(segment_id, segment_generation, ".meta"@),
        ),
        ArchiveFile::Pin { pin } => (ArchiveDirectory::Pins, pin_name(pin)),
        ArchiveFile::SegmentDataAlias { segment_id, segment_generation } => (
            ArchiveDirectory::Segments,
            segment_name(segment_id, segment_generation, ".data"@),
        ),
        ArchiveFile::PinAlias { pin } => (ArchiveDirectory::Pins, pin_name(pin)),
        ArchiveFile::Watermark => (ArchiveDirectory::Metadata, "indexer.watermark"@),
        ArchiveFile::WatermarkTemp => (ArchiveDirectory::Metadata, "indexer.tmp"@),
        ArchiveFile::CoreLocatorIndex => (ArchiveDirectory::Storage, "core-locator.idx"@),
    }
}

/// The directory of a tier.
pub open spec fn tier_directory(tier: ArchiveSegmentTier) -> ArchiveDirectory {
    match tier {
        ArchiveSegmentTier::HotAttached => ArchiveDirectory::Segments,
        ArchiveSegmentTier::ColdDetached => ArchiveDirectory::Detached,
    }
}

/// The directory and the name of a file.
pub fn locate_file(file: ArchiveFile) -> (place: (ArchiveDirectory, String))
    ensures
        (place.0, place.1@) == file_place(file),
{
    match file {
        ArchiveFile::Catalog => (ArchiveDirectory::Storage, "catalog.bin".to_owned()),
        ArchiveFile::CommitLog => (ArchiveDirectory::Metadata, "commit.idxlog".to_owned()),
        ArchiveFile::RolledCommitLog { index } => (
            ArchiveDirectory::Metadata,
            format_rolled_log_name(index),
        ),
        ArchiveFile::SegmentData { tier, segment_id, segment_generation } => (
            directory_of_tier(tier),
            format_segment_name(segment_id, segment_generation, ".data"),
        ),
        ArchiveFile::SegmentMeta { tier, segment_id, segment_generation } => (
            directory_of_tier(tier),
            format_segment_name(segment_id, segment_generation, ".meta"),
        ),
        ArchiveFile::Pin { pin } => (ArchiveDirectory::Pins, pin_file_name(pin)),
        ArchiveFile::SegmentDataAlias { segment_id, segment_generation } => (
            ArchiveDirectory::Segments,
            format_segment_name(segment_id, segment_generation, ".data"),
        ),
        ArchiveFile::PinAlias { pin } => (ArchiveDirectory::Pins, pin_file_name(pin)),
        ArchiveFile::Watermark => (ArchiveDirectory::Metadata, "indexer.watermark".to_owned()),
        ArchiveFile::WatermarkTemp => (ArchiveDirectory::Metadata, "indexer.tmp".to_owned()),
        ArchiveFile::CoreLocatorIndex => (
            ArchiveDirectory::Storage,
            "core-locator.idx".to_owned(),
        ),
    }
}

/// The directory of a tier.
pub fn directory_of_tier(tier: ArchiveSegmentTier) -> (directory: ArchiveDirectory)
    ensures
        directory == tier_directory(tier),
{
    match tier {
        ArchiveSegmentTier::HotAttached => ArchiveDirectory::Segments,
        ArchiveSegmentTier::ColdDetached => ArchiveDirectory::Detached,
    }
}

/// The segment file that a name in the directory of a tier stands for.
pub open spec fn tier_file(tier: ArchiveSegmentTier, name: Seq<char>) -> Option<ArchiveFile> {
    match parsed_segment_name(name, ".data"@) {
        Some((segment_id, segment_generation)) => Some(
            ArchiveFile::SegmentData { tier, segment_id, segment_generation },
        ),
        None => match parsed_segment_name(name, ".meta"@) {
            Some((segment_id, segment_generation)) => Some(
                ArchiveFile::SegmentMeta { tier, segment_id, segment_generation },
            ),
            None => None,
        },
    }
}

/// The file that a name stands for which gives the numbers of `file` otherwise than the archive
/// writes them, such as with other zeros in front. A rolled commit log is read under such a name, a
/// data file or a pin is only listed, and a summary or anything of a detached segment is not found.
pub open spec fn alias_of(file: ArchiveFile) -> Option<ArchiveFile> {
    match file {
        ArchiveFile::RolledCommitLog { index } => Some(file),
        ArchiveFile::SegmentData { tier, segment_id, segment_generation } => match tier {
            ArchiveSegmentTier::HotAttached => Some(
                ArchiveFile::SegmentDataAlias { segment_id, segment_generation },
            ),
            ArchiveSegmentTier::ColdDetached => None,
        },
        ArchiveFile::Pin { pin } => Some(ArchiveFile::PinAlias { pin }),
        _ => None,
    }
}

/// The file of the archive that a name in a directory stands for.
pub open spec fn file_of_name(directory: ArchiveDirectory, name: Seq<char>) -> Option<ArchiveFile> {
    match parsed_file_name(directory, name) {
        Some(file) => if file_place(file).1 == name {
            Some(file)
        } else {
            alias_of(file)
        },
        None => None,
    }
}

/// The file whose kind and numbers a name in a directory gives.
pub open spec fn parsed_file_name(directory: ArchiveDirectory, name: Seq<char>) -> Option<
    ArchiveFile,
> {
    match directory {
        ArchiveDirectory::Storage => if name == "catalog.bin"@ {
            Some(ArchiveFile::Catalog)
        } else if name == "core-locator.idx"@ {
            Some(ArchiveFile::CoreLocatorIndex)
        } else {
            None
        },
        ArchiveDirectory::Metadata => if name == "commit.idxlog"@ {
            Some(ArchiveFile::CommitLog)
        } else if name == "indexer.watermark"@ {
            Some(ArchiveFile::Watermark)
        } else {
            match parsed_rolled_log_name(name) {
                Some(index) => Some(ArchiveFile::RolledCommitLog { index }),
                None => None,
            }
        },
        ArchiveDirectory::Segments => tier_file(ArchiveSegmentTier::HotAttached, name),
        ArchiveDirectory::Detached => tier_file(ArchiveSegmentTier::ColdDetached, name),
        ArchiveDirectory::Pins => match parsed_pin_name(name) {
            Some(pin) => Some(ArchiveFile::Pin { pin }),
            None => None,
        },
    }
}

/// Finds the segment file that a name in the directory of a tier stands for.
fn identify_tier_file(tier: ArchiveSegmentTier, name: &str) -> (file: Option<ArchiveFile>)
    ensures
        file == tier_file(tier, name@),
{
    if let Some((segment_id, segment_generation)) = parse_segment_name(name, ".data") {
        return Some(ArchiveFile::SegmentData { tier, segment_id, segment_generation });
    }
    if let Some((segment_id, segment_generation)) = parse_segment_name(name, ".meta") {
        return Some(ArchiveFile::SegmentMeta { tier, segment_id, segment_generation });
    }
    None
}

/// Finds the file of the archive that a name in a directory stands for.
pub fn identify_file(directory: ArchiveDirectory, name: &str) -> (file: Option<ArchiveFile>)
    ensures
        file == file_of_name(directory, name@),
{
    match parse_file_name(directory, name) {
        Some(file) => {
            let (_, written) = locate_file(file);
            if same_text(written.as_str(), name) {
                Some(file)
            } else {
                match file {
                    ArchiveFile::RolledCommitLog { index } => Some(file),
                    ArchiveFile::SegmentData { tier, segment_id, segment_generation } => {
                        match tier {
                            ArchiveSegmentTier::HotAttached => Some(
                                ArchiveFile::SegmentDataAlias { segment_id, segment_generation },
                            ),
                            ArchiveSegmentTier::ColdDetached => None,
                        }
                    },
                    ArchiveFile::Pin { pin } => Some(ArchiveFile::PinAlias { pin }),
                    _ => None,
                }
            }
        },
        None => None,
    }
}

/// Finds the file whose kind and numbers a name in a directory gives.
fn parse_file_name(directory: ArchiveDirectory, name: &str) -> (file: Option<ArchiveFile>)
    ensures
        file == parsed_file_name(directory, name@),
{
    match directory {
        ArchiveDirectory::Storage => if same_text(name, "catalog.bin") {
            Some(ArchiveFile::Catalog)
        } else if same_text(name, "core-locator.idx") {
            Some(ArchiveFile::CoreLocatorIndex)
        } else {
            None
        },
        ArchiveDirectory::Metadata => if same_text(name, "commit.idxlog") {
            Some(ArchiveFile::CommitLog)
        } else if same_text(name, "indexer.watermark") {
            Some(ArchiveFile::Watermark)
        } else {
            match parse_rolled_commit_log_index(name) {
                Some(index) => Some(ArchiveFile::RolledCommitLog { index }),
                None => None,
            }
        },
        ArchiveDirectory::Segments => identify_tier_file(ArchiveSegmentTier::HotAttached, name),
        ArchiveDirectory::Detached => identify_tier_file(ArchiveSegmentTier::ColdDetached, name),
        ArchiveDirectory::Pins => match parse_pin_file_name(name) {
            Some(pin) => Some(ArchiveFile::Pin { pin }),
            None => None,
        },
    }
}

/// Tells whether two texts are the same.
pub fn same_text(a: &str, b: &str) -> (same: bool)
    ensures
        same == (a@ == b@),
{
    a.to_owned() == b.to_owned()
}

/// The file is found under one name only.
pub open spec fn has_one_name(file: ArchiveFile) -> bool {
    match file {
        ArchiveFile::RolledCommitLog { .. } => false,
        ArchiveFile::SegmentDataAlias { .. } => false,
        ArchiveFile::PinAlias { .. } => false,
        _ => true,
    }
}

/// No two names in a directory stand for one file, but for rolled commit logs and for what is only
/// listed.
pub proof fn file_has_one_name(directory: ArchiveDirectory, a: Seq<char>, b: Seq<char>)
    requires
        file_of_name(directory, a) is Some,
        file_of_name(directory, a) == file_of_name(directory, b),
        has_one_name(file_of_name(directory, a).unwrap()),
    ensures
        a == b,
{
}

/// Both names stand for one rolled commit log, so that the order of the two is not told.
pub open spec fn names_clash(directory: ArchiveDirectory, a: Seq<char>, b: Seq<char>) -> bool {
    &&& file_of_name(directory, a) matches Some(file) && file is RolledCommitLog
    &&& file_of_name(directory, a) == file_of_name(directory, b)
}

/// Finds the first name that stands for the same rolled commit log as one before it.
pub fn find_name_clash(directory: ArchiveDirectory, names: &Vec<String>) -> (clash: Option<
    (usize, usize),
>)
    ensures
        match clash {
            Some((first, second)) => {
                &&& first < second < names@.len()
                &&& names_clash(directory, names@[first as int]@, names@[second as int]@)
                &&& forall|i: int, j: int|
                    0 <= i < j < second ==> !names_clash(
                        directory,
                        (#[trigger] names@[i])@,
                        (#[trigger] names@[j])@,
                    )
                &&& forall|i: int|
                    0 <= i < first ==> !names_clash(
                        directory,
                        (#[trigger] names@[i])@,
                        names@[second as int]@,
                    )
            },
            None => forall|i: int, j: int|
                0 <= i < j < names@.len() ==> !names_clash(
                    directory,
                    (#[trigger] names@[i])@,
                    (#[trigger] names@[j])@,
                ),
        },
{
    let n: usize = names.len();
    for second in 0..n
        invariant
            n == names@.len(),
            forall|i: int, j: int|
                0 <= i < j < second ==> !names_clash(
                    directory,
                    (#[trigger] names@[i])@,
                    (#[trigger] names@[j])@,
                ),
    {
        let found = identify_file(directory, names[second].as_str());
        if let Some(ArchiveFile::RolledCommitLog { index }) = found {
            for first in 0..second
                invariant
                    second < n == names@.len(),
                    found == Some(ArchiveFile::RolledCommitLog { index }),
                    found == file_of_name(directory, names@[second as int]@),
                    forall|i: int, j: int|
                        0 <= i < j < second ==> !names_clash(
                            directory,
                            (#[trigger] names@[i])@,
                            (#[trigger] names@[j])@,
                        ),
                    forall|i: int|
                        0 <= i < first ==> !names_clash(
                            directory,
                            (#[trigger] names@[i])@,
                            names@[second as int]@,
                        ),
            {
                if let Some(earlier) = identify_file(directory, names[first].as_str()) {
                    if earlier == (ArchiveFile::RolledCommitLog { index }) {
                        return Some((first, second));
                    }
                }
            }
        }
    }
    None
}

/// Every file but the temporary one is found again by its name, unless it lies under another.
pub proof fn file_name_round_trip(file: ArchiveFile)
    requires
        file != ArchiveFile::WatermarkTemp,
        file !is SegmentDataAlias,
        file !is PinAlias,
    ensures
        file_of_name(file_place(file).0, file_place(file).1) == Some(file),
{
    reveal_strlit("catalog.bin");
    reveal_strlit("core-locator.idx");
    reveal_strlit("commit.idxlog");
    reveal_strlit("indexer.watermark");
    match file {
        ArchiveFile::RolledCommitLog { index } => {
            rolled_log_name_round_trip(index);
            let name = rolled_log_name(index);
            reveal_strlit("commit-");
            assert(name[6] == '-');
            assert("commit.idxlog"@[6] == '.');
            assert(name[0] == 'c');
            assert("indexer.watermark"@[0] == 'i');
        },
        ArchiveFile::SegmentData { tier, segment_id, segment_generation } => {
            segment_name_round_trip(segment_id, segment_generation, ".data"@);
        },
        ArchiveFile::SegmentMeta { tier, segment_id, segment_generation } => {
            segment_name_round_trip(segment_id, segment_generation, ".meta"@);
            reveal_strlit(".data");
            reveal_strlit(".meta");
            reveal_strlit("segment-");
            let name = segment_name(segment_id, segment_generation, ".meta"@);
            let rest = name.subrange(8, name.len() as int);
            if parsed_segment_name(name, ".data"@) is Some {
                let last = rest.subrange(rest.len() - 5, rest.len() as int);
                assert(last[1] == name[name.len() - 4]);
                assert(name[name.len() - 4] == 'm');
                assert(".data"@[1] == 'd');
            }
        },
        ArchiveFile::Pin { pin } => {
            pin_name_round_trip(pin);
        },
        _ => {},
    }
    assert("catalog.bin"@[0] == 'c' && "core-locator.idx"@[1] == 'o' && "catalog.bin"@[1] == 'a');
    assert("commit.idxlog"@[0] == 'c' && "indexer.watermark"@[0] == 'i');
}

} // verus!
