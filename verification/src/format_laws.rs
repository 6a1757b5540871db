//! Where each field stands in the binary formats.

use crate::adapter::adapter_metadata;
use crate::bytes::{u16_at, u32_at, u64_at};
use crate::commit_entry::{decode_entry, entry_round_trip, CommitEntry, COMMIT_ENTRY_MAGIC};
use crate::frame::{aligned_is_next_multiple, decode_frame, encoded_len, FrameInput};
use crate::header::{decode_header, ArchiveFileKind};
use crate::metadata::{core_record, stored_watermark};
use crate::summary::SegmentSummary;
use crate::types::{ArchiveLocator, ArchiveSourcePattern, ChecksumMode};
use vstd::prelude::*;

verus! {

/// The number that `len` bytes from `at` on stand for, the least significant byte first.
pub open spec fn number_at(s: Seq<u8>, at: int, len: nat) -> int
    decreases len,
{
    if len == 0 {
        0
    } else {
        s[at] + 256 * number_at(s, at + 1, (len - 1) as nat)
    }
}

/// Integers in bytes are read with the least significant byte first.
pub proof fn integers_are_little_endian(s: Seq<u8>, at: int)
    ensures
        u16_at(s, at) == number_at(s, at, 2),
        u32_at(s, at) == number_at(s, at, 4),
        u64_at(s, at) == number_at(s, at, 8),
{
    reveal_with_fuel(number_at, 9);
}

/// An entry of the commit log has its fields in these places.
pub proof fn commit_entry_layout(s: Seq<u8>)
    requires
        decode_entry(s) is Ok,
    ensures
        ({
            let entry = decode_entry(s)->Ok_0;
            &&& s.len() == 104
            &&& number_at(s, 4, 2) == 104
            &&& entry.commit_ordinal == number_at(s, 8, 8)
            &&& entry.sequence == number_at(s, 16, 8)
            &&& entry.locator.segment_id == number_at(s, 24, 8)
            &&& entry.locator.segment_generation == number_at(s, 32, 4)
            &&& entry.locator.file_offset == number_at(s, 40, 8)
            &&& entry.locator.frame_len == number_at(s, 48, 4)
            &&& entry.frame_checksum == number_at(s, 52, 4)
            &&& entry.event_time_ns == number_at(s, 56, 8)
            &&& entry.commit_time_ns == number_at(s, 64, 8)
            &&& entry.source_service_id == number_at(s, 72, 8)
            &&& entry.source_instance_id == number_at(s, 80, 8)
            &&& entry.source_sequence matches Some(sequence) ==> sequence == number_at(s, 88, 8)
            &&& entry.source_pattern == ArchiveSourcePattern::Log <==> s[96] == 1
            &&& entry.source_pattern == ArchiveSourcePattern::PublishSubscribe <==> s[96] == 2
            &&& entry.source_pattern == ArchiveSourcePattern::Pipeline <==> s[96] == 3
        }),
{
    integers_are_little_endian(s, 4);
    integers_are_little_endian(s, 8);
    integers_are_little_endian(s, 16);
    integers_are_little_endian(s, 24);
    integers_are_little_endian(s, 32);
    integers_are_little_endian(s, 40);
    integers_are_little_endian(s, 48);
    integers_are_little_endian(s, 52);
    integers_are_little_endian(s, 56);
    integers_are_little_endian(s, 64);
    integers_are_little_endian(s, 72);
    integers_are_little_endian(s, 80);
    integers_are_little_endian(s, 88);
}

/// An entry is written to the commit log with its fields in these places.
pub proof fn written_commit_entry_layout(entry: CommitEntry)
    ensures
        ({
            let s = entry.encoded();
            &&& s.len() == 104
            &&& s[0] == 0x43 && s[1] == 0x49 && s[2] == 0x44 && s[3] == 0x31
            &&& number_at(s, 8, 8) == entry.commit_ordinal
            &&& number_at(s, 16, 8) == entry.sequence
            &&& number_at(s, 24, 8) == entry.locator.segment_id
            &&& number_at(s, 32, 4) == entry.locator.segment_generation
            &&& number_at(s, 40, 8) == entry.locator.file_offset
            &&& number_at(s, 48, 4) == entry.locator.frame_len
            &&& number_at(s, 52, 4) == entry.frame_checksum
            &&& number_at(s, 56, 8) == entry.event_time_ns
            &&& number_at(s, 64, 8) == entry.commit_time_ns
            &&& number_at(s, 72, 8) == entry.source_service_id
            &&& number_at(s, 80, 8) == entry.source_instance_id
        }),
{
    entry_round_trip(entry, COMMIT_ENTRY_MAGIC@);
    let s = entry.encoded();
    commit_entry_layout(s);
    assert(s.subrange(0, 4)[0] == s[0] && s.subrange(0, 4)[1] == s[1] && s.subrange(0, 4)[2]
        == s[2] && s.subrange(0, 4)[3] == s[3]);
}

/// A frame has its fields in these places behind its start.
pub proof fn frame_layout(segment: Seq<u8>, locator: ArchiveLocator, verify: bool)
    requires
        decode_frame(segment, locator, verify) is Ok,
    ensures
        ({
            let frame = decode_frame(segment, locator, verify)->Ok_0;
            let at = locator.file_offset as int;
            &&& at + locator.frame_len <= segment.len()
            &&& number_at(segment, at + 4, 2) == 64
            &&& number_at(segment, at + 8, 4) == locator.frame_len
            &&& frame.commit_ordinal == number_at(segment, at + 16, 8)
            &&& frame.sequence == number_at(segment, at + 24, 8)
            &&& frame.event_time_ns == number_at(segment, at + 32, 8)
            &&& frame.commit_time_ns == number_at(segment, at + 40, 8)
            &&& frame.user_header.len() == number_at(segment, at + 48, 4)
            &&& frame.payload.len() == number_at(segment, at + 52, 4)
            &&& frame.frame_checksum == number_at(segment, at + 56, 4)
            &&& frame.user_header == segment.subrange(at + 64, at + 64 + frame.user_header.len())
            &&& frame.payload == segment.subrange(
                at + 64 + frame.user_header.len(),
                at + 64 + frame.user_header.len() + frame.payload.len(),
            )
            &&& frame.locator == locator
        }),
{
    let at = locator.file_offset as int;
    let header = segment.subrange(at, at + 64);
    let whole = segment.subrange(at, at + locator.frame_len);
    let frame = decode_frame(segment, locator, verify)->Ok_0;
    assert forall|i: int| 0 <= i < 64 implies #[trigger] header[i] == segment[at + i] by {}
    field_in_part(segment, header, at, 4);
    field_in_part(segment, header, at, 8);
    field_in_part(segment, header, at, 16);
    field_in_part(segment, header, at, 24);
    field_in_part(segment, header, at, 32);
    field_in_part(segment, header, at, 40);
    field_in_part(segment, header, at, 48);
    field_in_part(segment, header, at, 52);
    field_in_part(segment, header, at, 56);
    assert(frame.user_header =~= segment.subrange(at + 64, at + 64 + frame.user_header.len()));
    assert(frame.payload =~= segment.subrange(
        at + 64 + frame.user_header.len(),
        at + 64 + frame.user_header.len() + frame.payload.len(),
    ));
}

/// A field in a part of some bytes is the field in all of them.
proof fn field_in_part(s: Seq<u8>, part: Seq<u8>, start: int, at: int)
    requires
        0 <= at <= 56,
        part.len() == 64,
        forall|i: int| 0 <= i < 64 ==> #[trigger] part[i] == s[start + i],
    ensures
        u64_at(part, at) == number_at(s, start + at, 8),
        u32_at(part, at) == number_at(s, start + at, 4),
        u16_at(part, at) == number_at(s, start + at, 2),
{
    integers_are_little_endian(s, start + at);
    assert(part[at] == s[start + at] && part[at + 1] == s[start + at + 1]);
    assert(part[at + 2] == s[start + at + 2] && part[at + 3] == s[start + at + 3]);
    assert(part[at + 4] == s[start + at + 4] && part[at + 5] == s[start + at + 5]);
    assert(part[at + 6] == s[start + at + 6] && part[at + 7] == s[start + at + 7]);
}

/// The summary of a segment has its fields in these places.
pub proof fn summary_layout(s: Seq<u8>, at: int)
    ensures
        ({
            let summary = SegmentSummary::decoded(s, at);
            &&& summary.segment_id == number_at(s, at, 8)
            &&& summary.segment_generation == number_at(s, at + 8, 4)
            &&& summary.sequence_start == number_at(s, at + 12, 8)
            &&& summary.sequence_end == number_at(s, at + 20, 8)
            &&& summary.records == number_at(s, at + 28, 8)
            &&& summary.created_at_ns == number_at(s, at + 36, 8)
            &&& summary.sealed_at_ns == number_at(s, at + 44, 8)
            &&& summary.data_bytes_used == number_at(s, at + 52, 8)
            &&& summary.segment_checksum == number_at(s, at + 60, 4)
        }),
{
    integers_are_little_endian(s, at);
    integers_are_little_endian(s, at + 8);
    integers_are_little_endian(s, at + 12);
    integers_are_little_endian(s, at + 20);
    integers_are_little_endian(s, at + 28);
    integers_are_little_endian(s, at + 36);
    integers_are_little_endian(s, at + 44);
    integers_are_little_endian(s, at + 52);
    integers_are_little_endian(s, at + 60);
}

/// The header of a file has its fields in these places.
pub proof fn file_header_layout(s: Seq<u8>)
    requires
        decode_header(s) is Ok,
    ensures
        ({
            let header = decode_header(s)->Ok_0;
            &&& s.len() >= 76
            &&& header.major == number_at(s, 6, 2)
            &&& header.minor == number_at(s, 8, 2)
            &&& header.header_len == number_at(s, 10, 2)
            &&& header.flags == number_at(s, 12, 4)
            &&& header.created_at_ns == number_at(s, 16, 8)
            &&& forall|i: int| 0 <= i < 16 ==> #[trigger] header.log_id@[i] == s[24 + i]
            &&& header.segment_id == number_at(s, 40, 8)
            &&& header.segment_generation == number_at(s, 48, 4)
            &&& header.header_crc32c == number_at(s, 72, 4)
            &&& header.file_kind == ArchiveFileKind::Catalog <==> number_at(s, 4, 2) == 1
            &&& header.file_kind == ArchiveFileKind::CommitIdxLog <==> number_at(s, 4, 2) == 2
            &&& header.file_kind == ArchiveFileKind::SegmentData <==> number_at(s, 4, 2) == 3
            &&& header.file_kind == ArchiveFileKind::SegmentIndex <==> number_at(s, 4, 2) == 4
            &&& header.file_kind == ArchiveFileKind::SegmentMeta <==> number_at(s, 4, 2) == 5
        }),
{
    integers_are_little_endian(s, 4);
    integers_are_little_endian(s, 6);
    integers_are_little_endian(s, 8);
    integers_are_little_endian(s, 10);
    integers_are_little_endian(s, 12);
    integers_are_little_endian(s, 16);
    integers_are_little_endian(s, 40);
    integers_are_little_endian(s, 48);
    integers_are_little_endian(s, 72);
}

/// A watermark file has its two ordinals in these places.
pub proof fn watermark_layout(s: Seq<u8>)
    requires
        stored_watermark(s) is Ok,
    ensures
        s.len() >= 24,
        s[0] == 0x57 && s[1] == 0x4D && s[2] == 0x4B && s[3] == 0x31,
        stored_watermark(s)->Ok_0.last_commit_ordinal == number_at(s, 8, 8),
        stored_watermark(s)->Ok_0.last_indexed_commit_ordinal == number_at(s, 16, 8),
{
    integers_are_little_endian(s, 8);
    integers_are_little_endian(s, 16);
    let magic = s.subrange(0, 4);
    assert(magic[0] == s[0] && magic[1] == s[1] && magic[2] == s[2] && magic[3] == s[3]);
}

/// An entry of a core-locator index has the layout of an entry of the commit log.
pub proof fn core_entry_layout(s: Seq<u8>, log_id: [u8; 16])
    requires
        core_record(s, log_id) is Ok,
    ensures
        ({
            let record = core_record(s, log_id)->Ok_0;
            &&& record.log_id == log_id
            &&& record.commit_ordinal == number_at(s, 8, 8)
            &&& record.sequence == number_at(s, 16, 8)
            &&& record.locator.segment_id == number_at(s, 24, 8)
            &&& record.locator.segment_generation == number_at(s, 32, 4)
            &&& record.locator.file_offset == number_at(s, 40, 8)
            &&& record.locator.frame_len == number_at(s, 48, 4)
            &&& record.frame_checksum == number_at(s, 52, 4)
            &&& record.event_time_ns == number_at(s, 56, 8)
            &&& record.commit_time_ns == number_at(s, 64, 8)
            &&& record.source_service_id == number_at(s, 72, 8)
            &&& record.source_instance_id == number_at(s, 80, 8)
        }),
{
    integers_are_little_endian(s, 8);
    integers_are_little_endian(s, 16);
    integers_are_little_endian(s, 24);
    integers_are_little_endian(s, 32);
    integers_are_little_endian(s, 40);
    integers_are_little_endian(s, 48);
    integers_are_little_endian(s, 52);
    integers_are_little_endian(s, 56);
    integers_are_little_endian(s, 64);
    integers_are_little_endian(s, 72);
    integers_are_little_endian(s, 80);
}

/// The prefix of an adapted user header has its fields in these places.
pub proof fn adapter_prefix_layout(s: Seq<u8>)
    requires
        adapter_metadata(s) is Some,
    ensures
        ({
            let metadata = adapter_metadata(s)->Some_0;
            &&& s.len() >= 40
            &&& number_at(s, 4, 2) == 40
            &&& metadata.source_service_id == number_at(s, 16, 8)
            &&& metadata.source_instance_id == number_at(s, 24, 8)
            &&& metadata.source_sequence matches Some(sequence) ==> sequence == number_at(s, 32, 8)
            &&& metadata.source_pattern == ArchiveSourcePattern::Log <==> s[8] == 1
            &&& metadata.source_pattern == ArchiveSourcePattern::PublishSubscribe <==> s[8] == 2
            &&& metadata.source_pattern == ArchiveSourcePattern::Pipeline <==> s[8] == 3
        }),
{
    integers_are_little_endian(s, 4);
    integers_are_little_endian(s, 16);
    integers_are_little_endian(s, 24);
    integers_are_little_endian(s, 32);
}

/// A frame has sixty-four bytes of header, the user header and the payload, and is filled up to the
/// next multiple of eight.
pub proof fn frame_is_filled_up_to_eight_bytes(input: FrameInput, mode: ChecksumMode)
    ensures
        ({
            let needed = 64int + input.user_header.len() + input.payload.len();
            let len = input.encoded(mode).len();
            &&& needed <= len < needed + 8
            &&& len % 8 == 0
        }),
{
    aligned_is_next_multiple(64int + input.user_header.len() + input.payload.len(), 8);
    encoded_len(input, mode);
}

} // verus!
