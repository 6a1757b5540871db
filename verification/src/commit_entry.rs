//! The fixed-length entry that the commit log keeps for each record.

use crate::bytes::{
    push_slice, push_u16, push_u32, push_u64, push_zeros, read_u16, read_u32, read_u64, u16_at,
    u16_bytes, u16_round_trip, u32_at, u32_bytes, u32_round_trip, u64_at, u64_bytes,
    u64_round_trip, zeros,
};
use crate::types::{ArchiveLocator, ArchiveSourcePattern};
use vstd::prelude::*;

verus! {

/// `CID1`
pub const COMMIT_ENTRY_MAGIC: [u8; 4] = [0x43, 0x49, 0x44, 0x31];

/// Length of a commit-log entry.
pub const COMMIT_ENTRY_LEN: usize = 104;

/// Length of the part that tells an entry from free space.
pub const COMMIT_ENTRY_PREFIX_LEN: usize = 8;

pub const COMMIT_OFFSET_ENTRY_LEN: usize = 4;

pub const COMMIT_OFFSET_FLAGS: usize = 6;

pub const COMMIT_OFFSET_COMMIT_ORDINAL: usize = 8;

pub const COMMIT_OFFSET_SEQUENCE: usize = 16;

pub const COMMIT_OFFSET_SEGMENT_ID: usize = 24;

pub const COMMIT_OFFSET_SEGMENT_GENERATION: usize = 32;

pub const COMMIT_OFFSET_FILE_OFFSET: usize = 40;

pub const COMMIT_OFFSET_FRAME_LEN: usize = 48;

pub const COMMIT_OFFSET_FRAME_CHECKSUM: usize = 52;

pub const COMMIT_OFFSET_EVENT_TIME_NS: usize = 56;

pub const COMMIT_OFFSET_COMMIT_TIME_NS: usize = 64;

pub const COMMIT_OFFSET_SOURCE_SERVICE_ID: usize = 72;

pub const COMMIT_OFFSET_SOURCE_INSTANCE_ID: usize = 80;

pub const COMMIT_OFFSET_SOURCE_SEQUENCE: usize = 88;

pub const COMMIT_OFFSET_SOURCE_PATTERN: usize = 96;

/// The entry carries a source sequence.
pub const COMMIT_FLAG_SOURCE_SEQUENCE_PRESENT: u16 = 0x0001;

/// What the commit log says of one record.
#[derive(Debug, Clone, Copy, PartialEq, Eq)]
pub struct CommitEntry {
    /// Monotonic commit ordinal.
    pub commit_ordinal: u64,
    /// Archive-local sequence.
    pub sequence: u64,
    /// Where the frame lies.
    pub locator: ArchiveLocator,
    /// Checksum of the frame.
    pub frame_checksum: u32,
    /// Event timestamp in nanoseconds.
    pub event_time_ns: u64,
    /// Commit timestamp in nanoseconds.
    pub commit_time_ns: u64,
    /// Source pattern.
    pub source_pattern: ArchiveSourcePattern,
    /// Source service identity.
    pub source_service_id: u64,
    /// Source instance identity.
    pub source_instance_id: u64,
    /// Source sequence, where there is one.
    pub source_sequence: Option<u64>,
}

impl CommitEntry {
    /// One where there is a source sequence, else zero.
    pub open spec fn source_flag(self) -> int {
        if self.source_sequence is Some {
            1
        } else {
            0
        }
    }

    /// The first 56 bytes of an entry.
    #[verifier::opaque]
    pub open spec fn first_half(self, magic: Seq<u8>) -> Seq<u8> {
        magic + u16_bytes(104) + u16_bytes(self.source_flag() as u16) + u64_bytes(
            self.commit_ordinal,
        ) + u64_bytes(self.sequence) + u64_bytes(self.locator.segment_id) + u32_bytes(
            self.locator.segment_generation,
        ) + zeros(4) + u64_bytes(self.locator.file_offset) + u32_bytes(self.locator.frame_len)
            + u32_bytes(self.frame_checksum)
    }

    /// The last 48 bytes of an entry.
    #[verifier::opaque]
    pub open spec fn second_half(self) -> Seq<u8> {
        u64_bytes(self.event_time_ns) + u64_bytes(self.commit_time_ns) + u64_bytes(
            self.source_service_id,
        ) + u64_bytes(self.source_instance_id) + u64_bytes(
            match self.source_sequence {
                Some(sequence) => sequence,
                None => 0,
            },
        ) + seq![self.source_pattern.code(), self.source_flag() as u8] + zeros(6)
    }

    /// The entry as it is encoded under the given magic.
    pub open spec fn encoded_as(self, magic: Seq<u8>) -> Seq<u8> {
        self.first_half(magic) + self.second_half()
    }

    /// The entry as it stands in the commit log.
    pub open spec fn encoded(self) -> Seq<u8> {
        self.encoded_as(COMMIT_ENTRY_MAGIC@)
    }
}

/// The fields of an entry of 104 bytes whose source pattern is `pattern`.
pub open spec fn entry_fields(s: Seq<u8>, pattern: ArchiveSourcePattern) -> CommitEntry {
    CommitEntry {
        commit_ordinal: u64_at(s, 8),
        sequence: u64_at(s, 16),
        locator: ArchiveLocator {
            segment_id: u64_at(s, 24),
            segment_generation: u32_at(s, 32),
            file_offset: u64_at(s, 40),
            frame_len: u32_at(s, 48),
        },
        frame_checksum: u32_at(s, 52),
        event_time_ns: u64_at(s, 56),
        commit_time_ns: u64_at(s, 64),
        source_pattern: pattern,
        source_service_id: u64_at(s, 72),
        source_instance_id: u64_at(s, 80),
        source_sequence: if u16_at(s, 6) & COMMIT_FLAG_SOURCE_SEQUENCE_PRESENT != 0 {
            Some(u64_at(s, 88))
        } else {
            None
        },
    }
}

/// What the bytes of an entry decode to.
pub open spec fn decode_entry(s: Seq<u8>) -> Result<CommitEntry, &'static str> {
    if s.len() < 8 {
        Err("commit entry too short")
    } else if u16_at(s, 4) != s.len() {
        Err("commit entry length does not match payload")
    } else if s.len() != 104 {
        Err("invalid commit entry length")
    } else {
        match ArchiveSourcePattern::of_code(s[96]) {
            None => Err("invalid commit entry source pattern"),
            Some(pattern) => Ok(entry_fields(s, pattern)),
        }
    }
}

/// Encodes an entry under the given magic.
pub fn encode_entry_as(entry: CommitEntry, magic: [u8; 4]) -> (bytes: Vec<u8>)
    ensures
        bytes@ == entry.encoded_as(magic@),
        bytes@.len() == 104,
{
    let flag: u8 = if entry.source_sequence.is_some() {
        1
    } else {
        0
    };
    let mut bytes: Vec<u8> = Vec::new();
    push_slice(&mut bytes, &magic);
    push_u16(&mut bytes, COMMIT_ENTRY_LEN as u16);
    push_u16(&mut bytes, flag as u16);
    push_u64(&mut bytes, entry.commit_ordinal);
    push_u64(&mut bytes, entry.sequence);
    push_u64(&mut bytes, entry.locator.segment_id);
    push_u32(&mut bytes, entry.locator.segment_generation);
    push_zeros(&mut bytes, 4);
    push_u64(&mut bytes, entry.locator.file_offset);
    push_u32(&mut bytes, entry.locator.frame_len);
    push_u32(&mut bytes, entry.frame_checksum);
    assert(bytes@ == entry.first_half(magic@) && bytes@.len() == 56) by {
        reveal(CommitEntry::first_half);
        assert(bytes@ =~= entry.first_half(magic@));
    }
    let ghost first = bytes@;
    push_u64(&mut bytes, entry.event_time_ns);
    push_u64(&mut bytes, entry.commit_time_ns);
    push_u64(&mut bytes, entry.source_service_id);
    push_u64(&mut bytes, entry.source_instance_id);
    let source_sequence: u64 = match entry.source_sequence {
        Some(sequence) => sequence,
        None => 0,
    };
    push_u64(&mut bytes, source_sequence);
    bytes.push(entry.source_pattern.as_u8());
    bytes.push(flag);
    push_zeros(&mut bytes, 6);
    assert(bytes@ =~= first + entry.second_half()) by {
        reveal(CommitEntry::second_half);
    }
    bytes
}

/// Encodes an entry of the commit log.
pub fn encode_commit_entry(entry: CommitEntry) -> (bytes: Vec<u8>)
    ensures
        bytes@ == entry.encoded(),
        bytes@.len() == 104,
{
    encode_entry_as(entry, COMMIT_ENTRY_MAGIC)
}

/// Reads the fields of an entry.
pub fn read_entry_fields(bytes: &[u8], source_pattern: ArchiveSourcePattern) -> (entry: CommitEntry)
    requires
        bytes@.len() == 104,
    ensures
        entry == entry_fields(bytes@, source_pattern),
{
    let flags: u16 = read_u16(bytes, COMMIT_OFFSET_FLAGS);
    CommitEntry {
        commit_ordinal: read_u64(bytes, COMMIT_OFFSET_COMMIT_ORDINAL),
        sequence: read_u64(bytes, COMMIT_OFFSET_SEQUENCE),
        locator: ArchiveLocator {
            segment_id: read_u64(bytes, COMMIT_OFFSET_SEGMENT_ID),
            segment_generation: read_u32(bytes, COMMIT_OFFSET_SEGMENT_GENERATION),
            file_offset: read_u64(bytes, COMMIT_OFFSET_FILE_OFFSET),
            frame_len: read_u32(bytes, COMMIT_OFFSET_FRAME_LEN),
        },
        frame_checksum: read_u32(bytes, COMMIT_OFFSET_FRAME_CHECKSUM),
        event_time_ns: read_u64(bytes, COMMIT_OFFSET_EVENT_TIME_NS),
        commit_time_ns: read_u64(bytes, COMMIT_OFFSET_COMMIT_TIME_NS),
        source_pattern,
        source_service_id: read_u64(bytes, COMMIT_OFFSET_SOURCE_SERVICE_ID),
        source_instance_id: read_u64(bytes, COMMIT_OFFSET_SOURCE_INSTANCE_ID),
        source_sequence: if flags & COMMIT_FLAG_SOURCE_SEQUENCE_PRESENT != 0 {
            Some(read_u64(bytes, COMMIT_OFFSET_SOURCE_SEQUENCE))
        } else {
            None
        },
    }
}

/// Decodes an entry of the commit log.
pub fn decode_commit_entry(bytes: &[u8]) -> (result: Result<CommitEntry, &'static str>)
    ensures
        result == decode_entry(bytes@),
{
    if bytes.len() < COMMIT_ENTRY_PREFIX_LEN {
        return Err("commit entry too short");
    }
    let entry_len: usize = read_u16(bytes, COMMIT_OFFSET_ENTRY_LEN) as usize;
    if entry_len != bytes.len() {
        return Err("commit entry length does not match payload");
    }
    if entry_len != COMMIT_ENTRY_LEN {
        return Err("invalid commit entry length");
    }
    match ArchiveSourcePattern::try_from(bytes[COMMIT_OFFSET_SOURCE_PATTERN]) {
        Ok(source_pattern) => Ok(read_entry_fields(bytes, source_pattern)),
        Err(()) => Err("invalid commit entry source pattern"),
    }
}

/// The fields of an encoded entry can be read back.
pub proof fn entry_round_trip(entry: CommitEntry, magic: Seq<u8>)
    requires
        magic.len() == 4,
    ensures
        ({
            let s = entry.encoded_as(magic);
            &&& s.len() == 104
            &&& s.subrange(0, 4) == magic
            &&& u16_at(s, 4) == 104
            &&& decode_entry(s) == Ok::<CommitEntry, &'static str>(entry)
        }),
{
    let s = entry.encoded_as(magic);
    let a = entry.first_half(magic);
    let b = entry.second_half();
    first_half_fields(entry, magic);
    second_half_fields(entry);
    assert(s.subrange(0, 4) =~= a.subrange(0, 4));
    assert forall|i: int| 0 <= i < 56 implies s[i] == a[i] by {}
    assert forall|i: int| 0 <= i < 48 implies s[56 + i] == b[i] by {}
    assert(1u16 & COMMIT_FLAG_SOURCE_SEQUENCE_PRESENT == 1) by (bit_vector);
    assert(0u16 & COMMIT_FLAG_SOURCE_SEQUENCE_PRESENT == 0) by (bit_vector);
    assert(ArchiveSourcePattern::of_code(entry.source_pattern.code()) == Some(
        entry.source_pattern,
    ));
}

/// The fields of the second half of an entry can be read back.
proof fn second_half_fields(entry: CommitEntry)
    ensures
        ({
            let b = entry.second_half();
            &&& b.len() == 48
            &&& u64_at(b, 0) == entry.event_time_ns
            &&& u64_at(b, 8) == entry.commit_time_ns
            &&& u64_at(b, 16) == entry.source_service_id
            &&& u64_at(b, 24) == entry.source_instance_id
            &&& entry.source_sequence is Some ==> u64_at(b, 32) == entry.source_sequence->Some_0
            &&& b[40] == entry.source_pattern.code()
        }),
{
    let b = entry.second_half();
    let source_sequence: u64 = match entry.source_sequence {
        Some(sequence) => sequence,
        None => 0,
    };
    reveal(CommitEntry::second_half);
    assert(b.len() == 48);
    assert(b.subrange(0, 8) =~= u64_bytes(entry.event_time_ns));
    assert(b.subrange(8, 16) =~= u64_bytes(entry.commit_time_ns));
    assert(b.subrange(16, 24) =~= u64_bytes(entry.source_service_id));
    assert(b.subrange(24, 32) =~= u64_bytes(entry.source_instance_id));
    assert(b.subrange(32, 40) =~= u64_bytes(source_sequence));
    u64_round_trip(b, 0, entry.event_time_ns);
    u64_round_trip(b, 8, entry.commit_time_ns);
    u64_round_trip(b, 16, entry.source_service_id);
    u64_round_trip(b, 24, entry.source_instance_id);
    u64_round_trip(b, 32, source_sequence);
}

/// The fields of the first half of an entry can be read back.
proof fn first_half_fields(entry: CommitEntry, magic: Seq<u8>)
    requires
        magic.len() == 4,
    ensures
        ({
            let a = entry.first_half(magic);
            &&& a.len() == 56
            &&& a.subrange(0, 4) == magic
            &&& u16_at(a, 4) == 104
            &&& u16_at(a, 6) == entry.source_flag()
            &&& u64_at(a, 8) == entry.commit_ordinal
            &&& u64_at(a, 16) == entry.sequence
            &&& u64_at(a, 24) == entry.locator.segment_id
            &&& u32_at(a, 32) == entry.locator.segment_generation
            &&& u64_at(a, 40) == entry.locator.file_offset
            &&& u32_at(a, 48) == entry.locator.frame_len
            &&& u32_at(a, 52) == entry.frame_checksum
        }),
{
    let a = entry.first_half(magic);
    reveal(CommitEntry::first_half);
    assert(a.len() == 56);
    assert(a.subrange(0, 4) =~= magic);
    assert(a.subrange(4, 6) =~= u16_bytes(104));
    assert(a.subrange(6, 8) =~= u16_bytes(entry.source_flag() as u16));
    assert(a.subrange(8, 16) =~= u64_bytes(entry.commit_ordinal));
    assert(a.subrange(16, 24) =~= u64_bytes(entry.sequence));
    assert(a.subrange(24, 32) =~= u64_bytes(entry.locator.segment_id));
    assert(a.subrange(32, 36) =~= u32_bytes(entry.locator.segment_generation));
    assert(a.subrange(40, 48) =~= u64_bytes(entry.locator.file_offset));
    assert(a.subrange(48, 52) =~= u32_bytes(entry.locator.frame_len));
    assert(a.subrange(52, 56) =~= u32_bytes(entry.frame_checksum));
    u16_round_trip(a, 4, 104);
    u16_round_trip(a, 6, entry.source_flag() as u16);
    u64_round_trip(a, 8, entry.commit_ordinal);
    u64_round_trip(a, 16, entry.sequence);
    u64_round_trip(a, 24, entry.locator.segment_id);
    u32_round_trip(a, 32, entry.locator.segment_generation);
    u64_round_trip(a, 40, entry.locator.file_offset);
    u32_round_trip(a, 48, entry.locator.frame_len);
    u32_round_trip(a, 52, entry.frame_checksum);
}

} // verus!
