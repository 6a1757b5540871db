//! The summary that the catalog and the `.meta` file keep of a sealed segment.

use crate::bytes::{
    push_u32, push_u64, push_zeros, read_u32, read_u64, u32_at, u32_bytes, u32_round_trip, u64_at,
    u64_bytes, u64_round_trip, zeros,
};
use vstd::prelude::*;

verus! {

/// Length of an encoded summary.
pub const SEGMENT_SUMMARY_LEN: usize = 88;

/// What is kept of a sealed segment.
#[derive(Debug, Clone, Copy, PartialEq, Eq, Structural)]
pub struct SegmentSummary {
    /// Segment id.
    pub segment_id: u64,
    /// Segment generation.
    pub segment_generation: u32,
    /// First sequence in the segment.
    pub sequence_start: u64,
    /// Last sequence in the segment.
    pub sequence_end: u64,
    /// Number of records.
    pub records: u64,
    /// When the segment was opened.
    pub created_at_ns: u64,
    /// When the segment was sealed.
    pub sealed_at_ns: u64,
    /// Used bytes of the data file.
    pub data_bytes_used: u64,
    /// Checksum of the segment, zero where there is none.
    pub segment_checksum: u32,
}

impl SegmentSummary {
    /// The first 28 bytes.
    #[verifier::opaque]
    pub open spec fn identity_bytes(self) -> Seq<u8> {
        u64_bytes(self.segment_id) + u32_bytes(self.segment_generation) + u64_bytes(
            self.sequence_start,
        ) + u64_bytes(self.sequence_end)
    }

    /// The last 60 bytes.
    #[verifier::opaque]
    pub open spec fn usage_bytes(self) -> Seq<u8> {
        u64_bytes(self.records) + u64_bytes(self.created_at_ns) + u64_bytes(self.sealed_at_ns)
            + u64_bytes(self.data_bytes_used) + u32_bytes(self.segment_checksum) + zeros(24)
    }

    /// The encoded summary.
    pub open spec fn encoded(self) -> Seq<u8> {
        self.identity_bytes() + self.usage_bytes()
    }

    /// The summary that `s` holds at `at`.
    pub open spec fn decoded(s: Seq<u8>, at: int) -> SegmentSummary {
        SegmentSummary {
            segment_id: u64_at(s, at),
            segment_generation: u32_at(s, at + 8),
            sequence_start: u64_at(s, at + 12),
            sequence_end: u64_at(s, at + 20),
            records: u64_at(s, at + 28),
            created_at_ns: u64_at(s, at + 36),
            sealed_at_ns: u64_at(s, at + 44),
            data_bytes_used: u64_at(s, at + 52),
            segment_checksum: u32_at(s, at + 60),
        }
    }

    /// Encodes the summary.
    pub fn to_bytes(self) -> (bytes: Vec<u8>)
        ensures
            bytes@ == self.encoded(),
            bytes@.len() == 88,
    {
        let mut bytes: Vec<u8> = Vec::new();
        push_u64(&mut bytes, self.segment_id);
        push_u32(&mut bytes, self.segment_generation);
        push_u64(&mut bytes, self.sequence_start);
        push_u64(&mut bytes, self.sequence_end);
        assert(bytes@ == self.identity_bytes() && bytes@.len() == 28) by {
            reveal(SegmentSummary::identity_bytes);
            assert(bytes@ =~= self.identity_bytes());
        }
        let ghost identity = bytes@;
        push_u64(&mut bytes, self.records);
        push_u64(&mut bytes, self.created_at_ns);
        push_u64(&mut bytes, self.sealed_at_ns);
        push_u64(&mut bytes, self.data_bytes_used);
        push_u32(&mut bytes, self.segment_checksum);
        push_zeros(&mut bytes, 24);
        assert(bytes@ == identity + self.usage_bytes() && bytes@.len() == 88) by {
            reveal(SegmentSummary::usage_bytes);
            assert(bytes@ =~= identity + self.usage_bytes());
        }
        bytes
    }

    /// Decodes a summary.
    pub fn from_bytes(bytes: &[u8]) -> (summary: SegmentSummary)
        requires
            bytes@.len() == 88,
        ensures
            summary == SegmentSummary::decoded(bytes@, 0),
    {
        SegmentSummary {
            segment_id: read_u64(bytes, 0),
            segment_generation: read_u32(bytes, 8),
            sequence_start: read_u64(bytes, 12),
            sequence_end: read_u64(bytes, 20),
            records: read_u64(bytes, 28),
            created_at_ns: read_u64(bytes, 36),
            sealed_at_ns: read_u64(bytes, 44),
            data_bytes_used: read_u64(bytes, 52),
            segment_checksum: read_u32(bytes, 60),
        }
    }
}

/// Decoding an encoded summary gives it back.
pub proof fn summary_round_trip(summary: SegmentSummary)
    ensures
        summary.encoded().len() == 88,
        SegmentSummary::decoded(summary.encoded(), 0) == summary,
{
    let s = summary.encoded();
    let a = summary.identity_bytes();
    let b = summary.usage_bytes();
    identity_fields(summary);
    usage_fields(summary);
    assert forall|i: int| 0 <= i < 28 implies s[i] == a[i] by {}
    assert forall|i: int| 0 <= i < 60 implies s[28 + i] == b[i] by {}
}

/// The identity fields can be read back.
proof fn identity_fields(summary: SegmentSummary)
    ensures
        ({
            let a = summary.identity_bytes();
            &&& a.len() == 28
            &&& u64_at(a, 0) == summary.segment_id
            &&& u32_at(a, 8) == summary.segment_generation
            &&& u64_at(a, 12) == summary.sequence_start
            &&& u64_at(a, 20) == summary.sequence_end
        }),
{
    let a = summary.identity_bytes();
    reveal(SegmentSummary::identity_bytes);
    assert(a.subrange(0, 8) =~= u64_bytes(summary.segment_id));
    assert(a.subrange(8, 12) =~= u32_bytes(summary.segment_generation));
    assert(a.subrange(12, 20) =~= u64_bytes(summary.sequence_start));
    assert(a.subrange(20, 28) =~= u64_bytes(summary.sequence_end));
    u64_round_trip(a, 0, summary.segment_id);
    u32_round_trip(a, 8, summary.segment_generation);
    u64_round_trip(a, 12, summary.sequence_start);
    u64_round_trip(a, 20, summary.sequence_end);
}

/// The usage fields can be read back.
proof fn usage_fields(summary: SegmentSummary)
    ensures
        ({
            let b = summary.usage_bytes();
            &&& b.len() == 60
            &&& u64_at(b, 0) == summary.records
            &&& u64_at(b, 8) == summary.created_at_ns
            &&& u64_at(b, 16) == summary.sealed_at_ns
            &&& u64_at(b, 24) == summary.data_bytes_used
            &&& u32_at(b, 32) == summary.segment_checksum
        }),
{
    let b = summary.usage_bytes();
    reveal(SegmentSummary::usage_bytes);
    assert(b.subrange(0, 8) =~= u64_bytes(summary.records));
    assert(b.subrange(8, 16) =~= u64_bytes(summary.created_at_ns));
    assert(b.subrange(16, 24) =~= u64_bytes(summary.sealed_at_ns));
    assert(b.subrange(24, 32) =~= u64_bytes(summary.data_bytes_used));
    assert(b.subrange(32, 36) =~= u32_bytes(summary.segment_checksum));
    u64_round_trip(b, 0, summary.records);
    u64_round_trip(b, 8, summary.created_at_ns);
    u64_round_trip(b, 16, summary.sealed_at_ns);
    u64_round_trip(b, 24, summary.data_bytes_used);
    u32_round_trip(b, 32, summary.segment_checksum);
}

} // verus!
