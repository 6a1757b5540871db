//! The prefix that pattern adapters put before a user header.

use crate::bytes::{
    push_slice, push_u16, push_u64, push_zeros, read_u16, read_u64, u16_at, u16_bytes,
    u16_round_trip, u64_at, u64_bytes, u64_round_trip, zeros,
};
use crate::header::same_array4;
use crate::types::{ArchiveSourceMetadata, ArchiveSourcePattern};
use vstd::prelude::*;

verus! {

/// `AUM1`
pub const ADAPTER_USER_HEADER_MAGIC: [u8; 4] = [0x41, 0x55, 0x4D, 0x31];

/// Length of the prefix.
pub const ADAPTER_USER_HEADER_PREFIX_LEN: usize = 40;

pub const ADAPTER_USER_HEADER_OFFSET_LEN: usize = 4;

pub const ADAPTER_USER_HEADER_OFFSET_FLAGS: usize = 6;

pub const ADAPTER_USER_HEADER_OFFSET_SOURCE_PATTERN: usize = 8;

pub const ADAPTER_USER_HEADER_OFFSET_SOURCE_SERVICE_ID: usize = 16;

pub const ADAPTER_USER_HEADER_OFFSET_SOURCE_INSTANCE_ID: usize = 24;

pub const ADAPTER_USER_HEADER_OFFSET_SOURCE_SEQUENCE: usize = 32;

/// The prefix carries a source sequence.
pub const ADAPTER_USER_HEADER_FLAG_SOURCE_SEQUENCE_PRESENT: u16 = 0x0001;

/// Adapter user-header decode output.
#[derive(Debug, Clone, Copy, PartialEq, Eq)]
pub struct DecodedAdapterUserHeader<'a> {
    /// Adapter source metadata prefix.
    pub source_metadata: ArchiveSourceMetadata,
    /// Original caller-provided user header bytes.
    pub user_header: &'a [u8],
}

/// The prefix for the given metadata.
pub open spec fn adapter_prefix(metadata: ArchiveSourceMetadata) -> Seq<u8> {
    ADAPTER_USER_HEADER_MAGIC@ + u16_bytes(40) + u16_bytes(
        if metadata.source_sequence is Some {
            1
        } else {
            0
        },
    ) + seq![metadata.source_pattern.code()] + zeros(7) + u64_bytes(metadata.source_service_id)
        + u64_bytes(metadata.source_instance_id) + u64_bytes(
        match metadata.source_sequence {
            Some(sequence) => sequence,
            None => 0,
        },
    )
}

/// A user header with the prefix before it.
pub open spec fn adapter_user_header(
    metadata: ArchiveSourceMetadata,
    user_header: Seq<u8>,
) -> Seq<u8> {
    adapter_prefix(metadata) + user_header
}

/// The metadata that the prefix of `s` holds, if `s` starts with a prefix.
pub open spec fn adapter_metadata(s: Seq<u8>) -> Option<ArchiveSourceMetadata> {
    if s.len() < 40 || s.subrange(0, 4) != ADAPTER_USER_HEADER_MAGIC@ || u16_at(s, 4) != 40 {
        None
    } else {
        match ArchiveSourcePattern::of_code(s[8]) {
            None => None,
            Some(source_pattern) => Some(
                ArchiveSourceMetadata {
                    source_pattern,
                    source_service_id: u64_at(s, 16),
                    source_instance_id: u64_at(s, 24),
                    source_sequence: if u16_at(s, 6)
                        & ADAPTER_USER_HEADER_FLAG_SOURCE_SEQUENCE_PRESENT != 0 {
                        Some(u64_at(s, 32))
                    } else {
                        None
                    },
                },
            ),
        }
    }
}

/// Encodes adapter source metadata in a deterministic user-header prefix.
pub fn encode_adapter_user_header(
    source_metadata: ArchiveSourceMetadata,
    user_header: &[u8],
) -> (bytes: Vec<u8>)
    ensures
        bytes@ == adapter_user_header(source_metadata, user_header@),
        bytes@.len() == 40 + user_header@.len(),
{
    let flags: u16 = if source_metadata.source_sequence.is_some() {
        ADAPTER_USER_HEADER_FLAG_SOURCE_SEQUENCE_PRESENT
    } else {
        0
    };
    let source_sequence: u64 = match source_metadata.source_sequence {
        Some(sequence) => sequence,
        None => 0,
    };
    let mut bytes: Vec<u8> = Vec::new();
    push_slice(&mut bytes, &ADAPTER_USER_HEADER_MAGIC);
    push_u16(&mut bytes, ADAPTER_USER_HEADER_PREFIX_LEN as u16);
    push_u16(&mut bytes, flags);
    bytes.push(source_metadata.source_pattern.as_u8());
    push_zeros(&mut bytes, 7);
    push_u64(&mut bytes, source_metadata.source_service_id);
    push_u64(&mut bytes, source_metadata.source_instance_id);
    push_u64(&mut bytes, source_sequence);
    assert(bytes@ =~= adapter_prefix(source_metadata));
    push_slice(&mut bytes, user_header);
    bytes
}

/// Decodes adapter source metadata and strips the deterministic prefix.
pub fn decode_adapter_user_header(user_header: &[u8]) -> (decoded: Option<
    DecodedAdapterUserHeader<'_>,
>)
    ensures
        match decoded {
            Some(value) => {
                &&& adapter_metadata(user_header@) == Some(value.source_metadata)
                &&& value.user_header@ == user_header@.subrange(40, user_header@.len() as int)
            },
            None => adapter_metadata(user_header@) is None,
        },
{
    if user_header.len() < ADAPTER_USER_HEADER_PREFIX_LEN {
        return None;
    }
    let magic: [u8; 4] = [user_header[0], user_header[1], user_header[2], user_header[3]];
    assert(user_header@.subrange(0, 4) =~= magic@);
    if !same_array4(&magic, &ADAPTER_USER_HEADER_MAGIC) {
        return None;
    }
    let header_len: usize = read_u16(user_header, ADAPTER_USER_HEADER_OFFSET_LEN) as usize;
    if header_len != ADAPTER_USER_HEADER_PREFIX_LEN {
        return None;
    }
    let flags: u16 = read_u16(user_header, ADAPTER_USER_HEADER_OFFSET_FLAGS);
    let pattern_code: u8 = user_header[ADAPTER_USER_HEADER_OFFSET_SOURCE_PATTERN];
    let source_pattern = match ArchiveSourcePattern::try_from(pattern_code) {
        Ok(pattern) => pattern,
        Err(()) => {
            return None;
        },
    };
    let source_sequence = if flags & ADAPTER_USER_HEADER_FLAG_SOURCE_SEQUENCE_PRESENT != 0 {
        Some(read_u64(user_header, ADAPTER_USER_HEADER_OFFSET_SOURCE_SEQUENCE))
    } else {
        None
    };
    let len: usize = user_header.len();
    Some(
        DecodedAdapterUserHeader {
            source_metadata: ArchiveSourceMetadata {
                source_pattern,
                source_service_id: read_u64(
                    user_header,
                    ADAPTER_USER_HEADER_OFFSET_SOURCE_SERVICE_ID,
                ),
                source_instance_id: read_u64(
                    user_header,
                    ADAPTER_USER_HEADER_OFFSET_SOURCE_INSTANCE_ID,
                ),
                source_sequence,
            },
            user_header: &user_header[ADAPTER_USER_HEADER_PREFIX_LEN..len],
        },
    )
}

/// The metadata in front of a user header takes 40 bytes.
pub proof fn adapter_len(metadata: ArchiveSourceMetadata, user_header: Seq<u8>)
    ensures
        adapter_user_header(metadata, user_header).len() == 40 + user_header.len(),
{
}

/// Decoding an encoded user header gives back the metadata and the user header.
pub proof fn adapter_round_trip(metadata: ArchiveSourceMetadata, user_header: Seq<u8>)
    ensures
        ({
            let s = adapter_user_header(metadata, user_header);
            &&& adapter_metadata(s) == Some(metadata)
            &&& s.subrange(40, s.len() as int) == user_header
        }),
{
    let s = adapter_user_header(metadata, user_header);
    let p = adapter_prefix(metadata);
    let flags: u16 = if metadata.source_sequence is Some {
        1
    } else {
        0
    };
    let source_sequence: u64 = match metadata.source_sequence {
        Some(sequence) => sequence,
        None => 0,
    };
    assert(p.len() == 40);
    assert(s.subrange(0, 4) =~= ADAPTER_USER_HEADER_MAGIC@);
    assert(s.subrange(4, 6) =~= u16_bytes(40));
    assert(s.subrange(6, 8) =~= u16_bytes(flags));
    assert(s.subrange(16, 24) =~= u64_bytes(metadata.source_service_id));
    assert(s.subrange(24, 32) =~= u64_bytes(metadata.source_instance_id));
    assert(s.subrange(32, 40) =~= u64_bytes(source_sequence));
    assert(s[8] == metadata.source_pattern.code());
    u16_round_trip(s, 4, 40);
    u16_round_trip(s, 6, flags);
    u64_round_trip(s, 16, metadata.source_service_id);
    u64_round_trip(s, 24, metadata.source_instance_id);
    u64_round_trip(s, 32, source_sequence);
    assert(1u16 & ADAPTER_USER_HEADER_FLAG_SOURCE_SEQUENCE_PRESENT == 1) by (bit_vector);
    assert(0u16 & ADAPTER_USER_HEADER_FLAG_SOURCE_SEQUENCE_PRESENT == 0) by (bit_vector);
    assert(s.subrange(40, s.len() as int) =~= user_header);
    assert(ArchiveSourcePattern::of_code(metadata.source_pattern.code()) == Some(
        metadata.source_pattern,
    ));
}

} // verus!
