//! The frame that stores one record in a segment file.

use crate::bytes::{
    copy_range, push_slice, push_u16, push_u32, push_u64, push_zeros, read_u16, read_u32, read_u64,
    u16_at, u16_bytes, u16_round_trip, u32_at, u32_bytes, u32_round_trip, u64_at, u64_bytes,
    u64_round_trip, zeros,
};
use crate::checksum::{crc32c, crc32c_value};
use crate::error::{ArchiveFile, ArchivePath, ArchiveReplayError, IoFault};
use crate::header::{array4_at, same_array4};
use crate::store::{ArchiveStore, StoreModel, MAX_FILE_LEN};
use crate::types::{
    ArchiveLocator, ArchiveSegmentTier, ChecksumMode, FrameModel, ReplayedFrame,
};
use vstd::prelude::*;

verus! {

/// `LAR1`
pub const FRAME_MAGIC: [u8; 4] = [0x4C, 0x41, 0x52, 0x31];

/// Length of the fixed part at the start of a frame.
pub const FRAME_HEADER_LEN: usize = 64;

/// The frame carries a CRC32C checksum.
pub const FRAME_FLAG_CHECKSUM_CRC32C: u16 = 0x0001;

pub const FRAME_OFFSET_HEADER_LEN: usize = 4;

pub const FRAME_OFFSET_FLAGS: usize = 6;

pub const FRAME_OFFSET_FRAME_LEN: usize = 8;

pub const FRAME_OFFSET_COMMIT_ORDINAL: usize = 16;

pub const FRAME_OFFSET_SEQUENCE: usize = 24;

pub const FRAME_OFFSET_EVENT_TIME_NS: usize = 32;

pub const FRAME_OFFSET_COMMIT_TIME_NS: usize = 40;

pub const FRAME_OFFSET_USER_HEADER_LEN: usize = 48;

pub const FRAME_OFFSET_PAYLOAD_LEN: usize = 52;

pub const FRAME_OFFSET_CHECKSUM: usize = 56;

/// The error number of a seek to an offset that no file can have.
pub const INVALID_ARGUMENT: i32 = 22;

/// What is stored in one frame.
#[verifier::ext_equal]
pub struct FrameInput {
    pub commit_ordinal: u64,
    pub sequence: u64,
    pub event_time_ns: u64,
    pub commit_time_ns: u64,
    pub user_header: Seq<u8>,
    pub payload: Seq<u8>,
}

/// The smallest multiple of `alignment` that is not below `value`.
pub open spec fn aligned(value: int, alignment: int) -> int {
    if value % alignment == 0 {
        value
    } else {
        value + (alignment - value % alignment)
    }
}

/// `aligned` is a multiple of the alignment, not below the value, and less than one alignment
/// above it.
pub proof fn aligned_is_next_multiple(value: int, alignment: int)
    requires
        0 <= value,
        0 < alignment,
    ensures
        aligned(value, alignment) % alignment == 0,
        value <= aligned(value, alignment) < value + alignment,
{
    let r = value % alignment;
    if r != 0 {
        vstd::arithmetic::div_mod::lemma_fundamental_div_mod(value, alignment);
        let q = value / alignment;
        assert(value + (alignment - r) == alignment * (q + 1)) by (nonlinear_arith)
            requires
                value == alignment * q + r,
        ;
        vstd::arithmetic::div_mod::lemma_mod_multiples_basic(q + 1, alignment);
        assert((q + 1) * alignment == alignment * (q + 1)) by (nonlinear_arith);
    }
}

impl FrameInput {
    /// The length of the encoded frame.
    pub open spec fn frame_len(self) -> int {
        aligned(64int + self.user_header.len() + self.payload.len(), 8)
    }

    /// The bytes before the checksum field.
    #[verifier::opaque]
    pub open spec fn head(self, flags: u16) -> Seq<u8> {
        FRAME_MAGIC@ + u16_bytes(64) + u16_bytes(flags) + u32_bytes(
            (self.frame_len() as usize) as u32,
        ) + zeros(4) + u64_bytes(self.commit_ordinal) + u64_bytes(self.sequence) + u64_bytes(
            self.event_time_ns,
        ) + u64_bytes(self.commit_time_ns) + u32_bytes(
            (self.user_header.len() as usize) as u32,
        ) + u32_bytes((self.payload.len() as usize) as u32)
    }

    /// The bytes behind the checksum field: the user header and the payload, filled up with
    /// zeros.
    #[verifier::opaque]
    pub open spec fn body(self) -> Seq<u8> {
        zeros(4) + self.user_header + self.payload + zeros(
            (self.frame_len() - 64 - self.user_header.len() - self.payload.len()) as nat,
        )
    }

    /// The frame with the given flags and checksum field.
    pub open spec fn bytes_with(self, flags: u16, checksum: u32) -> Seq<u8> {
        self.head(flags) + u32_bytes(checksum) + self.body()
    }

    /// The checksum of the frame: zero where checksums are off, else the CRC of the frame with
    /// a zero checksum field.
    pub open spec fn checksum(self, mode: ChecksumMode) -> u32 {
        if mode is Crc32c {
            crc32c_value(self.bytes_with(1, 0))
        } else {
            0
        }
    }

    /// The encoded frame.
    pub open spec fn encoded(self, mode: ChecksumMode) -> Seq<u8> {
        self.bytes_with(
            if mode is Crc32c {
                1
            } else {
                0
            },
            self.checksum(mode),
        )
    }
}

/// A frame with its checksum field set to zero.
pub open spec fn without_checksum(frame: Seq<u8>) -> Seq<u8> {
    frame.subrange(0, 56) + zeros(4) + frame.subrange(60, frame.len() as int)
}

/// A frame starts with the frame magic.
pub open spec fn has_frame_magic(frame: Seq<u8>) -> bool {
    frame.subrange(0, 4) == FRAME_MAGIC@
}

/// The frame says that it carries a checksum.
pub open spec fn has_checksum(frame: Seq<u8>) -> bool {
    u16_at(frame, 6) & FRAME_FLAG_CHECKSUM_CRC32C != 0
}

/// The data file of a hot segment.
pub open spec fn hot_data(segment_id: u64, segment_generation: u32) -> ArchiveFile {
    ArchiveFile::SegmentData {
        tier: ArchiveSegmentTier::HotAttached,
        segment_id,
        segment_generation,
    }
}

/// The error of a read from a segment file.
pub open spec fn segment_read_error(
    locator: ArchiveLocator,
    operation: &'static str,
    source: IoFault,
) -> ArchiveReplayError {
    ArchiveReplayError::Io {
        operation,
        path: ArchivePath::File(hot_data(locator.segment_id, locator.segment_generation)),
        source,
    }
}

/// What the frame at a locator decodes to, given the bytes of its segment file. Its checksum counts
/// where checksums are verified.
pub open spec fn decode_frame(segment: Seq<u8>, locator: ArchiveLocator, verify: bool) -> Result<
    FrameModel,
    ArchiveReplayError,
> {
    let at = locator.file_offset as int;
    let header = segment.subrange(at, at + 64);
    let frame = segment.subrange(at, at + locator.frame_len);
    let user_header_len = u32_at(header, 48) as int;
    let payload_len = u32_at(header, 52) as int;
    if locator.file_offset > MAX_FILE_LEN {
        Err(segment_read_error(locator, "seek segment frame", IoFault::Os(INVALID_ARGUMENT)))
    } else if at + 64 > segment.len() {
        Err(segment_read_error(locator, "read frame header", IoFault::UnexpectedEnd))
    } else if !has_frame_magic(header) {
        Err(ArchiveReplayError::InvalidFrameMagic(array4_at(header, 0)))
    } else if u16_at(header, 4) != 64 {
        Err(ArchiveReplayError::InvalidFrameHeaderLength(u16_at(header, 4)))
    } else if u32_at(header, 8) != locator.frame_len || locator.frame_len < 64 {
        Err(
            ArchiveReplayError::InvalidFrameLength {
                expected: locator.frame_len,
                decoded: u32_at(header, 8),
            },
        )
    } else if at + locator.frame_len > segment.len() {
        Err(segment_read_error(locator, "read frame payload", IoFault::UnexpectedEnd))
    } else if 64 + user_header_len + payload_len > locator.frame_len {
        Err(
            ArchiveReplayError::InvalidCommitEntry(
                "frame user/payload lengths exceed frame bounds",
            ),
        )
    } else if verify && has_checksum(header) && u32_at(header, 56) != crc32c_value(without_checksum(frame)) {
        Err(
            ArchiveReplayError::ChecksumMismatch {
                expected: u32_at(header, 56),
                actual: crc32c_value(without_checksum(frame)),
                locator,
            },
        )
    } else {
        Ok(
            FrameModel {
                commit_ordinal: u64_at(header, 16),
                sequence: u64_at(header, 24),
                event_time_ns: u64_at(header, 32),
                commit_time_ns: u64_at(header, 40),
                user_header: frame.subrange(64, 64 + user_header_len),
                payload: frame.subrange(64 + user_header_len, 64 + user_header_len + payload_len),
                frame_checksum: u32_at(header, 56),
                locator,
            },
        )
    }
}

/// What reading the frame at a locator gives.
pub open spec fn frame_at(store: StoreModel, locator: ArchiveLocator, verify: bool) -> Result<
    FrameModel,
    ArchiveReplayError,
> {
    let file = hot_data(locator.segment_id, locator.segment_generation);
    if !store.has(file) {
        Err(ArchiveReplayError::MissingSegment(ArchivePath::File(file)))
    } else {
        decode_frame(store.bytes(file), locator, verify)
    }
}

/// The frame that starts at `at` and is `frame_len` long could have been written by a recorder:
/// its header fits, and its checksum, if it has one, is right.
pub open spec fn frame_is_sound(segment: Seq<u8>, at: int, frame_len: int) -> bool {
    let frame = segment.subrange(at, at + frame_len);
    &&& 64 <= frame_len
    &&& at + frame_len <= segment.len()
    &&& has_frame_magic(frame)
    &&& u16_at(frame, 4) == 64
    &&& u32_at(frame, 8) == frame_len
    &&& has_checksum(frame) ==> crc32c_value(without_checksum(frame)) == u32_at(frame, 56)
}

/// An encoded frame.
#[derive(Debug)]
pub struct EncodedFrame {
    /// The bytes of the frame.
    pub bytes: Vec<u8>,
    /// The checksum, or zero where there is none.
    pub checksum: u32,
}

/// Rounds `value` up to a multiple of `alignment`.
pub fn align_up(value: usize, alignment: usize) -> (result: usize)
    requires
        alignment > 0,
        aligned(value as int, alignment as int) <= usize::MAX,
    ensures
        result == aligned(value as int, alignment as int),
{
    let remainder: usize = value % alignment;
    if remainder == 0 {
        value
    } else {
        value + (alignment - remainder)
    }
}

/// Fills in the checksum field of a frame whose checksum field is zero.
fn finish_checksum(bytes: &mut Vec<u8>, checksum_mode: ChecksumMode) -> (checksum: u32)
    requires
        old(bytes)@.len() >= 64,
        old(bytes)@.subrange(56, 60) == u32_bytes(0),
    ensures
        checksum == (if checksum_mode is Crc32c {
            crc32c_value(old(bytes)@)
        } else {
            0
        }),
        final(bytes)@ == old(bytes)@.subrange(0, 56) + u32_bytes(checksum) + old(bytes)@.subrange(
            60,
            old(bytes)@.len() as int,
        ),
{
    let mut checksum: u32 = 0;
    if checksum_mode == ChecksumMode::Crc32c {
        checksum = crc32c(bytes);
        let mut field: Vec<u8> = Vec::new();
        push_u32(&mut field, checksum);
        assert(field@ =~= u32_bytes(checksum));
        bytes.set(FRAME_OFFSET_CHECKSUM, field[0]);
        bytes.set(FRAME_OFFSET_CHECKSUM + 1, field[1]);
        bytes.set(FRAME_OFFSET_CHECKSUM + 2, field[2]);
        bytes.set(FRAME_OFFSET_CHECKSUM + 3, field[3]);
    } else {
        assert(bytes@.subrange(56, 60)[0] == bytes@[56]);
        assert(bytes@.subrange(56, 60)[1] == bytes@[57]);
        assert(bytes@.subrange(56, 60)[2] == bytes@[58]);
        assert(bytes@.subrange(56, 60)[3] == bytes@[59]);
    }
    assert(bytes@ =~= old(bytes)@.subrange(0, 56) + u32_bytes(checksum) + old(bytes)@.subrange(
        60,
        old(bytes)@.len() as int,
    ));
    checksum
}

impl EncodedFrame {
    /// Encodes one frame.
    #[verifier::spinoff_prover]
    #[verifier::rlimit(60)]
    pub fn new(
        commit_ordinal: u64,
        sequence: u64,
        event_time_ns: u64,
        commit_time_ns: u64,
        user_header: &[u8],
        payload: &[u8],
        checksum_mode: ChecksumMode,
    ) -> (frame: EncodedFrame)
        requires
            64 + user_header@.len() + payload@.len() + 7 <= usize::MAX,
        ensures
            ({
                let input = FrameInput {
                    commit_ordinal,
                    sequence,
                    event_time_ns,
                    commit_time_ns,
                    user_header: user_header@,
                    payload: payload@,
                };
                &&& frame.bytes@ == input.encoded(checksum_mode)
                &&& frame.bytes@.len() == input.frame_len()
                &&& frame.checksum == input.checksum(checksum_mode)
            }),
    {
        let ghost input = FrameInput {
            commit_ordinal,
            sequence,
            event_time_ns,
            commit_time_ns,
            user_header: user_header@,
            payload: payload@,
        };
        let used: usize = FRAME_HEADER_LEN + user_header.len() + payload.len();
        proof {
            aligned_is_next_multiple(used as int, 8);
        }
        let frame_len: usize = align_up(used, 8);
        let flags: u16 = if checksum_mode == ChecksumMode::Crc32c {
            FRAME_FLAG_CHECKSUM_CRC32C
        } else {
            0
        };
        let mut bytes: Vec<u8> = Vec::new();
        push_slice(&mut bytes, &FRAME_MAGIC);
        push_u16(&mut bytes, FRAME_HEADER_LEN as u16);
        push_u16(&mut bytes, flags);
        push_u32(&mut bytes, frame_len as u32);
        push_zeros(&mut bytes, 4);
        push_u64(&mut bytes, commit_ordinal);
        push_u64(&mut bytes, sequence);
        push_u64(&mut bytes, event_time_ns);
        push_u64(&mut bytes, commit_time_ns);
        push_u32(&mut bytes, user_header.len() as u32);
        push_u32(&mut bytes, payload.len() as u32);
        proof {
            reveal(FrameInput::head);
            reveal(FrameInput::body);
        }
        assert(bytes@ == input.head(flags));
        assert(bytes@.len() == 56);
        push_u32(&mut bytes, 0);
        let ghost start = bytes@;
        push_zeros(&mut bytes, 4);
        push_slice(&mut bytes, user_header);
        push_slice(&mut bytes, payload);
        push_zeros(&mut bytes, frame_len - used);
        assert(bytes@ =~= start + input.body());
        assert(bytes@.len() == frame_len);
        let ghost unsigned = bytes@;
        assert(unsigned == input.bytes_with(flags, 0));
        assert(unsigned.subrange(56, 60) =~= u32_bytes(0));
        assert(unsigned.subrange(0, 56) =~= input.head(flags));
        assert(unsigned.subrange(60, unsigned.len() as int) =~= input.body());
        let checksum: u32 = finish_checksum(&mut bytes, checksum_mode);
        EncodedFrame { bytes, checksum }
    }
}

/// The fields of an encoded frame can be read back.
pub proof fn encoded_fields(input: FrameInput, flags: u16, checksum: u32)
    requires
        input.frame_len() <= u32::MAX,
    ensures
        ({
            let frame = input.bytes_with(flags, checksum);
            &&& frame.len() == input.frame_len()
            &&& 64 <= frame.len()
            &&& frame.len() % 8 == 0
            &&& 64int + input.user_header.len() + input.payload.len() <= frame.len()
            &&& has_frame_magic(frame)
            &&& u16_at(frame, 4) == 64
            &&& u16_at(frame, 6) == flags
            &&& u32_at(frame, 8) == input.frame_len()
            &&& u64_at(frame, 16) == input.commit_ordinal
            &&& u64_at(frame, 24) == input.sequence
            &&& u64_at(frame, 32) == input.event_time_ns
            &&& u64_at(frame, 40) == input.commit_time_ns
            &&& u32_at(frame, 48) == input.user_header.len()
            &&& u32_at(frame, 52) == input.payload.len()
            &&& u32_at(frame, 56) == checksum
            &&& frame.subrange(64, 64int + input.user_header.len()) == input.user_header
            &&& frame.subrange(
                64int + input.user_header.len(),
                64int + input.user_header.len() + input.payload.len(),
            ) == input.payload
            &&& without_checksum(frame) == input.bytes_with(flags, 0)
        }),
{
    aligned_is_next_multiple(64int + input.user_header.len() + input.payload.len(), 8);
    let frame = input.bytes_with(flags, checksum);
    let head = input.head(flags);
    let body = input.body();
    head_fields(input, flags);
    assert(body.len() == input.frame_len() - 60 && body.subrange(4, 4int + input.user_header.len())
        == input.user_header && body.subrange(
        4int + input.user_header.len(),
        4int + input.user_header.len() + input.payload.len(),
    ) == input.payload) by {
        reveal(FrameInput::body);
        assert(body.subrange(4, 4int + input.user_header.len()) =~= input.user_header);
        assert(body.subrange(
            4int + input.user_header.len(),
            4int + input.user_header.len() + input.payload.len(),
        ) =~= input.payload);
    }
    assert(frame.subrange(0, 56) =~= head);
    assert(frame.subrange(56, 60) =~= u32_bytes(checksum));
    assert(frame.subrange(60, frame.len() as int) =~= body);
    u32_round_trip(frame, 56, checksum);
    assert(frame.subrange(0, 4) =~= head.subrange(0, 4));
    assert forall|i: int| 0 <= i < 56 implies frame[i] == head[i] by {}
    assert(frame.subrange(64, 64int + input.user_header.len()) =~= body.subrange(
        4,
        4int + input.user_header.len(),
    ));
    assert(frame.subrange(
        64int + input.user_header.len(),
        64int + input.user_header.len() + input.payload.len(),
    ) =~= body.subrange(
        4int + input.user_header.len(),
        4int + input.user_header.len() + input.payload.len(),
    ));
    assert(u32_bytes(0) =~= zeros(4));
    assert(without_checksum(frame) =~= input.bytes_with(flags, 0));
}

/// An encoded frame has the length of the frame.
pub proof fn encoded_len(input: FrameInput, mode: ChecksumMode)
    ensures
        input.encoded(mode).len() == input.frame_len(),
        64 <= input.frame_len(),
{
    aligned_is_next_multiple(64int + input.user_header.len() + input.payload.len(), 8);
    reveal(FrameInput::head);
    reveal(FrameInput::body);
}

/// The fields before the checksum can be read back.
proof fn head_fields(input: FrameInput, flags: u16)
    requires
        input.frame_len() <= u32::MAX,
        64 + input.user_header.len() + input.payload.len() <= input.frame_len(),
    ensures
        ({
            let head = input.head(flags);
            &&& head.len() == 56
            &&& head.subrange(0, 4) == FRAME_MAGIC@
            &&& u16_at(head, 4) == 64
            &&& u16_at(head, 6) == flags
            &&& u32_at(head, 8) == input.frame_len()
            &&& u64_at(head, 16) == input.commit_ordinal
            &&& u64_at(head, 24) == input.sequence
            &&& u64_at(head, 32) == input.event_time_ns
            &&& u64_at(head, 40) == input.commit_time_ns
            &&& u32_at(head, 48) == input.user_header.len()
            &&& u32_at(head, 52) == input.payload.len()
        }),
{
    let head = input.head(flags);
    let len_field = (input.frame_len() as usize) as u32;
    let user_field = (input.user_header.len() as usize) as u32;
    let payload_field = (input.payload.len() as usize) as u32;
    reveal(FrameInput::head);
    assert(head.len() == 56);
    assert(head.subrange(0, 4) =~= FRAME_MAGIC@);
    assert(head.subrange(4, 6) =~= u16_bytes(64));
    assert(head.subrange(6, 8) =~= u16_bytes(flags));
    assert(head.subrange(8, 12) =~= u32_bytes(len_field));
    assert(head.subrange(16, 24) =~= u64_bytes(input.commit_ordinal));
    assert(head.subrange(24, 32) =~= u64_bytes(input.sequence));
    assert(head.subrange(32, 40) =~= u64_bytes(input.event_time_ns));
    assert(head.subrange(40, 48) =~= u64_bytes(input.commit_time_ns));
    assert(head.subrange(48, 52) =~= u32_bytes(user_field));
    assert(head.subrange(52, 56) =~= u32_bytes(payload_field));
    u16_round_trip(head, 4, 64);
    u16_round_trip(head, 6, flags);
    u32_round_trip(head, 8, len_field);
    u64_round_trip(head, 16, input.commit_ordinal);
    u64_round_trip(head, 24, input.sequence);
    u64_round_trip(head, 32, input.event_time_ns);
    u64_round_trip(head, 40, input.commit_time_ns);
    u32_round_trip(head, 48, user_field);
    u32_round_trip(head, 52, payload_field);
}

/// Reading a frame gives back what was encoded, wherever in a segment it lies.
pub proof fn frame_round_trip(
    input: FrameInput,
    mode: ChecksumMode,
    segment: Seq<u8>,
    locator: ArchiveLocator,
    verify: bool,
)
    requires
        input.frame_len() == locator.frame_len,
        locator.file_offset + locator.frame_len <= segment.len(),
        locator.file_offset <= MAX_FILE_LEN,
        segment.subrange(
            locator.file_offset as int,
            locator.file_offset + locator.frame_len,
        ) == input.encoded(mode),
    ensures
        decode_frame(segment, locator, verify) == Ok::<FrameModel, ArchiveReplayError>(
            FrameModel {
                commit_ordinal: input.commit_ordinal,
                sequence: input.sequence,
                event_time_ns: input.event_time_ns,
                commit_time_ns: input.commit_time_ns,
                user_header: input.user_header,
                payload: input.payload,
                frame_checksum: input.checksum(mode),
                locator,
            },
        ),
        frame_is_sound(segment, locator.file_offset as int, locator.frame_len as int),
{
    let flags: u16 = if mode is Crc32c {
        1
    } else {
        0
    };
    let frame = input.encoded(mode);
    let at = locator.file_offset as int;
    let header = segment.subrange(at, at + 64);
    encoded_fields(input, flags, input.checksum(mode));
    header_of_frame(segment, at, locator.frame_len as int);
    assert(1u16 & FRAME_FLAG_CHECKSUM_CRC32C == 1) by (bit_vector);
    assert(0u16 & FRAME_FLAG_CHECKSUM_CRC32C == 0) by (bit_vector);
}

/// A frame that was changed behind its header is refused: where the changed frame has another CRC
/// than the one that was recorded, reading it gives both of them and the locator.
pub proof fn changed_frame_is_refused(
    input: FrameInput,
    changed: Seq<u8>,
    segment: Seq<u8>,
    locator: ArchiveLocator,
)
    requires
        input.frame_len() == locator.frame_len,
        locator.file_offset + locator.frame_len <= segment.len(),
        locator.file_offset <= MAX_FILE_LEN,
        segment.subrange(
            locator.file_offset as int,
            locator.file_offset + locator.frame_len,
        ) == changed,
        changed.subrange(0, 64) == input.encoded(ChecksumMode::Crc32c).subrange(0, 64),
        crc32c_value(without_checksum(changed)) != input.checksum(ChecksumMode::Crc32c),
    ensures
        decode_frame(segment, locator, true) == Err::<FrameModel, ArchiveReplayError>(
            ArchiveReplayError::ChecksumMismatch {
                expected: input.checksum(ChecksumMode::Crc32c),
                actual: crc32c_value(without_checksum(changed)),
                locator,
            },
        ),
{
    let frame = input.encoded(ChecksumMode::Crc32c);
    let at = locator.file_offset as int;
    encoded_fields(input, 1, input.checksum(ChecksumMode::Crc32c));
    encoded_len(input, ChecksumMode::Crc32c);
    assert(segment.subrange(at, at + 64) =~= changed.subrange(0, 64));
    header_of_frame(frame, 0, frame.len() as int);
    assert(frame.subrange(0, frame.len() as int) =~= frame);
    assert(1u16 & FRAME_FLAG_CHECKSUM_CRC32C == 1) by (bit_vector);
}

/// Reading without verification gives what reading with it gives, where that succeeds, and never
/// finds fault with a checksum.
pub proof fn unverified_frame_reads_alike(segment: Seq<u8>, locator: ArchiveLocator)
    ensures
        decode_frame(segment, locator, true) is Ok ==> decode_frame(segment, locator, false)
            == decode_frame(segment, locator, true),
        !(decode_frame(segment, locator, false) matches Err(
            ArchiveReplayError::ChecksumMismatch { .. },
        )),
{
}

/// The first 64 bytes of a frame hold the same header fields as the whole frame.
pub proof fn header_of_frame(segment: Seq<u8>, at: int, frame_len: int)
    requires
        0 <= at,
        64 <= frame_len,
        at + frame_len <= segment.len(),
    ensures
        ({
            let header = segment.subrange(at, at + 64);
            let frame = segment.subrange(at, at + frame_len);
            &&& has_frame_magic(header) == has_frame_magic(frame)
            &&& has_checksum(header) == has_checksum(frame)
            &&& u16_at(header, 4) == u16_at(frame, 4)
            &&& u32_at(header, 8) == u32_at(frame, 8)
            &&& u64_at(header, 16) == u64_at(frame, 16)
            &&& u64_at(header, 24) == u64_at(frame, 24)
            &&& u64_at(header, 32) == u64_at(frame, 32)
            &&& u64_at(header, 40) == u64_at(frame, 40)
            &&& u32_at(header, 48) == u32_at(frame, 48)
            &&& u32_at(header, 52) == u32_at(frame, 52)
            &&& u32_at(header, 56) == u32_at(frame, 56)
        }),
{
    let header = segment.subrange(at, at + 64);
    let frame = segment.subrange(at, at + frame_len);
    assert(header =~= frame.subrange(0, 64));
    assert(header.subrange(0, 4) =~= frame.subrange(0, 4));
    assert forall|i: int| 0 <= i < 64 implies header[i] == frame[i] by {}
}

/// Sets the checksum field of a frame to zero.
pub fn clear_checksum(frame: &mut Vec<u8>)
    requires
        old(frame)@.len() >= 64,
    ensures
        final(frame)@ == without_checksum(old(frame)@),
{
    frame.set(FRAME_OFFSET_CHECKSUM, 0);
    frame.set(FRAME_OFFSET_CHECKSUM + 1, 0);
    frame.set(FRAME_OFFSET_CHECKSUM + 2, 0);
    frame.set(FRAME_OFFSET_CHECKSUM + 3, 0);
    assert(frame@ =~= without_checksum(old(frame)@));
}

/// Reads the frame at a locator. Its checksum is verified where that is asked for.
pub fn read_frame(store: &ArchiveStore, locator: ArchiveLocator, verify: bool) -> (result: Result<
    ReplayedFrame,
    ArchiveReplayError,
>)
    ensures
        match result {
            Ok(frame) => frame_at(store@, locator, verify) == Ok::<FrameModel, ArchiveReplayError>(frame@),
            Err(error) => frame_at(store@, locator, verify) == Err::<FrameModel, ArchiveReplayError>(error),
        },
{
    let file = ArchiveFile::SegmentData {
        tier: ArchiveSegmentTier::HotAttached,
        segment_id: locator.segment_id,
        segment_generation: locator.segment_generation,
    };
    let path = ArchivePath::File(file);
    if !store.contains(file) {
        return Err(ArchiveReplayError::MissingSegment(path));
    }
    let ghost segment = store@.bytes(file);
    let ghost at = locator.file_offset as int;
    if locator.file_offset > MAX_FILE_LEN {
        return Err(
            ArchiveReplayError::Io {
                operation: "seek segment frame",
                path,
                source: IoFault::Os(INVALID_ARGUMENT),
            },
        );
    }
    let header = match store.read(file, locator.file_offset, FRAME_HEADER_LEN) {
        Ok(header) => header,
        Err(source) => {
            return Err(ArchiveReplayError::Io { operation: "read frame header", path, source });
        },
    };
    let magic: [u8; 4] = [header[0], header[1], header[2], header[3]];
    assert(header@.subrange(0, 4) =~= magic@);
    if !same_array4(&magic, &FRAME_MAGIC) {
        return Err(ArchiveReplayError::InvalidFrameMagic(magic));
    }
    let header_len: u16 = read_u16(&header, FRAME_OFFSET_HEADER_LEN);
    if header_len as usize != FRAME_HEADER_LEN {
        return Err(ArchiveReplayError::InvalidFrameHeaderLength(header_len));
    }
    let flags: u16 = read_u16(&header, FRAME_OFFSET_FLAGS);
    let frame_len: u32 = read_u32(&header, FRAME_OFFSET_FRAME_LEN);
    if frame_len != locator.frame_len || frame_len < FRAME_HEADER_LEN as u32 {
        return Err(
            ArchiveReplayError::InvalidFrameLength {
                expected: locator.frame_len,
                decoded: frame_len,
            },
        );
    }
    let mut frame = match store.read(file, locator.file_offset, frame_len as usize) {
        Ok(frame) => frame,
        Err(source) => {
            return Err(ArchiveReplayError::Io { operation: "read frame payload", path, source });
        },
    };
    let user_header_len: u32 = read_u32(&header, FRAME_OFFSET_USER_HEADER_LEN);
    let payload_len: u32 = read_u32(&header, FRAME_OFFSET_PAYLOAD_LEN);
    if user_header_len as u64 + payload_len as u64 > (frame_len - FRAME_HEADER_LEN as u32) as u64 {
        return Err(
            ArchiveReplayError::InvalidCommitEntry(
                "frame user/payload lengths exceed frame bounds",
            ),
        );
    }
    let user_header_end: usize = FRAME_HEADER_LEN + user_header_len as usize;
    let user_header = copy_range(&frame, FRAME_HEADER_LEN, user_header_end);
    let payload = copy_range(&frame, user_header_end, user_header_end + payload_len as usize);
    let expected: u32 = read_u32(&header, FRAME_OFFSET_CHECKSUM);
    if verify && flags & FRAME_FLAG_CHECKSUM_CRC32C != 0 {
        clear_checksum(&mut frame);
        let actual: u32 = crc32c(&frame);
        if expected != actual {
            return Err(ArchiveReplayError::ChecksumMismatch { expected, actual, locator });
        }
    }
    Ok(
        ReplayedFrame {
            commit_ordinal: read_u64(&header, FRAME_OFFSET_COMMIT_ORDINAL),
            sequence: read_u64(&header, FRAME_OFFSET_SEQUENCE),
            event_time_ns: read_u64(&header, FRAME_OFFSET_EVENT_TIME_NS),
            commit_time_ns: read_u64(&header, FRAME_OFFSET_COMMIT_TIME_NS),
            user_header,
            payload,
            frame_checksum: expected,
            locator,
        },
    )
}

/// The checksum that the content of a replayed frame has when it is encoded again.
pub open spec fn content_checksum(frame: FrameModel) -> u32 {
    FrameInput {
        commit_ordinal: frame.commit_ordinal,
        sequence: frame.sequence,
        event_time_ns: frame.event_time_ns,
        commit_time_ns: frame.commit_time_ns,
        user_header: frame.user_header,
        payload: frame.payload,
    }.checksum(ChecksumMode::Crc32c)
}

/// Computes the checksum that a replayed frame has when it is encoded again, or zero where
/// checksums are not verified.
pub fn frame_crc_from_payload(frame: &ReplayedFrame, verify: bool) -> (checksum: u32)
    requires
        64 + frame.user_header@.len() + frame.payload@.len() + 7 <= usize::MAX,
    ensures
        checksum == (if verify {
            content_checksum(frame@)
        } else {
            0
        }),
{
    if !verify {
        return 0;
    }
    let encoded = EncodedFrame::new(
        frame.commit_ordinal,
        frame.sequence,
        frame.event_time_ns,
        frame.commit_time_ns,
        &frame.user_header,
        &frame.payload,
        ChecksumMode::Crc32c,
    );
    encoded.checksum
}

} // verus!
