//! The 76-byte header at the start of every archive file.

use crate::bytes::{
    push_slice, push_u16, push_u32, push_u64, read_u16, read_u32, read_u64, u16_at, u16_bytes,
    u16_round_trip, u32_at, u32_bytes, u32_round_trip, u64_at, u64_bytes, u64_round_trip, zeros,
};
use crate::checksum::{crc32c_append, crc32c_append_value};
use vstd::prelude::*;

verus! {

/// 4-byte archive file magic (`IOX2`).
pub const ARCHIVE_FILE_MAGIC: [u8; 4] = [0x49, 0x4F, 0x58, 0x32];

/// Encoded byte length of [`ArchiveFileHeaderV1`].
pub const ARCHIVE_FILE_HEADER_V1_LEN: usize = 76;

/// Supported major version for v1 archive files.
pub const ARCHIVE_FILE_VERSION_MAJOR_V1: u16 = 1;

/// Optional flags mask (low 24 bits).
pub const ARCHIVE_FILE_OPTIONAL_FLAGS_MASK: u32 = 0x00FF_FFFF;

/// Must-understand flags mask (high 8 bits).
pub const ARCHIVE_FILE_MUST_UNDERSTAND_FLAGS_MASK: u32 = 0xFF00_0000;

/// Optional flag indicating padding records may be present.
pub const ARCHIVE_FILE_OPTIONAL_FLAG_HAS_PADDING_RECORDS: u32 = 0x0000_0001;

/// Optional flag indicating segment checksum metadata may be present.
pub const ARCHIVE_FILE_OPTIONAL_FLAG_HAS_SEGMENT_CHECKSUM: u32 = 0x0000_0002;

pub const OFFSET_FILE_KIND: usize = 4;

pub const OFFSET_MAJOR: usize = 6;

pub const OFFSET_MINOR: usize = 8;

pub const OFFSET_HEADER_LEN: usize = 10;

pub const OFFSET_FLAGS: usize = 12;

pub const OFFSET_CREATED_AT_NS: usize = 16;

pub const OFFSET_LOG_ID: usize = 24;

pub const OFFSET_SEGMENT_ID: usize = 40;

pub const OFFSET_SEGMENT_GENERATION: usize = 48;

pub const OFFSET_RESERVED: usize = 52;

pub const OFFSET_HEADER_CRC32C: usize = 72;

/// Canonical archive file kind values for v1 headers.
#[derive(Debug, Clone, Copy, PartialEq, Eq, Structural)]
pub enum ArchiveFileKind {
    /// `catalog.bin`
    Catalog,
    /// `commit-*.idxlog`
    CommitIdxLog,
    /// `segment-*.data`
    SegmentData,
    /// `segment-*.idx`
    SegmentIndex,
    /// `segment-*.meta`
    SegmentMeta,
}

impl ArchiveFileKind {
    /// The number that stands for this kind in a header.
    pub open spec fn code(self) -> u16 {
        match self {
            ArchiveFileKind::Catalog => 1,
            ArchiveFileKind::CommitIdxLog => 2,
            ArchiveFileKind::SegmentData => 3,
            ArchiveFileKind::SegmentIndex => 4,
            ArchiveFileKind::SegmentMeta => 5,
        }
    }

    /// The kind that `value` stands for, if any.
    pub open spec fn of_code(value: u16) -> Option<ArchiveFileKind> {
        if value == 1 {
            Some(ArchiveFileKind::Catalog)
        } else if value == 2 {
            Some(ArchiveFileKind::CommitIdxLog)
        } else if value == 3 {
            Some(ArchiveFileKind::SegmentData)
        } else if value == 4 {
            Some(ArchiveFileKind::SegmentIndex)
        } else if value == 5 {
            Some(ArchiveFileKind::SegmentMeta)
        } else {
            None
        }
    }

    /// Files of this kind belong to one segment.
    pub open spec fn segment_scoped(self) -> bool {
        self is SegmentData || self is SegmentIndex || self is SegmentMeta
    }

    /// Returns the encoded `u16` discriminator.
    pub fn as_u16(self) -> (value: u16)
        ensures
            value == self.code(),
    {
        match self {
            ArchiveFileKind::Catalog => 1,
            ArchiveFileKind::CommitIdxLog => 2,
            ArchiveFileKind::SegmentData => 3,
            ArchiveFileKind::SegmentIndex => 4,
            ArchiveFileKind::SegmentMeta => 5,
        }
    }

    /// Returns the supported minor format version for this file kind.
    pub fn supported_minor(self) -> (minor: u16)
        ensures
            minor == 0,
    {
        0
    }

    /// Tells whether files of this kind belong to one segment.
    pub fn is_segment_scoped(self) -> (scoped: bool)
        ensures
            scoped == self.segment_scoped(),
    {
        matches!(
            self,
            ArchiveFileKind::SegmentData | ArchiveFileKind::SegmentIndex
                | ArchiveFileKind::SegmentMeta
        )
    }

    /// Decodes the `u16` discriminator.
    pub fn try_from(value: u16) -> (result: Result<ArchiveFileKind, ArchiveFileHeaderError>)
        ensures
            result == (match ArchiveFileKind::of_code(value) {
                Some(kind) => Ok::<ArchiveFileKind, ArchiveFileHeaderError>(kind),
                None => Err(ArchiveFileHeaderError::UnsupportedFileKind(value)),
            }),
    {
        match value {
            1 => Ok(ArchiveFileKind::Catalog),
            2 => Ok(ArchiveFileKind::CommitIdxLog),
            3 => Ok(ArchiveFileKind::SegmentData),
            4 => Ok(ArchiveFileKind::SegmentIndex),
            5 => Ok(ArchiveFileKind::SegmentMeta),
            v => Err(ArchiveFileHeaderError::UnsupportedFileKind(v)),
        }
    }
}

/// Validation and decoding errors for [`ArchiveFileHeaderV1`].
#[derive(Debug, Clone, Copy, PartialEq, Eq)]
pub enum ArchiveFileHeaderError {
    /// Input byte slice is too short.
    BufferTooSmall {
        /// Number of bytes in the input.
        available: usize,
        /// Number of bytes required.
        required: usize,
    },
    /// Header magic is invalid.
    InvalidMagic([u8; 4]),
    /// File kind value is unknown.
    UnsupportedFileKind(u16),
    /// Header length is smaller than the mandatory v1 base header.
    HeaderLengthTooSmall(u16),
    /// Major version is unsupported.
    UnsupportedMajor(u16),
    /// Minor version is unsupported for this file kind.
    UnsupportedMinor {
        /// Decoded file kind.
        file_kind: ArchiveFileKind,
        /// Decoded minor version.
        minor: u16,
        /// Supported minor version for this decoder.
        supported_minor: u16,
    },
    /// Unknown must-understand flags are set.
    UnknownMustUnderstandFlags(u32),
    /// Header CRC32C check failed.
    InvalidHeaderCrc {
        /// Expected CRC value from the encoded header.
        expected: u32,
        /// Recomputed CRC32C from the payload.
        actual: u32,
    },
    /// Non-segment files must use `segment_id == 0` and `segment_generation == 0`.
    NonZeroSegmentIdentityForGlobalFile {
        /// File kind with invalid segment identity.
        file_kind: ArchiveFileKind,
        /// Decoded segment id.
        segment_id: u64,
        /// Decoded segment generation.
        segment_generation: u32,
    },
    /// Segment-scoped files require `segment_id > 0`.
    ZeroSegmentIdForSegmentFile {
        /// File kind with invalid segment id.
        file_kind: ArchiveFileKind,
    },
    /// Encoding only supports canonical v1 base header length.
    NonCanonicalHeaderLengthForV1(u16),
}

/// Canonical archive file header format (v1).
///
/// The encoded layout is little-endian and exactly [`ARCHIVE_FILE_HEADER_V1_LEN`] bytes.
#[derive(Debug, Clone, Copy, PartialEq, Eq)]
pub struct ArchiveFileHeaderV1 {
    /// Must be [`ARCHIVE_FILE_MAGIC`].
    pub magic: [u8; 4],
    /// File kind discriminator.
    pub file_kind: ArchiveFileKind,
    /// Incompatible format version.
    pub major: u16,
    /// Additive compatible format version.
    pub minor: u16,
    /// Header byte length, including optional extension bytes.
    pub header_len: u16,
    /// Optional and must-understand flags.
    pub flags: u32,
    /// File creation timestamp.
    pub created_at_ns: u64,
    /// Logical log identity.
    pub log_id: [u8; 16],
    /// Segment id (`0` for non-segment files).
    pub segment_id: u64,
    /// Segment generation (`0` for non-segment files).
    pub segment_generation: u32,
    /// Reserved for future use.
    pub reserved: [u8; 20],
    /// CRC32C over the header bytes excluding this field.
    pub header_crc32c: u32,
}

/// The 4-byte array at `at`.
pub open spec fn array4_at(s: Seq<u8>, at: int) -> [u8; 4] {
    [s[at], s[at + 1], s[at + 2], s[at + 3]]
}

/// The 16-byte array at `at`.
pub open spec fn array16_at(s: Seq<u8>, at: int) -> [u8; 16] {
    [
        s[at],
        s[at + 1],
        s[at + 2],
        s[at + 3],
        s[at + 4],
        s[at + 5],
        s[at + 6],
        s[at + 7],
        s[at + 8],
        s[at + 9],
        s[at + 10],
        s[at + 11],
        s[at + 12],
        s[at + 13],
        s[at + 14],
        s[at + 15],
    ]
}

/// The 20-byte array at `at`.
pub open spec fn array20_at(s: Seq<u8>, at: int) -> [u8; 20] {
    [
        s[at],
        s[at + 1],
        s[at + 2],
        s[at + 3],
        s[at + 4],
        s[at + 5],
        s[at + 6],
        s[at + 7],
        s[at + 8],
        s[at + 9],
        s[at + 10],
        s[at + 11],
        s[at + 12],
        s[at + 13],
        s[at + 14],
        s[at + 15],
        s[at + 16],
        s[at + 17],
        s[at + 18],
        s[at + 19],
    ]
}

/// The CRC of a header of `header_len` bytes, taken over every byte but its CRC field.
pub open spec fn header_crc(s: Seq<u8>, header_len: int) -> u32 {
    crc32c_append_value(
        crc32c_append_value(0, s.subrange(0, 72)),
        s.subrange(76, header_len),
    )
}

/// What is wrong with a segment identity for a file of the given kind, if anything.
pub open spec fn segment_identity_error(
    file_kind: ArchiveFileKind,
    segment_id: u64,
    segment_generation: u32,
) -> Option<ArchiveFileHeaderError> {
    if file_kind.segment_scoped() {
        if segment_id == 0 {
            Some(ArchiveFileHeaderError::ZeroSegmentIdForSegmentFile { file_kind })
        } else {
            None
        }
    } else if segment_id != 0 || segment_generation != 0 {
        Some(
            ArchiveFileHeaderError::NonZeroSegmentIdentityForGlobalFile {
                file_kind,
                segment_id,
                segment_generation,
            },
        )
    } else {
        None
    }
}

/// What the header in `s` decodes to.
pub open spec fn decode_header(s: Seq<u8>) -> Result<ArchiveFileHeaderV1, ArchiveFileHeaderError> {
    let header_len = u16_at(s, 10);
    let major = u16_at(s, 6);
    let minor = u16_at(s, 8);
    let flags = u32_at(s, 12);
    if s.len() < 76 {
        Err(ArchiveFileHeaderError::BufferTooSmall { available: s.len() as usize, required: 76 })
    } else if s.subrange(0, 4) != ARCHIVE_FILE_MAGIC@ {
        Err(ArchiveFileHeaderError::InvalidMagic(array4_at(s, 0)))
    } else {
        match ArchiveFileKind::of_code(u16_at(s, 4)) {
            None => Err(ArchiveFileHeaderError::UnsupportedFileKind(u16_at(s, 4))),
            Some(file_kind) => {
                if header_len < 76 {
                    Err(ArchiveFileHeaderError::HeaderLengthTooSmall(header_len))
                } else if s.len() < header_len {
                    Err(
                        ArchiveFileHeaderError::BufferTooSmall {
                            available: s.len() as usize,
                            required: header_len as usize,
                        },
                    )
                } else if major != 1 {
                    Err(ArchiveFileHeaderError::UnsupportedMajor(major))
                } else if minor > 0 {
                    Err(
                        ArchiveFileHeaderError::UnsupportedMinor {
                            file_kind,
                            minor,
                            supported_minor: 0,
                        },
                    )
                } else if flags & ARCHIVE_FILE_MUST_UNDERSTAND_FLAGS_MASK != 0 {
                    Err(
                        ArchiveFileHeaderError::UnknownMustUnderstandFlags(
                            flags & ARCHIVE_FILE_MUST_UNDERSTAND_FLAGS_MASK,
                        ),
                    )
                } else {
                    match segment_identity_error(file_kind, u64_at(s, 40), u32_at(s, 48)) {
                        Some(error) => Err(error),
                        None => if u32_at(s, 72) != header_crc(s, header_len as int) {
                            Err(
                                ArchiveFileHeaderError::InvalidHeaderCrc {
                                    expected: u32_at(s, 72),
                                    actual: header_crc(s, header_len as int),
                                },
                            )
                        } else {
                            Ok(
                                ArchiveFileHeaderV1 {
                                    magic: array4_at(s, 0),
                                    file_kind,
                                    major,
                                    minor,
                                    header_len,
                                    flags,
                                    created_at_ns: u64_at(s, 16),
                                    log_id: array16_at(s, 24),
                                    segment_id: u64_at(s, 40),
                                    segment_generation: u32_at(s, 48),
                                    reserved: array20_at(s, 52),
                                    header_crc32c: u32_at(s, 72),
                                },
                            )
                        },
                    }
                }
            },
        }
    }
}

impl ArchiveFileHeaderV1 {
    /// The header bytes that come before the CRC field.
    pub open spec fn prefix_bytes(self) -> Seq<u8> {
        self.magic@ + u16_bytes(self.file_kind.code()) + u16_bytes(self.major) + u16_bytes(
            self.minor,
        ) + u16_bytes(self.header_len) + u32_bytes(self.flags) + u64_bytes(self.created_at_ns)
            + self.log_id@ + u64_bytes(self.segment_id) + u32_bytes(self.segment_generation)
            + self.reserved@
    }

    /// The CRC that belongs into the encoded header.
    pub open spec fn encoded_crc(self) -> u32 {
        crc32c_append_value(crc32c_append_value(0, self.prefix_bytes()), Seq::empty())
    }

    /// The encoded header.
    pub open spec fn encoded(self) -> Seq<u8> {
        self.prefix_bytes() + u32_bytes(self.encoded_crc())
    }

    /// Why this header cannot be encoded, if it cannot.
    pub open spec fn encoding_error(self) -> Option<ArchiveFileHeaderError> {
        if self.magic@ != ARCHIVE_FILE_MAGIC@ {
            Some(ArchiveFileHeaderError::InvalidMagic(self.magic))
        } else if self.major != 1 {
            Some(ArchiveFileHeaderError::UnsupportedMajor(self.major))
        } else if self.minor > 0 {
            Some(
                ArchiveFileHeaderError::UnsupportedMinor {
                    file_kind: self.file_kind,
                    minor: self.minor,
                    supported_minor: 0,
                },
            )
        } else if self.header_len != 76 {
            Some(ArchiveFileHeaderError::NonCanonicalHeaderLengthForV1(self.header_len))
        } else if self.flags & ARCHIVE_FILE_MUST_UNDERSTAND_FLAGS_MASK != 0 {
            Some(
                ArchiveFileHeaderError::UnknownMustUnderstandFlags(
                    self.flags & ARCHIVE_FILE_MUST_UNDERSTAND_FLAGS_MASK,
                ),
            )
        } else {
            segment_identity_error(self.file_kind, self.segment_id, self.segment_generation)
        }
    }

    /// Creates a canonical v1 header with default values for `file_kind`.
    pub fn new(file_kind: ArchiveFileKind) -> (header: Self)
        ensures
            header.magic == ARCHIVE_FILE_MAGIC,
            header.file_kind == file_kind,
            header.major == 1,
            header.minor == 0,
            header.header_len == 76,
            header.flags == 0,
            header.created_at_ns == 0,
            header.log_id@ == zeros(16),
            header.segment_id == (if file_kind.segment_scoped() {
                1u64
            } else {
                0u64
            }),
            header.segment_generation == 0,
            header.reserved@ == zeros(20),
            header.header_crc32c == 0,
    {
        ArchiveFileHeaderV1 {
            magic: ARCHIVE_FILE_MAGIC,
            file_kind,
            major: ARCHIVE_FILE_VERSION_MAJOR_V1,
            minor: 0,
            header_len: ARCHIVE_FILE_HEADER_V1_LEN as u16,
            flags: 0,
            created_at_ns: 0,
            log_id: [0; 16],
            segment_id: if file_kind.is_segment_scoped() {
                1
            } else {
                0
            },
            segment_generation: 0,
            reserved: [0; 20],
            header_crc32c: 0,
        }
    }

    /// Encodes the header into canonical v1 bytes and computes `header_crc32c`.
    pub fn to_bytes(&self) -> (result: Result<
        [u8; ARCHIVE_FILE_HEADER_V1_LEN],
        ArchiveFileHeaderError,
    >)
        ensures
            match result {
                Ok(bytes) => self.encoding_error() is None && bytes@ == self.encoded(),
                Err(error) => self.encoding_error() == Some(error),
            },
    {
        match self.validate_for_encoding() {
            Ok(()) => {},
            Err(error) => {
                return Err(error);
            },
        }
        let mut encoded: Vec<u8> = Vec::new();
        push_slice(&mut encoded, &self.magic);
        push_u16(&mut encoded, self.file_kind.as_u16());
        push_u16(&mut encoded, self.major);
        push_u16(&mut encoded, self.minor);
        push_u16(&mut encoded, self.header_len);
        push_u32(&mut encoded, self.flags);
        push_u64(&mut encoded, self.created_at_ns);
        push_slice(&mut encoded, &self.log_id);
        push_u64(&mut encoded, self.segment_id);
        push_u32(&mut encoded, self.segment_generation);
        push_slice(&mut encoded, &self.reserved);
        assert(encoded@ =~= self.prefix_bytes());
        push_u32(&mut encoded, 0);
        let crc: u32 = crc32c_without_header_crc_field(&encoded, ARCHIVE_FILE_HEADER_V1_LEN);
        assert(encoded@.subrange(0, 72) =~= self.prefix_bytes());
        assert(encoded@.subrange(76, 76) =~= Seq::<u8>::empty());
        let mut crc_bytes: Vec<u8> = Vec::new();
        push_u32(&mut crc_bytes, crc);
        assert(crc_bytes@ =~= u32_bytes(self.encoded_crc()));
        let mut bytes: [u8; ARCHIVE_FILE_HEADER_V1_LEN] = [0; ARCHIVE_FILE_HEADER_V1_LEN];
        for i in 0..ARCHIVE_FILE_HEADER_V1_LEN
            invariant
                encoded@.len() == 76,
                crc_bytes@.len() == 4,
                bytes@.len() == 76,
                forall|j: int|
                    #![trigger bytes@[j]]
                    0 <= j < i ==> bytes@[j] == (if j < 72 {
                        encoded@[j]
                    } else {
                        crc_bytes@[j - 72]
                    }),
        {
            bytes[i] = if i < OFFSET_HEADER_CRC32C {
                encoded[i]
            } else {
                crc_bytes[i - OFFSET_HEADER_CRC32C]
            };
        }
        assert(bytes@ =~= self.encoded()) by {
            assert forall|j: int| 0 <= j < 76 implies bytes@[j] == self.encoded()[j] by {
                if j < 72 {
                    assert(encoded@.subrange(0, 72)[j] == encoded@[j]);
                }
            }
        }
        Ok(bytes)
    }

    /// Decodes and validates a v1 archive file header from bytes.
    pub fn from_bytes(bytes: &[u8]) -> (result: Result<Self, ArchiveFileHeaderError>)
        ensures
            result == decode_header(bytes@),
    {
        if bytes.len() < ARCHIVE_FILE_HEADER_V1_LEN {
            return Err(
                ArchiveFileHeaderError::BufferTooSmall {
                    available: bytes.len(),
                    required: ARCHIVE_FILE_HEADER_V1_LEN,
                },
            );
        }
        let magic: [u8; 4] = [bytes[0], bytes[1], bytes[2], bytes[3]];
        assert(bytes@.subrange(0, 4) =~= magic@);
        if !same_array4(&magic, &ARCHIVE_FILE_MAGIC) {
            return Err(ArchiveFileHeaderError::InvalidMagic(magic));
        }
        let file_kind = match ArchiveFileKind::try_from(read_u16(bytes, OFFSET_FILE_KIND)) {
            Ok(kind) => kind,
            Err(error) => {
                return Err(error);
            },
        };
        let major: u16 = read_u16(bytes, OFFSET_MAJOR);
        let minor: u16 = read_u16(bytes, OFFSET_MINOR);
        let header_len: u16 = read_u16(bytes, OFFSET_HEADER_LEN);
        let flags: u32 = read_u32(bytes, OFFSET_FLAGS);
        let created_at_ns: u64 = read_u64(bytes, OFFSET_CREATED_AT_NS);
        let log_id: [u8; 16] = read_bytes_16(bytes, OFFSET_LOG_ID);
        let segment_id: u64 = read_u64(bytes, OFFSET_SEGMENT_ID);
        let segment_generation: u32 = read_u32(bytes, OFFSET_SEGMENT_GENERATION);
        let reserved: [u8; 20] = read_bytes_20(bytes, OFFSET_RESERVED);
        let header_crc32c: u32 = read_u32(bytes, OFFSET_HEADER_CRC32C);
        if header_len < ARCHIVE_FILE_HEADER_V1_LEN as u16 {
            return Err(ArchiveFileHeaderError::HeaderLengthTooSmall(header_len));
        }
        if bytes.len() < header_len as usize {
            return Err(
                ArchiveFileHeaderError::BufferTooSmall {
                    available: bytes.len(),
                    required: header_len as usize,
                },
            );
        }
        if major != ARCHIVE_FILE_VERSION_MAJOR_V1 {
            return Err(ArchiveFileHeaderError::UnsupportedMajor(major));
        }
        let supported_minor: u16 = file_kind.supported_minor();
        if minor > supported_minor {
            return Err(
                ArchiveFileHeaderError::UnsupportedMinor { file_kind, minor, supported_minor },
            );
        }
        let must_understand_flags: u32 = flags & ARCHIVE_FILE_MUST_UNDERSTAND_FLAGS_MASK;
        if must_understand_flags != 0 {
            return Err(ArchiveFileHeaderError::UnknownMustUnderstandFlags(must_understand_flags));
        }
        match validate_segment_identity(file_kind, segment_id, segment_generation) {
            Ok(()) => {},
            Err(error) => {
                return Err(error);
            },
        }
        let actual_crc: u32 = crc32c_without_header_crc_field(bytes, header_len as usize);
        if header_crc32c != actual_crc {
            return Err(
                ArchiveFileHeaderError::InvalidHeaderCrc {
                    expected: header_crc32c,
                    actual: actual_crc,
                },
            );
        }
        Ok(
            ArchiveFileHeaderV1 {
                magic,
                file_kind,
                major,
                minor,
                header_len,
                flags,
                created_at_ns,
                log_id,
                segment_id,
                segment_generation,
                reserved,
                header_crc32c,
            },
        )
    }

    /// Tells whether the header can be encoded.
    pub fn validate_for_encoding(&self) -> (result: Result<(), ArchiveFileHeaderError>)
        ensures
            result == (match self.encoding_error() {
                Some(error) => Err::<(), ArchiveFileHeaderError>(error),
                None => Ok(()),
            }),
    {
        if !same_array4(&self.magic, &ARCHIVE_FILE_MAGIC) {
            return Err(ArchiveFileHeaderError::InvalidMagic(self.magic));
        }
        if self.major != ARCHIVE_FILE_VERSION_MAJOR_V1 {
            return Err(ArchiveFileHeaderError::UnsupportedMajor(self.major));
        }
        let supported_minor: u16 = self.file_kind.supported_minor();
        if self.minor > supported_minor {
            return Err(
                ArchiveFileHeaderError::UnsupportedMinor {
                    file_kind: self.file_kind,
                    minor: self.minor,
                    supported_minor,
                },
            );
        }
        if self.header_len != ARCHIVE_FILE_HEADER_V1_LEN as u16 {
            return Err(ArchiveFileHeaderError::NonCanonicalHeaderLengthForV1(self.header_len));
        }
        let must_understand_flags: u32 = self.flags & ARCHIVE_FILE_MUST_UNDERSTAND_FLAGS_MASK;
        if must_understand_flags != 0 {
            return Err(ArchiveFileHeaderError::UnknownMustUnderstandFlags(must_understand_flags));
        }
        validate_segment_identity(self.file_kind, self.segment_id, self.segment_generation)
    }
}

/// Decoding an encoded header gives the header back, with its CRC field filled in.
pub proof fn header_round_trip(header: ArchiveFileHeaderV1)
    requires
        header.encoding_error() is None,
    ensures
        header.encoded().len() == 76,
        decode_header(header.encoded()) == Ok::<ArchiveFileHeaderV1, ArchiveFileHeaderError>(
            ArchiveFileHeaderV1 { header_crc32c: header.encoded_crc(), ..header },
        ),
{
    let s = header.encoded();
    assert(s.len() == 76);
    assert(s.subrange(0, 4) =~= header.magic@);
    assert(s.subrange(4, 6) =~= u16_bytes(header.file_kind.code()));
    assert(s.subrange(6, 8) =~= u16_bytes(header.major));
    assert(s.subrange(8, 10) =~= u16_bytes(header.minor));
    assert(s.subrange(10, 12) =~= u16_bytes(header.header_len));
    assert(s.subrange(12, 16) =~= u32_bytes(header.flags));
    assert(s.subrange(16, 24) =~= u64_bytes(header.created_at_ns));
    assert(s.subrange(40, 48) =~= u64_bytes(header.segment_id));
    assert(s.subrange(48, 52) =~= u32_bytes(header.segment_generation));
    assert(s.subrange(72, 76) =~= u32_bytes(header.encoded_crc()));
    u16_round_trip(s, 4, header.file_kind.code());
    u16_round_trip(s, 6, header.major);
    u16_round_trip(s, 8, header.minor);
    u16_round_trip(s, 10, header.header_len);
    u32_round_trip(s, 12, header.flags);
    u64_round_trip(s, 16, header.created_at_ns);
    u64_round_trip(s, 40, header.segment_id);
    u32_round_trip(s, 48, header.segment_generation);
    u32_round_trip(s, 72, header.encoded_crc());
    assert(array4_at(s, 0) =~= header.magic);
    assert(array16_at(s, 24) =~= header.log_id);
    assert(array20_at(s, 52) =~= header.reserved);
    assert(s.subrange(0, 72) =~= header.prefix_bytes());
    assert(s.subrange(76, 76) =~= Seq::<u8>::empty());
    assert(ArchiveFileKind::of_code(header.file_kind.code()) == Some(header.file_kind));
}

/// Checks a segment identity against the kind of the file that carries it.
pub fn validate_segment_identity(
    file_kind: ArchiveFileKind,
    segment_id: u64,
    segment_generation: u32,
) -> (result: Result<(), ArchiveFileHeaderError>)
    ensures
        result == (match segment_identity_error(file_kind, segment_id, segment_generation) {
            Some(error) => Err::<(), ArchiveFileHeaderError>(error),
            None => Ok(()),
        }),
{
    if file_kind.is_segment_scoped() {
        if segment_id == 0 {
            return Err(ArchiveFileHeaderError::ZeroSegmentIdForSegmentFile { file_kind });
        }
    } else if segment_id != 0 || segment_generation != 0 {
        return Err(
            ArchiveFileHeaderError::NonZeroSegmentIdentityForGlobalFile {
                file_kind,
                segment_id,
                segment_generation,
            },
        );
    }
    Ok(())
}

/// Reads 16 bytes at `offset`.
pub fn read_bytes_16(bytes: &[u8], offset: usize) -> (out: [u8; 16])
    requires
        offset + 16 <= bytes@.len(),
    ensures
        out == array16_at(bytes@, offset as int),
        out@ == bytes@.subrange(offset as int, offset + 16),
{
    let out: [u8; 16] = [
        bytes[offset],
        bytes[offset + 1],
        bytes[offset + 2],
        bytes[offset + 3],
        bytes[offset + 4],
        bytes[offset + 5],
        bytes[offset + 6],
        bytes[offset + 7],
        bytes[offset + 8],
        bytes[offset + 9],
        bytes[offset + 10],
        bytes[offset + 11],
        bytes[offset + 12],
        bytes[offset + 13],
        bytes[offset + 14],
        bytes[offset + 15],
    ];
    assert(out =~= array16_at(bytes@, offset as int));
    assert(out@ =~= bytes@.subrange(offset as int, offset + 16));
    out
}

/// Reads 20 bytes at `offset`.
pub fn read_bytes_20(bytes: &[u8], offset: usize) -> (out: [u8; 20])
    requires
        offset + 20 <= bytes@.len(),
    ensures
        out == array20_at(bytes@, offset as int),
{
    let out: [u8; 20] = [
        bytes[offset],
        bytes[offset + 1],
        bytes[offset + 2],
        bytes[offset + 3],
        bytes[offset + 4],
        bytes[offset + 5],
        bytes[offset + 6],
        bytes[offset + 7],
        bytes[offset + 8],
        bytes[offset + 9],
        bytes[offset + 10],
        bytes[offset + 11],
        bytes[offset + 12],
        bytes[offset + 13],
        bytes[offset + 14],
        bytes[offset + 15],
        bytes[offset + 16],
        bytes[offset + 17],
        bytes[offset + 18],
        bytes[offset + 19],
    ];
    assert(out =~= array20_at(bytes@, offset as int));
    out
}

/// Computes the CRC of a header of `header_len` bytes, leaving its CRC field out.
pub fn crc32c_without_header_crc_field(header: &[u8], header_len: usize) -> (crc: u32)
    requires
        76 <= header_len <= header@.len(),
    ensures
        crc == header_crc(header@, header_len as int),
{
    let crc: u32 = crc32c_append(0, &header[0..OFFSET_HEADER_CRC32C]);
    crc32c_append(crc, &header[OFFSET_HEADER_CRC32C + 4..header_len])
}

/// Tells whether two 4-byte arrays are equal.
pub fn same_array4(a: &[u8; 4], b: &[u8; 4]) -> (same: bool)
    ensures
        same == (a@ == b@),
{
    let same: bool = a[0] == b[0] && a[1] == b[1] && a[2] == b[2] && a[3] == b[3];
    assert(same ==> a@ =~= b@);
    same
}

} // verus!
