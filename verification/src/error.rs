//! What can go wrong, and the names by which errors refer to the parts of an archive.

use crate::header::ArchiveFileHeaderError;
use crate::types::{ArchiveLocator, ArchiveSegmentTier, RecorderAckLevel, ReplayPin};
use vstd::prelude::*;

verus! {

/// A directory of an archive.
#[derive(Debug, Clone, Copy, PartialEq, Eq, Structural)]
pub enum ArchiveDirectory {
    /// The storage root, which holds `catalog.bin`.
    Storage,
    /// `segments` below the storage root.
    Segments,
    /// `detached` below the storage root.
    Detached,
    /// The metadata-log root, which holds `commit.idxlog`.
    Metadata,
    /// `pins` below the metadata-log root.
    Pins,
}

/// A file of an archive.
#[derive(Debug, Clone, Copy, PartialEq, Eq, Structural)]
pub enum ArchiveFile {
    /// `catalog.bin`
    Catalog,
    /// `commit.idxlog`, the active commit log.
    CommitLog,
    /// A rolled commit log.
    RolledCommitLog {
        /// Roll index.
        index: u64,
    },
    /// The data file of a segment.
    SegmentData {
        /// Tier whose directory holds the file.
        tier: ArchiveSegmentTier,
        /// Segment id.
        segment_id: u64,
        /// Segment generation.
        segment_generation: u32,
    },
    /// The summary file of a sealed segment.
    SegmentMeta {
        /// Tier whose directory holds the file.
        tier: ArchiveSegmentTier,
        /// Segment id.
        segment_id: u64,
        /// Segment generation.
        segment_generation: u32,
    },
    /// The marker file of a replay pin.
    Pin {
        /// The pin.
        pin: ReplayPin,
    },
    /// A data file among the attached segments whose name gives a segment, but is not the name that
    /// the archive gives its data file. It is listed and never read.
    SegmentDataAlias {
        /// Segment id.
        segment_id: u64,
        /// Segment generation.
        segment_generation: u32,
    },
    /// A marker file whose name gives a replay pin, but is not the name that the archive gives its
    /// marker. It protects the records of the pin and stays when the pin is released.
    PinAlias {
        /// The pin.
        pin: ReplayPin,
    },
    /// The persisted watermark of a metadata indexer.
    Watermark,
    /// The file in which the next watermark is prepared.
    WatermarkTemp,
    /// `core-locator.idx`
    CoreLocatorIndex,
}

/// A file or a directory of an archive.
#[derive(Debug, Clone, Copy, PartialEq, Eq, Structural)]
pub enum ArchivePath {
    /// A directory.
    Directory(ArchiveDirectory),
    /// A file.
    File(ArchiveFile),
}

/// Why a storage operation failed.
#[derive(Debug, Clone, Copy, PartialEq, Eq, Structural)]
pub enum IoFault {
    /// The file does not exist.
    NotFound,
    /// The file exists already.
    AlreadyExists,
    /// The file ends before the bytes that were asked for.
    UnexpectedEnd,
    /// A write wrote nothing.
    WriteZero,
    /// The operating system reported this error number.
    Os(i32),
}

/// Errors returned by archive recorder operations.
#[derive(Debug, Clone, Copy, PartialEq, Eq)]
pub enum ArchiveRecorderError {
    /// Invalid configuration value.
    InvalidConfiguration(&'static str),
    /// Recorder storage root already contains archive files.
    ArchiveAlreadyExists(ArchivePath),
    /// Existing archive is missing a required path.
    MissingArchiveComponent(ArchivePath),
    /// Recorder has been finalized and no more appends are accepted.
    Finalized,
    /// Recorder entered degraded state after a fatal I/O failure.
    Degraded,
    /// Waiting for a stronger acknowledgment level exceeded timeout.
    AckTimeout {
        /// Requested acknowledgment level.
        requested: RecorderAckLevel,
        /// Timeout in milliseconds.
        timeout_ms: u64,
        /// Last known durable data sequence.
        last_durable_data_sequence: Option<u64>,
        /// Last known durable commit-log ordinal.
        last_durable_commit_ordinal: Option<u64>,
    },
    /// Sequence values must be strictly monotonic.
    SequenceNotMonotonic {
        /// Previous sequence value.
        previous: u64,
        /// Incoming sequence value.
        next: u64,
    },
    /// A single frame cannot fit into the configured segment size.
    FrameTooLarge {
        /// Encoded bytes required for one frame.
        required: usize,
        /// Configured segment byte size.
        segment_bytes: usize,
    },
    /// Out-of-space failure.
    OutOfSpace(ArchivePath),
    /// Metadata-log size cap would be exceeded by the next append.
    MetadataLogCapacityExceeded {
        /// Configured metadata-log cap.
        max_bytes: u64,
        /// Required bytes to proceed.
        required_bytes: u64,
    },
    /// Retention cap cannot be met because all eligible segments are pinned.
    RetentionBlockedByPins {
        /// Configured maximum disk bytes.
        max_disk_bytes: u64,
        /// Current retained bytes.
        retained_bytes: u64,
    },
    /// Recovery validation failed due to inconsistent persisted state.
    RecoveryInconsistent(&'static str),
    /// File header encoding/validation failure.
    FileHeader(ArchiveFileHeaderError),
    /// Underlying I/O failure.
    Io {
        /// Operation name.
        operation: &'static str,
        /// Path involved in operation.
        path: ArchivePath,
        /// Source error.
        source: IoFault,
    },
}

/// Errors returned by archive replayer operations.
#[derive(Debug, Clone, Copy, PartialEq, Eq)]
pub enum ArchiveReplayError {
    /// Invalid configuration value.
    InvalidConfiguration(&'static str),
    /// `commit.idxlog` file is missing.
    MissingCommitLog(ArchivePath),
    /// Required segment file is missing.
    MissingSegment(ArchivePath),
    /// Unsupported or malformed header.
    FileHeader(ArchiveFileHeaderError),
    /// Corrupted commit-log entry.
    InvalidCommitEntry(&'static str),
    /// Duplicate sequence in commit-log.
    DuplicateSequence(u64),
    /// Creating/releasing replay pins failed due to malformed pin state.
    InvalidPinState(&'static str),
    /// Corrupted frame header magic.
    InvalidFrameMagic([u8; 4]),
    /// Corrupted frame header length.
    InvalidFrameHeaderLength(u16),
    /// Corrupted frame length.
    InvalidFrameLength {
        /// Frame length from locator/commit metadata.
        expected: u32,
        /// Frame length decoded from frame header.
        decoded: u32,
    },
    /// Frame checksum mismatch.
    ChecksumMismatch {
        /// Expected checksum.
        expected: u32,
        /// Actual checksum.
        actual: u32,
        /// Locator of the corrupted frame.
        locator: ArchiveLocator,
    },
    /// Underlying I/O failure.
    Io {
        /// Operation name.
        operation: &'static str,
        /// Path involved in operation.
        path: ArchivePath,
        /// Source error.
        source: IoFault,
    },
}

} // verus!
