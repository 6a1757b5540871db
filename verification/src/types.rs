//! The values that the recorder, the replayer and the indexer exchange with their callers.

use vstd::prelude::*;

verus! {

/// Durability mode of the archive recorder.
#[derive(Debug, Clone, Copy, PartialEq, Eq, Structural)]
pub enum PersistenceMode {
    /// Keeps records only in-memory and does not persist segment files.
    Volatile,
    /// Persists data without forcing a per-append fsync barrier.
    Async,
    /// Persists data and enforces a per-append fsync barrier.
    Sync,
}

/// Default timeout in milliseconds for waiting on `DurableData` acknowledgments.
pub const DEFAULT_WAIT_DURABLE_DATA_TIMEOUT_MS: u64 = 1000;

/// Default timeout in milliseconds for waiting on `DurableDataAndCommitLog` acknowledgments.
pub const DEFAULT_WAIT_DURABLE_DATA_AND_COMMIT_LOG_TIMEOUT_MS: u64 = 2000;

/// Default poll interval in milliseconds for acknowledgment wait loops.
pub const DEFAULT_ACK_POLL_INTERVAL_MS: u64 = 1;

/// Recorder acknowledgment level returned or requested by append APIs.
#[derive(Debug, Clone, Copy, PartialEq, Eq, PartialOrd, Ord, Structural)]
pub enum RecorderAckLevel {
    /// Record is accepted by recorder API but not yet guaranteed durable.
    Accepted,
    /// Segment data bytes are durable.
    DurableData,
    /// Segment data and commit-log entry are durable.
    DurableDataAndCommitLog,
}

/// Named recorder runtime profile.
#[derive(Debug, Clone, Copy, PartialEq, Eq, Structural)]
pub enum RecorderProfile {
    /// Prioritizes stronger durability defaults.
    Durable,
    /// General-purpose defaults.
    Balanced,
    /// Prioritizes ingest throughput.
    Throughput,
    /// Prioritizes replay/query freshness.
    Replay,
}

/// Async write backend selection for recorder data path.
#[derive(Debug, Clone, Copy, PartialEq, Eq, Structural)]
pub enum AsyncIoBackend {
    /// Prefer Linux `io_uring` and fall back to blocking file I/O when unavailable.
    IoUringPreferred,
    /// Require Linux `io_uring`; fail recorder creation when unavailable.
    IoUringRequired,
    /// Always use blocking file I/O.
    Blocking,
}

/// Effective async write backend selected by recorder runtime.
#[derive(Debug, Clone, Copy, PartialEq, Eq, Structural)]
pub enum EffectiveAsyncIoBackend {
    /// Blocking file I/O backend.
    Blocking,
    /// Linux `io_uring` backend.
    IoUring,
}

/// Checksum strategy for persisted frames.
#[derive(Debug, Clone, Copy, PartialEq, Eq, Structural)]
pub enum ChecksumMode {
    /// Do not store per-frame checksum values.
    Disabled,
    /// Store CRC32C checksums per frame.
    Crc32c,
}

/// Out-of-space handling policy.
#[derive(Debug, Clone, Copy, PartialEq, Eq, Structural)]
pub enum OutOfSpacePolicy {
    /// Fail the append operation and mark recorder as degraded.
    FailWriter,
}

/// Tier location of a sealed archive segment.
#[derive(Debug, Clone, Copy, PartialEq, Eq, Structural)]
pub enum ArchiveSegmentTier {
    /// Segment is available in the hot replay/query path.
    HotAttached,
    /// Segment is detached and requires attach before default replay/query.
    ColdDetached,
}

/// Snapshot/pin handle used to protect replay windows from trim/detach.
#[derive(Debug, Clone, Copy, PartialEq, Eq, PartialOrd, Ord, Hash, Structural)]
pub struct ReplayPin {
    /// Unique pin identifier.
    pub pin_id: u64,
    /// Inclusive start sequence protected by this pin.
    pub sequence_start: u64,
    /// Inclusive end sequence protected by this pin.
    pub sequence_end: u64,
}

/// Observable state of one sealed segment for admin/introspection.
#[derive(Debug, Clone, Copy, PartialEq, Eq, Structural)]
pub struct ArchiveSegmentState {
    /// Segment id.
    pub segment_id: u64,
    /// Segment generation.
    pub segment_generation: u32,
    /// Inclusive first sequence in this segment.
    pub sequence_start: u64,
    /// Inclusive last sequence in this segment.
    pub sequence_end: u64,
    /// Number of records in this segment.
    pub records: u64,
    /// Used bytes in the segment file.
    pub data_bytes_used: u64,
    /// Current tier.
    pub tier: ArchiveSegmentTier,
    /// True when this segment overlaps at least one active replay pin.
    pub pinned: bool,
}

/// Retention/tier counters for admin status fields.
#[derive(Debug, Clone, Copy, PartialEq, Eq)]
pub struct ArchiveRetentionStatus {
    /// Configured global disk cap (`None` means unlimited).
    pub max_disk_bytes: Option<u64>,
    /// Total retained bytes across tiers.
    pub retained_bytes_total: u64,
    /// Retained bytes in hot-attached tier.
    pub retained_bytes_hot_attached: u64,
    /// Retained bytes in cold-detached tier.
    pub retained_bytes_cold_detached: u64,
    /// Number of sealed segments in hot-attached tier.
    pub segments_hot_attached: usize,
    /// Number of sealed segments in cold-detached tier.
    pub segments_cold_detached: usize,
    /// Number of pinned sealed segments.
    pub pinned_segments: usize,
}

/// Physical frame locator in archive storage.
#[derive(Debug, Clone, Copy, PartialEq, Eq, PartialOrd, Ord, Hash, Structural)]
pub struct ArchiveLocator {
    /// Segment id of the record.
    pub segment_id: u64,
    /// Segment generation of the record.
    pub segment_generation: u32,
    /// File offset of the frame start in the segment file.
    pub file_offset: u64,
    /// Encoded frame length in bytes.
    pub frame_len: u32,
}

/// Returned when a frame was appended successfully.
#[derive(Debug, Clone, Copy, PartialEq, Eq, Structural)]
pub struct RecordedCommit {
    /// Monotonic commit ordinal assigned by recorder.
    pub commit_ordinal: u64,
    /// Monotonic archive-local sequence.
    pub sequence: u64,
    /// Physical locator of the persisted frame.
    pub locator: ArchiveLocator,
}

/// Commit-log entry view exposed for archive introspection surfaces.
#[derive(Debug, Clone, Copy, PartialEq, Eq)]
pub struct ArchiveCommitLogEntry {
    /// Monotonic commit ordinal assigned by recorder.
    pub commit_ordinal: u64,
    /// Logical source sequence.
    pub sequence: u64,
    /// Physical frame locator.
    pub locator: ArchiveLocator,
    /// Persisted frame checksum from commit-log metadata.
    pub frame_checksum: u32,
    /// Event timestamp in nanoseconds.
    pub event_time_ns: u64,
    /// Commit timestamp in nanoseconds.
    pub commit_time_ns: u64,
    /// Source pattern as recorded by pattern adapter metadata.
    pub source_pattern: ArchiveSourcePattern,
    /// Stable source service identity (`0` when unavailable).
    pub source_service_id: u64,
    /// Pattern-local source identity (`0` when unavailable).
    pub source_instance_id: u64,
    /// Optional source sequence from upstream pattern endpoint.
    pub source_sequence: Option<u64>,
    /// True when the referenced segment is currently available in hot-attached storage.
    pub hot_attached: bool,
}

/// Source pattern discriminator used by pattern adapters.
#[derive(Debug, Clone, Copy, PartialEq, Eq, Structural)]
pub enum ArchiveSourcePattern {
    /// Reserved for deferred log-pattern adapter support.
    Log,
    /// Record originated from publish-subscribe messaging pattern.
    PublishSubscribe,
    /// Reserved for deferred pipeline-pattern adapter support.
    Pipeline,
}

impl ArchiveSourcePattern {
    /// The number that stands for this pattern in encoded records.
    pub open spec fn code(self) -> u8 {
        match self {
            ArchiveSourcePattern::Log => 1,
            ArchiveSourcePattern::PublishSubscribe => 2,
            ArchiveSourcePattern::Pipeline => 3,
        }
    }

    /// The pattern that `value` stands for, if any.
    pub open spec fn of_code(value: u8) -> Option<ArchiveSourcePattern> {
        if value == 1 {
            Some(ArchiveSourcePattern::Log)
        } else if value == 2 {
            Some(ArchiveSourcePattern::PublishSubscribe)
        } else if value == 3 {
            Some(ArchiveSourcePattern::Pipeline)
        } else {
            None
        }
    }

    /// Returns the encoded discriminator.
    pub fn as_u8(self) -> (value: u8)
        ensures
            value == self.code(),
    {
        match self {
            ArchiveSourcePattern::Log => 1,
            ArchiveSourcePattern::PublishSubscribe => 2,
            ArchiveSourcePattern::Pipeline => 3,
        }
    }

    /// Decodes the discriminator.
    pub fn try_from(value: u8) -> (result: Result<ArchiveSourcePattern, ()>)
        ensures
            result == (match ArchiveSourcePattern::of_code(value) {
                Some(pattern) => Ok::<ArchiveSourcePattern, ()>(pattern),
                None => Err(()),
            }),
    {
        match value {
            1 => Ok(ArchiveSourcePattern::Log),
            2 => Ok(ArchiveSourcePattern::PublishSubscribe),
            3 => Ok(ArchiveSourcePattern::Pipeline),
            _ => Err(()),
        }
    }
}

/// Canonical source metadata emitted by pattern adapters.
#[derive(Debug, Clone, Copy, PartialEq, Eq)]
pub struct ArchiveSourceMetadata {
    /// Source pattern of the record.
    pub source_pattern: ArchiveSourcePattern,
    /// Stable source service identity chosen by adapter caller.
    pub source_service_id: u64,
    /// Pattern-local source identity. In pubsub-v1 this is the publisher identity.
    pub source_instance_id: u64,
    /// Optional source sequence from upstream pattern endpoint.
    pub source_sequence: Option<u64>,
}

/// Input frame for publish-subscribe pattern adapter ingestion.
#[derive(Debug, Clone, Copy)]
pub struct PublishSubscribeRecordInput<'a> {
    /// Event timestamp in nanoseconds.
    pub event_time_ns: u64,
    /// Stable source service identity chosen by caller.
    pub source_service_id: u64,
    /// Stable source publisher identity chosen by caller.
    pub source_publisher_id: u64,
    /// Optional source sequence from publisher-side metadata.
    pub source_sequence: Option<u64>,
    /// User header bytes.
    pub user_header: &'a [u8],
    /// Payload bytes.
    pub payload: &'a [u8],
}

/// Input frame whose payload bytes are owned by the caller's sample.
#[derive(Debug)]
pub struct PublishSubscribeExternalPayloadInput<'a> {
    /// Event timestamp in nanoseconds.
    pub event_time_ns: u64,
    /// Stable source service identity chosen by caller.
    pub source_service_id: u64,
    /// Stable source publisher identity chosen by caller.
    pub source_publisher_id: u64,
    /// Optional source sequence from publisher-side metadata.
    pub source_sequence: Option<u64>,
    /// User header bytes.
    pub user_header: &'a [u8],
    /// The owned payload bytes.
    pub payload_owner: Vec<u8>,
}

/// Recorder statistics and accounting values.
#[derive(Debug, Clone, Copy, PartialEq, Eq, Structural)]
pub struct ArchiveRecorderStats {
    /// Number of committed records.
    pub committed_records: u64,
    /// Number of committed payload bytes.
    pub payload_bytes_committed: u64,
    /// Number of data bytes written (`segment-*.data`).
    pub data_bytes_written: u64,
    /// Number of metadata bytes written (`catalog.bin`, `commit.idxlog`, `segment-*.meta`).
    pub metadata_bytes_written: u64,
    /// Number of segment roll operations.
    pub rolled_segments: u64,
    /// Number of preallocated segment files created.
    pub preallocated_segments: u64,
    /// Number of out-of-space events observed.
    pub out_of_space_events: u64,
    /// Number of commit-log roll operations.
    pub metadata_log_rolls: u64,
    /// Number of writes handed to the asynchronous backend.
    pub async_write_enqueued: u64,
    /// Number of submissions made to the ring.
    pub io_uring_submit_calls: u64,
    /// Number of writes submitted to the ring.
    pub io_uring_submitted_writes: u64,
    /// Number of writes completed by the ring.
    pub io_uring_completed_writes: u64,
    /// Number of waits on the ring.
    pub io_uring_wait_calls: u64,
    /// Highest number of writes that were pending at once.
    pub io_uring_pending_high_watermark: u64,
}

impl ArchiveRecorderStats {
    /// Counters that are all zero.
    pub open spec fn zero() -> ArchiveRecorderStats {
        ArchiveRecorderStats {
            committed_records: 0,
            payload_bytes_committed: 0,
            data_bytes_written: 0,
            metadata_bytes_written: 0,
            rolled_segments: 0,
            preallocated_segments: 0,
            out_of_space_events: 0,
            metadata_log_rolls: 0,
            async_write_enqueued: 0,
            io_uring_submit_calls: 0,
            io_uring_submitted_writes: 0,
            io_uring_completed_writes: 0,
            io_uring_wait_calls: 0,
            io_uring_pending_high_watermark: 0,
        }
    }
}

impl Default for ArchiveRecorderStats {
    fn default() -> (stats: Self)
        ensures
            stats == ArchiveRecorderStats::zero(),
    {
        ArchiveRecorderStats {
            committed_records: 0,
            payload_bytes_committed: 0,
            data_bytes_written: 0,
            metadata_bytes_written: 0,
            rolled_segments: 0,
            preallocated_segments: 0,
            out_of_space_events: 0,
            metadata_log_rolls: 0,
            async_write_enqueued: 0,
            io_uring_submit_calls: 0,
            io_uring_submitted_writes: 0,
            io_uring_completed_writes: 0,
            io_uring_wait_calls: 0,
            io_uring_pending_high_watermark: 0,
        }
    }
}

/// Deterministic startup recovery status for recorder admin surfaces.
#[derive(Debug, Clone, Copy, PartialEq, Eq, Structural)]
pub struct ArchiveRecoveryStatus {
    /// True when recorder was opened from an existing archive and recovery ran.
    pub recovered_existing_archive: bool,
    /// Number of segment summaries loaded from catalog.
    pub catalog_segments_loaded: u64,
    /// Number of valid commit-log entries loaded.
    pub commit_entries_loaded: u64,
    /// Active segment id selected after recovery.
    pub active_segment_id: u64,
    /// Active segment generation selected after recovery.
    pub active_segment_generation: u32,
    /// Number of committed records recovered in active segment.
    pub active_segment_records: u64,
    /// Number of active-segment truncation events during recovery.
    pub segment_truncation_events: u64,
    /// Number of bytes truncated from active segment tails during recovery.
    pub segment_truncated_bytes: u64,
    /// Number of bytes truncated from commit-log tail during recovery.
    pub commit_log_truncated_bytes: u64,
    /// Elapsed recovery time in nanoseconds for startup recovery.
    pub recovery_duration_ns: u64,
}

impl ArchiveRecoveryStatus {
    /// The status of a recorder that did not recover anything.
    pub open spec fn none() -> ArchiveRecoveryStatus {
        ArchiveRecoveryStatus {
            recovered_existing_archive: false,
            catalog_segments_loaded: 0,
            commit_entries_loaded: 0,
            active_segment_id: 0,
            active_segment_generation: 0,
            active_segment_records: 0,
            segment_truncation_events: 0,
            segment_truncated_bytes: 0,
            commit_log_truncated_bytes: 0,
            recovery_duration_ns: 0,
        }
    }
}

impl Default for ArchiveRecoveryStatus {
    fn default() -> (status: Self)
        ensures
            status == ArchiveRecoveryStatus::none(),
    {
        ArchiveRecoveryStatus {
            recovered_existing_archive: false,
            catalog_segments_loaded: 0,
            commit_entries_loaded: 0,
            active_segment_id: 0,
            active_segment_generation: 0,
            active_segment_records: 0,
            segment_truncation_events: 0,
            segment_truncated_bytes: 0,
            commit_log_truncated_bytes: 0,
            recovery_duration_ns: 0,
        }
    }
}

/// Replay budget limits.
#[derive(Debug, Clone, Copy, PartialEq, Eq, Structural)]
pub struct ReplayBudget {
    /// Maximum records returned per range/batch call.
    pub max_records_per_call: usize,
    /// Maximum aggregate bytes returned per range/batch call.
    pub max_bytes_per_call: usize,
}

impl Default for ReplayBudget {
    fn default() -> (budget: Self)
        ensures
            budget.max_records_per_call == 1024,
            budget.max_bytes_per_call == 67108864,
    {
        ReplayBudget { max_records_per_call: 1024, max_bytes_per_call: 64 * 1024 * 1024 }
    }
}

/// Decoded frame returned by replayer APIs.
#[derive(Debug, Clone, PartialEq, Eq)]
pub struct ReplayedFrame {
    /// Commit ordinal from archive.
    pub commit_ordinal: u64,
    /// Source sequence.
    pub sequence: u64,
    /// Event timestamp in nanoseconds.
    pub event_time_ns: u64,
    /// Commit timestamp in nanoseconds.
    pub commit_time_ns: u64,
    /// User header bytes.
    pub user_header: Vec<u8>,
    /// Payload bytes.
    pub payload: Vec<u8>,
    /// Checksum stored in the frame header.
    pub frame_checksum: u32,
    /// Physical locator.
    pub locator: ArchiveLocator,
}

/// The mathematical value of a [`ReplayedFrame`].
#[verifier::ext_equal]
pub struct FrameModel {
    pub commit_ordinal: u64,
    pub sequence: u64,
    pub event_time_ns: u64,
    pub commit_time_ns: u64,
    pub user_header: Seq<u8>,
    pub payload: Seq<u8>,
    pub frame_checksum: u32,
    pub locator: ArchiveLocator,
}

impl View for ReplayedFrame {
    type V = FrameModel;

    open spec fn view(&self) -> FrameModel {
        FrameModel {
            commit_ordinal: self.commit_ordinal,
            sequence: self.sequence,
            event_time_ns: self.event_time_ns,
            commit_time_ns: self.commit_time_ns,
            user_header: self.user_header@,
            payload: self.payload@,
            frame_checksum: self.frame_checksum,
            locator: self.locator,
        }
    }
}

/// The models of a sequence of frames.
pub open spec fn frame_models(frames: Seq<ReplayedFrame>) -> Seq<FrameModel> {
    Seq::new(frames.len(), |i: int| frames[i]@)
}

} // verus!
