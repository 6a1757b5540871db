//! The tool that records live traffic: its options, what they mean, and its summary.

use crate::command::{check_service, ArchivePaths, CommandError, CommandFailure};
use crate::error::ArchiveRecorderError;
use crate::text::{decimal, is_blank, push_decimal, push_text};
use crate::types::{
    AsyncIoBackend, ChecksumMode, OutOfSpacePolicy, PersistenceMode, RecorderAckLevel,
    RecorderProfile,
};
use vstd::prelude::*;

verus! {

/// Profile named on the command line.
#[derive(Debug, Clone, Copy, PartialEq, Eq, Structural)]
pub enum CliRecorderProfile {
    /// Everything is durable before it is acknowledged.
    Durable,
    /// A compromise.
    Balanced,
    /// As many records as possible.
    Throughput,
    /// Made for replaying.
    Replay,
}

/// Durability mode named on the command line.
#[derive(Debug, Clone, Copy, PartialEq, Eq, Structural)]
pub enum CliPersistenceMode {
    /// Records stay in memory.
    Volatile,
    /// Records are written, and synced at times.
    Async,
    /// Every record is synced.
    Sync,
}

/// Acknowledgment level named on the command line.
#[derive(Debug, Clone, Copy, PartialEq, Eq, Structural)]
pub enum CliRecorderAckLevel {
    /// The record was accepted.
    Accepted,
    /// Its data is durable.
    DurableData,
    /// Its data and its commit entry are durable.
    DurableDataAndCommitLog,
}

/// Backend named on the command line.
#[derive(Debug, Clone, Copy, PartialEq, Eq, Structural)]
pub enum CliAsyncIoBackend {
    /// A ring, if there is one.
    IoUringPreferred,
    /// A ring.
    IoUringRequired,
    /// Blocking calls.
    Blocking,
}

/// Checksum mode named on the command line.
#[derive(Debug, Clone, Copy, PartialEq, Eq, Structural)]
pub enum CliChecksumMode {
    /// No checksum.
    Disabled,
    /// CRC32C.
    Crc32c,
}

/// Policy for a full disk named on the command line.
#[derive(Debug, Clone, Copy, PartialEq, Eq, Structural)]
pub enum CliOutOfSpacePolicy {
    /// The writer fails.
    FailWriter,
}

/// The options on the archive.
#[derive(Debug)]
pub struct LogRecordArchiveOptions {
    /// Logical service name to record.
    pub service: String,
    /// Storage root.
    pub storage_path: String,
    /// Metadata-log root; the storage root by default.
    pub metadata_log_path: Option<String>,
    /// Profile.
    pub profile: CliRecorderProfile,
    /// Durability mode; the profile's by default.
    pub mode: Option<CliPersistenceMode>,
    /// Size of a segment; the profile's by default.
    pub segment_bytes: Option<usize>,
    /// Number of segments that are prepared ahead; the profile's by default.
    pub spare_preallocated_segments: Option<usize>,
    /// Room is reserved for whole segments; the profile's choice by default.
    pub segment_preallocate: Option<bool>,
    /// Cap on the bytes on disk.
    pub max_disk_bytes: Option<u64>,
    /// Backend.
    pub async_io_backend: Option<CliAsyncIoBackend>,
    /// Depth of the ring.
    pub io_uring_queue_depth: Option<u32>,
    /// Most submissions per batch.
    pub io_submit_batch_max: Option<u32>,
    /// Most completions per batch.
    pub io_cqe_batch_max: Option<u32>,
    /// Files are registered with the ring.
    pub io_uring_register_files: Option<bool>,
    /// Checksum mode.
    pub checksum_mode: Option<CliChecksumMode>,
    /// Policy for a full disk.
    pub out_of_space_policy: Option<CliOutOfSpacePolicy>,
    /// Size at which the commit log is rolled.
    pub metadata_log_roll_bytes: Option<u64>,
    /// Cap on the size of all commit logs.
    pub metadata_log_max_bytes: Option<u64>,
}

/// The options on a recorder that runs.
#[derive(Debug)]
pub struct LogRecordRuntimeOptions {
    /// Node name of the recorder endpoint.
    pub node_name: String,
    /// Wait interval in milliseconds when no data is available.
    pub cycle_time_ms: u64,
    /// Stop after this many messages.
    pub max_messages: Option<u64>,
    /// Stop after this many milliseconds.
    pub timeout_ms: Option<u64>,
    /// Flush interval in milliseconds; zero disables periodic flushes.
    pub flush_interval_ms: u64,
    /// Acknowledgment level to wait for after each record.
    pub ack_level: Option<CliRecorderAckLevel>,
}

/// The options on a recorder of publish-subscribe samples that runs.
#[derive(Debug)]
pub struct LogRecordPublishSubscribeRuntimeOptions {
    /// The common options.
    pub common: LogRecordRuntimeOptions,
    /// Identity of the recorded service.
    pub source_service_id: Option<u64>,
    /// Number of samples that the subscriber may hold at a time.
    pub subscriber_max_borrowed_samples: Option<usize>,
}

/// All options of a recorder of publish-subscribe samples.
#[derive(Debug)]
pub struct LogRecordPublishSubscribeOptions {
    /// On the archive.
    pub archive: LogRecordArchiveOptions,
    /// On the recorder that runs.
    pub runtime: LogRecordPublishSubscribeRuntimeOptions,
}

/// What the tool is asked to do.
#[derive(Debug)]
pub enum LogRecordAction {
    /// Record publish-subscribe samples.
    PublishSubscribe(LogRecordPublishSubscribeOptions),
}

/// The values that a profile gives to options that are not set.
#[derive(Debug, Clone, Copy, PartialEq, Eq, Structural)]
pub struct CliProfileDefaults {
    /// Durability mode.
    pub persistence_mode: CliPersistenceMode,
    /// Size of a segment.
    pub segment_bytes: usize,
    /// Number of segments that are prepared ahead.
    pub spare_preallocated_segments: usize,
    /// Room is reserved for whole segments.
    pub segment_preallocate: bool,
    /// Number of samples that the subscriber may hold at a time.
    pub subscriber_max_borrowed_samples: Option<usize>,
}

/// The defaults of a profile: `Durable` syncs every record, `Throughput` has segments four times
/// as large and one more of them prepared.
pub open spec fn cli_defaults(value: CliRecorderProfile) -> CliProfileDefaults {
    CliProfileDefaults {
        persistence_mode: if value == CliRecorderProfile::Durable {
            CliPersistenceMode::Sync
        } else {
            CliPersistenceMode::Async
        },
        segment_bytes: if value == CliRecorderProfile::Throughput {
            0x4000_0000
        } else {
            0x1000_0000
        },
        spare_preallocated_segments: if value == CliRecorderProfile::Throughput {
            2
        } else {
            1
        },
        segment_preallocate: true,
        subscriber_max_borrowed_samples: None,
    }
}

/// Gives the defaults of a profile.
pub fn cli_profile_defaults(value: CliRecorderProfile) -> (defaults: CliProfileDefaults)
    ensures
        defaults == cli_defaults(value),
{
    match value {
        CliRecorderProfile::Durable => CliProfileDefaults {
            persistence_mode: CliPersistenceMode::Sync,
            segment_bytes: 256 * 1024 * 1024,
            spare_preallocated_segments: 1,
            segment_preallocate: true,
            subscriber_max_borrowed_samples: None,
        },
        CliRecorderProfile::Balanced => CliProfileDefaults {
            persistence_mode: CliPersistenceMode::Async,
            segment_bytes: 256 * 1024 * 1024,
            spare_preallocated_segments: 1,
            segment_preallocate: true,
            subscriber_max_borrowed_samples: None,
        },
        CliRecorderProfile::Throughput => CliProfileDefaults {
            persistence_mode: CliPersistenceMode::Async,
            segment_bytes: 1024 * 1024 * 1024,
            spare_preallocated_segments: 2,
            segment_preallocate: true,
            subscriber_max_borrowed_samples: None,
        },
        CliRecorderProfile::Replay => CliProfileDefaults {
            persistence_mode: CliPersistenceMode::Async,
            segment_bytes: 256 * 1024 * 1024,
            spare_preallocated_segments: 1,
            segment_preallocate: true,
            subscriber_max_borrowed_samples: None,
        },
    }
}

/// The profile that is meant.
pub open spec fn profile_of(value: CliRecorderProfile) -> RecorderProfile {
    match value {
        CliRecorderProfile::Durable => RecorderProfile::Durable,
        CliRecorderProfile::Balanced => RecorderProfile::Balanced,
        CliRecorderProfile::Throughput => RecorderProfile::Throughput,
        CliRecorderProfile::Replay => RecorderProfile::Replay,
    }
}

/// Gives the profile that is meant.
pub fn recorder_profile(value: CliRecorderProfile) -> (profile: RecorderProfile)
    ensures
        profile == profile_of(value),
{
    match value {
        CliRecorderProfile::Durable => RecorderProfile::Durable,
        CliRecorderProfile::Balanced => RecorderProfile::Balanced,
        CliRecorderProfile::Throughput => RecorderProfile::Throughput,
        CliRecorderProfile::Replay => RecorderProfile::Replay,
    }
}

/// The durability mode that is meant.
pub open spec fn mode_of(value: CliPersistenceMode) -> PersistenceMode {
    match value {
        CliPersistenceMode::Volatile => PersistenceMode::Volatile,
        CliPersistenceMode::Async => PersistenceMode::Async,
        CliPersistenceMode::Sync => PersistenceMode::Sync,
    }
}

/// Gives the durability mode that is meant.
pub fn persistence_mode_from_cli(value: CliPersistenceMode) -> (mode: PersistenceMode)
    ensures
        mode == mode_of(value),
{
    match value {
        CliPersistenceMode::Volatile => PersistenceMode::Volatile,
        CliPersistenceMode::Async => PersistenceMode::Async,
        CliPersistenceMode::Sync => PersistenceMode::Sync,
    }
}

/// The acknowledgment level that is meant.
pub open spec fn ack_level_of(value: CliRecorderAckLevel) -> RecorderAckLevel {
    match value {
        CliRecorderAckLevel::Accepted => RecorderAckLevel::Accepted,
        CliRecorderAckLevel::DurableData => RecorderAckLevel::DurableData,
        CliRecorderAckLevel::DurableDataAndCommitLog => RecorderAckLevel::DurableDataAndCommitLog,
    }
}

/// Gives the acknowledgment level that is meant.
pub fn ack_level_from_cli(value: CliRecorderAckLevel) -> (level: RecorderAckLevel)
    ensures
        level == ack_level_of(value),
{
    match value {
        CliRecorderAckLevel::Accepted => RecorderAckLevel::Accepted,
        CliRecorderAckLevel::DurableData => RecorderAckLevel::DurableData,
        CliRecorderAckLevel::DurableDataAndCommitLog => RecorderAckLevel::DurableDataAndCommitLog,
    }
}

/// The backend that is meant.
pub open spec fn backend_of(value: CliAsyncIoBackend) -> AsyncIoBackend {
    match value {
        CliAsyncIoBackend::IoUringPreferred => AsyncIoBackend::IoUringPreferred,
        CliAsyncIoBackend::IoUringRequired => AsyncIoBackend::IoUringRequired,
        CliAsyncIoBackend::Blocking => AsyncIoBackend::Blocking,
    }
}

/// Gives the backend that is meant.
pub fn async_io_backend_from_cli(value: CliAsyncIoBackend) -> (backend: AsyncIoBackend)
    ensures
        backend == backend_of(value),
{
    match value {
        CliAsyncIoBackend::IoUringPreferred => AsyncIoBackend::IoUringPreferred,
        CliAsyncIoBackend::IoUringRequired => AsyncIoBackend::IoUringRequired,
        CliAsyncIoBackend::Blocking => AsyncIoBackend::Blocking,
    }
}

/// The checksum mode that is meant.
pub open spec fn checksum_mode_of(value: CliChecksumMode) -> ChecksumMode {
    match value {
        CliChecksumMode::Disabled => ChecksumMode::Disabled,
        CliChecksumMode::Crc32c => ChecksumMode::Crc32c,
    }
}

/// Gives the checksum mode that is meant.
pub fn checksum_mode_from_cli(value: CliChecksumMode) -> (mode: ChecksumMode)
    ensures
        mode == checksum_mode_of(value),
{
    match value {
        CliChecksumMode::Disabled => ChecksumMode::Disabled,
        CliChecksumMode::Crc32c => ChecksumMode::Crc32c,
    }
}

/// Gives the policy that is meant.
pub fn out_of_space_policy_from_cli(value: CliOutOfSpacePolicy) -> (policy: OutOfSpacePolicy)
    ensures
        policy == OutOfSpacePolicy::FailWriter,
{
    match value {
        CliOutOfSpacePolicy::FailWriter => OutOfSpacePolicy::FailWriter,
    }
}

/// A number of milliseconds; zero stands for none.
pub fn non_zero_duration(value_ms: u64) -> (duration_ms: Option<u64>)
    ensures
        duration_ms == if value_ms == 0 {
            None
        } else {
            Some(value_ms)
        },
{
    if value_ms == 0 {
        None
    } else {
        Some(value_ms)
    }
}

/// What is wrong with the options, if anything is: the first problem in the order in which they
/// are checked.
pub open spec fn options_problem(options: LogRecordPublishSubscribeOptions) -> Option<Seq<char>> {
    if is_blank(options.archive.service@) {
        Some("--service must not be empty"@)
    } else if options.runtime.common.cycle_time_ms == 0 {
        Some("--cycle-time-ms must be greater than 0"@)
    } else if options.archive.segment_bytes == Some(0usize) {
        Some("--segment-bytes must be greater than 0"@)
    } else if options.archive.io_uring_queue_depth == Some(0u32) {
        Some("--io-uring-queue-depth must be greater than 0"@)
    } else if options.archive.io_submit_batch_max == Some(0u32) {
        Some("--io-submit-batch-max must be greater than 0"@)
    } else if options.archive.io_cqe_batch_max == Some(0u32) {
        Some("--io-cqe-batch-max must be greater than 0"@)
    } else if options.runtime.subscriber_max_borrowed_samples == Some(0usize) {
        Some("--subscriber-max-borrowed-samples must be greater than 0"@)
    } else {
        None
    }
}

/// Checks the options.
pub fn validate_runtime_options(options: &LogRecordPublishSubscribeOptions) -> (result: Result<
    (),
    CommandError,
>)
    ensures
        match result {
            Ok(_) => options_problem(*options) is None,
            Err(error) => options_problem(*options) matches Some(message) && error@
                == CommandFailure::InvalidInput(message),
        },
{
    check_service(options.archive.service.as_str())?;
    if options.runtime.common.cycle_time_ms == 0 {
        return Err(CommandError::invalid_input("--cycle-time-ms must be greater than 0"));
    }
    if options.archive.segment_bytes == Some(0) {
        return Err(CommandError::invalid_input("--segment-bytes must be greater than 0"));
    }
    if options.archive.io_uring_queue_depth == Some(0) {
        return Err(CommandError::invalid_input("--io-uring-queue-depth must be greater than 0"));
    }
    if options.archive.io_submit_batch_max == Some(0) {
        return Err(CommandError::invalid_input("--io-submit-batch-max must be greater than 0"));
    }
    if options.archive.io_cqe_batch_max == Some(0) {
        return Err(CommandError::invalid_input("--io-cqe-batch-max must be greater than 0"));
    }
    if options.runtime.subscriber_max_borrowed_samples == Some(0) {
        return Err(
            CommandError::invalid_input("--subscriber-max-borrowed-samples must be greater than 0"),
        );
    }
    Ok(())
}

/// What a recorder of publish-subscribe samples is started with.
#[derive(Debug)]
pub struct PubSubRecorderConfig {
    /// Service to record.
    pub service: String,
    /// Node name of the recorder endpoint.
    pub node_name: String,
    /// Roots of the archive.
    pub paths: ArchivePaths,
    /// The settings that are no text.
    pub settings: PubSubRecorderSettings,
}

/// The settings of a recorder of publish-subscribe samples that are no text.
#[derive(Debug, Clone, Copy)]
pub struct PubSubRecorderSettings {
    /// Profile.
    pub profile: RecorderProfile,
    /// Durability mode.
    pub persistence_mode: PersistenceMode,
    /// Size of a segment.
    pub segment_bytes: usize,
    /// Number of segments that are prepared ahead.
    pub spare_preallocated_segments: usize,
    /// Room is reserved for whole segments.
    pub segment_preallocate: bool,
    /// Cap on the bytes on disk.
    pub max_disk_bytes: Option<u64>,
    /// Backend.
    pub async_io_backend: Option<AsyncIoBackend>,
    /// Depth of the ring.
    pub io_uring_queue_depth: Option<u32>,
    /// Most submissions per batch.
    pub io_submit_batch_max: Option<u32>,
    /// Most completions per batch.
    pub io_cqe_batch_max: Option<u32>,
    /// Files are registered with the ring.
    pub io_uring_register_files: Option<bool>,
    /// Checksum mode.
    pub checksum_mode: Option<ChecksumMode>,
    /// Number of samples that the subscriber may hold at a time.
    pub subscriber_max_borrowed_samples: Option<usize>,
    /// Policy for a full disk.
    pub out_of_space_policy: Option<OutOfSpacePolicy>,
    /// Size at which the commit log is rolled.
    pub metadata_log_roll_bytes: Option<u64>,
    /// Cap on the size of all commit logs.
    pub metadata_log_max_bytes: Option<u64>,
    /// Identity of the recorded service.
    pub source_service_id: Option<u64>,
    /// Wait interval in milliseconds when no data is available.
    pub cycle_time_ms: u64,
    /// Stop after this many messages.
    pub max_messages: Option<u64>,
    /// Stop after this many milliseconds.
    pub timeout_ms: Option<u64>,
    /// Flush interval in milliseconds.
    pub flush_interval_ms: Option<u64>,
    /// Acknowledgment level to wait for after each record.
    pub ack_level: Option<RecorderAckLevel>,
}

/// The value, or a default.
pub open spec fn value_or<T>(value: Option<T>, default: T) -> T {
    match value {
        Some(value) => value,
        None => default,
    }
}

/// The settings that options stand for.
pub open spec fn settings_of(options: LogRecordPublishSubscribeOptions) -> PubSubRecorderSettings {
    let archive = options.archive;
    let runtime = options.runtime;
    let defaults = cli_defaults(archive.profile);
    PubSubRecorderSettings {
        profile: profile_of(archive.profile),
        persistence_mode: mode_of(value_or(archive.mode, defaults.persistence_mode)),
        segment_bytes: value_or(archive.segment_bytes, defaults.segment_bytes),
        spare_preallocated_segments: value_or(
            archive.spare_preallocated_segments,
            defaults.spare_preallocated_segments,
        ),
        segment_preallocate: value_or(archive.segment_preallocate, defaults.segment_preallocate),
        max_disk_bytes: archive.max_disk_bytes,
        async_io_backend: match archive.async_io_backend {
            Some(backend) => Some(backend_of(backend)),
            None => None,
        },
        io_uring_queue_depth: archive.io_uring_queue_depth,
        io_submit_batch_max: archive.io_submit_batch_max,
        io_cqe_batch_max: archive.io_cqe_batch_max,
        io_uring_register_files: archive.io_uring_register_files,
        checksum_mode: match archive.checksum_mode {
            Some(mode) => Some(checksum_mode_of(mode)),
            None => None,
        },
        subscriber_max_borrowed_samples: match runtime.subscriber_max_borrowed_samples {
            Some(samples) => Some(samples),
            None => defaults.subscriber_max_borrowed_samples,
        },
        out_of_space_policy: match archive.out_of_space_policy {
            Some(_) => Some(OutOfSpacePolicy::FailWriter),
            None => None,
        },
        metadata_log_roll_bytes: archive.metadata_log_roll_bytes,
        metadata_log_max_bytes: archive.metadata_log_max_bytes,
        source_service_id: runtime.source_service_id,
        cycle_time_ms: runtime.common.cycle_time_ms,
        max_messages: runtime.common.max_messages,
        timeout_ms: runtime.common.timeout_ms,
        flush_interval_ms: if runtime.common.flush_interval_ms == 0 {
            None
        } else {
            Some(runtime.common.flush_interval_ms)
        },
        ack_level: match runtime.common.ack_level {
            Some(level) => Some(ack_level_of(level)),
            None => None,
        },
    }
}

/// Makes the configuration of a recorder from the options of the tool.
pub fn recorder_config(options: &LogRecordPublishSubscribeOptions) -> (result: Result<
    PubSubRecorderConfig,
    CommandError,
>)
    ensures
        match result {
            Ok(config) => {
                &&& options_problem(*options) is None
                &&& config.service@ == options.archive.service@
                &&& config.node_name@ == options.runtime.common.node_name@
                &&& config.paths.storage_path@ == options.archive.storage_path@
                &&& config.paths.metadata_log_path@ == crate::command::text_or(
                    options.archive.metadata_log_path,
                    options.archive.storage_path@,
                )
                &&& config.settings == settings_of(*options)
            },
            Err(error) => options_problem(*options) matches Some(message) && error@
                == CommandFailure::InvalidInput(message),
        },
{
    validate_runtime_options(options)?;
    let archive = &options.archive;
    let runtime = &options.runtime;
    let defaults = cli_profile_defaults(archive.profile);
    let mode = match archive.mode {
        Some(mode) => mode,
        None => defaults.persistence_mode,
    };
    let settings = PubSubRecorderSettings {
        profile: recorder_profile(archive.profile),
        persistence_mode: persistence_mode_from_cli(mode),
        segment_bytes: match archive.segment_bytes {
            Some(value) => value,
            None => defaults.segment_bytes,
        },
        spare_preallocated_segments: match archive.spare_preallocated_segments {
            Some(value) => value,
            None => defaults.spare_preallocated_segments,
        },
        segment_preallocate: match archive.segment_preallocate {
            Some(value) => value,
            None => defaults.segment_preallocate,
        },
        max_disk_bytes: archive.max_disk_bytes,
        async_io_backend: match archive.async_io_backend {
            Some(value) => Some(async_io_backend_from_cli(value)),
            None => None,
        },
        io_uring_queue_depth: archive.io_uring_queue_depth,
        io_submit_batch_max: archive.io_submit_batch_max,
        io_cqe_batch_max: archive.io_cqe_batch_max,
        io_uring_register_files: archive.io_uring_register_files,
        checksum_mode: match archive.checksum_mode {
            Some(value) => Some(checksum_mode_from_cli(value)),
            None => None,
        },
        subscriber_max_borrowed_samples: match runtime.subscriber_max_borrowed_samples {
            Some(value) => Some(value),
            None => defaults.subscriber_max_borrowed_samples,
        },
        out_of_space_policy: match archive.out_of_space_policy {
            Some(value) => Some(out_of_space_policy_from_cli(value)),
            None => None,
        },
        metadata_log_roll_bytes: archive.metadata_log_roll_bytes,
        metadata_log_max_bytes: archive.metadata_log_max_bytes,
        source_service_id: runtime.source_service_id,
        cycle_time_ms: runtime.common.cycle_time_ms,
        max_messages: runtime.common.max_messages,
        timeout_ms: runtime.common.timeout_ms,
        flush_interval_ms: non_zero_duration(runtime.common.flush_interval_ms),
        ack_level: match runtime.common.ack_level {
            Some(value) => Some(ack_level_from_cli(value)),
            None => None,
        },
    };
    let paths = ArchivePaths::new(archive.storage_path.as_str(), &archive.metadata_log_path);
    Ok(
        PubSubRecorderConfig {
            service: archive.service.clone(),
            node_name: runtime.common.node_name.clone(),
            paths,
            settings,
        },
    )
}

/// Why a recorder of publish-subscribe samples stopped.
#[derive(Debug, Clone, Copy, PartialEq, Eq, Structural)]
pub enum PubSubRecorderStopReason {
    /// A control request.
    ControlStop,
    /// A signal.
    ShutdownRequested,
    /// The number of messages was reached.
    MaxMessages,
    /// The time was up.
    Timeout,
    /// Waiting was interrupted.
    WaitInterrupted,
}

/// The label of a reason to stop.
pub fn stop_reason_label(value: PubSubRecorderStopReason) -> (label: &'static str)
    ensures
        label@ == match value {
            PubSubRecorderStopReason::ControlStop => "ControlStop"@,
            PubSubRecorderStopReason::ShutdownRequested => "ShutdownRequested"@,
            PubSubRecorderStopReason::MaxMessages => "MaxMessages"@,
            PubSubRecorderStopReason::Timeout => "Timeout"@,
            PubSubRecorderStopReason::WaitInterrupted => "WaitInterrupted"@,
        },
{
    match value {
        PubSubRecorderStopReason::ControlStop => "ControlStop",
        PubSubRecorderStopReason::ShutdownRequested => "ShutdownRequested",
        PubSubRecorderStopReason::MaxMessages => "MaxMessages",
        PubSubRecorderStopReason::Timeout => "Timeout",
        PubSubRecorderStopReason::WaitInterrupted => "WaitInterrupted",
    }
}

/// Why a recorder of publish-subscribe samples failed.
#[derive(Debug)]
pub enum PubSubRecorderError {
    /// The configuration is not valid.
    InvalidInput(String),
    /// The service is not there.
    NotAvailable(String),
    /// The archive recorder failed.
    Recorder(ArchiveRecorderError),
    /// The transport failed.
    Iceoryx2(String),
}

/// What a failure of the archive recorder means for the tool.
pub open spec fn recorder_failure(error: ArchiveRecorderError) -> CommandFailure {
    match error {
        ArchiveRecorderError::SequenceNotMonotonic { previous, next } =>
            CommandFailure::InvalidInput(
            "monotonic sequence violation: sequence "@ + decimal(next as nat)
                + " is not greater than previous sequence "@ + decimal(previous as nat),
        ),
        other => CommandFailure::Recorder(other),
    }
}

/// Tells what a failure of the archive recorder means for the tool.
pub fn map_recorder_error(error: ArchiveRecorderError) -> (result: CommandError)
    ensures
        result@ == recorder_failure(error),
{
    match error {
        ArchiveRecorderError::SequenceNotMonotonic { previous, next } => {
            let mut message = "monotonic sequence violation: sequence ".to_owned();
            push_decimal(&mut message, next);
            push_text(&mut message, " is not greater than previous sequence ");
            push_decimal(&mut message, previous);
            CommandError::InvalidInput(message)
        },
        other => CommandError::Recorder(other),
    }
}

/// Tells what a failure of the recorder of publish-subscribe samples means for the tool.
pub fn map_pubsub_recorder_error(error: PubSubRecorderError) -> (result: CommandError)
    ensures
        result@ == match error {
            PubSubRecorderError::InvalidInput(message) => CommandFailure::InvalidInput(message@),
            PubSubRecorderError::NotAvailable(message) => CommandFailure::NotAvailable(message@),
            PubSubRecorderError::Recorder(error) => recorder_failure(error),
            PubSubRecorderError::Iceoryx2(message) => CommandFailure::Internal(message@),
        },
{
    match error {
        PubSubRecorderError::InvalidInput(message) => CommandError::InvalidInput(message),
        PubSubRecorderError::NotAvailable(message) => CommandError::NotAvailable(message),
        PubSubRecorderError::Recorder(error) => map_recorder_error(error),
        PubSubRecorderError::Iceoryx2(message) => CommandError::Internal(message),
    }
}

} // verus!
