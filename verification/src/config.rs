//! Configuring a recorder.

use crate::bytes::all_zero;
use crate::error::{ArchiveDirectory, ArchiveFile, ArchivePath, ArchiveRecorderError};
use crate::recorder::ArchiveRecorder;
use crate::startup::{
    archive_created, archive_recovered, create_new_archive, effective_backend, fresh_state,
    new_volatile_recorder, recorder_with, recover_existing_archive, Startup,
};
use crate::state::RecorderConfig;
use crate::store::{ArchiveStore, StoreModel};
use crate::types::{
    AsyncIoBackend, ChecksumMode, OutOfSpacePolicy, PersistenceMode, RecorderProfile,
};
use vstd::prelude::*;

verus! {

/// Size at which the commit log is rolled by default.
pub const DEFAULT_METADATA_LOG_ROLL_BYTES: u64 = 1024 * 1024 * 1024;

/// Default cap on the size of all commit logs.
pub const DEFAULT_METADATA_LOG_MAX_BYTES: u64 = 32 * 1024 * 1024 * 1024;

/// Number of entries for which room is reserved in the commit log at a time by default.
pub const DEFAULT_METADATA_LOG_PREALLOCATE_ENTRIES: usize = 4096;

/// The values that a profile gives to what is not set explicitly.
#[derive(Debug, Clone, Copy, PartialEq, Eq, Structural)]
pub struct ProfileDefaults {
    /// Size of a segment file.
    pub segment_bytes: usize,
    /// Number of segments that are prepared ahead.
    pub spare_preallocated_segments: usize,
    /// Durability mode.
    pub persistence_mode: PersistenceMode,
    /// Requested backend.
    pub async_io_backend: AsyncIoBackend,
    /// Depth of the ring.
    pub io_uring_queue_depth: u32,
    /// Most submissions per batch.
    pub io_submit_batch_max: u32,
    /// Most completions per batch.
    pub io_cqe_batch_max: u32,
    /// Files are registered with the ring.
    pub io_uring_register_files: bool,
    /// Size at which the commit log is rolled.
    pub metadata_log_roll_bytes: u64,
    /// Cap on the size of all commit logs.
    pub metadata_log_max_bytes: u64,
}

/// The defaults of a profile.
pub open spec fn defaults_of(profile: RecorderProfile) -> ProfileDefaults {
    let balanced = ProfileDefaults {
        segment_bytes: 268435456,
        spare_preallocated_segments: 1,
        persistence_mode: PersistenceMode::Async,
        async_io_backend: AsyncIoBackend::IoUringPreferred,
        io_uring_queue_depth: 256,
        io_submit_batch_max: 64,
        io_cqe_batch_max: 128,
        io_uring_register_files: true,
        metadata_log_roll_bytes: 1073741824,
        metadata_log_max_bytes: 34359738368,
    };
    match profile {
        RecorderProfile::Balanced | RecorderProfile::Replay => balanced,
        RecorderProfile::Durable => ProfileDefaults {
            persistence_mode: PersistenceMode::Sync,
            ..balanced
        },
        RecorderProfile::Throughput => ProfileDefaults {
            segment_bytes: 1073741824,
            spare_preallocated_segments: 2,
            async_io_backend: AsyncIoBackend::IoUringRequired,
            io_uring_queue_depth: 1024,
            io_submit_batch_max: 256,
            io_cqe_batch_max: 512,
            metadata_log_roll_bytes: 4294967296,
            ..balanced
        },
    }
}

/// The defaults of a profile.
pub fn profile_defaults(profile: RecorderProfile) -> (defaults: ProfileDefaults)
    ensures
        defaults == defaults_of(profile),
{
    let balanced = ProfileDefaults {
        segment_bytes: 256 * 1024 * 1024,
        spare_preallocated_segments: 1,
        persistence_mode: PersistenceMode::Async,
        async_io_backend: AsyncIoBackend::IoUringPreferred,
        io_uring_queue_depth: 256,
        io_submit_batch_max: 64,
        io_cqe_batch_max: 128,
        io_uring_register_files: true,
        metadata_log_roll_bytes: DEFAULT_METADATA_LOG_ROLL_BYTES,
        metadata_log_max_bytes: DEFAULT_METADATA_LOG_MAX_BYTES,
    };
    match profile {
        RecorderProfile::Balanced | RecorderProfile::Replay => balanced,
        RecorderProfile::Durable => ProfileDefaults {
            persistence_mode: PersistenceMode::Sync,
            ..balanced
        },
        RecorderProfile::Throughput => ProfileDefaults {
            segment_bytes: 1024 * 1024 * 1024,
            spare_preallocated_segments: 2,
            async_io_backend: AsyncIoBackend::IoUringRequired,
            io_uring_queue_depth: 1024,
            io_submit_batch_max: 256,
            io_cqe_batch_max: 512,
            metadata_log_roll_bytes: 4 * 1024 * 1024 * 1024,
            ..balanced
        },
    }
}

/// Builder for [`ArchiveRecorder`].
#[derive(Debug)]
pub struct ArchiveRecorderBuilder {
    /// Storage root.
    pub storage_path: String,
    /// Metadata-log root, where it is not the storage root.
    pub metadata_log_path: Option<String>,
    /// Profile.
    pub profile: RecorderProfile,
    /// Size of a segment file.
    pub segment_bytes: usize,
    /// The size of a segment file was set.
    pub segment_bytes_overridden: bool,
    /// Segments get their full size when they are opened.
    pub segment_preallocate: bool,
    /// Number of segments that are prepared ahead.
    pub spare_preallocated_segments: usize,
    /// The number of spare segments was set.
    pub spare_preallocated_segments_overridden: bool,
    /// Number of entries for which room is reserved in the commit log at a time.
    pub metadata_log_preallocate_entries: usize,
    /// Durability mode.
    pub persistence_mode: PersistenceMode,
    /// The durability mode was set.
    pub persistence_mode_overridden: bool,
    /// Requested backend.
    pub async_io_backend: AsyncIoBackend,
    /// The backend was set.
    pub async_io_backend_overridden: bool,
    /// Depth of the ring.
    pub io_uring_queue_depth: u32,
    /// The depth of the ring was set.
    pub io_uring_queue_depth_overridden: bool,
    /// Most submissions per batch.
    pub io_submit_batch_max: u32,
    /// The submission batch was set.
    pub io_submit_batch_max_overridden: bool,
    /// Most completions per batch.
    pub io_cqe_batch_max: u32,
    /// The completion batch was set.
    pub io_cqe_batch_max_overridden: bool,
    /// Files are registered with the ring.
    pub io_uring_register_files: bool,
    /// The registration of files was set.
    pub io_uring_register_files_overridden: bool,
    /// Checksum strategy.
    pub checksum_mode: ChecksumMode,
    /// What happens when no space is left.
    pub out_of_space_policy: OutOfSpacePolicy,
    /// Size at which the commit log is rolled.
    pub metadata_log_roll_bytes: u64,
    /// The roll size was set.
    pub metadata_log_roll_bytes_overridden: bool,
    /// Cap on the size of all commit logs.
    pub metadata_log_max_bytes: u64,
    /// The cap on the commit logs was set.
    pub metadata_log_max_bytes_overridden: bool,
    /// Cap on retained bytes.
    pub max_disk_bytes: Option<u64>,
    /// Identity of the log; all zeros where it is not set.
    pub log_id: [u8; 16],
    /// Generation of the segments.
    pub segment_generation: u32,
}

/// The value that was set, or else the default.
pub open spec fn kept_or<T>(overridden: bool, value: T, default_value: T) -> T {
    if overridden {
        value
    } else {
        default_value
    }
}

/// The value that was set, or else the default.
fn keep_or<T>(overridden: bool, value: T, default_value: T) -> (kept: T)
    ensures
        kept == kept_or(overridden, value, default_value),
{
    if overridden {
        value
    } else {
        default_value
    }
}

impl ArchiveRecorderBuilder {
    /// The builder with the defaults wherever nothing was set.
    pub open spec fn with_defaults(self, defaults: ProfileDefaults) -> ArchiveRecorderBuilder {
        ArchiveRecorderBuilder {
            segment_bytes: kept_or(
                self.segment_bytes_overridden,
                self.segment_bytes,
                defaults.segment_bytes,
            ),
            spare_preallocated_segments: kept_or(
                self.spare_preallocated_segments_overridden,
                self.spare_preallocated_segments,
                defaults.spare_preallocated_segments,
            ),
            persistence_mode: kept_or(
                self.persistence_mode_overridden,
                self.persistence_mode,
                defaults.persistence_mode,
            ),
            async_io_backend: kept_or(
                self.async_io_backend_overridden,
                self.async_io_backend,
                defaults.async_io_backend,
            ),
            io_uring_queue_depth: kept_or(
                self.io_uring_queue_depth_overridden,
                self.io_uring_queue_depth,
                defaults.io_uring_queue_depth,
            ),
            io_submit_batch_max: kept_or(
                self.io_submit_batch_max_overridden,
                self.io_submit_batch_max,
                defaults.io_submit_batch_max,
            ),
            io_cqe_batch_max: kept_or(
                self.io_cqe_batch_max_overridden,
                self.io_cqe_batch_max,
                defaults.io_cqe_batch_max,
            ),
            io_uring_register_files: kept_or(
                self.io_uring_register_files_overridden,
                self.io_uring_register_files,
                defaults.io_uring_register_files,
            ),
            metadata_log_roll_bytes: kept_or(
                self.metadata_log_roll_bytes_overridden,
                self.metadata_log_roll_bytes,
                defaults.metadata_log_roll_bytes,
            ),
            metadata_log_max_bytes: kept_or(
                self.metadata_log_max_bytes_overridden,
                self.metadata_log_max_bytes,
                defaults.metadata_log_max_bytes,
            ),
            ..self
        }
    }

    /// The backend and the ring sizes are the ones set, or those of the profile.
    pub open spec fn follows_profile(self) -> bool {
        self == self.with_defaults(defaults_of(self.profile))
    }

    /// No option was set: the values are those of the profile, and the fixed defaults.
    pub open spec fn has_defaults(self) -> bool {
        &&& self.follows_profile()
        &&& !self.segment_bytes_overridden
        &&& !self.spare_preallocated_segments_overridden
        &&& !self.persistence_mode_overridden
        &&& self.segment_preallocate
        &&& self.max_disk_bytes is None
        &&& self.has_other_defaults()
    }

    /// No option was set but the size of a segment, whether it is preallocated, the spare segments,
    /// the durability mode and the cap on retained bytes.
    pub open spec fn has_other_defaults(self) -> bool {
        &&& !self.async_io_backend_overridden
        &&& !self.io_uring_queue_depth_overridden
        &&& !self.io_submit_batch_max_overridden
        &&& !self.io_cqe_batch_max_overridden
        &&& !self.io_uring_register_files_overridden
        &&& !self.metadata_log_roll_bytes_overridden
        &&& !self.metadata_log_max_bytes_overridden
        &&& self.metadata_log_preallocate_entries == 4096
        &&& self.checksum_mode == ChecksumMode::Crc32c
        &&& self.out_of_space_policy == OutOfSpacePolicy::FailWriter
        &&& all_zero(self.log_id@)
        &&& self.segment_generation == 1
    }

    /// What is wrong with the values, if anything is.
    pub open spec fn problem(self) -> Option<&'static str> {
        if self.segment_bytes <= 148 {
            Some("segment_bytes is too small to store any frame")
        } else if self.metadata_log_preallocate_entries == 0 {
            Some("metadata_log_preallocate_entries must be > 0")
        } else if self.max_disk_bytes == Some(0u64) {
            Some("max_disk_bytes must be > 0 when configured")
        } else if self.io_uring_queue_depth == 0 {
            Some("io_uring_queue_depth must be > 0")
        } else if self.io_submit_batch_max == 0 {
            Some("io_submit_batch_max must be > 0")
        } else if self.io_cqe_batch_max == 0 {
            Some("io_cqe_batch_max must be > 0")
        } else if self.io_submit_batch_max > self.io_uring_queue_depth {
            Some("io_submit_batch_max must be <= io_uring_queue_depth")
        } else if self.io_cqe_batch_max > 2 * self.io_uring_queue_depth {
            Some("io_cqe_batch_max must be <= 2 * io_uring_queue_depth")
        } else if self.metadata_log_roll_bytes < 180 {
            Some("metadata_log_roll_bytes is too small")
        } else if self.metadata_log_max_bytes < self.metadata_log_roll_bytes {
            Some("metadata_log_max_bytes must be >= metadata_log_roll_bytes")
        } else if self.segment_generation == 0 {
            Some("segment_generation must be > 0")
        } else {
            None
        }
    }

    /// The configuration that the values stand for.
    pub open spec fn config(self) -> RecorderConfig {
        RecorderConfig {
            profile: self.profile,
            segment_bytes: self.segment_bytes,
            segment_preallocate: self.segment_preallocate,
            spare_preallocated_segments: self.spare_preallocated_segments,
            metadata_log_preallocate_entries: self.metadata_log_preallocate_entries,
            persistence_mode: self.persistence_mode,
            async_io_backend: self.async_io_backend,
            io_uring_queue_depth: self.io_uring_queue_depth,
            io_submit_batch_max: self.io_submit_batch_max,
            io_cqe_batch_max: self.io_cqe_batch_max,
            io_uring_register_files: self.io_uring_register_files,
            checksum_mode: self.checksum_mode,
            out_of_space_policy: self.out_of_space_policy,
            max_disk_bytes: self.max_disk_bytes,
            metadata_log_roll_bytes: self.metadata_log_roll_bytes,
            metadata_log_max_bytes: self.metadata_log_max_bytes,
            log_id: self.log_id,
            segment_generation: self.segment_generation,
        }
    }

    /// Creates a builder with throughput-oriented defaults.
    pub fn new(storage_path: &str) -> (builder: ArchiveRecorderBuilder)
        ensures
            builder.storage_path@ == storage_path@,
            builder.metadata_log_path is None,
            builder.profile == RecorderProfile::Balanced,
            builder.has_defaults(),
            builder.problem() is None,
    {
        let defaults = profile_defaults(RecorderProfile::Balanced);
        ArchiveRecorderBuilder {
            storage_path: storage_path.to_owned(),
            metadata_log_path: None,
            profile: RecorderProfile::Balanced,
            segment_bytes: defaults.segment_bytes,
            segment_bytes_overridden: false,
            segment_preallocate: true,
            spare_preallocated_segments: defaults.spare_preallocated_segments,
            spare_preallocated_segments_overridden: false,
            metadata_log_preallocate_entries: DEFAULT_METADATA_LOG_PREALLOCATE_ENTRIES,
            persistence_mode: defaults.persistence_mode,
            persistence_mode_overridden: false,
            async_io_backend: defaults.async_io_backend,
            async_io_backend_overridden: false,
            io_uring_queue_depth: defaults.io_uring_queue_depth,
            io_uring_queue_depth_overridden: false,
            io_submit_batch_max: defaults.io_submit_batch_max,
            io_submit_batch_max_overridden: false,
            io_cqe_batch_max: defaults.io_cqe_batch_max,
            io_cqe_batch_max_overridden: false,
            io_uring_register_files: defaults.io_uring_register_files,
            io_uring_register_files_overridden: false,
            checksum_mode: ChecksumMode::Crc32c,
            out_of_space_policy: OutOfSpacePolicy::FailWriter,
            metadata_log_roll_bytes: defaults.metadata_log_roll_bytes,
            metadata_log_roll_bytes_overridden: false,
            metadata_log_max_bytes: defaults.metadata_log_max_bytes,
            metadata_log_max_bytes_overridden: false,
            max_disk_bytes: None,
            log_id: [0; 16],
            segment_generation: 1,
        }
    }

    /// Takes over the defaults wherever nothing was set.
    #[verifier::spinoff_prover]
    #[verifier::rlimit(60)]
    pub fn apply_profile_defaults(&mut self, defaults: ProfileDefaults)
        ensures
            *final(self) == old(self).with_defaults(defaults),
    {
        self.segment_bytes =
        keep_or(self.segment_bytes_overridden, self.segment_bytes, defaults.segment_bytes);
        self.spare_preallocated_segments =
        keep_or(self.spare_preallocated_segments_overridden, self.spare_preallocated_segments, defaults.spare_preallocated_segments);
        self.persistence_mode =
        keep_or(self.persistence_mode_overridden, self.persistence_mode, defaults.persistence_mode);
        self.async_io_backend =
        keep_or(self.async_io_backend_overridden, self.async_io_backend, defaults.async_io_backend);
        self.io_uring_queue_depth =
        keep_or(self.io_uring_queue_depth_overridden, self.io_uring_queue_depth, defaults.io_uring_queue_depth);
        self.io_submit_batch_max =
        keep_or(self.io_submit_batch_max_overridden, self.io_submit_batch_max, defaults.io_submit_batch_max);
        self.io_cqe_batch_max =
        keep_or(self.io_cqe_batch_max_overridden, self.io_cqe_batch_max, defaults.io_cqe_batch_max);
        self.io_uring_register_files =
        keep_or(self.io_uring_register_files_overridden, self.io_uring_register_files, defaults.io_uring_register_files);
        self.metadata_log_roll_bytes =
        keep_or(self.metadata_log_roll_bytes_overridden, self.metadata_log_roll_bytes, defaults.metadata_log_roll_bytes);
        self.metadata_log_max_bytes =
        keep_or(self.metadata_log_max_bytes_overridden, self.metadata_log_max_bytes, defaults.metadata_log_max_bytes);
    }

    /// Configures recorder runtime profile defaults.
    pub fn profile(self, value: RecorderProfile) -> (result: ArchiveRecorderBuilder)
        ensures
            result == (ArchiveRecorderBuilder { profile: value, ..self }).with_defaults(
                defaults_of(value),
            ),
    {
        let mut built = self;
        built.profile = value;
        built.apply_profile_defaults(profile_defaults(value));
        built
    }

    /// Overrides metadata-log root path.
    pub fn metadata_log_path(self, value: &str) -> (result: ArchiveRecorderBuilder)
        ensures
            result.metadata_log_path is Some,
            result.metadata_log_path->Some_0@ == value@,
            result == (ArchiveRecorderBuilder {
                metadata_log_path: result.metadata_log_path,
                ..self
            }),
    {
        let mut built = self;
        built.metadata_log_path = Some(value.to_owned());
        built
    }

    /// Configures number of spare preallocated segments.
    pub fn spare_preallocated_segments(self, value: usize) -> (result: ArchiveRecorderBuilder)
        ensures
            result == (ArchiveRecorderBuilder {
                spare_preallocated_segments: value,
                spare_preallocated_segments_overridden: true,
                ..self
            }),
    {
        let mut built = self;
        built.spare_preallocated_segments_overridden = true;
        built.spare_preallocated_segments = value;
        built
    }

    /// Configures durability mode.
    pub fn persistence_mode(self, value: PersistenceMode) -> (result: ArchiveRecorderBuilder)
        ensures
            result == (ArchiveRecorderBuilder {
                persistence_mode: value,
                persistence_mode_overridden: true,
                ..self
            }),
    {
        let mut built = self;
        built.persistence_mode_overridden = true;
        built.persistence_mode = value;
        built
    }

    /// Configures async data-path backend selection.
    pub fn async_io_backend(self, value: AsyncIoBackend) -> (result: ArchiveRecorderBuilder)
        ensures
            result == (ArchiveRecorderBuilder {
                async_io_backend: value,
                async_io_backend_overridden: true,
                ..self
            }),
    {
        let mut built = self;
        built.async_io_backend_overridden = true;
        built.async_io_backend = value;
        built
    }

    /// Configures `io_uring` queue depth (Linux, when `IoUringPreferred` is used).
    pub fn io_uring_queue_depth(self, value: u32) -> (result: ArchiveRecorderBuilder)
        ensures
            result == (ArchiveRecorderBuilder {
                io_uring_queue_depth: value,
                io_uring_queue_depth_overridden: true,
                ..self
            }),
    {
        let mut built = self;
        built.io_uring_queue_depth_overridden = true;
        built.io_uring_queue_depth = value;
        built
    }

    /// Configures maximum io_uring submissions pushed per batch.
    pub fn io_submit_batch_max(self, value: u32) -> (result: ArchiveRecorderBuilder)
        ensures
            result == (ArchiveRecorderBuilder {
                io_submit_batch_max: value,
                io_submit_batch_max_overridden: true,
                ..self
            }),
    {
        let mut built = self;
        built.io_submit_batch_max_overridden = true;
        built.io_submit_batch_max = value;
        built
    }

    /// Configures completion reaping batch upper bound.
    pub fn io_cqe_batch_max(self, value: u32) -> (result: ArchiveRecorderBuilder)
        ensures
            result == (ArchiveRecorderBuilder {
                io_cqe_batch_max: value,
                io_cqe_batch_max_overridden: true,
                ..self
            }),
    {
        let mut built = self;
        built.io_cqe_batch_max_overridden = true;
        built.io_cqe_batch_max = value;
        built
    }

    /// Enables/disables io_uring registered-file mode.
    pub fn io_uring_register_files(self, value: bool) -> (result: ArchiveRecorderBuilder)
        ensures
            result == (ArchiveRecorderBuilder {
                io_uring_register_files: value,
                io_uring_register_files_overridden: true,
                ..self
            }),
    {
        let mut built = self;
        built.io_uring_register_files_overridden = true;
        built.io_uring_register_files = value;
        built
    }

    /// Configures active metadata-log roll size in bytes.
    pub fn metadata_log_roll_bytes(self, value: u64) -> (result: ArchiveRecorderBuilder)
        ensures
            result == (ArchiveRecorderBuilder {
                metadata_log_roll_bytes: value,
                metadata_log_roll_bytes_overridden: true,
                ..self
            }),
    {
        let mut built = self;
        built.metadata_log_roll_bytes_overridden = true;
        built.metadata_log_roll_bytes = value;
        built
    }

    /// Configures global metadata-log size cap in bytes.
    pub fn metadata_log_max_bytes(self, value: u64) -> (result: ArchiveRecorderBuilder)
        ensures
            result == (ArchiveRecorderBuilder {
                metadata_log_max_bytes: value,
                metadata_log_max_bytes_overridden: true,
                ..self
            }),
    {
        let mut built = self;
        built.metadata_log_max_bytes_overridden = true;
        built.metadata_log_max_bytes = value;
        built
    }

    /// Enables/disables segment preallocation.
    pub fn segment_preallocate(self, value: bool) -> (result: ArchiveRecorderBuilder)
        ensures
            result == (ArchiveRecorderBuilder { segment_preallocate: value, ..self }),
    {
        let mut built = self;
        built.segment_preallocate = value;
        built
    }

    /// Configures number of commit-log entries reserved in each metadata-log preallocation chunk.
    pub fn metadata_log_preallocate_entries(self, value: usize) -> (result: ArchiveRecorderBuilder)
        ensures
            result == (ArchiveRecorderBuilder { metadata_log_preallocate_entries: value, ..self }),
    {
        let mut built = self;
        built.metadata_log_preallocate_entries = value;
        built
    }

    /// Configures frame checksum mode.
    pub fn checksum_mode(self, value: ChecksumMode) -> (result: ArchiveRecorderBuilder)
        ensures
            result == (ArchiveRecorderBuilder { checksum_mode: value, ..self }),
    {
        let mut built = self;
        built.checksum_mode = value;
        built
    }

    /// Configures out-of-space policy.
    pub fn out_of_space_policy(self, value: OutOfSpacePolicy) -> (result: ArchiveRecorderBuilder)
        ensures
            result == (ArchiveRecorderBuilder { out_of_space_policy: value, ..self }),
    {
        let mut built = self;
        built.out_of_space_policy = value;
        built
    }

    /// Configures archive log id embedded into file headers.
    pub fn log_id(self, value: [u8; 16]) -> (result: ArchiveRecorderBuilder)
        ensures
            result == (ArchiveRecorderBuilder { log_id: value, ..self }),
    {
        let mut built = self;
        built.log_id = value;
        built
    }

    /// Configures segment generation value.
    pub fn segment_generation(self, value: u32) -> (result: ArchiveRecorderBuilder)
        ensures
            result == (ArchiveRecorderBuilder { segment_generation: value, ..self }),
    {
        let mut built = self;
        built.segment_generation = value;
        built
    }

    /// Configures global retained-bytes cap across hot and detached tiers.
    pub fn max_disk_bytes(self, value: u64) -> (result: ArchiveRecorderBuilder)
        ensures
            result == (ArchiveRecorderBuilder { max_disk_bytes: Some(value), ..self }),
    {
        let mut built = self;
        built.max_disk_bytes = Some(value);
        built
    }

    /// Configures segment byte size.
    pub fn segment_bytes(self, value: usize) -> (result: ArchiveRecorderBuilder)
        ensures
            result == (ArchiveRecorderBuilder {
                segment_bytes: value,
                segment_bytes_overridden: true,
                ..self
            }),
    {
        let mut built = self;
        built.segment_bytes_overridden = true;
        built.segment_bytes = value;
        built
    }

    /// The metadata-log root: the one that was set, or the storage root.
    pub fn metadata_root(&self) -> (path: String)
        ensures
            path@ == (match self.metadata_log_path {
                Some(path) => path@,
                None => self.storage_path@,
            }),
    {
        match &self.metadata_log_path {
            Some(path) => path.clone(),
            None => self.storage_path.clone(),
        }
    }

    /// Checks the values.
    pub fn build_config(&self) -> (result: Result<RecorderConfig, ArchiveRecorderError>)
        ensures
            result == (match self.problem() {
                Some(message) => Err::<RecorderConfig, ArchiveRecorderError>(
                    ArchiveRecorderError::InvalidConfiguration(message),
                ),
                None => Ok(self.config()),
            }),
            result is Ok ==> self.config().wf(),
    {
        let mut problem: Option<&'static str> = None;
        if self.segment_bytes <= 148 {
            problem = Some("segment_bytes is too small to store any frame");
        } else if self.metadata_log_preallocate_entries == 0 {
            problem = Some("metadata_log_preallocate_entries must be > 0");
        } else if is_zero_cap(self.max_disk_bytes) {
            problem = Some("max_disk_bytes must be > 0 when configured");
        } else if self.io_uring_queue_depth == 0 {
            problem = Some("io_uring_queue_depth must be > 0");
        } else if self.io_submit_batch_max == 0 {
            problem = Some("io_submit_batch_max must be > 0");
        } else if self.io_cqe_batch_max == 0 {
            problem = Some("io_cqe_batch_max must be > 0");
        } else if self.io_submit_batch_max > self.io_uring_queue_depth {
            problem = Some("io_submit_batch_max must be <= io_uring_queue_depth");
        } else if self.io_cqe_batch_max as u64 > 2 * self.io_uring_queue_depth as u64 {
            problem = Some("io_cqe_batch_max must be <= 2 * io_uring_queue_depth");
        } else if self.metadata_log_roll_bytes < 180 {
            problem = Some("metadata_log_roll_bytes is too small");
        } else if self.metadata_log_max_bytes < self.metadata_log_roll_bytes {
            problem = Some("metadata_log_max_bytes must be >= metadata_log_roll_bytes");
        } else if self.segment_generation == 0 {
            problem = Some("segment_generation must be > 0");
        }
        if let Some(message) = problem {
            return Err(ArchiveRecorderError::InvalidConfiguration(message));
        }
        Ok(
            RecorderConfig {
                profile: self.profile,
                segment_bytes: self.segment_bytes,
                segment_preallocate: self.segment_preallocate,
                spare_preallocated_segments: self.spare_preallocated_segments,
                metadata_log_preallocate_entries: self.metadata_log_preallocate_entries,
                persistence_mode: self.persistence_mode,
                async_io_backend: self.async_io_backend,
                io_uring_queue_depth: self.io_uring_queue_depth,
                io_submit_batch_max: self.io_submit_batch_max,
                io_cqe_batch_max: self.io_cqe_batch_max,
                io_uring_register_files: self.io_uring_register_files,
                checksum_mode: self.checksum_mode,
                out_of_space_policy: self.out_of_space_policy,
                max_disk_bytes: self.max_disk_bytes,
                metadata_log_roll_bytes: self.metadata_log_roll_bytes,
                metadata_log_max_bytes: self.metadata_log_max_bytes,
                log_id: self.log_id,
                segment_generation: self.segment_generation,
            },
        )
    }

    /// Creates a new recorder and fails when archive paths already exist.
    ///
    /// `ring_available` tells whether a ring could be set up, `now_ns` is the current time.
    pub fn create(self, store: &mut ArchiveStore, ring_available: bool, now_ns: u64) -> (result:
        Result<ArchiveRecorder, ArchiveRecorderError>)
        requires
            self.persistence_mode == PersistenceMode::Volatile ==> effective_backend(
                self.async_io_backend,
                ring_available,
            ) is Ok,
        ensures
            final(store).base() == old(store).base(),
            startup_possible(
                self,
                old(store)@,
                false,
                ring_available,
                now_ns,
                final(store)@,
                result,
            ),
    {
        self.create_internal(store, false, ring_available, now_ns)
    }

    /// Opens an existing recorder archive and runs startup recovery, or creates a new archive.
    ///
    /// `ring_available` tells whether a ring could be set up, `now_ns` is the current time.
    pub fn open_or_recover(
        self,
        store: &mut ArchiveStore,
        ring_available: bool,
        now_ns: u64,
    ) -> (result: Result<ArchiveRecorder, ArchiveRecorderError>)
        requires
            self.persistence_mode == PersistenceMode::Volatile ==> effective_backend(
                self.async_io_backend,
                ring_available,
            ) is Ok,
        ensures
            final(store).base() == old(store).base(),
            startup_possible(
                self,
                old(store)@,
                true,
                ring_available,
                now_ns,
                final(store)@,
                result,
            ),
    {
        self.create_internal(store, true, ring_available, now_ns)
    }

    /// Creates a new archive or takes up an existing one.
    fn create_internal(
        self,
        store: &mut ArchiveStore,
        recover_existing: bool,
        ring_available: bool,
        now_ns: u64,
    ) -> (result: Result<ArchiveRecorder, ArchiveRecorderError>)
        requires
            self.persistence_mode == PersistenceMode::Volatile ==> effective_backend(
                self.async_io_backend,
                ring_available,
            ) is Ok,
        ensures
            final(store).base() == old(store).base(),
            startup_possible(
                self,
                old(store)@,
                recover_existing,
                ring_available,
                now_ns,
                final(store)@,
                result,
            ),
    {
        let config = match self.build_config() {
            Ok(config) => config,
            Err(error) => {
                return Err(error);
            },
        };
        if config.persistence_mode == PersistenceMode::Volatile {
            return Ok(new_volatile_recorder(config, ring_available));
        }
        if store.contains(ArchiveFile::Catalog) || store.directory_exists(
            ArchiveDirectory::Segments,
        ) {
            if !recover_existing {
                return Err(
                    ArchiveRecorderError::ArchiveAlreadyExists(
                        ArchivePath::Directory(ArchiveDirectory::Storage),
                    ),
                );
            }
            return recover_existing_archive(config, store, ring_available, now_ns);
        }
        let result = create_new_archive(config, store, ring_available, now_ns);
        proof {
            let not_drawn = store@ == old(store)@ && result == Err::<
                ArchiveRecorder,
                ArchiveRecorderError,
            >(
                ArchiveRecorderError::InvalidConfiguration(
                    "failed to generate random archive log_id",
                ),
            );
            if all_zero(config.log_id@) && !not_drawn {
                let log_id = choose|log_id: [u8; 16]|
                    {
                        let startup = #[trigger] archive_created(
                            RecorderConfig { log_id, ..config },
                            old(store)@,
                            ring_available,
                            now_ns,
                        );
                        !all_zero(log_id@) && store@ == startup.store && startup.describes(result)
                    };
                assert(with_log_id(self, log_id).config() == (RecorderConfig { log_id, ..config }));
            }
        }
        result
    }
}

/// The cap is set to zero.
fn is_zero_cap(max_disk_bytes: Option<u64>) -> (zero: bool)
    ensures
        zero == (max_disk_bytes == Some(0u64)),
{
    match max_disk_bytes {
        Some(bytes) => bytes == 0,
        None => false,
    }
}

/// An archive is there.
pub open spec fn archive_exists(store: StoreModel) -> bool {
    store.has(ArchiveFile::Catalog) || store.directories.contains(ArchiveDirectory::Segments)
}

/// What starting a recorder leaves behind where nothing is left to chance: everything but the
/// creation of a new archive without a configured log id.
pub open spec fn startup_of(
    builder: ArchiveRecorderBuilder,
    store: StoreModel,
    recover_existing: bool,
    ring_available: bool,
    now_ns: u64,
) -> Startup {
    let config = builder.config();
    match builder.problem() {
        Some(message) => Startup {
            store,
            result: Err(ArchiveRecorderError::InvalidConfiguration(message)),
        },
        None => if config.persistence_mode == PersistenceMode::Volatile {
            Startup {
                store,
                result: Ok(
                    recorder_with(
                        fresh_state(
                            config,
                            effective_backend(config.async_io_backend, ring_available)->Ok_0,
                            None,
                        ),
                        Seq::empty(),
                    ),
                ),
            }
        } else if archive_exists(store) && !recover_existing {
            Startup {
                store,
                result: Err(
                    ArchiveRecorderError::ArchiveAlreadyExists(
                        ArchivePath::Directory(ArchiveDirectory::Storage),
                    ),
                ),
            }
        } else if archive_exists(store) {
            archive_recovered(config, store, ring_available, now_ns)
        } else {
            archive_created(config, store, ring_available, now_ns)
        },
    }
}

/// A log id is drawn when the recorder starts.
pub open spec fn draws_log_id(builder: ArchiveRecorderBuilder, store: StoreModel) -> bool {
    builder.problem() is None && builder.persistence_mode != PersistenceMode::Volatile
        && !archive_exists(store) && all_zero(builder.log_id@)
}

/// The builder with a log id.
pub open spec fn with_log_id(
    builder: ArchiveRecorderBuilder,
    log_id: [u8; 16],
) -> ArchiveRecorderBuilder {
    ArchiveRecorderBuilder { log_id, ..builder }
}

/// What starting a recorder can leave behind. Where a log id is drawn, this is what starting with
/// some id other than all zeros leaves behind, or the error that no id could be drawn.
pub open spec fn startup_possible(
    builder: ArchiveRecorderBuilder,
    store: StoreModel,
    recover_existing: bool,
    ring_available: bool,
    now_ns: u64,
    after: StoreModel,
    result: Result<ArchiveRecorder, ArchiveRecorderError>,
) -> bool {
    if draws_log_id(builder, store) {
        ||| after == store && result == Err::<ArchiveRecorder, ArchiveRecorderError>(
            ArchiveRecorderError::InvalidConfiguration("failed to generate random archive log_id"),
        )
        ||| exists|log_id: [u8; 16]|
            {
                let startup = startup_of(
                    #[trigger] with_log_id(builder, log_id),
                    store,
                    recover_existing,
                    ring_available,
                    now_ns,
                );
                !all_zero(log_id@) && after == startup.store && startup.describes(result)
            }
    } else {
        let startup = startup_of(builder, store, recover_existing, ring_available, now_ns);
        after == startup.store && startup.describes(result)
    }
}

/// A profile never overrides what was set explicitly, whichever comes first.
pub proof fn profile_keeps_overrides(builder: ArchiveRecorderBuilder, profile: RecorderProfile)
    ensures
        ({
            let built = (ArchiveRecorderBuilder { profile, ..builder }).with_defaults(
                defaults_of(profile),
            );
            &&& builder.segment_bytes_overridden ==> built.segment_bytes == builder.segment_bytes
            &&& builder.spare_preallocated_segments_overridden
                ==> built.spare_preallocated_segments == builder.spare_preallocated_segments
            &&& builder.persistence_mode_overridden ==> built.persistence_mode
                == builder.persistence_mode
            &&& builder.async_io_backend_overridden ==> built.async_io_backend
                == builder.async_io_backend
            &&& builder.io_uring_queue_depth_overridden ==> built.io_uring_queue_depth
                == builder.io_uring_queue_depth
            &&& builder.io_submit_batch_max_overridden ==> built.io_submit_batch_max
                == builder.io_submit_batch_max
            &&& builder.io_cqe_batch_max_overridden ==> built.io_cqe_batch_max
                == builder.io_cqe_batch_max
            &&& builder.io_uring_register_files_overridden ==> built.io_uring_register_files
                == builder.io_uring_register_files
            &&& builder.metadata_log_roll_bytes_overridden ==> built.metadata_log_roll_bytes
                == builder.metadata_log_roll_bytes
            &&& builder.metadata_log_max_bytes_overridden ==> built.metadata_log_max_bytes
                == builder.metadata_log_max_bytes
            &&& built.follows_profile()
        }),
{
}

} // verus!
