//! Reading records back from an archive.

use crate::commit_entry::CommitEntry;
use crate::commit_log::{all_entries, read_commit_entries};
use crate::error::{ArchiveDirectory, ArchiveFile, ArchivePath, ArchiveReplayError};
use crate::frame::{content_checksum, frame_at, frame_crc_from_payload, hot_data, read_frame};
use crate::maintenance::{create_pin_file, free_pin, pin_released};
use crate::order::{increasing, lower_bound, lower_bound_of, lower_bound_splits};
use crate::startup::sequences_of;
use crate::store::{ArchiveStore, StoreModel};
use crate::types::{
    frame_models, ArchiveCommitLogEntry, ArchiveLocator, ArchiveSegmentTier, FrameModel,
    ReplayBudget, ReplayPin, ReplayedFrame,
};
use vstd::prelude::*;

verus! {

/// The sequences of all entries.
pub open spec fn all_sequences(entries: Seq<CommitEntry>) -> Seq<u64> {
    sequences_of(entries, entries.len() as int)
}

/// The entry's segment is attached.
pub open spec fn is_hot(store: StoreModel, entry: CommitEntry) -> bool {
    store.has(hot_data(entry.locator.segment_id, entry.locator.segment_generation))
}

/// Those of the first `n` entries whose segments are attached, in order of their sequences.
pub open spec fn replay_index(store: StoreModel, entries: Seq<CommitEntry>, n: int) -> Result<
    Seq<CommitEntry>,
    ArchiveReplayError,
>
    decreases n,
{
    if n <= 0 {
        Ok(Seq::empty())
    } else {
        match replay_index(store, entries, n - 1) {
            Err(error) => Err(error),
            Ok(before) => {
                let entry = entries[n - 1];
                let at = lower_bound_of(all_sequences(before), entry.sequence);
                if !is_hot(store, entry) {
                    Ok(before)
                } else if at < before.len() && before[at].sequence == entry.sequence {
                    Err(ArchiveReplayError::DuplicateSequence(entry.sequence))
                } else {
                    Ok(before.insert(at, entry))
                }
            },
        }
    }
}

/// An error among the first entries is the error of all.
proof fn replay_index_fails(
    store: StoreModel,
    entries: Seq<CommitEntry>,
    i: int,
    n: int,
    error: ArchiveReplayError,
)
    requires
        0 <= i <= n <= entries.len(),
        replay_index(store, entries, i) == Err::<Seq<CommitEntry>, ArchiveReplayError>(error),
    ensures
        replay_index(store, entries, n) == Err::<Seq<CommitEntry>, ArchiveReplayError>(error),
    decreases n - i,
{
    if i < n {
        replay_index_fails(store, entries, i + 1, n, error);
    }
}

/// The index is in order of sequences, and holds exactly the entries whose segments are
/// attached.
pub proof fn replay_index_is_ordered(store: StoreModel, entries: Seq<CommitEntry>, n: int)
    requires
        0 <= n <= entries.len(),
        replay_index(store, entries, n) is Ok,
    ensures
        ({
            let index = replay_index(store, entries, n)->Ok_0;
            &&& increasing(all_sequences(index))
            &&& index.len() <= n
            &&& forall|e: CommitEntry|
                #[trigger] index.contains(e) <==> exists|i: int|
                    0 <= i < n && #[trigger] entries[i] == e && is_hot(store, e)
        }),
    decreases n,
{
    if n > 0 {
        replay_index_is_ordered(store, entries, n - 1);
        let before = replay_index(store, entries, n - 1)->Ok_0;
        let index = replay_index(store, entries, n)->Ok_0;
        let entry = entries[n - 1];
        let sequences = all_sequences(before);
        let at = lower_bound_of(sequences, entry.sequence);
        lower_bound_splits(sequences, entry.sequence);
        if is_hot(store, entry) {
            assert(index == before.insert(at, entry));
            let all = all_sequences(index);
            assert forall|i: int, j: int| #![trigger all[i], all[j]] 0 <= i < j < all.len() implies all[i]
                < all[j] by {
                let bi = if i < at { i } else { i - 1 };
                let bj = if j < at { j } else { j - 1 };
                if i == at {
                    assert(sequences[bj] >= entry.sequence);
                    assert(sequences[at] >= entry.sequence);
                    if bj > at {
                        assert(sequences[at] < sequences[bj]);
                    }
                } else if j == at {
                    assert(sequences[bi] < entry.sequence);
                } else {
                    assert(sequences[bi] < sequences[bj]);
                }
            }
        }
        assert forall|e: CommitEntry| #[trigger] index.contains(e) <==> exists|i: int|
            0 <= i < n && #[trigger] entries[i] == e && is_hot(store, e) by {
            if index.contains(e) {
                let k = choose|k: int| 0 <= k < index.len() && index[k] == e;
                if is_hot(store, entry) && k == at {
                    assert(entries[n - 1] == e);
                } else {
                    let bk = if is_hot(store, entry) && k > at { k - 1 } else { k };
                    assert(before[bk] == e);
                    assert(before.contains(e));
                    let i = choose|i: int|
                        0 <= i < n - 1 && #[trigger] entries[i] == e && is_hot(store, e);
                    assert(0 <= i < n && entries[i] == e);
                }
            }
            if exists|i: int| 0 <= i < n && #[trigger] entries[i] == e && is_hot(store, e) {
                let i = choose|i: int| 0 <= i < n && #[trigger] entries[i] == e && is_hot(store, e);
                if i == n - 1 {
                    assert(index[at] == e);
                } else {
                    assert(before.contains(e));
                    let k = choose|k: int| 0 <= k < before.len() && before[k] == e;
                    assert(index[if is_hot(store, entry) && k >= at { k + 1 } else { k }] == e);
                }
            }
        }
    }
}

/// Collects the entries whose segments are attached, in order of their sequences.
pub fn build_replay_index(store: &ArchiveStore, entries: &[CommitEntry]) -> (result: Result<
    Vec<CommitEntry>,
    ArchiveReplayError,
>)
    ensures
        match result {
            Ok(index) => replay_index(store@, entries@, entries@.len() as int) == Ok::<
                Seq<CommitEntry>,
                ArchiveReplayError,
            >(index@),
            Err(error) => replay_index(store@, entries@, entries@.len() as int) == Err::<
                Seq<CommitEntry>,
                ArchiveReplayError,
            >(error),
        },
{
    let mut index: Vec<CommitEntry> = Vec::new();
    let mut sequences: Vec<u64> = Vec::new();
    let n: usize = entries.len();
    assert(index@ =~= Seq::empty());
    assert(sequences@ =~= all_sequences(index@));
    for i in 0..n
        invariant
            n == entries@.len(),
            replay_index(store@, entries@, i as int) == Ok::<
                Seq<CommitEntry>,
                ArchiveReplayError,
            >(index@),
            sequences@ == all_sequences(index@),
    {
        let entry = entries[i];
        proof {
            replay_index_is_ordered(store@, entries@, i as int);
            lower_bound_splits(sequences@, entry.sequence);
        }
        let file = ArchiveFile::SegmentData {
            tier: ArchiveSegmentTier::HotAttached,
            segment_id: entry.locator.segment_id,
            segment_generation: entry.locator.segment_generation,
        };
        if store.contains(file) {
            let at: usize = lower_bound(&sequences, entry.sequence);
            if at < index.len() && index[at].sequence == entry.sequence {
                proof {
                    replay_index_fails(
                        store@,
                        entries@,
                        i + 1,
                        n as int,
                        ArchiveReplayError::DuplicateSequence(entry.sequence),
                    );
                }
                return Err(ArchiveReplayError::DuplicateSequence(entry.sequence));
            }
            index.insert(at, entry);
            sequences.insert(at, entry.sequence);
            assert(sequences@ =~= all_sequences(index@));
        }
    }
    Ok(index)
}

/// The entry of a sequence in the index, if there is one.
pub open spec fn indexed_entry(index: Seq<CommitEntry>, sequence: u64) -> Option<CommitEntry> {
    let at = lower_bound_of(all_sequences(index), sequence);
    if at < index.len() && index[at].sequence == sequence {
        Some(index[at])
    } else {
        None
    }
}

/// What reading the frame of a commit entry gives. Where checksums are verified, the frame's content
/// has to have the checksum that the entry keeps.
pub open spec fn entry_frame(store: StoreModel, entry: CommitEntry, verify: bool) -> Result<
    FrameModel,
    ArchiveReplayError,
> {
    match frame_at(store, entry.locator, verify) {
        Err(error) => Err(error),
        Ok(frame) => if !verify || entry.frame_checksum == 0 {
            Ok(frame)
        } else if 64 + frame.user_header.len() + frame.payload.len() + 7 > usize::MAX {
            Err(
                ArchiveReplayError::InvalidFrameLength {
                    expected: entry.locator.frame_len,
                    decoded: entry.locator.frame_len,
                },
            )
        } else if content_checksum(frame) != entry.frame_checksum {
            Err(
                ArchiveReplayError::ChecksumMismatch {
                    expected: entry.frame_checksum,
                    actual: content_checksum(frame),
                    locator: frame.locator,
                },
            )
        } else {
            Ok(frame)
        },
    }
}

/// Reads the frame of a commit entry.
pub fn read_frame_from_entry(store: &ArchiveStore, entry: &CommitEntry, verify: bool) -> (result:
    Result<ReplayedFrame, ArchiveReplayError>)
    ensures
        match result {
            Ok(frame) => entry_frame(store@, *entry, verify) == Ok::<FrameModel, ArchiveReplayError>(
                frame@,
            ),
            Err(error) => entry_frame(store@, *entry, verify) == Err::<FrameModel, ArchiveReplayError>(
                error,
            ),
        },
{
    let frame = match read_frame(store, entry.locator, verify) {
        Ok(frame) => frame,
        Err(error) => {
            return Err(error);
        },
    };
    if !verify || entry.frame_checksum == 0 {
        return Ok(frame);
    }
    let header_len: usize = frame.user_header.len();
    let payload_len: usize = frame.payload.len();
    if header_len > usize::MAX - 71 || payload_len > usize::MAX - 71 - header_len {
        return Err(
            ArchiveReplayError::InvalidFrameLength {
                expected: entry.locator.frame_len,
                decoded: entry.locator.frame_len,
            },
        );
    }
    let actual: u32 = frame_crc_from_payload(&frame, true);
    if actual != entry.frame_checksum {
        return Err(
            ArchiveReplayError::ChecksumMismatch {
                expected: entry.frame_checksum,
                actual,
                locator: frame.locator,
            },
        );
    }
    Ok(frame)
}

/// The frames of a batch, or an error, and the place behind the batch.
pub struct Batch {
    pub frames: Result<Seq<FrameModel>, ArchiveReplayError>,
    pub next: int,
}

/// The batch from `at` on, behind the frames already taken. It ends at the limit of records, or
/// before the frame that would pass the limit of bytes; the first frame is always taken.
pub open spec fn batch_from(
    store: StoreModel,
    index: Seq<CommitEntry>,
    at: int,
    max_records: int,
    max_bytes: int,
    taken: Seq<FrameModel>,
    bytes: int,
    verify: bool,
) -> Batch
    decreases index.len() - at,
{
    if at < 0 || at >= index.len() || taken.len() >= max_records || (taken.len() > 0 && bytes
        + index[at].locator.frame_len > max_bytes) {
        Batch { frames: Ok(taken), next: at }
    } else {
        match entry_frame(store, index[at], verify) {
            Err(error) => Batch { frames: Err(error), next: at },
            Ok(frame) => batch_from(
                store,
                index,
                at + 1,
                max_records,
                max_bytes,
                taken.push(frame),
                bytes + frame.locator.frame_len,
                verify,
            ),
        }
    }
}

/// The batch of a call that asks for `max_records` from `at` on.
pub open spec fn budgeted_batch(
    store: StoreModel,
    index: Seq<CommitEntry>,
    at: int,
    max_records: usize,
    budget: ReplayBudget,
    verify: bool,
) -> Batch {
    batch_from(
        store,
        index,
        at,
        smaller(max_records, budget.max_records_per_call) as int,
        budget.max_bytes_per_call as int,
        Seq::empty(),
        0,
        verify,
    )
}

/// The smaller number.
pub open spec fn smaller(a: usize, b: usize) -> usize {
    if a < b {
        a
    } else {
        b
    }
}

/// The total length of frames.
pub open spec fn total_len(frames: Seq<FrameModel>) -> int
    decreases frames.len(),
{
    if frames.len() == 0 {
        0
    } else {
        total_len(frames.drop_last()) + frames.last().locator.frame_len
    }
}

/// A frame that was read has the locator it was read at.
pub proof fn entry_frame_locator(store: StoreModel, entry: CommitEntry, verify: bool)
    requires
        entry_frame(store, entry, verify) is Ok,
    ensures
        entry_frame(store, entry, verify)->Ok_0.locator == entry.locator,
{
}

/// A batch never holds more records than asked for, and never more bytes than the budget allows,
/// unless it is a single frame. Its frames are those of consecutive index entries.
pub proof fn batch_keeps_budget(
    store: StoreModel,
    index: Seq<CommitEntry>,
    at: int,
    max_records: int,
    max_bytes: int,
    taken: Seq<FrameModel>,
    bytes: int,
    verify: bool,
)
    requires
        0 <= at <= index.len(),
        max_records >= 0,
        taken.len() <= max_records,
        bytes == total_len(taken),
        taken.len() <= 1 || bytes <= max_bytes,
        batch_from(store, index, at, max_records, max_bytes, taken, bytes, verify).frames is Ok,
    ensures
        ({
            let batch = batch_from(store, index, at, max_records, max_bytes, taken, bytes, verify);
            let frames = batch.frames->Ok_0;
            &&& at <= batch.next <= index.len()
            &&& frames.len() == taken.len() + (batch.next - at)
            &&& frames.len() <= max_records
            &&& frames.len() <= 1 || total_len(frames) <= max_bytes
            &&& forall|i: int| 0 <= i < taken.len() ==> #[trigger] frames[i] == taken[i]
            &&& forall|i: int|
                taken.len() <= i < frames.len() ==> entry_frame(
                    store,
                    index[at + (i - taken.len())],
                    verify,
                ) == Ok::<FrameModel, ArchiveReplayError>(#[trigger] frames[i])
        }),
    decreases index.len() - at,
{
    if at >= index.len() || taken.len() >= max_records || (taken.len() > 0 && bytes
        + index[at].locator.frame_len > max_bytes) {
    } else {
        let frame = entry_frame(store, index[at], verify)->Ok_0;
        entry_frame_locator(store, index[at], verify);
        let longer = taken.push(frame);
        assert(longer.drop_last() =~= taken);
        batch_keeps_budget(
            store,
            index,
            at + 1,
            max_records,
            max_bytes,
            longer,
            bytes + frame.locator.frame_len,
            verify,
        );
        let batch = batch_from(store, index, at, max_records, max_bytes, taken, bytes, verify);
        let frames = batch.frames->Ok_0;
        assert forall|i: int| taken.len() <= i < frames.len() implies entry_frame(
            store,
            index[at + (i - taken.len())],
            verify,
        ) == Ok::<FrameModel, ArchiveReplayError>(#[trigger] frames[i]) by {
            if i == taken.len() {
                assert(frames[i] == longer[i]);
            } else {
                assert(at + (i - taken.len()) == at + 1 + (i - longer.len()));
            }
        }
        assert forall|i: int| 0 <= i < taken.len() implies #[trigger] frames[i] == taken[i] by {
            assert(frames[i] == longer[i]);
        }
    }
}

/// Builder for [`ArchiveReplayer`].
#[derive(Debug)]
pub struct ArchiveReplayerBuilder {
    /// Storage root.
    pub storage_path: String,
    /// Metadata-log root, where it is not the storage root.
    pub metadata_log_path: Option<String>,
    /// Budget of the replayer.
    pub replay_budget: ReplayBudget,
    /// Checksums are verified.
    pub verify_checksums: bool,
}

impl ArchiveReplayerBuilder {
    /// Creates a replayer builder.
    pub fn new(storage_path: &str) -> (builder: ArchiveReplayerBuilder)
        ensures
            builder.storage_path@ == storage_path@,
            builder.metadata_log_path is None,
            builder.replay_budget.max_records_per_call == 1024,
            builder.replay_budget.max_bytes_per_call == 67108864,
            builder.verify_checksums,
    {
        ArchiveReplayerBuilder {
            storage_path: storage_path.to_owned(),
            metadata_log_path: None,
            replay_budget: ReplayBudget::default(),
            verify_checksums: true,
        }
    }

    /// Overrides metadata-log root path.
    pub fn metadata_log_path(self, value: &str) -> (result: ArchiveReplayerBuilder)
        ensures
            result.metadata_log_path is Some,
            result.metadata_log_path->Some_0@ == value@,
            result == (ArchiveReplayerBuilder {
                metadata_log_path: result.metadata_log_path,
                ..self
            }),
    {
        let mut built = self;
        built.metadata_log_path = Some(value.to_owned());
        built
    }

    /// Sets replay budget limits.
    pub fn replay_budget(self, value: ReplayBudget) -> (result: ArchiveReplayerBuilder)
        ensures
            result == (ArchiveReplayerBuilder { replay_budget: value, ..self }),
    {
        let mut built = self;
        built.replay_budget = value;
        built
    }

    /// Enables/disables checksum verification.
    pub fn verify_checksums(self, value: bool) -> (result: ArchiveReplayerBuilder)
        ensures
            result == (ArchiveReplayerBuilder { verify_checksums: value, ..self }),
    {
        let mut built = self;
        built.verify_checksums = value;
        built
    }

    /// Opens archive replayer.
    pub fn open(self, store: &ArchiveStore) -> (result: Result<
        ArchiveReplayer,
        ArchiveReplayError,
    >)
        ensures
            match result {
                Ok(replayer) => replayer_opened(self, store@) == Ok::<
                    ReplayerModel,
                    ArchiveReplayError,
                >(replayer@),
                Err(error) => replayer_opened(self, store@) == Err::<
                    ReplayerModel,
                    ArchiveReplayError,
                >(error),
            },
    {
        if !store.contains(ArchiveFile::CommitLog) {
            return Err(
                ArchiveReplayError::MissingCommitLog(ArchivePath::File(ArchiveFile::CommitLog)),
            );
        }
        let commit_log_entries = match read_commit_entries(store) {
            Ok(entries) => entries,
            Err(error) => {
                return Err(error);
            },
        };
        let index = match build_replay_index(store, &commit_log_entries) {
            Ok(index) => index,
            Err(error) => {
                return Err(error);
            },
        };
        let mut ordered_sequences: Vec<u64> = Vec::new();
        let n: usize = index.len();
        for i in 0..n
            invariant
                n == index@.len(),
                ordered_sequences@ == sequences_of(index@, i as int),
        {
            ordered_sequences.push(index[i].sequence);
            assert(ordered_sequences@ =~= sequences_of(index@, i + 1));
        }
        proof {
            replay_index_is_ordered(
                store@,
                commit_log_entries@,
                commit_log_entries@.len() as int,
            );
        }
        Ok(
            ArchiveReplayer {
                commit_log_entries,
                index,
                ordered_sequences,
                cursor: 0,
                replay_budget: self.replay_budget,
                verify_checksums: self.verify_checksums,
            },
        )
    }
}

/// Replayer core for archived segment data.
#[derive(Debug)]
pub struct ArchiveReplayer {
    commit_log_entries: Vec<CommitEntry>,
    index: Vec<CommitEntry>,
    ordered_sequences: Vec<u64>,
    cursor: usize,
    replay_budget: ReplayBudget,
    verify_checksums: bool,
}

/// The mathematical value of an [`ArchiveReplayer`].
#[verifier::ext_equal]
pub struct ReplayerModel {
    pub entries: Seq<CommitEntry>,
    pub index: Seq<CommitEntry>,
    pub cursor: int,
    pub budget: ReplayBudget,
    pub verify: bool,
}

impl View for ArchiveReplayer {
    type V = ReplayerModel;

    closed spec fn view(&self) -> ReplayerModel {
        ReplayerModel {
            entries: self.commit_log_entries@,
            index: self.index@,
            cursor: self.cursor as int,
            budget: self.replay_budget,
            verify: self.verify_checksums,
        }
    }
}

/// What opening a replayer gives.
pub open spec fn replayer_opened(builder: ArchiveReplayerBuilder, store: StoreModel) -> Result<
    ReplayerModel,
    ArchiveReplayError,
> {
    if !store.has(ArchiveFile::CommitLog) {
        Err(ArchiveReplayError::MissingCommitLog(ArchivePath::File(ArchiveFile::CommitLog)))
    } else {
        match all_entries(store) {
            Err(error) => Err(error),
            Ok(entries) => match replay_index(store, entries, entries.len() as int) {
                Err(error) => Err(error),
                Ok(index) => Ok(
                    ReplayerModel {
                        entries,
                        index,
                        cursor: 0,
                        budget: builder.replay_budget,
                        verify: builder.verify_checksums,
                    },
                ),
            },
        }
    }
}

/// What creating a pin makes of the store, and what comes of it.
pub open spec fn replay_pin_begun(
    store: StoreModel,
    sequence_start: u64,
    sequence_end: u64,
    now_ns: u64,
) -> (StoreModel, Result<ReplayPin, ArchiveReplayError>) {
    let opened = store.with_directory(ArchiveDirectory::Pins);
    if sequence_start > sequence_end {
        (
            store,
            Err(
                ArchiveReplayError::InvalidPinState(
                    "replay pin requires sequence_start <= sequence_end",
                ),
            ),
        )
    } else {
        match free_pin(opened, now_ns, 0, sequence_start, sequence_end) {
            None => (
                opened,
                Err(ArchiveReplayError::InvalidPinState("unable to allocate unique replay pin id")),
            ),
            Some(pin) => (opened.with_empty(ArchiveFile::Pin { pin }), Ok(pin)),
        }
    }
}

/// Why a locator cannot be read, if its form rules that out.
pub open spec fn locator_error(locator: ArchiveLocator) -> Option<ArchiveReplayError> {
    if locator.segment_generation == 0 {
        Some(ArchiveReplayError::InvalidConfiguration("locator segment_generation must be > 0"))
    } else {
        None
    }
}

/// Checks the form of a locator.
pub fn validate_locator_input(locator: ArchiveLocator) -> (result: Result<(), ArchiveReplayError>)
    ensures
        result == (match locator_error(locator) {
            Some(error) => Err::<(), ArchiveReplayError>(error),
            None => Ok(()),
        }),
{
    if locator.segment_generation == 0 {
        return Err(
            ArchiveReplayError::InvalidConfiguration("locator segment_generation must be > 0"),
        );
    }
    Ok(())
}

/// What reading a frame by its locator gives.
pub open spec fn located_frame(store: StoreModel, locator: ArchiveLocator, verify: bool) -> Result<
    FrameModel,
    ArchiveReplayError,
> {
    match locator_error(locator) {
        Some(error) => Err(error),
        None => frame_at(store, locator, verify),
    }
}

/// A replayer that does not verify checksums reads what one that does reads, where that one
/// succeeds, and never finds fault with a checksum.
pub proof fn unverified_reads_never_mismatch(
    store: StoreModel,
    entry: CommitEntry,
    locator: ArchiveLocator,
)
    ensures
        entry_frame(store, entry, true) is Ok ==> entry_frame(store, entry, false) == entry_frame(
            store,
            entry,
            true,
        ),
        located_frame(store, locator, true) is Ok ==> located_frame(store, locator, false)
            == located_frame(store, locator, true),
        !(entry_frame(store, entry, false) matches Err(
            ArchiveReplayError::ChecksumMismatch { .. },
        )),
        !(located_frame(store, locator, false) matches Err(
            ArchiveReplayError::ChecksumMismatch { .. },
        )),
{
}

/// The frames of the locators from `i` up to `limit`, behind the frames already taken.
pub open spec fn located_frames(
    store: StoreModel,
    locators: Seq<ArchiveLocator>,
    i: int,
    limit: int,
    max_bytes: int,
    taken: Seq<FrameModel>,
    bytes: int,
    verify: bool,
) -> Result<Seq<FrameModel>, ArchiveReplayError>
    decreases limit - i,
{
    if i >= limit {
        Ok(taken)
    } else {
        match locator_error(locators[i]) {
            Some(error) => Err(error),
            None => if taken.len() > 0 && bytes + locators[i].frame_len > max_bytes {
                Ok(taken)
            } else {
                match frame_at(store, locators[i], verify) {
                    Err(error) => Err(error),
                    Ok(frame) => located_frames(
                        store,
                        locators,
                        i + 1,
                        limit,
                        max_bytes,
                        taken.push(frame),
                        bytes + frame.locator.frame_len,
                        verify,
                    ),
                }
            },
        }
    }
}

/// The introspection view of an entry.
pub open spec fn entry_view(store: StoreModel, entry: CommitEntry) -> ArchiveCommitLogEntry {
    ArchiveCommitLogEntry {
        commit_ordinal: entry.commit_ordinal,
        sequence: entry.sequence,
        locator: entry.locator,
        frame_checksum: entry.frame_checksum,
        event_time_ns: entry.event_time_ns,
        commit_time_ns: entry.commit_time_ns,
        source_pattern: entry.source_pattern,
        source_service_id: entry.source_service_id,
        source_instance_id: entry.source_instance_id,
        source_sequence: entry.source_sequence,
        hot_attached: is_hot(store, entry),
    }
}

/// The views of those of the first `n` entries that reach an ordinal, up to a number of them.
pub open spec fn entry_views(
    store: StoreModel,
    entries: Seq<CommitEntry>,
    from_commit_ordinal: u64,
    max_entries: int,
    n: int,
) -> Seq<ArchiveCommitLogEntry>
    decreases n,
{
    if n <= 0 {
        Seq::empty()
    } else {
        let before = entry_views(store, entries, from_commit_ordinal, max_entries, n - 1);
        if entries[n - 1].commit_ordinal >= from_commit_ordinal && before.len() < max_entries {
            before.push(entry_view(store, entries[n - 1]))
        } else {
            before
        }
    }
}

/// A buffer that holds the frame last read into it.
#[derive(Debug)]
pub struct ReplayFrameBuffer {
    frame: Option<ReplayedFrame>,
}

impl ReplayFrameBuffer {
    /// The frame that the buffer holds.
    pub closed spec fn held(&self) -> Option<FrameModel> {
        match self.frame {
            Some(frame) => Some(frame@),
            None => None,
        }
    }

    /// Creates an empty buffer.
    pub fn new() -> (buffer: ReplayFrameBuffer)
        ensures
            buffer.held() is None,
    {
        ReplayFrameBuffer { frame: None }
    }

    /// The frame that the buffer holds.
    pub fn frame(&self) -> (frame: Option<&ReplayedFrame>)
        ensures
            match frame {
                Some(frame) => self.held() == Some(frame@),
                None => self.held() is None,
            },
    {
        match &self.frame {
            Some(frame) => Some(frame),
            None => None,
        }
    }
}

impl ArchiveReplayer {
    #[verifier::type_invariant]
    spec fn inv(self) -> bool {
        &&& self.ordered_sequences@ == all_sequences(self.index@)
        &&& increasing(self.ordered_sequences@)
    }

    /// Returns current replay budget.
    pub fn replay_budget(&self) -> (budget: ReplayBudget)
        ensures
            budget == self@.budget,
    {
        self.replay_budget
    }

    /// Sets replay budget.
    pub fn set_replay_budget(&mut self, value: ReplayBudget)
        ensures
            final(self)@ == (ReplayerModel { budget: value, ..old(self)@ }),
    {
        proof {
            use_type_invariant(&*self);
        }
        self.replay_budget = value;
    }

    /// The sequences that can be replayed, in order.
    pub fn sequences(&self) -> (sequences: &[u64])
        ensures
            sequences@ == all_sequences(self@.index),
            increasing(sequences@),
    {
        proof {
            use_type_invariant(self);
        }
        self.ordered_sequences.as_slice()
    }

    /// Begins a snapshot pin that protects the current replay window from retention trim.
    pub fn begin_snapshot(&self, store: &mut ArchiveStore, now_ns: u64) -> (result: Result<
        ReplayPin,
        ArchiveReplayError,
    >)
        ensures
            final(store).base() == old(store).base(),
            ({
                let index = self@.index;
                if index.len() == 0 {
                    final(store)@ == old(store)@ && result == Err::<ReplayPin, ArchiveReplayError>(
                        ArchiveReplayError::InvalidPinState(
                            "cannot create snapshot pin for empty archive",
                        ),
                    )
                } else {
                    (final(store)@, result) == replay_pin_begun(
                        old(store)@,
                        index[0].sequence,
                        index.last().sequence,
                        now_ns,
                    )
                }
            }),
    {
        let n: usize = self.index.len();
        if n == 0 {
            return Err(
                ArchiveReplayError::InvalidPinState("cannot create snapshot pin for empty archive"),
            );
        }
        let sequence_start: u64 = self.index[0].sequence;
        let sequence_end: u64 = self.index[n - 1].sequence;
        self.begin_pin(store, sequence_start, sequence_end, now_ns)
    }

    /// Begins a replay pin for the provided inclusive sequence range.
    pub fn begin_pin(
        &self,
        store: &mut ArchiveStore,
        sequence_start: u64,
        sequence_end: u64,
        now_ns: u64,
    ) -> (result: Result<ReplayPin, ArchiveReplayError>)
        ensures
            final(store).base() == old(store).base(),
            (final(store)@, result) == replay_pin_begun(
                old(store)@,
                sequence_start,
                sequence_end,
                now_ns,
            ),
    {
        if sequence_start > sequence_end {
            return Err(
                ArchiveReplayError::InvalidPinState(
                    "replay pin requires sequence_start <= sequence_end",
                ),
            );
        }
        store.create_directory(ArchiveDirectory::Pins, "create replay pin directory");
        match create_pin_file(store, now_ns, sequence_start, sequence_end) {
            Some(pin) => Ok(pin),
            None => Err(
                ArchiveReplayError::InvalidPinState("unable to allocate unique replay pin id"),
            ),
        }
    }

    /// Releases a previously created snapshot/replay pin. Idempotent.
    pub fn release_snapshot(&self, store: &mut ArchiveStore, pin: ReplayPin) -> (result: Result<
        (),
        ArchiveReplayError,
    >)
        ensures
            final(store).base() == old(store).base(),
            result is Ok,
            final(store)@ == pin_released(old(store)@, pin),
    {
        let _ = store.remove(ArchiveFile::Pin { pin }, "remove replay pin file");
        Ok(())
    }

    /// Reads a record by source sequence.
    pub fn read_at_sequence(&self, store: &ArchiveStore, sequence: u64) -> (result: Result<
        Option<ReplayedFrame>,
        ArchiveReplayError,
    >)
        ensures
            match indexed_entry(self@.index, sequence) {
                None => result == Ok::<Option<ReplayedFrame>, ArchiveReplayError>(None),
                Some(entry) => match result {
                    Ok(frame) => frame is Some && entry_frame(store@, entry, self@.verify) == Ok::<
                        FrameModel,
                        ArchiveReplayError,
                    >(frame->Some_0@),
                    Err(error) => entry_frame(store@, entry, self@.verify) == Err::<
                        FrameModel,
                        ArchiveReplayError,
                    >(error),
                },
            },
    {
        proof {
            use_type_invariant(self);
        }
        let at: usize = lower_bound(&self.ordered_sequences, sequence);
        if at >= self.index.len() || self.index[at].sequence != sequence {
            return Ok(None);
        }
        match read_frame_from_entry(store, &self.index[at], self.verify_checksums) {
            Ok(frame) => Ok(Some(frame)),
            Err(error) => Err(error),
        }
    }

    /// Reads a batch of records from a place in the index.
    fn read_batch(&self, store: &ArchiveStore, start: usize, max_records: usize) -> (result: (
        Result<Vec<ReplayedFrame>, ArchiveReplayError>,
        usize,
    ))
        ensures
            ({
                let batch = budgeted_batch(
                    store@,
                    self@.index,
                    start as int,
                    max_records,
                    self@.budget,
                    self@.verify,
                );
                &&& result.1 == batch.next
                &&& match result.0 {
                    Ok(frames) => batch.frames == Ok::<Seq<FrameModel>, ArchiveReplayError>(
                        frame_models(frames@),
                    ),
                    Err(error) => batch.frames == Err::<Seq<FrameModel>, ArchiveReplayError>(
                        error,
                    ),
                }
            }),
    {
        let limit: usize = if max_records < self.replay_budget.max_records_per_call {
            max_records
        } else {
            self.replay_budget.max_records_per_call
        };
        let max_bytes: usize = self.replay_budget.max_bytes_per_call;
        let mut records: Vec<ReplayedFrame> = Vec::new();
        let mut bytes: u64 = 0;
        let mut at: usize = start;
        assert(frame_models(records@) =~= Seq::empty());
        while at < self.index.len() && records.len() < limit
            invariant_except_break
                start <= at,
                bytes <= max_bytes || records@.len() == 1,
                bytes <= max_bytes || bytes <= u32::MAX,
                records@.len() == 0 ==> bytes == 0,
                max_bytes == self@.budget.max_bytes_per_call,
                limit == smaller(max_records, self@.budget.max_records_per_call),
                budgeted_batch(store@, self@.index, start as int, max_records, self@.budget, self@.verify)
                    == batch_from(
                    store@,
                    self@.index,
                    at as int,
                    limit as int,
                    max_bytes as int,
                    frame_models(records@),
                    bytes as int,
                    self@.verify,
                ),
            ensures
                budgeted_batch(store@, self@.index, start as int, max_records, self@.budget, self@.verify) == (
                Batch { frames: Ok(frame_models(records@)), next: at as int }),
            decreases self@.index.len() - at,
        {
            let frame_len: u64 = self.index[at].locator.frame_len as u64;
            if records.len() > 0 && (bytes > max_bytes as u64 || frame_len > max_bytes as u64
                - bytes) {
                break;
            }
            let frame = match read_frame_from_entry(store, &self.index[at], self.verify_checksums) {
                Ok(frame) => frame,
                Err(error) => {
                    return (Err(error), at);
                },
            };
            proof {
                entry_frame_locator(store@, self@.index[at as int], self@.verify);
            }
            bytes = bytes + frame.locator.frame_len as u64;
            let ghost before = frame_models(records@);
            let ghost model = frame@;
            records.push(frame);
            assert(frame_models(records@) =~= before.push(model));
            at = at + 1;
        }
        (Ok(records), at)
    }

    /// Reads multiple records starting from `start_sequence`.
    pub fn read_range(&self, store: &ArchiveStore, start_sequence: u64, max_records: usize) -> (
        result: Result<Vec<ReplayedFrame>, ArchiveReplayError>)
        ensures
            ({
                let start = lower_bound_of(all_sequences(self@.index), start_sequence);
                let batch = budgeted_batch(store@, self@.index, start, max_records, self@.budget, self@.verify);
                match result {
                    Ok(frames) => batch.frames == Ok::<Seq<FrameModel>, ArchiveReplayError>(
                        frame_models(frames@),
                    ),
                    Err(error) => batch.frames == Err::<Seq<FrameModel>, ArchiveReplayError>(
                        error,
                    ),
                }
            }),
    {
        proof {
            use_type_invariant(self);
        }
        let start: usize = lower_bound(&self.ordered_sequences, start_sequence);
        self.read_batch(store, start, max_records).0
    }

    /// Positions cursor to the first sequence `>= sequence`.
    pub fn seek(&mut self, sequence: u64)
        ensures
            final(self)@ == (ReplayerModel {
                cursor: lower_bound_of(all_sequences(old(self)@.index), sequence),
                ..old(self)@
            }),
    {
        proof {
            use_type_invariant(&*self);
        }
        let at: usize = lower_bound(&self.ordered_sequences, sequence);
        self.cursor = at;
    }

    /// Reads next record from cursor and advances it.
    pub fn next(&mut self, store: &ArchiveStore) -> (result: Result<
        Option<ReplayedFrame>,
        ArchiveReplayError,
    >)
        ensures
            ({
                let at = old(self)@.cursor;
                let index = old(self)@.index;
                if at >= index.len() {
                    final(self)@ == old(self)@ && result == Ok::<
                        Option<ReplayedFrame>,
                        ArchiveReplayError,
                    >(None)
                } else {
                    &&& final(self)@ == (ReplayerModel { cursor: at + 1, ..old(self)@ })
                    &&& match result {
                        Ok(frame) => frame is Some && entry_frame(store@, index[at], old(self)@.verify) == Ok::<
                            FrameModel,
                            ArchiveReplayError,
                        >(frame->Some_0@),
                        Err(error) => entry_frame(store@, index[at], old(self)@.verify) == Err::<
                            FrameModel,
                            ArchiveReplayError,
                        >(error),
                    }
                }
            }),
    {
        proof {
            use_type_invariant(&*self);
        }
        let at: usize = self.cursor;
        if at >= self.index.len() {
            return Ok(None);
        }
        self.cursor = at + 1;
        match read_frame_from_entry(store, &self.index[at], self.verify_checksums) {
            Ok(frame) => Ok(Some(frame)),
            Err(error) => Err(error),
        }
    }

    /// Reads next batch with replay budget limits.
    pub fn next_batch(&mut self, store: &ArchiveStore, max_records: usize) -> (result: Result<
        Vec<ReplayedFrame>,
        ArchiveReplayError,
    >)
        ensures
            ({
                let batch = budgeted_batch(
                    store@,
                    old(self)@.index,
                    old(self)@.cursor,
                    max_records,
                    old(self)@.budget,
                    old(self)@.verify,
                );
                &&& final(self)@ == (ReplayerModel { cursor: batch.next, ..old(self)@ })
                &&& match result {
                    Ok(frames) => batch.frames == Ok::<Seq<FrameModel>, ArchiveReplayError>(
                        frame_models(frames@),
                    ),
                    Err(error) => batch.frames == Err::<Seq<FrameModel>, ArchiveReplayError>(
                        error,
                    ),
                }
            }),
    {
        proof {
            use_type_invariant(&*self);
        }
        let (result, next) = self.read_batch(store, self.cursor, max_records);
        self.cursor = next;
        result
    }

    /// Reads one frame via physical locator.
    pub fn read_at_locator(&self, store: &ArchiveStore, locator: ArchiveLocator) -> (result: Result<
        ReplayedFrame,
        ArchiveReplayError,
    >)
        ensures
            match result {
                Ok(frame) => located_frame(store@, locator, self@.verify) == Ok::<
                    FrameModel,
                    ArchiveReplayError,
                >(frame@),
                Err(error) => located_frame(store@, locator, self@.verify) == Err::<
                    FrameModel,
                    ArchiveReplayError,
                >(error),
            },
    {
        match validate_locator_input(locator) {
            Ok(()) => read_frame(store, locator, self.verify_checksums),
            Err(error) => Err(error),
        }
    }

    /// Reads one frame via physical locator into a buffer, which is left as it was where that
    /// fails.
    pub fn read_at_locator_into(
        &self,
        store: &ArchiveStore,
        locator: ArchiveLocator,
        buffer: &mut ReplayFrameBuffer,
    ) -> (result: Result<(), ArchiveReplayError>)
        ensures
            match located_frame(store@, locator, self@.verify) {
                Ok(frame) => result is Ok && final(buffer).held() == Some(frame),
                Err(error) => result == Err::<(), ArchiveReplayError>(error)
                    && final(buffer).held() == old(buffer).held(),
            },
    {
        match self.read_at_locator(store, locator) {
            Ok(frame) => {
                buffer.frame = Some(frame);
                Ok(())
            },
            Err(error) => Err(error),
        }
    }

    /// Returns commit-log entries for CLI/admin introspection.
    ///
    /// Entries are ordered by `commit_ordinal`.
    pub fn inspect_commit_log_entries(
        &self,
        store: &ArchiveStore,
        from_commit_ordinal: u64,
        max_entries: usize,
    ) -> (views: Vec<ArchiveCommitLogEntry>)
        ensures
            views@ == entry_views(
                store@,
                self@.entries,
                from_commit_ordinal,
                max_entries as int,
                self@.entries.len() as int,
            ),
    {
        let mut views: Vec<ArchiveCommitLogEntry> = Vec::new();
        let n: usize = self.commit_log_entries.len();
        assert(views@ =~= Seq::empty());
        for i in 0..n
            invariant
                n == self.commit_log_entries@.len(),
                views@ == entry_views(
                    store@,
                    self.commit_log_entries@,
                    from_commit_ordinal,
                    max_entries as int,
                    i as int,
                ),
        {
            let entry = self.commit_log_entries[i];
            if entry.commit_ordinal >= from_commit_ordinal && views.len() < max_entries {
                let file = ArchiveFile::SegmentData {
                    tier: ArchiveSegmentTier::HotAttached,
                    segment_id: entry.locator.segment_id,
                    segment_generation: entry.locator.segment_generation,
                };
                views.push(
                    ArchiveCommitLogEntry {
                        commit_ordinal: entry.commit_ordinal,
                        sequence: entry.sequence,
                        locator: entry.locator,
                        frame_checksum: entry.frame_checksum,
                        event_time_ns: entry.event_time_ns,
                        commit_time_ns: entry.commit_time_ns,
                        source_pattern: entry.source_pattern,
                        source_service_id: entry.source_service_id,
                        source_instance_id: entry.source_instance_id,
                        source_sequence: entry.source_sequence,
                        hot_attached: store.contains(file),
                    },
                );
            }
        }
        views
    }

    /// Reads multiple frames via locators preserving caller-provided order.
    pub fn read_many_locators(&self, store: &ArchiveStore, locators: &[ArchiveLocator]) -> (result:
        Result<Vec<ReplayedFrame>, ArchiveReplayError>)
        ensures
            ({
                let limit = smaller(
                    locators@.len() as usize,
                    self@.budget.max_records_per_call,
                );
                let frames = located_frames(
                    store@,
                    locators@,
                    0,
                    limit as int,
                    self@.budget.max_bytes_per_call as int,
                    Seq::empty(),
                    0,
                    self@.verify,
                );
                match result {
                    Ok(list) => frames == Ok::<Seq<FrameModel>, ArchiveReplayError>(
                        frame_models(list@),
                    ),
                    Err(error) => frames == Err::<Seq<FrameModel>, ArchiveReplayError>(error),
                }
            }),
    {
        let limit: usize = if locators.len() < self.replay_budget.max_records_per_call {
            locators.len()
        } else {
            self.replay_budget.max_records_per_call
        };
        let max_bytes: usize = self.replay_budget.max_bytes_per_call;
        let mut frames: Vec<ReplayedFrame> = Vec::new();
        let mut bytes: u64 = 0;
        let ghost all = located_frames(
            store@,
            locators@,
            0,
            limit as int,
            max_bytes as int,
            Seq::empty(),
            0,
            self@.verify,
        );
        assert(frame_models(frames@) =~= Seq::empty());
        let mut i: usize = 0;
        while i < limit
            invariant
                i <= limit <= locators@.len(),
                bytes <= max_bytes || frames@.len() == 1,
                bytes <= max_bytes || bytes <= u32::MAX,
                frames@.len() == 0 ==> bytes == 0,
                all == located_frames(
                    store@,
                    locators@,
                    i as int,
                    limit as int,
                    max_bytes as int,
                    frame_models(frames@),
                    bytes as int,
                    self@.verify,
                ),
                all == located_frames(
                    store@,
                    locators@,
                    0,
                    smaller(
                        locators@.len() as usize,
                        self@.budget.max_records_per_call,
                    ) as int,
                    self@.budget.max_bytes_per_call as int,
                    Seq::empty(),
                    0,
                    self@.verify,
                ),
            decreases limit - i,
        {
            let locator = locators[i];
            match validate_locator_input(locator) {
                Ok(()) => {},
                Err(error) => {
                    return Err(error);
                },
            }
            let frame_len: u64 = locator.frame_len as u64;
            if frames.len() > 0 && (bytes > max_bytes as u64 || frame_len > max_bytes as u64
                - bytes) {
                return Ok(frames);
            }
            let frame = match read_frame(store, locator, self.verify_checksums) {
                Ok(frame) => frame,
                Err(error) => {
                    return Err(error);
                },
            };
            bytes = bytes + frame.locator.frame_len as u64;
            let ghost before = frame_models(frames@);
            let ghost model = frame@;
            frames.push(frame);
            assert(frame_models(frames@) =~= before.push(model));
            i = i + 1;
        }
        Ok(frames)
    }
}

} // verus!
