//! Records are numbered from one on, without a gap.

use crate::adapter::{adapter_metadata, adapter_user_header};
use crate::bytes::all_zero;
use crate::commit_entry::CommitEntry;
use crate::config::{startup_of, startup_possible, with_log_id, ArchiveRecorderBuilder};
use crate::error::{ArchiveFile, ArchiveRecorderError};
use crate::guarantees::append_keeps_recorder_ready;
use crate::history::{
    append_extends_history, appended_entry, created_archive_has_no_history, history,
    published_sample_is_replayed,
    segment_opened_leaves_logs,
};
use crate::recorder::{
    next_sequence, publish_subscribe_appended, publish_subscribe_source, segment_opened_keeps,
    ArchiveRecorder, Outcome, RecordModel, RecorderModel,
};
use crate::replayer::{entry_frame, indexed_entry, replayer_opened, ArchiveReplayerBuilder};
use crate::startup::{
    archive_created, archive_files_created, effective_backend, fresh_state,
};
use crate::state::{segment_opened, DiskRecorderState, RecorderConfig, RecorderState};
use crate::store::StoreModel;
use crate::types::{
    ArchiveSourceMetadata, ArchiveSourcePattern, PersistenceMode, PublishSubscribeRecordInput,
    RecordedCommit,
};
use vstd::prelude::*;

verus! {

/// The recorder has numbered exactly `n` records.
pub open spec fn has_recorded(state: RecorderState, n: int) -> bool {
    &&& state.next_commit_ordinal == n + 1
    &&& match state.last_sequence {
        None => n == 0,
        Some(last) => n > 0 && last == n,
    }
}

/// A new archive has recorded nothing.
proof fn created_archive_has_recorded_nothing(
    config: RecorderConfig,
    store: StoreModel,
    ring_available: bool,
    now_ns: u64,
)
    requires
        config.wf(),
        config.persistence_mode != PersistenceMode::Volatile,
        archive_created(config, store, ring_available, now_ns).result is Ok,
    ensures
        ({
            let recorder = archive_created(config, store, ring_available, now_ns).result->Ok_0;
            has_recorded(recorder.state, 0) && recorder.accepts_calls()
        }),
{
    reveal(archive_created);
    let (prepared, reserved) = archive_files_created(config, store, now_ns);
    let disk = DiskRecorderState {
        commit_log_write_offset: 76,
        commit_log_preallocated_len: reserved->Ok_0,
        commit_log_roll_index: 1,
        active_segment: None,
    };
    let backend = effective_backend(config.async_io_backend, ring_available)->Ok_0;
    let fresh = fresh_state(config, backend, Some(disk));
    segment_opened_leaves_logs(fresh, prepared, 1, now_ns);
    segment_opened_keeps(fresh, prepared, 1, now_ns);
}

/// A recorder that was created has recorded nothing, and takes records. One with files starts with
/// an empty history, where no rolled commit log is left of another archive.
pub proof fn created_recorder_has_recorded_nothing(
    builder: ArchiveRecorderBuilder,
    store: StoreModel,
    ring_available: bool,
    now_ns: u64,
    after: StoreModel,
    recorder: ArchiveRecorder,
)
    requires
        startup_possible(
            builder,
            store,
            false,
            ring_available,
            now_ns,
            after,
            Ok::<ArchiveRecorder, ArchiveRecorderError>(recorder),
        ),
    ensures
        has_recorded(recorder@.state, 0),
        recorder@.accepts_calls(),
        builder.persistence_mode != PersistenceMode::Volatile && (forall|index: u64|
            !#[trigger] store.has(ArchiveFile::RolledCommitLog { index })) ==> history(
            recorder@.state,
            after,
            Seq::empty(),
        ),
{
    let plain = startup_of(builder, store, false, ring_available, now_ns);
    let alone = forall|index: u64|
        !#[trigger] store.has(ArchiveFile::RolledCommitLog { index });
    if plain.describes(Ok(recorder)) && after == plain.store {
        if builder.persistence_mode != PersistenceMode::Volatile {
            created_archive_has_recorded_nothing(builder.config(), store, ring_available, now_ns);
            if alone {
                created_archive_has_no_history(builder.config(), store, ring_available, now_ns);
            }
        }
    } else {
        let log_id = choose|log_id: [u8; 16]|
            {
                let startup = startup_of(
                    #[trigger] with_log_id(builder, log_id),
                    store,
                    false,
                    ring_available,
                    now_ns,
                );
                !all_zero(log_id@) && after == startup.store && startup.describes(Ok(recorder))
            };
        let config = with_log_id(builder, log_id).config();
        created_archive_has_recorded_nothing(config, store, ring_available, now_ns);
        if alone {
            created_archive_has_no_history(config, store, ring_available, now_ns);
        }
    }
}

/// The first `n` samples are appended one after the other, as long as that succeeds.
pub open spec fn all_published(
    recorder: RecorderModel,
    store: StoreModel,
    inputs: Seq<(PublishSubscribeRecordInput<'_>, u64)>,
    n: int,
) -> Outcome<Seq<RecordedCommit>>
    decreases n,
{
    if n <= 0 {
        Outcome { recorder, store, result: Ok(Seq::empty()) }
    } else {
        let before = all_published(recorder, store, inputs, n - 1);
        match before.result {
            Err(error) => before,
            Ok(commits) => {
                let next = publish_subscribe_appended(
                    before.recorder,
                    before.store,
                    inputs[n - 1].0,
                    inputs[n - 1].1,
                );
                Outcome {
                    recorder: next.recorder,
                    store: next.store,
                    result: match next.result {
                        Err(error) => Err(error),
                        Ok(commit) => Ok(commits.push(commit)),
                    },
                }
            },
        }
    }
}

/// One sample more gets the next number.
proof fn next_sample_gets_next_number(
    recorder: RecorderModel,
    store: StoreModel,
    input: PublishSubscribeRecordInput<'_>,
    now_ns: u64,
    n: int,
)
    requires
        recorder.accepts_calls(),
        has_recorded(recorder.state, n),
        0 <= n,
        n + 2 < u64::MAX,
        publish_subscribe_appended(recorder, store, input, now_ns).result is Ok,
    ensures
        ({
            let next = publish_subscribe_appended(recorder, store, input, now_ns);
            &&& next.result->Ok_0.sequence == n + 1
            &&& next.result->Ok_0.commit_ordinal == n + 1
            &&& has_recorded(next.recorder.state, n + 1)
            &&& next.recorder.accepts_calls()
        }),
{
    let source = publish_subscribe_source(
        input.source_service_id,
        input.source_publisher_id,
        input.source_sequence,
    );
    let record = RecordModel {
        sequence: next_sequence(recorder.state)->Some_0,
        event_time_ns: input.event_time_ns,
        user_header: adapter_user_header(source, input.user_header@),
        payload: input.payload@,
    };
    append_keeps_recorder_ready(recorder, store, record, source, now_ns);
}

/// Records are numbered from one on: of the samples that a recorder takes after it was created, as
/// long as every append succeeds, the first gets sequence one and ordinal one, the next two and two,
/// and so on, whatever sequences their sources gave them.
pub proof fn samples_are_numbered_from_one(
    recorder: RecorderModel,
    store: StoreModel,
    inputs: Seq<(PublishSubscribeRecordInput<'_>, u64)>,
    n: int,
)
    requires
        recorder.accepts_calls(),
        has_recorded(recorder.state, 0),
        0 <= n <= inputs.len(),
        n + 2 < u64::MAX,
        all_published(recorder, store, inputs, n).result is Ok,
    ensures
        ({
            let after = all_published(recorder, store, inputs, n);
            let commits = after.result->Ok_0;
            &&& commits.len() == n
            &&& forall|i: int|
                #![trigger commits[i]]
                0 <= i < n ==> commits[i].sequence == i + 1 && commits[i].commit_ordinal == i + 1
            &&& has_recorded(after.recorder.state, n)
            &&& after.recorder.accepts_calls()
        }),
    decreases n,
{
    if n > 0 {
        samples_are_numbered_from_one(recorder, store, inputs, n - 1);
        let before = all_published(recorder, store, inputs, n - 1);
        next_sample_gets_next_number(
            before.recorder,
            before.store,
            inputs[n - 1].0,
            inputs[n - 1].1,
            n - 1,
        );
    }
}

/// The record that a sample is appended as.
spec fn sample_record(
    recorder: RecorderModel,
    input: PublishSubscribeRecordInput<'_>,
) -> RecordModel {
    RecordModel {
        sequence: next_sequence(recorder.state)->Some_0,
        event_time_ns: input.event_time_ns,
        user_header: adapter_user_header(sample_source(input), input.user_header@),
        payload: input.payload@,
    }
}

/// The source of a sample.
pub open spec fn sample_source(input: PublishSubscribeRecordInput<'_>) -> ArchiveSourceMetadata {
    publish_subscribe_source(
        input.source_service_id,
        input.source_publisher_id,
        input.source_sequence,
    )
}

/// The samples that were appended are the history of the archive.
proof fn samples_are_history(
    recorder: RecorderModel,
    store: StoreModel,
    inputs: Seq<(PublishSubscribeRecordInput<'_>, u64)>,
    n: int,
) -> (entries: Seq<CommitEntry>)
    requires
        recorder.accepts_calls(),
        has_recorded(recorder.state, 0),
        history(recorder.state, store, Seq::empty()),
        0 <= n <= inputs.len(),
        n + 2 < u64::MAX,
        all_published(recorder, store, inputs, n).result is Ok,
    ensures
        ({
            let after = all_published(recorder, store, inputs, n);
            history(after.recorder.state, after.store, entries) && entries.len() == n
        }),
    decreases n,
{
    if n <= 0 {
        Seq::empty()
    } else {
        let earlier = samples_are_history(recorder, store, inputs, n - 1);
        samples_are_numbered_from_one(recorder, store, inputs, n - 1);
        let before = all_published(recorder, store, inputs, n - 1);
        let (input, now_ns) = inputs[n - 1];
        let record = sample_record(before.recorder, input);
        let source = sample_source(input);
        append_extends_history(
            before.recorder,
            before.store,
            record,
            source,
            now_ns,
            earlier,
        );
        earlier.push(appended_entry(before.recorder, before.store, record, source, now_ns))
    }
}

/// What is published to a new archive is numbered and replayed: where the first `n` samples were
/// appended one after the other, the last of them has sequence `n` and ordinal `n`, whatever
/// sequence its source gave it. A replayer that is opened then finds it by that sequence, with the
/// payload and the event time of the sample. Its user header tells the pattern and the source of
/// the sample, and then holds the sample's own user header.
pub proof fn samples_are_numbered_and_replayed(
    recorder: RecorderModel,
    store: StoreModel,
    inputs: Seq<(PublishSubscribeRecordInput<'_>, u64)>,
    n: int,
    builder: ArchiveReplayerBuilder,
)
    requires
        recorder.accepts_calls(),
        has_recorded(recorder.state, 0),
        history(recorder.state, store, Seq::empty()),
        0 < n <= inputs.len(),
        n + 2 < u64::MAX,
        ({
            let input = inputs[n - 1].0;
            64 + 40 + input.user_header@.len() + input.payload@.len() + 7 <= u32::MAX
        }),
        all_published(recorder, store, inputs, n).result is Ok,
    ensures
        ({
            let after = all_published(recorder, store, inputs, n);
            let input = inputs[n - 1].0;
            let commit = after.result->Ok_0.last();
            let opened = replayer_opened(builder, after.store);
            let entry = indexed_entry(opened->Ok_0.index, commit.sequence);
            let frame = entry_frame(after.store, entry->Some_0, builder.verify_checksums);
            &&& commit.sequence == n
            &&& commit.commit_ordinal == n
            &&& opened is Ok
            &&& entry is Some
            &&& frame is Ok
            &&& frame->Ok_0.sequence == n
            &&& frame->Ok_0.commit_ordinal == n
            &&& frame->Ok_0.event_time_ns == input.event_time_ns
            &&& frame->Ok_0.payload == input.payload@
            &&& adapter_metadata(frame->Ok_0.user_header) == Some(sample_source(input))
            &&& sample_source(input).source_pattern == ArchiveSourcePattern::PublishSubscribe
            &&& frame->Ok_0.user_header.subrange(40, frame->Ok_0.user_header.len() as int)
                == input.user_header@
        }),
{
    let entries = samples_are_history(recorder, store, inputs, n - 1);
    samples_are_numbered_from_one(recorder, store, inputs, n - 1);
    samples_are_numbered_from_one(recorder, store, inputs, n);
    let before = all_published(recorder, store, inputs, n - 1);
    let (input, now_ns) = inputs[n - 1];
    published_sample_is_replayed(
        before.recorder,
        before.store,
        input,
        now_ns,
        entries,
        builder,
    );
}

} // verus!
