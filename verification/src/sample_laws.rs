//! What becomes of a sample, field by field: in the commit log, in its frame and in the index.

use crate::adapter::{adapter_len, adapter_user_header};
use crate::commit_entry::CommitEntry;
use crate::commit_log::all_entries;
use crate::frame::aligned_is_next_multiple;
use crate::guarantees::append_shape;
use crate::history::{
    append_extends_history, appended_record_is_replayed, history, history_has_files,
};
use crate::index_laws::{
    all_new_records, caught_up_entry_is_found, new_records_are_last,
    read_ordinals_grow,
};
use crate::indexer::{
    caught_up, ingested, new_records, queried_locator, queried_sequence, IndexerModel,
};
use crate::metadata::{record_of, MetadataCommitRecord};
use crate::order::increasing;
use crate::recorder::{
    next_sequence, publish_subscribe_appended, publish_subscribe_source, record_appended,
    RecordModel, RecorderModel,
};
use crate::replayer::{
    all_sequences, entry_frame, indexed_entry, replayer_opened, ArchiveReplayerBuilder,
};
use crate::store::StoreModel;
use crate::types::{ArchiveSourcePattern, PublishSubscribeRecordInput, RecordedCommit};
use vstd::prelude::*;

verus! {

/// The record says of a commit what the entry in the commit log says.
pub open spec fn tells_entry(record: MetadataCommitRecord, log_id: [u8; 16], entry: CommitEntry)
    -> bool {
    &&& record.log_id == log_id
    &&& record.commit_ordinal == entry.commit_ordinal
    &&& record.sequence == entry.sequence
    &&& record.locator.segment_id == entry.locator.segment_id
    &&& record.locator.segment_generation == entry.locator.segment_generation
    &&& record.locator.file_offset == entry.locator.file_offset
    &&& record.locator.frame_len == entry.locator.frame_len
    &&& record.frame_checksum == entry.frame_checksum
    &&& record.event_time_ns == entry.event_time_ns
    &&& record.commit_time_ns == entry.commit_time_ns
    &&& record.source_pattern == entry.source_pattern
    &&& record.source_service_id == entry.source_service_id
    &&& record.source_instance_id == entry.source_instance_id
    &&& record.source_sequence == entry.source_sequence
}

/// The sample was committed like this: in the next place, with its own event time and source, at
/// the time of the clock.
pub open spec fn tells_sample(
    entry: CommitEntry,
    recorder: RecorderModel,
    input: PublishSubscribeRecordInput<'_>,
    now_ns: u64,
    commit: RecordedCommit,
) -> bool {
    &&& entry.commit_ordinal == recorder.state.next_commit_ordinal
    &&& entry.commit_ordinal == commit.commit_ordinal
    &&& entry.sequence == commit.sequence
    &&& entry.sequence == match recorder.state.last_sequence {
        None => 1,
        Some(last) => last + 1,
    }
    &&& entry.locator == commit.locator
    &&& entry.event_time_ns == input.event_time_ns
    &&& entry.commit_time_ns == now_ns
    &&& entry.source_pattern == ArchiveSourcePattern::PublishSubscribe
    &&& entry.source_service_id == input.source_service_id
    &&& entry.source_instance_id == input.source_publisher_id
    &&& entry.source_sequence == input.source_sequence
}

/// The record of a sample.
spec fn sample_record(recorder: RecorderModel, input: PublishSubscribeRecordInput<'_>)
    -> RecordModel {
    RecordModel {
        sequence: next_sequence(recorder.state)->Some_0,
        event_time_ns: input.event_time_ns,
        user_header: adapter_user_header(
            publish_subscribe_source(
                input.source_service_id,
                input.source_publisher_id,
                input.source_sequence,
            ),
            input.user_header@,
        ),
        payload: input.payload@,
    }
}

/// A sample whose append succeeds becomes the last entry of the commit log, behind all entries that
/// were there: the entry has the event time, the source and the place that belong to the sample, and
/// the time of the clock.
#[verifier::spinoff_prover]
#[verifier::rlimit(60)]
pub proof fn published_sample_is_committed(
    recorder: RecorderModel,
    store: StoreModel,
    input: PublishSubscribeRecordInput<'_>,
    now_ns: u64,
    entries: Seq<CommitEntry>,
)
    requires
        recorder.accepts_calls(),
        history(recorder.state, store, entries),
        publish_subscribe_appended(recorder, store, input, now_ns).result is Ok,
    ensures
        ({
            let outcome = publish_subscribe_appended(recorder, store, input, now_ns);
            let after = all_entries(outcome.store);
            &&& after is Ok
            &&& after->Ok_0.len() == entries.len() + 1
            &&& after->Ok_0.drop_last() == entries
            &&& tells_sample(
                after->Ok_0.last(),
                recorder,
                input,
                now_ns,
                outcome.result->Ok_0,
            )
            &&& history(outcome.recorder.state, outcome.store, after->Ok_0)
        }),
{
    let source = publish_subscribe_source(
        input.source_service_id,
        input.source_publisher_id,
        input.source_sequence,
    );
    let record = sample_record(recorder, input);
    let outcome = publish_subscribe_appended(recorder, store, input, now_ns);
    history_has_files(recorder.state, store, entries);
    assert(outcome == record_appended(recorder, store, record, source, now_ns));
    append_extends_history(recorder, store, record, source, now_ns, entries);
    let more = entries.push(
        crate::history::appended_entry(recorder, store, record, source, now_ns),
    );
    history_gives_entries(outcome.recorder, outcome.store, more);
    assert(more.drop_last() =~= entries);
    commit_is_numbered(recorder, store, record, source, now_ns);
}

/// A history tells what the commit logs hold.
proof fn history_gives_entries(
    recorder: RecorderModel,
    store: StoreModel,
    entries: Seq<CommitEntry>,
)
    requires
        history(recorder.state, store, entries),
    ensures
        all_entries(store) == Ok::<Seq<CommitEntry>, crate::error::ArchiveReplayError>(entries),
        increasing(all_sequences(entries)),
{
    reveal(history);
}

/// What an append returns names the record.
proof fn commit_is_numbered(
    recorder: RecorderModel,
    store: StoreModel,
    record: RecordModel,
    source: crate::types::ArchiveSourceMetadata,
    now_ns: u64,
)
    requires
        recorder.accepts_calls(),
        recorder.state.disk is Some,
        record_appended(recorder, store, record, source, now_ns).result is Ok,
    ensures
        ({
            let commit = record_appended(recorder, store, record, source, now_ns).result->Ok_0;
            &&& commit.commit_ordinal == recorder.state.next_commit_ordinal
            &&& commit.sequence == record.sequence
        }),
{
    append_shape(recorder, store, record, source, now_ns);
}

/// What an indexer takes in and hands to its sink are the entries of the commit log that are new to
/// it, one record for each, in order: each record says field by field what its entry says.
pub proof fn new_entries_are_indexed_field_by_field(
    indexer: IndexerModel,
    store: StoreModel,
    k: int,
)
    requires
        all_entries(store) is Ok,
        all_entries(store)->Ok_0.len() <= usize::MAX,
        0 <= k < all_entries(store)->Ok_0.len(),
    ensures
        ({
            let entries = all_entries(store)->Ok_0;
            let records = ingested(indexer, store, None).records;
            let first = entries.len() - records.len();
            &&& 0 <= first
            &&& k < first && entries[k].commit_ordinal != 0 ==> entries[k].commit_ordinal
                <= indexer.watermark.last_indexed_commit_ordinal
            &&& k >= first ==> tells_entry(records[k - first], indexer.log_id, entries[k])
            &&& entries[k].commit_ordinal > indexer.watermark.last_indexed_commit_ordinal ==> k
                >= first
        }),
{
    let entries = all_entries(store)->Ok_0;
    let n = entries.len() as int;
    let behind = indexer.watermark.last_indexed_commit_ordinal;
    let limit = usize::MAX as int;
    let records = new_records(indexer.log_id, entries, behind, limit, n);
    read_ordinals_grow(store);
    new_records_are_last(indexer.log_id, entries, behind, limit, n);
    let first = n - records.len();
    if k < first {
        if k < first - 1 {
            assert(entries[k].commit_ordinal == 0 || entries[k].commit_ordinal < entries[first
                - 1].commit_ordinal);
        }
    } else {
        assert(records[k - first] == record_of(indexer.log_id, entries[k]));
    }
}

/// Whatever is found by its sequence after a catch-up says field by field what the commit log says.
/// Sequences do not run ahead of commit ordinals.
pub proof fn found_record_tells_its_entry(indexer: IndexerModel, store: StoreModel, k: int)
    requires
        caught_up(indexer, store, None).result is Ok,
        increasing(all_sequences(all_entries(store)->Ok_0)),
        all_entries(store)->Ok_0.len() <= usize::MAX,
        0 <= k < all_entries(store)->Ok_0.len(),
        ({
            let entry = all_entries(store)->Ok_0[k];
            &&& entry.commit_ordinal > indexer.watermark.last_indexed_commit_ordinal
            &&& entry.sequence <= entry.commit_ordinal
        }),
    ensures
        ({
            let entry = all_entries(store)->Ok_0[k];
            let found = queried_sequence(caught_up(indexer, store, None).indexer, entry.sequence);
            &&& found is Ok
            &&& tells_entry(found->Ok_0, indexer.log_id, entry)
        }),
{
    caught_up_entry_is_found(indexer, store, k);
}

/// A record that was taken in is found by its locator, if none behind it has the same one.
proof fn last_record_has_locator(
    indexer: IndexerModel,
    records: Seq<MetadataCommitRecord>,
    n: int,
)
    requires
        0 < n <= records.len(),
    ensures
        indexer.with_records(records, n).by_locator.contains_key(records[n - 1].locator),
        indexer.with_records(records, n).by_locator[records[n - 1].locator] == records[n - 1],
{
}

/// After a sample was appended and the indexer has caught up, looking the record up by its sequence
/// or by its locator gives the event time of the sample, the time of the clock at the append, and
/// the source of the sample.
pub proof fn published_sample_is_indexed(
    recorder: RecorderModel,
    store: StoreModel,
    input: PublishSubscribeRecordInput<'_>,
    now_ns: u64,
    entries: Seq<CommitEntry>,
    indexer: IndexerModel,
)
    requires
        recorder.accepts_calls(),
        history(recorder.state, store, entries),
        entries.len() < usize::MAX,
        publish_subscribe_appended(recorder, store, input, now_ns).result is Ok,
        ({
            let outcome = publish_subscribe_appended(recorder, store, input, now_ns);
            let commit = outcome.result->Ok_0;
            &&& caught_up(indexer, outcome.store, None).result is Ok
            &&& indexer.watermark.last_indexed_commit_ordinal
                < recorder.state.next_commit_ordinal
            &&& commit.sequence <= commit.commit_ordinal
        }),
    ensures
        ({
            let outcome = publish_subscribe_appended(recorder, store, input, now_ns);
            let commit = outcome.result->Ok_0;
            let index = caught_up(indexer, outcome.store, None).indexer;
            let by_sequence = queried_sequence(index, commit.sequence);
            let by_locator = queried_locator(index, commit.locator);
            &&& by_sequence is Ok
            &&& by_locator is Ok
            &&& by_sequence->Ok_0 == by_locator->Ok_0
            &&& by_sequence->Ok_0.log_id == indexer.log_id
            &&& by_sequence->Ok_0.commit_ordinal == commit.commit_ordinal
            &&& by_sequence->Ok_0.sequence == commit.sequence
            &&& by_sequence->Ok_0.locator == commit.locator
            &&& by_sequence->Ok_0.event_time_ns == input.event_time_ns
            &&& by_sequence->Ok_0.commit_time_ns == now_ns
            &&& by_sequence->Ok_0.source_pattern == ArchiveSourcePattern::PublishSubscribe
            &&& by_sequence->Ok_0.source_service_id == input.source_service_id
            &&& by_sequence->Ok_0.source_instance_id == input.source_publisher_id
            &&& by_sequence->Ok_0.source_sequence == input.source_sequence
        }),
{
    let outcome = publish_subscribe_appended(recorder, store, input, now_ns);
    published_sample_is_committed(recorder, store, input, now_ns, entries);
    let all = all_entries(outcome.store)->Ok_0;
    history_gives_entries(outcome.recorder, outcome.store, all);
    let k = all.len() - 1;
    found_record_tells_its_entry(indexer, outcome.store, k);
    caught_up_entry_is_found(indexer, outcome.store, k);
    let behind = indexer.watermark.last_indexed_commit_ordinal;
    let limit = usize::MAX as int;
    let n = all.len() as int;
    let records = new_records(indexer.log_id, all, behind, limit, n);
    read_ordinals_grow(outcome.store);
    all_new_records(indexer.log_id, all, behind, limit, n);
    last_record_has_locator(indexer, records, records.len() as int);
}

/// The frame of a sample that was appended has the time of the clock, the place and the checksum
/// that its entry in the commit log has, and is read at the locator that the append returned.
#[verifier::rlimit(40)]
pub proof fn published_sample_is_read_at_its_locator(
    recorder: RecorderModel,
    store: StoreModel,
    input: PublishSubscribeRecordInput<'_>,
    now_ns: u64,
    entries: Seq<CommitEntry>,
    builder: ArchiveReplayerBuilder,
)
    requires
        recorder.accepts_calls(),
        history(recorder.state, store, entries),
        64 + 40 + input.user_header@.len() + input.payload@.len() + 7 <= u32::MAX,
        publish_subscribe_appended(recorder, store, input, now_ns).result is Ok,
    ensures
        ({
            let outcome = publish_subscribe_appended(recorder, store, input, now_ns);
            let commit = outcome.result->Ok_0;
            let opened = replayer_opened(builder, outcome.store);
            let entry = indexed_entry(opened->Ok_0.index, commit.sequence);
            let frame = entry_frame(outcome.store, entry->Some_0, builder.verify_checksums);
            &&& opened is Ok
            &&& entry is Some
            &&& entry->Some_0 == all_entries(outcome.store)->Ok_0.last()
            &&& frame is Ok
            &&& frame->Ok_0.commit_time_ns == now_ns
            &&& frame->Ok_0.event_time_ns == input.event_time_ns
            &&& frame->Ok_0.sequence == commit.sequence
            &&& frame->Ok_0.commit_ordinal == commit.commit_ordinal
            &&& frame->Ok_0.payload == input.payload@
            &&& frame->Ok_0.locator == commit.locator
            &&& frame->Ok_0.frame_checksum == entry->Some_0.frame_checksum
        }),
{
    let source = publish_subscribe_source(
        input.source_service_id,
        input.source_publisher_id,
        input.source_sequence,
    );
    let record = sample_record(recorder, input);
    adapter_len(source, input.user_header@);
    aligned_is_next_multiple(64int + record.user_header.len() + input.payload@.len(), 8);
    history_has_files(recorder.state, store, entries);
    published_sample_is_committed(recorder, store, input, now_ns, entries);
    appended_record_is_replayed(recorder, store, record, source, now_ns, entries, builder);
    append_extends_history(recorder, store, record, source, now_ns, entries);
    let outcome = publish_subscribe_appended(recorder, store, input, now_ns);
    let more = entries.push(
        crate::history::appended_entry(recorder, store, record, source, now_ns),
    );
    history_gives_entries(outcome.recorder, outcome.store, more);
}

} // verus!
