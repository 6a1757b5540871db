//! What is accepted when an archive is read, and what is told of records that are not found, in
//! terms of the bytes of the files and of the watermark.

use crate::bytes::{all_zero, u16_at, u32_at, u64_at};
use crate::checksum::crc32c_value;
use crate::commit_entry::{decode_entry, CommitEntry, COMMIT_ENTRY_MAGIC};
use crate::commit_log::{
    all_entries, collected_entries, commit_logs, is_rolled_list, log_entries, ordinal_follows,
    ordinals_follow, rolled_indexes, strict_entries,
};
use crate::error::ArchiveFile;
use crate::frame::{decode_frame, frame_is_sound, without_checksum, FRAME_MAGIC};
use crate::header::{decode_header, header_crc, ARCHIVE_FILE_MAGIC};
use crate::indexer::{
    highest_ordinal, ingest_limit, new_records, queried_locator, queried_sequence, state_loaded,
    IndexerModel,
};
use crate::metadata::{
    core_index_loaded, loaded_watermark, MetadataCommitRecord, MetadataQueryError,
};
use crate::segment::{scan_accepts, scan_end};
use crate::startup_laws::ordinal_grows;
use crate::store::StoreModel;
use crate::types::ArchiveLocator;
use vstd::prelude::*;

verus! {

/// A header is accepted exactly where it has the magic, a known kind, a version that is understood,
/// a length that is there, no flag that must be understood, the identity that its kind asks for, and
/// the right checksum.
pub proof fn header_is_accepted_where_it_is_understood(s: Seq<u8>)
    ensures
        decode_header(s) is Ok <==> {
            let kind = u16_at(s, 4);
            let identity = u64_at(s, 40) != 0;
            &&& s.len() >= 76
            &&& s.subrange(0, 4) == ARCHIVE_FILE_MAGIC@
            &&& 1 <= kind <= 5
            &&& 76 <= u16_at(s, 10) <= s.len()
            &&& u16_at(s, 6) == 1
            &&& u16_at(s, 8) == 0
            &&& u32_at(s, 12) & 0xFF00_0000u32 == 0
            &&& kind >= 3 ==> identity
            &&& kind <= 2 ==> !identity && u32_at(s, 48) == 0
            &&& u32_at(s, 72) == header_crc(s, u16_at(s, 10) as int)
        },
{
}

/// A frame that is read with its checksum verified is sound, and a sound frame whose parts fit into
/// it is read. Without verifying, what is read is the same, and only a wrong checksum is overlooked.
pub proof fn sound_frames_are_read(segment: Seq<u8>, locator: ArchiveLocator)
    requires
        locator.file_offset <= crate::store::MAX_FILE_LEN,
    ensures
        ({
            let at = locator.file_offset as int;
            let len = locator.frame_len as int;
            let parts = u32_at(segment.subrange(at, at + len), 48) + u32_at(
                segment.subrange(at, at + len),
                52,
            );
            let sound = frame_is_sound(segment, at, len);
            let verified = decode_frame(segment, locator, true);
            let unverified = decode_frame(segment, locator, false);
            &&& verified is Ok <==> sound && 64 + parts <= len
            &&& verified is Ok ==> unverified == verified
            &&& unverified is Ok && verified is Err ==> verified->Err_0 is ChecksumMismatch
        }),
{
    let at = locator.file_offset as int;
    let len = locator.frame_len as int;
    if len >= 64 && at + len <= segment.len() {
        let header = segment.subrange(at, at + 64);
        let frame = segment.subrange(at, at + len);
        assert(header.subrange(0, 4) =~= frame.subrange(0, 4));
        assert(forall|i: int| 0 <= i < 64 ==> #[trigger] header[i] == frame[i]);
        assert(u16_at(header, 4) == u16_at(frame, 4));
        assert(u16_at(header, 6) == u16_at(frame, 6));
        assert(u32_at(header, 8) == u32_at(frame, 8));
        assert(u32_at(header, 48) == u32_at(frame, 48));
        assert(u32_at(header, 52) == u32_at(frame, 52));
        assert(u32_at(header, 56) == u32_at(frame, 56));
    }
}

/// A frame is sound only with the magic, a header of sixty-four bytes, its own length, and, if it
/// says that it has one, the checksum of its bytes with the place of the checksum left out.
pub proof fn sound_frame_has_magic_length_and_checksum(segment: Seq<u8>, at: int, len: int)
    requires
        0 <= at,
        frame_is_sound(segment, at, len),
    ensures
        at + len <= segment.len(),
        len >= 64,
        segment.subrange(at, at + 4) == FRAME_MAGIC@,
        ({
            let frame = segment.subrange(at, at + len);
            &&& u16_at(frame, 4) == 64
            &&& u32_at(frame, 8) == len
            &&& u16_at(frame, 6) & 1u16 != 0 ==> u32_at(frame, 56) == crc32c_value(
                without_checksum(frame),
            )
        }),
{
    let frame = segment.subrange(at, at + len);
    assert(frame.subrange(0, 4) =~= segment.subrange(at, at + 4));
}

/// The frames of a scan: each starts where the one before it ends, and is accepted.
pub open spec fn are_scanned_frames(s: Seq<u8>, limit: int, places: Seq<int>) -> bool {
    &&& places.len() > 0
    &&& forall|k: int|
        #![trigger places[k]]
        0 <= k < places.len() - 1 ==> places[k] < limit && scan_accepts(s, limit, places[k])
            && places[k + 1] == places[k] + u32_at(s, places[k] + 8)
}

/// A scan ends behind frames that stand one behind the other, where no further one stands.
pub proof fn scan_ends_behind_the_last_frame(s: Seq<u8>, limit: int, at: int)
    ensures
        scan_end(s, limit, at) >= limit || !scan_accepts(s, limit, scan_end(s, limit, at)),
        exists|places: Seq<int>| #[trigger]
            are_scanned_frames(s, limit, places) && places[0] == at && places.last() == scan_end(
                s,
                limit,
                at,
            ),
    decreases limit - at,
{
    if at < limit && scan_accepts(s, limit, at) {
        let next = at + u32_at(s, at + 8);
        scan_ends_behind_the_last_frame(s, limit, next);
        let rest = choose|places: Seq<int>| #[trigger]
            are_scanned_frames(s, limit, places) && places[0] == next && places.last() == scan_end(
                s,
                limit,
                next,
            );
        let places = seq![at] + rest;
        assert forall|k: int|
            #![trigger places[k]]
            0 <= k < places.len() - 1 implies places[k] < limit && scan_accepts(
            s,
            limit,
            places[k],
        ) && places[k + 1] == places[k] + u32_at(s, places[k] + 8) by {
            if k > 0 {
                assert(places[k] == rest[k - 1]);
                assert(places[k + 1] == rest[k]);
            } else {
                assert(places[1] == rest[0]);
            }
        }
        assert(are_scanned_frames(s, limit, places));
        assert(places.last() == rest.last());
    } else {
        let places = seq![at];
        assert(are_scanned_frames(s, limit, places));
    }
}

/// The entry that stands at a place of a log.
pub open spec fn stands_in_log(s: Seq<u8>, at: int, entry: CommitEntry) -> bool {
    &&& at + 104 <= s.len()
    &&& s.subrange(at, at + 4) == COMMIT_ENTRY_MAGIC@
    &&& decode_entry(s.subrange(at, at + 104)) == Ok::<CommitEntry, &'static str>(entry)
}

/// The entries of a log stand one behind the other in it, a hundred and four bytes each, and
/// nothing but zeros stands behind the last of them.
pub proof fn log_holds_its_entries_and_zeros(s: Seq<u8>, at: int)
    requires
        0 <= at <= s.len(),
        strict_entries(s, at) is Ok,
    ensures
        ({
            let entries = strict_entries(s, at)->Ok_0;
            &&& at + 104 * entries.len() <= s.len()
            &&& forall|k: int|
                #![trigger entries[k]]
                0 <= k < entries.len() ==> stands_in_log(s, at + 104 * k, entries[k])
            &&& forall|i: int|
                at + 104 * entries.len() <= i < s.len() ==> #[trigger] s[i] == 0
        }),
    decreases s.len() - at,
{
    let entries = strict_entries(s, at)->Ok_0;
    let remaining = s.len() - at;
    if remaining <= 0 {
    } else if remaining < 8 {
        assert forall|i: int| at <= i < s.len() implies #[trigger] s[i] == 0 by {
            assert(s.subrange(at, s.len() as int)[i - at] == s[i]);
        }
    } else if all_zero(s.subrange(at, at + 8)) {
        assert forall|i: int| at <= i < s.len() implies #[trigger] s[i] == 0 by {
            if i < at + 8 {
                assert(s.subrange(at, at + 8)[i - at] == s[i]);
            } else {
                assert(s.subrange(at + 8, s.len() as int)[i - at - 8] == s[i]);
            }
        }
    } else {
        log_holds_its_entries_and_zeros(s, at + 104);
        let rest = strict_entries(s, at + 104)->Ok_0;
        assert forall|k: int|
            #![trigger entries[k]]
            0 <= k < entries.len() implies stands_in_log(s, at + 104 * k, entries[k]) by {
            if k > 0 {
                assert(entries[k] == rest[k - 1]);
                assert(at + 104 * k == at + 104 + 104 * (k - 1));
            }
        }
    }
}

/// The commit logs are the rolled ones in order of their indexes, and behind them the one that is
/// written to, if it is there.
pub proof fn rolled_logs_come_first_in_order(store: StoreModel)
    requires
        is_rolled_list(store, rolled_indexes(store)),
    ensures
        ({
            let logs = commit_logs(store);
            &&& forall|i: int|
                #![trigger logs[i]]
                0 <= i < logs.len() ==> store.has(logs[i]) && (logs[i] is RolledCommitLog
                    || logs[i] == ArchiveFile::CommitLog && i == logs.len() - 1)
            &&& forall|i: int, j: int|
                #![trigger logs[i], logs[j]]
                0 <= i < j < logs.len() && logs[j] is RolledCommitLog ==> logs[i] is RolledCommitLog
                    && logs[i]->RolledCommitLog_index < logs[j]->RolledCommitLog_index
            &&& store.has(ArchiveFile::CommitLog) ==> logs.contains(ArchiveFile::CommitLog)
            &&& forall|index: u64|
                store.has(ArchiveFile::RolledCommitLog { index }) ==> #[trigger] logs.contains(
                    ArchiveFile::RolledCommitLog { index },
                )
        }),
{
    let logs = commit_logs(store);
    let rolled = rolled_indexes(store);
    assert forall|i: int| #![trigger logs[i]] 0 <= i < logs.len() implies store.has(logs[i]) && (
    logs[i] is RolledCommitLog || logs[i] == ArchiveFile::CommitLog && i == logs.len() - 1) by {
        if i < rolled.len() {
            assert(rolled.contains(rolled[i]));
        }
    }
    if store.has(ArchiveFile::CommitLog) {
        assert(logs[logs.len() - 1] == ArchiveFile::CommitLog);
    }
    assert forall|index: u64|
        store.has(ArchiveFile::RolledCommitLog { index }) implies #[trigger] logs.contains(
        ArchiveFile::RolledCommitLog { index },
    ) by {
        assert(rolled.contains(index));
        let i = choose|i: int| 0 <= i < rolled.len() && rolled[i] == index;
        assert(logs[i] == ArchiveFile::RolledCommitLog { index });
    }
}

/// The entries of the logs from `i` on, one log behind the other.
pub open spec fn entries_of_logs(store: StoreModel, logs: Seq<ArchiveFile>, i: int) -> Seq<
    CommitEntry,
>
    decreases logs.len() - i,
{
    if i >= logs.len() {
        Seq::empty()
    } else {
        log_entries(store, logs[i])->Ok_0 + entries_of_logs(store, logs, i + 1)
    }
}

proof fn collecting_joins_the_logs(
    store: StoreModel,
    logs: Seq<ArchiveFile>,
    i: int,
    before: Seq<CommitEntry>,
)
    requires
        0 <= i <= logs.len(),
        ordinals_follow(before),
        collected_entries(store, logs, i, before) is Ok,
    ensures
        collected_entries(store, logs, i, before)->Ok_0 == before + entries_of_logs(store, logs, i),
        ordinals_follow(collected_entries(store, logs, i, before)->Ok_0),
        forall|k: int| i <= k < logs.len() ==> log_entries(store, #[trigger] logs[k]) is Ok,
    decreases logs.len() - i,
{
    if i < logs.len() {
        let part = log_entries(store, logs[i])->Ok_0;
        collecting_joins_the_logs(store, logs, i + 1, before + part);
        assert(before + part + entries_of_logs(store, logs, i + 1) =~= before + (part
            + entries_of_logs(store, logs, i + 1)));
    } else {
        assert(before + entries_of_logs(store, logs, i) =~= before);
    }
}

/// Reading an archive gives the entries of all of its commit logs, one log behind the other. Every
/// log has to be readable, and the ordinals have to grow from one entry to the next.
pub proof fn archive_holds_the_entries_of_its_logs(store: StoreModel)
    requires
        all_entries(store) is Ok,
    ensures
        ({
            let logs = commit_logs(store);
            let entries = all_entries(store)->Ok_0;
            &&& logs.len() > 0
            &&& entries == entries_of_logs(store, logs, 0)
            &&& forall|k: int| 0 <= k < logs.len() ==> log_entries(store, #[trigger] logs[k]) is Ok
            &&& forall|i: int| 0 < i < entries.len() ==> #[trigger] ordinal_grows(entries, i)
        }),
{
    let logs = commit_logs(store);
    let none = Seq::<CommitEntry>::empty();
    collecting_joins_the_logs(store, logs, 0, none);
    assert(none + entries_of_logs(store, logs, 0) =~= entries_of_logs(store, logs, 0));
    let entries = all_entries(store)->Ok_0;
    assert forall|i: int| 0 < i < entries.len() implies #[trigger] ordinal_grows(entries, i) by {
        assert(ordinal_follows(entries, i));
    }
}

/// A sequence beyond the watermark is not indexed yet, and only such a one; any other is found, or
/// is not there at all. The answer tells the watermark.
pub proof fn unindexed_sequences_are_told_apart(indexer: IndexerModel, sequence: u64)
    ensures
        ({
            let mark = indexer.watermark;
            match queried_sequence(indexer, sequence) {
                Ok(record) => sequence <= mark.last_indexed_commit_ordinal
                    && indexer.by_sequence.contains_key(sequence) && record
                    == indexer.by_sequence[sequence],
                Err(MetadataQueryError::NotIndexedYet {
                    requested_sequence,
                    requested_locator,
                    query_watermark,
                    last_commit_ordinal,
                }) => sequence > mark.last_indexed_commit_ordinal && requested_sequence == Some(
                    sequence,
                ) && requested_locator is None && query_watermark
                    == mark.last_indexed_commit_ordinal && last_commit_ordinal
                    == mark.last_commit_ordinal,
                Err(MetadataQueryError::NotAvailableSequence(missing)) => missing == sequence
                    && sequence <= mark.last_indexed_commit_ordinal
                    && !indexer.by_sequence.contains_key(sequence),
                Err(_) => false,
            }
        }),
{
}

/// A locator that is indexed is found. One that is not may still be indexed while the index lags
/// behind the log, and is not there at all once it does not.
pub proof fn unindexed_locators_are_told_apart(indexer: IndexerModel, locator: ArchiveLocator)
    ensures
        ({
            let mark = indexer.watermark;
            let lags = mark.last_indexed_commit_ordinal < mark.last_commit_ordinal;
            match queried_locator(indexer, locator) {
                Ok(record) => indexer.by_locator.contains_key(locator) && record
                    == indexer.by_locator[locator],
                Err(MetadataQueryError::NotIndexedYet {
                    requested_sequence,
                    requested_locator,
                    query_watermark,
                    last_commit_ordinal,
                }) => lags && !indexer.by_locator.contains_key(locator) && requested_sequence is None
                    && requested_locator == Some(locator) && query_watermark
                    == mark.last_indexed_commit_ordinal && last_commit_ordinal
                    == mark.last_commit_ordinal,
                Err(MetadataQueryError::NotAvailableLocator(missing)) => missing == locator
                    && !lags && !indexer.by_locator.contains_key(locator),
                Err(_) => false,
            }
        }),
{
}

/// The entry is told by one of the records.
pub open spec fn has_record_of(records: Seq<MetadataCommitRecord>, entry: CommitEntry) -> bool {
    exists|k: int|
        0 <= k < records.len() && (#[trigger] records[k]).commit_ordinal == entry.commit_ordinal
}

/// A call takes no more records than it was told to, each from an entry behind the ordinal, and
/// leaves none out where it took fewer.
pub proof fn call_takes_as_many_records_as_told(
    log_id: [u8; 16],
    entries: Seq<CommitEntry>,
    behind: u64,
    limit: int,
    n: int,
)
    requires
        0 <= n <= entries.len(),
        limit >= 0,
    ensures
        ({
            let records = new_records(log_id, entries, behind, limit, n);
            &&& records.len() <= limit
            &&& forall|k: int|
                0 <= k < records.len() ==> (#[trigger] records[k]).commit_ordinal > behind
            &&& records.len() < limit ==> forall|i: int|
                #![trigger entries[i]]
                0 <= i < n && entries[i].commit_ordinal > behind ==> has_record_of(
                    records,
                    entries[i],
                )
        }),
    decreases n,
{
    if n > 0 {
        call_takes_as_many_records_as_told(log_id, entries, behind, limit, n - 1);
        let before = new_records(log_id, entries, behind, limit, n - 1);
        let records = new_records(log_id, entries, behind, limit, n);
        if records.len() < limit {
            assert forall|i: int|
                #![trigger entries[i]]
                0 <= i < n && entries[i].commit_ordinal > behind implies has_record_of(
                records,
                entries[i],
            ) by {
                if i < n - 1 {
                    assert(has_record_of(before, entries[i]));
                    let k = choose|k: int|
                        0 <= k < before.len() && (#[trigger] before[k]).commit_ordinal
                            == entries[i].commit_ordinal;
                    assert(records[k] == before[k]);
                } else {
                    assert(records[before.len() as int].commit_ordinal
                        == entries[i].commit_ordinal);
                }
            }
        }
    }
}

/// A call that is told no number takes as many records as there can be.
pub proof fn untold_limit_is_none(number: usize)
    ensures
        ingest_limit(Some(number)) == number,
        ingest_limit(None) >= number,
{
}

proof fn highest_ordinal_is_reached(records: Seq<MetadataCommitRecord>, n: int)
    requires
        0 <= n <= records.len(),
    ensures
        forall|k: int|
            0 <= k < n ==> (#[trigger] records[k]).commit_ordinal <= highest_ordinal(records, n),
        highest_ordinal(records, n) > 0 ==> exists|k: int|
            0 <= k < n && (#[trigger] records[k]).commit_ordinal == highest_ordinal(records, n),
    decreases n,
{
    if n > 0 {
        highest_ordinal_is_reached(records, n - 1);
        if records[n - 1].commit_ordinal > highest_ordinal(records, n - 1) {
            assert(records[n - 1].commit_ordinal == highest_ordinal(records, n));
        }
    }
}

/// The records of the core-locator index that an indexer keeps, if it keeps one.
pub open spec fn kept_records(indexer: IndexerModel, store: StoreModel) -> Seq<
    MetadataCommitRecord,
> {
    if indexer.keeps_core_index {
        core_index_loaded(store, indexer.log_id)->Ok_0
    } else {
        Seq::empty()
    }
}

/// An indexer that starts again goes on behind both its stored watermark and every record of its
/// core-locator index, and no further. It knows the last ordinal of the log.
pub proof fn indexer_goes_on_where_it_stopped(indexer: IndexerModel, store: StoreModel)
    requires
        state_loaded(indexer, store) is Ok,
    ensures
        ({
            let mark = state_loaded(indexer, store)->Ok_0.watermark;
            let stored = loaded_watermark(store)->Ok_0;
            let entries = all_entries(store)->Ok_0;
            let records = kept_records(indexer, store);
            &&& mark.last_indexed_commit_ordinal >= stored.last_indexed_commit_ordinal
            &&& forall|k: int|
                0 <= k < records.len() ==> (#[trigger] records[k]).commit_ordinal
                    <= mark.last_indexed_commit_ordinal
            &&& mark.last_indexed_commit_ordinal == stored.last_indexed_commit_ordinal || exists|
                k: int,
            |
                0 <= k < records.len() && (#[trigger] records[k]).commit_ordinal
                    == mark.last_indexed_commit_ordinal
            &&& entries.len() > 0 ==> mark.last_commit_ordinal == entries.last().commit_ordinal
            &&& entries.len() == 0 ==> mark.last_commit_ordinal == 0
        }),
{
    let records = kept_records(indexer, store);
    highest_ordinal_is_reached(records, records.len() as int);
}

} // verus!
