//! Reading, recovering and preallocating the commit log.

use crate::bytes::{all_zero, range_is_zero, read_u16, u16_at, zeros};
use crate::commit_entry::{
    decode_commit_entry, decode_entry, entry_round_trip, CommitEntry, COMMIT_ENTRY_LEN,
    COMMIT_ENTRY_MAGIC, COMMIT_ENTRY_PREFIX_LEN, COMMIT_OFFSET_ENTRY_LEN,
};
use crate::error::{
    ArchiveFile, ArchivePath, ArchiveRecorderError, ArchiveReplayError, IoFault,
};
use crate::header::{
    decode_header, same_array4, ArchiveFileHeaderError, ArchiveFileHeaderV1, ArchiveFileKind,
    ARCHIVE_FILE_HEADER_V1_LEN,
};
use crate::order::{increasing, increasing_unique, insert_number};
use crate::segment::{locator_is_sound, locator_points_to_valid_frame};
use crate::store::{ArchiveStore, StoreModel, MAX_FILE_LEN};
use vstd::prelude::*;

verus! {

/// The entries of a commit log from `at` on. The log ends where it ends, or with zeros up to
/// its end.
pub open spec fn strict_entries(s: Seq<u8>, at: int) -> Result<Seq<CommitEntry>, &'static str>
    decreases s.len() - at,
{
    let remaining = s.len() - at;
    if remaining <= 0 {
        Ok(Seq::empty())
    } else if remaining < 8 {
        if all_zero(s.subrange(at, s.len() as int)) {
            Ok(Seq::empty())
        } else {
            Err("commit.idxlog contains trailing non-zero bytes")
        }
    } else if all_zero(s.subrange(at, at + 8)) {
        if all_zero(s.subrange(at + 8, s.len() as int)) {
            Ok(Seq::empty())
        } else {
            Err("commit.idxlog contains non-zero bytes after zero-tail marker")
        }
    } else if s.subrange(at, at + 4) != COMMIT_ENTRY_MAGIC@ {
        Err("invalid commit entry magic")
    } else if u16_at(s, at + 4) != 104 {
        Err("invalid commit entry length")
    } else if 104 > remaining {
        Err("commit.idxlog entry exceeds available bytes")
    } else {
        match decode_entry(s.subrange(at, at + 104)) {
            Err(message) => Err(message),
            Ok(entry) => match strict_entries(s, at + 104) {
                Err(message) => Err(message),
                Ok(rest) => Ok(seq![entry] + rest),
            },
        }
    }
}

/// `entries` followed by what `rest` holds.
pub open spec fn prepended(
    entries: Seq<CommitEntry>,
    rest: Result<Seq<CommitEntry>, &'static str>,
) -> Result<Seq<CommitEntry>, &'static str> {
    match rest {
        Err(message) => Err(message),
        Ok(more) => Ok(entries + more),
    }
}

/// The entry that a recovering recorder accepts at `at`, if it accepts one: the entry is whole,
/// and the frame that it names is sound.
pub open spec fn recoverable_entry(s: Seq<u8>, at: int, store: StoreModel) -> Option<CommitEntry> {
    if at + 104 > s.len() || s.subrange(at, at + 4) != COMMIT_ENTRY_MAGIC@ || u16_at(s, at + 4)
        != 104 {
        None
    } else {
        match decode_entry(s.subrange(at, at + 104)) {
            Err(_) => None,
            Ok(entry) => if locator_is_sound(store, entry.locator) {
                Some(entry)
            } else {
                None
            },
        }
    }
}

/// The longest run of entries from `at` on that a recovering recorder accepts.
pub open spec fn recovered_entries(s: Seq<u8>, at: int, store: StoreModel) -> Seq<CommitEntry>
    decreases s.len() - at,
{
    if at >= s.len() {
        Seq::empty()
    } else {
        match recoverable_entry(s, at, store) {
            None => Seq::empty(),
            Some(entry) => seq![entry] + recovered_entries(s, at + 104, store),
        }
    }
}

/// The header of an archive file.
pub open spec fn file_header(s: Seq<u8>) -> Result<ArchiveFileHeaderV1, ArchiveFileHeaderError> {
    decode_header(s.subrange(0, 76))
}

/// What reading one commit log gives.
pub open spec fn log_entries(store: StoreModel, file: ArchiveFile) -> Result<
    Seq<CommitEntry>,
    ArchiveReplayError,
> {
    let path = ArchivePath::File(file);
    let s = store.bytes(file);
    if !store.has(file) {
        Err(
            ArchiveReplayError::Io {
                operation: "open commit idxlog",
                path,
                source: IoFault::NotFound,
            },
        )
    } else if s.len() < 76 {
        Err(
            ArchiveReplayError::Io {
                operation: "read commit idxlog header",
                path,
                source: IoFault::UnexpectedEnd,
            },
        )
    } else {
        match file_header(s) {
            Err(error) => Err(ArchiveReplayError::FileHeader(error)),
            Ok(header) => if header.file_kind != ArchiveFileKind::CommitIdxLog {
                Err(ArchiveReplayError::InvalidCommitEntry("commit.idxlog has invalid file kind"))
            } else {
                match strict_entries(s, 76) {
                    Err(message) => Err(ArchiveReplayError::InvalidCommitEntry(message)),
                    Ok(entries) => Ok(entries),
                }
            },
        }
    }
}

/// `r` lists the indexes of the rolled commit logs.
pub open spec fn is_rolled_list(store: StoreModel, r: Seq<u64>) -> bool {
    &&& increasing(r)
    &&& forall|index: u64|
        #[trigger] r.contains(index) <==> store.has(ArchiveFile::RolledCommitLog { index })
}

/// The indexes of the rolled commit logs, in order.
pub open spec fn rolled_indexes(store: StoreModel) -> Seq<u64> {
    choose|r: Seq<u64>| is_rolled_list(store, r)
}

/// The commit logs in the order in which they were written.
pub open spec fn commit_logs(store: StoreModel) -> Seq<ArchiveFile> {
    let rolled = rolled_indexes(store);
    Seq::new(rolled.len(), |i: int| ArchiveFile::RolledCommitLog { index: rolled[i] }) + (
    if store.has(ArchiveFile::CommitLog) {
        seq![ArchiveFile::CommitLog]
    } else {
        Seq::empty()
    })
}

/// The ordinal of the last entry, or zero.
pub open spec fn last_ordinal(entries: Seq<CommitEntry>) -> u64 {
    if entries.len() == 0 {
        0
    } else {
        entries.last().commit_ordinal
    }
}

/// Entry `i` has a larger ordinal than the one before it, unless that one's ordinal is zero.
pub open spec fn ordinal_follows(entries: Seq<CommitEntry>, i: int) -> bool {
    i == 0 || entries[i - 1].commit_ordinal == 0 || entries[i].commit_ordinal > entries[i
        - 1].commit_ordinal
}

/// Every ordinal follows the one before it.
pub open spec fn ordinals_follow(entries: Seq<CommitEntry>) -> bool {
    forall|i: int| 0 <= i < entries.len() ==> #[trigger] ordinal_follows(entries, i)
}

/// What the logs from `i` on add to the entries read before.
pub open spec fn collected_entries(
    store: StoreModel,
    logs: Seq<ArchiveFile>,
    i: int,
    before: Seq<CommitEntry>,
) -> Result<Seq<CommitEntry>, ArchiveReplayError>
    decreases logs.len() - i,
{
    if i >= logs.len() {
        Ok(before)
    } else {
        match log_entries(store, logs[i]) {
            Err(error) => Err(error),
            Ok(part) => if !ordinals_follow(before + part) {
                Err(
                    ArchiveReplayError::InvalidCommitEntry(
                        "commit idxlog files are not strictly ordered by commit ordinal",
                    ),
                )
            } else {
                collected_entries(store, logs, i + 1, before + part)
            },
        }
    }
}

/// What reading all commit logs gives.
pub open spec fn all_entries(store: StoreModel) -> Result<Seq<CommitEntry>, ArchiveReplayError> {
    if commit_logs(store).len() == 0 {
        Err(ArchiveReplayError::MissingCommitLog(ArchivePath::File(ArchiveFile::CommitLog)))
    } else {
        collected_entries(store, commit_logs(store), 0, Seq::empty())
    }
}

/// Lists the commit logs: the rolled ones by index, then the active one.
pub fn list_commit_logs(store: &ArchiveStore) -> (logs: Vec<ArchiveFile>)
    ensures
        logs@ == commit_logs(store@),
        is_rolled_list(store@, rolled_indexes(store@)),
{
    let mut rolled: Vec<u64> = Vec::new();
    let files = store.files();
    let n: usize = files.len();
    for i in 0..n
        invariant
            n == files@.len(),
            files@.no_duplicates(),
            increasing(rolled@),
            forall|index: u64|
                #[trigger] rolled@.contains(index) <==> exists|j: int|
                    0 <= j < i && files@[j] == (ArchiveFile::RolledCommitLog { index }),
    {
        let ghost before = rolled@;
        if let ArchiveFile::RolledCommitLog { index } = files[i] {
            assert(!rolled@.contains(index)) by {
                if rolled@.contains(index) {
                    let j = choose|j: int|
                        0 <= j < i && files@[j] == (ArchiveFile::RolledCommitLog { index });
                    assert(files@[j] != files@[i as int]);
                }
            }
            insert_number(&mut rolled, index);
        }
        assert forall|index: u64| #[trigger] rolled@.contains(index) <==> exists|j: int|
            0 <= j < i + 1 && files@[j] == (ArchiveFile::RolledCommitLog { index }) by {
            if before.contains(index) {
                let j = choose|j: int|
                    0 <= j < i && files@[j] == (ArchiveFile::RolledCommitLog { index });
                assert(0 <= j < i + 1 && files@[j] == (ArchiveFile::RolledCommitLog { index }));
            }
            if exists|j: int|
                0 <= j < i + 1 && files@[j] == (ArchiveFile::RolledCommitLog { index }) {
                let j = choose|j: int|
                    0 <= j < i + 1 && files@[j] == (ArchiveFile::RolledCommitLog { index });
                if j < i {
                    assert(before.contains(index));
                }
            }
            assert(files@[i as int] == (ArchiveFile::RolledCommitLog { index })
                ==> rolled@.contains(index));
        }
    }
    assert(is_rolled_list(store@, rolled@)) by {
        assert forall|index: u64| #[trigger] rolled@.contains(index) <==> store@.has(
            ArchiveFile::RolledCommitLog { index },
        ) by {
            let file = ArchiveFile::RolledCommitLog { index };
            if rolled@.contains(index) {
                let j = choose|j: int| 0 <= j < n && files@[j] == file;
                assert(files@.contains(file));
            }
            if store@.has(file) {
                assert(files@.contains(file));
                let j = choose|j: int| 0 <= j < files@.len() && files@[j] == file;
                assert(0 <= j < n && files@[j] == file);
            }
        }
    }
    proof {
        rolled_list_unique(store@, rolled@);
    }
    let mut logs: Vec<ArchiveFile> = Vec::new();
    let m: usize = rolled.len();
    for i in 0..m
        invariant
            m == rolled@.len(),
            logs@ =~= Seq::new(i as nat, |k: int| ArchiveFile::RolledCommitLog { index: rolled@[k] }),
    {
        logs.push(ArchiveFile::RolledCommitLog { index: rolled[i] });
    }
    if store.contains(ArchiveFile::CommitLog) {
        logs.push(ArchiveFile::CommitLog);
    }
    assert(logs@ =~= commit_logs(store@));
    logs
}

/// There is one list of rolled commit logs.
pub proof fn rolled_list_unique(store: StoreModel, r: Seq<u64>)
    requires
        is_rolled_list(store, r),
    ensures
        r == rolled_indexes(store),
{
    let q = rolled_indexes(store);
    assert(is_rolled_list(store, q));
    assert forall|x: u64| r.contains(x) <==> q.contains(x) by {
        assert(r.contains(x) <==> store.has(ArchiveFile::RolledCommitLog { index: x }));
        assert(q.contains(x) <==> store.has(ArchiveFile::RolledCommitLog { index: x }));
    }
    increasing_unique(r, q);
}

/// Reads one commit log.
pub fn read_commit_entries_single(store: &ArchiveStore, file: ArchiveFile) -> (result: Result<
    Vec<CommitEntry>,
    ArchiveReplayError,
>)
    ensures
        match result {
            Ok(entries) => log_entries(store@, file) == Ok::<
                Seq<CommitEntry>,
                ArchiveReplayError,
            >(entries@),
            Err(error) => log_entries(store@, file) == Err::<Seq<CommitEntry>, ArchiveReplayError>(
                error,
            ),
        },
{
    let path = ArchivePath::File(file);
    let bytes = match store.read_all(file) {
        Ok(bytes) => bytes,
        Err(source) => {
            return Err(ArchiveReplayError::Io { operation: "open commit idxlog", path, source });
        },
    };
    if bytes.len() < ARCHIVE_FILE_HEADER_V1_LEN {
        return Err(
            ArchiveReplayError::Io {
                operation: "read commit idxlog header",
                path,
                source: IoFault::UnexpectedEnd,
            },
        );
    }
    let header = match ArchiveFileHeaderV1::from_bytes(&bytes[0..ARCHIVE_FILE_HEADER_V1_LEN]) {
        Ok(header) => header,
        Err(error) => {
            return Err(ArchiveReplayError::FileHeader(error));
        },
    };
    if header.file_kind != ArchiveFileKind::CommitIdxLog {
        return Err(ArchiveReplayError::InvalidCommitEntry("commit.idxlog has invalid file kind"));
    }
    match parse_entries(&bytes) {
        Ok(entries) => Ok(entries),
        Err(message) => Err(ArchiveReplayError::InvalidCommitEntry(message)),
    }
}

/// Reads the entries behind the header of a commit log.
pub fn parse_entries(bytes: &[u8]) -> (result: Result<Vec<CommitEntry>, &'static str>)
    requires
        76 <= bytes@.len(),
    ensures
        match result {
            Ok(entries) => strict_entries(bytes@, 76) == Ok::<Seq<CommitEntry>, &'static str>(
                entries@,
            ),
            Err(message) => strict_entries(bytes@, 76) == Err::<Seq<CommitEntry>, &'static str>(
                message,
            ),
        },
{
    let len: usize = bytes.len();
    let mut position: usize = ARCHIVE_FILE_HEADER_V1_LEN;
    let mut entries: Vec<CommitEntry> = Vec::new();
    assert(prepended(Seq::empty(), strict_entries(bytes@, 76)) == strict_entries(bytes@, 76)) by {
        if let Ok(rest) = strict_entries(bytes@, 76) {
            assert(Seq::<CommitEntry>::empty() + rest =~= rest);
        }
    }
    while position < len
        invariant
            len == bytes@.len(),
            76 <= position <= len,
            strict_entries(bytes@, 76) == prepended(
                entries@,
                strict_entries(bytes@, position as int),
            ),
        decreases len - position,
    {
        let remaining: usize = len - position;
        if remaining < COMMIT_ENTRY_PREFIX_LEN {
            if !range_is_zero(bytes, position, len) {
                return Err("commit.idxlog contains trailing non-zero bytes");
            }
            assert(entries@ + Seq::<CommitEntry>::empty() =~= entries@);
            return Ok(entries);
        }
        if range_is_zero(bytes, position, position + COMMIT_ENTRY_PREFIX_LEN) {
            if !range_is_zero(bytes, position + COMMIT_ENTRY_PREFIX_LEN, len) {
                return Err("commit.idxlog contains non-zero bytes after zero-tail marker");
            }
            assert(entries@ + Seq::<CommitEntry>::empty() =~= entries@);
            return Ok(entries);
        }
        if !has_entry_magic(bytes, position) {
            return Err("invalid commit entry magic");
        }
        let entry_len: usize = read_u16(bytes, position + COMMIT_OFFSET_ENTRY_LEN) as usize;
        if entry_len != COMMIT_ENTRY_LEN {
            return Err("invalid commit entry length");
        }
        if entry_len > remaining {
            return Err("commit.idxlog entry exceeds available bytes");
        }
        let entry = match decode_commit_entry(&bytes[position..position + COMMIT_ENTRY_LEN]) {
            Ok(entry) => entry,
            Err(message) => {
                return Err(message);
            },
        };
        proof {
            if let Ok(rest) = strict_entries(bytes@, position + 104) {
                assert(entries@ + (seq![entry] + rest) =~= entries@.push(entry) + rest);
            }
        }
        entries.push(entry);
        position = position + COMMIT_ENTRY_LEN;
    }
    assert(entries@ + Seq::<CommitEntry>::empty() =~= entries@);
    Ok(entries)
}

/// Tells whether the commit entry magic stands at `at`.
pub fn has_entry_magic(bytes: &[u8], at: usize) -> (has: bool)
    requires
        at + 4 <= bytes@.len(),
    ensures
        has == (bytes@.subrange(at as int, at + 4) == COMMIT_ENTRY_MAGIC@),
{
    let magic: [u8; 4] = [bytes[at], bytes[at + 1], bytes[at + 2], bytes[at + 3]];
    assert(bytes@.subrange(at as int, at + 4) =~= magic@);
    same_array4(&magic, &COMMIT_ENTRY_MAGIC)
}

/// Reads all commit logs.
pub fn read_commit_entries(store: &ArchiveStore) -> (result: Result<
    Vec<CommitEntry>,
    ArchiveReplayError,
>)
    ensures
        match result {
            Ok(entries) => all_entries(store@) == Ok::<Seq<CommitEntry>, ArchiveReplayError>(
                entries@,
            ),
            Err(error) => all_entries(store@) == Err::<Seq<CommitEntry>, ArchiveReplayError>(error),
        },
{
    let logs = list_commit_logs(store);
    if logs.len() == 0 {
        return Err(ArchiveReplayError::MissingCommitLog(ArchivePath::File(ArchiveFile::CommitLog)));
    }
    let mut entries: Vec<CommitEntry> = Vec::new();
    let n: usize = logs.len();
    for i in 0..n
        invariant
            n == logs@.len(),
            logs@ == commit_logs(store@),
            ordinals_follow(entries@),
            collected_entries(store@, logs@, 0, Seq::empty()) == collected_entries(
                store@,
                logs@,
                i as int,
                entries@,
            ),
    {
        let part = match read_commit_entries_single(store, logs[i]) {
            Ok(part) => part,
            Err(error) => {
                return Err(error);
            },
        };
        let ghost before = entries@;
        let m: usize = part.len();
        for j in 0..m
            invariant
                m == part@.len(),
                ordinals_follow(entries@),
                entries@ == before + part@.subrange(0, j as int),
                log_entries(store@, logs@[i as int]) == Ok::<Seq<CommitEntry>, ArchiveReplayError>(
                    part@,
                ),
                0 <= i < logs@.len(),
                logs@ == commit_logs(store@),
                collected_entries(store@, logs@, 0, Seq::empty()) == collected_entries(
                    store@,
                    logs@,
                    i as int,
                    before,
                ),
        {
            let entry = part[j];
            let last: u64 = if entries.len() == 0 {
                0
            } else {
                entries[entries.len() - 1].commit_ordinal
            };
            if last != 0 && entry.commit_ordinal <= last {
                proof {
                    let all = before + part@;
                    let k = (before.len() + j) as int;
                    assert(entries@.len() == k);
                    assert(all[k] == entry);
                    assert(all[k - 1] == entries@[k - 1]);
                    assert(!ordinal_follows(all, k));
                }
                return Err(
                    ArchiveReplayError::InvalidCommitEntry(
                        "commit idxlog files are not strictly ordered by commit ordinal",
                    ),
                );
            }
            let ghost shorter = entries@;
            entries.push(entry);
            assert(entries@ =~= before + part@.subrange(0, j + 1));
            assert forall|k: int| 0 <= k < entries@.len() implies #[trigger] ordinal_follows(
                entries@,
                k,
            ) by {
                if k < shorter.len() {
                    assert(ordinal_follows(shorter, k));
                }
            }
        }
        assert(part@.subrange(0, m as int) =~= part@);
    }
    Ok(entries)
}

/// What recovering the active commit log gives.
#[derive(Debug)]
pub struct CommitLogRecoveryResult {
    /// The entries that were kept.
    pub entries: Vec<CommitEntry>,
    /// Where the next entry goes.
    pub logical_end_offset: u64,
    /// How many bytes were cut off.
    pub truncated_bytes: u64,
}

/// Why the active commit log cannot be recovered, if it cannot.
pub open spec fn commit_log_recovery_error(store: StoreModel) -> Option<ArchiveRecorderError> {
    let path = ArchivePath::File(ArchiveFile::CommitLog);
    let s = store.bytes(ArchiveFile::CommitLog);
    if !store.has(ArchiveFile::CommitLog) {
        Some(
            ArchiveRecorderError::Io {
                operation: "open commit idxlog for recovery",
                path,
                source: IoFault::NotFound,
            },
        )
    } else if s.len() < 76 {
        Some(
            ArchiveRecorderError::Io {
                operation: "read commit idxlog recovery header",
                path,
                source: IoFault::UnexpectedEnd,
            },
        )
    } else {
        match file_header(s) {
            Err(error) => Some(ArchiveRecorderError::FileHeader(error)),
            Ok(header) => if header.file_kind != ArchiveFileKind::CommitIdxLog {
                Some(
                    ArchiveRecorderError::RecoveryInconsistent(
                        "commit.idxlog has invalid file kind",
                    ),
                )
            } else {
                None
            },
        }
    }
}

/// The entries that recovery keeps of the active commit log.
pub open spec fn kept_entries(store: StoreModel) -> Seq<CommitEntry> {
    recovered_entries(store.bytes(ArchiveFile::CommitLog), 76, store)
}

/// The end of the entries that recovery keeps of the active commit log.
pub open spec fn kept_end(store: StoreModel) -> int {
    76int + 104 * kept_entries(store).len()
}

/// The store after the active commit log was recovered.
pub open spec fn commit_log_recovered(store: StoreModel) -> StoreModel {
    if kept_end(store) < store.bytes(ArchiveFile::CommitLog).len() {
        store.with_len(ArchiveFile::CommitLog, kept_end(store) as u64)
    } else {
        store
    }
}

/// The kept entries lie within the log.
pub proof fn recovered_entries_fit(s: Seq<u8>, at: int, store: StoreModel)
    requires
        0 <= at <= s.len(),
    ensures
        at + 104 * recovered_entries(s, at, store).len() <= s.len(),
    decreases s.len() - at,
{
    if at < s.len() && recoverable_entry(s, at, store) is Some {
        recovered_entries_fit(s, at + 104, store);
    }
}

/// Keeps the longest run of entries whose frames are sound and cuts off the rest of the active
/// commit log.
pub fn recover_commit_log_entries(store: &mut ArchiveStore) -> (result: Result<
    CommitLogRecoveryResult,
    ArchiveRecorderError,
>)
    ensures
        final(store).base() == old(store).base(),
        match result {
            Ok(recovery) => {
                &&& commit_log_recovery_error(old(store)@) is None
                &&& recovery.entries@ == kept_entries(old(store)@)
                &&& recovery.logical_end_offset == kept_end(old(store)@)
                &&& recovery.logical_end_offset <= MAX_FILE_LEN
                &&& recovery.truncated_bytes == old(store)@.bytes(ArchiveFile::CommitLog).len()
                    - kept_end(old(store)@)
                &&& final(store)@ == commit_log_recovered(old(store)@)
            },
            Err(error) => commit_log_recovery_error(old(store)@) == Some(error) && final(store)@
                == old(store)@,
        },
{
    let file = ArchiveFile::CommitLog;
    let path = ArchivePath::File(file);
    let bytes = match store.read_all(file) {
        Ok(bytes) => bytes,
        Err(source) => {
            return Err(
                ArchiveRecorderError::Io {
                    operation: "open commit idxlog for recovery",
                    path,
                    source,
                },
            );
        },
    };
    if bytes.len() < ARCHIVE_FILE_HEADER_V1_LEN {
        return Err(
            ArchiveRecorderError::Io {
                operation: "read commit idxlog recovery header",
                path,
                source: IoFault::UnexpectedEnd,
            },
        );
    }
    let header = match ArchiveFileHeaderV1::from_bytes(&bytes[0..ARCHIVE_FILE_HEADER_V1_LEN]) {
        Ok(header) => header,
        Err(error) => {
            return Err(ArchiveRecorderError::FileHeader(error));
        },
    };
    if header.file_kind != ArchiveFileKind::CommitIdxLog {
        return Err(
            ArchiveRecorderError::RecoveryInconsistent("commit.idxlog has invalid file kind"),
        );
    }
    let (entries, end) = recover_entries(&bytes, store);
    proof {
        recovered_entries_fit(bytes@, 76, store@);
    }
    let truncated_bytes: u64 = (bytes.len() - end) as u64;
    if truncated_bytes > 0 {
        match store.set_len(file, end as u64, "truncate commit idxlog recovery tail") {
            Ok(()) => {},
            Err(_) => {},
        }
    }
    Ok(CommitLogRecoveryResult { entries, logical_end_offset: end as u64, truncated_bytes })
}

/// Finds the longest run of entries whose frames are sound, and its end.
pub fn recover_entries(bytes: &[u8], store: &ArchiveStore) -> (result: (Vec<CommitEntry>, usize))
    requires
        76 <= bytes@.len(),
    ensures
        result.0@ == recovered_entries(bytes@, 76, store@),
        result.1 == 76 + 104 * result.0@.len(),
        result.1 <= bytes@.len(),
{
    let len: usize = bytes.len();
    let mut end: usize = ARCHIVE_FILE_HEADER_V1_LEN;
    let mut entries: Vec<CommitEntry> = Vec::new();
    assert(Seq::<CommitEntry>::empty() + recovered_entries(bytes@, 76, store@)
        =~= recovered_entries(bytes@, 76, store@));
    while COMMIT_ENTRY_LEN <= len - end
        invariant
            len == bytes@.len(),
            76 <= end <= len,
            end == 76 + 104 * entries@.len(),
            recovered_entries(bytes@, 76, store@) == entries@ + recovered_entries(
                bytes@,
                end as int,
                store@,
            ),
        decreases len - end,
    {
        if !has_entry_magic(bytes, end) || read_u16(bytes, end + COMMIT_OFFSET_ENTRY_LEN)
            != COMMIT_ENTRY_LEN as u16 {
            assert(recoverable_entry(bytes@, end as int, store@) is None);
            assert(entries@ + Seq::<CommitEntry>::empty() =~= entries@);
            return (entries, end);
        }
        let entry = match decode_commit_entry(&bytes[end..end + COMMIT_ENTRY_LEN]) {
            Ok(entry) => entry,
            Err(_) => {
                assert(recoverable_entry(bytes@, end as int, store@) is None);
                assert(entries@ + Seq::<CommitEntry>::empty() =~= entries@);
                return (entries, end);
            },
        };
        if !locator_points_to_valid_frame(store, entry.locator) {
            assert(recoverable_entry(bytes@, end as int, store@) is None);
            assert(entries@ + Seq::<CommitEntry>::empty() =~= entries@);
            return (entries, end);
        }
        assert(recoverable_entry(bytes@, end as int, store@) == Some(entry));
        proof {
            let rest = recovered_entries(bytes@, end + 104, store@);
            assert(entries@ + (seq![entry] + rest) =~= entries@.push(entry) + rest);
        }
        entries.push(entry);
        end = end + COMMIT_ENTRY_LEN;
    }
    assert(recoverable_entry(bytes@, end as int, store@) is None);
    assert(entries@ + Seq::<CommitEntry>::empty() =~= entries@);
    (entries, end)
}

/// The bytes of a run of entries.
pub open spec fn entries_bytes(entries: Seq<CommitEntry>) -> Seq<u8>
    decreases entries.len(),
{
    if entries.len() == 0 {
        Seq::empty()
    } else {
        entries[0].encoded() + entries_bytes(entries.drop_first())
    }
}

/// An encoded entry is read as that entry, followed by what comes behind it.
pub proof fn written_entry_reads_back(s: Seq<u8>, at: int, entry: CommitEntry)
    requires
        0 <= at,
        at + 104 <= s.len(),
        s.subrange(at, at + 104) == entry.encoded(),
    ensures
        strict_entries(s, at) == prepended(seq![entry], strict_entries(s, at + 104)),
        decode_entry(s.subrange(at, at + 104)) == Ok::<CommitEntry, &'static str>(entry),
        s.subrange(at, at + 4) == COMMIT_ENTRY_MAGIC@,
        u16_at(s, at + 4) == 104,
{
    let e = entry.encoded();
    let t = s.subrange(at, at + 104);
    entry_round_trip(entry, COMMIT_ENTRY_MAGIC@);
    assert(s.subrange(at, at + 4) =~= e.subrange(0, 4));
    assert(t[0] == s[at] && t[4] == s[at + 4] && t[5] == s[at + 5]);
    assert(s.subrange(at, at + 4)[0] == s[at]);
    assert(s.subrange(at, at + 8)[0] == s[at]);
    assert(COMMIT_ENTRY_MAGIC@[0] == 0x43);
    assert(!all_zero(s.subrange(at, at + 8)));
}

/// Nothing but zeros reads as no entry.
pub proof fn zeros_read_as_no_entry(s: Seq<u8>, at: int)
    requires
        0 <= at <= s.len(),
        all_zero(s.subrange(at, s.len() as int)),
    ensures
        strict_entries(s, at) == Ok::<Seq<CommitEntry>, &'static str>(Seq::empty()),
{
    let t = s.subrange(at, s.len() as int);
    if s.len() - at >= 8 {
        let first = s.subrange(at, at + 8);
        let rest = s.subrange(at + 8, s.len() as int);
        assert forall|i: int| 0 <= i < first.len() implies first[i] == 0 by {
            assert(t[i] == first[i]);
        }
        assert forall|i: int| 0 <= i < rest.len() implies rest[i] == 0 by {
            assert(t[i + 8] == rest[i]);
        }
    }
}

/// A log that holds a run of entries and then only zeros reads as those entries.
#[verifier::spinoff_prover]
#[verifier::rlimit(60)]
pub proof fn written_entries_read_back(before: Seq<u8>, entries: Seq<CommitEntry>, free: nat)
    ensures
        strict_entries(before + entries_bytes(entries) + zeros(free), before.len() as int) == Ok::<
            Seq<CommitEntry>,
            &'static str,
        >(entries),
    decreases entries.len(),
{
    let s = before + entries_bytes(entries) + zeros(free);
    let at = before.len() as int;
    if entries.len() == 0 {
        zeros_read_as_no_entry(s, at);
        assert(entries =~= Seq::<CommitEntry>::empty());
    } else {
        let first = entries[0];
        let rest = entries.drop_first();
        let e = first.encoded();
        let tail = entries_bytes(rest);
        assert(e.len() == 104) by {
            entry_round_trip(first, COMMIT_ENTRY_MAGIC@);
        }
        assert((before + e) + tail + zeros(free) =~= before + (e + tail) + zeros(free));
        assert(s == before + (e + tail) + zeros(free));
        assert(s.subrange(at, at + 104) =~= e);
        written_entry_reads_back(s, at, first);
        written_entries_read_back(before + e, rest, free);
        assert(seq![first] + rest =~= entries);
    }
}

} // verus!
