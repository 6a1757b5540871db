//! The catalog of sealed segments, the segments on disk, and archive file headers in a store.

use crate::bytes::{u16_bytes, u32_bytes, u64_bytes, zeros};
use crate::checksum::crc32c_append_value;
use crate::commit_entry::{CommitEntry, COMMIT_ENTRY_LEN};
use crate::commit_log::file_header;
use crate::error::{ArchiveFile, ArchivePath, ArchiveRecorderError, IoFault};
use crate::header::{
    decode_header, header_round_trip, segment_identity_error, ArchiveFileHeaderV1, ArchiveFileKind,
    ARCHIVE_FILE_HEADER_V1_LEN, ARCHIVE_FILE_MAGIC,
};
use crate::order::{insert_key, keys_increasing, keys_increasing_unique, SegmentKey};
use crate::store::{overwritten, ArchiveStore, StoreModel};
use crate::summary::{summary_round_trip, SegmentSummary, SEGMENT_SUMMARY_LEN};
use crate::types::ArchiveSegmentTier;
use vstd::prelude::*;

verus! {

/// The summary file of a hot segment.
pub open spec fn hot_meta(segment_id: u64, segment_generation: u32) -> ArchiveFile {
    ArchiveFile::SegmentMeta {
        tier: ArchiveSegmentTier::HotAttached,
        segment_id,
        segment_generation,
    }
}

/// The number behind `x`, or `x` itself at the end of the range.
pub open spec fn next_number(x: u64) -> u64 {
    if x == u64::MAX {
        x
    } else {
        (x + 1) as u64
    }
}

/// The number behind `x`, or `x` itself at the end of the range.
pub fn following(x: u64) -> (next: u64)
    ensures
        next == next_number(x),
{
    if x == u64::MAX {
        x
    } else {
        x + 1
    }
}

/// The header bytes of a file before its CRC.
pub open spec fn new_header_prefix(
    kind: ArchiveFileKind,
    log_id: Seq<u8>,
    segment_id: u64,
    segment_generation: u32,
    created_at_ns: u64,
) -> Seq<u8> {
    ARCHIVE_FILE_MAGIC@ + u16_bytes(kind.code()) + u16_bytes(1) + u16_bytes(0) + u16_bytes(76)
        + u32_bytes(0) + u64_bytes(created_at_ns) + log_id + u64_bytes(segment_id) + u32_bytes(
        segment_generation,
    ) + zeros(20)
}

/// The header of a new file.
pub open spec fn new_header(
    kind: ArchiveFileKind,
    log_id: Seq<u8>,
    segment_id: u64,
    segment_generation: u32,
    created_at_ns: u64,
) -> Seq<u8> {
    let prefix = new_header_prefix(kind, log_id, segment_id, segment_generation, created_at_ns);
    prefix + u32_bytes(crc32c_append_value(crc32c_append_value(0, prefix), Seq::empty()))
}

/// What writing the header of a file makes of a store, and what comes of it.
pub open spec fn header_written(
    store: StoreModel,
    file: ArchiveFile,
    kind: ArchiveFileKind,
    log_id: Seq<u8>,
    segment_id: u64,
    segment_generation: u32,
    created_at_ns: u64,
) -> (StoreModel, Result<(), ArchiveRecorderError>) {
    match segment_identity_error(kind, segment_id, segment_generation) {
        Some(error) => (store, Err(ArchiveRecorderError::FileHeader(error))),
        None => match store.write_fault(file, 0, 76) {
            Some(source) => (
                store,
                Err(
                    ArchiveRecorderError::Io {
                        operation: "write archive header",
                        path: ArchivePath::File(file),
                        source,
                    },
                ),
            ),
            None => (
                store.written(
                    file,
                    0,
                    new_header(kind, log_id, segment_id, segment_generation, created_at_ns),
                ),
                Ok(()),
            ),
        },
    }
}

/// Writes the header of an archive file.
pub fn write_archive_header(
    store: &mut ArchiveStore,
    file: ArchiveFile,
    file_kind: ArchiveFileKind,
    log_id: [u8; 16],
    segment_id: u64,
    segment_generation: u32,
    created_at_ns: u64,
) -> (result: Result<(), ArchiveRecorderError>)
    ensures
        final(store).base() == old(store).base(),
        (final(store)@, result) == header_written(
            old(store)@,
            file,
            file_kind,
            log_id@,
            segment_id,
            segment_generation,
            created_at_ns,
        ),
{
    let mut header = ArchiveFileHeaderV1::new(file_kind);
    header.log_id = log_id;
    header.created_at_ns = created_at_ns;
    header.segment_id = segment_id;
    header.segment_generation = segment_generation;
    assert(header.flags & crate::header::ARCHIVE_FILE_MUST_UNDERSTAND_FLAGS_MASK == 0) by {
        assert(0u32 & 0xFF00_0000u32 == 0) by (bit_vector);
    }
    assert(header.prefix_bytes() =~= new_header_prefix(
        file_kind,
        log_id@,
        segment_id,
        segment_generation,
        created_at_ns,
    ));
    let bytes = match header.to_bytes() {
        Ok(bytes) => bytes,
        Err(error) => {
            return Err(ArchiveRecorderError::FileHeader(error));
        },
    };
    match store.write_at(file, 0, &bytes, "write archive header") {
        Ok(()) => Ok(()),
        Err(source) => Err(
            ArchiveRecorderError::Io {
                operation: "write archive header",
                path: ArchivePath::File(file),
                source,
            },
        ),
    }
}

/// A written header names the log and the file kind that it was written with.
pub proof fn new_header_reads_back(
    kind: ArchiveFileKind,
    log_id: [u8; 16],
    segment_id: u64,
    segment_generation: u32,
    created_at_ns: u64,
)
    requires
        segment_identity_error(kind, segment_id, segment_generation) is None,
    ensures
        ({
            let s = new_header(kind, log_id@, segment_id, segment_generation, created_at_ns);
            &&& s.len() == 76
            &&& decode_header(s) is Ok
            &&& decode_header(s)->Ok_0.file_kind == kind
            &&& decode_header(s)->Ok_0.log_id == log_id
            &&& decode_header(s)->Ok_0.segment_id == segment_id
            &&& decode_header(s)->Ok_0.segment_generation == segment_generation
            &&& decode_header(s)->Ok_0.created_at_ns == created_at_ns
        }),
{
    let z = zeros(20);
    let header = ArchiveFileHeaderV1 {
        magic: ARCHIVE_FILE_MAGIC,
        file_kind: kind,
        major: 1,
        minor: 0,
        header_len: 76,
        flags: 0,
        created_at_ns,
        log_id,
        segment_id,
        segment_generation,
        reserved: crate::header::array20_at(z, 0),
        header_crc32c: 0,
    };
    assert(header.flags & crate::header::ARCHIVE_FILE_MUST_UNDERSTAND_FLAGS_MASK == 0) by {
        assert(0u32 & 0xFF00_0000u32 == 0) by (bit_vector);
    }
    assert(header.reserved@ =~= zeros(20));
    assert(header.prefix_bytes() == new_header_prefix(
        kind,
        log_id@,
        segment_id,
        segment_generation,
        created_at_ns,
    ));
    header_round_trip(header);
}

/// What reading the log id of an archive file gives.
pub open spec fn log_id_of(store: StoreModel, file: ArchiveFile, kind: ArchiveFileKind) -> Result<
    [u8; 16],
    ArchiveRecorderError,
> {
    let path = ArchivePath::File(file);
    if !store.has(file) {
        Err(
            ArchiveRecorderError::Io {
                operation: "open archive header for recovery",
                path,
                source: IoFault::NotFound,
            },
        )
    } else if store.bytes(file).len() < 76 {
        Err(
            ArchiveRecorderError::Io {
                operation: "read archive header for recovery",
                path,
                source: IoFault::UnexpectedEnd,
            },
        )
    } else {
        match file_header(store.bytes(file)) {
            Err(error) => Err(ArchiveRecorderError::FileHeader(error)),
            Ok(header) => if header.file_kind != kind {
                Err(
                    ArchiveRecorderError::RecoveryInconsistent(
                        "archive file header has unexpected file kind",
                    ),
                )
            } else {
                Ok(header.log_id)
            },
        }
    }
}

/// Reads the log id from the header of an archive file.
pub fn read_log_id_from_archive_header(
    store: &ArchiveStore,
    file: ArchiveFile,
    expected_kind: ArchiveFileKind,
) -> (result: Result<[u8; 16], ArchiveRecorderError>)
    ensures
        result == log_id_of(store@, file, expected_kind),
{
    let path = ArchivePath::File(file);
    let bytes = match store.read(file, 0, ARCHIVE_FILE_HEADER_V1_LEN) {
        Ok(bytes) => bytes,
        Err(IoFault::NotFound) => {
            return Err(
                ArchiveRecorderError::Io {
                    operation: "open archive header for recovery",
                    path,
                    source: IoFault::NotFound,
                },
            );
        },
        Err(source) => {
            return Err(
                ArchiveRecorderError::Io {
                    operation: "read archive header for recovery",
                    path,
                    source,
                },
            );
        },
    };
    let header = match ArchiveFileHeaderV1::from_bytes(&bytes) {
        Ok(header) => header,
        Err(error) => {
            return Err(ArchiveRecorderError::FileHeader(error));
        },
    };
    if header.file_kind != expected_kind {
        return Err(
            ArchiveRecorderError::RecoveryInconsistent(
                "archive file header has unexpected file kind",
            ),
        );
    }
    Ok(header.log_id)
}

/// The summaries behind the header of a catalog.
pub open spec fn catalog_summaries(s: Seq<u8>) -> Seq<SegmentSummary> {
    Seq::new(
        ((s.len() - 76) / 88) as nat,
        |i: int| SegmentSummary::decoded(s, 76 + 88 * i),
    )
}

/// What reading the catalog gives.
pub open spec fn catalog_entries(store: StoreModel) -> Result<
    Seq<SegmentSummary>,
    ArchiveRecorderError,
> {
    let path = ArchivePath::File(ArchiveFile::Catalog);
    let s = store.bytes(ArchiveFile::Catalog);
    if !store.has(ArchiveFile::Catalog) {
        Err(
            ArchiveRecorderError::Io { operation: "open catalog", path, source: IoFault::NotFound },
        )
    } else if s.len() < 76 {
        Err(
            ArchiveRecorderError::Io {
                operation: "read catalog header",
                path,
                source: IoFault::UnexpectedEnd,
            },
        )
    } else {
        match file_header(s) {
            Err(error) => Err(ArchiveRecorderError::FileHeader(error)),
            Ok(header) => if header.file_kind != ArchiveFileKind::Catalog {
                Err(
                    ArchiveRecorderError::RecoveryInconsistent("catalog.bin has invalid file kind"),
                )
            } else if (s.len() - 76) % 88 != 0 {
                Err(
                    ArchiveRecorderError::RecoveryInconsistent(
                        "catalog summary area is not aligned to segment summary length",
                    ),
                )
            } else {
                Ok(catalog_summaries(s))
            },
        }
    }
}

/// Reads the catalog.
pub fn read_catalog_entries(store: &ArchiveStore) -> (result: Result<
    Vec<SegmentSummary>,
    ArchiveRecorderError,
>)
    ensures
        match result {
            Ok(summaries) => catalog_entries(store@) == Ok::<
                Seq<SegmentSummary>,
                ArchiveRecorderError,
            >(summaries@),
            Err(error) => catalog_entries(store@) == Err::<
                Seq<SegmentSummary>,
                ArchiveRecorderError,
            >(error),
        },
{
    let path = ArchivePath::File(ArchiveFile::Catalog);
    let bytes = match store.read_all(ArchiveFile::Catalog) {
        Ok(bytes) => bytes,
        Err(source) => {
            return Err(ArchiveRecorderError::Io { operation: "open catalog", path, source });
        },
    };
    if bytes.len() < ARCHIVE_FILE_HEADER_V1_LEN {
        return Err(
            ArchiveRecorderError::Io {
                operation: "read catalog header",
                path,
                source: IoFault::UnexpectedEnd,
            },
        );
    }
    let header = match ArchiveFileHeaderV1::from_bytes(&bytes[0..ARCHIVE_FILE_HEADER_V1_LEN]) {
        Ok(header) => header,
        Err(error) => {
            return Err(ArchiveRecorderError::FileHeader(error));
        },
    };
    if header.file_kind != ArchiveFileKind::Catalog {
        return Err(ArchiveRecorderError::RecoveryInconsistent("catalog.bin has invalid file kind"));
    }
    let len: usize = bytes.len();
    let remaining: usize = len - ARCHIVE_FILE_HEADER_V1_LEN;
    if remaining % SEGMENT_SUMMARY_LEN != 0 {
        return Err(
            ArchiveRecorderError::RecoveryInconsistent(
                "catalog summary area is not aligned to segment summary length",
            ),
        );
    }
    let count: usize = remaining / SEGMENT_SUMMARY_LEN;
    let mut summaries: Vec<SegmentSummary> = Vec::new();
    let mut at: usize = ARCHIVE_FILE_HEADER_V1_LEN;
    for i in 0..count
        invariant
            len == bytes@.len(),
            len == 76 + 88 * count,
            at == 76 + 88 * i,
            summaries@ == catalog_summaries(bytes@).subrange(0, i as int),
            catalog_summaries(bytes@).len() == count,
    {
        let part = &bytes[at..at + SEGMENT_SUMMARY_LEN];
        let summary = SegmentSummary::from_bytes(part);
        proof {
            summary_stands_alone(bytes@, 76 + 88 * i);
        }
        summaries.push(summary);
        assert(summaries@ =~= catalog_summaries(bytes@).subrange(0, i + 1));
        at = at + SEGMENT_SUMMARY_LEN;
    }
    assert(catalog_summaries(bytes@).subrange(0, count as int) =~= catalog_summaries(bytes@));
    Ok(summaries)
}

/// A summary is decoded from its own bytes alone.
pub proof fn summary_stands_alone(s: Seq<u8>, at: int)
    requires
        0 <= at,
        at + 88 <= s.len(),
    ensures
        SegmentSummary::decoded(s, at) == SegmentSummary::decoded(s.subrange(at, at + 88), 0),
{
    let t = s.subrange(at, at + 88);
    assert(forall|k: int| 0 <= k < 88 ==> #[trigger] t[k] == s[at + k]);
}

/// A summary written at the end of a catalog is read behind the ones that were there.
pub proof fn appended_summary_reads_back(s: Seq<u8>, summary: SegmentSummary)
    requires
        s.len() >= 76,
        (s.len() - 76) % 88 == 0,
    ensures
        ({
            let t = overwritten(s, s.len(), summary.encoded());
            &&& t.len() == s.len() + 88
            &&& (t.len() - 76) % 88 == 0
            &&& t.subrange(0, 76) == s.subrange(0, 76)
            &&& catalog_summaries(t) == catalog_summaries(s).push(summary)
        }),
{
    summary_round_trip(summary);
    let e = summary.encoded();
    let t = overwritten(s, s.len(), e);
    assert(t =~= s + e);
    assert(t.subrange(0, 76) =~= s.subrange(0, 76));
    let n = (s.len() - 76) / 88;
    assert(s.len() == 76 + 88 * n);
    assert forall|i: int| 0 <= i <= n implies #[trigger] catalog_summaries(t)[i]
        == catalog_summaries(s).push(summary)[i] by {
        let at = 76 + 88 * i;
        summary_stands_alone(t, at);
        if i < n {
            summary_stands_alone(s, at);
            assert(t.subrange(at, at + 88) =~= s.subrange(at, at + 88));
        } else {
            assert(t.subrange(at, at + 88) =~= e);
        }
    }
    assert(catalog_summaries(t) =~= catalog_summaries(s).push(summary));
}

/// The file is a data file of the hot segment, under the name that the archive gives it or another.
pub open spec fn is_data_of(file: ArchiveFile, key: SegmentKey) -> bool {
    ||| file == crate::frame::hot_data(key.0, key.1)
    ||| file == (ArchiveFile::SegmentDataAlias { segment_id: key.0, segment_generation: key.1 })
}

/// A data file of the hot segment lies among the segments.
pub open spec fn data_listed(store: StoreModel, key: SegmentKey) -> bool {
    ||| store.has(crate::frame::hot_data(key.0, key.1))
    ||| store.has(
        ArchiveFile::SegmentDataAlias { segment_id: key.0, segment_generation: key.1 },
    )
}

/// `list` holds the keys of the data files of hot segments.
pub open spec fn is_segment_list(store: StoreModel, list: Seq<SegmentKey>) -> bool {
    &&& keys_increasing(list)
    &&& forall|key: SegmentKey| #[trigger] list.contains(key) <==> data_listed(store, key)
}

/// The keys of the data files of hot segments, in order.
pub open spec fn data_segments(store: StoreModel) -> Seq<SegmentKey> {
    choose|list: Seq<SegmentKey>| is_segment_list(store, list)
}

/// Lists the data files of hot segments by segment id and generation.
pub fn list_data_segments(store: &ArchiveStore) -> (segments: Vec<SegmentKey>)
    ensures
        segments@ == data_segments(store@),
        is_segment_list(store@, segments@),
{
    let mut segments: Vec<SegmentKey> = Vec::new();
    let files = store.files();
    let n: usize = files.len();
    for i in 0..n
        invariant
            n == files@.len(),
            keys_increasing(segments@),
            forall|key: SegmentKey|
                #[trigger] segments@.contains(key) <==> exists|j: int|
                    0 <= j < i && is_data_of(#[trigger] files@[j], key),
    {
        let ghost before = segments@;
        let named: Option<SegmentKey> = match files[i] {
            ArchiveFile::SegmentData { tier, segment_id, segment_generation } => match tier {
                ArchiveSegmentTier::HotAttached => Some((segment_id, segment_generation)),
                ArchiveSegmentTier::ColdDetached => None,
            },
            ArchiveFile::SegmentDataAlias { segment_id, segment_generation } => Some(
                (segment_id, segment_generation),
            ),
            _ => None,
        };
        if let Some(key) = named {
            insert_key(&mut segments, key);
        }
        assert forall|key: SegmentKey| #[trigger] segments@.contains(key) <==> exists|j: int|
            0 <= j < i + 1 && is_data_of(#[trigger] files@[j], key) by {
            assert(is_data_of(files@[i as int], key) <==> named == Some(key));
            assert(segments@.contains(key) <==> before.contains(key) || named == Some(key));
            if before.contains(key) {
                let j = choose|j: int| 0 <= j < i && is_data_of(#[trigger] files@[j], key);
                assert(0 <= j < i + 1 && is_data_of(files@[j], key));
            }
            if exists|j: int| 0 <= j < i + 1 && is_data_of(#[trigger] files@[j], key) {
                let j = choose|j: int| 0 <= j < i + 1 && is_data_of(#[trigger] files@[j], key);
                if j < i {
                    assert(before.contains(key));
                }
            }
        }
    }
    assert forall|key: SegmentKey| #[trigger] segments@.contains(key) <==> data_listed(
        store@,
        key,
    ) by {
        let own = crate::frame::hot_data(key.0, key.1);
        let other = ArchiveFile::SegmentDataAlias {
            segment_id: key.0,
            segment_generation: key.1,
        };
        assert(store@.has(own) <==> files@.contains(own));
        assert(store@.has(other) <==> files@.contains(other));
        if segments@.contains(key) {
            let j = choose|j: int| 0 <= j < n && is_data_of(#[trigger] files@[j], key);
            assert(files@.contains(files@[j]));
        }
        if files@.contains(own) {
            let j = choose|j: int| 0 <= j < files@.len() && files@[j] == own;
            assert(0 <= j < n && is_data_of(files@[j], key));
        }
        if files@.contains(other) {
            let j = choose|j: int| 0 <= j < files@.len() && files@[j] == other;
            assert(0 <= j < n && is_data_of(files@[j], key));
        }
    }
    proof {
        segment_list_unique(store@, segments@);
    }
    segments
}

/// There is one list of hot segments.
pub proof fn segment_list_unique(store: StoreModel, list: Seq<SegmentKey>)
    requires
        is_segment_list(store, list),
    ensures
        list == data_segments(store),
{
    let q = data_segments(store);
    assert(is_segment_list(store, q));
    assert forall|x: SegmentKey| list.contains(x) <==> q.contains(x) by {
        assert(list.contains(x) <==> data_listed(store, x));
        assert(q.contains(x) <==> data_listed(store, x));
    }
    keys_increasing_unique(list, q);
}

/// The first segment from `i` on that has no summary file.
pub open spec fn first_unsealed(store: StoreModel, segments: Seq<SegmentKey>, i: int) -> Option<
    SegmentKey,
>
    decreases segments.len() - i,
{
    if i >= segments.len() {
        None
    } else if !store.has(hot_meta(segments[i].0, segments[i].1)) {
        Some(segments[i])
    } else {
        first_unsealed(store, segments, i + 1)
    }
}

/// The largest segment id among the first `n` summaries, or zero.
pub open spec fn max_summary_id(summaries: Seq<SegmentSummary>, n: int) -> u64
    decreases n,
{
    if n <= 0 {
        0
    } else if summaries[n - 1].segment_id > max_summary_id(summaries, n - 1) {
        summaries[n - 1].segment_id
    } else {
        max_summary_id(summaries, n - 1)
    }
}

/// The largest generation among the first `n` segments, or zero.
pub open spec fn max_generation(segments: Seq<SegmentKey>, n: int) -> u32
    decreases n,
{
    if n <= 0 {
        0
    } else if segments[n - 1].1 > max_generation(segments, n - 1) {
        segments[n - 1].1
    } else {
        max_generation(segments, n - 1)
    }
}

/// The segment in which a recovered recorder goes on: the one of the last commit, or the one
/// behind it where that one is sealed; without commits the first unsealed one, or a new one.
pub open spec fn active_segment_for_recovery(
    store: StoreModel,
    segments: Seq<SegmentKey>,
    summaries: Seq<SegmentSummary>,
    entries: Seq<CommitEntry>,
    default_generation: u32,
) -> SegmentKey {
    if entries.len() > 0 {
        let last = entries.last().locator;
        if store.has(hot_meta(last.segment_id, last.segment_generation)) {
            (next_number(last.segment_id), last.segment_generation)
        } else {
            (last.segment_id, last.segment_generation)
        }
    } else {
        match first_unsealed(store, segments, 0) {
            Some(key) => key,
            None => (
                next_number(
                    if summaries.len() > 0 {
                        max_summary_id(summaries, summaries.len() as int)
                    } else if segments.len() > 0 {
                        segments.last().0
                    } else {
                        0
                    },
                ),
                if segments.len() > 0 {
                    max_generation(segments, segments.len() as int)
                } else {
                    default_generation
                },
            ),
        }
    }
}

/// Selects the segment in which a recovered recorder goes on.
pub fn determine_active_segment_for_recovery(
    store: &ArchiveStore,
    data_segments: &[SegmentKey],
    catalog_summaries: &[SegmentSummary],
    commit_entries: &[CommitEntry],
    default_generation: u32,
) -> (key: SegmentKey)
    requires
        keys_increasing(data_segments@),
    ensures
        key == active_segment_for_recovery(
            store@,
            data_segments@,
            catalog_summaries@,
            commit_entries@,
            default_generation,
        ),
{
    if commit_entries.len() > 0 {
        let last = commit_entries[commit_entries.len() - 1].locator;
        let meta = ArchiveFile::SegmentMeta {
            tier: ArchiveSegmentTier::HotAttached,
            segment_id: last.segment_id,
            segment_generation: last.segment_generation,
        };
        return if store.contains(meta) {
            (following(last.segment_id), last.segment_generation)
        } else {
            (last.segment_id, last.segment_generation)
        };
    }
    let n: usize = data_segments.len();
    for i in 0..n
        invariant
            n == data_segments@.len(),
            commit_entries@.len() == 0,
            first_unsealed(store@, data_segments@, 0) == first_unsealed(
                store@,
                data_segments@,
                i as int,
            ),
    {
        let key = data_segments[i];
        let meta = ArchiveFile::SegmentMeta {
            tier: ArchiveSegmentTier::HotAttached,
            segment_id: key.0,
            segment_generation: key.1,
        };
        if !store.contains(meta) {
            return key;
        }
    }
    let m: usize = catalog_summaries.len();
    let mut highest: u64 = 0;
    for i in 0..m
        invariant
            m == catalog_summaries@.len(),
            highest == max_summary_id(catalog_summaries@, i as int),
    {
        if catalog_summaries[i].segment_id > highest {
            highest = catalog_summaries[i].segment_id;
        }
    }
    if m == 0 && n > 0 {
        highest = data_segments[n - 1].0;
    }
    let mut generation: u32 = 0;
    for i in 0..n
        invariant
            n == data_segments@.len(),
            generation == max_generation(data_segments@, i as int),
    {
        if data_segments[i].1 > generation {
            generation = data_segments[i].1;
        }
    }
    if n == 0 {
        generation = default_generation;
    }
    (following(highest), generation)
}

/// How long the commit log becomes when room for more entries is reserved behind
/// `logical_end`.
pub open spec fn preallocated_len(
    logical_end: u64,
    entries: usize,
    max_file_len: u64,
) -> Result<u64, ArchiveRecorderError> {
    let reserved = if entries * 104 > usize::MAX {
        usize::MAX as int
    } else {
        entries * 104
    };
    let target = logical_end + reserved;
    if target > u64::MAX {
        Err(
            ArchiveRecorderError::InvalidConfiguration(
                "metadata-log preallocation length overflow",
            ),
        )
    } else if max_file_len < logical_end {
        Err(
            ArchiveRecorderError::InvalidConfiguration(
                "metadata-log preallocation target below logical end",
            ),
        )
    } else if target > max_file_len {
        Ok(max_file_len)
    } else {
        Ok(target as u64)
    }
}

/// What reserving room in the commit log makes of a store, and what comes of it.
pub open spec fn preallocated(
    store: StoreModel,
    logical_end: u64,
    entries: usize,
    max_file_len: u64,
) -> (StoreModel, Result<u64, ArchiveRecorderError>) {
    match preallocated_len(logical_end, entries, max_file_len) {
        Err(error) => (store, Err(error)),
        Ok(target) => match store.resize_fault(ArchiveFile::CommitLog, target) {
            Some(source) => (
                store,
                Err(
                    ArchiveRecorderError::Io {
                        operation: "preallocate commit idxlog",
                        path: ArchivePath::File(ArchiveFile::CommitLog),
                        source,
                    },
                ),
            ),
            None => (store.with_len(ArchiveFile::CommitLog, target), Ok(target)),
        },
    }
}

/// Reserves room for more entries in the active commit log.
pub fn preallocate_metadata_log(
    store: &mut ArchiveStore,
    logical_end_offset: u64,
    preallocate_entries: usize,
    max_file_len: u64,
) -> (result: Result<u64, ArchiveRecorderError>)
    ensures
        final(store).base() == old(store).base(),
        (final(store)@, result) == preallocated(
            old(store)@,
            logical_end_offset,
            preallocate_entries,
            max_file_len,
        ),
{
    let reserved: u64 = if preallocate_entries > usize::MAX / COMMIT_ENTRY_LEN {
        usize::MAX as u64
    } else {
        (preallocate_entries * COMMIT_ENTRY_LEN) as u64
    };
    if reserved > u64::MAX - logical_end_offset {
        return Err(
            ArchiveRecorderError::InvalidConfiguration(
                "metadata-log preallocation length overflow",
            ),
        );
    }
    let mut target: u64 = logical_end_offset + reserved;
    if target > max_file_len {
        target = max_file_len;
    }
    if target < logical_end_offset {
        return Err(
            ArchiveRecorderError::InvalidConfiguration(
                "metadata-log preallocation target below logical end",
            ),
        );
    }
    match store.set_len(ArchiveFile::CommitLog, target, "preallocate commit idxlog") {
        Ok(()) => Ok(target),
        Err(source) => Err(
            ArchiveRecorderError::Io {
                operation: "preallocate commit idxlog",
                path: ArchivePath::File(ArchiveFile::CommitLog),
                source,
            },
        ),
    }
}

} // verus!
