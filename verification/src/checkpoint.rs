//! Where in the commit logs an indexer stands.

use crate::bytes::{all_zero, range_is_zero, read_u16, u16_at};
use crate::command::{CommandError, CommandFailure};
use crate::commit_entry::COMMIT_ENTRY_MAGIC;
use crate::commit_log::{commit_logs, has_entry_magic, list_commit_logs};
use crate::error::ArchiveFile;
use crate::layout::{file_place, locate_file};
use crate::store::{ArchiveStore, StoreModel};
use crate::text::{decimal, join_path, joined, push_decimal, push_text};
use vstd::prelude::*;

verus! {

/// What a scan of a commit log has found.
#[derive(Debug, Clone, Copy, PartialEq, Eq, Structural)]
pub struct CommitLogScan {
    /// Number of entries that were passed.
    pub entries: u64,
    /// End of the entry that was looked for.
    pub target_offset: Option<u64>,
}

/// What is wrong with a commit log.
#[derive(Debug, Clone, Copy, PartialEq, Eq, Structural)]
pub enum ScanFault {
    /// It is shorter than its header.
    ShorterThanHeader,
    /// Something stands behind its zeros.
    BytesBehindZeros,
    /// An entry does not start with the magic.
    InvalidMagic(u64),
    /// An entry is shorter than its prefix.
    EntryTooShort(u64),
    /// An entry reaches behind the end.
    EntryTooLong(u64),
}

/// What a scan from `at` on finds when `seen` entries were passed before.
pub open spec fn scan_from(s: Seq<u8>, at: int, seen: int, target: u64) -> Result<
    CommitLogScan,
    ScanFault,
>
    decreases s.len() - at,
{
    if at < 0 || at + 8 > s.len() {
        Ok(CommitLogScan { entries: seen as u64, target_offset: None })
    } else if all_zero(s.subrange(at, at + 8)) {
        if all_zero(s.subrange(at + 8, s.len() as int)) {
            Ok(CommitLogScan { entries: seen as u64, target_offset: None })
        } else {
            Err(ScanFault::BytesBehindZeros)
        }
    } else if s.subrange(at, at + 4) != COMMIT_ENTRY_MAGIC@ {
        Err(ScanFault::InvalidMagic(at as u64))
    } else {
        let len = u16_at(s, at + 4) as int;
        if len < 8 {
            Err(ScanFault::EntryTooShort(len as u64))
        } else if at + len > s.len() {
            Err(ScanFault::EntryTooLong(at as u64))
        } else if seen + 1 == target {
            Ok(
                CommitLogScan {
                    entries: (seen + 1) as u64,
                    target_offset: Some((at + len) as u64),
                },
            )
        } else {
            scan_from(s, at + len, seen + 1, target)
        }
    }
}

/// What a scan of a commit log finds.
pub open spec fn scanned(s: Seq<u8>, target: u64) -> Result<CommitLogScan, ScanFault> {
    if s.len() < 76 {
        Err(ScanFault::ShorterThanHeader)
    } else {
        scan_from(s, 76, 0, target)
    }
}

/// Passes the entries of a commit log up to the one with this number.
pub fn scan_entries(bytes: &[u8], target: u64) -> (result: Result<CommitLogScan, ScanFault>)
    ensures
        result == scanned(bytes@, target),
{
    let len: usize = bytes.len();
    if len < 76 {
        return Err(ScanFault::ShorterThanHeader);
    }
    let mut offset: usize = 76;
    let mut entries: u64 = 0;
    while len - offset >= 8
        invariant
            len == bytes@.len(),
            76 <= offset <= len,
            entries <= offset,
            scanned(bytes@, target) == scan_from(
                bytes@,
                offset as int,
                entries as int,
                target,
            ),
        decreases len - offset,
    {
        if range_is_zero(bytes, offset, offset + 8) {
            if !range_is_zero(bytes, offset + 8, len) {
                return Err(ScanFault::BytesBehindZeros);
            }
            return Ok(CommitLogScan { entries, target_offset: None });
        }
        if !has_entry_magic(bytes, offset) {
            return Err(ScanFault::InvalidMagic(offset as u64));
        }
        let entry_len: usize = read_u16(bytes, offset + 4) as usize;
        if entry_len < 8 {
            return Err(ScanFault::EntryTooShort(entry_len as u64));
        }
        if entry_len > len - offset {
            return Err(ScanFault::EntryTooLong(offset as u64));
        }
        entries = entries + 1;
        offset = offset + entry_len;
        if entries == target {
            return Ok(CommitLogScan { entries, target_offset: Some(offset as u64) });
        }
    }
    Ok(CommitLogScan { entries, target_offset: None })
}

/// The message about what is wrong with a commit log.
pub open spec fn fault_message(path: Seq<char>, fault: ScanFault) -> Seq<char> {
    "commit log '"@ + path + match fault {
        ScanFault::ShorterThanHeader => "' is shorter than archive header"@,
        ScanFault::BytesBehindZeros => "' contains non-zero bytes after zero-tail marker"@,
        ScanFault::InvalidMagic(offset) => "' contains invalid entry magic at offset "@ + decimal(
            offset as nat,
        ),
        ScanFault::EntryTooShort(len) => "' entry length "@ + decimal(len as nat)
            + " is smaller than prefix length"@,
        ScanFault::EntryTooLong(offset) => "' entry exceeds file bounds at offset "@ + decimal(
            offset as nat,
        ),
    }
}

/// The path of a file below the metadata-log root.
pub open spec fn log_path(root: Seq<char>, file: ArchiveFile) -> Seq<char> {
    joined(root, file_place(file).1)
}

/// Makes the error about what is wrong with a commit log.
fn make_fault(root: &str, file: ArchiveFile, fault: ScanFault) -> (error: CommandError)
    ensures
        error@ == CommandFailure::Internal(fault_message(log_path(root@, file), fault)),
{
    let (_, name) = locate_file(file);
    let path = join_path(root, name.as_str());
    let mut message = "commit log '".to_owned();
    push_text(&mut message, path.as_str());
    let ghost start = message@;
    match fault {
        ScanFault::ShorterThanHeader => {
            push_text(&mut message, "' is shorter than archive header");
        },
        ScanFault::BytesBehindZeros => {
            push_text(&mut message, "' contains non-zero bytes after zero-tail marker");
        },
        ScanFault::InvalidMagic(offset) => {
            push_text(&mut message, "' contains invalid entry magic at offset ");
            push_decimal(&mut message, offset);
        },
        ScanFault::EntryTooShort(len) => {
            push_text(&mut message, "' entry length ");
            push_decimal(&mut message, len);
            push_text(&mut message, " is smaller than prefix length");
        },
        ScanFault::EntryTooLong(offset) => {
            push_text(&mut message, "' entry exceeds file bounds at offset ");
            push_decimal(&mut message, offset);
        },
    }
    assert(message@ =~= fault_message(log_path(root@, file), fault));
    CommandError::Internal(message)
}

/// The message about a commit log that is not there.
pub open spec fn missing_log_message(path: Seq<char>) -> Seq<char> {
    "open commit log '"@ + path + "' failed: No such file or directory (os error 2)"@
}

/// Passes the entries of a commit log up to the one with this number.
pub fn scan_commit_log(
    store: &ArchiveStore,
    root: &str,
    file: ArchiveFile,
    target_ordinal_in_file: u64,
) -> (result: Result<CommitLogScan, CommandError>)
    ensures
        match result {
            Ok(scan) => store@.has(file) && scanned(store@.bytes(file), target_ordinal_in_file)
                == Ok::<CommitLogScan, ScanFault>(scan),
            Err(error) => if store@.has(file) {
                scanned(store@.bytes(file), target_ordinal_in_file) matches Err(fault) && error@
                    == CommandFailure::Internal(fault_message(log_path(root@, file), fault))
            } else {
                error@ == CommandFailure::Internal(missing_log_message(log_path(root@, file)))
            },
        },
{
    match store.read_all(file) {
        Ok(bytes) => match scan_entries(&bytes, target_ordinal_in_file) {
            Ok(scan) => Ok(scan),
            Err(fault) => Err(make_fault(root, file, fault)),
        },
        Err(_) => {
            let (_, name) = locate_file(file);
            let path = join_path(root, name.as_str());
            let mut message = "open commit log '".to_owned();
            push_text(&mut message, path.as_str());
            push_text(&mut message, "' failed: No such file or directory (os error 2)");
            Err(CommandError::Internal(message))
        },
    }
}

/// A place in the commit logs.
#[derive(Debug)]
pub struct CommitCheckpoint {
    /// Name of the log.
    pub roll_file: String,
    /// Offset in the log.
    pub byte_offset: u64,
}

/// A place in the commit logs, as a value.
pub struct CheckpointModel {
    pub roll_file: Seq<char>,
    pub byte_offset: u64,
}

impl View for CommitCheckpoint {
    type V = CheckpointModel;

    open spec fn view(&self) -> CheckpointModel {
        CheckpointModel { roll_file: self.roll_file@, byte_offset: self.byte_offset }
    }
}

/// The place behind the entry that is `remaining` entries behind the start of log `i`.
pub open spec fn checkpoint_from(
    store: StoreModel,
    root: Seq<char>,
    logs: Seq<ArchiveFile>,
    i: int,
    remaining: u64,
    wanted: u64,
) -> Result<CheckpointModel, CommandFailure>
    decreases logs.len() - i,
{
    if i >= logs.len() {
        Err(
            CommandFailure::Internal(
                "unable to resolve checkpoint for commit ordinal "@ + decimal(wanted as nat)
                    + " under '"@ + root + "'; visible ordinal range is smaller"@,
            ),
        )
    } else {
        match scanned(store.bytes(logs[i]), remaining) {
            Err(fault) => Err(
                CommandFailure::Internal(fault_message(log_path(root, logs[i]), fault)),
            ),
            Ok(scan) => match scan.target_offset {
                Some(offset) => Ok(
                    CheckpointModel { roll_file: file_place(logs[i]).1, byte_offset: offset },
                ),
                None => checkpoint_from(
                    store,
                    root,
                    logs,
                    i + 1,
                    if remaining < scan.entries {
                        0
                    } else {
                        (remaining - scan.entries) as u64
                    },
                    wanted,
                ),
            },
        }
    }
}

/// The place in the commit logs behind the entry with this number; the start of the last log
/// where no entry was indexed.
pub open spec fn checkpoint_of(store: StoreModel, root: Seq<char>, last_indexed: u64) -> Result<
    CheckpointModel,
    CommandFailure,
> {
    let logs = commit_logs(store);
    if logs.len() == 0 {
        Err(CommandFailure::Internal("no commit log files found in '"@ + root + "'"@))
    } else if last_indexed == 0 {
        Ok(CheckpointModel { roll_file: file_place(logs.last()).1, byte_offset: 76 })
    } else {
        checkpoint_from(store, root, logs, 0, last_indexed, last_indexed)
    }
}

/// Finds the place in the commit logs behind the entry with this number.
pub fn resolve_checkpoint(
    store: &ArchiveStore,
    metadata_log_path: &str,
    last_indexed_commit_ordinal: u64,
) -> (result: Result<CommitCheckpoint, CommandError>)
    ensures
        ({
            let expected = checkpoint_of(
                store@,
                metadata_log_path@,
                last_indexed_commit_ordinal,
            );
            match result {
                Ok(checkpoint) => expected == Ok::<CheckpointModel, CommandFailure>(checkpoint@),
                Err(error) => expected == Err::<CheckpointModel, CommandFailure>(error@),
            }
        }),
{
    let logs = list_commit_logs(store);
    let n: usize = logs.len();
    if n == 0 {
        let mut message = "no commit log files found in '".to_owned();
        push_text(&mut message, metadata_log_path);
        push_text(&mut message, "'");
        return Err(CommandError::Internal(message));
    }
    if last_indexed_commit_ordinal == 0 {
        let (_, roll_file) = locate_file(logs[n - 1]);
        return Ok(CommitCheckpoint { roll_file, byte_offset: 76 });
    }
    let mut remaining: u64 = last_indexed_commit_ordinal;
    for i in 0..n
        invariant
            n == logs@.len(),
            logs@ == commit_logs(store@),
            crate::commit_log::is_rolled_list(
                store@,
                crate::commit_log::rolled_indexes(store@),
            ),
            last_indexed_commit_ordinal != 0,
            checkpoint_of(store@, metadata_log_path@, last_indexed_commit_ordinal)
                == checkpoint_from(
                store@,
                metadata_log_path@,
                logs@,
                i as int,
                remaining,
                last_indexed_commit_ordinal,
            ),
    {
        proof {
            let r = crate::commit_log::rolled_indexes(store@);
            if i < r.len() {
                assert(r.contains(r[i as int]));
            }
        }
        match scan_commit_log(store, metadata_log_path, logs[i], remaining) {
            Err(error) => {
                return Err(error);
            },
            Ok(scan) => {
                if let Some(offset) = scan.target_offset {
                    let (_, roll_file) = locate_file(logs[i]);
                    return Ok(CommitCheckpoint { roll_file, byte_offset: offset });
                }
                remaining =
                if remaining < scan.entries {
                    0
                } else {
                    remaining - scan.entries
                };
            },
        }
    }
    let mut message = "unable to resolve checkpoint for commit ordinal ".to_owned();
    push_decimal(&mut message, last_indexed_commit_ordinal);
    push_text(&mut message, " under '");
    push_text(&mut message, metadata_log_path);
    push_text(&mut message, "'; visible ordinal range is smaller");
    Err(CommandError::Internal(message))
}

} // verus!
