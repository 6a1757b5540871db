//! The queue of writes that are handed to an asynchronous ring.

use crate::error::{ArchivePath, ArchiveRecorderError, IoFault};
use crate::layout::same_text;
use crate::types::ArchiveRecorderStats;
use std::collections::BTreeMap;
use vstd::prelude::*;

verus! {

/// Marks the entry that ends the completion worker.
pub const IO_URING_SHUTDOWN_USER_DATA: u64 = 0xffff_ffff_ffff_ffff;

/// Marks of entries that are waited for directly start here.
pub const IO_URING_DIRECT_USER_DATA_START: u64 = 0x7fff_ffff_ffff_ffff;

/// A write that is not complete yet.
#[derive(Debug)]
pub struct PendingWrite {
    /// Descriptor of the file.
    pub fd: i32,
    /// Offset in the file.
    pub offset: u64,
    /// How many bytes are written.
    pub written: usize,
    /// What is written, one part behind the other.
    pub parts: Vec<Vec<u8>>,
    /// Name of the operation.
    pub operation: &'static str,
    /// The file.
    pub path: ArchivePath,
}

/// The bytes of the first `n` parts.
pub open spec fn part_bytes(parts: Seq<Vec<u8>>, n: int) -> Seq<u8>
    decreases n,
{
    if n <= 0 {
        Seq::empty()
    } else {
        part_bytes(parts, n - 1) + parts[n - 1]@
    }
}

impl PendingWrite {
    /// All bytes of the write.
    pub open spec fn content(self) -> Seq<u8> {
        part_bytes(self.parts@, self.parts@.len() as int)
    }

    /// The bytes that are still to be written.
    pub open spec fn rest(self) -> Seq<u8> {
        self.content().subrange(self.written as int, self.content().len() as int)
    }

    /// The write can be made: its end is within reach.
    pub open spec fn fits(self) -> bool {
        self.content().len() <= usize::MAX && self.offset + self.content().len() <= u64::MAX
    }
}

/// More parts do not make fewer bytes.
proof fn parts_grow(parts: Seq<Vec<u8>>, n: int)
    requires
        0 <= n <= parts.len(),
    ensures
        part_bytes(parts, n).len() <= part_bytes(parts, parts.len() as int).len(),
    decreases parts.len() - n,
{
    if n < parts.len() {
        parts_grow(parts, n + 1);
    }
}

/// Gives the length of a write.
pub fn total_len(write: &PendingWrite) -> (total: usize)
    requires
        write.fits(),
    ensures
        total == write.content().len(),
{
    let n: usize = write.parts.len();
    let mut total: usize = 0;
    for i in 0..n
        invariant
            n == write.parts@.len(),
            write.fits(),
            total == part_bytes(write.parts@, i as int).len(),
    {
        proof {
            parts_grow(write.parts@, i + 1);
        }
        total = total + write.parts[i].len();
    }
    total
}

/// Consecutive bytes of a part.
#[derive(Debug, Clone, Copy, PartialEq, Eq, Structural)]
pub struct Chunk {
    /// The part.
    pub part: usize,
    /// Where in the part it starts.
    pub start: usize,
    /// How long it is.
    pub len: usize,
}

/// A chunk lies within its part and is not empty.
pub open spec fn is_chunk(parts: Seq<Vec<u8>>, chunk: Chunk) -> bool {
    chunk.part < parts.len() && chunk.len > 0 && chunk.start + chunk.len
        <= parts[chunk.part as int]@.len()
}

/// The bytes of a chunk.
pub open spec fn chunk_bytes(parts: Seq<Vec<u8>>, chunk: Chunk) -> Seq<u8> {
    parts[chunk.part as int]@.subrange(chunk.start as int, chunk.start + chunk.len)
}

/// The bytes of chunks, one behind the other.
pub open spec fn all_chunk_bytes(parts: Seq<Vec<u8>>, chunks: Seq<Chunk>) -> Seq<u8>
    decreases chunks.len(),
{
    if chunks.len() == 0 {
        Seq::empty()
    } else {
        all_chunk_bytes(parts, chunks.drop_last()) + chunk_bytes(parts, chunks.last())
    }
}

/// Cuts what lies behind the first `skip` bytes into chunks.
pub fn build_chunks(parts: &[Vec<u8>], skip: usize) -> (chunks: Vec<Chunk>)
    requires
        skip <= part_bytes(parts@, parts@.len() as int).len(),
    ensures
        all_chunk_bytes(parts@, chunks@) == part_bytes(parts@, parts@.len() as int).subrange(
            skip as int,
            part_bytes(parts@, parts@.len() as int).len() as int,
        ),
        forall|i: int| 0 <= i < chunks@.len() ==> is_chunk(parts@, #[trigger] chunks@[i]),
{
    let n: usize = parts.len();
    let mut chunks: Vec<Chunk> = Vec::new();
    let mut left: usize = skip;
    for i in 0..n
        invariant
            n == parts@.len(),
            ({
                let seen = part_bytes(parts@, i as int);
                if seen.len() <= skip {
                    left == skip - seen.len() && chunks@.len() == 0
                } else {
                    left == 0 && all_chunk_bytes(parts@, chunks@) == seen.subrange(
                        skip as int,
                        seen.len() as int,
                    )
                }
            }),
            forall|k: int| 0 <= k < chunks@.len() ==> is_chunk(parts@, #[trigger] chunks@[k]),
    {
        let len: usize = parts[i].len();
        let ghost seen = part_bytes(parts@, i as int);
        let ghost more = part_bytes(parts@, i + 1);
        assert(more == seen + parts@[i as int]@);
        if len == 0 {
            assert(more =~= seen);
        } else if left >= len {
            left = left - len;
        } else {
            let chunk = Chunk { part: i, start: left, len: len - left };
            let ghost before = chunks@;
            chunks.push(chunk);
            assert(chunks@.drop_last() =~= before);
            proof {
                if seen.len() <= skip {
                    assert(all_chunk_bytes(parts@, before) =~= Seq::<u8>::empty());
                    assert(all_chunk_bytes(parts@, chunks@) =~= more.subrange(
                        skip as int,
                        more.len() as int,
                    ));
                } else {
                    assert(chunk_bytes(parts@, chunk) =~= parts@[i as int]@);
                    assert(all_chunk_bytes(parts@, chunks@) =~= more.subrange(
                        skip as int,
                        more.len() as int,
                    ));
                }
            }
            left = 0;
        }
    }
    let ghost all = part_bytes(parts@, n as int);
    if chunks.len() == 0 {
        assert(all_chunk_bytes(parts@, chunks@) =~= all.subrange(skip as int, all.len() as int));
    }
    chunks
}

/// What the queue counts.
#[derive(Debug, Clone, Copy, PartialEq, Eq, Structural)]
pub struct WriteQueueStats {
    /// Writes that were put into the queue.
    pub enqueued_writes: u64,
    /// Submissions to the ring.
    pub submit_calls: u64,
    /// Entries that were submitted.
    pub submitted_write_sqes: u64,
    /// Writes that are complete.
    pub completed_writes: u64,
    /// How often the ring was waited for.
    pub wait_calls: u64,
    /// Most writes that were pending at a time.
    pub pending_high_watermark: u64,
}

/// The sum of two numbers, or the highest number there is.
pub open spec fn capped(a: u64, b: u64) -> u64 {
    if a + b > u64::MAX {
        u64::MAX
    } else {
        (a + b) as u64
    }
}

/// The higher number.
pub open spec fn higher(a: u64, b: u64) -> u64 {
    if a > b {
        a
    } else {
        b
    }
}

/// The queue of writes.
#[derive(Debug)]
pub struct WriteQueue {
    /// Depth of the ring.
    pub queue_depth: u32,
    /// Most submissions per batch.
    pub submit_batch_max: u32,
    /// Most completions per batch.
    pub cqe_batch_max: u32,
    /// Files are registered with the ring.
    pub register_files_requested: bool,
    /// The registered descriptors, by their slots.
    pub registered: Vec<i32>,
    /// The writes that are not complete, by their marks.
    pub pending_writes: BTreeMap<u64, PendingWrite>,
    /// The results that are waited for directly, by their marks.
    pub direct_completions: BTreeMap<u64, i32>,
    /// Entries that are not submitted yet.
    pub pending_submit_count: u32,
    /// The next mark of a write.
    pub next_user_data: u64,
    /// The next mark of an entry that is waited for directly.
    pub next_direct_user_data: u64,
    /// What was counted.
    pub stats: WriteQueueStats,
}

/// The queue of writes, as a value.
#[verifier::ext_equal]
pub struct QueueModel {
    pub queue_depth: u32,
    pub submit_batch_max: u32,
    pub cqe_batch_max: u32,
    pub register_files_requested: bool,
    pub registered: Seq<i32>,
    pub pending: Map<u64, PendingWrite>,
    pub direct: Map<u64, i32>,
    pub pending_submit_count: u32,
    pub next_user_data: u64,
    pub next_direct_user_data: u64,
    pub stats: WriteQueueStats,
}

impl View for WriteQueue {
    type V = QueueModel;

    open spec fn view(&self) -> QueueModel {
        QueueModel {
            queue_depth: self.queue_depth,
            submit_batch_max: self.submit_batch_max,
            cqe_batch_max: self.cqe_batch_max,
            register_files_requested: self.register_files_requested,
            registered: self.registered@,
            pending: self.pending_writes@,
            direct: self.direct_completions@,
            pending_submit_count: self.pending_submit_count,
            next_user_data: self.next_user_data,
            next_direct_user_data: self.next_direct_user_data,
            stats: self.stats,
        }
    }
}

impl QueueModel {
    /// Every pending write fits and has bytes left; the marks of direct entries are in their
    /// range.
    pub open spec fn wf(self) -> bool {
        &&& forall|k: u64|
            #![trigger self.pending[k]]
            self.pending.contains_key(k) ==> self.pending[k].fits() && self.pending[k].written
                < self.pending[k].content().len()
        &&& IO_URING_DIRECT_USER_DATA_START <= self.next_direct_user_data
            < IO_URING_SHUTDOWN_USER_DATA
        &&& 1 <= self.submit_batch_max <= self.queue_depth
        &&& 1 <= self.cqe_batch_max <= 2 * self.queue_depth
    }
}

/// The number within bounds.
pub open spec fn within(value: u32, low: u32, high: int) -> int {
    let raised = if value < low {
        low
    } else {
        value
    };
    if raised > high {
        high
    } else {
        raised as int
    }
}

/// A new queue.
pub open spec fn new_queue(depth: u32, submit_batch: u32, cqe_batch: u32, register_files: bool)
    -> QueueModel {
    let queue_depth = if depth < 1 {
        1
    } else {
        depth
    };
    QueueModel {
        queue_depth,
        submit_batch_max: within(submit_batch, 1, queue_depth as int) as u32,
        cqe_batch_max: within(cqe_batch, 1, 2 * queue_depth) as u32,
        register_files_requested: register_files,
        registered: Seq::empty(),
        pending: Map::empty(),
        direct: Map::empty(),
        pending_submit_count: 0,
        next_user_data: 1,
        next_direct_user_data: IO_URING_DIRECT_USER_DATA_START,
        stats: WriteQueueStats {
            enqueued_writes: 0,
            submit_calls: 0,
            submitted_write_sqes: 0,
            completed_writes: 0,
            wait_calls: 0,
            pending_high_watermark: 0,
        },
    }
}

/// The mark behind another one.
pub open spec fn next_mark(mark: u64) -> u64 {
    if mark == u64::MAX {
        0
    } else {
        (mark + 1) as u64
    }
}

/// The queue with one more write, and the write's mark. A write without bytes is left out.
pub open spec fn enqueued(queue: QueueModel, write: PendingWrite) -> (QueueModel, Option<u64>) {
    if write.content().len() == 0 {
        (queue, None)
    } else {
        let pending = queue.pending.insert(queue.next_user_data, write);
        (
            QueueModel {
                pending,
                next_user_data: next_mark(queue.next_user_data),
                stats: WriteQueueStats {
                    enqueued_writes: capped(queue.stats.enqueued_writes, 1),
                    pending_high_watermark: higher(
                        queue.stats.pending_high_watermark,
                        pending.len() as u64,
                    ),
                    ..queue.stats
                },
                ..queue
            },
            Some(queue.next_user_data),
        )
    }
}

/// What became of a completion.
#[derive(Debug, Clone, Copy, PartialEq, Eq, Structural)]
pub enum CompletionStep {
    /// It was kept for the one who waits for it.
    Kept,
    /// Its write is complete.
    Completed,
    /// Its write has bytes left, and is to be pushed again.
    PushAgain,
}

/// The queue after a completion.
pub open spec fn completed(queue: QueueModel, user_data: u64, result: i32) -> (
    QueueModel,
    Result<CompletionStep, ArchiveRecorderError>,
) {
    if user_data >= IO_URING_DIRECT_USER_DATA_START {
        (
            QueueModel { direct: queue.direct.insert(user_data, result), ..queue },
            Ok(CompletionStep::Kept),
        )
    } else if !queue.pending.contains_key(user_data) {
        (
            queue,
            Err(ArchiveRecorderError::RecoveryInconsistent("missing io_uring completion state")),
        )
    } else {
        let write = queue.pending[user_data];
        let without = QueueModel { pending: queue.pending.remove(user_data), ..queue };
        if result <= 0 {
            (
                without,
                Err(
                    ArchiveRecorderError::Io {
                        operation: write.operation,
                        path: write.path,
                        source: if result < 0 {
                            IoFault::Os((-result) as i32)
                        } else {
                            IoFault::WriteZero
                        },
                    },
                ),
            )
        } else if write.written + result < write.content().len() {
            (
                QueueModel {
                    pending: queue.pending.insert(
                        user_data,
                        PendingWrite { written: (write.written + result) as usize, ..write },
                    ),
                    ..queue
                },
                Ok(CompletionStep::PushAgain),
            )
        } else {
            (
                QueueModel {
                    stats: WriteQueueStats {
                        completed_writes: capped(queue.stats.completed_writes, 1),
                        ..queue.stats
                    },
                    ..without
                },
                Ok(CompletionStep::Completed),
            )
        }
    }
}

/// A write as it is pushed to the ring.
#[derive(Debug)]
pub struct WriteEntry {
    /// Descriptor of the file.
    pub fd: i32,
    /// Slot of the file, where it is registered.
    pub slot: Option<usize>,
    /// Offset in the file.
    pub offset: u64,
    /// What is written.
    pub chunks: Vec<Chunk>,
}

/// The first slot of a descriptor from place `i` on.
pub open spec fn slot_from(registered: Seq<i32>, fd: i32, i: int) -> Option<int>
    decreases registered.len() - i,
{
    if i >= registered.len() {
        None
    } else if registered[i] == fd {
        Some(i)
    } else {
        slot_from(registered, fd, i + 1)
    }
}

/// The descriptors of the first `n` places, each once.
pub open spec fn distinct(fds: Seq<i32>, n: int) -> Seq<i32>
    decreases n,
{
    if n <= 0 {
        Seq::empty()
    } else {
        let before = distinct(fds, n - 1);
        if slot_from(before, fds[n - 1], 0) is Some {
            before
        } else {
            before.push(fds[n - 1])
        }
    }
}

/// Finds the slot of a descriptor.
fn find_slot(registered: &[i32], fd: i32) -> (slot: Option<usize>)
    ensures
        match slot {
            Some(slot) => slot_from(registered@, fd, 0) == Some(slot as int),
            None => slot_from(registered@, fd, 0) is None,
        },
{
    let n: usize = registered.len();
    for i in 0..n
        invariant
            n == registered@.len(),
            slot_from(registered@, fd, 0) == slot_from(registered@, fd, i as int),
    {
        if registered[i] == fd {
            return Some(i);
        }
    }
    None
}

impl WriteQueue {
    /// Creates a queue for a ring of this depth.
    pub fn new(
        queue_depth: u32,
        submit_batch_max: u32,
        cqe_batch_max: u32,
        register_files_requested: bool,
    ) -> (queue: WriteQueue)
        ensures
            queue@ == new_queue(
                queue_depth,
                submit_batch_max,
                cqe_batch_max,
                register_files_requested,
            ),
            queue@.wf(),
    {
        let depth: u32 = if queue_depth < 1 {
            1
        } else {
            queue_depth
        };
        let submit_raised: u32 = if submit_batch_max < 1 {
            1
        } else {
            submit_batch_max
        };
        let submit: u32 = if submit_raised > depth {
            depth
        } else {
            submit_raised
        };
        let cqe_raised: u32 = if cqe_batch_max < 1 {
            1
        } else {
            cqe_batch_max
        };
        let cqe: u32 = if cqe_raised as u64 > 2 * (depth as u64) {
            2 * depth
        } else {
            cqe_raised
        };
        let queue = WriteQueue {
            queue_depth: depth,
            submit_batch_max: submit,
            cqe_batch_max: cqe,
            register_files_requested,
            registered: Vec::new(),
            pending_writes: BTreeMap::new(),
            direct_completions: BTreeMap::new(),
            pending_submit_count: 0,
            next_user_data: 1,
            next_direct_user_data: IO_URING_DIRECT_USER_DATA_START,
            stats: WriteQueueStats {
                enqueued_writes: 0,
                submit_calls: 0,
                submitted_write_sqes: 0,
                completed_writes: 0,
                wait_calls: 0,
                pending_high_watermark: 0,
            },
        };
        assert(queue.registered@ =~= Seq::<i32>::empty());
        queue
    }

    /// Puts a write into the queue. Gives its mark, with which it is to be pushed.
    pub fn enqueue(&mut self, write: PendingWrite) -> (mark: Option<u64>)
        requires
            old(self)@.wf(),
            write.fits(),
            write.written == 0,
        ensures
            (final(self)@, mark) == enqueued(old(self)@, write),
            final(self)@.wf(),
    {
        if total_len(&write) == 0 {
            return None;
        }
        let mark: u64 = self.next_user_data;
        self.next_user_data = mark.wrapping_add(1);
        self.pending_writes.insert(mark, write);
        self.stats.enqueued_writes = self.stats.enqueued_writes.saturating_add(1);
        let pending: u64 = self.pending_writes.len() as u64;
        if pending > self.stats.pending_high_watermark {
            self.stats.pending_high_watermark = pending;
        }
        Some(mark)
    }

    /// Gives what is to be pushed to the ring for a pending write.
    pub fn build_write_entry(&self, mark: u64) -> (result: Result<
        WriteEntry,
        ArchiveRecorderError,
    >)
        requires
            self@.wf(),
        ensures
            if self@.pending.contains_key(mark) {
                let write = self@.pending[mark];
                &&& result is Ok
                &&& result->Ok_0.fd == write.fd
                &&& result->Ok_0.offset == write.offset + write.written
                &&& match result->Ok_0.slot {
                    Some(slot) => slot_from(self@.registered, write.fd, 0) == Some(slot as int),
                    None => slot_from(self@.registered, write.fd, 0) is None,
                }
                &&& all_chunk_bytes(write.parts@, result->Ok_0.chunks@) == write.rest()
                &&& forall|i: int|
                    0 <= i < result->Ok_0.chunks@.len() ==> is_chunk(
                        write.parts@,
                        #[trigger] result->Ok_0.chunks@[i],
                    )
            } else {
                result == Err::<WriteEntry, ArchiveRecorderError>(
                    ArchiveRecorderError::RecoveryInconsistent(
                        "missing io_uring pending write state",
                    ),
                )
            },
    {
        match self.pending_writes.get(&mark) {
            None => Err(
                ArchiveRecorderError::RecoveryInconsistent("missing io_uring pending write state"),
            ),
            Some(write) => {
                assert(*write == self@.pending[mark]);
                Ok(
                    WriteEntry {
                        fd: write.fd,
                        slot: find_slot(self.registered.as_slice(), write.fd),
                        offset: write.offset + write.written as u64,
                        chunks: build_chunks(write.parts.as_slice(), write.written),
                    },
                )
            },
        }
    }

    /// Counts an entry that was pushed to the ring.
    pub fn note_pushed(&mut self)
        ensures
            final(self)@ == (QueueModel {
                pending_submit_count: if old(self)@.pending_submit_count == u32::MAX {
                    u32::MAX
                } else {
                    (old(self)@.pending_submit_count + 1) as u32
                },
                ..old(self)@
            }),
    {
        if self.pending_submit_count < u32::MAX {
            self.pending_submit_count = self.pending_submit_count + 1;
        }
    }

    /// Tells whether enough entries were pushed to submit them.
    pub fn must_submit(&self) -> (must: bool)
        ensures
            must == (self@.pending_submit_count >= self@.submit_batch_max),
    {
        self.pending_submit_count >= self.submit_batch_max
    }

    /// Tells whether anything was pushed and not submitted.
    pub fn has_unsubmitted(&self) -> (has: bool)
        ensures
            has == (self@.pending_submit_count > 0),
    {
        self.pending_submit_count > 0
    }

    /// Tells whether the queue is full.
    pub fn is_full(&self) -> (full: bool)
        ensures
            full == (self@.pending.len() >= self@.queue_depth),
    {
        self.pending_writes.len() as u64 >= self.queue_depth as u64
    }

    /// Tells whether nothing is pending.
    pub fn is_idle(&self) -> (idle: bool)
        ensures
            idle == (self@.pending.len() == 0),
    {
        self.pending_writes.len() == 0
    }

    /// Counts a submission.
    pub fn note_submitted(&mut self)
        ensures
            final(self)@ == (QueueModel {
                pending_submit_count: 0,
                stats: WriteQueueStats {
                    submit_calls: capped(old(self)@.stats.submit_calls, 1),
                    submitted_write_sqes: capped(
                        old(self)@.stats.submitted_write_sqes,
                        old(self)@.pending_submit_count as u64,
                    ),
                    ..old(self)@.stats
                },
                ..old(self)@
            }),
    {
        self.stats.submit_calls = self.stats.submit_calls.saturating_add(1);
        self.stats.submitted_write_sqes =
        self.stats.submitted_write_sqes.saturating_add(self.pending_submit_count as u64);
        self.pending_submit_count = 0;
    }

    /// Counts a wait.
    pub fn note_wait(&mut self)
        ensures
            final(self)@ == (QueueModel {
                stats: WriteQueueStats {
                    wait_calls: capped(old(self)@.stats.wait_calls, 1),
                    ..old(self)@.stats
                },
                ..old(self)@
            }),
    {
        self.stats.wait_calls = self.stats.wait_calls.saturating_add(1);
    }

    /// How many completions are waited for when the queue is full: half of what can be complete
    /// at a time, at least one, and no more than are pending.
    pub fn capacity_target(&self) -> (target: usize)
        ensures
            ({
                let most: int = if self@.cqe_batch_max < self@.queue_depth {
                    self@.cqe_batch_max as int
                } else {
                    self@.queue_depth as int
                };
                let half: int = if most / 2 < 1 {
                    1
                } else {
                    most / 2
                };
                target == if half < self@.pending.len() {
                    half
                } else {
                    self@.pending.len() as int
                }
            }),
            target <= self@.pending.len(),
            self@.pending.len() > 0 ==> target > 0,
            target <= 1 || 2 * target <= self@.cqe_batch_max,
            target <= 1 || 2 * target <= self@.queue_depth,
    {
        let most: u32 = if self.cqe_batch_max < self.queue_depth {
            self.cqe_batch_max
        } else {
            self.queue_depth
        };
        let half: u32 = if most / 2 < 1 {
            1
        } else {
            most / 2
        };
        let pending: usize = self.pending_writes.len();
        if (half as u64) < pending as u64 {
            half as usize
        } else {
            pending
        }
    }

    /// Takes a completion. A negative result is the negated number of an error.
    pub fn handle_completion(&mut self, user_data: u64, result: i32) -> (step: Result<
        CompletionStep,
        ArchiveRecorderError,
    >)
        requires
            old(self)@.wf(),
            result > i32::MIN,
        ensures
            (final(self)@, step) == completed(old(self)@, user_data, result),
            final(self)@.wf(),
    {
        if user_data >= IO_URING_DIRECT_USER_DATA_START {
            self.direct_completions.insert(user_data, result);
            return Ok(CompletionStep::Kept);
        }
        let ghost before = self@;
        let mut write = match self.pending_writes.remove(&user_data) {
            None => {
                return Err(
                    ArchiveRecorderError::RecoveryInconsistent("missing io_uring completion state"),
                );
            },
            Some(write) => write,
        };
        assert(before.pending.contains_key(user_data) && write == before.pending[user_data]);
        assert(self@.pending == before.pending.remove(user_data));
        if result <= 0 {
            let source = if result < 0 {
                IoFault::Os(-result)
            } else {
                IoFault::WriteZero
            };
            return Err(
                ArchiveRecorderError::Io { operation: write.operation, path: write.path, source },
            );
        }
        let total: usize = total_len(&write);
        if (result as u64) < (total - write.written) as u64 {
            let ghost held = write;
            write.written = write.written + result as usize;
            let ghost moved = write;
            assert(moved.content() == held.content());
            self.pending_writes.insert(user_data, write);
            assert(self@.pending =~= before.pending.insert(user_data, moved));
            return Ok(CompletionStep::PushAgain);
        }
        self.stats.completed_writes = self.stats.completed_writes.saturating_add(1);
        Ok(CompletionStep::Completed)
    }

    /// Gives the mark of an entry that is waited for directly.
    pub fn next_direct_user_data(&mut self) -> (mark: u64)
        requires
            old(self)@.wf(),
        ensures
            mark == old(self)@.next_direct_user_data,
            final(self)@ == (QueueModel {
                next_direct_user_data: if mark == IO_URING_SHUTDOWN_USER_DATA - 1 {
                    IO_URING_DIRECT_USER_DATA_START
                } else {
                    (mark + 1) as u64
                },
                ..old(self)@
            }),
            final(self)@.wf(),
    {
        let mark: u64 = self.next_direct_user_data;
        self.next_direct_user_data =
        if mark == IO_URING_SHUTDOWN_USER_DATA - 1 {
            IO_URING_DIRECT_USER_DATA_START
        } else {
            mark + 1
        };
        mark
    }

    /// Takes the result of an entry that is waited for directly, once it is there.
    pub fn take_direct_completion(&mut self, mark: u64) -> (result: Option<i32>)
        ensures
            final(self)@ == (QueueModel { direct: old(self)@.direct.remove(mark), ..old(self)@ }),
            match result {
                Some(value) => old(self)@.direct.contains_key(mark) && value
                    == old(self)@.direct[mark],
                None => !old(self)@.direct.contains_key(mark),
            },
    {
        self.direct_completions.remove(&mark)
    }

    /// Notes the descriptors that are registered with the ring, each in a slot of its own. Gives
    /// them in order of their slots.
    pub fn refresh_registered_files(&mut self, fds: &[i32]) -> (slots: Vec<i32>)
        ensures
            final(self)@ == (QueueModel { registered: slots@, ..old(self)@ }),
            slots@ == if old(self)@.register_files_requested {
                distinct(fds@, fds@.len() as int)
            } else {
                Seq::<i32>::empty()
            },
    {
        let mut slots: Vec<i32> = Vec::new();
        let mut registered: Vec<i32> = Vec::new();
        assert(slots@ =~= Seq::<i32>::empty());
        assert(registered@ =~= Seq::<i32>::empty());
        if self.register_files_requested {
            let n: usize = fds.len();
            for i in 0..n
                invariant
                    n == fds@.len(),
                    slots@ == distinct(fds@, i as int),
                    registered@ == slots@,
            {
                if find_slot(slots.as_slice(), fds[i]).is_none() {
                    slots.push(fds[i]);
                    registered.push(fds[i]);
                }
            }
        }
        self.registered = registered;
        slots
    }

    /// Adds what was counted to the counters of a recorder.
    pub fn accumulate_stats(&self, stats: &mut ArchiveRecorderStats)
        ensures
            *final(stats) == (ArchiveRecorderStats {
                async_write_enqueued: capped(
                    old(stats).async_write_enqueued,
                    self@.stats.enqueued_writes,
                ),
                io_uring_submit_calls: capped(
                    old(stats).io_uring_submit_calls,
                    self@.stats.submit_calls,
                ),
                io_uring_submitted_writes: capped(
                    old(stats).io_uring_submitted_writes,
                    self@.stats.submitted_write_sqes,
                ),
                io_uring_completed_writes: capped(
                    old(stats).io_uring_completed_writes,
                    self@.stats.completed_writes,
                ),
                io_uring_wait_calls: capped(
                    old(stats).io_uring_wait_calls,
                    self@.stats.wait_calls,
                ),
                io_uring_pending_high_watermark: higher(
                    old(stats).io_uring_pending_high_watermark,
                    self@.stats.pending_high_watermark,
                ),
                ..*old(stats)
            }),
    {
        stats.async_write_enqueued =
        stats.async_write_enqueued.saturating_add(self.stats.enqueued_writes);
        stats.io_uring_submit_calls =
        stats.io_uring_submit_calls.saturating_add(self.stats.submit_calls);
        stats.io_uring_submitted_writes =
        stats.io_uring_submitted_writes.saturating_add(self.stats.submitted_write_sqes);
        stats.io_uring_completed_writes =
        stats.io_uring_completed_writes.saturating_add(self.stats.completed_writes);
        stats.io_uring_wait_calls = stats.io_uring_wait_calls.saturating_add(self.stats.wait_calls);
        if self.stats.pending_high_watermark > stats.io_uring_pending_high_watermark {
            stats.io_uring_pending_high_watermark = self.stats.pending_high_watermark;
        }
    }
}

/// A write that is made in several steps leaves no gap and writes nothing twice: after a
/// completion of `result` bytes, what is left is what was left without its first `result` bytes,
/// and it is written that much further on.
pub proof fn partial_writes_leave_no_gap(queue: QueueModel, user_data: u64, result: i32)
    requires
        queue.wf(),
        completed(queue, user_data, result).1 == Ok::<CompletionStep, ArchiveRecorderError>(
            CompletionStep::PushAgain,
        ),
    ensures
        ({
            let before = queue.pending[user_data];
            let after = completed(queue, user_data, result).0.pending[user_data];
            &&& after.rest() == before.rest().subrange(result as int, before.rest().len() as int)
            &&& after.offset + after.written == before.offset + before.written + result
            &&& after.content() == before.content()
        }),
{
    let before = queue.pending[user_data];
    let after = completed(queue, user_data, result).0.pending[user_data];
    assert(after.rest() =~= before.rest().subrange(result as int, before.rest().len() as int));
}

/// A completion touches no write but its own.
pub proof fn completions_leave_other_writes(
    queue: QueueModel,
    user_data: u64,
    result: i32,
    other: u64,
)
    requires
        other != user_data,
    ensures
        ({
            let after = completed(queue, user_data, result).0;
            &&& after.pending.contains_key(other) == queue.pending.contains_key(other)
            &&& queue.pending.contains_key(other) ==> after.pending[other] == queue.pending[other]
        }),
{
}

/// The value switches the completion worker on.
pub open spec fn is_switched_on(value: Option<&str>) -> bool {
    match value {
        None => false,
        Some(text) => text@ == "1"@ || text@ == "true"@ || text@ == "TRUE"@ || text@ == "yes"@
            || text@ == "YES"@ || text@ == "on"@ || text@ == "ON"@,
    }
}

/// Tells whether the value of the environment variable switches the completion worker on.
pub fn completion_worker_enabled(value: Option<&str>) -> (enabled: bool)
    ensures
        enabled == is_switched_on(value),
{
    match value {
        None => false,
        Some(text) => same_text(text, "1") || same_text(text, "true") || same_text(text, "TRUE")
            || same_text(text, "yes") || same_text(text, "YES") || same_text(text, "on")
            || same_text(text, "ON"),
    }
}

} // verus!
