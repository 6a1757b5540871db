//! What the queue of writes promises over a series of completions.

use crate::error::{ArchiveRecorderError, IoFault};
use crate::io_queue::{
    completed, distinct, enqueued, new_queue, slot_from, CompletionStep, PendingWrite, QueueModel,
    IO_URING_DIRECT_USER_DATA_START,
};
use vstd::prelude::*;

verus! {

/// How many bytes a series of completions says were written.
pub open spec fn bytes_of(results: Seq<i32>) -> int
    decreases results.len(),
{
    if results.len() == 0 {
        0
    } else {
        bytes_of(results.drop_last()) + results.last()
    }
}

/// The queue after a series of completions of one write.
pub open spec fn after_completions(queue: QueueModel, mark: u64, results: Seq<i32>) -> QueueModel
    decreases results.len(),
{
    if results.len() == 0 {
        queue
    } else {
        completed(after_completions(queue, mark, results.drop_last()), mark, results.last()).0
    }
}

/// What becomes of the last completion of a series.
pub open spec fn last_step(queue: QueueModel, mark: u64, results: Seq<i32>) -> Result<
    CompletionStep,
    ArchiveRecorderError,
> {
    completed(after_completions(queue, mark, results.drop_last()), mark, results.last()).1
}

/// Every completion says that something was written.
pub open spec fn all_positive(results: Seq<i32>) -> bool {
    forall|i: int| 0 <= i < results.len() ==> #[trigger] results[i] > 0
}

/// The bytes before the last completion are fewer than with it.
proof fn bytes_grow(results: Seq<i32>)
    requires
        results.len() > 0,
        all_positive(results),
    ensures
        all_positive(results.drop_last()),
        bytes_of(results) > bytes_of(results.drop_last()) >= 0,
    decreases results.len(),
{
    let less = results.drop_last();
    assert(results.last() == results[results.len() - 1]);
    assert forall|i: int| 0 <= i < less.len() implies #[trigger] less[i] > 0 by {
        assert(less[i] == results[i]);
    }
    if less.len() > 0 {
        bytes_grow(less);
    } else {
        reveal_with_fuel(bytes_of, 2);
    }
}

/// A write stays pending while the completions say that fewer bytes were written than it has left,
/// and goes on behind them; nothing is counted as completed.
pub proof fn write_stays_until_all_is_written(queue: QueueModel, mark: u64, results: Seq<i32>)
    requires
        queue.wf(),
        mark < IO_URING_DIRECT_USER_DATA_START,
        queue.pending.contains_key(mark),
        all_positive(results),
        queue.pending[mark].written + bytes_of(results) < queue.pending[mark].content().len(),
    ensures
        ({
            let after = after_completions(queue, mark, results);
            let before = queue.pending[mark];
            &&& after.pending.contains_key(mark)
            &&& after.pending[mark].written == before.written + bytes_of(results)
            &&& after.pending[mark].content() == before.content()
            &&& after.pending[mark].offset == before.offset
            &&& after.pending[mark].fd == before.fd
            &&& after.pending[mark].fits()
            &&& after.stats == queue.stats
            &&& results.len() > 0 ==> last_step(queue, mark, results) == Ok::<
                CompletionStep,
                ArchiveRecorderError,
            >(CompletionStep::PushAgain)
        }),
    decreases results.len(),
{
    assert(queue.pending[mark].fits());
    if results.len() > 0 {
        bytes_grow(results);
        write_stays_until_all_is_written(queue, mark, results.drop_last());
    }
}

/// A write is complete with the completion that brings the bytes up to its length, and not before:
/// it leaves the queue and is counted once.
pub proof fn write_completes_with_its_last_byte(queue: QueueModel, mark: u64, results: Seq<i32>)
    requires
        queue.wf(),
        mark < IO_URING_DIRECT_USER_DATA_START,
        queue.pending.contains_key(mark),
        results.len() > 0,
        all_positive(results),
        queue.stats.completed_writes < u64::MAX,
        queue.pending[mark].written + bytes_of(results.drop_last())
            < queue.pending[mark].content().len(),
        queue.pending[mark].written + bytes_of(results) >= queue.pending[mark].content().len(),
    ensures
        ({
            let after = after_completions(queue, mark, results);
            &&& last_step(queue, mark, results) == Ok::<CompletionStep, ArchiveRecorderError>(
                CompletionStep::Completed,
            )
            &&& !after.pending.contains_key(mark)
            &&& after.stats.completed_writes == queue.stats.completed_writes + 1
        }),
{
    bytes_grow(results);
    write_stays_until_all_is_written(queue, mark, results.drop_last());
}

/// A completion that says nothing was written, or an error, ends its write: the write leaves the
/// queue, is not counted, and the error names what the write was for and what went wrong.
pub proof fn failed_completion_ends_its_write(queue: QueueModel, mark: u64, result: i32)
    requires
        mark < IO_URING_DIRECT_USER_DATA_START,
        queue.pending.contains_key(mark),
        i32::MIN < result <= 0,
    ensures
        ({
            let (after, step) = completed(queue, mark, result);
            let write = queue.pending[mark];
            &&& !after.pending.contains_key(mark)
            &&& after.stats == queue.stats
            &&& step matches Err(ArchiveRecorderError::Io { operation, path, source })
            &&& operation == write.operation
            &&& path == write.path
            &&& result == 0 ==> source == IoFault::WriteZero
            &&& result < 0 ==> (source matches IoFault::Os(number) && number + result == 0)
        }),
{
}

/// A completion that is waited for directly is kept for the one who waits, and touches no write.
pub proof fn direct_completion_is_kept(queue: QueueModel, mark: u64, result: i32)
    requires
        mark >= IO_URING_DIRECT_USER_DATA_START,
    ensures
        ({
            let (after, step) = completed(queue, mark, result);
            &&& after.direct.contains_key(mark)
            &&& after.direct[mark] == result
            &&& after.pending == queue.pending
            &&& after.stats == queue.stats
            &&& step == Ok::<CompletionStep, ArchiveRecorderError>(CompletionStep::Kept)
        }),
{
}

/// A write with bytes is pending under its mark as it was handed over, the next write gets another
/// mark, and every other write stays; one without bytes leaves the queue as it is.
pub proof fn enqueued_write_is_pending(queue: QueueModel, write: PendingWrite, other: u64)
    requires
        queue.pending.dom().finite(),
        queue.pending.len() < u64::MAX,
        queue.stats.enqueued_writes < u64::MAX,
    ensures
        ({
            let (after, mark) = enqueued(queue, write);
            &&& write.content().len() == 0 <==> mark is None
            &&& mark is None ==> after == queue
            &&& mark is Some ==> {
                &&& after.pending.contains_key(mark->Some_0)
                &&& after.pending[mark->Some_0] == write
                &&& after.next_user_data != mark->Some_0
                &&& after.stats.enqueued_writes == queue.stats.enqueued_writes + 1
                &&& after.pending.len() <= after.stats.pending_high_watermark
                &&& queue.stats.pending_high_watermark <= after.stats.pending_high_watermark
                &&& after.stats.pending_high_watermark == queue.stats.pending_high_watermark
                    || after.stats.pending_high_watermark == after.pending.len()
                &&& other != mark->Some_0 ==> after.pending.contains_key(other)
                    == queue.pending.contains_key(other)
                &&& other != mark->Some_0 && queue.pending.contains_key(other)
                    ==> after.pending[other] == queue.pending[other]
            }
        }),
{
    if write.content().len() > 0 {
        vstd::set::axiom_set_insert_len(queue.pending.dom(), queue.next_user_data);
        assert(queue.pending.insert(queue.next_user_data, write).dom()
            =~= queue.pending.dom().insert(queue.next_user_data));
    }
}

/// A new queue has nothing pending; depth and batches that fit are taken as they are, and others are
/// brought within what fits: at least one, submissions no more than the depth, completions no more
/// than twice the depth.
pub proof fn new_queue_keeps_what_fits(depth: u32, submit: u32, cqe: u32, register_files: bool)
    ensures
        ({
            let queue = new_queue(depth, submit, cqe, register_files);
            &&& queue.pending.len() == 0
            &&& queue.pending_submit_count == 0
            &&& queue.register_files_requested == register_files
            &&& depth >= 1 ==> queue.queue_depth == depth
            &&& depth == 0 ==> queue.queue_depth == 1
            &&& 1 <= queue.submit_batch_max <= queue.queue_depth
            &&& 1 <= submit <= queue.queue_depth ==> queue.submit_batch_max == submit
            &&& submit > queue.queue_depth ==> queue.submit_batch_max == queue.queue_depth
            &&& 1 <= queue.cqe_batch_max <= 2 * queue.queue_depth
            &&& 1 <= cqe <= 2 * queue.queue_depth ==> queue.cqe_batch_max == cqe
            &&& cqe > 2 * queue.queue_depth ==> queue.cqe_batch_max == 2 * queue.queue_depth
        }),
{
    assert(Map::<u64, PendingWrite>::empty().dom() =~= Set::<u64>::empty());
}

/// A slot holds the descriptor it was found for, and none before it does; where none is found, the
/// descriptor is not registered.
pub proof fn slot_holds_its_descriptor(registered: Seq<i32>, fd: i32, i: int)
    requires
        0 <= i <= registered.len(),
    ensures
        match slot_from(registered, fd, i) {
            Some(slot) => i <= slot < registered.len() && registered[slot] == fd && forall|k: int|
                i <= k < slot ==> #[trigger] registered[k] != fd,
            None => forall|k: int| i <= k < registered.len() ==> #[trigger] registered[k] != fd,
        },
    decreases registered.len() - i,
{
    if i < registered.len() {
        slot_holds_its_descriptor(registered, fd, i + 1);
    }
}

/// Each descriptor is registered in one slot, and no other is.
pub proof fn descriptors_are_registered_once(fds: Seq<i32>, n: int)
    requires
        0 <= n <= fds.len(),
    ensures
        distinct(fds, n).no_duplicates(),
        forall|fd: i32| #[trigger]
            distinct(fds, n).contains(fd) <==> exists|i: int| 0 <= i < n && fds[i] == fd,
    decreases n,
{
    if n > 0 {
        descriptors_are_registered_once(fds, n - 1);
        let before = distinct(fds, n - 1);
        let after = distinct(fds, n);
        let fd = fds[n - 1];
        slot_holds_its_descriptor(before, fd, 0);
        if slot_from(before, fd, 0) is Some {
            assert(before[slot_from(before, fd, 0)->Some_0] == fd);
        }
        assert forall|x: i32| #[trigger] after.contains(x) <==> exists|i: int|
            0 <= i < n && fds[i] == x by {
            assert(before.contains(x) <==> exists|i: int| 0 <= i < n - 1 && fds[i] == x);
            if after.contains(x) && !before.contains(x) {
                let k = choose|k: int| 0 <= k < after.len() && after[k] == x;
                if k < before.len() {
                    assert(before[k] == x);
                }
                assert(fds[n - 1] == x);
            }
            if before.contains(x) {
                let k = choose|k: int| 0 <= k < before.len() && before[k] == x;
                assert(after[k] == x);
                let i = choose|i: int| 0 <= i < n - 1 && fds[i] == x;
                assert(0 <= i < n && fds[i] == x);
            }
            if exists|i: int| 0 <= i < n && fds[i] == x {
                let i = choose|i: int| 0 <= i < n && fds[i] == x;
                if i == n - 1 && after.len() > before.len() {
                    assert(after[after.len() - 1] == x);
                }
            }
        }
        if after.len() > before.len() {
            assert forall|i: int, j: int|
                0 <= i < after.len() && 0 <= j < after.len() && i != j implies after[i]
                != after[j] by {
                if i < before.len() {
                    assert(before[i] != fd);
                }
                if j < before.len() {
                    assert(before[j] != fd);
                }
            }
        }
    }
}

} // verus!
