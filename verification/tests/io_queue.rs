use log_archive::error::{ArchiveFile, ArchivePath, ArchiveRecorderError, IoFault};
use log_archive::io_queue::{
    build_chunks, completion_worker_enabled, Chunk, CompletionStep, PendingWrite, WriteQueue,
    IO_URING_DIRECT_USER_DATA_START, IO_URING_SHUTDOWN_USER_DATA,
};
use log_archive::types::ArchiveRecorderStats;

fn write(fd: i32, offset: u64, parts: &[&[u8]]) -> PendingWrite {
    PendingWrite {
        fd,
        offset,
        written: 0,
        parts: parts.iter().map(|part| part.to_vec()).collect(),
        operation: "write segment",
        path: ArchivePath::File(ArchiveFile::Catalog),
    }
}

fn bytes_of(parts: &[Vec<u8>], chunks: &[Chunk]) -> Vec<u8> {
    let mut bytes = Vec::new();
    for chunk in chunks {
        bytes.extend_from_slice(&parts[chunk.part][chunk.start..chunk.start + chunk.len]);
    }
    bytes
}

#[test]
fn sizes_are_clamped() {
    let queue = WriteQueue::new(0, 0, 0, false);
    assert_eq!((queue.queue_depth, queue.submit_batch_max, queue.cqe_batch_max), (1, 1, 1));
    let queue = WriteQueue::new(4, 9, 99, true);
    assert_eq!((queue.queue_depth, queue.submit_batch_max, queue.cqe_batch_max), (4, 4, 8));
    let queue = WriteQueue::new(u32::MAX, 5, u32::MAX, true);
    assert_eq!(queue.cqe_batch_max, u32::MAX);
}

#[test]
fn chunks_are_what_is_left_of_the_parts() {
    let parts = vec![vec![1, 2, 3], vec![], vec![4], vec![5, 6]];
    let all = [1u8, 2, 3, 4, 5, 6];
    for skip in 0..=6 {
        let chunks = build_chunks(&parts, skip);
        assert_eq!(bytes_of(&parts, &chunks), &all[skip..]);
        assert!(chunks.iter().all(|chunk| chunk.len > 0));
    }
}

#[test]
fn partial_writes_go_on_where_they_stopped() {
    let mut queue = WriteQueue::new(2, 2, 4, true);
    assert_eq!(queue.refresh_registered_files(&[7, 5, 7]), vec![7, 5]);
    assert_eq!(queue.enqueue(write(5, 100, &[&[], &[]])), None);
    let mark = queue.enqueue(write(5, 100, &[&[1, 2, 3], &[4, 5]])).unwrap();
    assert_eq!(mark, 1);
    let entry = queue.build_write_entry(mark).unwrap();
    assert_eq!((entry.fd, entry.slot, entry.offset), (5, Some(1), 100));
    assert_eq!(
        bytes_of(&[vec![1, 2, 3], vec![4, 5]], &entry.chunks),
        vec![1, 2, 3, 4, 5],
    );
    queue.note_pushed();
    assert!(!queue.must_submit());
    assert!(queue.has_unsubmitted());

    let other = queue.enqueue(write(9, 0, &[&[9]])).unwrap();
    assert_eq!(queue.build_write_entry(other).unwrap().slot, None);
    queue.note_pushed();
    assert!(queue.must_submit());
    queue.note_submitted();
    assert!(!queue.has_unsubmitted());
    assert!(queue.is_full());
    assert_eq!(queue.capacity_target(), 1);
    queue.note_wait();

    assert_eq!(queue.handle_completion(mark, 4).unwrap(), CompletionStep::PushAgain);
    let rest = queue.build_write_entry(mark).unwrap();
    assert_eq!(rest.offset, 104);
    assert_eq!(bytes_of(&[vec![1, 2, 3], vec![4, 5]], &rest.chunks), vec![5]);
    assert_eq!(queue.handle_completion(mark, 1).unwrap(), CompletionStep::Completed);
    assert!(!queue.is_idle());
    assert_eq!(queue.handle_completion(other, 1).unwrap(), CompletionStep::Completed);
    assert!(queue.is_idle());

    let mut stats = ArchiveRecorderStats::default();
    stats.async_write_enqueued = u64::MAX;
    queue.accumulate_stats(&mut stats);
    assert_eq!(stats.async_write_enqueued, u64::MAX);
    assert_eq!(stats.io_uring_submit_calls, 1);
    assert_eq!(stats.io_uring_submitted_writes, 2);
    assert_eq!(stats.io_uring_completed_writes, 2);
    assert_eq!(stats.io_uring_wait_calls, 1);
    assert_eq!(stats.io_uring_pending_high_watermark, 2);
}

#[test]
fn failed_writes_are_reported_with_their_file() {
    let mut queue = WriteQueue::new(4, 4, 4, false);
    let first = queue.enqueue(write(1, 0, &[&[1]])).unwrap();
    let second = queue.enqueue(write(1, 1, &[&[1]])).unwrap();
    let failure = queue.handle_completion(first, -28).unwrap_err();
    assert!(matches!(
        failure,
        ArchiveRecorderError::Io {
            operation: "write segment",
            path: ArchivePath::File(ArchiveFile::Catalog),
            source: IoFault::Os(28),
        }
    ));
    let failure = queue.handle_completion(second, 0).unwrap_err();
    assert!(matches!(failure, ArchiveRecorderError::Io { source: IoFault::WriteZero, .. }));
    assert!(queue.is_idle());
    assert!(matches!(
        queue.handle_completion(second, 1),
        Err(ArchiveRecorderError::RecoveryInconsistent("missing io_uring completion state"))
    ));
    assert!(matches!(
        queue.build_write_entry(second),
        Err(ArchiveRecorderError::RecoveryInconsistent("missing io_uring pending write state"))
    ));
}

#[test]
fn direct_results_wait_for_their_reader() {
    let mut queue = WriteQueue::new(1, 1, 1, false);
    let mark = queue.next_direct_user_data();
    assert_eq!(mark, IO_URING_DIRECT_USER_DATA_START);
    assert_eq!(queue.take_direct_completion(mark), None);
    assert_eq!(queue.handle_completion(mark, -5).unwrap(), CompletionStep::Kept);
    assert_eq!(queue.take_direct_completion(mark), Some(-5));
    assert_eq!(queue.take_direct_completion(mark), None);
    queue.next_direct_user_data = IO_URING_SHUTDOWN_USER_DATA - 1;
    assert_eq!(queue.next_direct_user_data(), IO_URING_SHUTDOWN_USER_DATA - 1);
    assert_eq!(queue.next_direct_user_data(), IO_URING_DIRECT_USER_DATA_START);
}

#[test]
fn files_are_registered_only_on_request() {
    let mut queue = WriteQueue::new(1, 1, 1, false);
    assert_eq!(queue.refresh_registered_files(&[7, 5]), Vec::<i32>::new());
}

#[test]
fn the_completion_worker_has_to_be_switched_on() {
    for value in ["1", "true", "TRUE", "yes", "YES", "on", "ON"] {
        assert!(completion_worker_enabled(Some(value)));
    }
    for value in ["0", "", "True", "off"] {
        assert!(!completion_worker_enabled(Some(value)));
    }
    assert!(!completion_worker_enabled(None));
}
