use remcmd_app::sftp_view::{transfer_line, TransferControls, TransferTone};
use remcmd_app::transfers::{
    SftpTransferBatchProgress, SftpTransferDirection, SftpTransferQueue, SftpTransferState,
    TransferStatus,
};
use std::path::PathBuf;

fn fraction(progress: &SftpTransferBatchProgress) -> f32 {
    let sum: f32 = progress
        .shares
        .iter()
        .map(|(done, of)| (*done as f32 / *of as f32).clamp(0.0, 1.0))
        .sum();
    (sum / progress.shares.len() as f32).clamp(0.0, 1.0)
}

#[test]
fn sftp_transfer_queue_tracks_multiple_active_tasks_and_conflicts_release_slots() {
    let mut queue = SftpTransferQueue::default();
    let upload_batch = queue.begin_batch();
    let upload = queue.enqueue_in_batch(
        upload_batch,
        SftpTransferDirection::Upload,
        PathBuf::from("/tmp/upload.txt"),
        "/remote/upload.txt".into(),
        false,
        None,
    );
    let download_batch = queue.begin_batch();
    let download = queue.enqueue_in_batch(
        download_batch,
        SftpTransferDirection::Download,
        PathBuf::from("/tmp/download.txt"),
        "/remote/download.txt".into(),
        false,
        None,
    );

    assert_eq!(queue.start_next().unwrap().id, upload);
    assert_eq!(queue.start_next().unwrap().id, download);
    assert_eq!(queue.active_count(), 2);
    assert!(queue.mark_progress(upload, 9, Some(12)));
    assert!(queue.mark_progress(upload, 3, Some(12)));
    assert_eq!(queue.task_mut(upload).unwrap().transferred, 9);
    assert!(queue.mark_conflict(download));
    assert_eq!(queue.active_count(), 1);
    assert!(queue.mark_completed(upload, 12));
    assert_eq!(queue.active_count(), 0);
    assert!(queue.retry_with_overwrite(download));
    let retried = queue.start_next().unwrap();
    assert_eq!(retried.id, download);
    assert!(retried.overwrite);
}

#[test]
fn queued_sftp_transfer_can_be_cancelled_without_signalling_the_worker() {
    let mut queue = SftpTransferQueue::default();
    let batch = queue.begin_batch();
    let transfer = queue.enqueue_in_batch(
        batch,
        SftpTransferDirection::Upload,
        PathBuf::from("/tmp/upload.txt"),
        "/remote/upload.txt".into(),
        false,
        None,
    );

    assert_eq!(queue.begin_cancel(transfer), Some(false));
    assert_eq!(
        queue.task_mut(transfer).map(|task| task.state),
        Some(SftpTransferState::Cancelled)
    );
}

#[test]
fn multi_file_download_reports_batch_byte_progress() {
    let mut queue = SftpTransferQueue::default();
    let batch = queue.begin_batch();
    let first = queue.enqueue_in_batch(
        batch,
        SftpTransferDirection::Download,
        PathBuf::from("/tmp/first.bin"),
        "/remote/first.bin".into(),
        false,
        Some(100),
    );
    let second = queue.enqueue_in_batch(
        batch,
        SftpTransferDirection::Download,
        PathBuf::from("/tmp/second.bin"),
        "/remote/second.bin".into(),
        false,
        Some(100),
    );
    queue.enqueue_in_batch(
        batch,
        SftpTransferDirection::Download,
        PathBuf::from("/tmp/third.bin"),
        "/remote/third.bin".into(),
        false,
        Some(50),
    );

    assert_eq!(queue.start_next().map(|task| task.id), Some(first));
    assert_eq!(queue.start_next().map(|task| task.id), Some(second));
    assert!(queue.mark_completed(first, 100));
    assert!(queue.mark_progress(second, 50, Some(100)));

    let progress = queue
        .latest_batch_progress(SftpTransferDirection::Download)
        .unwrap();
    assert_eq!(progress.task_count, 3);
    assert_eq!(progress.settled_count, 1);
    assert_eq!(progress.failed_count, 0);
    assert_eq!(progress.transferred, 150);
    assert_eq!(progress.total, Some(250));
    assert_eq!(fraction(&progress), 0.6);
    assert!(queue
        .latest_batch_progress(SftpTransferDirection::Upload)
        .is_none());
}

#[test]
fn batches_of_unknown_size_are_measured_in_files() {
    let mut queue = SftpTransferQueue::default();
    let batch = queue.begin_batch();
    for name in ["a", "b", "c", "d"] {
        queue.enqueue_in_batch(
            batch,
            SftpTransferDirection::Upload,
            PathBuf::from("/tmp").join(name),
            format!("/remote/{name}"),
            false,
            None,
        );
    }
    let first = queue.start_next().unwrap().id;
    let second = queue.start_next().unwrap().id;
    assert!(queue.mark_completed(first, 5));
    assert!(queue.mark_failed(second, "broken pipe".into()));
    let progress = queue
        .latest_batch_progress(SftpTransferDirection::Upload)
        .unwrap();
    assert_eq!(progress.total, None);
    assert_eq!(progress.settled_count, 2);
    assert_eq!(progress.failed_count, 1);
    assert_eq!(progress.shares, vec![(1, 1), (0, 1), (0, 1), (0, 1)]);
    assert_eq!(fraction(&progress), 0.25);
}

#[test]
fn moved_bytes_stay_within_the_size_of_the_batch() {
    let mut queue = SftpTransferQueue::default();
    let batch = queue.begin_batch();
    let mut ids = Vec::new();
    for name in ["a", "b"] {
        ids.push(queue.enqueue_in_batch(
            batch,
            SftpTransferDirection::Download,
            PathBuf::from("/tmp").join(name),
            format!("/remote/{name}"),
            false,
            Some(10),
        ));
        queue.start_next();
    }
    assert!(queue.mark_progress(ids[0], 25, None));
    let progress = queue
        .latest_batch_progress(SftpTransferDirection::Download)
        .unwrap();
    assert_eq!(progress.transferred, 10);
    assert_eq!(progress.total, Some(20));
}

#[test]
fn finished_transfers_leave_the_list_and_pending_ones_fail_together() {
    let mut queue = SftpTransferQueue::default();
    let batch = queue.begin_batch();
    for name in ["a", "b", "c"] {
        queue.enqueue_in_batch(
            batch,
            SftpTransferDirection::Upload,
            PathBuf::from("/tmp").join(name),
            format!("/remote/{name}"),
            false,
            None,
        );
    }
    let first = queue.start_next().unwrap().id;
    assert!(queue.mark_completed(first, 2048));
    let done = queue.task_mut(first).unwrap();
    assert_eq!(done.display_name(), "a");
    assert_eq!(
        done.status_text(),
        TransferStatus::CompletedSize("2.0 KB".into())
    );
    queue.clear_finished();
    assert_eq!(queue.tasks.len(), 2);
    queue.fail_pending("connection closed");
    assert!(queue
        .tasks
        .iter()
        .all(|task| task.state == SftpTransferState::Failed));
    assert_eq!(
        queue.tasks[0].status_text(),
        TransferStatus::Plain("connection closed".into())
    );
    assert_eq!(queue.start_next(), None);
}

#[test]
fn transfer_lines_offer_what_their_states_allow() {
    let mut queue = SftpTransferQueue::default();
    let batch = queue.begin_batch();
    let id = queue.enqueue_in_batch(
        batch,
        SftpTransferDirection::Download,
        PathBuf::from("/tmp/a"),
        "/remote/a".into(),
        false,
        Some(8),
    );
    let line = transfer_line(&queue.tasks[0]);
    assert_eq!(line.controls, TransferControls::Cancel);
    assert_eq!(line.bar, None);
    queue.start_next();
    queue.mark_progress(id, 20, None);
    let line = transfer_line(&queue.tasks[0]);
    assert_eq!(line.bar, Some((8, 8)));
    assert!(!line.upload);
    queue.mark_conflict(id);
    let line = transfer_line(&queue.tasks[0]);
    assert_eq!(line.controls, TransferControls::ReplaceOrCancel);
    assert_eq!(line.tone, TransferTone::Warning);
    queue.mark_cancelled(id);
    let line = transfer_line(&queue.tasks[0]);
    assert_eq!(line.controls, TransferControls::Nothing);
    assert_eq!(line.tone, TransferTone::Muted);
}

#[test]
fn only_a_replacement_overwrites() {
    let mut queue = SftpTransferQueue::default();
    let batch = queue.begin_batch();
    let id = queue.enqueue_in_batch(
        batch,
        SftpTransferDirection::Upload,
        PathBuf::from("/tmp/a"),
        "/remote/a".into(),
        false,
        None,
    );
    assert!(!queue.retry_with_overwrite(id));
    assert!(!queue.start_next().unwrap().overwrite);
    assert!(!queue.retry_with_overwrite(id));
    assert!(queue.mark_conflict(id));
    assert!(!queue.task_mut(id).unwrap().overwrite);
    assert!(queue.retry_with_overwrite(id));
    assert!(queue.task_mut(id).unwrap().overwrite);
    assert!(queue.start_next().unwrap().overwrite);
    assert_eq!(queue.begin_cancel(id), Some(true));
    assert_eq!(queue.begin_cancel(99), None);
}
