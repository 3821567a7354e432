//! The queue of uploads and downloads of one session.
use crate::local_path::{local_display, local_file_name, local_name, local_path_text};
use crate::number::{format_remote_size, size_text};
use crate::remote_path::{file_name, remote_file_name};
use crate::sequences::{
    count_where, count_where_push, count_where_update, filter_is_exact, first_index, first_index_is,
    first_index_properties, sum_of,
};
use crate::text::{clone_opt_text, filter_push};
use std::path::PathBuf;
use vstd::prelude::*;
use vstd::string::*;

verus! {

/// Which way the bytes go.
#[derive(Clone, Copy, Debug, PartialEq, Eq, Structural)]
pub enum SftpTransferDirection {
    Upload,
    Download,
}

/// Where a transfer stands.
#[derive(Clone, Copy, Debug, PartialEq, Eq, Structural)]
pub enum SftpTransferState {
    Queued,
    Running,
    Cancelling,
    Conflict,
    Completed,
    Failed,
    Cancelled,
}

impl SftpTransferState {
    /// A worker holds the transfer.
    pub open spec fn active(self) -> bool {
        self == SftpTransferState::Running || self == SftpTransferState::Cancelling
    }

    /// The transfer has come to its end.
    pub open spec fn finished(self) -> bool {
        self == SftpTransferState::Completed || self == SftpTransferState::Failed || self
            == SftpTransferState::Cancelled
    }

    /// A worker holds the transfer.
    pub fn is_active(self) -> (r: bool)
        ensures
            r == self.active(),
    {
        matches!(self, SftpTransferState::Running | SftpTransferState::Cancelling)
    }

    /// The transfer has come to its end.
    pub fn is_finished(self) -> (r: bool)
        ensures
            r == self.finished(),
    {
        matches!(
            self,
            SftpTransferState::Completed | SftpTransferState::Failed | SftpTransferState::Cancelled
        )
    }
}

/// One file to move.
#[derive(Debug, PartialEq, Eq)]
pub struct SftpTransferTask {
    pub id: u64,
    pub batch_id: u64,
    pub direction: SftpTransferDirection,
    pub local_path: PathBuf,
    pub remote_path: String,
    pub overwrite: bool,
    pub state: SftpTransferState,
    pub transferred: u64,
    pub total: Option<u64>,
    pub error: Option<String>,
}

impl Clone for SftpTransferTask {
    fn clone(&self) -> (r: Self)
        ensures
            r == *self,
    {
        SftpTransferTask {
            id: self.id,
            batch_id: self.batch_id,
            direction: self.direction,
            local_path: self.local_path.clone(),
            remote_path: self.remote_path.clone(),
            overwrite: self.overwrite,
            state: self.state,
            transferred: self.transferred,
            total: self.total,
            error: clone_opt_text(&self.error),
        }
    }
}

/// What the line below a transfer's name says.
#[derive(Debug, PartialEq, Eq)]
pub enum TransferStatus {
    /// A localized text without arguments.
    Key(&'static str),
    /// The localized text `sftp-completed` with the size that was moved.
    CompletedSize(String),
    /// A text as it stands.
    Plain(String),
}

impl SftpTransferTask {
    /// The name that the transfer is listed under.
    pub open spec fn shown_name(self) -> Seq<char> {
        match self.direction {
            SftpTransferDirection::Upload => match local_name(self.local_path) {
                Some(name) => name,
                None => local_display(self.local_path),
            },
            SftpTransferDirection::Download => file_name(self.remote_path@),
        }
    }

    /// The name that the transfer is listed under: the local file's for an upload, the remote
    /// file's for a download.
    pub fn display_name(&self) -> (r: String)
        ensures
            r@ == self.shown_name(),
    {
        match self.direction {
            SftpTransferDirection::Upload => match local_file_name(&self.local_path) {
                Some(name) => name,
                None => local_path_text(&self.local_path),
            },
            SftpTransferDirection::Download => remote_file_name(
                self.remote_path.as_str(),
            ).to_owned(),
        }
    }

    /// What the line below the transfer's name says.
    pub fn status_text(&self) -> (r: TransferStatus)
        ensures
            match self.state {
                SftpTransferState::Queued => r matches TransferStatus::Key(key) && key@
                    == "sftp-queued"@,
                SftpTransferState::Running => r matches TransferStatus::Plain(text) && text@
                    == match self.total {
                    None => size_text(self.transferred as nat),
                    Some(total) => size_text(self.transferred as nat) + " / "@ + size_text(
                        total as nat,
                    ),
                },
                SftpTransferState::Cancelling => r matches TransferStatus::Key(key) && key@
                    == "sftp-cancelling"@,
                SftpTransferState::Conflict => r matches TransferStatus::Key(key) && key@
                    == "sftp-conflict"@,
                SftpTransferState::Completed => r matches TransferStatus::CompletedSize(size)
                    && size@ == size_text(self.transferred as nat),
                SftpTransferState::Failed => match self.error {
                    Some(error) => r == TransferStatus::Plain(error),
                    None => r matches TransferStatus::Key(key) && key@ == "sftp-failed"@,
                },
                SftpTransferState::Cancelled => r matches TransferStatus::Key(key) && key@
                    == "sftp-cancelled"@,
            },
    {
        match self.state {
            SftpTransferState::Queued => TransferStatus::Key("sftp-queued"),
            SftpTransferState::Running => {
                let mut text: String = format_remote_size(self.transferred);
                if let Some(total) = self.total {
                    text.append(" / ");
                    text.append(format_remote_size(total).as_str());
                }
                TransferStatus::Plain(text)
            },
            SftpTransferState::Cancelling => TransferStatus::Key("sftp-cancelling"),
            SftpTransferState::Conflict => TransferStatus::Key("sftp-conflict"),
            SftpTransferState::Completed => TransferStatus::CompletedSize(
                format_remote_size(self.transferred),
            ),
            SftpTransferState::Failed => match &self.error {
                Some(error) => TransferStatus::Plain(error.clone()),
                None => TransferStatus::Key("sftp-failed"),
            },
            SftpTransferState::Cancelled => TransferStatus::Key("sftp-cancelled"),
        }
    }
}

/// How far a batch has come. `shares` are fractions, numerator first: the part of the batch that
/// is done is their mean, and at most the whole.
#[derive(Debug, PartialEq, Eq)]
pub struct SftpTransferBatchProgress {
    pub task_count: usize,
    pub settled_count: usize,
    pub failed_count: usize,
    pub transferred: u64,
    pub total: Option<u64>,
    pub shares: Vec<(u64, u64)>,
}

/// The transfers of one session, oldest first.
#[derive(Debug, PartialEq, Eq)]
pub struct SftpTransferQueue {
    pub next_id: u64,
    pub next_batch_id: u64,
    pub tasks: Vec<SftpTransferTask>,
}

impl Default for SftpTransferQueue {
    fn default() -> (r: Self)
        ensures
            r.next_id == 0,
            r.next_batch_id == 0,
            r.tasks@ == Seq::<SftpTransferTask>::empty(),
            r.wf(),
    {
        SftpTransferQueue { next_id: 0, next_batch_id: 0, tasks: Vec::new() }
    }
}

/// A transfer that waits.
pub open spec fn queued_task(
    id: u64,
    batch_id: u64,
    direction: SftpTransferDirection,
    local_path: PathBuf,
    remote_path: String,
    overwrite: bool,
    expected_total: Option<u64>,
) -> SftpTransferTask {
    SftpTransferTask {
        id,
        batch_id,
        direction,
        local_path,
        remote_path,
        overwrite,
        state: SftpTransferState::Queued,
        transferred: 0,
        total: expected_total,
        error: None,
    }
}

/// The position of the transfer `id`; the number of transfers where there is none.
pub open spec fn task_position(tasks: Seq<SftpTransferTask>, id: u64) -> int {
    first_index(tasks, |task: SftpTransferTask| task.id == id)
}

/// There is a transfer `id`.
pub open spec fn has_task(tasks: Seq<SftpTransferTask>, id: u64) -> bool {
    0 <= task_position(tasks, id) < tasks.len()
}

/// The transfer `id`.
pub open spec fn task_with_id(tasks: Seq<SftpTransferTask>, id: u64) -> SftpTransferTask {
    tasks[task_position(tasks, id)]
}

/// `tasks` with `task` in the place of the transfer `id`.
pub open spec fn with_task(
    tasks: Seq<SftpTransferTask>,
    id: u64,
    task: SftpTransferTask,
) -> Seq<SftpTransferTask> {
    tasks.update(task_position(tasks, id), task)
}

/// How many transfers a worker holds.
pub open spec fn active_tasks(tasks: Seq<SftpTransferTask>) -> nat {
    count_where(tasks, |task: SftpTransferTask| task.state.active())
}

/// The same transfers in the same order, and those that have come to their end unchanged.
pub open spec fn keeps_finished(
    before: Seq<SftpTransferTask>,
    after: Seq<SftpTransferTask>,
) -> bool {
    &&& after.len() == before.len()
    &&& forall|i: int|
        0 <= i < before.len() ==> {
            &&& (#[trigger] after[i]).id == before[i].id
            &&& after[i].batch_id == before[i].batch_id
            &&& before[i].state.finished() ==> after[i] == before[i]
        }
}

/// Every transfer that has not come to its end has failed with `error`; nothing else has changed.
pub open spec fn fails_pending(
    before: SftpTransferQueue,
    after: SftpTransferQueue,
    error: Seq<char>,
) -> bool {
    &&& after.next_id == before.next_id
    &&& after.next_batch_id == before.next_batch_id
    &&& after.tasks@.len() == before.tasks@.len()
    &&& forall|i: int|
        0 <= i < before.tasks@.len() ==> failed_task(
            before.tasks@[i],
            #[trigger] after.tasks@[i],
            error,
        )
}

/// What becomes of one transfer when every one that has not come to its end fails.
pub open spec fn failed_task(
    task: SftpTransferTask,
    after: SftpTransferTask,
    error: Seq<char>,
) -> bool {
    if task.state.finished() {
        after == task
    } else {
        crate::text::opt_view(after.error) == Some(error) && after == (SftpTransferTask {
            state: SftpTransferState::Failed,
            error: after.error,
            ..task
        })
    }
}

/// The larger of two numbers.
pub open spec fn larger(a: u64, b: u64) -> u64 {
    if a >= b {
        a
    } else {
        b
    }
}

/// The number of the latest batch that moves files in `direction`; -1 where there is none.
pub open spec fn latest_batch(tasks: Seq<SftpTransferTask>, direction: SftpTransferDirection) -> int
    decreases tasks.len(),
{
    if tasks.len() == 0 {
        -1
    } else {
        let before = latest_batch(tasks.drop_last(), direction);
        if tasks.last().direction == direction && tasks.last().batch_id > before {
            tasks.last().batch_id as int
        } else {
            before
        }
    }
}

/// The transfers of the latest batch in `direction`.
pub open spec fn latest_tasks(
    tasks: Seq<SftpTransferTask>,
    direction: SftpTransferDirection,
) -> Seq<SftpTransferTask> {
    let batch = latest_batch(tasks, direction);
    tasks.filter(|task: SftpTransferTask| task.direction == direction && task.batch_id == batch)
}

/// The bytes of a transfer that count: no more than its size where that is known.
pub open spec fn counted_bytes(task: SftpTransferTask) -> nat {
    match task.total {
        Some(total) => if task.transferred <= total {
            task.transferred as nat
        } else {
            total as nat
        },
        None => task.transferred as nat,
    }
}

/// The size of a transfer where it is known.
pub open spec fn known_size(task: SftpTransferTask) -> nat {
    match task.total {
        Some(total) => total as nat,
        None => 0,
    }
}

/// A sum that stops at the largest 64-bit number.
pub open spec fn capped(sum: nat) -> u64 {
    if sum <= u64::MAX {
        sum as u64
    } else {
        u64::MAX
    }
}

/// The part of one transfer that is done: all of a completed one, nothing of one whose size is
/// not known or is zero.
pub open spec fn task_share(task: SftpTransferTask) -> (u64, u64) {
    if task.state == SftpTransferState::Completed {
        (1, 1)
    } else {
        match task.total {
            Some(total) => if total > 0 {
                (task.transferred, total)
            } else {
                (0, 1)
            },
            None => (0, 1),
        }
    }
}

/// The size of a batch, where that of each of its transfers is known.
pub open spec fn batch_total(batch: Seq<SftpTransferTask>) -> Option<u64> {
    if forall|i: int| 0 <= i < batch.len() ==> (#[trigger] batch[i]).total is Some {
        Some(capped(sum_of(batch, |task: SftpTransferTask| known_size(task))))
    } else {
        None
    }
}

/// The bytes of a batch that were moved.
pub open spec fn batch_transferred(batch: Seq<SftpTransferTask>) -> u64 {
    capped(sum_of(batch, |task: SftpTransferTask| counted_bytes(task)))
}

/// `progress` is how far `batch` has come.
pub open spec fn is_progress_of(
    progress: SftpTransferBatchProgress,
    batch: Seq<SftpTransferTask>,
) -> bool {
    &&& progress.task_count == batch.len()
    &&& progress.settled_count == count_where(
        batch,
        |task: SftpTransferTask| task.state.finished(),
    )
    &&& progress.failed_count == count_where(
        batch,
        |task: SftpTransferTask|
            task.state == SftpTransferState::Failed || task.state == SftpTransferState::Cancelled,
    )
    &&& progress.transferred == batch_transferred(batch)
    &&& progress.total == batch_total(batch)
    &&& progress.shares@ == match batch_total(batch) {
        Some(total) => if total > 0 {
            seq![(batch_transferred(batch), total)]
        } else {
            batch.map_values(|task: SftpTransferTask| task_share(task))
        },
        None => batch.map_values(|task: SftpTransferTask| task_share(task)),
    }
}

/// A worker holds the transfer `id`.
pub open spec fn is_active_task(tasks: Seq<SftpTransferTask>, id: u64) -> bool {
    has_task(tasks, id) && task_with_id(tasks, id).state.active()
}

/// There is a transfer `id` that has not come to its end.
pub open spec fn is_open_task(tasks: Seq<SftpTransferTask>, id: u64) -> bool {
    has_task(tasks, id) && !task_with_id(tasks, id).state.finished()
}

/// There is a transfer `id` in this state.
pub open spec fn is_task_in(
    tasks: Seq<SftpTransferTask>,
    id: u64,
    state: SftpTransferState,
) -> bool {
    has_task(tasks, id) && task_with_id(tasks, id).state == state
}

/// The transfers after bytes of the transfer `id` were moved. The number never goes down.
pub open spec fn progressed(
    tasks: Seq<SftpTransferTask>,
    id: u64,
    transferred: u64,
    total: Option<u64>,
) -> Seq<SftpTransferTask> {
    let task = task_with_id(tasks, id);
    if is_active_task(tasks, id) {
        with_task(
            tasks,
            id,
            SftpTransferTask {
                transferred: larger(task.transferred, transferred),
                total: if total is Some {
                    total
                } else {
                    task.total
                },
                ..task
            },
        )
    } else {
        tasks
    }
}

/// The transfers after the destination of the transfer `id` was found to exist.
pub open spec fn conflicted(tasks: Seq<SftpTransferTask>, id: u64) -> Seq<SftpTransferTask> {
    if is_task_in(tasks, id, SftpTransferState::Running) {
        with_task(
            tasks,
            id,
            SftpTransferTask { state: SftpTransferState::Conflict, ..task_with_id(tasks, id) },
        )
    } else {
        tasks
    }
}

/// The transfers after the transfer `id` was done. Its size is what was moved.
pub open spec fn completed(
    tasks: Seq<SftpTransferTask>,
    id: u64,
    bytes: u64,
) -> Seq<SftpTransferTask> {
    if is_active_task(tasks, id) {
        with_task(
            tasks,
            id,
            SftpTransferTask {
                state: SftpTransferState::Completed,
                transferred: bytes,
                total: Some(bytes),
                error: None,
                ..task_with_id(tasks, id)
            },
        )
    } else {
        tasks
    }
}

/// The transfers after the transfer `id` has failed.
pub open spec fn failed(
    tasks: Seq<SftpTransferTask>,
    id: u64,
    error: String,
) -> Seq<SftpTransferTask> {
    if is_open_task(tasks, id) {
        with_task(
            tasks,
            id,
            SftpTransferTask {
                state: SftpTransferState::Failed,
                error: Some(error),
                ..task_with_id(tasks, id)
            },
        )
    } else {
        tasks
    }
}

/// The transfers after the transfer `id` was cancelled.
pub open spec fn cancelled(tasks: Seq<SftpTransferTask>, id: u64) -> Seq<SftpTransferTask> {
    if is_open_task(tasks, id) {
        with_task(
            tasks,
            id,
            SftpTransferTask {
                state: SftpTransferState::Cancelled,
                error: None,
                ..task_with_id(tasks, id)
            },
        )
    } else {
        tasks
    }
}

/// Whether a worker has to be told when the transfer `id` is cancelled; none where nothing is left
/// to cancel.
pub open spec fn cancel_signal(tasks: Seq<SftpTransferTask>, id: u64) -> Option<bool> {
    if !has_task(tasks, id) {
        None
    } else {
        match task_with_id(tasks, id).state {
            SftpTransferState::Running => Some(true),
            SftpTransferState::Queued | SftpTransferState::Conflict => Some(false),
            _ => None,
        }
    }
}

/// The transfers after the user has cancelled the transfer `id`.
pub open spec fn cancel_begun(tasks: Seq<SftpTransferTask>, id: u64) -> Seq<SftpTransferTask> {
    match cancel_signal(tasks, id) {
        None => tasks,
        Some(signal) => with_task(
            tasks,
            id,
            SftpTransferTask {
                state: if signal {
                    SftpTransferState::Cancelling
                } else {
                    SftpTransferState::Cancelled
                },
                ..task_with_id(tasks, id)
            },
        ),
    }
}

/// The transfers that have not come to their end.
pub open spec fn unfinished(tasks: Seq<SftpTransferTask>) -> Seq<SftpTransferTask> {
    tasks.filter(|task: SftpTransferTask| !task.state.finished())
}

/// The transfers after the transfer `id`, whose destination exists, was put back into the queue to
/// replace it.
pub open spec fn requeued(tasks: Seq<SftpTransferTask>, id: u64) -> Seq<SftpTransferTask> {
    if is_task_in(tasks, id, SftpTransferState::Conflict) {
        with_task(
            tasks,
            id,
            SftpTransferTask {
                overwrite: true,
                state: SftpTransferState::Queued,
                transferred: 0,
                total: None,
                error: None,
                ..task_with_id(tasks, id)
            },
        )
    } else {
        tasks
    }
}

/// Waiting to be started.
pub open spec fn is_queued() -> spec_fn(SftpTransferTask) -> bool {
    |task: SftpTransferTask| task.state == SftpTransferState::Queued
}

/// The position of the oldest transfer that waits; the number of transfers where there is none.
pub open spec fn queued_position(tasks: Seq<SftpTransferTask>) -> int {
    first_index(tasks, is_queued())
}

/// Some transfer waits.
pub open spec fn has_queued(tasks: Seq<SftpTransferTask>) -> bool {
    0 <= queued_position(tasks) < tasks.len()
}

/// The oldest transfer that waits, started.
pub open spec fn started_task(tasks: Seq<SftpTransferTask>) -> SftpTransferTask {
    SftpTransferTask {
        state: SftpTransferState::Running,
        error: None,
        ..tasks[queued_position(tasks)]
    }
}

/// The transfers after the oldest that waits was started.
pub open spec fn started(tasks: Seq<SftpTransferTask>) -> Seq<SftpTransferTask> {
    tasks.update(queued_position(tasks), started_task(tasks))
}

/// `after` is `before` with other transfers; the numbers to come are the same.
pub open spec fn with_tasks(
    before: SftpTransferQueue,
    after: SftpTransferQueue,
    tasks: Seq<SftpTransferTask>,
) -> bool {
    &&& after.next_id == before.next_id
    &&& after.next_batch_id == before.next_batch_id
    &&& after.tasks@ == tasks
}

impl SftpTransferQueue {
    /// Transfers are numbered from 1, each number once.
    pub open spec fn wf(self) -> bool {
        &&& forall|i: int|
            0 <= i < self.tasks@.len() ==> 1 <= (#[trigger] self.tasks@[i]).id < self.next_id
        &&& forall|i: int, j: int|
            0 <= i < j < self.tasks@.len() ==> (#[trigger] self.tasks@[i]).id < (
            #[trigger] self.tasks@[j]).id
    }

    /// Opens a batch; batches are numbered from 1.
    pub fn begin_batch(&mut self) -> (r: u64)
        requires
            old(self).next_batch_id < u64::MAX,
        ensures
            r == larger(old(self).next_batch_id, 1),
            final(self).next_batch_id == r + 1,
            final(self).next_id == old(self).next_id,
            final(self).tasks == old(self).tasks,
    {
        if self.next_batch_id < 1 {
            self.next_batch_id = 1;
        }
        let batch_id: u64 = self.next_batch_id;
        self.next_batch_id = batch_id + 1;
        batch_id
    }

    /// Adds a transfer at the end of the queue.
    pub fn enqueue_in_batch(
        &mut self,
        batch_id: u64,
        direction: SftpTransferDirection,
        local_path: PathBuf,
        remote_path: String,
        overwrite: bool,
        expected_total: Option<u64>,
    ) -> (r: u64)
        requires
            old(self).next_id < u64::MAX,
        ensures
            r == larger(old(self).next_id, 1),
            final(self).next_id == r + 1,
            final(self).next_batch_id == old(self).next_batch_id,
            final(self).tasks@ == old(self).tasks@.push(
                queued_task(
                    r,
                    batch_id,
                    direction,
                    local_path,
                    remote_path,
                    overwrite,
                    expected_total,
                ),
            ),
            old(self).wf() ==> final(self).wf(),
    {
        if self.next_id < 1 {
            self.next_id = 1;
        }
        let id: u64 = self.next_id;
        self.next_id = id + 1;
        self.tasks.push(
            SftpTransferTask {
                id,
                batch_id,
                direction,
                local_path,
                remote_path,
                overwrite,
                state: SftpTransferState::Queued,
                transferred: 0,
                total: expected_total,
                error: None,
            },
        );
        id
    }

    /// The position of the transfer `id`.
    fn position(&self, id: u64) -> (r: Option<usize>)
        ensures
            match r {
                Some(i) => i == task_position(self.tasks@, id) && has_task(self.tasks@, id)
                    && self.tasks@[i as int].id == id,
                None => !has_task(self.tasks@, id),
            },
    {
        let ghost wanted = |task: SftpTransferTask| task.id == id;
        let mut i: usize = 0;
        while i < self.tasks.len()
            invariant
                i <= self.tasks@.len(),
                wanted == (|task: SftpTransferTask| task.id == id),
                forall|k: int| 0 <= k < i ==> (#[trigger] self.tasks@[k]).id != id,
            decreases self.tasks@.len() - i,
        {
            if self.tasks[i].id == id {
                proof {
                    first_index_is(self.tasks@, wanted, i as int);
                }
                return Some(i);
            }
            i = i + 1;
        }
        proof {
            first_index_is(self.tasks@, wanted, i as int);
        }
        None
    }

    /// Starts the oldest transfer that waits.
    pub fn start_next(&mut self) -> (r: Option<SftpTransferTask>)
        ensures
            if has_queued(old(self).tasks@) {
                &&& r == Some(started_task(old(self).tasks@))
                &&& with_tasks(*old(self), *final(self), started(old(self).tasks@))
            } else {
                r is None && *final(self) == *old(self)
            },
            keeps_finished(old(self).tasks@, final(self).tasks@),
            old(self).wf() ==> final(self).wf(),
            active_tasks(final(self).tasks@) == active_tasks(old(self).tasks@) + if r is Some {
                1nat
            } else {
                0nat
            },
    {
        let ghost waiting = is_queued();
        let mut i: usize = 0;
        while i < self.tasks.len()
            invariant
                i <= self.tasks@.len(),
                *self == *old(self),
                waiting == is_queued(),
                forall|k: int|
                    0 <= k < i ==> (#[trigger] self.tasks@[k]).state != SftpTransferState::Queued,
            decreases self.tasks@.len() - i,
        {
            if self.tasks[i].state == SftpTransferState::Queued {
                let mut task = self.tasks[i].clone();
                task.state = SftpTransferState::Running;
                task.error = None;
                proof {
                    first_index_is(self.tasks@, waiting, i as int);
                    count_where_update(
                        self.tasks@,
                        i as int,
                        task,
                        |task: SftpTransferTask| task.state.active(),
                    );
                }
                self.tasks.set(i, task.clone());
                return Some(task);
            }
            i = i + 1;
        }
        proof {
            first_index_is(self.tasks@, waiting, i as int);
        }
        None
    }

    /// How many transfers a worker holds.
    pub fn active_count(&self) -> (r: usize)
        ensures
            r == active_tasks(self.tasks@),
    {
        let ghost active = |task: SftpTransferTask| task.state.active();
        let mut count: usize = 0;
        let mut i: usize = 0;
        assert(count_where(self.tasks@.take(0), active) == 0) by {
            reveal(Seq::filter);
        }
        while i < self.tasks.len()
            invariant
                count <= i <= self.tasks@.len(),
                active == (|task: SftpTransferTask| task.state.active()),
                count == count_where(self.tasks@.take(i as int), active),
            decreases self.tasks@.len() - i,
        {
            proof {
                count_where_push(self.tasks@.take(i as int), self.tasks@[i as int], active);
                assert(self.tasks@.take(i + 1) =~= self.tasks@.take(i as int).push(
                    self.tasks@[i as int],
                ));
            }
            if self.tasks[i].state.is_active() {
                count = count + 1;
            }
            i = i + 1;
        }
        assert(self.tasks@.take(i as int) =~= self.tasks@);
        count
    }

    /// The transfer `id`, to be changed.
    pub fn task_mut(&mut self, id: u64) -> (r: Option<&mut SftpTransferTask>)
        ensures
            match r {
                Some(task) => {
                    &&& has_task(old(self).tasks@, id)
                    &&& *task == task_with_id(old(self).tasks@, id)
                    &&& final(self).tasks@ == with_task(old(self).tasks@, id, *final(task))
                    &&& final(self).next_id == old(self).next_id
                    &&& final(self).next_batch_id == old(self).next_batch_id
                },
                None => !has_task(old(self).tasks@, id) && *final(self) == *old(self),
            },
    {
        match self.position(id) {
            Some(i) => Some(&mut self.tasks[i]),
            None => None,
        }
    }

    /// Notes how many bytes have been moved; the number never goes down.
    pub fn mark_progress(&mut self, id: u64, transferred: u64, total: Option<u64>) -> (r: bool)
        ensures
            r == is_active_task(old(self).tasks@, id),
            final(self).tasks@ == progressed(old(self).tasks@, id, transferred, total),
            final(self).next_id == old(self).next_id,
            final(self).next_batch_id == old(self).next_batch_id,
            keeps_finished(old(self).tasks@, final(self).tasks@),
            old(self).wf() ==> final(self).wf(),
            active_tasks(final(self).tasks@) == active_tasks(old(self).tasks@),
    {
        let ghost before = self.tasks@;
        let done = match self.task_mut(id) {
            None => false,
            Some(task) => {
                if !task.state.is_active() {
                    false
                } else {
                    if task.transferred < transferred {
                        task.transferred = transferred;
                    }
                    if total.is_some() {
                        task.total = total;
                    }
                    true
                }
            },
        };
        proof {
            replaced_task(before, self.tasks@, id);
        }
        done
    }

    /// The destination exists: the transfer waits for a decision and gives its worker back.
    pub fn mark_conflict(&mut self, id: u64) -> (r: bool)
        ensures
            r == is_task_in(old(self).tasks@, id, SftpTransferState::Running),
            final(self).tasks@ == conflicted(old(self).tasks@, id),
            final(self).next_id == old(self).next_id,
            final(self).next_batch_id == old(self).next_batch_id,
            keeps_finished(old(self).tasks@, final(self).tasks@),
            old(self).wf() ==> final(self).wf(),
            r ==> active_tasks(final(self).tasks@) == active_tasks(old(self).tasks@) - 1,
    {
        let ghost before = self.tasks@;
        let done = match self.task_mut(id) {
            None => false,
            Some(task) => {
                if task.state != SftpTransferState::Running {
                    false
                } else {
                    task.state = SftpTransferState::Conflict;
                    true
                }
            },
        };
        proof {
            replaced_task(before, self.tasks@, id);
        }
        done
    }

    /// The transfer is done, and its size is what was moved.
    pub fn mark_completed(&mut self, id: u64, bytes: u64) -> (r: bool)
        ensures
            r == is_active_task(old(self).tasks@, id),
            final(self).tasks@ == completed(old(self).tasks@, id, bytes),
            final(self).next_id == old(self).next_id,
            final(self).next_batch_id == old(self).next_batch_id,
            keeps_finished(old(self).tasks@, final(self).tasks@),
            old(self).wf() ==> final(self).wf(),
            r ==> active_tasks(final(self).tasks@) == active_tasks(old(self).tasks@) - 1,
    {
        let ghost before = self.tasks@;
        let done = match self.task_mut(id) {
            None => false,
            Some(task) => {
                if !task.state.is_active() {
                    false
                } else {
                    task.state = SftpTransferState::Completed;
                    task.transferred = bytes;
                    task.total = Some(bytes);
                    task.error = None;
                    true
                }
            },
        };
        proof {
            replaced_task(before, self.tasks@, id);
        }
        done
    }

    /// The transfer has failed.
    pub fn mark_failed(&mut self, id: u64, error: String) -> (r: bool)
        ensures
            r == is_open_task(old(self).tasks@, id),
            final(self).tasks@ == failed(old(self).tasks@, id, error),
            final(self).next_id == old(self).next_id,
            final(self).next_batch_id == old(self).next_batch_id,
            keeps_finished(old(self).tasks@, final(self).tasks@),
            old(self).wf() ==> final(self).wf(),
            active_tasks(final(self).tasks@) <= active_tasks(old(self).tasks@),
    {
        let ghost before = self.tasks@;
        let done = match self.task_mut(id) {
            None => false,
            Some(task) => {
                if task.state.is_finished() {
                    false
                } else {
                    task.state = SftpTransferState::Failed;
                    task.error = Some(error);
                    true
                }
            },
        };
        proof {
            replaced_task(before, self.tasks@, id);
        }
        done
    }

    /// The transfer was cancelled.
    pub fn mark_cancelled(&mut self, id: u64) -> (r: bool)
        ensures
            r == is_open_task(old(self).tasks@, id),
            final(self).tasks@ == cancelled(old(self).tasks@, id),
            final(self).next_id == old(self).next_id,
            final(self).next_batch_id == old(self).next_batch_id,
            keeps_finished(old(self).tasks@, final(self).tasks@),
            old(self).wf() ==> final(self).wf(),
            active_tasks(final(self).tasks@) <= active_tasks(old(self).tasks@),
    {
        let ghost before = self.tasks@;
        let done = match self.task_mut(id) {
            None => false,
            Some(task) => {
                if task.state.is_finished() {
                    false
                } else {
                    task.state = SftpTransferState::Cancelled;
                    task.error = None;
                    true
                }
            },
        };
        proof {
            replaced_task(before, self.tasks@, id);
        }
        done
    }

    /// Puts a transfer whose destination exists back into the queue, to replace it.
    pub fn retry_with_overwrite(&mut self, id: u64) -> (r: bool)
        ensures
            r == is_task_in(old(self).tasks@, id, SftpTransferState::Conflict),
            final(self).tasks@ == requeued(old(self).tasks@, id),
            final(self).next_id == old(self).next_id,
            final(self).next_batch_id == old(self).next_batch_id,
            keeps_finished(old(self).tasks@, final(self).tasks@),
            old(self).wf() ==> final(self).wf(),
            active_tasks(final(self).tasks@) == active_tasks(old(self).tasks@),
    {
        let ghost before = self.tasks@;
        let done = match self.task_mut(id) {
            None => false,
            Some(task) => {
                if task.state != SftpTransferState::Conflict {
                    false
                } else {
                    task.overwrite = true;
                    task.state = SftpTransferState::Queued;
                    task.transferred = 0;
                    task.total = None;
                    task.error = None;
                    true
                }
            },
        };
        proof {
            replaced_task(before, self.tasks@, id);
        }
        done
    }

    /// Cancels a transfer. The result says whether a worker has to be told; there is none where
    /// nothing was left to cancel.
    pub fn begin_cancel(&mut self, id: u64) -> (r: Option<bool>)
        ensures
            r == cancel_signal(old(self).tasks@, id),
            final(self).tasks@ == cancel_begun(old(self).tasks@, id),
            final(self).next_id == old(self).next_id,
            final(self).next_batch_id == old(self).next_batch_id,
            keeps_finished(old(self).tasks@, final(self).tasks@),
            old(self).wf() ==> final(self).wf(),
            active_tasks(final(self).tasks@) == active_tasks(old(self).tasks@),
    {
        let ghost before = self.tasks@;
        let done = match self.task_mut(id) {
            None => None,
            Some(task) => match task.state {
                SftpTransferState::Running => {
                    task.state = SftpTransferState::Cancelling;
                    Some(true)
                },
                SftpTransferState::Queued | SftpTransferState::Conflict => {
                    task.state = SftpTransferState::Cancelled;
                    Some(false)
                },
                SftpTransferState::Cancelling
                | SftpTransferState::Completed
                | SftpTransferState::Failed
                | SftpTransferState::Cancelled => None,
            },
        };
        proof {
            replaced_task(before, self.tasks@, id);
        }
        done
    }

    /// Takes the transfers that have come to their end off the list.
    pub fn clear_finished(&mut self)
        ensures
            final(self).tasks@ == unfinished(old(self).tasks@),
            final(self).next_id == old(self).next_id,
            final(self).next_batch_id == old(self).next_batch_id,
            old(self).wf() ==> final(self).wf(),
    {
        let ghost left = |task: SftpTransferTask| !task.state.finished();
        let mut kept: Vec<SftpTransferTask> = Vec::new();
        let mut i: usize = 0;
        assert(kept@ == self.tasks@.take(0).filter(left)) by {
            reveal(Seq::filter);
        }
        while i < self.tasks.len()
            invariant
                i <= self.tasks@.len(),
                *self == *old(self),
                left == (|task: SftpTransferTask| !task.state.finished()),
                kept@ == self.tasks@.take(i as int).filter(left),
                self.wf() ==> forall|k: int|
                    0 <= k < kept@.len() ==> 1 <= (#[trigger] kept@[k]).id < self.next_id && (i
                        < self.tasks@.len() ==> kept@[k].id < self.tasks@[i as int].id),
                self.wf() ==> forall|k: int, m: int|
                    0 <= k < m < kept@.len() ==> (#[trigger] kept@[k]).id
                        < (#[trigger] kept@[m]).id,
            decreases self.tasks@.len() - i,
        {
            proof {
                filter_push(self.tasks@.take(i as int), self.tasks@[i as int], left);
                assert(self.tasks@.take(i + 1) =~= self.tasks@.take(i as int).push(
                    self.tasks@[i as int],
                ));
            }
            if !self.tasks[i].state.is_finished() {
                kept.push(self.tasks[i].clone());
            }
            i = i + 1;
        }
        assert(self.tasks@.take(i as int) =~= self.tasks@);
        self.tasks = kept;
    }

    /// Fails every transfer that has not come to its end.
    pub fn fail_pending(&mut self, error: &str)
        ensures
            fails_pending(*old(self), *final(self), error@),
            keeps_finished(old(self).tasks@, final(self).tasks@),
            old(self).wf() ==> final(self).wf(),
            active_tasks(final(self).tasks@) == 0,
    {
        let mut i: usize = 0;
        while i < self.tasks.len()
            invariant
                i <= self.tasks@.len(),
                self.tasks@.len() == old(self).tasks@.len(),
                self.next_id == old(self).next_id,
                self.next_batch_id == old(self).next_batch_id,
                forall|k: int|
                    i <= k < self.tasks@.len() ==> #[trigger] self.tasks@[k] == old(self).tasks@[k],
                forall|k: int|
                    0 <= k < i ==> failed_task(
                        old(self).tasks@[k],
                        #[trigger] self.tasks@[k],
                        error@,
                    ),
            decreases self.tasks@.len() - i,
        {
            if !self.tasks[i].state.is_finished() {
                let mut task = self.tasks[i].clone();
                task.state = SftpTransferState::Failed;
                task.error = Some(error.to_owned());
                self.tasks.set(i, task);
            }
            i = i + 1;
        }
        proof {
            nothing_counted(self.tasks@, |task: SftpTransferTask| task.state.active());
        }
    }

    /// The transfers of the latest batch in `direction`.
    fn latest_batch_tasks(&self, direction: SftpTransferDirection) -> (r: Vec<SftpTransferTask>)
        ensures
            r@ == latest_tasks(self.tasks@, direction),
    {
        let mut latest: Option<u64> = None;
        let mut i: usize = 0;
        while i < self.tasks.len()
            invariant
                i <= self.tasks@.len(),
                latest_batch(self.tasks@.take(i as int), direction) == match latest {
                    Some(batch) => batch as int,
                    None => -1,
                },
            decreases self.tasks@.len() - i,
        {
            assert(self.tasks@.take(i + 1).drop_last() =~= self.tasks@.take(i as int));
            if self.tasks[i].direction == direction {
                let batch: u64 = self.tasks[i].batch_id;
                match latest {
                    Some(before) => {
                        if batch > before {
                            latest = Some(batch);
                        }
                    },
                    None => {
                        latest = Some(batch);
                    },
                }
            }
            i = i + 1;
        }
        assert(self.tasks@.take(i as int) =~= self.tasks@);
        let ghost number = latest_batch(self.tasks@, direction);
        let ghost wanted = |task: SftpTransferTask|
            task.direction == direction && task.batch_id == number;
        let mut out: Vec<SftpTransferTask> = Vec::new();
        let mut j: usize = 0;
        assert(out@ == self.tasks@.take(0).filter(wanted)) by {
            reveal(Seq::filter);
        }
        while j < self.tasks.len()
            invariant
                j <= self.tasks@.len(),
                number == match latest {
                    Some(batch) => batch as int,
                    None => -1,
                },
                wanted == (|task: SftpTransferTask|
                    task.direction == direction && task.batch_id == number),
                out@ == self.tasks@.take(j as int).filter(wanted),
            decreases self.tasks@.len() - j,
        {
            proof {
                filter_push(self.tasks@.take(j as int), self.tasks@[j as int], wanted);
                assert(self.tasks@.take(j + 1) =~= self.tasks@.take(j as int).push(
                    self.tasks@[j as int],
                ));
            }
            if self.tasks[j].direction == direction && latest == Some(self.tasks[j].batch_id) {
                out.push(self.tasks[j].clone());
            }
            j = j + 1;
        }
        assert(self.tasks@.take(j as int) =~= self.tasks@);
        out
    }

    /// How far the latest batch in `direction` has come; none for a batch of fewer than two files.
    pub fn latest_batch_progress(&self, direction: SftpTransferDirection) -> (r: Option<
        SftpTransferBatchProgress,
    >)
        ensures
            match r {
                Some(progress) => latest_tasks(self.tasks@, direction).len() >= 2
                    && is_progress_of(progress, latest_tasks(self.tasks@, direction)),
                None => latest_tasks(self.tasks@, direction).len() < 2,
            },
    {
        let tasks = self.latest_batch_tasks(direction);
        if tasks.len() < 2 {
            return None;
        }
        Some(batch_progress(&tasks))
    }
}

/// A sum of two numbers that stops at the largest, where the first is such a sum.
proof fn capped_sum(sum: nat, value: u64)
    ensures
        capped(sum + value as nat) == if capped(sum) + value > u64::MAX {
            u64::MAX
        } else {
            (capped(sum) + value) as u64
        },
{
}

/// How far a batch has come.
pub fn batch_progress(tasks: &Vec<SftpTransferTask>) -> (r: SftpTransferBatchProgress)
    ensures
        is_progress_of(r, tasks@),
{
    let ghost finished = |task: SftpTransferTask| task.state.finished();
    let ghost failed = |task: SftpTransferTask|
        task.state == SftpTransferState::Failed || task.state == SftpTransferState::Cancelled;
    let ghost size = |task: SftpTransferTask| known_size(task);
    let ghost counted = |task: SftpTransferTask| counted_bytes(task);
    let mut settled_count: usize = 0;
    let mut failed_count: usize = 0;
    let mut all_known: bool = true;
    let mut total: u64 = 0;
    let mut transferred: u64 = 0;
    let mut shares: Vec<(u64, u64)> = Vec::new();
    let mut i: usize = 0;
    proof {
        reveal(Seq::filter);
        assert(tasks@.take(0) =~= Seq::<SftpTransferTask>::empty());
    }
    while i < tasks.len()
        invariant
            i <= tasks@.len(),
            settled_count <= i,
            failed_count <= i,
            finished == (|task: SftpTransferTask| task.state.finished()),
            failed == (|task: SftpTransferTask|
                task.state == SftpTransferState::Failed || task.state
                    == SftpTransferState::Cancelled),
            size == (|task: SftpTransferTask| known_size(task)),
            counted == (|task: SftpTransferTask| counted_bytes(task)),
            settled_count == count_where(tasks@.take(i as int), finished),
            failed_count == count_where(tasks@.take(i as int), failed),
            all_known == forall|k: int| 0 <= k < i ==> (#[trigger] tasks@[k]).total is Some,
            total == capped(sum_of(tasks@.take(i as int), size)),
            transferred == capped(sum_of(tasks@.take(i as int), counted)),
            shares@ == tasks@.take(i as int).map_values(|task: SftpTransferTask| task_share(task)),
        decreases tasks@.len() - i,
    {
        let ghost seen = tasks@.take(i as int);
        let ghost next = tasks@[i as int];
        proof {
            assert(tasks@.take(i + 1) =~= seen.push(next));
            assert(tasks@.take(i + 1).drop_last() =~= seen);
            count_where_push(seen, next, finished);
            count_where_push(seen, next, failed);
            capped_sum(sum_of(seen, size), known_size(next) as u64);
            capped_sum(sum_of(seen, counted), counted_bytes(next) as u64);
        }
        let task = &tasks[i];
        if task.state.is_finished() {
            settled_count = settled_count + 1;
        }
        if matches!(task.state, SftpTransferState::Failed | SftpTransferState::Cancelled) {
            failed_count = failed_count + 1;
        }
        match task.total {
            Some(known) => {
                total = total.saturating_add(known);
                transferred = transferred.saturating_add(
                    if task.transferred <= known {
                        task.transferred
                    } else {
                        known
                    },
                );
            },
            None => {
                all_known = false;
                transferred = transferred.saturating_add(task.transferred);
            },
        }
        let share: (u64, u64) = if task.state == SftpTransferState::Completed {
            (1, 1)
        } else {
            match task.total {
                Some(known) => if known > 0 {
                    (task.transferred, known)
                } else {
                    (0, 1)
                },
                None => (0, 1),
            }
        };
        shares.push(share);
        i = i + 1;
        assert(shares@ =~= tasks@.take(i as int).map_values(
            |task: SftpTransferTask| task_share(task),
        ));
    }
    assert(tasks@.take(i as int) =~= tasks@);
    let known_total: Option<u64> = if all_known {
        Some(total)
    } else {
        None
    };
    if all_known && total > 0 {
        let mut whole: Vec<(u64, u64)> = Vec::new();
        whole.push((transferred, total));
        assert(whole@ =~= seq![(transferred, total)]);
        shares = whole;
    }
    SftpTransferBatchProgress {
        task_count: tasks.len(),
        settled_count,
        failed_count,
        transferred,
        total: known_total,
        shares,
    }
}

/// What replacing one transfer by another with its number keeps.
proof fn replaced_task(before: Seq<SftpTransferTask>, after: Seq<SftpTransferTask>, id: u64)
    requires
        !has_task(before, id) ==> after == before,
        has_task(before, id) ==> after.len() == before.len() && forall|i: int|
            0 <= i < before.len() && i != task_position(before, id) ==> #[trigger] after[i]
                == before[i],
    ensures
        has_task(before, id) ==> {
            let was = task_with_id(before, id);
            let is = after[task_position(before, id)];
            &&& was.id == id
            &&& is.id == id && is.batch_id == was.batch_id && (was.state.finished() ==> is == was)
                ==> keeps_finished(before, after)
            &&& active_tasks(after) + (if was.state.active() {
                1nat
            } else {
                0nat
            }) == active_tasks(before) + (if is.state.active() {
                1nat
            } else {
                0nat
            })
        },
        !has_task(before, id) ==> keeps_finished(before, after),
        after =~= before ==> keeps_finished(before, after),
{
    first_index_properties(before, |task: SftpTransferTask| task.id == id);
    if has_task(before, id) {
        assert(after =~= with_task(before, id, after[task_position(before, id)]));
        count_where_update(
            before,
            task_position(before, id),
            after[task_position(before, id)],
            |task: SftpTransferTask| task.state.active(),
        );
    }
}

/// Where no element has `wanted`, none is counted.
proof fn nothing_counted(
    tasks: Seq<SftpTransferTask>,
    wanted: spec_fn(SftpTransferTask) -> bool,
)
    requires
        forall|i: int| 0 <= i < tasks.len() ==> !wanted(#[trigger] tasks[i]),
    ensures
        count_where(tasks, wanted) == 0,
    decreases tasks.len(),
{
    reveal(Seq::filter);
    if tasks.len() > 0 {
        let head = tasks.drop_last();
        assert forall|i: int| 0 <= i < head.len() implies !wanted(#[trigger] head[i]) by {
            assert(head[i] == tasks[i]);
        }
        nothing_counted(head, wanted);
        count_where_push(head, tasks.last(), wanted);
        assert(head.push(tasks.last()) =~= tasks);
    }
}

/// A sum of parts is no more than the sum of the wholes.
proof fn sum_grows(
    batch: Seq<SftpTransferTask>,
    part: spec_fn(SftpTransferTask) -> nat,
    whole: spec_fn(SftpTransferTask) -> nat,
)
    requires
        forall|i: int| 0 <= i < batch.len() ==> part(#[trigger] batch[i]) <= whole(batch[i]),
    ensures
        sum_of(batch, part) <= sum_of(batch, whole),
    decreases batch.len(),
{
    if batch.len() > 0 {
        let rest = batch.drop_last();
        assert forall|i: int| 0 <= i < rest.len() implies part(#[trigger] rest[i]) <= whole(
            rest[i],
        ) by {
            assert(rest[i] == batch[i]);
        }
        sum_grows(rest, part, whole);
        assert(part(batch[batch.len() - 1]) <= whole(batch[batch.len() - 1]));
    }
}

/// A batch whose size is known never has more moved than there is to move.
pub proof fn batch_stays_within_its_size(batch: Seq<SftpTransferTask>)
    ensures
        match batch_total(batch) {
            Some(total) => batch_transferred(batch) <= total,
            None => true,
        },
{
    if batch_total(batch) is Some {
        let part = |task: SftpTransferTask| counted_bytes(task);
        let whole = |task: SftpTransferTask| known_size(task);
        assert forall|i: int| 0 <= i < batch.len() implies part(#[trigger] batch[i]) <= whole(
            batch[i],
        ) by {
            assert(batch[i].total is Some);
        }
        sum_grows(batch, part, whole);
    }
}

/// A transfer comes to replace its destination only by being put back into the queue for that,
/// after the destination was found to exist.
pub proof fn only_replacing_overwrites(
    tasks: Seq<SftpTransferTask>,
    id: u64,
    transferred: u64,
    total: Option<u64>,
    error: String,
    i: int,
)
    requires
        0 <= i < tasks.len(),
    ensures
        progressed(tasks, id, transferred, total)[i].overwrite == tasks[i].overwrite,
        conflicted(tasks, id)[i].overwrite == tasks[i].overwrite,
        completed(tasks, id, transferred)[i].overwrite == tasks[i].overwrite,
        failed(tasks, id, error)[i].overwrite == tasks[i].overwrite,
        cancelled(tasks, id)[i].overwrite == tasks[i].overwrite,
        has_queued(tasks) ==> started(tasks)[i].overwrite == tasks[i].overwrite,
        requeued(tasks, id)[i].overwrite != tasks[i].overwrite ==> tasks[i].id == id
            && tasks[i].state == SftpTransferState::Conflict,
{
    first_index_properties(tasks, |task: SftpTransferTask| task.id == id);
}

/// The position of the transfer `id` is the first with that number.
pub proof fn task_position_is_first(tasks: Seq<SftpTransferTask>, id: u64)
    ensures
        0 <= task_position(tasks, id) <= tasks.len(),
        task_position(tasks, id) < tasks.len() ==> tasks[task_position(tasks, id)].id == id,
        forall|k: int| 0 <= k < task_position(tasks, id) ==> (#[trigger] tasks[k]).id != id,
{
    first_index_properties(tasks, |task: SftpTransferTask| task.id == id);
}

/// What the worker tells of a transfer concerns the first transfer with its number: it comes to
/// the state that it is told of from the states in which that can happen, and every other transfer
/// stays as it is. None of this changes what is moved, to where, or whether it replaces anything.
pub proof fn reports_concern_one_transfer(
    tasks: Seq<SftpTransferTask>,
    id: u64,
    bytes: u64,
    total: Option<u64>,
    error: String,
    i: int,
)
    requires
        0 <= i < tasks.len(),
    ensures
        ({
            let task = tasks[i];
            let told_of = task.id == id && forall|k: int|
                0 <= k < i ==> (#[trigger] tasks[k]).id != id;
            let held = task.state == SftpTransferState::Running || task.state
                == SftpTransferState::Cancelling;
            let pending = held || task.state == SftpTransferState::Queued || task.state
                == SftpTransferState::Conflict;
            &&& conflicted(tasks, id).len() == tasks.len()
            &&& completed(tasks, id, bytes).len() == tasks.len()
            &&& cancelled(tasks, id).len() == tasks.len()
            &&& failed(tasks, id, error).len() == tasks.len()
            &&& progressed(tasks, id, bytes, total).len() == tasks.len()
            &&& conflicted(tasks, id)[i] == if told_of && task.state == SftpTransferState::Running {
                SftpTransferTask { state: SftpTransferState::Conflict, ..task }
            } else {
                task
            }
            &&& completed(tasks, id, bytes)[i] == if told_of && held {
                SftpTransferTask {
                    state: SftpTransferState::Completed,
                    transferred: bytes,
                    total: Some(bytes),
                    error: None,
                    ..task
                }
            } else {
                task
            }
            &&& cancelled(tasks, id)[i] == if told_of && pending {
                SftpTransferTask { state: SftpTransferState::Cancelled, error: None, ..task }
            } else {
                task
            }
            &&& failed(tasks, id, error)[i] == if told_of && pending {
                SftpTransferTask {
                    state: SftpTransferState::Failed,
                    error: Some(error),
                    ..task
                }
            } else {
                task
            }
            &&& progressed(tasks, id, bytes, total)[i] == if told_of && held {
                SftpTransferTask {
                    transferred: if bytes > task.transferred {
                        bytes
                    } else {
                        task.transferred
                    },
                    total: match total {
                        Some(size) => Some(size),
                        None => task.total,
                    },
                    ..task
                }
            } else {
                task
            }
        }),
{
    task_position_is_first(tasks, id);
}

/// Only the user's choice to replace puts a transfer back into the queue, and only one whose
/// destination was found to exist: it begins anew, and replaces the destination.
pub proof fn replacing_starts_over(tasks: Seq<SftpTransferTask>, id: u64, i: int)
    requires
        0 <= i < tasks.len(),
    ensures
        requeued(tasks, id).len() == tasks.len(),
        requeued(tasks, id)[i] == if tasks[i].id == id && tasks[i].state
            == SftpTransferState::Conflict && (forall|k: int|
            0 <= k < i ==> (#[trigger] tasks[k]).id != id) {
            SftpTransferTask {
                state: SftpTransferState::Queued,
                overwrite: true,
                transferred: 0,
                total: None,
                error: None,
                ..tasks[i]
            }
        } else {
            tasks[i]
        },
{
    task_position_is_first(tasks, id);
}

/// What is started is the oldest transfer that waits, as it was queued; every other one stays as it
/// is.
pub proof fn oldest_waiting_transfer_starts(tasks: Seq<SftpTransferTask>, i: int)
    requires
        0 <= i < tasks.len(),
        exists|k: int|
            0 <= k < tasks.len() && (#[trigger] tasks[k]).state == SftpTransferState::Queued,
    ensures
        has_queued(tasks),
        started(tasks).len() == tasks.len(),
        ({
            let oldest = tasks[i].state == SftpTransferState::Queued && forall|k: int|
                0 <= k < i ==> (#[trigger] tasks[k]).state != SftpTransferState::Queued;
            let running = SftpTransferTask {
                state: SftpTransferState::Running,
                error: None,
                ..tasks[i]
            };
            &&& started(tasks)[i] == if oldest {
                running
            } else {
                tasks[i]
            }
            &&& oldest ==> started_task(tasks) == running
        }),
{
    first_index_properties(tasks, is_queued());
    let k = choose|k: int|
        0 <= k < tasks.len() && (#[trigger] tasks[k]).state == SftpTransferState::Queued;
    let wanted = is_queued();
    assert(wanted(tasks[k]));
    assert forall|j: int| 0 <= j < queued_position(tasks) implies (#[trigger] tasks[j]).state
        != SftpTransferState::Queued by {
        assert(!wanted(tasks[j]));
    }
    assert(wanted(tasks[queued_position(tasks)]));
}

/// A session without a transfer that waits has none to start.
pub proof fn nothing_waiting_is_not_started(tasks: Seq<SftpTransferTask>)
    ensures
        has_queued(tasks) <==> exists|k: int|
            0 <= k < tasks.len() && (#[trigger] tasks[k]).state == SftpTransferState::Queued,
{
    first_index_properties(tasks, is_queued());
    let wanted = is_queued();
    if has_queued(tasks) {
        assert(wanted(tasks[queued_position(tasks)]));
    }
    if exists|k: int|
        0 <= k < tasks.len() && (#[trigger] tasks[k]).state == SftpTransferState::Queued {
        oldest_waiting_transfer_starts(
            tasks,
            choose|k: int|
                0 <= k < tasks.len() && (#[trigger] tasks[k]).state == SftpTransferState::Queued,
        );
    }
}

/// Cancelling stops one transfer, the first with its number: one that is under way is told to its
/// worker and ends when that answers, one that waits or whose destination exists ends at once, and
/// one that has come to its end or is being cancelled stays. Every other transfer goes on.
pub proof fn cancelling_stops_one_transfer(tasks: Seq<SftpTransferTask>, id: u64, i: int)
    requires
        0 <= i < tasks.len(),
    ensures
        cancel_begun(tasks, id).len() == tasks.len(),
        tasks[i].id != id || (exists|k: int| 0 <= k < i && (#[trigger] tasks[k]).id == id)
            ==> cancel_begun(tasks, id)[i] == tasks[i],
        tasks[i].id == id && (forall|k: int| 0 <= k < i ==> (#[trigger] tasks[k]).id != id) ==> {
            let after = cancel_begun(tasks, id)[i];
            &&& tasks[i].state == SftpTransferState::Running ==> after.state
                == SftpTransferState::Cancelling && cancel_signal(tasks, id) == Some(true)
            &&& tasks[i].state == SftpTransferState::Queued || tasks[i].state
                == SftpTransferState::Conflict ==> after.state == SftpTransferState::Cancelled
                && cancel_signal(tasks, id) == Some(false)
            &&& tasks[i].state == SftpTransferState::Cancelling || tasks[i].state
                == SftpTransferState::Completed || tasks[i].state == SftpTransferState::Failed
                || tasks[i].state == SftpTransferState::Cancelled ==> after == tasks[i]
                && cancel_signal(tasks, id) is None
            &&& after == (SftpTransferTask { state: after.state, ..tasks[i] })
        },
        (forall|k: int| 0 <= k < tasks.len() ==> (#[trigger] tasks[k]).id != id) ==> cancel_signal(
            tasks,
            id,
        ) is None,
{
    task_position_is_first(tasks, id);
}

/// Clearing the list takes off what was completed, has failed or was cancelled, and keeps the rest
/// in its order.
pub proof fn clearing_keeps_what_goes_on(
    tasks: Seq<SftpTransferTask>,
    task: SftpTransferTask,
)
    ensures
        unfinished(Seq::empty()).len() == 0,
        task.state == SftpTransferState::Completed || task.state == SftpTransferState::Failed
            || task.state == SftpTransferState::Cancelled ==> unfinished(tasks.push(task))
            == unfinished(tasks),
        task.state == SftpTransferState::Queued || task.state == SftpTransferState::Running
            || task.state == SftpTransferState::Cancelling || task.state
            == SftpTransferState::Conflict ==> unfinished(tasks.push(task)) == unfinished(
            tasks,
        ).push(task),
{
    let left = |task: SftpTransferTask| !task.state.finished();
    filter_push(tasks, task, left);
    assert(Seq::<SftpTransferTask>::empty().filter(left).len() == 0) by {
        reveal(Seq::filter);
    }
}

/// When the connection is gone, what has come to its end stays, and every other transfer has
/// failed and says why; none is taken off, and none moves anything else.
pub proof fn pending_transfers_fail(
    before: SftpTransferQueue,
    after: SftpTransferQueue,
    error: Seq<char>,
    i: int,
)
    requires
        fails_pending(before, after, error),
        0 <= i < before.tasks@.len(),
    ensures
        after.tasks@.len() == before.tasks@.len(),
        ({
            let task = before.tasks@[i];
            let now = after.tasks@[i];
            &&& task.state == SftpTransferState::Completed || task.state
                == SftpTransferState::Failed || task.state == SftpTransferState::Cancelled ==> now
                == task
            &&& task.state == SftpTransferState::Queued || task.state == SftpTransferState::Running
                || task.state == SftpTransferState::Cancelling || task.state
                == SftpTransferState::Conflict ==> now.state == SftpTransferState::Failed
                && now.error is Some && now.error->0@ == error
            &&& now.id == task.id && now.local_path == task.local_path && now.remote_path
                == task.remote_path && now.direction == task.direction && now.overwrite
                == task.overwrite && now.transferred == task.transferred && now.total == task.total
        }),
{
}

/// The latest batch in a direction is what moves files that way and has the greatest batch number
/// of all that do.
pub proof fn latest_batch_is_the_last_begun(
    tasks: Seq<SftpTransferTask>,
    direction: SftpTransferDirection,
    task: SftpTransferTask,
)
    ensures
        latest_tasks(tasks, direction).contains(task) <==> {
            &&& tasks.contains(task)
            &&& task.direction == direction
            &&& forall|k: int|
                0 <= k < tasks.len() && (#[trigger] tasks[k]).direction == direction
                    ==> tasks[k].batch_id <= task.batch_id
        },
{
    let batch = latest_batch(tasks, direction);
    let wanted = |task: SftpTransferTask| task.direction == direction && task.batch_id == batch;
    filter_is_exact(tasks, wanted, task);
    latest_batch_is_greatest(tasks, direction);
    if tasks.contains(task) && task.direction == direction {
        let k = tasks.index_of(task);
        assert(tasks[k].batch_id <= batch);
    }
}

/// The number of the latest batch is that of one of its transfers, and no other's is greater.
proof fn latest_batch_is_greatest(tasks: Seq<SftpTransferTask>, direction: SftpTransferDirection)
    ensures
        forall|k: int|
            0 <= k < tasks.len() && (#[trigger] tasks[k]).direction == direction
                ==> tasks[k].batch_id <= latest_batch(tasks, direction),
        latest_batch(tasks, direction) == -1 || exists|k: int|
            0 <= k < tasks.len() && (#[trigger] tasks[k]).direction == direction
                && tasks[k].batch_id == latest_batch(tasks, direction),
    decreases tasks.len(),
{
    if tasks.len() > 0 {
        let head = tasks.drop_last();
        latest_batch_is_greatest(head, direction);
        assert forall|k: int|
            0 <= k < tasks.len() && (#[trigger] tasks[k]).direction == direction implies
            tasks[k].batch_id <= latest_batch(tasks, direction) by {
            if k < head.len() {
                assert(head[k] == tasks[k]);
            }
        }
        let before = latest_batch(head, direction);
        if latest_batch(tasks, direction) == before && before != -1 {
            let k = choose|k: int|
                0 <= k < head.len() && (#[trigger] head[k]).direction == direction
                    && head[k].batch_id == before;
            assert(tasks[k].batch_id == before);
        } else if latest_batch(tasks, direction) != -1 {
            assert(tasks[tasks.len() - 1].batch_id == latest_batch(tasks, direction));
        }
    }
}

/// One transfer more in a batch: it counts as settled once it was completed, has failed or was
/// cancelled, as failed in the latter two cases; its bytes count, no more than its size; and the
/// size of the batch is known as long as that of each is.
pub proof fn one_transfer_more_in_a_batch(
    batch: Seq<SftpTransferTask>,
    task: SftpTransferTask,
    before: SftpTransferBatchProgress,
    after: SftpTransferBatchProgress,
    moved: nat,
)
    requires
        is_progress_of(before, batch),
        is_progress_of(after, batch.push(task)),
        moved == match task.total {
            Some(total) => if task.transferred <= total {
                task.transferred as nat
            } else {
                total as nat
            },
            None => task.transferred as nat,
        },
    ensures
        after.task_count == before.task_count + 1,
        after.settled_count == before.settled_count + if task.state == SftpTransferState::Completed
            || task.state == SftpTransferState::Failed || task.state
            == SftpTransferState::Cancelled {
            1int
        } else {
            0int
        },
        after.failed_count == before.failed_count + if task.state == SftpTransferState::Failed
            || task.state == SftpTransferState::Cancelled {
            1int
        } else {
            0int
        },
        before.transferred + moved <= u64::MAX && before.transferred < u64::MAX
            ==> after.transferred == before.transferred + moved,
        before.transferred + moved > u64::MAX ==> after.transferred == u64::MAX,
        after.total is Some <==> before.total is Some && task.total is Some,
        after.total is Some && before.total->0 + task.total->0 <= u64::MAX && before.total->0
            < u64::MAX ==> after.total->0 == before.total->0 + task.total->0,
{
    let longer = batch.push(task);
    assert(longer.drop_last() =~= batch);
    count_where_push(batch, task, |task: SftpTransferTask| task.state.finished());
    count_where_push(
        batch,
        task,
        |task: SftpTransferTask|
            task.state == SftpTransferState::Failed || task.state == SftpTransferState::Cancelled,
    );
    let moved_of = |task: SftpTransferTask| counted_bytes(task);
    let size_of_task = |task: SftpTransferTask| known_size(task);
    assert(sum_of(longer, moved_of) == sum_of(batch, moved_of) + moved);
    assert(sum_of(longer, size_of_task) == sum_of(batch, size_of_task) + known_size(task));
    if forall|i: int| 0 <= i < longer.len() ==> (#[trigger] longer[i]).total is Some {
        assert(longer[batch.len() as int].total is Some);
        assert forall|i: int| 0 <= i < batch.len() implies (#[trigger] batch[i]).total is Some by {
            assert(longer[i].total is Some);
        }
    }
    if (forall|i: int| 0 <= i < batch.len() ==> (#[trigger] batch[i]).total is Some)
        && task.total is Some {
        assert forall|i: int| 0 <= i < longer.len() implies (
        #[trigger] longer[i]).total is Some by {
            if i < batch.len() {
                assert(batch[i].total is Some);
            }
        }
    }
}

/// The part of a batch that is done: of a batch whose size is known, its bytes against that size;
/// else each transfer counts alike, by its own bytes, and one that was completed counts whole.
pub proof fn shares_of_a_batch(
    batch: Seq<SftpTransferTask>,
    progress: SftpTransferBatchProgress,
    i: int,
)
    requires
        is_progress_of(progress, batch),
    ensures
        progress.total is Some && progress.total->0 > 0 ==> progress.shares@ == seq![
            (progress.transferred, progress.total->0),
        ],
        progress.total is None || progress.total->0 == 0 ==> progress.shares@.len() == batch.len(),
        (progress.total is None || progress.total->0 == 0) && 0 <= i < batch.len() ==> {
            &&& batch[i].state == SftpTransferState::Completed ==> progress.shares@[i] == (
                1u64,
                1u64,
            )
            &&& batch[i].state != SftpTransferState::Completed && batch[i].total is Some
                && batch[i].total->0 > 0 ==> progress.shares@[i] == (
                batch[i].transferred,
                batch[i].total->0,
            )
            &&& batch[i].state != SftpTransferState::Completed && (batch[i].total is None
                || batch[i].total->0 == 0) ==> progress.shares@[i] == (0u64, 1u64)
        },
{
}

/// One transfer more is held by a worker while it is under way or being cancelled.
pub proof fn one_active_task_more(tasks: Seq<SftpTransferTask>, task: SftpTransferTask)
    ensures
        active_tasks(Seq::empty()) == 0,
        active_tasks(tasks.push(task)) == active_tasks(tasks) + if task.state
            == SftpTransferState::Running || task.state == SftpTransferState::Cancelling {
            1int
        } else {
            0int
        },
{
    let held = |task: SftpTransferTask| task.state.active();
    count_where_push(tasks, task, held);
    assert(Seq::<SftpTransferTask>::empty().filter(held).len() == 0) by {
        reveal(Seq::filter);
    }
}

/// A transfer is queued as it was asked for: it waits, nothing of it is done, and it replaces its
/// destination only where that was asked for.
pub proof fn queued_as_asked(
    id: u64,
    batch_id: u64,
    direction: SftpTransferDirection,
    local_path: PathBuf,
    remote_path: String,
    overwrite: bool,
    expected_total: Option<u64>,
)
    ensures
        ({
            let task = queued_task(
                id,
                batch_id,
                direction,
                local_path,
                remote_path,
                overwrite,
                expected_total,
            );
            &&& task.id == id && task.batch_id == batch_id
            &&& task.direction == direction
            &&& task.local_path == local_path && task.remote_path == remote_path
            &&& task.overwrite == overwrite
            &&& task.state == SftpTransferState::Queued
            &&& task.transferred == 0 && task.total == expected_total && task.error is None
        }),
{
}

} // verus!
