//! What the user does with remote files and transfers, beyond one browser.
use crate::browser::{PendingSftpDownloadTree, SftpBrowserPlacement, SftpBrowserState};
use crate::plans::{download_destination, selected_target};
use crate::remote_files::{RemoteFileEntry, RemoteFileKind};
use crate::remote_path::{collapse_nested_remote_entries, is_collapsed, join_path, remote_join_path};
use crate::sequences::sum_of;
use crate::session::{Session, SessionId, SessionState};
use crate::text::{
    join_texts, join_with, text_contains_char, text_eq, trim, trimmed, views, views_push,
};
use crate::transfers::{
    active_tasks, has_queued, has_task, larger, started, started_task, task_with_id, with_task,
    with_tasks, SftpTransferDirection, SftpTransferQueue, SftpTransferState, SftpTransferTask,
};
use std::path::PathBuf;
use vstd::arithmetic::div_mod::{lemma_add_mod_noop, lemma_mod_self_0, lemma_small_mod};
use vstd::prelude::*;
use vstd::string::*;

verus! {

broadcast use vstd::std_specs::hash::group_hash_axioms;

/// A transfer that was started. `can_send` says whether its session's worker can be given it.
#[derive(Debug, PartialEq, Eq)]
pub struct StartedTransfer {
    pub session_id: SessionId,
    pub can_send: bool,
    pub task: SftpTransferTask,
}

/// The transfers of a session that a worker holds.
pub open spec fn active_of<S>() -> spec_fn(Session<S>) -> nat {
    |session: Session<S>| active_tasks(session.transfers.tasks@)
}

/// The transfers of all sessions that a worker holds.
pub open spec fn total_active<S>(sessions: Seq<Session<S>>) -> nat {
    sum_of(sessions, active_of::<S>())
}

/// A session has a transfer that waits.
pub open spec fn session_waits<S>(session: Session<S>) -> bool {
    has_queued(session.transfers.tasks@)
}

/// The session whose turn comes `steps` after that of `cursor`.
pub open spec fn turn(cursor: int, steps: int, count: int) -> int {
    (cursor + steps) % count
}

/// `sessions` with the oldest transfer that waits in the session `index` started.
pub open spec fn with_started<S>(
    before: Seq<Session<S>>,
    after: Seq<Session<S>>,
    index: int,
) -> bool {
    &&& 0 <= index < before.len()
    &&& after.len() == before.len()
    &&& forall|i: int| 0 <= i < before.len() && i != index ==> #[trigger] after[i] == before[i]
    &&& after[index] == (Session { transfers: after[index].transfers, ..before[index] })
    &&& with_tasks(
        before[index].transfers,
        after[index].transfers,
        started(before[index].transfers.tasks@),
    )
}

/// The session whose turn comes `steps` after that of `cursor` is the first in turn with a transfer
/// that waits.
pub open spec fn is_next_in_turn<S>(sessions: Seq<Session<S>>, cursor: int, steps: int) -> bool {
    let count = sessions.len() as int;
    &&& 0 <= steps < count
    &&& session_waits(sessions[turn(cursor, steps, count)])
    &&& forall|k: int|
        0 <= k < steps ==> !session_waits(sessions[#[trigger] turn(cursor, k, count)])
}

/// What starting the oldest transfer that waits in the first session in turn comes to.
pub open spec fn next_taken<S>(
    before: Seq<Session<S>>,
    cursor: usize,
    after: Seq<Session<S>>,
    cursor_after: usize,
    r: Option<StartedTransfer>,
) -> bool {
    match r {
        Some(next) => exists|steps: int| #[trigger]
            is_next_in_turn(before, cursor as int, steps) && {
                let count = before.len() as int;
                let index = turn(cursor as int, steps, count);
                let session = before[index];
                &&& next == (StartedTransfer {
                    session_id: session.id,
                    can_send: session.can_ask(),
                    task: started_task(session.transfers.tasks@),
                })
                &&& with_started(before, after, index)
                &&& cursor_after == (index + 1) % count
            },
        None => {
            &&& forall|i: int| 0 <= i < before.len() ==> !session_waits(#[trigger] before[i])
            &&& after == before
            &&& cursor_after == if before.len() == 0 {
                0
            } else {
                cursor
            }
        },
    }
}

/// What starting the next transfer comes to, where workers may hold `limit` of them.
pub open spec fn next_started<S>(
    before: Seq<Session<S>>,
    cursor: usize,
    limit: usize,
    after: Seq<Session<S>>,
    cursor_after: usize,
    r: Option<StartedTransfer>,
) -> bool {
    if total_active(before) >= limit {
        r is None && after == before && cursor_after == cursor
    } else {
        next_taken(before, cursor, after, cursor_after, r)
    }
}

/// How many transfers of all sessions a worker holds.
pub fn active_sftp_transfer_count<S>(sessions: &Vec<Session<S>>) -> (r: usize)
    requires
        total_active(sessions@) <= usize::MAX,
    ensures
        r == total_active(sessions@),
{
    let mut count: usize = 0;
    let mut i: usize = 0;
    assert(sessions@.take(0) =~= Seq::<Session<S>>::empty());
    while i < sessions.len()
        invariant
            i <= sessions@.len(),
            total_active(sessions@) <= usize::MAX,
            count == total_active(sessions@.take(i as int)),
        decreases sessions@.len() - i,
    {
        proof {
            assert(sessions@.take(i + 1).drop_last() =~= sessions@.take(i as int));
            active_grows(sessions@, i + 1);
        }
        count = count + sessions[i].transfers.active_count();
        i = i + 1;
    }
    assert(sessions@.take(i as int) =~= sessions@);
    count
}

/// The first sessions hold no more active transfers than all of them.
proof fn active_grows<S>(sessions: Seq<Session<S>>, n: int)
    requires
        0 <= n <= sessions.len(),
    ensures
        total_active(sessions.take(n)) <= total_active(sessions),
    decreases sessions.len() - n,
{
    if n == sessions.len() {
        assert(sessions.take(n) =~= sessions);
    } else {
        active_grows(sessions, n + 1);
        assert(sessions.take(n + 1).drop_last() =~= sessions.take(n));
    }
}

/// Fewer than `limit` transfers are held by a worker.
fn has_room<S>(sessions: &Vec<Session<S>>, limit: usize) -> (r: bool)
    ensures
        r == (total_active(sessions@) < limit),
{
    if limit == 0 {
        return false;
    }
    let mut room: usize = limit;
    let mut i: usize = 0;
    assert(sessions@.take(0) =~= Seq::<Session<S>>::empty());
    while i < sessions.len()
        invariant
            i <= sessions@.len(),
            0 < room <= limit,
            room == limit - total_active(sessions@.take(i as int)),
        decreases sessions@.len() - i,
    {
        proof {
            assert(sessions@.take(i + 1).drop_last() =~= sessions@.take(i as int));
            active_grows(sessions@, i + 1);
        }
        let active: usize = sessions[i].transfers.active_count();
        if active >= room {
            return false;
        }
        room = room - active;
        i = i + 1;
    }
    assert(sessions@.take(i as int) =~= sessions@);
    true
}

/// Starts the oldest transfer that waits in the first session in turn that has one; the turn then
/// passes to the session after it.
pub fn take_next_queued_sftp_transfer<S>(sessions: &mut Vec<Session<S>>, cursor: &mut usize) -> (r:
    Option<StartedTransfer>)
    ensures
        next_taken(old(sessions)@, *old(cursor), final(sessions)@, *final(cursor), r),
{
    if sessions.len() == 0 {
        *cursor = 0;
        return None;
    }
    let count: usize = sessions.len();
    let first: usize = *cursor % count;
    let ghost before = sessions@;
    let mut offset: usize = 0;
    while offset < count
        invariant
            0 < count,
            offset <= count,
            count == before.len(),
            first == *old(cursor) as int % count as int,
            *cursor == *old(cursor),
            before == old(sessions)@,
            sessions@ == before,
            forall|k: int|
                0 <= k < offset ==> !session_waits(
                    before[#[trigger] turn(*old(cursor) as int, k, count as int)],
                ),
        decreases count - offset,
    {
        let index: usize = if offset < count - first {
            first + offset
        } else {
            offset - (count - first)
        };
        proof {
            turn_is(*old(cursor) as int, offset as int, count as int, first as int, index as int);
        }
        match sessions[index].transfers.start_next() {
            None => {
                assert(sessions@ =~= before);
            },
            Some(task) => {
                let next: usize = if index + 1 < count {
                    index + 1
                } else {
                    0
                };
                proof {
                    following_turn(index as int, count as int, next as int);
                }
                *cursor = next;
                let can_send = sessions[index].connection_state == SessionState::Connected
                    && sessions[index].has_handle;
                let session_id = sessions[index].id;
                let started = StartedTransfer { session_id, can_send, task };
                proof {
                    assert(is_next_in_turn(before, *old(cursor) as int, offset as int));
                    assert(with_started(before, sessions@, index as int));
                    assert(next_taken(before, *old(cursor), sessions@, next, Some(started)));
                }
                return Some(started);
            },
        }
        offset = offset + 1;
    }
    proof {
        assert forall|i: int|
            0 <= i < before.len() implies !session_waits(#[trigger] before[i]) by {
            let k = if i >= first {
                i - first
            } else {
                i - first + count
            };
            turn_is(*old(cursor) as int, k, count as int, first as int, i);
        }
    }
    None
}

/// The turn that follows, told without a division.
proof fn following_turn(index: int, count: int, next: int)
    requires
        0 <= index < count,
        next == if index + 1 < count {
            index + 1
        } else {
            0
        },
    ensures
        (index + 1) % count == next,
{
    if index + 1 < count {
        lemma_small_mod((index + 1) as nat, count as nat);
    } else {
        lemma_mod_self_0(count);
    }
}

/// The session in turn, told without a division.
proof fn turn_is(cursor: int, steps: int, count: int, first: int, index: int)
    requires
        0 <= cursor,
        0 < count,
        0 <= steps < count,
        first == cursor % count,
        index == if steps < count - first {
            first + steps
        } else {
            steps - (count - first)
        },
    ensures
        turn(cursor, steps, count) == index,
        0 <= index < count,
{
    assert(0 <= first < count) by (nonlinear_arith)
        requires
            first == cursor % count,
            count > 0,
    ;
    lemma_add_mod_noop(cursor, steps, count);
    lemma_small_mod(steps as nat, count as nat);
    if first + steps < count {
        assert((first + steps) % count == first + steps) by (nonlinear_arith)
            requires
                0 <= first + steps < count,
        ;
    } else {
        assert((first + steps) % count == first + steps - count) by (nonlinear_arith)
            requires
                count <= first + steps < 2 * count,
        ;
    }
}

/// A session is not served twice in a row while another has a transfer that waits.
pub proof fn turns_alternate<S>(sessions: Seq<Session<S>>, served: int, steps: int, other: int)
    requires
        0 <= served < sessions.len(),
        is_next_in_turn(sessions, (served + 1) % sessions.len() as int, steps),
        0 <= other < sessions.len(),
        other != served,
        session_waits(sessions[other]),
    ensures
        turn((served + 1) % sessions.len() as int, steps, sessions.len() as int) != served,
{
    let count = sessions.len() as int;
    let cursor = (served + 1) % count;
    assert(0 <= cursor < count) by (nonlinear_arith)
        requires
            cursor == (served + 1) % count,
            count > 0,
    ;
    assert(cursor % count == cursor) by (nonlinear_arith)
        requires
            0 <= cursor < count,
    ;
    let k = if other >= cursor {
        other - cursor
    } else {
        other - cursor + count
    };
    turn_is(cursor, k, count, cursor, other);
    let last = count - 1;
    if served + 1 < count {
        assert(cursor == served + 1) by (nonlinear_arith)
            requires
                cursor == (served + 1) % count,
                0 <= served + 1 < count,
        ;
    } else {
        lemma_mod_self_0(count);
    }
    turn_is(
        cursor,
        steps,
        count,
        cursor,
        if steps < count - cursor {
            cursor + steps
        } else {
            steps - (count - cursor)
        },
    );
    if k < steps {
        assert(!session_waits(sessions[turn(cursor, k, count)]));
    }
}

/// Starts the next transfer, if a worker may hold one more.
pub fn start_queued_sftp_transfer<S>(
    sessions: &mut Vec<Session<S>>,
    cursor: &mut usize,
    max_parallel_transfers: usize,
) -> (r: Option<StartedTransfer>)
    ensures
        next_started(
            old(sessions)@,
            *old(cursor),
            max_parallel_transfers,
            final(sessions)@,
            *final(cursor),
            r,
        ),
{
    if !has_room(sessions, max_parallel_transfers) {
        return None;
    }
    take_next_queued_sftp_transfer(sessions, cursor)
}

/// Starting one transfer makes one more active, so that the limit is never passed.
pub proof fn limit_is_kept<S>(
    before: Seq<Session<S>>,
    after: Seq<Session<S>>,
    index: int,
    limit: nat,
)
    requires
        with_started(before, after, index),
        session_waits(before[index]),
        total_active(before) < limit,
    ensures
        total_active(after) == total_active(before) + 1,
        total_active(after) <= limit,
    decreases before.len(),
{
    if index == before.len() - 1 {
        assert(before.drop_last() =~= after.drop_last());
        crate::sequences::count_where_update(
            before[index].transfers.tasks@,
            crate::transfers::queued_position(before[index].transfers.tasks@),
            started_task(before[index].transfers.tasks@),
            |task: SftpTransferTask| task.state.active(),
        );
        crate::sequences::first_index_properties(
            before[index].transfers.tasks@,
            crate::transfers::is_queued(),
        );
    } else {
        let b = before.drop_last();
        let a = after.drop_last();
        assert(with_started(b, a, index)) by {
            assert forall|i: int| 0 <= i < b.len() && i != index implies #[trigger] a[i]
                == b[i] by {
                assert(after[i] == before[i]);
            }
        }
        assert(after[before.len() - 1] == before[before.len() - 1]);
        limit_is_kept(b, a, index, limit);
    }
}

/// What cancelling a transfer came to.
#[derive(Clone, Copy, Debug, PartialEq, Eq, Structural)]
pub enum CancelRequest {
    /// There was nothing to cancel.
    Nothing,
    /// The worker is to be told.
    Signal,
    /// The transfer is over, and another may be started.
    StartTransfers,
}

/// What cancelling the transfer `transfer_id` of a session comes to.
pub open spec fn transfer_cancelled<S>(
    before: Session<S>,
    transfer_id: u64,
    task_missing: String,
    after: Session<S>,
    r: CancelRequest,
) -> bool {
    let tasks = before.transfers.tasks@;
    let task = task_with_id(tasks, transfer_id);
    let running = has_task(tasks, transfer_id) && task.state == SftpTransferState::Running;
    let waiting = has_task(tasks, transfer_id) && (task.state == SftpTransferState::Queued
        || task.state == SftpTransferState::Conflict);
    &&& r == if running && before.has_handle {
        CancelRequest::Signal
    } else if running || waiting {
        CancelRequest::StartTransfers
    } else {
        CancelRequest::Nothing
    }
    &&& after == (Session { transfers: after.transfers, ..before })
    &&& with_tasks(
        before.transfers,
        after.transfers,
        if running && before.has_handle {
            with_task(
                tasks,
                transfer_id,
                SftpTransferTask { state: SftpTransferState::Cancelling, ..task },
            )
        } else if running {
            with_task(
                tasks,
                transfer_id,
                SftpTransferTask {
                    state: SftpTransferState::Failed,
                    error: Some(task_missing),
                    ..task
                },
            )
        } else if waiting {
            with_task(
                tasks,
                transfer_id,
                SftpTransferTask { state: SftpTransferState::Cancelled, ..task },
            )
        } else {
            tasks
        },
    )
}

impl<S> Session<S> {
    /// Cancels a transfer. One that a worker holds without a connection to tell it fails with
    /// `task_missing`.
    pub fn cancel_sftp_transfer(&mut self, transfer_id: u64, task_missing: String) -> (r:
        CancelRequest)
        ensures
            transfer_cancelled(*old(self), transfer_id, task_missing, *final(self), r),
    {
        let ghost tasks = self.transfers.tasks@;
        proof {
            crate::sequences::first_index_properties(
                tasks,
                |task: SftpTransferTask| task.id == transfer_id,
            );
        }
        match self.transfers.begin_cancel(transfer_id) {
            None => CancelRequest::Nothing,
            Some(signal_worker) => {
                if !signal_worker {
                    return CancelRequest::StartTransfers;
                }
                if self.has_handle {
                    return CancelRequest::Signal;
                }
                proof {
                    replaced_task_is_found(tasks, self.transfers.tasks@, transfer_id);
                }
                self.transfers.mark_failed(transfer_id, task_missing);
                assert(self.transfers.tasks@ =~= with_task(
                    tasks,
                    transfer_id,
                    SftpTransferTask {
                        state: SftpTransferState::Failed,
                        error: Some(task_missing),
                        ..task_with_id(tasks, transfer_id)
                    },
                ));
                CancelRequest::StartTransfers
            },
        }
    }
}

/// A transfer that was replaced by one with its number is found where it was.
proof fn replaced_task_is_found(
    before: Seq<SftpTransferTask>,
    after: Seq<SftpTransferTask>,
    id: u64,
)
    requires
        has_task(before, id),
        after == with_task(before, id, after[crate::transfers::task_position(before, id)]),
        after[crate::transfers::task_position(before, id)].id == id,
    ensures
        crate::transfers::task_position(after, id) == crate::transfers::task_position(before, id),
        has_task(after, id),
{
    let wanted = |task: SftpTransferTask| task.id == id;
    let p = crate::transfers::task_position(before, id);
    crate::sequences::first_index_properties(before, wanted);
    assert forall|i: int| 0 <= i < p implies !wanted(#[trigger] after[i]) by {
        assert(after[i] == before[i]);
    }
    crate::sequences::first_index_is(after, wanted, p);
}

/// A transfer that waits to be started.
pub open spec fn new_task(
    id: int,
    batch_id: u64,
    direction: SftpTransferDirection,
    local_path: PathBuf,
    remote_path: String,
    total: Option<u64>,
) -> SftpTransferTask {
    SftpTransferTask {
        id: id as u64,
        batch_id,
        direction,
        local_path,
        remote_path,
        overwrite: false,
        state: SftpTransferState::Queued,
        transferred: 0,
        total,
        error: None,
    }
}

/// The transfers of a list of files, numbered from `first`.
pub open spec fn file_tasks(
    first: int,
    batch_id: u64,
    direction: SftpTransferDirection,
    files: Seq<(PathBuf, String, Option<u64>)>,
) -> Seq<SftpTransferTask> {
    Seq::new(
        files.len(),
        |i: int|
            new_task(first + i, batch_id, direction, files[i].0, files[i].1, files[i].2),
    )
}

impl SftpTransferQueue {
    /// The number of the next transfer.
    pub open spec fn first_id(self) -> int {
        larger(self.next_id, 1) as int
    }

    /// Adds the transfers of a list of files to a batch, in their order.
    pub fn enqueue_files(
        &mut self,
        batch_id: u64,
        direction: SftpTransferDirection,
        files: Vec<(PathBuf, String, Option<u64>)>,
    )
        requires
            old(self).first_id() + files@.len() <= u64::MAX,
        ensures
            final(self).tasks@ == old(self).tasks@ + file_tasks(
                old(self).first_id(),
                batch_id,
                direction,
                files@,
            ),
            final(self).next_batch_id == old(self).next_batch_id,
            final(self).next_id == if files@.len() == 0 {
                old(self).next_id as int
            } else {
                old(self).first_id() + files@.len()
            },
            old(self).wf() ==> final(self).wf(),
    {
        let ghost first = self.first_id();
        let mut i: usize = 0;
        assert(self.tasks@ =~= old(self).tasks@ + file_tasks(
            first,
            batch_id,
            direction,
            files@.take(0),
        ));
        while i < files.len()
            invariant
                i <= files@.len(),
                first == old(self).first_id(),
                first + files@.len() <= u64::MAX,
                self.next_batch_id == old(self).next_batch_id,
                self.first_id() == first + i,
                self.next_id == if i == 0 {
                    old(self).next_id as int
                } else {
                    first + i
                },
                self.tasks@ == old(self).tasks@ + file_tasks(
                    first,
                    batch_id,
                    direction,
                    files@.take(i as int),
                ),
                old(self).wf() ==> self.wf(),
            decreases files@.len() - i,
        {
            let file = &files[i];
            self.enqueue_in_batch(
                batch_id,
                direction,
                file.0.clone(),
                file.1.clone(),
                false,
                file.2,
            );
            i = i + 1;
            assert(self.tasks@ =~= old(self).tasks@ + file_tasks(
                first,
                batch_id,
                direction,
                files@.take(i as int),
            ));
        }
        assert(files@.take(i as int) =~= files@);
    }
}

/// What an upload starts with.
#[derive(Clone, Copy, Debug, PartialEq, Eq, Structural)]
pub enum UploadStart {
    /// There is no worker to make the directories.
    NotConnected,
    /// The request to make the directories is to be sent, before the files are queued.
    MakeDirectories { request_id: u64 },
    /// There are only files.
    QueueFiles,
}

/// A file, or a directory.
pub open spec fn of_kind(kind: RemoteFileKind) -> spec_fn(RemoteFileEntry) -> bool {
    |entry: RemoteFileEntry| entry.kind == kind
}

/// The first elements hold no more of what is wanted than all of them.
proof fn filter_grows<A>(s: Seq<A>, n: int, wanted: spec_fn(A) -> bool)
    requires
        0 <= n <= s.len(),
    ensures
        s.take(n).filter(wanted).len() <= s.filter(wanted).len(),
    decreases s.len() - n,
{
    if n == s.len() {
        assert(s.take(n) =~= s);
    } else {
        filter_grows(s, n + 1, wanted);
        assert(s.take(n + 1) =~= s.take(n).push(s[n]));
        crate::text::filter_push(s.take(n), s[n], wanted);
    }
}

/// The transfers of the files among the entries to download, numbered from `first`.
pub open spec fn download_tasks(
    first: int,
    batch_id: u64,
    root: Seq<char>,
    destination: PathBuf,
    entries: Seq<RemoteFileEntry>,
) -> Seq<SftpTransferTask> {
    let files = entries.filter(of_kind(RemoteFileKind::File));
    Seq::new(
        files.len(),
        |i: int|
            new_task(
                first + i,
                batch_id,
                SftpTransferDirection::Download,
                selected_target(root, destination, files[i]),
                files[i].path,
                files[i].size,
            ),
    )
}

/// The requests for the contents of the directories among the entries to download, numbered from
/// `first`.
pub open spec fn download_requests(first: int, entries: Seq<RemoteFileEntry>) -> Seq<
    (u64, String),
> {
    let directories = entries.filter(of_kind(RemoteFileKind::Directory));
    Seq::new(directories.len(), |i: int| ((first + i) as u64, directories[i].path))
}

/// What the answers to those requests are waited for, on top of `base`.
pub open spec fn awaited_directories(
    base: Map<u64, PendingSftpDownloadTree>,
    first: int,
    batch_id: u64,
    root: Seq<char>,
    destination: PathBuf,
    directories: Seq<RemoteFileEntry>,
) -> Map<u64, PendingSftpDownloadTree>
    decreases directories.len(),
{
    if directories.len() == 0 {
        base
    } else {
        awaited_directories(
            base,
            first,
            batch_id,
            root,
            destination,
            directories.drop_last(),
        ).insert(
            (first + directories.len() - 1) as u64,
            PendingSftpDownloadTree {
                destination: selected_target(root, destination, directories.last()),
                batch_id,
            },
        )
    }
}

/// `after` is `before` with files queued for upload, as one batch.
pub open spec fn uploads_queued(
    before: SftpTransferQueue,
    files: Seq<(PathBuf, String, Option<u64>)>,
    after: SftpTransferQueue,
) -> bool {
    let batch_id = larger(before.next_batch_id, 1);
    &&& after.tasks@ == before.tasks@ + file_tasks(
        before.first_id(),
        batch_id,
        SftpTransferDirection::Upload,
        files,
    )
    &&& after.next_batch_id == batch_id + 1
    &&& after.next_id == if files.len() == 0 {
        before.next_id as int
    } else {
        before.first_id() + files.len()
    }
}

/// What the user is asked before these selected entries are deleted.
pub open spec fn deletion_asked(
    selected: Seq<RemoteFileEntry>,
    r: Option<DeleteQuestion>,
) -> bool {
    exists|left: Seq<RemoteFileEntry>| #[trigger]
        is_collapsed(selected, left) && match r {
            None => left.len() == 0,
            Some(question) => {
                &&& left.len() > 0
                &&& views(question.paths@) == crate::plans::entry_paths(left)
                &&& question.name == if left.len() == 1 {
                    Some(left[0].name)
                } else {
                    None
                }
            },
        }
}

/// What making something of the name that was typed comes to, in the browser's directory.
pub open spec fn create_requested<S>(
    before: Session<S>,
    placement: SftpBrowserPlacement,
    typed: Seq<char>,
    after: Session<S>,
    r: CreateRequest,
) -> bool {
    if !is_creatable_name(trim(typed)) {
        r == CreateRequest::InvalidName && after == before
    } else if !before.has_handle {
        r == CreateRequest::NotConnected && after == before
    } else {
        let browser = before.browser(placement);
        &&& r matches CreateRequest::Send { request_id, path } && request_id
            == browser.next_request_id && path@ == join_path(browser.path@, trim(typed))
        &&& after == before.with_browser(
            placement,
            SftpBrowserState {
                next_request_id: (browser.next_request_id + 1) as u64,
                ..browser
            },
        )
    }
}

impl<S> Session<S> {
    /// What the user chooses a local directory for: the selection, without what lies below a
    /// selected directory, and the directory that the browser shows. None where nothing is
    /// selected.
    pub fn choose_sftp_downloads(&self, placement: SftpBrowserPlacement) -> (r: Option<
        (Vec<RemoteFileEntry>, String),
    >)
        ensures
            ({
                let browser = self.browser(placement);
                let selected = crate::browser::named_entries(
                    browser.known_entries(),
                    views(browser.selected_paths@),
                );
                match r {
                    Some((entries, root)) => selected.len() > 0 && is_collapsed(selected, entries@)
                        && root == browser.path,
                    None => selected.len() == 0,
                }
            }),
    {
        let browser = self.sftp_browser(placement);
        let entries = browser.selected_entries();
        if entries.len() == 0 {
            return None;
        }
        Some((collapse_nested_remote_entries(entries), browser.path.clone()))
    }

    /// Starts to upload to the browser's server: directories that are to be made come first, under
    /// a request of their own.
    pub fn begin_upload(
        &mut self,
        placement: SftpBrowserPlacement,
        directories: &Vec<String>,
    ) -> (r: UploadStart)
        requires
            directories@.len() > 0 ==> old(self).browser(placement).next_request_id < u64::MAX,
        ensures
            ({
                let browser = old(self).browser(placement);
                if directories@.len() == 0 {
                    r == UploadStart::QueueFiles && *final(self) == *old(self)
                } else {
                    &&& r == if old(self).has_handle {
                        UploadStart::MakeDirectories { request_id: browser.next_request_id }
                    } else {
                        UploadStart::NotConnected
                    }
                    &&& *final(self) == old(self).with_browser(
                        placement,
                        SftpBrowserState {
                            next_request_id: (browser.next_request_id + 1) as u64,
                            ..browser
                        },
                    )
                }
            }),
    {
        if directories.len() == 0 {
            return UploadStart::QueueFiles;
        }
        let request_id: u64 = self.sftp_browser_mut(placement).next_request_id();
        if self.has_handle {
            UploadStart::MakeDirectories { request_id }
        } else {
            UploadStart::NotConnected
        }
    }

    /// Queues files for upload, as one batch.
    pub fn queue_uploads(&mut self, files: Vec<(PathBuf, String, Option<u64>)>)
        requires
            old(self).transfers.next_batch_id < u64::MAX,
            old(self).transfers.first_id() + files@.len() <= u64::MAX,
        ensures
            *final(self) == (Session { transfers: final(self).transfers, ..*old(self) }),
            uploads_queued(old(self).transfers, files@, final(self).transfers),
            old(self).transfers.wf() ==> final(self).transfers.wf(),
    {
        let batch_id: u64 = self.transfers.begin_batch();
        self.transfers.enqueue_files(batch_id, SftpTransferDirection::Upload, files);
    }

    /// Queues entries of a browser that shows `root` for download to `destination`: files at once,
    /// directories once their contents are known. The result are the requests to send; none where
    /// there is no worker to send them to.
    pub fn queue_downloads(
        &mut self,
        placement: SftpBrowserPlacement,
        root: &str,
        entries: &Vec<RemoteFileEntry>,
        destination: &PathBuf,
    ) -> (r: Option<Vec<(u64, String)>>)
        requires
            old(self).has_handle ==> old(self).transfers.next_batch_id < u64::MAX,
            old(self).has_handle ==> old(self).transfers.first_id() + entries@.filter(
                of_kind(RemoteFileKind::File),
            ).len() <= u64::MAX,
            old(self).has_handle ==> old(self).browser(placement).next_request_id + entries@.filter(
                of_kind(RemoteFileKind::Directory),
            ).len() <= u64::MAX,
        ensures
            old(self).transfers.wf() ==> final(self).transfers.wf(),
            final(self).transfers.tasks@.len() >= old(self).transfers.tasks@.len(),
            forall|i: int|
                0 <= i < old(self).transfers.tasks@.len() ==> (
                #[trigger] final(self).transfers.tasks@[i]) == old(self).transfers.tasks@[i],
            forall|i: int|
                old(self).transfers.tasks@.len() <= i < final(self).transfers.tasks@.len() ==> {
                    &&& !(#[trigger] final(self).transfers.tasks@[i]).overwrite
                    &&& final(self).transfers.tasks@[i].state == SftpTransferState::Queued
                    &&& final(self).transfers.tasks@[i].direction == SftpTransferDirection::Download
                },
            ({
                let before = old(self).browser(placement);
                let after = final(self).browser(placement);
                let batch_id = larger(old(self).transfers.next_batch_id, 1);
                let directories = entries@.filter(of_kind(RemoteFileKind::Directory));
                let files = entries@.filter(of_kind(RemoteFileKind::File));
                match r {
                    None => !old(self).has_handle && *final(self) == *old(self),
                    Some(requests) => {
                        &&& old(self).has_handle
                        &&& *final(self) == (Session {
                            transfers: final(self).transfers,
                            ..old(self).with_browser(placement, after)
                        })
                        &&& final(self).transfers.next_batch_id == batch_id + 1
                        &&& final(self).transfers.next_id == if files.len() == 0 {
                            old(self).transfers.next_id as int
                        } else {
                            old(self).transfers.first_id() + files.len()
                        }
                        &&& final(self).transfers.tasks@ == old(self).transfers.tasks@
                            + download_tasks(
                            old(self).transfers.first_id(),
                            batch_id,
                            root@,
                            *destination,
                            entries@,
                        )
                        &&& requests@ == download_requests(before.next_request_id as int, entries@)
                        &&& after == (SftpBrowserState {
                            next_request_id: (before.next_request_id + directories.len()) as u64,
                            pending_download_trees: after.pending_download_trees,
                            ..before
                        })
                        &&& after.pending_download_trees@ == awaited_directories(
                            before.pending_download_trees@,
                            before.next_request_id as int,
                            batch_id,
                            root@,
                            *destination,
                            directories,
                        )
                    },
                }
            }),
    {
        if !self.has_handle {
            return None;
        }
        let batch_id: u64 = self.transfers.begin_batch();
        let ghost first_id = old(self).transfers.first_id();
        let ghost before = old(self).browser(placement);
        let ghost first_request = before.next_request_id as int;
        let ghost is_file = of_kind(RemoteFileKind::File);
        let ghost is_directory = of_kind(RemoteFileKind::Directory);
        let mut requests: Vec<(u64, String)> = Vec::new();
        let mut i: usize = 0;
        proof {
            reveal(Seq::filter);
            assert(entries@.take(0).filter(is_directory) =~= Seq::<RemoteFileEntry>::empty());
            assert(self.transfers.tasks@ =~= old(self).transfers.tasks@ + download_tasks(
                first_id,
                batch_id,
                root@,
                *destination,
                entries@.take(0),
            ));
            assert(requests@ =~= download_requests(first_request, entries@.take(0)));
        }
        while i < entries.len()
            invariant
                i <= entries@.len(),
                old(self).has_handle,
                batch_id == larger(old(self).transfers.next_batch_id, 1),
                before == old(self).browser(placement),
                first_id == old(self).transfers.first_id(),
                first_request == before.next_request_id,
                first_id + entries@.filter(is_file).len() <= u64::MAX,
                first_request + entries@.filter(is_directory).len() <= u64::MAX,
                old(self).transfers.wf() ==> self.transfers.wf(),
                self.transfers.next_id == if entries@.take(i as int).filter(is_file).len() == 0 {
                    old(self).transfers.next_id as int
                } else {
                    first_id + entries@.take(i as int).filter(is_file).len()
                },
                is_file == of_kind(RemoteFileKind::File),
                is_directory == of_kind(RemoteFileKind::Directory),
                *self == (Session {
                    transfers: self.transfers,
                    ..old(self).with_browser(placement, self.browser(placement))
                }),
                self.transfers.next_batch_id == batch_id + 1,
                self.transfers.first_id() == first_id + entries@.take(i as int).filter(
                    is_file,
                ).len(),
                self.transfers.tasks@ == old(self).transfers.tasks@ + download_tasks(
                    first_id,
                    batch_id,
                    root@,
                    *destination,
                    entries@.take(i as int),
                ),
                requests@ == download_requests(first_request, entries@.take(i as int)),
                self.browser(placement) == (SftpBrowserState {
                    next_request_id: (first_request + entries@.take(i as int).filter(
                        is_directory,
                    ).len()) as u64,
                    pending_download_trees: self.browser(placement).pending_download_trees,
                    ..before
                }),
                self.browser(placement).pending_download_trees@ == awaited_directories(
                    before.pending_download_trees@,
                    first_request,
                    batch_id,
                    root@,
                    *destination,
                    entries@.take(i as int).filter(is_directory),
                ),
            decreases entries@.len() - i,
        {
            let ghost seen = entries@.take(i as int);
            let ghost next = entries@.take(i + 1);
            let ghost tasks = self.transfers.tasks@;
            let ghost sent = requests@;
            proof {
                assert(next =~= seen.push(entries@[i as int]));
                crate::text::filter_push(seen, entries@[i as int], is_file);
                crate::text::filter_push(seen, entries@[i as int], is_directory);
                filter_grows(entries@, i + 1, is_file);
                filter_grows(entries@, i + 1, is_directory);
                let directories = seen.filter(is_directory);
                assert(directories.push(entries@[i as int]).drop_last() =~= directories);
            }
            let entry = &entries[i];
            let local_path = download_destination(root, destination, entry);
            let ghost target = local_path;
            if entry.kind == RemoteFileKind::Directory {
                let request_id: u64 = self.sftp_browser_mut(placement).begin_download_tree(
                    local_path,
                    batch_id,
                );
                requests.push((request_id, entry.path.clone()));
            } else if entry.kind == RemoteFileKind::File {
                self.transfers.enqueue_in_batch(
                    batch_id,
                    SftpTransferDirection::Download,
                    local_path,
                    entry.path.clone(),
                    false,
                    entry.size,
                );
            }
            proof {
                assert(self.transfers.tasks@ =~= old(self).transfers.tasks@ + download_tasks(
                    first_id,
                    batch_id,
                    root@,
                    *destination,
                    next,
                ));
                assert(requests@ =~= download_requests(first_request, next));
            }
            i = i + 1;
        }
        assert(entries@.take(i as int) =~= entries@);
        Some(requests)
    }

    /// The paths of the selected entries, one per line; none where nothing is selected.
    pub fn copy_selected_sftp_paths(&self, placement: SftpBrowserPlacement) -> (r: Option<String>)
        ensures
            ({
                let browser = self.browser(placement);
                let selected = crate::browser::named_entries(
                    browser.known_entries(),
                    views(browser.selected_paths@),
                );
                match r {
                    Some(text) => selected.len() > 0 && text@ == join_with(
                        crate::plans::entry_paths(selected),
                        "\n"@,
                    ),
                    None => selected.len() == 0,
                }
            }),
    {
        let entries = self.sftp_browser(placement).selected_entries();
        if entries.len() == 0 {
            return None;
        }
        let paths = paths_of(&entries);
        Some(join_texts(&paths, "\n"))
    }

    /// What the user is asked before a selection is deleted: the paths, and the one name or the
    /// number of entries. What lies below a selected directory goes with it.
    pub fn delete_selected_sftp_entries(&self, placement: SftpBrowserPlacement) -> (r: Option<
        DeleteQuestion,
    >)
        ensures
            ({
                let browser = self.browser(placement);
                let selected = crate::browser::named_entries(
                    browser.known_entries(),
                    views(browser.selected_paths@),
                );
                deletion_asked(selected, r)
            }),
    {
        let entries = collapse_nested_remote_entries(
            self.sftp_browser(placement).selected_entries(),
        );
        if entries.len() == 0 {
            return None;
        }
        let paths = paths_of(&entries);
        let name: Option<String> = if entries.len() == 1 {
            Some(entries[0].name.clone())
        } else {
            None
        };
        Some(DeleteQuestion { paths, name })
    }

    /// The file that the context menu opens: the first of the selection, if it is a file.
    pub fn selected_sftp_file(&self, placement: SftpBrowserPlacement) -> (r: Option<String>)
        ensures
            ({
                let browser = self.browser(placement);
                let selected = crate::browser::named_entries(
                    browser.known_entries(),
                    views(browser.selected_paths@),
                );
                r == if selected.len() > 0 && selected[0].kind == RemoteFileKind::File {
                    Some(selected[0].path)
                } else {
                    None
                }
            }),
    {
        let entries = self.sftp_browser(placement).selected_entries();
        if entries.len() > 0 && entries[0].kind == RemoteFileKind::File {
            Some(entries[0].path.clone())
        } else {
            None
        }
    }

    /// Makes a file or directory of the name that was typed in the browser's directory.
    pub fn submit_sftp_create(&mut self, placement: SftpBrowserPlacement, typed: &str) -> (r:
        CreateRequest)
        requires
            is_creatable_name(trim(typed@)) && old(self).has_handle ==> old(self).browser(
                placement,
            ).next_request_id < u64::MAX,
        ensures
            create_requested(*old(self), placement, typed@, *final(self), r),
    {
        let name = trimmed(typed);
        if !name_can_be_created(name) {
            return CreateRequest::InvalidName;
        }
        let path = remote_join_path(self.sftp_browser(placement).path.as_str(), name);
        if !self.has_handle {
            return CreateRequest::NotConnected;
        }
        let request_id: u64 = self.sftp_browser_mut(placement).next_request_id();
        CreateRequest::Send { request_id, path }
    }
}

/// The paths of a list of entries.
fn paths_of(entries: &Vec<RemoteFileEntry>) -> (r: Vec<String>)
    ensures
        views(r@) == crate::plans::entry_paths(entries@),
{
    let mut paths: Vec<String> = Vec::new();
    let mut i: usize = 0;
    while i < entries.len()
        invariant
            i <= entries@.len(),
            views(paths@) == crate::plans::entry_paths(entries@).take(i as int),
        decreases entries@.len() - i,
    {
        let path = entries[i].path.clone();
        proof {
            views_push(paths@, path);
        }
        paths.push(path);
        i = i + 1;
        assert(crate::plans::entry_paths(entries@).take(i as int) =~= crate::plans::entry_paths(
            entries@,
        ).take(i - 1).push(entries@[i - 1].path@));
    }
    assert(crate::plans::entry_paths(entries@).take(i as int) =~= crate::plans::entry_paths(
        entries@,
    ));
    paths
}

/// What the user is asked before a selection is deleted.
#[derive(Debug, PartialEq, Eq)]
pub struct DeleteQuestion {
    pub paths: Vec<String>,
    /// The name of the entry, where there is one alone.
    pub name: Option<String>,
}

/// What making a file or directory came to.
#[derive(Debug, PartialEq, Eq)]
pub enum CreateRequest {
    InvalidName,
    NotConnected,
    Send { request_id: u64, path: String },
}

/// What can be made: either kind of thing.
#[derive(Clone, Copy, Debug, PartialEq, Eq, Structural)]
pub enum SftpCreateKind {
    File,
    Directory,
}

/// A name that something new can have.
pub open spec fn is_creatable_name(name: Seq<char>) -> bool {
    name.len() > 0 && name != "."@ && name != ".."@ && !name.contains('/') && !name.contains('\\')
}

/// A name that something new can have.
pub fn name_can_be_created(name: &str) -> (r: bool)
    ensures
        r == is_creatable_name(name@),
{
    !name.is_empty() && !text_eq(name, ".") && !text_eq(name, "..") && !text_contains_char(
        name,
        '/',
    ) && !text_contains_char(name, '\\')
}

/// What is made lies in the browser's directory under the name that was typed.
pub proof fn created_path_keeps_its_name(directory: Seq<char>, name: Seq<char>)
    requires
        is_creatable_name(name),
    ensures
        crate::remote_path::file_name(join_path(directory, name)) == name,
        crate::remote_path::parent_path(join_path(directory, name)) is Some,
{
    crate::remote_path::file_name_of_join(directory, name);
    crate::remote_path::parent_of_join(directory, name);
}

/// Queuing one more entry adds one transfer where the entry is a file, behind those before it, and
/// none where it is not. The transfer waits, has the next number, fetches the file to its place
/// below the directory that was chosen, and replaces nothing.
pub proof fn each_file_is_queued_to_be_fetched(
    first: int,
    batch_id: u64,
    root: Seq<char>,
    destination: PathBuf,
    entries: Seq<RemoteFileEntry>,
    entry: RemoteFileEntry,
)
    ensures
        download_tasks(first, batch_id, root, destination, Seq::empty()).len() == 0,
        ({
            let before = download_tasks(first, batch_id, root, destination, entries);
            let after = download_tasks(first, batch_id, root, destination, entries.push(entry));
            if entry.kind == RemoteFileKind::File {
                &&& after.len() == before.len() + 1
                &&& after.drop_last() == before
                &&& after.last().id == (first + before.len()) as u64
                &&& after.last().batch_id == batch_id
                &&& after.last().direction == SftpTransferDirection::Download
                &&& after.last().remote_path == entry.path
                &&& after.last().local_path == selected_target(root, destination, entry)
                &&& after.last().total == entry.size
                &&& !after.last().overwrite
                &&& after.last().state == SftpTransferState::Queued
                &&& after.last().transferred == 0
                &&& after.last().error is None
            } else {
                after == before
            }
        }),
{
    let is_file = of_kind(RemoteFileKind::File);
    reveal(Seq::filter);
    crate::text::filter_push(entries, entry, is_file);
    let before = download_tasks(first, batch_id, root, destination, entries);
    let after = download_tasks(first, batch_id, root, destination, entries.push(entry));
    if entry.kind == RemoteFileKind::File {
        assert(after.drop_last() =~= before);
    }
}

/// No transfer that queuing downloads adds replaces anything, and each of them waits.
pub proof fn queued_downloads_replace_nothing(
    first: int,
    batch_id: u64,
    root: Seq<char>,
    destination: PathBuf,
    entries: Seq<RemoteFileEntry>,
    i: int,
)
    requires
        0 <= i < download_tasks(first, batch_id, root, destination, entries).len(),
    ensures
        ({
            let task = download_tasks(first, batch_id, root, destination, entries)[i];
            &&& !task.overwrite
            &&& task.state == SftpTransferState::Queued
            &&& task.direction == SftpTransferDirection::Download
            &&& exists|k: int|
                0 <= k < entries.len() && (#[trigger] entries[k]).path == task.remote_path
                    && entries[k].kind == RemoteFileKind::File && entries[k].size == task.total
        }),
{
    let is_file = of_kind(RemoteFileKind::File);
    let files = entries.filter(is_file);
    entries.lemma_filter_pred(is_file, i);
    assert(files.contains(files[i]));
    entries.lemma_filter_contains_rev(is_file, files[i]);
    let k = entries.index_of(files[i]);
    assert(entries[k] == files[i]);
}

/// Queuing one more entry asks for the contents of it where it is a directory, under the next
/// number, and of nothing else; what comes is waited for under that number, for its place below
/// the directory that was chosen.
pub proof fn each_directory_is_asked_for(
    base: Map<u64, PendingSftpDownloadTree>,
    first: int,
    batch_id: u64,
    root: Seq<char>,
    destination: PathBuf,
    entries: Seq<RemoteFileEntry>,
    entry: RemoteFileEntry,
)
    ensures
        download_requests(first, Seq::empty()).len() == 0,
        awaited_directories(base, first, batch_id, root, destination, Seq::empty()) == base,
        ({
            let before = download_requests(first, entries);
            let after = download_requests(first, entries.push(entry));
            if entry.kind == RemoteFileKind::Directory {
                &&& after.len() == before.len() + 1
                &&& after.drop_last() == before
                &&& after.last() == ((first + before.len()) as u64, entry.path)
            } else {
                after == before
            }
        }),
        ({
            let number = (first + entries.len()) as u64;
            let before = awaited_directories(base, first, batch_id, root, destination, entries);
            let after = awaited_directories(
                base,
                first,
                batch_id,
                root,
                destination,
                entries.push(entry),
            );
            &&& after.dom() == before.dom().insert(number)
            &&& after[number].destination == selected_target(root, destination, entry)
            &&& after[number].batch_id == batch_id
            &&& forall|other: u64| other != number ==> #[trigger] after[other] == before[other]
        }),
{
    let is_directory = of_kind(RemoteFileKind::Directory);
    reveal(Seq::filter);
    crate::text::filter_push(entries, entry, is_directory);
    let before = download_requests(first, entries);
    let after = download_requests(first, entries.push(entry));
    if entry.kind == RemoteFileKind::Directory {
        assert(after.drop_last() =~= before);
    }
    assert(entries.push(entry).drop_last() =~= entries);
    let number = (first + entries.len()) as u64;
    let waiting = awaited_directories(base, first, batch_id, root, destination, entries);
    assert(awaited_directories(
        base,
        first,
        batch_id,
        root,
        destination,
        entries.push(entry),
    ).dom() =~= waiting.dom().insert(number));
}

/// Each file of a list gets one transfer, in the order of the list and with numbers that follow
/// each other: it waits, moves that file, and replaces nothing.
pub proof fn listed_files_are_queued(
    first: int,
    batch_id: u64,
    direction: SftpTransferDirection,
    files: Seq<(PathBuf, String, Option<u64>)>,
    i: int,
)
    requires
        0 <= i < files.len(),
    ensures
        file_tasks(first, batch_id, direction, files).len() == files.len(),
        ({
            let task = file_tasks(first, batch_id, direction, files)[i];
            &&& task.id == (first + i) as u64
            &&& task.batch_id == batch_id
            &&& task.direction == direction
            &&& task.local_path == files[i].0
            &&& task.remote_path == files[i].1
            &&& task.total == files[i].2
            &&& !task.overwrite
            &&& task.state == SftpTransferState::Queued
            &&& task.transferred == 0
            &&& task.error is None
        }),
{
}

/// A name that something new can have is neither empty nor a step to the same or the upper
/// directory, and leads to no other directory.
pub proof fn creatable_names_stay_in_place(name: Seq<char>)
    ensures
        is_creatable_name(name) <==> name.len() > 0 && name != seq!['.'] && name != seq!['.', '.']
            && forall|i: int|
            0 <= i < name.len() ==> (#[trigger] name[i]) != '/' && name[i] != '\\',
{
    reveal_strlit(".");
    reveal_strlit("..");
    assert("."@ =~= seq!['.']);
    assert(".."@ =~= seq!['.', '.']);
    if exists|i: int|
        0 <= i < name.len() && ((#[trigger] name[i]) == '/' || name[i] == '\\') {
        let i = choose|i: int|
            0 <= i < name.len() && ((#[trigger] name[i]) == '/' || name[i] == '\\');
        assert(name.contains(name[i]));
    }
}

/// The turn goes round: the session that is served is the first, from the one whose turn it is on
/// and then from the beginning, that has a transfer that waits.
pub proof fn first_in_turn_is_served<S>(sessions: Seq<Session<S>>, cursor: int, steps: int, k: int)
    requires
        0 <= cursor < sessions.len(),
        is_next_in_turn(sessions, cursor, steps),
    ensures
        ({
            let served = turn(cursor, steps, sessions.len() as int);
            &&& 0 <= served < sessions.len()
            &&& session_waits(sessions[served])
            &&& cursor <= k < served ==> !session_waits(sessions[k])
            &&& served < cursor && (cursor <= k < sessions.len() || 0 <= k < served)
                ==> !session_waits(sessions[k])
        }),
{
    let count = sessions.len() as int;
    lemma_small_mod(cursor as nat, count as nat);
    let served = if steps < count - cursor {
        cursor + steps
    } else {
        steps - (count - cursor)
    };
    turn_is(cursor, steps, count, cursor, served);
    if cursor <= k < count && (served >= cursor ==> k < served) {
        let s = k - cursor;
        turn_is(cursor, s, count, cursor, k);
        assert(s < steps);
        assert(!session_waits(sessions[turn(cursor, s, count)]));
    }
    if served < cursor && 0 <= k < served {
        let s = k + count - cursor;
        turn_is(cursor, s, count, cursor, k);
        assert(s < steps);
        assert(!session_waits(sessions[turn(cursor, s, count)]));
    }
}

/// A session waits exactly where one of its transfers is queued.
pub proof fn waiting_means_a_queued_transfer<S>(session: Session<S>)
    ensures
        session_waits(session) <==> exists|i: int|
            0 <= i < session.transfers.tasks@.len() && (
            #[trigger] session.transfers.tasks@[i]).state == SftpTransferState::Queued,
{
    let tasks = session.transfers.tasks@;
    let queued = crate::transfers::is_queued();
    crate::sequences::first_index_properties(tasks, queued);
    if session_waits(session) {
        assert(queued(tasks[crate::transfers::queued_position(tasks)]));
    }
    if exists|i: int| 0 <= i < tasks.len() && (#[trigger] tasks[i]).state
        == SftpTransferState::Queued {
        let i = choose|i: int| 0 <= i < tasks.len() && (#[trigger] tasks[i]).state
            == SftpTransferState::Queued;
        assert(queued(tasks[i]));
    }
}

/// One transfer is started at a time, and only while workers hold fewer than the limit. It was
/// queued in a session, is that session's oldest that was, and is given out as it was queued; no
/// other session and no other transfer changes. Where none is started although there is room, none
/// is queued anywhere.
pub proof fn one_transfer_is_started<S>(
    before: Seq<Session<S>>,
    cursor: usize,
    limit: usize,
    after: Seq<Session<S>>,
    cursor_after: usize,
    r: Option<StartedTransfer>,
    s: int,
    i: int,
) -> (at: (int, int))
    requires
        next_started(before, cursor, limit, after, cursor_after, r),
        0 <= s < before.len(),
        0 <= i < before[s].transfers.tasks@.len(),
    ensures
        after.len() == before.len(),
        after[s].transfers.tasks@.len() == before[s].transfers.tasks@.len(),
        after[s] == (Session { transfers: after[s].transfers, ..before[s] }),
        total_active(before) >= limit ==> r is None,
        r is None ==> after == before,
        r is None && total_active(before) < limit ==> before[s].transfers.tasks@[i].state
            != SftpTransferState::Queued,
        r matches Some(next) ==> {
            &&& 0 <= at.0 < before.len()
            &&& 0 <= at.1 < before[at.0].transfers.tasks@.len()
            &&& before[at.0].transfers.tasks@[at.1].state == SftpTransferState::Queued
            &&& next.session_id == before[at.0].id
            &&& next.can_send <==> before[at.0].connection_state == SessionState::Connected
                && before[at.0].has_handle
            &&& next.task == (SftpTransferTask {
                state: SftpTransferState::Running,
                error: None,
                ..before[at.0].transfers.tasks@[at.1]
            })
            &&& after[at.0].transfers.tasks@[at.1] == next.task
            &&& s == at.0 && i < at.1 ==> before[s].transfers.tasks@[i].state
                != SftpTransferState::Queued
            &&& (s != at.0 || i != at.1) ==> after[s].transfers.tasks@[i]
                == before[s].transfers.tasks@[i]
        },
{
    match r {
        None => {
            if total_active(before) < limit {
                waiting_means_a_queued_transfer(before[s]);
                assert(!session_waits(before[s]));
            }
            (0, 0)
        },
        Some(next) => {
            let count = before.len() as int;
            let steps = choose|steps: int| #[trigger]
                is_next_in_turn(before, cursor as int, steps) && {
                    let index = turn(cursor as int, steps, count);
                    let session = before[index];
                    &&& next == (StartedTransfer {
                        session_id: session.id,
                        can_send: session.can_ask(),
                        task: started_task(session.transfers.tasks@),
                    })
                    &&& with_started(before, after, index)
                    &&& cursor_after == (index + 1) % count
                };
            let index = turn(cursor as int, steps, count);
            let tasks = before[index].transfers.tasks@;
            let queued = crate::transfers::is_queued();
            crate::sequences::first_index_properties(tasks, queued);
            let p = crate::transfers::queued_position(tasks);
            assert(session_waits(before[index]));
            assert(queued(tasks[p]));
            if s == index && i < p {
                assert(!queued(tasks[i]));
            }
            if s != index {
                assert(after[s] == before[s]);
            }
            (index, p)
        },
    }
}

/// What workers hold is counted one by one: the transfers of a session that are under way or being
/// cancelled count, and no others.
pub proof fn active_transfers_are_counted<S>(
    sessions: Seq<Session<S>>,
    session: Session<S>,
    tasks: Seq<SftpTransferTask>,
    task: SftpTransferTask,
)
    ensures
        total_active(Seq::<Session<S>>::empty()) == 0,
        total_active(sessions.push(session)) == total_active(sessions) + active_tasks(
            session.transfers.tasks@,
        ),
        active_tasks(Seq::empty()) == 0,
        active_tasks(tasks.push(task)) == active_tasks(tasks) + if task.state
            == SftpTransferState::Running || task.state == SftpTransferState::Cancelling {
            1int
        } else {
            0int
        },
{
    assert(sessions.push(session).drop_last() =~= sessions);
    crate::transfers::one_active_task_more(tasks, task);
}

/// Cancelling touches one transfer of the session, the first with the number. One that is under
/// way is given up by its worker where that can be told, else it has failed; one that waits, or
/// whose destination exists, is over at once; one that is over or being cancelled stays.
pub proof fn cancelling_is_told_to_the_worker<S>(
    before: Session<S>,
    transfer_id: u64,
    task_missing: String,
    after: Session<S>,
    r: CancelRequest,
    i: int,
)
    requires
        transfer_cancelled(before, transfer_id, task_missing, after, r),
        0 <= i < before.transfers.tasks@.len(),
    ensures
        after.transfers.tasks@.len() == before.transfers.tasks@.len(),
        before.transfers.tasks@[i].id != transfer_id || (exists|k: int|
            0 <= k < i && (#[trigger] before.transfers.tasks@[k]).id == transfer_id)
            ==> after.transfers.tasks@[i] == before.transfers.tasks@[i],
        before.transfers.tasks@[i].id == transfer_id && (forall|k: int|
            0 <= k < i ==> (#[trigger] before.transfers.tasks@[k]).id != transfer_id) ==> {
            let task = before.transfers.tasks@[i];
            let now = after.transfers.tasks@[i];
            &&& task.state == SftpTransferState::Running && before.has_handle ==> r
                == CancelRequest::Signal && now.state == SftpTransferState::Cancelling
            &&& task.state == SftpTransferState::Running && !before.has_handle ==> r
                == CancelRequest::StartTransfers && now.state == SftpTransferState::Failed
                && now.error == Some(task_missing)
            &&& task.state == SftpTransferState::Queued || task.state == SftpTransferState::Conflict
                ==> r == CancelRequest::StartTransfers && now.state == SftpTransferState::Cancelled
            &&& task.state == SftpTransferState::Cancelling || task.state
                == SftpTransferState::Completed || task.state == SftpTransferState::Failed
                || task.state == SftpTransferState::Cancelled ==> r == CancelRequest::Nothing && now
                == task
            &&& now.overwrite == task.overwrite && now.local_path == task.local_path
                && now.remote_path == task.remote_path && now.id == task.id
        },
        after.has_handle == before.has_handle,
        after.connection_state == before.connection_state,
        after.sftp == before.sftp,
{
    crate::transfers::task_position_is_first(before.transfers.tasks@, transfer_id);
}

/// Every file of an upload is queued behind what was queued before, in the order of the files, to
/// be sent from where it lies to its remote path, under a number of its own; none replaces
/// anything. They form one batch, and what was queued before stays as it was.
pub proof fn each_file_is_queued_to_be_sent(
    before: SftpTransferQueue,
    files: Seq<(PathBuf, String, Option<u64>)>,
    after: SftpTransferQueue,
    i: int,
)
    requires
        uploads_queued(before, files, after),
        before.next_batch_id < u64::MAX,
        before.first_id() + files.len() <= u64::MAX,
    ensures
        after.tasks@.len() == before.tasks@.len() + files.len(),
        0 <= i < before.tasks@.len() ==> after.tasks@[i] == before.tasks@[i],
        0 <= i < files.len() ==> {
            let task = after.tasks@[before.tasks@.len() + i];
            &&& task.direction == SftpTransferDirection::Upload
            &&& task.local_path == files[i].0
            &&& task.remote_path == files[i].1
            &&& task.total == files[i].2
            &&& task.state == SftpTransferState::Queued
            &&& !task.overwrite
            &&& task.transferred == 0
            &&& task.error is None
            &&& before.next_id > 0 ==> task.id == before.next_id + i
            &&& before.next_batch_id > 0 ==> task.batch_id == before.next_batch_id
            &&& task.id < after.next_id && task.batch_id < after.next_batch_id
        },
        after.next_batch_id > before.next_batch_id,
        after.next_id >= before.next_id,
{
}

/// What is asked to be deleted is the selection, each path once, without what lies below a selected
/// directory; nothing that was not selected is asked for, and an empty selection asks nothing. One
/// entry alone is named.
pub proof fn deletion_asks_for_the_selection(
    selected: Seq<RemoteFileEntry>,
    r: Option<DeleteQuestion>,
    i: int,
    p: int,
)
    requires
        deletion_asked(selected, r),
    ensures
        selected.len() == 0 ==> r is None,
        r is Some && 0 <= p < r->0.paths@.len() ==> exists|k: int|
            0 <= k < selected.len() && (#[trigger] selected[k]).path@ == r->0.paths@[p]@,
        0 <= i < selected.len() ==> {
            ||| r is Some && views(r->0.paths@).contains(selected[i].path@)
            ||| exists|k: int|
                0 <= k < selected.len() && (#[trigger] selected[k]).kind
                    == RemoteFileKind::Directory && crate::remote_path::is_descendant(
                    selected[k].path@,
                    selected[i].path@,
                )
        },
        r matches Some(question) ==> (question.name is Some <==> question.paths@.len() == 1),
{
    let left = choose|left: Seq<RemoteFileEntry>| #[trigger]
        is_collapsed(selected, left) && match r {
            None => left.len() == 0,
            Some(question) => {
                &&& left.len() > 0
                &&& views(question.paths@) == crate::plans::entry_paths(left)
                &&& question.name == if left.len() == 1 {
                    Some(left[0].name)
                } else {
                    None
                }
            },
        };
    if r is Some {
        let question = r->0;
        assert(views(question.paths@).len() == question.paths@.len());
        assert(crate::plans::entry_paths(left).len() == left.len());
        crate::remote_path::collapsing_loses_nothing(selected, left, 0, 0, 0);
        if 0 <= p < question.paths@.len() {
            crate::remote_path::collapsing_loses_nothing(selected, left, 0, p, 0);
            assert(views(question.paths@)[p] == left[p].path@);
            let k = selected.index_of(left[p]);
            assert(selected[k].path@ == question.paths@[p]@);
        }
    }
    if 0 <= i < selected.len() {
        let wanted = |entry: RemoteFileEntry| entry.path@ == selected[i].path@;
        crate::sequences::first_index_properties(selected, wanted);
        let f = crate::sequences::first_index(selected, wanted);
        assert(wanted(selected[i]));
        assert(f <= i);
        assert forall|k: int| 0 <= k < f implies (#[trigger] selected[k]).path@
            != selected[f].path@ by {
            assert(!wanted(selected[k]));
        }
        crate::remote_path::collapsing_loses_nothing(selected, left, f, 0, 0);
        if left.contains(selected[f]) {
            let k = left.index_of(selected[f]);
            assert(crate::plans::entry_paths(left)[k] == selected[i].path@);
            assert(r is Some);
            assert(views(r->0.paths@)[k] == selected[i].path@);
        }
    }
}

/// Something new is made only under a name that stays in the browser's directory, and only over a
/// worker that can be spoken to: the name is what was typed without white space around it, and it
/// is made in the directory that the browser shows. Nothing else changes than the next number.
pub proof fn created_where_it_was_typed<S>(
    before: Session<S>,
    placement: SftpBrowserPlacement,
    typed: Seq<char>,
    after: Session<S>,
    r: CreateRequest,
)
    requires
        create_requested(before, placement, typed, after, r),
        before.sftp.next_request_id < u64::MAX,
        before.sidebar_sftp.next_request_id < u64::MAX,
    ensures
        r is Send ==> before.has_handle,
        !(r is Send) ==> after == before,
        r matches CreateRequest::Send { request_id, path } ==> {
            let name = crate::remote_path::file_name(path@);
            &&& name == trim(typed)
            &&& name.len() > 0 && !name.contains('/') && !name.contains('\\')
            &&& name != "."@ && name != ".."@
            &&& placement == SftpBrowserPlacement::Center ==> path@ == join_path(
                before.sftp.path@,
                name,
            ) && request_id == before.sftp.next_request_id && after.sftp.next_request_id
                == request_id + 1 && after.sidebar_sftp == before.sidebar_sftp
            &&& placement == SftpBrowserPlacement::Sidebar ==> path@ == join_path(
                before.sidebar_sftp.path@,
                name,
            ) && request_id == before.sidebar_sftp.next_request_id
                && after.sidebar_sftp.next_request_id == request_id + 1 && after.sftp
                == before.sftp
        },
        trim(typed).len() == 0 || trim(typed) == "."@ || trim(typed) == ".."@ || trim(
            typed,
        ).contains('/') || trim(typed).contains('\\') ==> r is InvalidName,
        after.sftp.entries == before.sftp.entries,
        after.transfers == before.transfers,
{
    if r is Send {
        created_path_keeps_its_name(before.browser(placement).path@, trim(typed));
    }
}

} // verus!
