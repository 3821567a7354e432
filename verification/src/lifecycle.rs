//! Leaving the program: what has to be saved and confirmed before the window closes.
use vstd::prelude::*;
use crate::sequences::{any_where, any_where_iff};
use crate::session::{Session, SessionId};
use crate::transfers::SftpTransferTask;

verus! {

/// What closes.
#[derive(Clone, Copy, Debug, PartialEq, Eq, Structural)]
pub enum ExitTarget {
    Window,
    Application,
}

/// How far the open files are from being saved.
#[derive(Clone, Copy, Debug, PartialEq, Eq, Structural)]
pub enum SaveProgress {
    /// A file is being saved.
    Waiting,
    /// Nothing is left to save.
    Ready,
    /// A file has changes and is not being saved.
    Blocked,
}

/// The file has changes. A file's state is whether it has changes and whether it is being saved.
pub open spec fn is_changed() -> spec_fn((bool, bool)) -> bool {
    |file: (bool, bool)| file.0
}

/// The file is being saved.
pub open spec fn is_being_saved() -> spec_fn((bool, bool)) -> bool {
    |file: (bool, bool)| file.1
}

/// How far files in these states are from being saved.
pub open spec fn progress_of(states: Seq<(bool, bool)>) -> SaveProgress {
    if any_where(states, is_being_saved()) {
        SaveProgress::Waiting
    } else if any_where(states, is_changed()) {
        SaveProgress::Blocked
    } else {
        SaveProgress::Ready
    }
}

/// How far files in these states are from being saved.
pub fn save_progress(states: &[(bool, bool)]) -> (r: SaveProgress)
    ensures
        r == progress_of(states@),
{
    let mut dirty = false;
    let mut saving = false;
    let mut i: usize = 0;
    while i < states.len()
        invariant
            i <= states@.len(),
            dirty <==> exists|k: int| 0 <= k < i && (#[trigger] states@[k]).0,
            saving <==> exists|k: int| 0 <= k < i && (#[trigger] states@[k]).1,
        decreases states@.len() - i,
    {
        let state = states[i];
        dirty = dirty || state.0;
        saving = saving || state.1;
        assert(states@[i as int] == state);
        i = i + 1;
    }
    proof {
        any_where_iff(states@, is_changed());
        any_where_iff(states@, is_being_saved());
        let changed = is_changed();
        let saved = is_being_saved();
        if dirty {
            let k = choose|k: int| 0 <= k < states@.len() && (#[trigger] states@[k]).0;
            assert(changed(states@[k]));
        }
        if saving {
            let k = choose|k: int| 0 <= k < states@.len() && (#[trigger] states@[k]).1;
            assert(saved(states@[k]));
        }
    }
    if saving {
        SaveProgress::Waiting
    } else if dirty {
        SaveProgress::Blocked
    } else {
        SaveProgress::Ready
    }
}

/// The state of the file that is open in a session.
pub open spec fn file_state<S>(session: Session<S>) -> Option<(bool, bool)> {
    match session.sftp.file {
        Some(file) => Some((file.dirty(), file.saving)),
        None => None,
    }
}

/// The states of the files that are open, in the order of the sessions.
pub open spec fn file_states<S>(sessions: Seq<Session<S>>) -> Seq<(bool, bool)>
    decreases sessions.len(),
{
    if sessions.len() == 0 {
        Seq::empty()
    } else {
        match file_state(sessions.last()) {
            Some(state) => file_states(sessions.drop_last()).push(state),
            None => file_states(sessions.drop_last()),
        }
    }
}

/// The states of the files that are open, in the order of the sessions.
pub fn exit_file_states<S>(sessions: &Vec<Session<S>>) -> (r: Vec<(bool, bool)>)
    ensures
        r@ == file_states(sessions@),
{
    let mut states: Vec<(bool, bool)> = Vec::new();
    let mut i: usize = 0;
    assert(sessions@.take(0) =~= Seq::<Session<S>>::empty());
    while i < sessions.len()
        invariant
            i <= sessions@.len(),
            states@ == file_states(sessions@.take(i as int)),
        decreases sessions@.len() - i,
    {
        proof {
            assert(sessions@.take(i + 1).drop_last() =~= sessions@.take(i as int));
            assert(sessions@.take(i + 1).last() == sessions@[i as int]);
        }
        match &sessions[i].sftp.file {
            Some(file) => states.push((file.is_dirty(), file.saving)),
            None => (),
        }
        i = i + 1;
    }
    assert(sessions@.take(i as int) =~= sessions@);
    states
}

/// The transfer has not come to its end.
pub open spec fn is_pending() -> spec_fn(SftpTransferTask) -> bool {
    |task: SftpTransferTask| !task.state.finished()
}

/// A transfer of the session has not come to its end.
pub open spec fn has_pending<S>() -> spec_fn(Session<S>) -> bool {
    |session: Session<S>| any_where(session.transfers.tasks@, is_pending())
}

/// A transfer of some session has not come to its end.
pub fn has_pending_transfers<S>(sessions: &Vec<Session<S>>) -> (r: bool)
    ensures
        r == any_where(sessions@, has_pending::<S>()),
{
    proof {
        any_where_iff(sessions@, has_pending::<S>());
    }
    let ghost pending = has_pending::<S>();
    let mut i: usize = 0;
    while i < sessions.len()
        invariant
            i <= sessions@.len(),
            pending == has_pending::<S>(),
            any_where(sessions@, pending) <==> exists|k: int|
                0 <= k < sessions@.len() && pending(#[trigger] sessions@[k]),
            forall|k: int| 0 <= k < i ==> !pending(#[trigger] sessions@[k]),
        decreases sessions@.len() - i,
    {
        let tasks = &sessions[i].transfers.tasks;
        let mut j: usize = 0;
        proof {
            any_where_iff(tasks@, is_pending());
        }
        let ghost open = is_pending();
        while j < tasks.len()
            invariant
                i < sessions@.len(),
                j <= tasks@.len(),
                tasks@ == sessions@[i as int].transfers.tasks@,
                open == is_pending(),
                pending == has_pending::<S>(),
                any_where(tasks@, open) <==> exists|k: int|
                    0 <= k < tasks@.len() && open(#[trigger] tasks@[k]),
                any_where(sessions@, pending) <==> exists|k: int|
                    0 <= k < sessions@.len() && pending(#[trigger] sessions@[k]),
                forall|k: int| 0 <= k < j ==> !open(#[trigger] tasks@[k]),
            decreases tasks@.len() - j,
        {
            if !tasks[j].state.is_finished() {
                proof {
                    assert(open(tasks@[j as int]));
                    assert(pending(sessions@[i as int]));
                }
                return true;
            }
            j = j + 1;
        }
        i = i + 1;
    }
    false
}

/// The session's file has changes that nobody is saving.
pub open spec fn needs_saving<S>() -> spec_fn(Session<S>) -> bool {
    |session: Session<S>| file_state(session) == Some((true, false))
}

/// The numbers of sessions.
pub open spec fn session_ids<S>(sessions: Seq<Session<S>>) -> Seq<SessionId> {
    sessions.map_values(|session: Session<S>| session.id)
}

/// The sessions whose files have changes that nobody is saving.
pub fn sessions_to_save<S>(sessions: &Vec<Session<S>>) -> (r: Vec<SessionId>)
    ensures
        r@ == session_ids(sessions@.filter(needs_saving::<S>())),
{
    let mut ids: Vec<SessionId> = Vec::new();
    let mut i: usize = 0;
    proof {
        reveal(Seq::filter);
    }
    assert(ids@ =~= session_ids(sessions@.take(0).filter(needs_saving::<S>())));
    while i < sessions.len()
        invariant
            i <= sessions@.len(),
            ids@ == session_ids(sessions@.take(i as int).filter(needs_saving::<S>())),
        decreases sessions@.len() - i,
    {
        let ghost before = sessions@.take(i as int);
        proof {
            assert(sessions@.take(i + 1) =~= before.push(sessions@[i as int]));
            crate::text::filter_push(before, sessions@[i as int], needs_saving::<S>());
        }
        let wanted = match &sessions[i].sftp.file {
            Some(file) => file.is_dirty() && !file.saving,
            None => false,
        };
        if wanted {
            ids.push(sessions[i].id);
        }
        assert(ids@ =~= session_ids(sessions@.take(i + 1).filter(needs_saving::<S>())));
        i = i + 1;
    }
    assert(sessions@.take(i as int) =~= sessions@);
    ids
}

/// Where a request to leave stands.
#[derive(Clone, Copy, Debug, PartialEq, Eq, Structural)]
pub enum ExitPhase {
    /// Nobody has asked to leave.
    Idle,
    /// The user is asked what to do with changed files.
    AskingToSave,
    /// The changed files are being saved.
    Saving,
    /// The user is asked whether to stop transfers; `discard` where the changes are to be lost.
    AskingToStop { discard: bool },
}

/// What happens to a request to leave. Answers are the positions of the buttons pressed.
#[derive(Clone, Copy, Debug, PartialEq, Eq, Structural)]
pub enum ExitEvent {
    /// The user wants to leave.
    Requested,
    /// The user answered what to do with changed files: save them, discard them, or stay.
    SaveAnswered { button: Option<usize> },
    /// It is time to look how far saving has come; `in_time` while it may still take longer.
    Polled { in_time: bool },
    /// The user answered whether to stop transfers: stay, or stop them.
    StopAnswered { button: Option<usize> },
}

/// What to do next for a request to leave.
#[derive(Clone, Copy, Debug, PartialEq, Eq, Structural)]
pub enum ExitAction {
    Nothing,
    /// Ask what to do with the changed files.
    AskToSave,
    /// Save every changed file, and look how far it has come.
    SaveAll,
    /// Wait, and look again how far saving has come.
    Wait,
    /// Say that the files could not be saved.
    ReportFailure,
    /// Ask whether to stop the transfers.
    AskToStop,
    /// Leave.
    Finish,
}

/// How long saving may take, in seconds.
pub const SAVE_TIME_LIMIT_SECONDS: u64 = 60;

/// How long to wait before looking again, in milliseconds.
pub const SAVE_POLL_MILLISECONDS: u64 = 100;

/// Leaving is asked for when nothing is under way.
pub open spec fn after_request(progress: SaveProgress, transfers: bool) -> (ExitPhase, ExitAction) {
    if progress != SaveProgress::Ready {
        (ExitPhase::AskingToSave, ExitAction::AskToSave)
    } else if transfers {
        (ExitPhase::AskingToStop { discard: false }, ExitAction::AskToStop)
    } else {
        (ExitPhase::Idle, ExitAction::Finish)
    }
}

/// Nothing but the files stands in the way any more.
pub open spec fn after_confirmation(
    discard: bool,
    progress: SaveProgress,
    transfers: bool,
) -> (ExitPhase, ExitAction) {
    if !discard && progress != SaveProgress::Ready {
        after_request(progress, transfers)
    } else {
        (ExitPhase::Idle, ExitAction::Finish)
    }
}

/// The files are saved, or their changes may be lost.
pub open spec fn after_files(
    discard: bool,
    progress: SaveProgress,
    transfers: bool,
) -> (ExitPhase, ExitAction) {
    if transfers {
        (ExitPhase::AskingToStop { discard }, ExitAction::AskToStop)
    } else {
        after_confirmation(discard, progress, transfers)
    }
}

/// Where a request to leave stands after an event, and what to do next. `progress` and
/// `transfers` say how far the files are saved at that moment, and whether transfers are pending.
pub open spec fn exit_after(
    phase: ExitPhase,
    event: ExitEvent,
    progress: SaveProgress,
    transfers: bool,
) -> (ExitPhase, ExitAction) {
    match (phase, event) {
        (ExitPhase::Idle, ExitEvent::Requested) => after_request(progress, transfers),
        (ExitPhase::AskingToSave, ExitEvent::SaveAnswered { button }) => {
            if button == Some(0usize) {
                (ExitPhase::Saving, ExitAction::SaveAll)
            } else if button == Some(1usize) {
                after_files(true, progress, transfers)
            } else {
                (ExitPhase::Idle, ExitAction::Nothing)
            }
        },
        (ExitPhase::Saving, ExitEvent::Polled { in_time }) => {
            if progress == SaveProgress::Ready {
                after_files(false, progress, transfers)
            } else if progress == SaveProgress::Waiting && in_time {
                (ExitPhase::Saving, ExitAction::Wait)
            } else {
                (ExitPhase::Idle, ExitAction::ReportFailure)
            }
        },
        (ExitPhase::AskingToStop { discard }, ExitEvent::StopAnswered { button }) => {
            if button == Some(1usize) {
                after_confirmation(discard, progress, transfers)
            } else {
                (ExitPhase::Idle, ExitAction::Nothing)
            }
        },
        _ => (phase, ExitAction::Nothing),
    }
}

/// Leaving is asked for when nothing is under way.
fn on_request(progress: SaveProgress, transfers: bool) -> (r: (ExitPhase, ExitAction))
    ensures
        r == after_request(progress, transfers),
{
    if progress != SaveProgress::Ready {
        (ExitPhase::AskingToSave, ExitAction::AskToSave)
    } else if transfers {
        (ExitPhase::AskingToStop { discard: false }, ExitAction::AskToStop)
    } else {
        (ExitPhase::Idle, ExitAction::Finish)
    }
}

/// Nothing but the files stands in the way any more.
fn on_confirmation(discard: bool, progress: SaveProgress, transfers: bool) -> (r: (
    ExitPhase,
    ExitAction,
))
    ensures
        r == after_confirmation(discard, progress, transfers),
{
    if !discard && progress != SaveProgress::Ready {
        on_request(progress, transfers)
    } else {
        (ExitPhase::Idle, ExitAction::Finish)
    }
}

/// The files are saved, or their changes may be lost.
fn on_files(discard: bool, progress: SaveProgress, transfers: bool) -> (r: (ExitPhase, ExitAction))
    ensures
        r == after_files(discard, progress, transfers),
{
    if transfers {
        (ExitPhase::AskingToStop { discard }, ExitAction::AskToStop)
    } else {
        on_confirmation(discard, progress, transfers)
    }
}

/// The button was pressed.
fn pressed(button: Option<usize>, wanted: usize) -> (r: bool)
    ensures
        r == (button == Some(wanted)),
{
    match button {
        Some(button) => button == wanted,
        None => false,
    }
}

/// Where a request to leave stands after an event, and what to do next.
pub fn request_exit(
    phase: ExitPhase,
    event: ExitEvent,
    progress: SaveProgress,
    transfers: bool,
) -> (r: (ExitPhase, ExitAction))
    ensures
        r == exit_after(phase, event, progress, transfers),
{
    match (phase, event) {
        (ExitPhase::Idle, ExitEvent::Requested) => on_request(progress, transfers),
        (ExitPhase::AskingToSave, ExitEvent::SaveAnswered { button }) => {
            if pressed(button, 0) {
                (ExitPhase::Saving, ExitAction::SaveAll)
            } else if pressed(button, 1) {
                on_files(true, progress, transfers)
            } else {
                (ExitPhase::Idle, ExitAction::Nothing)
            }
        },
        (ExitPhase::Saving, ExitEvent::Polled { in_time }) => {
            if progress == SaveProgress::Ready {
                on_files(false, progress, transfers)
            } else if progress == SaveProgress::Waiting && in_time {
                (ExitPhase::Saving, ExitAction::Wait)
            } else {
                (ExitPhase::Idle, ExitAction::ReportFailure)
            }
        },
        (ExitPhase::AskingToStop { discard }, ExitEvent::StopAnswered { button }) => {
            if pressed(button, 1) {
                on_confirmation(discard, progress, transfers)
            } else {
                (ExitPhase::Idle, ExitAction::Nothing)
            }
        },
        _ => (phase, ExitAction::Nothing),
    }
}

/// The user has chosen, in this phase or with this event, to lose the changes.
pub open spec fn gives_changes_up(phase: ExitPhase, event: ExitEvent) -> bool {
    phase == (ExitPhase::AskingToStop { discard: true }) || (phase == ExitPhase::AskingToSave
        && event == (ExitEvent::SaveAnswered { button: Some(1usize) }))
}

/// The program is left with unsaved changes only where the user chose to lose them.
pub proof fn changes_are_not_lost(
    phase: ExitPhase,
    event: ExitEvent,
    progress: SaveProgress,
    transfers: bool,
)
    ensures
        exit_after(phase, event, progress, transfers).1 == ExitAction::Finish ==> progress
            == SaveProgress::Ready || gives_changes_up(phase, event),
{
}

/// The program is left with transfers under way only where the user chose to stop them.
pub proof fn transfers_are_not_stopped(
    phase: ExitPhase,
    event: ExitEvent,
    progress: SaveProgress,
    transfers: bool,
)
    ensures
        exit_after(phase, event, progress, transfers).1 == ExitAction::Finish ==> !transfers
            || event == (ExitEvent::StopAnswered { button: Some(1usize) }),
{
}

/// The choice to lose the changes is kept only by the user who made it, and only for this request.
pub proof fn discarding_is_chosen(
    phase: ExitPhase,
    event: ExitEvent,
    progress: SaveProgress,
    transfers: bool,
)
    ensures
        exit_after(phase, event, progress, transfers).0 == (ExitPhase::AskingToStop {
            discard: true,
        }) ==> gives_changes_up(phase, event),
{
}

/// While a request to leave is under way, another one changes nothing.
pub proof fn second_request_is_ignored(phase: ExitPhase, progress: SaveProgress, transfers: bool)
    requires
        phase != ExitPhase::Idle,
    ensures
        exit_after(phase, ExitEvent::Requested, progress, transfers) == (
            phase,
            ExitAction::Nothing,
        ),
{
}

/// Files are ready exactly where none has changes and none is being saved.
pub proof fn ready_means_saved(states: Seq<(bool, bool)>)
    ensures
        progress_of(states) == SaveProgress::Ready <==> forall|k: int|
            0 <= k < states.len() ==> (#[trigger] states[k]) == (false, false),
{
    any_where_iff(states, is_changed());
    any_where_iff(states, is_being_saved());
    let changed = is_changed();
    let saved = is_being_saved();
    if exists|k: int| 0 <= k < states.len() && (#[trigger] states[k]) != (false, false) {
        let k = choose|k: int| 0 <= k < states.len() && (#[trigger] states[k]) != (false, false);
        assert(changed(states[k]) || saved(states[k]));
    }
}

/// A request to leave ends the program at once only where nothing is unsaved and nothing is under
/// way. Otherwise the user is asked first what to do with the files, then whether to stop the
/// transfers.
pub proof fn leaving_asks_for_what_stands_in_the_way(progress: SaveProgress, transfers: bool)
    ensures
        ({
            let next = exit_after(ExitPhase::Idle, ExitEvent::Requested, progress, transfers);
            &&& progress == SaveProgress::Ready && !transfers ==> next == (
                ExitPhase::Idle,
                ExitAction::Finish,
            )
            &&& progress == SaveProgress::Ready && transfers ==> next == (
                ExitPhase::AskingToStop { discard: false },
                ExitAction::AskToStop,
            )
            &&& progress == SaveProgress::Waiting || progress == SaveProgress::Blocked ==> next == (
                ExitPhase::AskingToSave,
                ExitAction::AskToSave,
            )
        }),
{
}

/// Of the answers on the files the first saves them all, the second goes on without them, and
/// every other one stays. Files are saved only on that answer.
pub proof fn answer_on_files_is_followed(
    button: Option<usize>,
    progress: SaveProgress,
    transfers: bool,
    phase: ExitPhase,
    event: ExitEvent,
)
    ensures
        ({
            let next = exit_after(
                ExitPhase::AskingToSave,
                ExitEvent::SaveAnswered { button },
                progress,
                transfers,
            );
            &&& button == Some(0usize) ==> next == (ExitPhase::Saving, ExitAction::SaveAll)
            &&& button == Some(1usize) && !transfers ==> next == (
                ExitPhase::Idle,
                ExitAction::Finish,
            )
            &&& button == Some(1usize) && transfers ==> next == (
                ExitPhase::AskingToStop { discard: true },
                ExitAction::AskToStop,
            )
            &&& button is None || button->0 > 1 ==> next == (ExitPhase::Idle, ExitAction::Nothing)
        }),
        exit_after(phase, event, progress, transfers).1 == ExitAction::SaveAll ==> phase
            == ExitPhase::AskingToSave && event == (ExitEvent::SaveAnswered {
            button: Some(0usize),
        }),
{
}

/// Saving is waited for as long as a file is being saved and there is time; when all is saved,
/// leaving goes on; and where a file is left unsaved or the time is over, that is told and the
/// program stays. Of the answers on the transfers only the second goes on.
pub proof fn saving_is_waited_for(
    in_time: bool,
    button: Option<usize>,
    discard: bool,
    progress: SaveProgress,
    transfers: bool,
)
    ensures
        ({
            let next = exit_after(
                ExitPhase::Saving,
                ExitEvent::Polled { in_time },
                progress,
                transfers,
            );
            &&& progress == SaveProgress::Waiting && in_time ==> next == (
                ExitPhase::Saving,
                ExitAction::Wait,
            )
            &&& progress == SaveProgress::Waiting && !in_time || progress == SaveProgress::Blocked
                ==> next == (ExitPhase::Idle, ExitAction::ReportFailure)
            &&& progress == SaveProgress::Ready && !transfers ==> next == (
                ExitPhase::Idle,
                ExitAction::Finish,
            )
            &&& progress == SaveProgress::Ready && transfers ==> next == (
                ExitPhase::AskingToStop { discard: false },
                ExitAction::AskToStop,
            )
        }),
        ({
            let next = exit_after(
                ExitPhase::AskingToStop { discard },
                ExitEvent::StopAnswered { button },
                progress,
                transfers,
            );
            &&& button != Some(1usize) ==> next == (ExitPhase::Idle, ExitAction::Nothing)
            &&& button == Some(1usize) && (discard || progress == SaveProgress::Ready) ==> next == (
                ExitPhase::Idle,
                ExitAction::Finish,
            )
            &&& button == Some(1usize) && !discard && progress != SaveProgress::Ready ==> next == (
                ExitPhase::AskingToSave,
                ExitAction::AskToSave,
            )
        }),
{
}

/// While a file is being saved there is something to wait for; where none is, a file with changes
/// stands in the way.
pub proof fn unsaved_files_stand_in_the_way(states: Seq<(bool, bool)>)
    ensures
        progress_of(states) == SaveProgress::Waiting <==> exists|k: int|
            0 <= k < states.len() && (#[trigger] states[k]).1,
        progress_of(states) == SaveProgress::Blocked <==> (exists|k: int|
            0 <= k < states.len() && (#[trigger] states[k]).0) && forall|k: int|
            0 <= k < states.len() ==> !(#[trigger] states[k]).1,
{
    let changed = is_changed();
    let saved = is_being_saved();
    any_where_iff(states, changed);
    any_where_iff(states, saved);
    assert(forall|k: int| 0 <= k < states.len() ==> changed(#[trigger] states[k]) == states[k].0);
    assert(forall|k: int| 0 <= k < states.len() ==> saved(#[trigger] states[k]) == states[k].1);
}

/// The file of one session more counts with whether it has changes and whether it is being saved;
/// a session without a file counts for nothing.
pub proof fn one_open_file_more<S>(sessions: Seq<Session<S>>, session: Session<S>)
    ensures
        file_states(Seq::<Session<S>>::empty()).len() == 0,
        session.sftp.file is None ==> file_states(sessions.push(session)) == file_states(sessions),
        session.sftp.file matches Some(file) ==> file_states(sessions.push(session)) == file_states(
            sessions,
        ).push((file.dirty(), file.saving)),
{
    assert(sessions.push(session).drop_last() =~= sessions);
}

/// What is saved on leaving is every session whose file has changes that are not being saved
/// already, and no other.
pub proof fn changed_files_are_saved<S>(sessions: Seq<Session<S>>, id: SessionId)
    ensures
        session_ids(sessions.filter(needs_saving::<S>())).contains(id) <==> exists|k: int|
            0 <= k < sessions.len() && (#[trigger] sessions[k]).id == id && (
            sessions[k].sftp.file matches Some(file) && file.dirty() && !file.saving),
{
    let wanted = needs_saving::<S>();
    let kept = sessions.filter(wanted);
    if session_ids(kept).contains(id) {
        let k = session_ids(kept).index_of(id);
        assert(kept.contains(kept[k]));
        crate::sequences::filter_is_exact(sessions, wanted, kept[k]);
        let s = sessions.index_of(kept[k]);
        assert(sessions[s].id == id);
    }
    if exists|k: int|
        0 <= k < sessions.len() && (#[trigger] sessions[k]).id == id && (
        sessions[k].sftp.file matches Some(file) && file.dirty() && !file.saving) {
        let k = choose|k: int|
            0 <= k < sessions.len() && (#[trigger] sessions[k]).id == id && (
            sessions[k].sftp.file matches Some(file) && file.dirty() && !file.saving);
        crate::sequences::filter_is_exact(sessions, wanted, sessions[k]);
        let s = kept.index_of(sessions[k]);
        assert(session_ids(kept)[s] == id);
    }
}

/// A transfer is pending until it was completed, has failed or was cancelled.
pub proof fn pending_means_not_at_its_end<S>(sessions: Seq<Session<S>>)
    ensures
        any_where(sessions, has_pending::<S>()) <==> exists|i: int, k: int|
            0 <= i < sessions.len() && 0 <= k < sessions[i].transfers.tasks@.len() && (
            #[trigger] sessions[i].transfers.tasks@[k]).state
                != crate::transfers::SftpTransferState::Completed
                && sessions[i].transfers.tasks@[k].state
                != crate::transfers::SftpTransferState::Failed
                && sessions[i].transfers.tasks@[k].state
                != crate::transfers::SftpTransferState::Cancelled,
{
    any_where_iff(sessions, has_pending::<S>());
    assert forall|i: int| 0 <= i < sessions.len() implies (has_pending::<S>()(
        #[trigger] sessions[i],
    ) <==> exists|k: int|
        0 <= k < sessions[i].transfers.tasks@.len() && is_pending()(
            #[trigger] sessions[i].transfers.tasks@[k],
        )) by {
        any_where_iff(sessions[i].transfers.tasks@, is_pending());
    }
    if any_where(sessions, has_pending::<S>()) {
        let i = choose|i: int| 0 <= i < sessions.len() && has_pending::<S>()(
            #[trigger] sessions[i],
        );
        let k = choose|k: int|
            0 <= k < sessions[i].transfers.tasks@.len() && is_pending()(
                #[trigger] sessions[i].transfers.tasks@[k],
            );
        assert(!sessions[i].transfers.tasks@[k].state.finished());
    }
    if exists|i: int, k: int|
        0 <= i < sessions.len() && 0 <= k < sessions[i].transfers.tasks@.len() && (
        #[trigger] sessions[i].transfers.tasks@[k]).state
            != crate::transfers::SftpTransferState::Completed
            && sessions[i].transfers.tasks@[k].state != crate::transfers::SftpTransferState::Failed
            && sessions[i].transfers.tasks@[k].state
            != crate::transfers::SftpTransferState::Cancelled {
        let (i, k) = choose|i: int, k: int|
            0 <= i < sessions.len() && 0 <= k < sessions[i].transfers.tasks@.len() && (
            #[trigger] sessions[i].transfers.tasks@[k]).state
                != crate::transfers::SftpTransferState::Completed
                && sessions[i].transfers.tasks@[k].state
                != crate::transfers::SftpTransferState::Failed
                && sessions[i].transfers.tasks@[k].state
                != crate::transfers::SftpTransferState::Cancelled;
        assert(is_pending()(sessions[i].transfers.tasks@[k]));
        assert(has_pending::<S>()(sessions[i]));
    }
}

} // verus!
