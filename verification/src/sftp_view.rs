//! What the panels for remote files and transfers show, and what a click in them does.
use crate::browser::{
    named_entries, row_views, SftpAvailability, SftpBrowserPlacement, SftpBrowserState,
    SftpFileState,
};
use crate::number::{format_remote_size, size_text};
use crate::remote_files::{RemoteFileEntry, RemoteFileKind};
use crate::remote_path::{parent_path, remote_parent_path};
use crate::sequences::{any_where, any_where_iff};
use crate::session::{Session, SessionState};
use crate::sftp_flow::SftpCreateKind;
use crate::text::{clone_opt_text, contains_text, views};
use crate::transfers::{
    is_progress_of, latest_tasks, SftpTransferBatchProgress, SftpTransferDirection,
    SftpTransferState, SftpTransferTask,
};
use vstd::prelude::*;
use vstd::string::*;

verus! {

/// Being something that can be downloaded.
pub open spec fn is_downloadable() -> spec_fn(RemoteFileEntry) -> bool {
    |entry: RemoteFileEntry|
        entry.kind == RemoteFileKind::File || entry.kind == RemoteFileKind::Directory
}

/// Something among the entries can be downloaded.
fn any_downloadable(entries: &Vec<RemoteFileEntry>) -> (r: bool)
    ensures
        r == any_where(entries@, is_downloadable()),
{
    let ghost wanted = is_downloadable();
    proof {
        any_where_iff(entries@, wanted);
    }
    let mut i: usize = 0;
    while i < entries.len()
        invariant
            i <= entries@.len(),
            wanted == is_downloadable(),
            any_where(entries@, wanted) <==> exists|k: int|
                0 <= k < entries@.len() && wanted(#[trigger] entries@[k]),
            forall|k: int| 0 <= k < i ==> !wanted(#[trigger] entries@[k]),
        decreases entries@.len() - i,
    {
        let kind = entries[i].kind;
        if kind == RemoteFileKind::File || kind == RemoteFileKind::Directory {
            assert(wanted(entries@[i as int]));
            return true;
        }
        assert(!wanted(entries@[i as int]));
        i = i + 1;
    }
    false
}

/// What the menu of remote files offers.
#[derive(Clone, Copy, Debug, PartialEq, Eq, Structural)]
pub struct SftpMenu {
    /// A file or a directory can be made.
    pub can_create: bool,
    pub can_copy_path: bool,
    /// The one file that is selected can be opened, to read or to edit it.
    pub can_open: bool,
    pub can_download: bool,
    pub can_delete: bool,
}

/// What the menu of remote files offers for the selected entries.
pub open spec fn menu_of(entries: Seq<RemoteFileEntry>, connected: bool) -> SftpMenu {
    SftpMenu {
        can_create: connected,
        can_copy_path: entries.len() > 0,
        can_open: entries.len() == 1 && entries[0].kind == RemoteFileKind::File,
        can_download: connected && any_where(entries, is_downloadable()),
        can_delete: connected && entries.len() > 0,
    }
}

/// What the menu of remote files offers for the selected entries.
pub fn sftp_context_menu(entries: &Vec<RemoteFileEntry>, connected: bool) -> (r: SftpMenu)
    ensures
        r == menu_of(entries@, connected),
{
    SftpMenu {
        can_create: connected,
        can_copy_path: entries.len() > 0,
        can_open: entries.len() == 1 && entries[0].kind == RemoteFileKind::File,
        can_download: connected && any_downloadable(entries),
        can_delete: connected && entries.len() > 0,
    }
}

/// The key of the title of the question for a new name.
pub fn create_title_key(kind: SftpCreateKind) -> (r: &'static str)
    ensures
        r == match kind {
            SftpCreateKind::File => "sftp-new-file",
            SftpCreateKind::Directory => "sftp-new-folder",
        },
{
    match kind {
        SftpCreateKind::File => "sftp-new-file",
        SftpCreateKind::Directory => "sftp-new-folder",
    }
}

/// What stands where the list of files is.
#[derive(Clone, Copy, Debug, PartialEq, Eq, Structural)]
pub enum FileList {
    /// The first listing is on its way.
    Loading,
    /// The directory is empty.
    Empty,
    /// This many lines.
    Lines(usize),
}

/// The browser of remote files.
#[derive(Debug, PartialEq, Eq)]
pub struct BrowserPanel {
    pub list: FileList,
    pub can_go_up: bool,
    /// The directory can be read again, and files uploaded to it.
    pub can_refresh: bool,
    pub can_download: bool,
    pub can_delete: bool,
    /// The listing that is shown is being read again.
    pub shows_loading: bool,
    pub error: Option<String>,
}

/// What the place for remote files shows.
#[derive(Debug, PartialEq, Eq)]
pub enum FilesView {
    /// The file that is open.
    File,
    /// It is being found out whether files can be browsed.
    Checking,
    /// Files cannot be browsed, and why.
    Unavailable(String),
    /// Files can only be uploaded, to this directory, and why.
    UploadOnly { destination: String, reason: String },
    Browser(BrowserPanel),
}

/// What stands where the list of files is, with this many lines.
pub open spec fn list_of(browser: SftpBrowserState, lines: nat) -> FileList {
    if !browser.loaded && browser.loading {
        FileList::Loading
    } else if browser.loaded && lines == 0 {
        FileList::Empty
    } else {
        FileList::Lines(lines as usize)
    }
}

/// The panel shows the browser.
pub open spec fn is_panel_of(
    panel: BrowserPanel,
    browser: SftpBrowserState,
    connected: bool,
    tree: bool,
) -> bool {
    let selected = named_entries(browser.known_entries(), views(browser.selected_paths@));
    &&& panel.list == list_of(browser, browser.rows(tree).len())
    &&& panel.can_go_up == (connected && parent_path(browser.path@) is Some && !browser.loading)
    &&& panel.can_refresh == (connected && !browser.loading)
    &&& panel.can_download == (connected && !browser.loading && any_where(
        selected,
        is_downloadable(),
    ))
    &&& panel.can_delete == (connected && !browser.loading && selected.len() > 0)
    &&& panel.shows_loading == (browser.loading && browser.loaded)
    &&& panel.error == browser.error
}

/// The browser of remote files.
pub fn browser_panel(browser: &SftpBrowserState, connected: bool, tree: bool) -> (r: BrowserPanel)
    requires
        tree ==> browser.tree_settles(),
    ensures
        is_panel_of(r, *browser, connected, tree),
{
    let rows = browser.visible_rows(tree);
    let selected = browser.selected_entries();
    assert(row_views(rows@).len() == rows@.len());
    let list = if !browser.loaded && browser.loading {
        FileList::Loading
    } else if browser.loaded && rows.len() == 0 {
        FileList::Empty
    } else {
        FileList::Lines(rows.len())
    };
    let ready = connected && !browser.loading;
    BrowserPanel {
        list,
        can_go_up: ready && remote_parent_path(browser.path.as_str()).is_some(),
        can_refresh: ready,
        can_download: ready && any_downloadable(&selected),
        can_delete: ready && selected.len() > 0,
        shows_loading: browser.loading && browser.loaded,
        error: clone_opt_text(&browser.error),
    }
}

/// The browser at a place shows what is expanded below its directories.
pub open spec fn is_tree(placement: SftpBrowserPlacement) -> bool {
    placement == SftpBrowserPlacement::Sidebar
}

/// What the place for remote files shows.
pub fn files_view<S>(session: &Session<S>, placement: SftpBrowserPlacement) -> (r: FilesView)
    requires
        is_tree(placement) ==> session.browser(placement).tree_settles(),
    ensures
        ({
            let connected = session.connection_state == SessionState::Connected;
            if placement == SftpBrowserPlacement::Center && session.sftp.file is Some {
                r == FilesView::File
            } else if connected && session.sftp_availability is Checking {
                r == FilesView::Checking
            } else if connected && session.sftp_availability is Unavailable {
                r == FilesView::Unavailable(session.sftp_availability->Unavailable_0)
            } else if connected && session.sftp_availability is ScpOnly {
                &&& r matches FilesView::UploadOnly { destination, reason }
                &&& destination@ == session.shell_directory()
                &&& reason == session.sftp_availability->ScpOnly_0
            } else {
                &&& r matches FilesView::Browser(panel)
                &&& is_panel_of(panel, session.browser(placement), connected, is_tree(placement))
            }
        }),
{
    if placement == SftpBrowserPlacement::Center && session.sftp.file.is_some() {
        return FilesView::File;
    }
    let connected = session.connection_state == SessionState::Connected;
    if connected {
        match &session.sftp_availability {
            SftpAvailability::Checking => return FilesView::Checking,
            SftpAvailability::Unavailable(message) => {
                return FilesView::Unavailable(message.clone());
            },
            SftpAvailability::ScpOnly(message) => {
                return FilesView::UploadOnly {
                    destination: session.shell_cwd(),
                    reason: message.clone(),
                };
            },
            SftpAvailability::Available => (),
        }
    }
    let tree = placement == SftpBrowserPlacement::Sidebar;
    FilesView::Browser(browser_panel(session.sftp_browser(placement), connected, tree))
}

/// What stands before the name of an entry.
#[derive(Clone, Copy, Debug, PartialEq, Eq, Structural)]
pub enum Disclosure {
    /// Nothing.
    Nothing,
    /// Room, so that names stand below each other.
    Room,
    /// A sign to show or to put away what is in the directory.
    Sign { expanded: bool },
}

/// A line of the list of files.
#[derive(Debug, PartialEq, Eq)]
pub struct EntryLine {
    pub path: String,
    pub name: String,
    pub depth: usize,
    pub is_directory: bool,
    pub size: String,
    pub selected: bool,
    pub disclosure: Disclosure,
    /// The entry can be clicked.
    pub active: bool,
}

/// What is shown as the size of an entry.
pub open spec fn shown_size(entry: RemoteFileEntry) -> Seq<char> {
    match entry.size {
        Some(size) if entry.kind != RemoteFileKind::Directory => size_text(size as nat),
        _ => "-"@,
    }
}

/// The line shows the entry at this depth.
pub open spec fn is_line_of(
    line: EntryLine,
    row: (RemoteFileEntry, nat),
    browser: SftpBrowserState,
    tree: bool,
) -> bool {
    let entry = row.0;
    let is_directory = entry.kind == RemoteFileKind::Directory;
    &&& line.path == entry.path
    &&& line.name == entry.name
    &&& line.depth == row.1
    &&& line.is_directory == is_directory
    &&& line.size@ == shown_size(entry)
    &&& line.selected == views(browser.selected_paths@).contains(entry.path@)
    &&& line.disclosure == if !tree {
        Disclosure::Nothing
    } else if is_directory {
        Disclosure::Sign { expanded: browser.expanded_paths@.contains(entry.path@) }
    } else {
        Disclosure::Room
    }
    &&& line.active == (is_directory || entry.kind == RemoteFileKind::File)
}

/// The lines `from` up to `to` of the list of files; none where the list is shorter.
pub fn entry_lines(browser: &SftpBrowserState, tree: bool, from: usize, to: usize) -> (r: Vec<
    EntryLine,
>)
    requires
        tree ==> browser.tree_settles(),
    ensures
        if from <= to <= browser.rows(tree).len() {
            r@.len() == to - from && forall|i: int|
                0 <= i < r@.len() ==> is_line_of(
                    #[trigger] r@[i],
                    browser.rows(tree)[from + i],
                    *browser,
                    tree,
                )
        } else {
            r@.len() == 0
        },
{
    let rows = browser.visible_rows(tree);
    let ghost all = browser.rows(tree);
    let mut lines: Vec<EntryLine> = Vec::new();
    assert(all.len() == rows@.len());
    if from > to || to > rows.len() {
        return lines;
    }
    let mut i: usize = from;
    while i < to
        invariant
            from <= i <= to <= rows@.len(),
            all == row_views(rows@),
            lines@.len() == i - from,
            forall|k: int|
                0 <= k < lines@.len() ==> is_line_of(
                    #[trigger] lines@[k],
                    all[from + k],
                    *browser,
                    tree,
                ),
        decreases to - i,
    {
        let entry = &rows[i].entry;
        assert(all[i as int] == (*entry, rows@[i as int].depth as nat));
        let is_directory = entry.kind == RemoteFileKind::Directory;
        let size = match entry.size {
            Some(size) => if is_directory {
                "-".to_string()
            } else {
                format_remote_size(size)
            },
            None => "-".to_string(),
        };
        let disclosure = if !tree {
            Disclosure::Nothing
        } else if is_directory {
            Disclosure::Sign { expanded: browser.expanded_paths.contains(entry.path.as_str()) }
        } else {
            Disclosure::Room
        };
        let line = EntryLine {
            path: entry.path.clone(),
            name: entry.name.clone(),
            depth: rows[i].depth,
            is_directory,
            size,
            selected: contains_text(&browser.selected_paths, entry.path.as_str()),
            disclosure,
            active: is_directory || entry.kind == RemoteFileKind::File,
        };
        assert(is_line_of(line, all[i as int], *browser, tree));
        lines.push(line);
        i = i + 1;
    }
    lines
}

/// What a click on an entry does, besides selecting it.
#[derive(Clone, Copy, Debug, PartialEq, Eq, Structural)]
pub enum EntryClick {
    /// Nothing: it was not a plain click, and the entry is not selected either.
    Ignored,
    /// The entry is selected, no more.
    Selected,
    /// The browser goes to the directory.
    OpenDirectory,
    /// The file is opened for editing.
    OpenFile,
}

/// What a click on an entry does.
pub open spec fn click_effect(
    standard: bool,
    click_count: usize,
    connected: bool,
    loading: bool,
    is_directory: bool,
) -> EntryClick {
    if !standard {
        EntryClick::Ignored
    } else if click_count >= 2 && connected && !loading {
        if is_directory {
            EntryClick::OpenDirectory
        } else {
            EntryClick::OpenFile
        }
    } else {
        EntryClick::Selected
    }
}

/// What a click on an entry does. A second click opens the entry, while there is a connection and
/// nothing is being read.
pub fn entry_click(
    standard: bool,
    click_count: usize,
    connected: bool,
    loading: bool,
    is_directory: bool,
) -> (r: EntryClick)
    ensures
        r == click_effect(standard, click_count, connected, loading, is_directory),
{
    if !standard {
        EntryClick::Ignored
    } else if click_count >= 2 && connected && !loading {
        if is_directory {
            EntryClick::OpenDirectory
        } else {
            EntryClick::OpenFile
        }
    } else {
        EntryClick::Selected
    }
}

/// A click on a directory's sign shows or puts away what is in it.
pub fn disclosure_click(standard: bool, click_count: usize) -> (r: bool)
    ensures
        r == (standard && click_count == 1),
{
    standard && click_count == 1
}

/// What is offered beside a transfer.
#[derive(Clone, Copy, Debug, PartialEq, Eq, Structural)]
pub enum TransferControls {
    Nothing,
    /// It can be cancelled.
    Cancel,
    /// The file in the way can be replaced, or the transfer cancelled.
    ReplaceOrCancel,
}

/// How a transfer's state stands out.
#[derive(Clone, Copy, Debug, PartialEq, Eq, Structural)]
pub enum TransferTone {
    Good,
    Error,
    Warning,
    Muted,
}

/// A line of the list of transfers.
#[derive(Clone, Copy, Debug, PartialEq, Eq)]
pub struct TransferLine {
    pub id: u64,
    pub upload: bool,
    pub tone: TransferTone,
    pub controls: TransferControls,
    /// How much is done, and of how much; shown while the transfer runs.
    pub bar: Option<(u64, u64)>,
}

/// How much of a transfer is done, and of how much; nothing of one where its size is not known.
pub open spec fn done_part(task: SftpTransferTask) -> (u64, u64) {
    match task.total {
        Some(total) if total > 0 => (
            if task.transferred < total {
                task.transferred
            } else {
                total
            },
            total,
        ),
        _ => (0, 1),
    }
}

/// What is offered beside a transfer in this state.
pub open spec fn controls_of(state: SftpTransferState) -> TransferControls {
    match state {
        SftpTransferState::Conflict => TransferControls::ReplaceOrCancel,
        SftpTransferState::Queued | SftpTransferState::Running => TransferControls::Cancel,
        _ => TransferControls::Nothing,
    }
}

/// The line of a transfer.
pub open spec fn line_of(task: SftpTransferTask) -> TransferLine {
    TransferLine {
        id: task.id,
        upload: task.direction == SftpTransferDirection::Upload,
        tone: match task.state {
            SftpTransferState::Completed => TransferTone::Good,
            SftpTransferState::Failed => TransferTone::Error,
            SftpTransferState::Conflict => TransferTone::Warning,
            _ => TransferTone::Muted,
        },
        controls: controls_of(task.state),
        bar: if task.state.active() {
            Some(done_part(task))
        } else {
            None
        },
    }
}

/// The line of a transfer.
pub fn transfer_line(task: &SftpTransferTask) -> (r: TransferLine)
    ensures
        r == line_of(*task),
{
    let part: (u64, u64) = match task.total {
        Some(total) => if total > 0 {
            (
                if task.transferred < total {
                    task.transferred
                } else {
                    total
                },
                total,
            )
        } else {
            (0, 1)
        },
        None => (0, 1),
    };
    TransferLine {
        id: task.id,
        upload: match task.direction {
            SftpTransferDirection::Upload => true,
            SftpTransferDirection::Download => false,
        },
        tone: match task.state {
            SftpTransferState::Completed => TransferTone::Good,
            SftpTransferState::Failed => TransferTone::Error,
            SftpTransferState::Conflict => TransferTone::Warning,
            _ => TransferTone::Muted,
        },
        controls: match task.state {
            SftpTransferState::Conflict => TransferControls::ReplaceOrCancel,
            SftpTransferState::Queued | SftpTransferState::Running => TransferControls::Cancel,
            _ => TransferControls::Nothing,
        },
        bar: if task.state.is_active() {
            Some(part)
        } else {
            None
        },
    }
}

/// A transfer can be cancelled exactly while it has not come to its end and is not being
/// cancelled already.
pub proof fn open_transfers_can_be_cancelled(state: SftpTransferState)
    ensures
        controls_of(state) != TransferControls::Nothing <==> !state.finished() && state
            != SftpTransferState::Cancelling,
{
}

/// The part of a transfer that is done is a part of the whole.
pub proof fn done_part_is_a_part(task: SftpTransferTask)
    ensures
        0 <= done_part(task).0 <= done_part(task).1,
        done_part(task).1 > 0,
{
}

/// How far a batch has come, for people: in bytes where the size is known, else in files.
#[derive(Debug, PartialEq, Eq)]
pub enum BatchStatus {
    Files { settled: usize, of: usize },
    Bytes { transferred: String, total: String },
}

/// What is said above the list of transfers.
#[derive(Debug, PartialEq, Eq)]
pub struct BatchHeader {
    pub title_key: &'static str,
    /// The number in the title: of files, or of those that failed.
    pub count: usize,
    pub status: BatchStatus,
}

/// The key of the title of a batch.
pub open spec fn batch_title(
    direction: SftpTransferDirection,
    running: bool,
    failures: bool,
) -> &'static str {
    match direction {
        SftpTransferDirection::Upload => if running {
            "sftp-uploading-files"
        } else if failures {
            "sftp-uploaded-errors"
        } else {
            "sftp-uploaded-files"
        },
        SftpTransferDirection::Download => if running {
            "sftp-downloading-files"
        } else if failures {
            "sftp-downloaded-errors"
        } else {
            "sftp-downloaded-files"
        },
    }
}

/// The header says how far a batch has come.
pub open spec fn is_header_of(
    header: BatchHeader,
    direction: SftpTransferDirection,
    progress: SftpTransferBatchProgress,
) -> bool {
    let running = progress.settled_count < progress.task_count;
    let failures = progress.failed_count > 0;
    &&& header.title_key == batch_title(direction, running, failures)
    &&& header.count == if running || !failures {
        progress.task_count
    } else {
        progress.failed_count
    }
    &&& match progress.total {
        None => header.status == (BatchStatus::Files {
            settled: progress.settled_count,
            of: progress.task_count,
        }),
        Some(total) => match header.status {
            BatchStatus::Bytes { transferred: done, total: whole } => done@ == size_text(
                progress.transferred as nat,
            ) && whole@ == size_text(total as nat),
            _ => false,
        },
    }
}

/// What is said above the list of transfers, for the latest batch in this direction.
pub fn batch_header(direction: SftpTransferDirection, progress: &SftpTransferBatchProgress) -> (r:
    BatchHeader)
    ensures
        is_header_of(r, direction, *progress),
{
    let running = progress.settled_count < progress.task_count;
    let failures = progress.failed_count > 0;
    let title_key = match direction {
        SftpTransferDirection::Upload => if running {
            "sftp-uploading-files"
        } else if failures {
            "sftp-uploaded-errors"
        } else {
            "sftp-uploaded-files"
        },
        SftpTransferDirection::Download => if running {
            "sftp-downloading-files"
        } else if failures {
            "sftp-downloaded-errors"
        } else {
            "sftp-downloaded-files"
        },
    };
    BatchHeader {
        title_key,
        count: if running || !failures {
            progress.task_count
        } else {
            progress.failed_count
        },
        status: match progress.total {
            None => BatchStatus::Files {
                settled: progress.settled_count,
                of: progress.task_count,
            },
            Some(total) => BatchStatus::Bytes {
                transferred: format_remote_size(progress.transferred),
                total: format_remote_size(total),
            },
        },
    }
}

/// The list of transfers of a session.
#[derive(Debug, PartialEq, Eq)]
pub struct TransferPanel {
    /// Transfers have come to their ends and can be taken off the list.
    pub has_finished: bool,
    pub header: Option<BatchHeader>,
    pub lines: Vec<TransferLine>,
}

/// Having come to its end.
pub open spec fn is_finished_task() -> spec_fn(SftpTransferTask) -> bool {
    |task: SftpTransferTask| task.state.finished()
}

/// The list of transfers of a session, with what is said of the latest batch in `direction`; none
/// where there are no transfers.
pub fn transfer_panel<S>(session: &Session<S>, direction: Option<SftpTransferDirection>) -> (r:
    Option<TransferPanel>)
    ensures
        ({
            let tasks = session.transfers.tasks@;
            &&& r is Some <==> tasks.len() > 0
            &&& r matches Some(panel) ==> {
                &&& panel.has_finished == any_where(tasks, is_finished_task())
                &&& panel.lines@ == tasks.map_values(|task: SftpTransferTask| line_of(task))
                &&& panel.header is Some <==> (direction is Some && latest_tasks(
                    tasks,
                    direction->0,
                ).len() >= 2)
                &&& panel.header matches Some(header) ==> exists|
                    progress: SftpTransferBatchProgress,
                |
                    is_progress_of(progress, latest_tasks(tasks, direction->0)) && is_header_of(
                        header,
                        direction->0,
                        progress,
                    )
            }
        }),
{
    let tasks = &session.transfers.tasks;
    if tasks.len() == 0 {
        return None;
    }
    let ghost finished = is_finished_task();
    let mut has_finished = false;
    let mut lines: Vec<TransferLine> = Vec::new();
    let mut i: usize = 0;
    while i < tasks.len()
        invariant
            i <= tasks@.len(),
            finished == is_finished_task(),
            has_finished <==> exists|k: int| 0 <= k < i && finished(#[trigger] tasks@[k]),
            lines@ == tasks@.take(i as int).map_values(|task: SftpTransferTask| line_of(task)),
        decreases tasks@.len() - i,
    {
        if tasks[i].state.is_finished() {
            has_finished = true;
            assert(finished(tasks@[i as int]));
        } else {
            assert(!finished(tasks@[i as int]));
        }
        lines.push(transfer_line(&tasks[i]));
        i = i + 1;
        assert(lines@ =~= tasks@.take(i as int).map_values(|task: SftpTransferTask| line_of(task)));
    }
    proof {
        assert(tasks@.take(i as int) =~= tasks@);
        any_where_iff(tasks@, finished);
    }
    let header = match direction {
        Some(direction) => match session.transfers.latest_batch_progress(direction) {
            Some(progress) => Some(batch_header(direction, &progress)),
            None => None,
        },
        None => None,
    };
    Some(TransferPanel { has_finished, header, lines })
}

/// What stands where the open file's text is.
#[derive(Debug, PartialEq, Eq)]
pub enum FileContent {
    Loading,
    /// The file is no text; its size is shown.
    Binary { size: String },
    /// The editor, or its absence where the file could not be read.
    Editor { shown: bool },
}

/// The panel of the file that is open.
#[derive(Debug, PartialEq, Eq)]
pub struct FilePanel {
    pub content: FileContent,
    pub can_close: bool,
    pub can_revert: bool,
    pub can_save: bool,
    pub save_label_key: &'static str,
    pub shows_modified: bool,
    /// The file is open to read only; else it can be reverted and saved.
    pub read_only: bool,
}

/// The panel shows the open file.
pub open spec fn is_file_panel(panel: FilePanel, file: SftpFileState, connected: bool) -> bool {
    &&& match panel.content {
        FileContent::Loading => file.loading,
        FileContent::Binary { size } => !file.loading && file.error is None
            && file.text_format is None && size@ == size_text(file.original_contents@.len()),
        FileContent::Editor { shown } => !file.loading && (file.error is Some
            || file.text_format is Some) && shown == (file.editor is Some),
    }
    &&& panel.can_close == !file.saving
    &&& panel.can_revert == (file.dirty() && !file.saving)
    &&& panel.can_save == (file.editable && file.dirty() && !file.saving && connected)
    &&& panel.save_label_key == if file.saving {
        "common-saving"
    } else {
        "common-save"
    }
    &&& panel.shows_modified == file.dirty()
    &&& panel.read_only == !file.editable
}

/// The panel of the file that is open.
pub fn file_panel(file: &SftpFileState, connected: bool) -> (r: FilePanel)
    ensures
        is_file_panel(r, *file, connected),
{
    let dirty = file.is_dirty();
    let content = if file.loading {
        FileContent::Loading
    } else if file.error.is_none() && file.text_format.is_none() {
        assert(file.original_contents@.len() == file.original_contents.len());
        FileContent::Binary { size: format_remote_size(file.original_contents.len() as u64) }
    } else {
        FileContent::Editor { shown: file.editor.is_some() }
    };
    FilePanel {
        content,
        can_close: !file.saving,
        can_revert: dirty && !file.saving,
        can_save: file.editable && dirty && !file.saving && connected,
        save_label_key: if file.saving {
            "common-saving"
        } else {
            "common-save"
        },
        shows_modified: dirty,
        read_only: !file.editable,
    }
}

/// The list of transfers offers to cancel exactly what cancelling would stop, and to replace
/// exactly what waits for that choice.
pub proof fn offered_controls_do_something(tasks: Seq<SftpTransferTask>, id: u64, i: int)
    requires
        0 <= i < tasks.len(),
        tasks[i].id == id,
        forall|k: int| 0 <= k < i ==> (#[trigger] tasks[k]).id != id,
    ensures
        line_of(tasks[i]).id == id,
        line_of(tasks[i]).controls != TransferControls::Nothing
            <==> crate::transfers::cancel_signal(tasks, id) is Some,
        line_of(tasks[i]).controls == TransferControls::ReplaceOrCancel
            <==> crate::transfers::requeued(tasks, id)[i].state == SftpTransferState::Queued
            && tasks[i].state != SftpTransferState::Queued,
{
    crate::transfers::task_position_is_first(tasks, id);
}

/// A bar is shown for what a worker holds: its bytes against its size, never more than the whole.
/// What was completed stands out as good, what has failed as an error, and what waits for a choice
/// as a warning.
pub proof fn transfer_line_shows_its_state(task: SftpTransferTask)
    ensures
        line_of(task).upload <==> task.direction == SftpTransferDirection::Upload,
        line_of(task).bar is Some <==> task.state == SftpTransferState::Running || task.state
            == SftpTransferState::Cancelling,
        line_of(task).bar is Some && task.total is Some && task.total->0 > 0 && task.transferred
            <= task.total->0 ==> line_of(task).bar == Some((task.transferred, task.total->0)),
        line_of(task).bar is Some && task.total is Some && task.total->0 > 0 && task.transferred
            > task.total->0 ==> line_of(task).bar == Some((task.total->0, task.total->0)),
        line_of(task).bar is Some && (task.total is None || task.total->0 == 0) ==> line_of(
            task,
        ).bar == Some((0u64, 1u64)),
        line_of(task).tone == TransferTone::Good <==> task.state == SftpTransferState::Completed,
        line_of(task).tone == TransferTone::Error <==> task.state == SftpTransferState::Failed,
        line_of(task).tone == TransferTone::Warning <==> task.state == SftpTransferState::Conflict,
{
}

/// An entry is opened by a second plain click, while there is a connection and nothing is read: a
/// directory is gone to, anything else is opened.
pub proof fn second_click_opens(
    standard: bool,
    click_count: usize,
    connected: bool,
    loading: bool,
    is_directory: bool,
)
    ensures
        ({
            let effect = click_effect(standard, click_count, connected, loading, is_directory);
            &&& effect == EntryClick::OpenDirectory <==> standard && click_count > 1 && connected
                && !loading && is_directory
            &&& effect == EntryClick::OpenFile <==> standard && click_count > 1 && connected
                && !loading && !is_directory
            &&& effect == EntryClick::Ignored <==> !standard
        }),
{
}

/// Where the panel of an open file offers to save it, and the file is not being read, saving sends
/// it or says that it is too large; where it does not, saving does nothing.
pub proof fn save_button_saves<S>(
    session: Session<S>,
    panel: FilePanel,
    limit: usize,
    too_large: String,
    after: Session<S>,
    request: crate::session::SaveRequest,
)
    requires
        session.sftp.file is Some,
        session.has_handle,
        is_file_panel(
            panel,
            session.sftp.file->0,
            session.connection_state == SessionState::Connected,
        ),
        crate::session::save_requested(session, limit, too_large, after, request),
    ensures
        panel.can_save && !session.sftp.file->0.loading ==> !(request is Nothing),
        !panel.can_save ==> request is Nothing,
        panel.can_revert ==> panel.shows_modified,
        session.sftp.file->0.loading ==> panel.content is Loading,
{
}

/// The menu of remote files offers to open one file alone, to download where a file or a directory
/// is among what is selected, and to change anything only over a connection.
pub proof fn menu_fits_the_selection(entries: Seq<RemoteFileEntry>, connected: bool)
    ensures
        menu_of(entries, connected).can_create <==> connected,
        menu_of(entries, connected).can_copy_path <==> entries.len() > 0,
        menu_of(entries, connected).can_delete <==> connected && entries.len() > 0,
        menu_of(entries, connected).can_open <==> entries.len() == 1 && entries[0].kind
            == RemoteFileKind::File,
        menu_of(entries, connected).can_download <==> connected && exists|i: int|
            0 <= i < entries.len() && ((#[trigger] entries[i]).kind == RemoteFileKind::File
                || entries[i].kind == RemoteFileKind::Directory),
{
    let wanted = is_downloadable();
    any_where_iff(entries, wanted);
    assert(forall|i: int|
        0 <= i < entries.len() ==> (wanted(#[trigger] entries[i]) <==> entries[i].kind
            == RemoteFileKind::File || entries[i].kind == RemoteFileKind::Directory));
}

/// The size of a directory, and one that is not known, is not shown; any other is.
pub proof fn sizes_of_files_are_shown(entry: RemoteFileEntry)
    ensures
        entry.kind == RemoteFileKind::Directory || entry.size is None ==> shown_size(entry)
            == "-"@,
        entry.kind != RemoteFileKind::Directory && entry.size is Some ==> shown_size(entry)
            == size_text(entry.size->0 as nat),
{
}

/// Above the list stands the number of files while they are moved and when all went well, and the
/// number of those that did not once the others are done; how far they are is told in bytes only
/// where the size is known.
pub proof fn header_counts_what_it_says(
    header: BatchHeader,
    direction: SftpTransferDirection,
    progress: SftpTransferBatchProgress,
)
    requires
        is_header_of(header, direction, progress),
    ensures
        progress.settled_count < progress.task_count ==> header.count == progress.task_count,
        progress.failed_count == 0 ==> header.count == progress.task_count,
        progress.settled_count >= progress.task_count && progress.failed_count > 0 ==> header.count
            == progress.failed_count,
        header.status is Bytes <==> progress.total is Some,
        header.status matches BatchStatus::Files { settled, of } ==> settled
            == progress.settled_count && of == progress.task_count,
{
}

} // verus!
