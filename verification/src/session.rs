//! One session: a connection to a server, its terminal, its remote files and its transfers.
use crate::browser::{
    file_requested, requested, tree_requested, SftpAvailability, SftpBrowserPlacement,
    SftpBrowserState, SftpFileState,
};
use crate::credentials::ConnectionCredential;
use crate::message::SessionMessage;
use crate::path_tables::table_get;
use crate::remote_path::{parent_path, remote_parent_path};
use crate::text::opt_view;
use crate::text_format::{decoded, encode_after_decode, is_text, uniform_lines, RemoteTextFormat};
use crate::transfers::SftpTransferQueue;
use crate::sequences::{first_index, first_index_is};
use vstd::prelude::*;
use vstd::string::*;
use vstd::utf8::decode_utf8;

verus! {

/// The number of a session.
#[derive(Clone, Copy, Debug, PartialEq, Eq, Structural)]
pub struct SessionId(pub u64);

/// What a session runs.
#[derive(Clone, Copy, Debug, PartialEq, Eq, Structural)]
pub enum TerminalSessionKind {
    /// A connection to a server.
    Ssh,
    /// A shell on this machine.
    Local,
}

/// Where a connection stands.
#[derive(Clone, Copy, Debug, PartialEq, Eq, Structural)]
pub enum SessionState {
    Disconnected,
    Connecting,
    Authenticating,
    Connected,
    Disconnecting,
    Failed,
}

impl SessionState {
    /// There is no connection, and none on its way or going.
    pub open spec fn is_idle(self) -> bool {
        self == SessionState::Disconnected || self == SessionState::Failed
    }

    /// There is a connection, or one on its way.
    pub open spec fn is_live(self) -> bool {
        self == SessionState::Connecting || self == SessionState::Authenticating || self
            == SessionState::Connected
    }

    /// A connection can be started.
    pub fn can_connect(self) -> (r: bool)
        ensures
            r == self.is_idle(),
    {
        matches!(self, SessionState::Disconnected | SessionState::Failed)
    }

    /// The connection can be ended.
    pub fn can_disconnect(self) -> (r: bool)
        ensures
            r == self.is_live(),
    {
        matches!(
            self,
            SessionState::Connecting | SessionState::Authenticating | SessionState::Connected
        )
    }
}

/// The key by which a server is known.
#[derive(Debug, PartialEq, Eq)]
pub struct HostKeyInfo {
    pub address: String,
    pub algorithm: String,
    pub fingerprint: String,
}

/// A session's terminal. `remote_cwd` is the directory that the remote shell has told it is in.
#[derive(Debug, PartialEq, Eq)]
pub struct TerminalInfo {
    pub profile_id: String,
    pub was_connected: bool,
    pub remote_cwd: Option<String>,
}

/// A session's view of the server's performance.
#[derive(Debug, PartialEq, Eq)]
pub struct PerformanceState {
    pub loading: bool,
    pub error: Option<String>,
}

/// A file's contents, with its path as the server resolved it.
#[derive(Debug, PartialEq, Eq)]
pub struct RemoteFile {
    pub path: String,
    pub contents: Vec<u8>,
}

/// A session. `has_handle` and `has_local_handle` say whether a connection's or a local terminal's
/// worker can be spoken to, `resize_pending` whether a change of the terminal's size is on its way.
#[derive(Debug)]
pub struct Session<S> {
    pub id: SessionId,
    pub kind: TerminalSessionKind,
    pub profile_id: String,
    pub connection_state: SessionState,
    pub has_handle: bool,
    pub has_local_handle: bool,
    pub connection_credentials: Vec<ConnectionCredential<S>>,
    pub connection_error: Option<SessionMessage>,
    pub connection_message: Option<SessionMessage>,
    pub host_key_prompt: Option<HostKeyInfo>,
    pub terminal: Option<TerminalInfo>,
    pub terminal_end_reason: Option<SessionMessage>,
    pub resize_pending: bool,
    pub has_selection: bool,
    pub selecting: bool,
    pub close_when_disconnected: bool,
    pub sftp: SftpBrowserState,
    pub sidebar_sftp: SftpBrowserState,
    pub sftp_availability: SftpAvailability,
    pub transfers: SftpTransferQueue,
    pub performance: PerformanceState,
}

/// What asking for a directory came to.
#[derive(Debug, PartialEq, Eq)]
pub enum DirectoryRequest {
    /// The server's files cannot be browsed, or it is not known yet whether they can.
    Blocked,
    /// There is no connection; the error was shown, under this generation.
    NotConnected { generation: u64 },
    /// The request to send.
    Send { request_id: u64, path: String },
}

/// What a click on a directory's disclosure came to.
#[derive(Debug, PartialEq, Eq)]
pub enum TreeRequest {
    /// The tree shows what was known already, or nothing has changed.
    Done,
    /// The request to send.
    Send { request_id: u64, path: String },
}

/// What saving the open file came to.
#[derive(Debug, PartialEq, Eq)]
pub enum SaveRequest {
    /// There is nothing to save, or it cannot be saved now.
    Nothing,
    /// The file has become too large; the open file says so.
    TooLarge,
    /// The request to send, with what the file is expected to hold before.
    Send { request_id: u64, path: String, expected_contents: Vec<u8>, contents: Vec<u8> },
}

/// A copy of a run of bytes.
pub fn clone_bytes(bytes: &Vec<u8>) -> (r: Vec<u8>)
    ensures
        r@ == bytes@,
{
    let mut out: Vec<u8> = Vec::new();
    let mut i: usize = 0;
    while i < bytes.len()
        invariant
            i <= bytes@.len(),
            out@ == bytes@.take(i as int),
        decreases bytes@.len() - i,
    {
        out.push(bytes[i]);
        i = i + 1;
        assert(bytes@.take(i as int) =~= bytes@.take(i - 1).push(bytes@[i - 1]));
    }
    assert(bytes@.take(i as int) =~= bytes@);
    out
}

/// The open file after its contents came.
pub open spec fn file_after_read(
    before: SftpFileState,
    file: RemoteFile,
    after: SftpFileState,
) -> bool {
    &&& after == (SftpFileState {
        path: file.path,
        original_contents: file.contents,
        text_format: if is_text(file.contents@) {
            Some(decoded(file.contents@).0)
        } else {
            None
        },
        editor: after.editor,
        loading: false,
        error: None,
        read_request_id: None,
        ..before
    })
    &&& opt_view(after.editor) == if is_text(file.contents@) {
        Some(decoded(file.contents@).1)
    } else {
        None
    }
}

/// `after` is `before` with the text of the open file back in the editor.
pub open spec fn reverted(before: SftpBrowserState, after: SftpBrowserState) -> bool {
    match before.file {
        Some(file) => {
            let contents = file.original_contents@;
            &&& after.file is Some
            &&& after == (SftpBrowserState {
                file: Some(
                    SftpFileState { editor: after.file->Some_0.editor, error: None, ..file },
                ),
                ..before
            })
            &&& if file.editor is Some && is_text(contents) {
                opt_view(after.file->Some_0.editor) == Some(decoded(contents).1)
            } else {
                after.file->Some_0.editor == file.editor
            }
        },
        None => after == before,
    }
}

/// The browser after its open file was to be closed.
pub open spec fn closed(before: SftpBrowserState, save_first: String) -> SftpBrowserState {
    SftpBrowserState {
        file: match before.file {
            Some(file) => if file.dirty() {
                Some(SftpFileState { error: Some(save_first), ..file })
            } else {
                None
            },
            None => None,
        },
        ..before
    }
}

/// What becomes of a browser whose directory `path` is to be shown in the tree or hidden.
pub open spec fn toggled_directory(
    before: SftpBrowserState,
    path: String,
    has_handle: bool,
    after: SftpBrowserState,
    request: TreeRequest,
) -> bool {
    if before.expanded_paths@.contains(path@) {
        &&& request == TreeRequest::Done
        &&& after == (SftpBrowserState { expanded_paths: after.expanded_paths, ..before })
        &&& after.expanded_paths@ == before.expanded_paths@.remove(path@)
    } else {
        expanded_directory(before, path, has_handle, after, request)
    }
}

impl SftpBrowserState {
    /// Takes in the contents of the open file; contents that nobody waits for change nothing.
    pub fn complete_file_read(&mut self, request_id: u64, file: RemoteFile)
        ensures
            match old(self).file {
                Some(before) => if before.read_request_id == Some(request_id) {
                    final(self).file is Some && file_after_read(
                        before,
                        file,
                        final(self).file->Some_0,
                    ) && *final(self) == (SftpBrowserState {
                        file: final(self).file,
                        ..*old(self)
                    })
                } else {
                    *final(self) == *old(self)
                },
                None => *final(self) == *old(self),
            },
    {
        if let Some(state) = self.file.as_mut() {
            if state.read_request_id == Some(request_id) {
                match RemoteTextFormat::decode(file.contents.as_slice()) {
                    Some((format, text)) => {
                        state.text_format = Some(format);
                        state.editor = Some(text);
                    },
                    None => {
                        state.text_format = None;
                        state.editor = None;
                    },
                }
                state.path = file.path;
                state.original_contents = file.contents;
                state.loading = false;
                state.error = None;
                state.read_request_id = None;
            }
        }
    }

    /// Takes in that the open file was written; an answer that nobody waits for changes nothing.
    pub fn complete_file_write(&mut self, request_id: u64, file: RemoteFile)
        ensures
            *final(self) == (SftpBrowserState {
                file: match old(self).file {
                    Some(before) => if before.write_request_id == Some(request_id) {
                        Some(
                            SftpFileState {
                                path: file.path,
                                original_contents: file.contents,
                                saving: false,
                                error: None,
                                write_request_id: None,
                                ..before
                            },
                        )
                    } else {
                        old(self).file
                    },
                    None => None,
                },
                ..*old(self)
            }),
    {
        if let Some(state) = self.file.as_mut() {
            if state.write_request_id == Some(request_id) {
                state.path = file.path;
                state.original_contents = file.contents;
                state.saving = false;
                state.error = None;
                state.write_request_id = None;
            }
        }
    }

    /// Puts the text of the file back into the editor and takes the error away.
    pub fn revert_file(&mut self)
        ensures
            reverted(*old(self), *final(self)),
    {
        if let Some(state) = self.file.as_mut() {
            if state.editor.is_some() {
                match RemoteTextFormat::decode(state.original_contents.as_slice()) {
                    Some((format, text)) => {
                        state.editor = Some(text);
                    },
                    None => {},
                }
            }
            state.error = None;
        }
    }

    /// Closes the open file; one that was edited stays open and says that it has to be saved first.
    pub fn close_file(&mut self, save_first: String)
        ensures
            *final(self) == closed(*old(self), save_first),
    {
        let dirty = match &self.file {
            Some(file) => file.is_dirty(),
            None => false,
        };
        if dirty {
            if let Some(file) = self.file.as_mut() {
                file.error = Some(save_first);
            }
        } else {
            self.file = None;
        }
    }

    /// Shows or hides the contents of the directory `path` in the tree. A directory whose contents
    /// are not known yet is asked for where the worker can be spoken to.
    pub fn toggle_tree_directory(&mut self, path: String, has_handle: bool) -> (r: TreeRequest)
        requires
            must_ask_for(*old(self), path@, has_handle) ==> old(self).next_request_id < u64::MAX,
        ensures
            toggled_directory(*old(self), path, has_handle, *final(self), r),
    {
        if self.expanded_paths.contains(path.as_str()) {
            self.expanded_paths.remove(path.as_str());
            return TreeRequest::Done;
        }
        self.expand_tree_directory(path, has_handle)
    }

    /// Shows the contents of the directory `path` in the tree.
    pub fn expand_tree_directory(&mut self, path: String, has_handle: bool) -> (r: TreeRequest)
        requires
            must_ask_for(*old(self), path@, has_handle) ==> old(self).next_request_id < u64::MAX,
        ensures
            expanded_directory(*old(self), path, has_handle, *final(self), r),
    {
        if self.expanded_paths.contains(path.as_str()) {
            return TreeRequest::Done;
        }
        if self.tree_entries.get(path.as_str()).is_some() {
            self.expanded_paths.insert(path);
            return TreeRequest::Done;
        }
        if !has_handle {
            return TreeRequest::Done;
        }
        let request_id: u64 = self.begin_tree_request(path.clone());
        TreeRequest::Send { request_id, path }
    }
}

/// To show the directory `path` in the tree, its listing has to be asked for, and can be.
pub open spec fn must_ask_for(
    browser: SftpBrowserState,
    path: Seq<char>,
    has_handle: bool,
) -> bool {
    &&& !browser.expanded_paths@.contains(path)
    &&& table_get(browser.tree_entries@, path) is None
    &&& has_handle
}

/// What becomes of a browser whose directory `path` is to be shown in the tree.
pub open spec fn expanded_directory(
    before: SftpBrowserState,
    path: String,
    has_handle: bool,
    after: SftpBrowserState,
    request: TreeRequest,
) -> bool {
    if before.expanded_paths@.contains(path@) {
        request == TreeRequest::Done && after == before
    } else if table_get(before.tree_entries@, path@) is Some {
        &&& request == TreeRequest::Done
        &&& after == (SftpBrowserState { expanded_paths: after.expanded_paths, ..before })
        &&& after.expanded_paths@ == before.expanded_paths@.insert(path@)
    } else if !has_handle {
        request == TreeRequest::Done && after == before
    } else {
        &&& request == (TreeRequest::Send { request_id: before.next_request_id, path })
        &&& tree_requested(before, path, after)
    }
}

/// A file that was just read is unchanged, exactly when its line endings are of one kind: of
/// mixed ones, saving would make one kind. A file that cannot be edited or is not text is never
/// changed.
pub proof fn fresh_file_is_clean(before: SftpFileState, file: RemoteFile, after: SftpFileState)
    requires
        file_after_read(before, file, after),
        before.editable,
        is_text(file.contents@),
    ensures
        after.dirty() <==> !uniform_lines(
            decode_utf8(crate::text_format::text_bytes(file.contents@)),
        ),
{
    encode_after_decode(file.contents@);
}

/// A file that was just written is unchanged.
pub proof fn saved_file_is_clean(file: SftpFileState, contents: Seq<u8>)
    requires
        file.edited() == Some(contents),
        file.original_contents@ == contents,
    ensures
        !file.dirty(),
{
}

impl<S> Session<S> {
    /// The browser at a place.
    pub open spec fn browser(self, placement: SftpBrowserPlacement) -> SftpBrowserState {
        match placement {
            SftpBrowserPlacement::Center => self.sftp,
            SftpBrowserPlacement::Sidebar => self.sidebar_sftp,
        }
    }

    /// The session with another browser at a place.
    pub open spec fn with_browser(
        self,
        placement: SftpBrowserPlacement,
        browser: SftpBrowserState,
    ) -> Self {
        match placement {
            SftpBrowserPlacement::Center => Session { sftp: browser, ..self },
            SftpBrowserPlacement::Sidebar => Session { sidebar_sftp: browser, ..self },
        }
    }

    /// The directory that the remote shell is in, as far as it is known.
    pub open spec fn shell_directory(self) -> Seq<char> {
        match self.terminal {
            Some(terminal) => match terminal.remote_cwd {
                Some(path) => path@,
                None => "."@,
            },
            None => "."@,
        }
    }

    /// The connection stands, and its files cannot be browsed or it is not known whether they can.
    pub open spec fn browsing_blocked(self) -> bool {
        self.connection_state == SessionState::Connected && self.sftp_availability
            != SftpAvailability::Available
    }

    /// The connection stands and its worker can be spoken to.
    pub open spec fn can_ask(self) -> bool {
        self.connection_state == SessionState::Connected && self.has_handle
    }

    /// The browser at a place.
    pub fn sftp_browser(&self, placement: SftpBrowserPlacement) -> (r: &SftpBrowserState)
        ensures
            *r == self.browser(placement),
    {
        match placement {
            SftpBrowserPlacement::Center => &self.sftp,
            SftpBrowserPlacement::Sidebar => &self.sidebar_sftp,
        }
    }

    /// The browser at a place, to be changed.
    pub fn sftp_browser_mut(&mut self, placement: SftpBrowserPlacement) -> (r:
        &mut SftpBrowserState)
        ensures
            *r == old(self).browser(placement),
            *final(self) == old(self).with_browser(placement, *final(r)),
    {
        match placement {
            SftpBrowserPlacement::Center => &mut self.sftp,
            SftpBrowserPlacement::Sidebar => &mut self.sidebar_sftp,
        }
    }

    /// The directory that the remote shell is in, as far as it is known.
    pub fn shell_cwd(&self) -> (r: String)
        ensures
            r@ == self.shell_directory(),
    {
        match &self.terminal {
            Some(terminal) => match &terminal.remote_cwd {
                Some(path) => path.clone(),
                None => ".".to_owned(),
            },
            None => ".".to_owned(),
        }
    }

    /// The files can be browsed.
    fn is_available(&self) -> (r: bool)
        ensures
            r == (self.sftp_availability == SftpAvailability::Available),
    {
        match &self.sftp_availability {
            SftpAvailability::Available => true,
            _ => false,
        }
    }

    /// The directory to ask for when a browser comes into sight, where there is one.
    pub open spec fn directory_to_show(self, placement: SftpBrowserPlacement) -> Option<Seq<char>> {
        if !self.browsing_blocked() && (placement == SftpBrowserPlacement::Sidebar
            || self.sftp.file is None) && self.browser(placement).needs(self.shell_directory()) {
            Some(self.shell_directory())
        } else {
            None
        }
    }

    /// The directory to ask for when a browser comes into sight: the shell's, unless it is shown
    /// or waited for, a file is open in the center, or the files cannot be browsed.
    pub fn ensure_sftp_directory(&self, placement: SftpBrowserPlacement) -> (r: Option<String>)
        ensures
            opt_view(r) == self.directory_to_show(placement),
    {
        if self.connection_state == SessionState::Connected && !self.is_available() {
            return None;
        }
        let path = self.shell_cwd();
        let editor_closed = placement == SftpBrowserPlacement::Sidebar || self.sftp.file.is_none();
        if editor_closed && self.sftp_browser(placement).needs_request(path.as_str()) {
            Some(path)
        } else {
            None
        }
    }

    /// Asks for a directory.
    pub fn request_sftp_directory(
        &mut self,
        placement: SftpBrowserPlacement,
        path: String,
        connect_first: String,
    ) -> (r: DirectoryRequest)
        requires
            !old(self).browsing_blocked() && old(self).can_ask() ==> old(self).browser(
                placement,
            ).next_request_id < u64::MAX,
        ensures
            asked_for_directory(*old(self), placement, path, connect_first, *final(self), r),
    {
        if self.connection_state == SessionState::Connected && !self.is_available() {
            self.sftp_browser_mut(placement).loading = false;
            return DirectoryRequest::Blocked;
        }
        if self.connection_state != SessionState::Connected || !self.has_handle {
            let browser = self.sftp_browser_mut(placement);
            browser.loading = false;
            let generation: u64 = browser.set_error(connect_first);
            return DirectoryRequest::NotConnected { generation };
        }
        let request_id: u64 = self.sftp_browser_mut(placement).begin_request(path.clone());
        DirectoryRequest::Send { request_id, path }
    }

    /// The directory to ask for to show a browser's directory anew.
    pub fn refresh_path(&self, placement: SftpBrowserPlacement) -> (r: String)
        ensures
            r == self.browser(placement).path,
    {
        self.sftp_browser(placement).path.clone()
    }

    /// The directory to ask for to go up.
    pub fn open_parent_remote_directory(&self, placement: SftpBrowserPlacement) -> (r: Option<
        String,
    >)
        ensures
            opt_view(r) == parent_path(self.browser(placement).path@),
    {
        remote_parent_path(self.sftp_browser(placement).path.as_str())
    }

    /// Opens a file in the center browser; the request to send, none where there is no connection.
    pub fn open_remote_file(&mut self, path: String, editable: bool) -> (r: Option<(u64, String)>)
        requires
            old(self).can_ask() ==> old(self).sftp.next_request_id < u64::MAX,
        ensures
            file_opened(*old(self), path, editable, *final(self), r),
    {
        if self.connection_state != SessionState::Connected || !self.has_handle {
            return None;
        }
        let request_id: u64 = self.sftp.begin_file_request(path.clone(), editable);
        Some((request_id, path))
    }

    /// What the open file would be saved as: none where there is no connection, no open file that
    /// can be edited, where it is being read or written, or where it is unchanged.
    pub open spec fn contents_to_save(self) -> Option<Seq<u8>> {
        match self.sftp.file {
            Some(file) => if self.can_ask() && !file.loading && !file.saving && file.dirty() {
                file.edited()
            } else {
                None
            },
            None => None,
        }
    }

    /// Saves the open file. `limit` is the largest size that can be written; `too_large` is what
    /// the open file says where it is larger.
    pub fn save_remote_file(&mut self, limit: usize, too_large: String) -> (r: SaveRequest)
        requires
            old(self).contents_to_save() matches Some(edited) && edited.len() <= limit ==> old(
                self,
            ).sftp.next_request_id < u64::MAX,
        ensures
            save_requested(*old(self), limit, too_large, *final(self), r),
    {
        if self.connection_state != SessionState::Connected || !self.has_handle {
            return SaveRequest::Nothing;
        }
        let (path, expected_contents, contents) = match &self.sftp.file {
            None => {
                return SaveRequest::Nothing;
            },
            Some(file) => match file.edited_contents() {
                None => {
                    return SaveRequest::Nothing;
                },
                Some(contents) => {
                    if file.loading || file.saving || crate::browser::bytes_eq(
                        &contents,
                        &file.original_contents,
                    ) {
                        return SaveRequest::Nothing;
                    }
                    (file.path.clone(), clone_bytes(&file.original_contents), contents)
                },
            },
        };
        if contents.len() > limit {
            if let Some(file) = self.sftp.file.as_mut() {
                file.error = Some(too_large);
            }
            return SaveRequest::TooLarge;
        }
        match self.sftp.begin_file_save() {
            Some(request_id) => SaveRequest::Send { request_id, path, expected_contents, contents },
            None => SaveRequest::Nothing,
        }
    }

    /// The remote directory that chosen local files go to: the browser's, or, where files can only
    /// be uploaded one by one, the shell's.
    pub fn upload_directory(&self, placement: SftpBrowserPlacement) -> (r: String)
        ensures
            r@ == match self.sftp_availability {
                SftpAvailability::ScpOnly(_) => self.shell_directory(),
                _ => self.browser(placement).path@,
            },
    {
        match &self.sftp_availability {
            SftpAvailability::ScpOnly(_) => self.shell_cwd(),
            _ => self.sftp_browser(placement).path.clone(),
        }
    }
}

/// What opening a file in the center browser comes to.
pub open spec fn file_opened<S>(
    before: Session<S>,
    path: String,
    editable: bool,
    after: Session<S>,
    r: Option<(u64, String)>,
) -> bool {
    if before.can_ask() {
        &&& r == Some((before.sftp.next_request_id, path))
        &&& file_requested(before.sftp, path, editable, after.sftp)
        &&& after == (Session { sftp: after.sftp, ..before })
    } else {
        r is None && after == before
    }
}

/// What saving the open file comes to.
pub open spec fn save_requested<S>(
    before: Session<S>,
    limit: usize,
    too_large: String,
    after: Session<S>,
    r: SaveRequest,
) -> bool {
    match (before.contents_to_save(), before.sftp.file) {
        (Some(edited), Some(file)) => if edited.len() > limit {
            &&& r == SaveRequest::TooLarge
            &&& after == (Session {
                sftp: SftpBrowserState {
                    file: Some(SftpFileState { error: Some(too_large), ..file }),
                    ..before.sftp
                },
                ..before
            })
        } else {
            &&& r matches SaveRequest::Send { request_id, path, expected_contents, contents }
                && request_id == before.sftp.next_request_id && path == file.path
                && expected_contents@ == file.original_contents@ && contents@ == edited
            &&& after == (Session {
                sftp: SftpBrowserState {
                    next_request_id: (before.sftp.next_request_id + 1) as u64,
                    file: Some(
                        SftpFileState {
                            saving: true,
                            error: None,
                            write_request_id: Some(before.sftp.next_request_id),
                            ..file
                        },
                    ),
                    ..before.sftp
                },
                ..before
            })
        },
        _ => r == SaveRequest::Nothing && after == before,
    }
}

/// What asking for a directory comes to: nothing where the files cannot be browsed; an error where
/// there is no connection; else a request.
pub open spec fn asked_for_directory<S>(
    before: Session<S>,
    placement: SftpBrowserPlacement,
    path: String,
    connect_first: String,
    after: Session<S>,
    request: DirectoryRequest,
) -> bool {
    let browser = before.browser(placement);
    if before.browsing_blocked() {
        &&& request == DirectoryRequest::Blocked
        &&& after == before.with_browser(
            placement,
            SftpBrowserState { loading: false, ..browser },
        )
    } else if !before.can_ask() {
        let shown = SftpBrowserState { loading: false, ..browser }.with_error(connect_first);
        &&& request == (DirectoryRequest::NotConnected { generation: shown.error_generation })
        &&& after == before.with_browser(placement, shown)
    } else {
        &&& request == (DirectoryRequest::Send { request_id: browser.next_request_id, path })
        &&& after == before.with_browser(placement, after.browser(placement))
        &&& requested(browser, path, after.browser(placement))
    }
}

/// Being the session `id`.
pub open spec fn has_session_id<S>(id: SessionId) -> spec_fn(Session<S>) -> bool {
    |session: Session<S>| session.id == id
}

/// The position of the session `id`; the number of sessions where there is none.
pub open spec fn session_position<S>(sessions: Seq<Session<S>>, id: SessionId) -> int {
    first_index(sessions, has_session_id::<S>(id))
}

/// There is a session `id`.
pub open spec fn has_session<S>(sessions: Seq<Session<S>>, id: SessionId) -> bool {
    0 <= session_position(sessions, id) < sessions.len()
}

/// The position of the session `id`.
pub fn find_session<S>(sessions: &Vec<Session<S>>, id: SessionId) -> (r: Option<usize>)
    ensures
        match r {
            Some(i) => i == session_position(sessions@, id) && has_session(sessions@, id)
                && sessions@[i as int].id == id,
            None => !has_session(sessions@, id),
        },
{
    let mut i: usize = 0;
    while i < sessions.len()
        invariant
            i <= sessions@.len(),
            forall|k: int| 0 <= k < i ==> (#[trigger] sessions@[k]).id != id,
        decreases sessions@.len() - i,
    {
        if sessions[i].id == id {
            proof {
                first_index_is(sessions@, has_session_id::<S>(id), i as int);
            }
            return Some(i);
        }
        i = i + 1;
    }
    proof {
        first_index_is(sessions@, has_session_id::<S>(id), i as int);
    }
    None
}

/// A file is sent to be written only over a connection that stands, while it is neither read nor
/// written, and only where the editor holds something else than the file. What is sent is what the
/// editor holds, to the file's own path, on the condition that the file still holds what was read.
/// The editor keeps its text, and what counts as the file's contents does not change yet.
pub proof fn save_sends_what_was_edited<S>(
    before: Session<S>,
    limit: usize,
    too_large: String,
    after: Session<S>,
    r: SaveRequest,
)
    requires
        save_requested(before, limit, too_large, after, r),
        before.sftp.next_request_id < u64::MAX,
    ensures
        r matches SaveRequest::Send { request_id, path, expected_contents, contents } ==> {
            &&& before.connection_state == SessionState::Connected && before.has_handle
            &&& before.sftp.file is Some && after.sftp.file is Some
            &&& before.sftp.file->0.editable && before.sftp.file->0.editor is Some
            &&& !before.sftp.file->0.loading && !before.sftp.file->0.saving
            &&& request_id == before.sftp.next_request_id
            &&& path == before.sftp.file->0.path
            &&& expected_contents@ == before.sftp.file->0.original_contents@
            &&& contents@ != expected_contents@
            &&& contents@.len() <= limit
            &&& before.sftp.file->0.edited() == Some(contents@)
            &&& after.sftp.file->0.saving
            &&& after.sftp.file->0.write_request_id == Some(request_id)
            &&& after.sftp.next_request_id == request_id + 1
        },
        r is TooLarge ==> after.sftp.file is Some && after.sftp.file->0.error == Some(too_large)
            && !after.sftp.file->0.saving,
        r is Nothing ==> after == before,
        before.sftp.file matches Some(file) ==> {
            &&& after.sftp.file is Some
            &&& after.sftp.file->0.path == file.path
            &&& after.sftp.file->0.editor == file.editor
            &&& after.sftp.file->0.original_contents == file.original_contents
            &&& after.sftp.file->0.text_format == file.text_format
            &&& before.connection_state == SessionState::Connected && before.has_handle
                && !file.loading && !file.saving && file.edited() is Some && file.edited()->0
                != file.original_contents@ ==> (r is Send <==> file.edited()->0.len() <= limit) && (
            r is TooLarge <==> file.edited()->0.len() > limit)
        },
        after.sftp.entries == before.sftp.entries,
        after.sidebar_sftp == before.sidebar_sftp,
        after.transfers == before.transfers,
{
}

/// Only a file whose text differs from what was read stays open when it is to be closed, with its
/// text and a word on why; any other is closed.
pub proof fn changed_file_is_not_closed(before: SftpBrowserState, save_first: String)
    ensures
        before.file is None ==> closed(before, save_first).file is None,
        before.file matches Some(file) ==> {
            &&& (file.edited() is None || file.edited()->0 == file.original_contents@) ==> closed(
                before,
                save_first,
            ).file is None
            &&& file.edited() is Some && file.edited()->0 != file.original_contents@ ==> {
                &&& closed(before, save_first).file is Some
                &&& closed(before, save_first).file->0.editor == file.editor
                &&& closed(before, save_first).file->0.original_contents == file.original_contents
                &&& closed(before, save_first).file->0.error == Some(save_first)
            }
        },
        closed(before, save_first).path == before.path,
        closed(before, save_first).entries == before.entries,
{
}

/// Reverting puts back the text that was read, so that nothing is left to save where the lines of
/// the file end in one way; nothing but the editor and the error changes.
pub proof fn reverted_file_is_as_read(before: SftpBrowserState, after: SftpBrowserState)
    requires
        reverted(before, after),
        before.file is Some,
    ensures
        after.file is Some,
        after.file->0.error is None,
        after.file->0.original_contents == before.file->0.original_contents,
        after.file->0.path == before.file->0.path,
        after.file->0.editor is Some <==> before.file->0.editor is Some,
        before.file->0.editor is Some && is_text(before.file->0.original_contents@)
            && before.file->0.text_format == Some(decoded(before.file->0.original_contents@).0)
            && uniform_lines(
            decode_utf8(crate::text_format::text_bytes(before.file->0.original_contents@)),
        ) ==> !after.file->0.dirty(),
        after.entries == before.entries,
{
    if is_text(before.file->0.original_contents@) {
        encode_after_decode(before.file->0.original_contents@);
    }
}

/// A click on a directory's disclosure hides what is shown below it, and shows what is known;
/// where nothing is known yet, the listing is asked for once, over a worker that can be spoken to.
/// No other directory of the tree is shown or hidden by it.
pub proof fn disclosure_shows_or_hides(
    before: SftpBrowserState,
    path: String,
    has_handle: bool,
    after: SftpBrowserState,
    request: TreeRequest,
    other: Seq<char>,
)
    requires
        toggled_directory(before, path, has_handle, after, request),
        must_ask_for(before, path@, has_handle) ==> before.next_request_id < u64::MAX,
    ensures
        before.expanded_paths@.contains(path@) ==> !after.expanded_paths@.contains(path@)
            && request is Done,
        !before.expanded_paths@.contains(path@) && table_get(before.tree_entries@, path@) is Some
            ==> after.expanded_paths@.contains(path@) && request is Done,
        request is Send <==> !before.expanded_paths@.contains(path@) && table_get(
            before.tree_entries@,
            path@,
        ) is None && has_handle,
        request matches TreeRequest::Send { request_id, path: asked } ==> asked == path
            && request_id == before.next_request_id && after.tree_requests@.contains_key(request_id)
            && after.tree_requests@[request_id]@ == path@ && after.next_request_id == request_id
            + 1,
        other != path@ ==> (after.expanded_paths@.contains(other)
            <==> before.expanded_paths@.contains(other)),
        after.entries == before.entries,
        after.path == before.path,
        after.tree_entries == before.tree_entries,
        after.selected_paths == before.selected_paths,
{
}

/// A directory is asked for only over a connection that stands and whose files can be browsed. It
/// is asked for once, by the browser that wants it; where there is no connection, that browser
/// says so.
pub proof fn directory_is_asked_for_when_it_can_be<S>(
    before: Session<S>,
    placement: SftpBrowserPlacement,
    path: String,
    connect_first: String,
    after: Session<S>,
    request: DirectoryRequest,
)
    requires
        asked_for_directory(before, placement, path, connect_first, after, request),
    ensures
        request is Send <==> before.connection_state == SessionState::Connected && before.has_handle
            && before.sftp_availability is Available,
        request is Blocked <==> before.connection_state == SessionState::Connected
            && !(before.sftp_availability is Available),
        request matches DirectoryRequest::Send { request_id, path: asked } ==> {
            &&& asked == path
            &&& placement == SftpBrowserPlacement::Center ==> request_id
                == before.sftp.next_request_id && after.sftp.active_request_id == Some(request_id)
                && after.sftp.active_request_path == Some(path) && after.sftp.loading
            &&& placement == SftpBrowserPlacement::Sidebar ==> request_id
                == before.sidebar_sftp.next_request_id && after.sidebar_sftp.active_request_id
                == Some(request_id) && after.sidebar_sftp.active_request_path == Some(path)
                && after.sidebar_sftp.loading
        },
        request is NotConnected && placement == SftpBrowserPlacement::Center ==> after.sftp.error
            == Some(connect_first) && !after.sftp.loading,
        request is NotConnected && placement == SftpBrowserPlacement::Sidebar
            ==> after.sidebar_sftp.error == Some(connect_first) && !after.sidebar_sftp.loading,
        placement == SftpBrowserPlacement::Center ==> after.sidebar_sftp == before.sidebar_sftp,
        placement == SftpBrowserPlacement::Sidebar ==> after.sftp == before.sftp,
        after.connection_state == before.connection_state,
        after.transfers == before.transfers,
{
}

/// A file is opened only over a connection that stands; then its contents are asked for, and
/// otherwise nothing changes.
pub proof fn file_is_opened_when_it_can_be<S>(
    before: Session<S>,
    path: String,
    editable: bool,
    after: Session<S>,
    r: Option<(u64, String)>,
)
    requires
        file_opened(before, path, editable, after, r),
    ensures
        r is Some <==> before.connection_state == SessionState::Connected && before.has_handle,
        r is None ==> after == before,
        r matches Some((id, asked)) ==> asked == path && id == before.sftp.next_request_id && (
        after.sftp.file matches Some(file) && file.path == path && file.editable == editable
            && file.read_request_id == Some(id)),
        after.sidebar_sftp == before.sidebar_sftp,
        after.transfers == before.transfers,
{
}

/// A browser that comes into sight goes to the directory that the remote shell is in, or to the
/// login directory while that is not known; not where it shows or waits for that directory
/// already, not while a file is open in the center, and not over a connection without browsing.
pub proof fn browser_follows_the_shell<S>(session: Session<S>, placement: SftpBrowserPlacement)
    ensures
        session.directory_to_show(placement) matches Some(path) ==> {
            &&& session.terminal is Some && session.terminal->0.remote_cwd is Some ==> path
                == session.terminal->0.remote_cwd->0@
            &&& session.terminal is None || session.terminal->0.remote_cwd is None ==> path == "."@
            &&& session.connection_state == SessionState::Connected
                ==> session.sftp_availability is Available
            &&& placement == SftpBrowserPlacement::Center ==> session.sftp.file is None
                && opt_view(session.sftp.active_request_path) != Some(path) && opt_view(
                session.sftp.resolved_source_path,
            ) != Some(path)
            &&& placement == SftpBrowserPlacement::Sidebar ==> opt_view(
                session.sidebar_sftp.active_request_path,
            ) != Some(path) && opt_view(session.sidebar_sftp.resolved_source_path) != Some(path)
        },
        session.sftp_availability is Available && session.sidebar_sftp.active_request_path is None
            && session.sidebar_sftp.resolved_source_path is None ==> session.directory_to_show(
            SftpBrowserPlacement::Sidebar,
        ) is Some,
        session.sftp_availability is Available && session.sftp.active_request_path is None
            && session.sftp.resolved_source_path is None && session.sftp.file is None
            ==> session.directory_to_show(SftpBrowserPlacement::Center) is Some,
{
}

} // verus!
