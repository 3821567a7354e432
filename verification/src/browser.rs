//! One browser of a session's remote files: what it shows, what it waits for, what is selected.
use crate::path_tables::{
    entries_left, entry_has_path, has_key, inserted_listing_is_found, is_removed,
    removal_leaves_the_rest, retain_entries, table_entries, table_get, table_insert, table_left,
    PathMap,
};
use crate::remote_files::{RemoteDirectory, RemoteFileEntry};
use crate::remote_path::{
    breadcrumbs, descendant_transitive, is_descendant, is_name, join_is_below, join_path,
    remote_breadcrumbs,
};
use crate::sequences::{
    any_where, count_where, count_where_bound, count_where_less, filter_is_exact, first_index,
    first_index_is, first_index_properties, first_where, first_where_append,
};
use crate::text::{
    contains_text, filter_push, opt_text_is, opt_view, position_of_text, text_eq, trim_end_char,
    trim_end_char_properties, views, views_push,
};
use crate::text_format::{encoded, RemoteTextFormat};
use std::collections::HashMap;
use std::path::PathBuf;
use crate::text_set::TextSet;
use vstd::prelude::*;
use vstd::string::*;

verus! {

broadcast use vstd::std_specs::hash::group_hash_axioms;

/// The first request number of sidebar browsers; those of center browsers are below.
pub const SIDEBAR_SFTP_REQUEST_ID_START: u64 = 0x8000_0000_0000_0000;

/// How long an error hint stays, in seconds.
pub const SFTP_ERROR_HINT_SECONDS: u64 = 3;

/// Where a browser stands.
#[derive(Clone, Copy, Debug, PartialEq, Eq, Structural)]
pub enum SftpBrowserPlacement {
    Center,
    Sidebar,
}

impl SftpBrowserPlacement {
    /// What the names of this browser's elements end in.
    pub fn element_suffix(self) -> (r: &'static str)
        ensures
            r@ == match self {
                SftpBrowserPlacement::Center => "center"@,
                SftpBrowserPlacement::Sidebar => "sidebar"@,
            },
    {
        match self {
            SftpBrowserPlacement::Center => "center",
            SftpBrowserPlacement::Sidebar => "sidebar",
        }
    }
}

/// The browser that a request number belongs to.
pub open spec fn placement_of_request(request_id: u64) -> SftpBrowserPlacement {
    if request_id >= SIDEBAR_SFTP_REQUEST_ID_START {
        SftpBrowserPlacement::Sidebar
    } else {
        SftpBrowserPlacement::Center
    }
}

/// The browser that a request number belongs to.
pub fn sftp_browser_placement_for_request(request_id: u64) -> (r: SftpBrowserPlacement)
    ensures
        r == placement_of_request(request_id),
{
    if request_id >= SIDEBAR_SFTP_REQUEST_ID_START {
        SftpBrowserPlacement::Sidebar
    } else {
        SftpBrowserPlacement::Center
    }
}

/// What can be done with a session's remote files.
#[derive(Debug, PartialEq, Eq)]
pub enum SftpAvailability {
    Checking,
    Available,
    Unavailable(String),
    /// Files can only be uploaded, one by one.
    ScpOnly(String),
}

impl Default for SftpAvailability {
    fn default() -> (r: Self)
        ensures
            r == SftpAvailability::Checking,
    {
        SftpAvailability::Checking
    }
}

/// What the server is asked to do with files.
#[derive(Clone, Copy, Debug, PartialEq, Eq, Structural)]
pub enum SftpOperation {
    ReadDirectory,
    ReadDirectoryTree,
    ReadFile,
    WriteFile,
    CreateFile,
    CreateDirectory,
    DeletePaths,
    UploadFile,
    DownloadFile,
    CancelTransfer,
}

/// The keys held during a click, as far as a selection depends on them. `secondary` is the command
/// key on macOS and the control key elsewhere.
#[derive(Clone, Copy, Debug, PartialEq, Eq, Structural)]
pub struct Modifiers {
    pub shift: bool,
    pub secondary: bool,
}

impl Default for Modifiers {
    fn default() -> (r: Self)
        ensures
            r == (Modifiers { shift: false, secondary: false }),
    {
        Modifiers { shift: false, secondary: false }
    }
}

/// One line of the list of files.
#[derive(Debug, PartialEq, Eq)]
pub struct SftpTreeRow {
    pub entry: RemoteFileEntry,
    pub depth: usize,
}

/// The entries and depths of a list of lines.
pub open spec fn row_views(rows: Seq<SftpTreeRow>) -> Seq<(RemoteFileEntry, nat)> {
    rows.map_values(|row: SftpTreeRow| (row.entry, row.depth as nat))
}

/// A directory whose contents were asked for in order to download them.
#[derive(Debug, PartialEq, Eq)]
pub struct PendingSftpDownloadTree {
    pub destination: PathBuf,
    pub batch_id: u64,
}

/// A remote file that is open. `editor` is the text in the editor, where there is one.
#[derive(Debug, PartialEq, Eq)]
pub struct SftpFileState {
    pub path: String,
    pub original_contents: Vec<u8>,
    pub editor: Option<String>,
    pub text_format: Option<RemoteTextFormat>,
    pub loading: bool,
    pub saving: bool,
    pub error: Option<String>,
    pub editable: bool,
    pub read_request_id: Option<u64>,
    pub write_request_id: Option<u64>,
}

impl SftpFileState {
    /// The bytes that saving would write: none for a file that cannot be edited or is not text.
    pub open spec fn edited(self) -> Option<Seq<u8>> {
        match (self.editable, self.editor, self.text_format) {
            (true, Some(text), Some(format)) => Some(encoded(format, text@)),
            _ => None,
        }
    }

    /// The editor holds something else than the file.
    pub open spec fn dirty(self) -> bool {
        match self.edited() {
            Some(contents) => contents != self.original_contents@,
            None => false,
        }
    }

    /// The editor holds something else than the file.
    pub fn is_dirty(&self) -> (r: bool)
        ensures
            r == self.dirty(),
    {
        match self.edited_contents() {
            Some(contents) => !bytes_eq(&contents, &self.original_contents),
            None => false,
        }
    }

    /// The bytes that saving would write.
    pub fn edited_contents(&self) -> (r: Option<Vec<u8>>)
        ensures
            match r {
                Some(contents) => self.edited() == Some(contents@),
                None => self.edited() is None,
            },
    {
        if !self.editable {
            return None;
        }
        match (&self.editor, self.text_format) {
            (Some(text), Some(format)) => Some(format.encode(text.as_str())),
            _ => None,
        }
    }
}

/// Two runs of bytes are the same.
pub fn bytes_eq(a: &Vec<u8>, b: &Vec<u8>) -> (r: bool)
    ensures
        r == (a@ == b@),
{
    if a.len() != b.len() {
        return false;
    }
    let mut i: usize = 0;
    while i < a.len()
        invariant
            i <= a@.len(),
            a@.len() == b@.len(),
            forall|j: int| 0 <= j < i ==> a@[j] == b@[j],
        decreases a@.len() - i,
    {
        if a[i] != b[i] {
            return false;
        }
        i = i + 1;
    }
    assert(a@ =~= b@);
    true
}

/// The browser's state. `list_scroll_epoch` changes when the list goes back to its top;
/// `breadcrumb_scroll_item` is the element of the breadcrumbs that was last brought into sight.
#[derive(Debug)]
pub struct SftpBrowserState {
    pub path: String,
    pub entries: Vec<RemoteFileEntry>,
    pub file: Option<SftpFileState>,
    pub loading: bool,
    pub loaded: bool,
    pub error: Option<String>,
    pub next_request_id: u64,
    pub active_request_id: Option<u64>,
    pub active_request_path: Option<String>,
    pub resolved_source_path: Option<String>,
    pub tree_entries: PathMap,
    pub expanded_paths: TextSet,
    pub tree_requests: HashMap<u64, String>,
    pub pending_download_trees: HashMap<u64, PendingSftpDownloadTree>,
    pub selected_paths: Vec<String>,
    pub selection_anchor: Option<String>,
    pub list_scroll_epoch: u64,
    pub breadcrumb_scroll_item: Option<usize>,
    pub error_generation: u64,
}

/// The listing shown below the line of `path`: that of an expanded directory.
pub open spec fn children_of(
    expanded: Set<Seq<char>>,
    tree: Seq<(Seq<char>, Seq<RemoteFileEntry>)>,
    path: Seq<char>,
) -> Option<Seq<RemoteFileEntry>> {
    if expanded.contains(path) {
        table_get(tree, path)
    } else {
        None
    }
}

/// Expansion below `entries` comes to an end within `levels` levels.
pub open spec fn settles(
    expanded: Set<Seq<char>>,
    tree: Seq<(Seq<char>, Seq<RemoteFileEntry>)>,
    entries: Seq<RemoteFileEntry>,
    levels: nat,
) -> bool
    decreases levels,
{
    forall|i: int|
        0 <= i < entries.len() ==> match children_of(
            expanded,
            tree,
            (#[trigger] entries[i]).path@,
        ) {
            Some(children) => levels > 0 && settles(expanded, tree, children, (levels - 1) as nat),
            None => true,
        }
}

/// The lines of `entries` at `depth`, each followed by the lines of what is expanded below it, for
/// `levels` levels.
pub open spec fn flatten(
    expanded: Set<Seq<char>>,
    tree: Seq<(Seq<char>, Seq<RemoteFileEntry>)>,
    entries: Seq<RemoteFileEntry>,
    depth: nat,
    levels: nat,
) -> Seq<(RemoteFileEntry, nat)>
    decreases levels, entries.len(),
{
    if entries.len() == 0 {
        Seq::empty()
    } else {
        let before = flatten(expanded, tree, entries.drop_last(), depth, levels);
        let line = before.push((entries.last(), depth));
        match children_of(expanded, tree, entries.last().path@) {
            Some(children) => if levels > 0 {
                line + flatten(expanded, tree, children, depth + 1, (levels - 1) as nat)
            } else {
                line
            },
            None => line,
        }
    }
}

/// `base` with each of `paths` that it lacks added at its end.
pub open spec fn add_missing(base: Seq<Seq<char>>, paths: Seq<Seq<char>>) -> Seq<Seq<char>>
    decreases paths.len(),
{
    if paths.len() == 0 {
        base
    } else {
        let before = add_missing(base, paths.drop_last());
        if before.contains(paths.last()) {
            before
        } else {
            before.push(paths.last())
        }
    }
}

/// The entries of `all` that `paths` name, in the order of `paths`; a name of nothing is skipped.
pub open spec fn named_entries(
    all: Seq<RemoteFileEntry>,
    paths: Seq<Seq<char>>,
) -> Seq<RemoteFileEntry>
    decreases paths.len(),
{
    if paths.len() == 0 {
        Seq::empty()
    } else {
        let before = named_entries(all, paths.drop_last());
        match first_where(all, entry_has_path(paths.last())) {
            Some(entry) => before.push(entry),
            None => before,
        }
    }
}

/// Being `path`.
pub open spec fn is_path(path: Seq<char>) -> spec_fn(Seq<char>) -> bool {
    |p: Seq<char>| p == path
}

/// The position of `path` in `paths`; the length where it is not there.
pub open spec fn path_position(paths: Seq<Seq<char>>, path: Seq<char>) -> int {
    first_index(paths, is_path(path))
}

/// The selection after a click on `path` among the visible `paths`, with what was selected before,
/// the anchor and the keys held: the paths that are selected then.
pub open spec fn selection_after(
    paths: Seq<Seq<char>>,
    path: Seq<char>,
    selected: Seq<Seq<char>>,
    anchor: Option<Seq<char>>,
    modifiers: Modifiers,
) -> Seq<Seq<char>> {
    let clicked = path_position(paths, path);
    if clicked == paths.len() {
        selected
    } else if modifiers.shift {
        let other = match anchor {
            Some(anchor) => if path_position(paths, anchor) < paths.len() {
                path_position(paths, anchor)
            } else {
                clicked
            },
            None => clicked,
        };
        let low = if other < clicked {
            other
        } else {
            clicked
        };
        let high = if other < clicked {
            clicked
        } else {
            other
        };
        add_missing(
            if modifiers.secondary {
                selected
            } else {
                Seq::empty()
            },
            paths.subrange(low, high + 1),
        )
    } else if modifiers.secondary {
        if selected.contains(path) {
            selected.remove(path_position(selected, path))
        } else {
            selected.push(path)
        }
    } else {
        seq![path]
    }
}

/// The element of `count` breadcrumbs with separators between them that stands last.
pub open spec fn last_breadcrumb_item(count: nat) -> int {
    let doubled = if 2 * count > usize::MAX {
        usize::MAX as int
    } else {
        2 * count as int
    };
    if doubled >= 2 {
        doubled - 2
    } else {
        0
    }
}

/// `after` is `before` with the directory `path` asked for under the next request number.
pub open spec fn requested(
    before: SftpBrowserState,
    path: String,
    after: SftpBrowserState,
) -> bool {
    &&& after == (SftpBrowserState {
        next_request_id: (before.next_request_id + 1) as u64,
        list_scroll_epoch: if !before.loaded || before.path@ != path@ {
            before.list_scroll_epoch.wrapping_add(1)
        } else {
            before.list_scroll_epoch
        },
        active_request_id: Some(before.next_request_id),
        active_request_path: Some(path),
        loading: true,
        error: None,
        error_generation: before.error_generation.wrapping_add(1),
        file: None,
        tree_entries: after.tree_entries,
        expanded_paths: after.expanded_paths,
        tree_requests: after.tree_requests,
        selected_paths: after.selected_paths,
        selection_anchor: None,
        ..before
    })
    &&& after.tree_entries@.len() == 0
    &&& after.expanded_paths@ == Set::<Seq<char>>::empty()
    &&& after.tree_requests@ == Map::<u64, String>::empty()
    &&& after.selected_paths@ == Seq::<String>::empty()
}

/// `after` is `before` after the answer to `request_id`: of an expanded directory, its listing is
/// shown below it; of the directory asked for, it is shown; of anything else, nothing changes.
pub open spec fn completed(
    before: SftpBrowserState,
    request_id: u64,
    directory: RemoteDirectory,
    after: SftpBrowserState,
) -> bool {
    if before.tree_requests@.contains_key(request_id) {
        &&& after == (SftpBrowserState {
            tree_requests: after.tree_requests,
            expanded_paths: after.expanded_paths,
            tree_entries: after.tree_entries,
            error: None,
            error_generation: before.error_generation.wrapping_add(1),
            ..before
        })
        &&& after.tree_requests@ == before.tree_requests@.remove(request_id)
        &&& after.expanded_paths@ == before.expanded_paths@.remove(
            before.tree_requests@[request_id]@,
        ).insert(directory.path@)
        &&& after.tree_entries@ == table_insert(
            before.tree_entries@,
            directory.path@,
            directory.entries@,
        )
    } else if before.active_request_id == Some(request_id) {
        after == (SftpBrowserState {
            path: directory.path,
            entries: directory.entries,
            loading: false,
            loaded: true,
            error: None,
            error_generation: before.error_generation.wrapping_add(1),
            active_request_id: None,
            active_request_path: None,
            resolved_source_path: before.active_request_path,
            breadcrumb_scroll_item: Some(
                last_breadcrumb_item(breadcrumbs(directory.path@).len()) as usize,
            ),
            ..before
        })
    } else {
        after == before
    }
}

/// `after` is `before` after `request_id` has failed: the error is shown, and what waited for the
/// answer no longer does; a failure that nobody waits for changes nothing.
pub open spec fn failed(
    before: SftpBrowserState,
    request_id: u64,
    error: String,
    after: SftpBrowserState,
) -> bool {
    if before.tree_requests@.contains_key(request_id) {
        &&& after == (SftpBrowserState {
            tree_requests: after.tree_requests,
            expanded_paths: after.expanded_paths,
            ..before.with_error(error)
        })
        &&& after.tree_requests@ == before.tree_requests@.remove(request_id)
        &&& after.expanded_paths@ == before.expanded_paths@.remove(
            before.tree_requests@[request_id]@,
        )
    } else if before.pending_download_trees@.contains_key(request_id) {
        &&& after == (SftpBrowserState {
            pending_download_trees: after.pending_download_trees,
            ..before.with_error(error)
        })
        &&& after.pending_download_trees@ == before.pending_download_trees@.remove(request_id)
    } else if before.active_request_id == Some(request_id) {
        &&& after == (SftpBrowserState {
            loading: false,
            active_request_id: None,
            active_request_path: None,
            tree_requests: after.tree_requests,
            pending_download_trees: after.pending_download_trees,
            ..before.with_error(error)
        })
        &&& after.tree_requests@ == Map::<u64, String>::empty()
        &&& after.pending_download_trees@ == Map::<u64, PendingSftpDownloadTree>::empty()
    } else {
        after == before
    }
}

/// `after` is `before` with the directory `path` expanded and its listing asked for under the next
/// request number.
pub open spec fn tree_requested(
    before: SftpBrowserState,
    path: String,
    after: SftpBrowserState,
) -> bool {
    &&& after == (SftpBrowserState {
        next_request_id: (before.next_request_id + 1) as u64,
        tree_requests: after.tree_requests,
        expanded_paths: after.expanded_paths,
        ..before.without_error()
    })
    &&& after.tree_requests@ == before.tree_requests@.insert(before.next_request_id, path)
    &&& after.expanded_paths@ == before.expanded_paths@.insert(path@)
}

/// `after` is `before` with `paths` and everything below them forgotten; of the selection, `paths`
/// alone.
pub open spec fn paths_removed(
    before: SftpBrowserState,
    paths: Seq<Seq<char>>,
    after: SftpBrowserState,
) -> bool {
    &&& after == (SftpBrowserState {
        selected_paths: after.selected_paths,
        tree_entries: after.tree_entries,
        entries: after.entries,
        ..before
    })
    &&& views(after.selected_paths@) == views(before.selected_paths@).filter(
        |selected: Seq<char>| !paths.contains(selected),
    )
    &&& after.tree_entries@ == table_left(before.tree_entries@, paths)
    &&& after.entries@ == entries_left(before.entries@, paths)
}

/// `after` is `before` with the file `path` open and its contents asked for under the next request
/// number.
pub open spec fn file_requested(
    before: SftpBrowserState,
    path: String,
    editable: bool,
    after: SftpBrowserState,
) -> bool {
    match after.file {
        Some(file) => {
            &&& file.original_contents@.len() == 0
            &&& file == (SftpFileState {
                path,
                original_contents: file.original_contents,
                editor: None,
                text_format: None,
                loading: true,
                saving: false,
                error: None,
                editable,
                read_request_id: Some(before.next_request_id),
                write_request_id: None,
            })
            &&& after == (SftpBrowserState {
                next_request_id: (before.next_request_id + 1) as u64,
                file: Some(file),
                ..before
            })
        },
        None => false,
    }
}

impl Default for SftpBrowserState {
    fn default() -> (r: Self)
        ensures
            r.is_new(1),
    {
        SftpBrowserState::with_request_id_start(1)
    }
}

impl SftpBrowserState {
    /// A browser that nothing has happened to yet.
    pub open spec fn is_new(self, next_request_id: u64) -> bool {
        &&& self.path@ == "."@
        &&& self.entries@.len() == 0
        &&& self.file is None
        &&& !self.loading
        &&& !self.loaded
        &&& self.error is None
        &&& self.next_request_id == next_request_id
        &&& self.active_request_id is None
        &&& self.active_request_path is None
        &&& self.resolved_source_path is None
        &&& self.tree_entries@.len() == 0
        &&& self.expanded_paths@ == Set::<Seq<char>>::empty()
        &&& self.tree_requests@ == Map::<u64, String>::empty()
        &&& self.pending_download_trees@ == Map::<u64, PendingSftpDownloadTree>::empty()
        &&& self.selected_paths@.len() == 0
        &&& self.selection_anchor is None
        &&& self.list_scroll_epoch == 0
        &&& self.breadcrumb_scroll_item is None
        &&& self.error_generation == 0
    }

    /// The answer to `request_id` is waited for.
    pub open spec fn waits_for(self, request_id: u64) -> bool {
        ||| self.active_request_id == Some(request_id)
        ||| self.tree_requests@.contains_key(request_id)
        ||| self.pending_download_trees@.contains_key(request_id)
        ||| self.file matches Some(file) && (file.read_request_id == Some(request_id)
            || file.write_request_id == Some(request_id))
    }

    /// A listing is waited for under `request_id`.
    pub open spec fn awaits_listing(self, request_id: u64) -> bool {
        self.tree_requests@.contains_key(request_id) || self.active_request_id == Some(request_id)
    }

    /// A listing or the contents of a directory to download are waited for under `request_id`.
    pub open spec fn awaits_failure(self, request_id: u64) -> bool {
        self.awaits_listing(request_id) || self.pending_download_trees@.contains_key(request_id)
    }

    /// The browser with an error shown.
    pub open spec fn with_error(self, error: String) -> Self {
        SftpBrowserState {
            error_generation: self.error_generation.wrapping_add(1),
            error: Some(error),
            ..self
        }
    }

    /// The browser with no error shown.
    pub open spec fn without_error(self) -> Self {
        SftpBrowserState {
            error_generation: self.error_generation.wrapping_add(1),
            error: None,
            ..self
        }
    }

    /// The requests that are waited for were numbered from `start` on, and those for listings have
    /// one waiter each.
    pub open spec fn requests_wf(self, start: u64) -> bool {
        &&& start <= self.next_request_id
        &&& forall|id: u64| #[trigger]
            self.tree_requests@.contains_key(id) ==> start <= id < self.next_request_id
                && !self.pending_download_trees@.contains_key(id)
        &&& forall|id: u64| #[trigger]
            self.pending_download_trees@.contains_key(id) ==> start <= id < self.next_request_id
        &&& self.active_request_id matches Some(id) ==> start <= id < self.next_request_id
            && !self.tree_requests@.contains_key(id) && !self.pending_download_trees@.contains_key(
            id,
        )
        &&& self.file matches Some(file) ==> {
            &&& file.read_request_id matches Some(id) ==> start <= id < self.next_request_id
            &&& file.write_request_id matches Some(id) ==> start <= id < self.next_request_id
        }
    }

    /// `path` is neither shown nor waited for.
    pub open spec fn needs(self, path: Seq<char>) -> bool {
        opt_view(self.active_request_path) != Some(path) && opt_view(self.resolved_source_path)
            != Some(path)
    }

    /// Every entry that the browser knows of: the listing, then the expanded directories'.
    pub open spec fn known_entries(self) -> Seq<RemoteFileEntry> {
        self.entries@ + table_entries(self.tree_entries@)
    }

    /// The entry with `path`.
    pub open spec fn entry_at(self, path: Seq<char>) -> Option<RemoteFileEntry> {
        first_where(self.known_entries(), entry_has_path(path))
    }

    /// The tree comes to an end: no directory is shown below itself.
    pub open spec fn tree_settles(self) -> bool {
        settles(
            self.expanded_paths@,
            self.tree_entries@,
            self.entries@,
            self.tree_entries@.len(),
        )
    }

    /// The lines of the list.
    pub open spec fn rows(self, tree: bool) -> Seq<(RemoteFileEntry, nat)> {
        if tree {
            flatten(
                self.expanded_paths@,
                self.tree_entries@,
                self.entries@,
                0,
                self.tree_entries@.len(),
            )
        } else {
            self.entries@.map_values(|entry: RemoteFileEntry| (entry, 0nat))
        }
    }

    /// The paths of the lines of the list.
    pub open spec fn row_paths(self, tree: bool) -> Seq<Seq<char>> {
        self.rows(tree).map_values(|row: (RemoteFileEntry, nat)| row.0.path@)
    }

    /// A browser that numbers its requests from `next_request_id`.
    pub fn with_request_id_start(next_request_id: u64) -> (r: Self)
        ensures
            r.is_new(next_request_id),
    {
        SftpBrowserState {
            path: ".".to_owned(),
            entries: Vec::new(),
            file: None,
            loading: false,
            loaded: false,
            error: None,
            next_request_id,
            active_request_id: None,
            active_request_path: None,
            resolved_source_path: None,
            tree_entries: PathMap::new(),
            expanded_paths: TextSet::new(),
            tree_requests: HashMap::new(),
            pending_download_trees: HashMap::new(),
            selected_paths: Vec::new(),
            selection_anchor: None,
            list_scroll_epoch: 0,
            breadcrumb_scroll_item: None,
            error_generation: 0,
        }
    }

    /// `path` is neither shown nor waited for.
    pub fn needs_request(&self, path: &str) -> (r: bool)
        ensures
            r == self.needs(path@),
    {
        !opt_text_is(&self.active_request_path, path) && !opt_text_is(
            &self.resolved_source_path,
            path,
        )
    }

    /// Asks for the directory `path`; the result is the request's number.
    pub fn begin_request(&mut self, path: String) -> (r: u64)
        requires
            old(self).next_request_id < u64::MAX,
        ensures
            r == old(self).next_request_id,
            requested(*old(self), path, *final(self)),
            forall|start: u64| #[trigger]
                old(self).requests_wf(start) ==> final(self).requests_wf(start),
    {
        let request_id: u64 = self.next_request_id;
        self.next_request_id = request_id + 1;
        if !self.loaded || !text_eq(self.path.as_str(), path.as_str()) {
            self.list_scroll_epoch = self.list_scroll_epoch.wrapping_add(1);
        }
        self.active_request_id = Some(request_id);
        self.active_request_path = Some(path);
        self.loading = true;
        self.clear_error();
        self.file = None;
        self.tree_entries.clear();
        self.expanded_paths.clear();
        self.tree_requests.clear();
        self.selected_paths.clear();
        self.selection_anchor = None;
        request_id
    }

    /// Takes in the answer to a request; an answer that nobody waits for changes nothing.
    pub fn complete_request(&mut self, request_id: u64, directory: RemoteDirectory) -> (r: bool)
        ensures
            r == old(self).awaits_listing(request_id),
            completed(*old(self), request_id, directory, *final(self)),
            forall|start: u64| #[trigger]
                old(self).requests_wf(start) ==> final(self).requests_wf(start),
    {
        if self.tree_requests.contains_key(&request_id) {
            match self.tree_requests.remove(&request_id) {
                Some(requested_path) => {
                    self.expanded_paths.remove(requested_path.as_str());
                    self.expanded_paths.insert(directory.path.clone());
                    self.tree_entries.insert(directory.path, directory.entries);
                    self.clear_error();
                },
                None => {},
            }
            return true;
        }
        if self.active_request_id != Some(request_id) {
            return false;
        }
        let crumbs = remote_breadcrumbs(directory.path.as_str());
        let count: usize = crumbs.len();
        assert(count == breadcrumbs(directory.path@).len());
        let item: usize = if count > usize::MAX / 2 {
            usize::MAX - 2
        } else if 2 * count >= 2 {
            2 * count - 2
        } else {
            0
        };
        self.path = directory.path;
        self.entries = directory.entries;
        self.loading = false;
        self.loaded = true;
        self.clear_error();
        self.active_request_id = None;
        self.resolved_source_path = self.active_request_path.take();
        self.breadcrumb_scroll_item = Some(item);
        true
    }

    /// Takes in that a request has failed; a failure that nobody waits for changes nothing.
    pub fn fail_request(&mut self, request_id: u64, error: String) -> (r: bool)
        ensures
            r == old(self).awaits_failure(request_id),
            failed(*old(self), request_id, error, *final(self)),
            forall|start: u64| #[trigger]
                old(self).requests_wf(start) ==> final(self).requests_wf(start),
    {
        if self.tree_requests.contains_key(&request_id) {
            match self.tree_requests.remove(&request_id) {
                Some(path) => {
                    self.expanded_paths.remove(path.as_str());
                    self.set_error(error);
                },
                None => {},
            }
            return true;
        }
        if self.pending_download_trees.contains_key(&request_id) {
            self.pending_download_trees.remove(&request_id);
            self.set_error(error);
            return true;
        }
        if self.active_request_id != Some(request_id) {
            return false;
        }
        self.loading = false;
        self.set_error(error);
        self.active_request_id = None;
        self.active_request_path = None;
        self.tree_requests.clear();
        self.pending_download_trees.clear();
        true
    }

    /// The browser after it has given up waiting for the listing and for the open file.
    pub open spec fn stopped(self) -> Self {
        SftpBrowserState {
            loading: false,
            active_request_id: None,
            active_request_path: None,
            file: match self.file {
                Some(file) => Some(
                    SftpFileState {
                        loading: false,
                        saving: false,
                        read_request_id: None,
                        write_request_id: None,
                        ..file
                    },
                ),
                None => None,
            },
            ..self
        }
    }

    /// Gives up waiting for the listing and for the open file.
    pub fn stop_loading(&mut self)
        ensures
            *final(self) == old(self).stopped(),
            forall|start: u64| #[trigger]
                old(self).requests_wf(start) ==> final(self).requests_wf(start),
    {
        self.loading = false;
        self.active_request_id = None;
        self.active_request_path = None;
        if let Some(file) = self.file.as_mut() {
            file.loading = false;
            file.saving = false;
            file.read_request_id = None;
            file.write_request_id = None;
        }
    }

    /// A fresh request number.
    pub fn next_request_id(&mut self) -> (r: u64)
        requires
            old(self).next_request_id < u64::MAX,
        ensures
            r == old(self).next_request_id,
            *final(self) == (SftpBrowserState { next_request_id: (r + 1) as u64, ..*old(self) }),
            forall|start: u64| #[trigger]
                old(self).requests_wf(start) ==> final(self).requests_wf(start),
    {
        let request_id: u64 = self.next_request_id;
        self.next_request_id = request_id + 1;
        request_id
    }

    /// Expands the directory `path` and asks for its listing.
    pub fn begin_tree_request(&mut self, path: String) -> (r: u64)
        requires
            old(self).next_request_id < u64::MAX,
        ensures
            r == old(self).next_request_id,
            tree_requested(*old(self), path, *final(self)),
            forall|start: u64| #[trigger]
                old(self).requests_wf(start) ==> final(self).requests_wf(start),
    {
        let request_id: u64 = self.next_request_id();
        self.tree_requests.insert(request_id, path.clone());
        self.expanded_paths.insert(path);
        self.clear_error();
        request_id
    }

    /// Asks for everything below a directory, to download it to `destination`.
    pub fn begin_download_tree(&mut self, destination: PathBuf, batch_id: u64) -> (r: u64)
        requires
            old(self).next_request_id < u64::MAX,
        ensures
            r == old(self).next_request_id,
            *final(self) == (SftpBrowserState {
                next_request_id: (r + 1) as u64,
                pending_download_trees: final(self).pending_download_trees,
                ..*old(self)
            }),
            final(self).pending_download_trees@ == old(self).pending_download_trees@.insert(
                r,
                (PendingSftpDownloadTree { destination, batch_id }),
            ),
            forall|start: u64| #[trigger]
                old(self).requests_wf(start) ==> final(self).requests_wf(start),
    {
        let request_id: u64 = self.next_request_id();
        self.pending_download_trees.insert(
            request_id,
            PendingSftpDownloadTree { destination, batch_id },
        );
        request_id
    }

    /// What the answer to `request_id` was asked for, taken off the list.
    pub fn take_download_tree(&mut self, request_id: u64) -> (r: Option<PendingSftpDownloadTree>)
        ensures
            r == if old(self).pending_download_trees@.contains_key(request_id) {
                Some(old(self).pending_download_trees@[request_id])
            } else {
                None
            },
            *final(self) == (SftpBrowserState {
                pending_download_trees: final(self).pending_download_trees,
                ..*old(self)
            }),
            final(self).pending_download_trees@ == old(self).pending_download_trees@.remove(
                request_id,
            ),
            forall|start: u64| #[trigger]
                old(self).requests_wf(start) ==> final(self).requests_wf(start),
    {
        self.pending_download_trees.remove(&request_id)
    }

    /// Shows an error; the result is its generation, by which a timer can take it away again.
    pub fn set_error(&mut self, error: String) -> (r: u64)
        ensures
            *final(self) == old(self).with_error(error),
            r == final(self).error_generation,
    {
        self.error_generation = self.error_generation.wrapping_add(1);
        self.error = Some(error);
        self.error_generation
    }

    /// Takes the error away.
    pub fn clear_error(&mut self)
        ensures
            *final(self) == old(self).without_error(),
    {
        self.error_generation = self.error_generation.wrapping_add(1);
        self.error = None;
    }

    /// Takes the error away if it is still the one of `generation`.
    pub fn clear_error_if_current(&mut self, generation: u64) -> (r: bool)
        ensures
            r == (old(self).error_generation == generation && old(self).error is Some),
            *final(self) == if r {
                old(self).without_error()
            } else {
                *old(self)
            },
    {
        if self.error_generation != generation || self.error.is_none() {
            return false;
        }
        self.clear_error();
        true
    }

    /// Adds the lines of `entries` to `rows`.
    fn push_rows(
        &self,
        entries: &Vec<RemoteFileEntry>,
        depth: usize,
        rows: &mut Vec<SftpTreeRow>,
        Ghost(levels): Ghost<nat>,
    )
        requires
            settles(self.expanded_paths@, self.tree_entries@, entries@, levels),
            depth + levels <= usize::MAX,
        ensures
            row_views(final(rows)@) == row_views(old(rows)@) + flatten(
                self.expanded_paths@,
                self.tree_entries@,
                entries@,
                depth as nat,
                levels,
            ),
        decreases levels,
    {
        let ghost base = row_views(rows@);
        let ghost expanded = self.expanded_paths@;
        let ghost tree = self.tree_entries@;
        let mut i: usize = 0;
        assert(entries@.take(0) =~= Seq::<RemoteFileEntry>::empty());
        assert(row_views(rows@) =~= base + flatten(
            expanded,
            tree,
            entries@.take(0),
            depth as nat,
            levels,
        ));
        while i < entries.len()
            invariant
                i <= entries@.len(),
                expanded == self.expanded_paths@,
                tree == self.tree_entries@,
                settles(expanded, tree, entries@, levels),
                depth + levels <= usize::MAX,
                row_views(rows@) == base + flatten(
                    expanded,
                    tree,
                    entries@.take(i as int),
                    depth as nat,
                    levels,
                ),
            decreases entries@.len() - i,
        {
            let ghost seen = flatten(expanded, tree, entries@.take(i as int), depth as nat, levels);
            let ghost earlier = rows@;
            let entry = entries[i].clone();
            assert(entries@.take(i + 1).drop_last() =~= entries@.take(i as int));
            rows.push(SftpTreeRow { entry, depth });
            assert(row_views(rows@) =~= row_views(earlier).push(
                (entries@[i as int], depth as nat),
            ));
            assert(row_views(rows@) =~= base + seen.push((entries@[i as int], depth as nat)));
            let path = entries[i].path.as_str();
            if self.expanded_paths.contains(path) {
                if let Some(children) = self.tree_entries.get(path) {
                    assert(children_of(expanded, tree, entries@[i as int].path@) == Some(
                        children@,
                    ));
                    assert(levels > 0);
                    self.push_rows(children, depth + 1, rows, Ghost((levels - 1) as nat));
                }
            }
            i = i + 1;
            assert(row_views(rows@) =~= base + flatten(
                expanded,
                tree,
                entries@.take(i as int),
                depth as nat,
                levels,
            ));
        }
        assert(entries@.take(i as int) =~= entries@);
    }

    /// Expansion below `entries` comes to an end within `levels` levels.
    fn expansion_settles(&self, entries: &Vec<RemoteFileEntry>, levels: usize) -> (r: bool)
        ensures
            r == settles(self.expanded_paths@, self.tree_entries@, entries@, levels as nat),
        decreases levels,
    {
        let ghost expanded = self.expanded_paths@;
        let ghost tree = self.tree_entries@;
        let mut i: usize = 0;
        while i < entries.len()
            invariant
                i <= entries@.len(),
                expanded == self.expanded_paths@,
                tree == self.tree_entries@,
                forall|k: int|
                    0 <= k < i ==> match children_of(
                        expanded,
                        tree,
                        (#[trigger] entries@[k]).path@,
                    ) {
                        Some(children) => levels > 0 && settles(
                            expanded,
                            tree,
                            children,
                            (levels - 1) as nat,
                        ),
                        None => true,
                    },
            decreases entries@.len() - i,
        {
            let path = entries[i].path.as_str();
            if self.expanded_paths.contains(path) {
                if let Some(children) = self.tree_entries.get(path) {
                    assert(children_of(expanded, tree, entries@[i as int].path@) == Some(
                        children@,
                    ));
                    if levels == 0 || !self.expansion_settles(children, levels - 1) {
                        return false;
                    }
                }
            }
            i = i + 1;
        }
        true
    }

    /// The tree comes to an end: no directory is shown below itself.
    pub fn has_settled_tree(&self) -> (r: bool)
        ensures
            r == self.tree_settles(),
    {
        self.expansion_settles(&self.entries, self.tree_entries.len())
    }

    /// The lines of the list: of the listing alone, or with what is expanded below each directory.
    pub fn visible_rows(&self, tree: bool) -> (r: Vec<SftpTreeRow>)
        requires
            tree ==> self.tree_settles(),
        ensures
            row_views(r@) == self.rows(tree),
    {
        let mut rows: Vec<SftpTreeRow> = Vec::new();
        if tree {
            let levels: usize = self.tree_entries.len();
            self.push_rows(&self.entries, 0, &mut rows, Ghost(levels as nat));
            assert(row_views(rows@) =~= self.rows(tree));
            return rows;
        }
        let mut i: usize = 0;
        while i < self.entries.len()
            invariant
                i <= self.entries@.len(),
                row_views(rows@) == self.entries@.take(i as int).map_values(
                    |entry: RemoteFileEntry| (entry, 0nat),
                ),
            decreases self.entries@.len() - i,
        {
            let ghost earlier = rows@;
            rows.push(SftpTreeRow { entry: self.entries[i].clone(), depth: 0 });
            assert(row_views(rows@) =~= row_views(earlier).push((self.entries@[i as int], 0nat)));
            i = i + 1;
            assert(self.entries@.take(i as int) =~= self.entries@.take(i - 1).push(
                self.entries@[i - 1],
            ));
            assert(row_views(rows@) =~= self.entries@.take(i as int).map_values(
                |entry: RemoteFileEntry| (entry, 0nat),
            ));
        }
        assert(self.entries@.take(i as int) =~= self.entries@);
        rows
    }

    /// The entry with `path`.
    pub fn entry(&self, path: &str) -> (r: Option<&RemoteFileEntry>)
        ensures
            match r {
                Some(entry) => self.entry_at(path@) == Some(*entry),
                None => self.entry_at(path@) is None,
            },
    {
        let ghost wanted = entry_has_path(path@);
        proof {
            first_where_append(self.entries@, table_entries(self.tree_entries@), wanted);
        }
        let mut i: usize = 0;
        while i < self.entries.len()
            invariant
                i <= self.entries@.len(),
                wanted == entry_has_path(path@),
                first_where(self.known_entries(), wanted) == if any_where(self.entries@, wanted) {
                    first_where(self.entries@, wanted)
                } else {
                    first_where(table_entries(self.tree_entries@), wanted)
                },
                forall|k: int| 0 <= k < i ==> (#[trigger] self.entries@[k]).path@ != path@,
            decreases self.entries@.len() - i,
        {
            if text_eq(self.entries[i].path.as_str(), path) {
                proof {
                    first_index_is(self.entries@, wanted, i as int);
                }
                return Some(&self.entries[i]);
            }
            i = i + 1;
        }
        proof {
            first_index_is(self.entries@, wanted, i as int);
        }
        self.tree_entries.find(path)
    }

    /// The entries that are selected.
    pub fn selected_entries(&self) -> (r: Vec<RemoteFileEntry>)
        ensures
            r@ == named_entries(self.known_entries(), views(self.selected_paths@)),
    {
        let ghost all = self.known_entries();
        let ghost paths = views(self.selected_paths@);
        let mut out: Vec<RemoteFileEntry> = Vec::new();
        let mut i: usize = 0;
        while i < self.selected_paths.len()
            invariant
                i <= self.selected_paths@.len(),
                all == self.known_entries(),
                paths == views(self.selected_paths@),
                out@ == named_entries(all, paths.take(i as int)),
            decreases self.selected_paths@.len() - i,
        {
            assert(paths.take(i + 1).drop_last() =~= paths.take(i as int));
            assert(paths.take(i + 1).last() == self.selected_paths@[i as int]@);
            if let Some(entry) = self.entry(self.selected_paths[i].as_str()) {
                out.push(entry.clone());
            }
            i = i + 1;
        }
        assert(paths.take(i as int) =~= paths);
        out
    }

    /// The paths of the lines of the list.
    fn visible_paths(&self, tree: bool) -> (r: Vec<String>)
        requires
            tree ==> self.tree_settles(),
        ensures
            views(r@) == self.row_paths(tree),
    {
        let rows = self.visible_rows(tree);
        let mut out: Vec<String> = Vec::new();
        let mut i: usize = 0;
        while i < rows.len()
            invariant
                i <= rows@.len(),
                row_views(rows@) == self.rows(tree),
                views(out@) == self.row_paths(tree).take(i as int),
            decreases rows@.len() - i,
        {
            let ghost earlier = views(out@);
            let path = rows[i].entry.path.clone();
            proof {
                views_push(out@, path);
                assert(self.rows(tree)[i as int] == row_views(rows@)[i as int]);
            }
            out.push(path);
            i = i + 1;
            assert(self.row_paths(tree).take(i as int) =~= earlier.push(
                self.row_paths(tree)[i - 1],
            ));
        }
        assert(self.row_paths(tree).take(i as int) =~= self.row_paths(tree));
        out
    }

    /// Selects by a click on the line of `path`: alone; with the secondary key, in addition or no
    /// longer; with shift, every line from the anchor on. A path without a line changes nothing.
    pub fn select_path(&mut self, path: &str, modifiers: Modifiers, tree: bool)
        requires
            tree ==> old(self).tree_settles(),
        ensures
            *final(self) == (SftpBrowserState {
                selected_paths: final(self).selected_paths,
                selection_anchor: final(self).selection_anchor,
                ..*old(self)
            }),
            views(final(self).selected_paths@) == selection_after(
                old(self).row_paths(tree),
                path@,
                views(old(self).selected_paths@),
                opt_view(old(self).selection_anchor),
                modifiers,
            ),
            opt_view(final(self).selection_anchor) == if old(self).row_paths(tree).contains(path@)
                && !modifiers.shift {
                Some(path@)
            } else {
                opt_view(old(self).selection_anchor)
            },
    {
        let visible = self.visible_paths(tree);
        let ghost paths = views(visible@);
        let ghost before = views(self.selected_paths@);
        let found = position_of_text(&visible, path);
        proof {
            position_is_first(visible@, path@, found);
        }
        assert(visible@.len() == visible.len());
        let clicked: usize = match found {
            Some(index) => index,
            None => {
                return;
            },
        };
        if modifiers.shift {
            let other: usize = match &self.selection_anchor {
                Some(anchor) => {
                    let at = position_of_text(&visible, anchor.as_str());
                    proof {
                        position_is_first(visible@, anchor@, at);
                    }
                    match at {
                        Some(index) => index,
                        None => clicked,
                    }
                },
                None => clicked,
            };
            let low: usize = if other < clicked {
                other
            } else {
                clicked
            };
            let high: usize = if other < clicked {
                clicked
            } else {
                other
            };
            if !modifiers.secondary {
                self.selected_paths.clear();
                assert(views(self.selected_paths@) =~= Seq::<Seq<char>>::empty());
            }
            let ghost base = views(self.selected_paths@);
            let ghost range = paths.subrange(low as int, high + 1);
            let mut i: usize = low;
            assert(base == add_missing(base, range.take(0)));
            let end: usize = high + 1;
            while i < end
                invariant
                    low <= i <= end,
                    end == high + 1,
                    high < visible@.len(),
                    paths == views(visible@),
                    range == paths.subrange(low as int, high + 1),
                    views(self.selected_paths@) == add_missing(base, range.take(i - low)),
                    *self == (SftpBrowserState {
                        selected_paths: self.selected_paths,
                        ..*old(self)
                    }),
                decreases end - i,
            {
                assert(range.take(i + 1 - low).drop_last() =~= range.take(i - low));
                assert(range.take(i + 1 - low).last() == visible@[i as int]@);
                if !contains_text(&self.selected_paths, visible[i].as_str()) {
                    let added = visible[i].clone();
                    proof {
                        views_push(self.selected_paths@, added);
                    }
                    self.selected_paths.push(added);
                }
                i = i + 1;
            }
            assert(range.take(i - low) =~= range);
        } else if modifiers.secondary {
            let at = position_of_text(&self.selected_paths, path);
            proof {
                position_is_first(self.selected_paths@, path@, at);
            }
            match at {
                Some(index) => {
                    self.selected_paths.remove(index);
                    assert(views(self.selected_paths@) =~= before.remove(index as int));
                },
                None => {
                    let added = path.to_owned();
                    proof {
                        views_push(self.selected_paths@, added);
                    }
                    self.selected_paths.push(added);
                },
            }
            self.selection_anchor = Some(path.to_owned());
        } else {
            self.selected_paths.clear();
            self.selected_paths.push(path.to_owned());
            assert(views(self.selected_paths@) =~= seq![path@]);
            self.selection_anchor = Some(path.to_owned());
        }
    }

    /// Selects `path` alone for its context menu, unless it is one of those selected.
    pub fn select_for_context_menu(&mut self, path: &str)
        ensures
            *final(self) == (SftpBrowserState {
                selected_paths: final(self).selected_paths,
                selection_anchor: final(self).selection_anchor,
                ..*old(self)
            }),
            if views(old(self).selected_paths@).contains(path@) {
                *final(self) == *old(self)
            } else {
                views(final(self).selected_paths@) == seq![path@] && opt_view(
                    final(self).selection_anchor,
                ) == Some(path@)
            },
    {
        if !contains_text(&self.selected_paths, path) {
            self.selected_paths.clear();
            self.selected_paths.push(path.to_owned());
            assert(views(self.selected_paths@) =~= seq![path@]);
            self.selection_anchor = Some(path.to_owned());
        }
    }

    /// Forgets `paths` and everything below them; of the selection, `paths` alone.
    pub fn remove_paths(&mut self, paths: &Vec<String>)
        ensures
            paths_removed(*old(self), views(paths@), *final(self)),
    {
        let ghost kept = |selected: Seq<char>| !views(paths@).contains(selected);
        let ghost before = views(self.selected_paths@);
        let mut selected: Vec<String> = Vec::new();
        let mut i: usize = 0;
        proof {
            reveal(Seq::filter);
            assert(views(selected@) =~= before.take(0).filter(kept));
        }
        while i < self.selected_paths.len()
            invariant
                i <= self.selected_paths@.len(),
                *self == *old(self),
                kept == (|selected: Seq<char>| !views(paths@).contains(selected)),
                before == views(self.selected_paths@),
                views(selected@) == before.take(i as int).filter(kept),
            decreases self.selected_paths@.len() - i,
        {
            proof {
                filter_push(before.take(i as int), before[i as int], kept);
                assert(before.take(i + 1) =~= before.take(i as int).push(before[i as int]));
            }
            if !contains_text(paths, self.selected_paths[i].as_str()) {
                let path = self.selected_paths[i].clone();
                proof {
                    views_push(selected@, path);
                }
                selected.push(path);
            }
            i = i + 1;
        }
        assert(before.take(i as int) =~= before);
        self.selected_paths = selected;
        self.tree_entries.remove_paths(paths);
        self.entries = retain_entries(&self.entries, paths);
    }

    /// Opens the file `path` and asks for its contents.
    pub fn begin_file_request(&mut self, path: String, editable: bool) -> (r: u64)
        requires
            old(self).next_request_id < u64::MAX,
        ensures
            r == old(self).next_request_id,
            file_requested(*old(self), path, editable, *final(self)),
            forall|start: u64| #[trigger]
                old(self).requests_wf(start) ==> final(self).requests_wf(start),
    {
        let request_id: u64 = self.next_request_id();
        self.file = Some(
            SftpFileState {
                path,
                original_contents: Vec::new(),
                editor: None,
                text_format: None,
                loading: true,
                saving: false,
                error: None,
                editable,
                read_request_id: Some(request_id),
                write_request_id: None,
            },
        );
        request_id
    }

    /// Starts saving the open file; none where no file is open.
    pub fn begin_file_save(&mut self) -> (r: Option<u64>)
        requires
            old(self).next_request_id < u64::MAX,
        ensures
            r == if old(self).file is Some {
                Some(old(self).next_request_id)
            } else {
                None
            },
            *final(self) == (SftpBrowserState {
                next_request_id: (old(self).next_request_id + 1) as u64,
                file: match old(self).file {
                    Some(file) => Some(
                        SftpFileState { saving: true, error: None, write_request_id: r, ..file },
                    ),
                    None => None,
                },
                ..*old(self)
            }),
            forall|start: u64| #[trigger]
                old(self).requests_wf(start) ==> final(self).requests_wf(start),
    {
        let request_id: u64 = self.next_request_id();
        match self.file.as_mut() {
            Some(file) => {
                file.saving = true;
                file.error = None;
                file.write_request_id = Some(request_id);
                Some(request_id)
            },
            None => None,
        }
    }

    /// The open file after its reading or writing failed; any other failure leaves it as it is.
    pub open spec fn file_after_failure(
        file: SftpFileState,
        request_id: u64,
        operation: SftpOperation,
        error: String,
    ) -> SftpFileState {
        if operation == SftpOperation::ReadFile && file.read_request_id == Some(request_id) {
            SftpFileState { loading: false, read_request_id: None, error: Some(error), ..file }
        } else if operation == SftpOperation::WriteFile && file.write_request_id == Some(
            request_id,
        ) {
            SftpFileState { saving: false, write_request_id: None, error: Some(error), ..file }
        } else {
            file
        }
    }

    /// Takes in that reading or writing the open file has failed.
    pub fn fail_file_request(&mut self, request_id: u64, operation: SftpOperation, error: String)
        ensures
            *final(self) == (SftpBrowserState {
                file: match old(self).file {
                    Some(file) => Some(
                        SftpBrowserState::file_after_failure(file, request_id, operation, error),
                    ),
                    None => None,
                },
                ..*old(self)
            }),
            forall|start: u64| #[trigger]
                old(self).requests_wf(start) ==> final(self).requests_wf(start),
    {
        if let Some(file) = self.file.as_mut() {
            match operation {
                SftpOperation::ReadFile => {
                    if file.read_request_id == Some(request_id) {
                        file.loading = false;
                        file.read_request_id = None;
                        file.error = Some(error);
                    }
                },
                SftpOperation::WriteFile => {
                    if file.write_request_id == Some(request_id) {
                        file.saving = false;
                        file.write_request_id = None;
                        file.error = Some(error);
                    }
                },
                SftpOperation::ReadDirectory
                | SftpOperation::ReadDirectoryTree
                | SftpOperation::CreateFile
                | SftpOperation::CreateDirectory
                | SftpOperation::DeletePaths
                | SftpOperation::UploadFile
                | SftpOperation::DownloadFile
                | SftpOperation::CancelTransfer => {},
            }
        }
    }

    /// The path that the browser's title shows: the open file's, else the directory's.
    pub fn display_path(&self) -> (r: &str)
        ensures
            r@ == match self.file {
                Some(file) => file.path@,
                None => self.path@,
            },
    {
        match &self.file {
            Some(file) => file.path.as_str(),
            None => self.path.as_str(),
        }
    }
}

/// What `position_of_text` finds is the path's position.
proof fn position_is_first(list: Seq<String>, path: Seq<char>, found: Option<usize>)
    requires
        match found {
            Some(i) => i < list.len() && list[i as int]@ == path && forall|j: int|
                0 <= j < i ==> (#[trigger] list[j])@ != path,
            None => forall|j: int| 0 <= j < list.len() ==> (#[trigger] list[j])@ != path,
        },
    ensures
        path_position(views(list), path) == match found {
            Some(i) => i as int,
            None => list.len() as int,
        },
        found is Some <==> views(list).contains(path),
{
    let all = views(list);
    let at = match found {
        Some(i) => i as int,
        None => list.len() as int,
    };
    assert forall|i: int| 0 <= i < at implies #[trigger] all[i] != path by {
        assert(all[i] == list[i]@);
    }
    first_index_is(all, is_path(path), at);
    if found is Some {
        assert(all[at] == path);
    } else if all.contains(path) {
        let k = all.index_of(path);
        assert(list[k]@ == path);
    }
}

/// A new browser waits for nothing.
pub proof fn new_browser_waits_for_nothing(browser: SftpBrowserState, start: u64)
    requires
        browser.is_new(start),
    ensures
        browser.requests_wf(start),
        forall|id: u64| !browser.waits_for(id),
        forall|path: Seq<char>| browser.needs(path),
{
}

/// No answer is waited for by a center browser and a sidebar browser both, as long as the numbers
/// of the center browser stay below those of the sidebar's.
pub proof fn center_and_sidebar_wait_apart(
    center: SftpBrowserState,
    sidebar: SftpBrowserState,
    request_id: u64,
)
    requires
        center.requests_wf(1),
        center.next_request_id <= SIDEBAR_SFTP_REQUEST_ID_START,
        sidebar.requests_wf(SIDEBAR_SFTP_REQUEST_ID_START),
    ensures
        center.waits_for(request_id) ==> placement_of_request(request_id)
            == SftpBrowserPlacement::Center,
        sidebar.waits_for(request_id) ==> placement_of_request(request_id)
            == SftpBrowserPlacement::Sidebar,
        !(center.waits_for(request_id) && sidebar.waits_for(request_id)),
{
}

/// The generation after a number of changes of the error.
pub open spec fn generation_after(generation: u64, changes: nat) -> u64 {
    ((generation + changes) % 0x1_0000_0000_0000_0000) as u64
}

/// Each change of the error moves the generation on by one.
pub proof fn generation_step(generation: u64, changes: nat)
    ensures
        generation_after(generation, 0) == generation,
        generation_after(generation, changes).wrapping_add(1) == generation_after(
            generation,
            changes + 1,
        ),
{
    let n = (generation + changes) as int;
    assert((n % 0x1_0000_0000_0000_0000 + 1) % 0x1_0000_0000_0000_0000 == (n + 1)
        % 0x1_0000_0000_0000_0000) by (nonlinear_arith);
}

/// A timer set for an error cannot take away a later one: after any number of further changes
/// (below 2^64) the generation is another.
pub proof fn later_errors_outlive_older_timers(generation: u64, changes: nat)
    requires
        0 < changes < 0x1_0000_0000_0000_0000,
    ensures
        generation_after(generation, changes) != generation,
{
    let n = (generation + changes) as int;
    if n < 0x1_0000_0000_0000_0000 {
        assert(n % 0x1_0000_0000_0000_0000 == n);
    } else {
        assert(n % 0x1_0000_0000_0000_0000 == n - 0x1_0000_0000_0000_0000) by (nonlinear_arith)
            requires
                0x1_0000_0000_0000_0000 <= n < 2 * 0x1_0000_0000_0000_0000,
        ;
    }
}

/// A directory that was asked for is not asked for again, neither while its answer is waited for
/// nor, whatever path the server resolved it to, after the answer came.
pub proof fn requested_directory_is_not_needed(
    waiting: SftpBrowserState,
    answered: SftpBrowserState,
    path: Seq<char>,
)
    requires
        opt_view(waiting.active_request_path) == Some(path),
        answered.active_request_path is None,
        answered.resolved_source_path == waiting.active_request_path,
    ensures
        !waiting.needs(path),
        !answered.needs(path),
        forall|other: Seq<char>| other != path ==> answered.needs(other),
{
}

/// What is left after a removal holds none of the removed paths.
proof fn entries_left_are_outside(
    entries: Seq<RemoteFileEntry>,
    removed: Seq<Seq<char>>,
    i: int,
)
    requires
        0 <= i < entries_left(entries, removed).len(),
    ensures
        !is_removed(removed, entries_left(entries, removed)[i].path@),
    decreases entries.len(),
{
    let stays = |entry: RemoteFileEntry|
        !is_removed(removed, entry.path@);
    reveal(Seq::filter);
    if entries.len() > 0 {
        filter_push(entries.drop_last(), entries.last(), stays);
        assert(entries.drop_last().push(entries.last()) =~= entries);
        if i < entries_left(entries.drop_last(), removed).len() {
            entries_left_are_outside(entries.drop_last(), removed, i);
        }
    }
}

/// What is left of a table after a removal holds none of the removed paths.
proof fn table_left_is_outside(
    table: Seq<(Seq<char>, Seq<RemoteFileEntry>)>,
    removed: Seq<Seq<char>>,
    i: int,
)
    requires
        0 <= i < table_entries(table_left(table, removed)).len(),
    ensures
        !is_removed(
            removed,
            table_entries(table_left(table, removed))[i].path@,
        ),
    decreases table.len(),
{
    let stays = |item: (Seq<char>, Seq<RemoteFileEntry>)|
        !is_removed(removed, item.0);
    let trimmed = |item: (Seq<char>, Seq<RemoteFileEntry>)|
        (item.0, entries_left(item.1, removed));
    reveal(Seq::filter);
    if table.len() > 0 {
        let head = table.drop_last();
        filter_push(head, table.last(), stays);
        assert(head.push(table.last()) =~= table);
        let before = table_left(head, removed);
        let after = table_left(table, removed);
        if stays(table.last()) {
            assert(after =~= before.push(trimmed(table.last())));
            assert(after.drop_last() =~= before);
            let k = table_entries(before).len();
            if i < k {
                table_left_is_outside(head, removed, i);
            } else {
                entries_left_are_outside(table.last().1, removed, i - k);
            }
        } else {
            table_left_is_outside(head, removed, i);
        }
    }
}

/// After a removal, neither the removed paths nor anything below them is known any more.
pub proof fn removed_paths_are_gone(
    before: SftpBrowserState,
    after: SftpBrowserState,
    removed: Seq<Seq<char>>,
    path: Seq<char>,
)
    requires
        paths_removed(before, removed, after),
        is_removed(removed, path),
    ensures
        after.entry_at(path) is None,
{
    let wanted = entry_has_path(path);
    let all = after.known_entries();
    first_index_properties(all, wanted);
    let k = first_index(all, wanted);
    if k < all.len() {
        if k < after.entries@.len() {
            entries_left_are_outside(before.entries@, removed, k);
        } else {
            table_left_is_outside(before.tree_entries@, removed, k - after.entries@.len());
        }
    }
}

/// Adding what is missing makes no path occur twice, and adds nothing but the given paths.
proof fn add_missing_properties(base: Seq<Seq<char>>, paths: Seq<Seq<char>>)
    requires
        base.no_duplicates(),
    ensures
        add_missing(base, paths).no_duplicates(),
        forall|p: Seq<char>| #[trigger]
            add_missing(base, paths).contains(p) <==> base.contains(p) || paths.contains(p),
    decreases paths.len(),
{
    if paths.len() > 0 {
        let head = paths.drop_last();
        add_missing_properties(base, head);
        let before = add_missing(base, head);
        let after = add_missing(base, paths);
        assert forall|p: Seq<char>| paths.contains(p) <==> head.contains(p) || p
            == paths.last() by {
            if paths.contains(p) && p != paths.last() {
                let k = paths.index_of(p);
                assert(head[k] == p);
            }
            if head.contains(p) {
                let k = head.index_of(p);
                assert(paths[k] == p);
            }
            if p == paths.last() {
                assert(paths[paths.len() - 1] == p);
            }
        }
        assert forall|p: Seq<char>| #[trigger] after.contains(p) <==> base.contains(p)
            || paths.contains(p) by {
            if before.contains(paths.last()) {
                assert(after == before);
            } else {
                assert(after == before.push(paths.last()));
                if after.contains(p) && p != paths.last() {
                    let k = after.index_of(p);
                    assert(before[k] == p);
                }
                if before.contains(p) {
                    let k = before.index_of(p);
                    assert(after[k] == p);
                }
                if p == paths.last() {
                    assert(after[before.len() as int] == p);
                }
            }
        }
    }
}

/// Selecting by clicks never selects a path twice, and selects nothing that was neither selected
/// nor visible.
pub proof fn selection_stays_sound(
    paths: Seq<Seq<char>>,
    path: Seq<char>,
    selected: Seq<Seq<char>>,
    anchor: Option<Seq<char>>,
    modifiers: Modifiers,
)
    requires
        selected.no_duplicates(),
    ensures
        selection_after(paths, path, selected, anchor, modifiers).no_duplicates(),
        forall|p: Seq<char>| #[trigger]
            selection_after(paths, path, selected, anchor, modifiers).contains(p)
                ==> selected.contains(p) || paths.contains(p),
{
    let after = selection_after(paths, path, selected, anchor, modifiers);
    let clicked = path_position(paths, path);
    first_index_properties(paths, is_path(path));
    if clicked < paths.len() {
        assert(paths[clicked] == path);
        if modifiers.shift {
            if let Some(anchor) = anchor {
                first_index_properties(paths, is_path(anchor));
            }
            let other = match anchor {
                Some(anchor) => if path_position(paths, anchor) < paths.len() {
                    path_position(paths, anchor)
                } else {
                    clicked
                },
                None => clicked,
            };
            let low = if other < clicked { other } else { clicked };
            let high = if other < clicked { clicked } else { other };
            let base = if modifiers.secondary {
                selected
            } else {
                Seq::<Seq<char>>::empty()
            };
            let range = paths.subrange(low, high + 1);
            add_missing_properties(base, range);
            assert forall|p: Seq<char>| #[trigger] after.contains(p) implies selected.contains(p)
                || paths.contains(p) by {
                if range.contains(p) {
                    let k = range.index_of(p);
                    assert(paths[low + k] == p);
                }
            }
        } else if modifiers.secondary {
            first_index_properties(selected, is_path(path));
            if selected.contains(path) {
                let i = path_position(selected, path);
                let k0 = selected.index_of(path);
                assert(is_path(path)(selected[k0]));
                assert forall|a: int, b: int|
                    0 <= a < after.len() && 0 <= b < after.len() && a != b implies after[a]
                    != after[b] by {
                    let a0 = if a < i { a } else { a + 1 };
                    let b0 = if b < i { b } else { b + 1 };
                    assert(selected[a0] != selected[b0]);
                }
                assert forall|p: Seq<char>| #[trigger] after.contains(p) implies selected.contains(
                    p,
                ) by {
                    let k = after.index_of(p);
                    let k1 = if k < i { k } else { k + 1 };
                    assert(selected[k1] == p);
                }
            } else {
                assert forall|p: Seq<char>| #[trigger] after.contains(p) implies selected.contains(
                    p,
                ) || paths.contains(p) by {
                    let k = after.index_of(p);
                    if k < selected.len() {
                        assert(selected[k] == p);
                    }
                }
            }
        } else {
            assert forall|p: Seq<char>| #[trigger] after.contains(p) implies paths.contains(p) by {
                assert(p == path);
            }
        }
    }
}

/// More levels than expansion needs show nothing more.
pub proof fn flatten_needs_no_more_levels(
    expanded: Set<Seq<char>>,
    tree: Seq<(Seq<char>, Seq<RemoteFileEntry>)>,
    entries: Seq<RemoteFileEntry>,
    depth: nat,
    levels: nat,
    more: nat,
)
    requires
        settles(expanded, tree, entries, levels),
        levels <= more,
    ensures
        settles(expanded, tree, entries, more),
        flatten(expanded, tree, entries, depth, levels) == flatten(
            expanded,
            tree,
            entries,
            depth,
            more,
        ),
    decreases levels, entries.len(),
{
    assert forall|i: int| 0 <= i < entries.len() implies match children_of(
        expanded,
        tree,
        (#[trigger] entries[i]).path@,
    ) {
        Some(children) => more > 0 && settles(expanded, tree, children, (more - 1) as nat),
        None => true,
    } by {
        if let Some(children) = children_of(expanded, tree, entries[i].path@) {
            flatten_needs_no_more_levels(
                expanded,
                tree,
                children,
                depth + 1,
                (levels - 1) as nat,
                (more - 1) as nat,
            );
        }
    }
    if entries.len() > 0 {
        let head = entries.drop_last();
        assert(settles(expanded, tree, head, levels)) by {
            assert forall|i: int| 0 <= i < head.len() implies match children_of(
                expanded,
                tree,
                (#[trigger] head[i]).path@,
            ) {
                Some(children) => levels > 0 && settles(
                    expanded,
                    tree,
                    children,
                    (levels - 1) as nat,
                ),
                None => true,
            } by {
                assert(head[i] == entries[i]);
            }
        }
        flatten_needs_no_more_levels(expanded, tree, head, depth, levels, more);
        assert(entries[entries.len() - 1] == entries.last());
        if let Some(children) = children_of(expanded, tree, entries.last().path@) {
            flatten_needs_no_more_levels(
                expanded,
                tree,
                children,
                depth + 1,
                (levels - 1) as nat,
                (more - 1) as nat,
            );
        }
    }
}

/// `path` is that of something below `parent`: it lies below it, and ends in a name.
pub open spec fn lies_below(parent: Seq<char>, path: Seq<char>) -> bool {
    is_descendant(parent, path) && path.last() != '/'
}

/// Each listing holds only what lies below its directory.
pub open spec fn listings_lie_below(tree: Seq<(Seq<char>, Seq<RemoteFileEntry>)>) -> bool {
    forall|i: int, j: int|
        0 <= i < tree.len() && 0 <= j < tree[i].1.len() ==> lies_below(
            tree[i].0,
            (#[trigger] tree[i].1[j]).path@,
        )
}

/// Being the listing of a directory below `path`.
pub open spec fn is_listing_below(path: Seq<char>) -> spec_fn(
    (Seq<char>, Seq<RemoteFileEntry>),
) -> bool {
    |item: (Seq<char>, Seq<RemoteFileEntry>)| lies_below(path, item.0)
}

/// What a directory holds, by its name, lies below it.
pub proof fn named_entries_lie_below(directory: Seq<char>, name: Seq<char>)
    requires
        is_name(name),
        directory != "."@,
    ensures
        lies_below(directory, join_path(directory, name)),
{
    join_is_below(directory, name);
}

/// What lies below something below `a` lies below `a`.
proof fn lies_below_transitive(a: Seq<char>, b: Seq<char>, c: Seq<char>)
    requires
        lies_below(a, b),
        lies_below(b, c),
    ensures
        lies_below(a, c),
{
    trim_end_char_properties(b, '/');
    trim_end_char_properties(c, '/');
    if a == c {
        let x = trim_end_char(b, '/');
        let y = trim_end_char(c, '/');
        assert(x =~= b);
        assert(y =~= c);
        assert(c.take(x.len() as int + 1).len() == x.len() + 1);
        assert(b.take(y.len() as int + 1).len() == y.len() + 1);
    }
    descendant_transitive(a, b, c);
}

/// The listing of a directory settles within as many levels as there are listings below it.
proof fn listing_settles(
    expanded: Set<Seq<char>>,
    tree: Seq<(Seq<char>, Seq<RemoteFileEntry>)>,
    entries: Seq<RemoteFileEntry>,
    parent: Seq<char>,
)
    requires
        listings_lie_below(tree),
        forall|j: int|
            0 <= j < entries.len() ==> lies_below(parent, (#[trigger] entries[j]).path@),
    ensures
        settles(expanded, tree, entries, count_where(tree, is_listing_below(parent))),
    decreases count_where(tree, is_listing_below(parent)),
{
    let levels = count_where(tree, is_listing_below(parent));
    assert forall|i: int| 0 <= i < entries.len() implies match children_of(
        expanded,
        tree,
        (#[trigger] entries[i]).path@,
    ) {
        Some(children) => levels > 0 && settles(expanded, tree, children, (levels - 1) as nat),
        None => true,
    } by {
        let path = entries[i].path@;
        if let Some(children) = children_of(expanded, tree, path) {
            let k = listing_position(tree, path);
            assert forall|n: int|
                0 <= n < tree.len() && is_listing_below(path)(#[trigger] tree[n]) implies
                is_listing_below(parent)(tree[n]) by {
                lies_below_transitive(parent, path, tree[n].0);
            }
            count_where_less(tree, is_listing_below(path), is_listing_below(parent), k);
            listing_settles(expanded, tree, children, path);
            flatten_needs_no_more_levels(
                expanded,
                tree,
                children,
                0,
                count_where(tree, is_listing_below(path)),
                (levels - 1) as nat,
            );
        }
    }
}

/// The place of the listing of `path`, of which `table_get` tells.
proof fn listing_position(tree: Seq<(Seq<char>, Seq<RemoteFileEntry>)>, path: Seq<char>) -> (k: int)
    requires
        table_get(tree, path) is Some,
        listings_lie_below(tree),
    ensures
        0 <= k < tree.len(),
        tree[k].0 == path,
        table_get(tree, path) == Some(tree[k].1),
        forall|j: int|
            0 <= j < tree[k].1.len() ==> lies_below(path, (#[trigger] tree[k].1[j]).path@),
{
    first_index_properties(tree, has_key(path));
    first_index(tree, has_key(path))
}

/// A tree of listings that hold only what lies below their directories comes to an end.
pub proof fn ordinary_tree_settles(browser: SftpBrowserState)
    requires
        listings_lie_below(browser.tree_entries@),
    ensures
        browser.tree_settles(),
{
    let expanded = browser.expanded_paths@;
    let tree = browser.tree_entries@;
    let entries = browser.entries@;
    assert forall|i: int| 0 <= i < entries.len() implies match children_of(
        expanded,
        tree,
        (#[trigger] entries[i]).path@,
    ) {
        Some(children) => tree.len() > 0 && settles(
            expanded,
            tree,
            children,
            (tree.len() - 1) as nat,
        ),
        None => true,
    } by {
        let path = entries[i].path@;
        if let Some(children) = children_of(expanded, tree, path) {
            let k = listing_position(tree, path);
            let any = |item: (Seq<char>, Seq<RemoteFileEntry>)| true;
            count_where_less(tree, is_listing_below(path), any, k);
            count_where_bound(tree, any);
            listing_settles(expanded, tree, children, path);
            flatten_needs_no_more_levels(
                expanded,
                tree,
                children,
                0,
                count_where(tree, is_listing_below(path)),
                (tree.len() - 1) as nat,
            );
        }
    }
}

/// A reply that holds only what lies below its directory keeps the tree such.
pub proof fn ordinary_reply_keeps_the_tree(
    before: SftpBrowserState,
    request_id: u64,
    directory: RemoteDirectory,
    after: SftpBrowserState,
)
    requires
        listings_lie_below(before.tree_entries@),
        completed(before, request_id, directory, after),
        forall|j: int|
            0 <= j < directory.entries@.len() ==> lies_below(
                directory.path@,
                (#[trigger] directory.entries@[j]).path@,
            ),
    ensures
        listings_lie_below(after.tree_entries@),
        after.tree_settles(),
{
    let tree = after.tree_entries@;
    first_index_properties(before.tree_entries@, has_key(directory.path@));
    assert forall|i: int, j: int|
        0 <= i < tree.len() && 0 <= j < tree[i].1.len() implies lies_below(
        tree[i].0,
        (#[trigger] tree[i].1[j]).path@,
    ) by {
        if tree[i] == (directory.path@, directory.entries@) {
            assert(directory.entries@[j] == tree[i].1[j]);
        } else {
            assert(tree[i] == before.tree_entries@[i]);
            assert(before.tree_entries@[i].1[j] == tree[i].1[j]);
        }
    }
    ordinary_tree_settles(after);
}

/// Whatever else becomes of a browser keeps the tree such: a directory is asked for, a request has
/// failed, or paths were removed.
pub proof fn ordinary_tree_stays(
    before: SftpBrowserState,
    path: String,
    request_id: u64,
    error: String,
    removed: Seq<Seq<char>>,
    after: SftpBrowserState,
)
    requires
        listings_lie_below(before.tree_entries@),
        requested(before, path, after) || tree_requested(before, path, after) || failed(
            before,
            request_id,
            error,
            after,
        ) || paths_removed(before, removed, after),
    ensures
        listings_lie_below(after.tree_entries@),
        after.tree_settles(),
{
    let tree = after.tree_entries@;
    if paths_removed(before, removed, after) {
        let kept = |item: (Seq<char>, Seq<RemoteFileEntry>)| !is_removed(removed, item.0);
        let left = before.tree_entries@.filter(kept);
        assert forall|i: int, j: int|
            0 <= i < tree.len() && 0 <= j < tree[i].1.len() implies lies_below(
            tree[i].0,
            (#[trigger] tree[i].1[j]).path@,
        ) by {
            assert(tree[i] == (left[i].0, entries_left(left[i].1, removed)));
            assert(left.contains(left[i]));
            before.tree_entries@.lemma_filter_contains_rev(kept, left[i]);
            let n = before.tree_entries@.index_of(left[i]);
            assert(tree[i].1.contains(tree[i].1[j]));
            left[i].1.lemma_filter_contains_rev(
                |entry: RemoteFileEntry| !is_removed(removed, entry.path@),
                tree[i].1[j],
            );
            let m = left[i].1.index_of(tree[i].1[j]);
            assert(before.tree_entries@[n].1[m] == tree[i].1[j]);
        }
    }
    ordinary_tree_settles(after);
}

/// An answer is taken in where it was waited for. The directory that was asked for is shown as the
/// server lists it. A listing for the tree is shown below its own line only: the directory shown
/// and every other listing stay. An answer that nobody waits for changes nothing.
pub proof fn answer_is_shown_where_it_was_asked_for(
    before: SftpBrowserState,
    request_id: u64,
    directory: RemoteDirectory,
    after: SftpBrowserState,
    other: Seq<char>,
)
    requires
        completed(before, request_id, directory, after),
    ensures
        !before.tree_requests@.contains_key(request_id) && before.active_request_id == Some(
            request_id,
        ) ==> {
            &&& after.path == directory.path
            &&& after.entries == directory.entries
            &&& after.loaded && !after.loading
            &&& after.error is None
            &&& after.active_request_id is None && after.active_request_path is None
            &&& after.resolved_source_path == before.active_request_path
            &&& after.tree_entries == before.tree_entries
            &&& after.tree_requests == before.tree_requests
            &&& after.pending_download_trees == before.pending_download_trees
        },
        before.tree_requests@.contains_key(request_id) ==> {
            &&& table_get(after.tree_entries@, directory.path@) == Some(directory.entries@)
            &&& other != directory.path@ ==> table_get(after.tree_entries@, other) == table_get(
                before.tree_entries@,
                other,
            )
            &&& after.expanded_paths@.contains(directory.path@)
            &&& other != directory.path@ && other != before.tree_requests@[request_id]@ ==> (
            after.expanded_paths@.contains(other) <==> before.expanded_paths@.contains(other))
            &&& !after.tree_requests@.contains_key(request_id)
            &&& after.path == before.path && after.entries == before.entries
            &&& after.loading == before.loading && after.active_request_id
                == before.active_request_id
            &&& after.error is None
        },
        !before.waits_for(request_id) ==> after == before,
        after.selected_paths == before.selected_paths,
        after.file == before.file,
        after.next_request_id == before.next_request_id,
{
    inserted_listing_is_found(
        before.tree_entries@,
        directory.path@,
        directory.entries@,
        other,
    );
}

/// Asking for a directory gives a number that no earlier request of the browser has, closes the
/// open file, and drops the selection and what was expanded. The old listing is shown until the
/// answer comes, and downloads that wait go on waiting.
pub proof fn asking_for_a_directory_starts_over(
    before: SftpBrowserState,
    path: String,
    after: SftpBrowserState,
)
    requires
        requested(before, path, after),
        before.next_request_id < u64::MAX,
    ensures
        after.active_request_id == Some(before.next_request_id),
        after.next_request_id == before.next_request_id + 1,
        after.active_request_path == Some(path),
        after.loading,
        after.error is None,
        after.file is None,
        after.path == before.path && after.entries == before.entries,
        after.loaded == before.loaded,
        after.selected_paths@.len() == 0 && after.selection_anchor is None,
        after.tree_entries@.len() == 0,
        forall|id: u64| !(#[trigger] after.tree_requests@.contains_key(id)),
        forall|p: Seq<char>| !(#[trigger] after.expanded_paths@.contains(p)),
        after.pending_download_trees == before.pending_download_trees,
        after.list_scroll_epoch == before.list_scroll_epoch <==> before.loaded && before.path@
            == path@,
{
}

/// A failure is shown where the answer was waited for, and what waited for it no longer does: a
/// directory of the tree is closed again, a download is given up, the listing stays as it was.
pub proof fn failure_ends_the_wait(
    before: SftpBrowserState,
    request_id: u64,
    error: String,
    after: SftpBrowserState,
    start: u64,
)
    requires
        failed(before, request_id, error, after),
        before.requests_wf(start),
    ensures
        before.awaits_failure(request_id) ==> {
            &&& after.error == Some(error)
            &&& after.active_request_id != Some(request_id)
            &&& !after.tree_requests@.contains_key(request_id)
            &&& !after.pending_download_trees@.contains_key(request_id)
        },
        !before.awaits_failure(request_id) ==> after == before,
        before.tree_requests@.contains_key(request_id) ==> !after.expanded_paths@.contains(
            before.tree_requests@[request_id]@,
        ) && after.loading == before.loading,
        before.active_request_id == Some(request_id) ==> !after.loading,
        before.active_request_id != Some(request_id) ==> after.active_request_id
            == before.active_request_id && after.loading == before.loading,
        after.path == before.path,
        after.entries == before.entries,
        after.loaded == before.loaded,
        after.tree_entries == before.tree_entries,
        after.selected_paths == before.selected_paths,
        after.file == before.file,
{
}

/// A removal takes away the removed paths and what lies below them, and nothing else: every other
/// entry stays listed, and every other path stays selected.
pub proof fn removal_takes_nothing_else(
    before: SftpBrowserState,
    removed: Seq<Seq<char>>,
    after: SftpBrowserState,
    entry: RemoteFileEntry,
    path: Seq<char>,
)
    requires
        paths_removed(before, removed, after),
    ensures
        after.entries@.contains(entry) <==> before.entries@.contains(entry) && !removed.contains(
            entry.path@,
        ) && forall|i: int|
            0 <= i < removed.len() ==> !is_descendant(
                #[trigger] removed[i],
                entry.path@,
            ),
        views(after.selected_paths@).contains(path) <==> views(before.selected_paths@).contains(
            path,
        ) && !removed.contains(path),
        after.path == before.path,
        after.file == before.file,
        after.loading == before.loading,
        after.expanded_paths == before.expanded_paths,
        after.active_request_id == before.active_request_id,
{
    removal_leaves_the_rest(before.entries@, removed, entry);
    let stays = |selected: Seq<char>| !removed.contains(selected);
    filter_is_exact(views(before.selected_paths@), stays, path);
}

/// A click on a visible line: alone it selects that line and nothing else; with the secondary key
/// it turns that line's selection over and leaves the others. With shift every line from the
/// anchor's to the clicked one is selected; with the secondary key too, what was selected stays.
pub proof fn click_selects_what_it_means(
    paths: Seq<Seq<char>>,
    clicked: int,
    anchor: int,
    selected: Seq<Seq<char>>,
    modifiers: Modifiers,
    p: Seq<char>,
)
    requires
        selected.no_duplicates(),
        0 <= clicked < paths.len(),
        0 <= anchor < paths.len(),
        forall|k: int| 0 <= k < clicked ==> #[trigger] paths[k] != paths[clicked],
        forall|k: int| 0 <= k < anchor ==> #[trigger] paths[k] != paths[anchor],
    ensures
        ({
            let after = selection_after(
                paths,
                paths[clicked],
                selected,
                Some(paths[anchor]),
                modifiers,
            );
            &&& !modifiers.shift && !modifiers.secondary ==> (after.contains(p) <==> p
                == paths[clicked])
            &&& !modifiers.shift && modifiers.secondary ==> {
                &&& p != paths[clicked] ==> (after.contains(p) <==> selected.contains(p))
                &&& after.contains(paths[clicked]) <==> !selected.contains(paths[clicked])
            }
            &&& modifiers.shift ==> (after.contains(p) <==> modifiers.secondary
                && selected.contains(p) || exists|k: int|
                (clicked <= k <= anchor || anchor <= k <= clicked) && #[trigger] paths[k] == p)
        }),
{
    let path = paths[clicked];
    let after = selection_after(paths, path, selected, Some(paths[anchor]), modifiers);
    first_index_is(paths, is_path(path), clicked);
    first_index_is(paths, is_path(paths[anchor]), anchor);
    if modifiers.shift {
        let low = if anchor < clicked { anchor } else { clicked };
        let high = if anchor < clicked { clicked } else { anchor };
        let base = if modifiers.secondary {
            selected
        } else {
            Seq::<Seq<char>>::empty()
        };
        let range = paths.subrange(low, high + 1);
        add_missing_properties(base, range);
        if range.contains(p) {
            let k = range.index_of(p);
            assert(paths[low + k] == p);
        }
        if exists|k: int|
            (clicked <= k <= anchor || anchor <= k <= clicked) && #[trigger] paths[k] == p {
            let k = choose|k: int|
                (clicked <= k <= anchor || anchor <= k <= clicked) && #[trigger] paths[k] == p;
            assert(range[k - low] == p);
        }
        assert(after == add_missing(base, range));
    } else if modifiers.secondary {
        first_index_properties(selected, is_path(path));
        let i = path_position(selected, path);
        if selected.contains(path) {
            let k0 = selected.index_of(path);
            assert(is_path(path)(selected[k0]));
            assert(i < selected.len() && selected[i] == path);
            if after.contains(path) {
                let k = after.index_of(path);
                let k1 = if k < i { k } else { k + 1 };
                assert(selected[k1] == path);
            }
            if p != path && selected.contains(p) {
                let k = selected.index_of(p);
                let k1 = if k < i { k } else { k - 1 };
                assert(after[k1] == p);
            }
            if after.contains(p) {
                let k = after.index_of(p);
                let k1 = if k < i { k } else { k + 1 };
                assert(selected[k1] == p);
            }
        } else {
            assert(after[selected.len() as int] == path);
            if selected.contains(p) {
                assert(after[selected.index_of(p)] == p);
            }
            if after.contains(p) && p != path {
                assert(selected[after.index_of(p)] == p);
            }
        }
    } else {
        assert(after[0] == path);
    }
}

/// A click with shift and no anchor in sight selects the clicked line, and a click on something
/// that is not in sight selects nothing new.
pub proof fn click_without_an_anchor(
    paths: Seq<Seq<char>>,
    path: Seq<char>,
    selected: Seq<Seq<char>>,
    anchor: Option<Seq<char>>,
    modifiers: Modifiers,
)
    ensures
        !paths.contains(path) ==> selection_after(paths, path, selected, anchor, modifiers)
            == selected,
        paths.contains(path) && modifiers.shift && !modifiers.secondary && (anchor is None
            || !paths.contains(anchor->0)) ==> selection_after(
            paths,
            path,
            selected,
            anchor,
            modifiers,
        ) == seq![path],
{
    first_index_properties(paths, is_path(path));
    let clicked = path_position(paths, path);
    if paths.contains(path) {
        let k = paths.index_of(path);
        assert(is_path(path)(paths[k]));
        assert(clicked < paths.len());
        if let Some(a) = anchor {
            first_index_properties(paths, is_path(a));
        }
        let range = paths.subrange(clicked, clicked + 1);
        assert(range =~= seq![path]);
        assert(range.drop_last() =~= Seq::<Seq<char>>::empty());
        reveal_with_fuel(add_missing, 3);
        assert(add_missing(Seq::empty(), range) =~= seq![path]);
    }
}

/// The lines of one entry more: the lines before it, its own, and below it those of its contents
/// where it is expanded and they are known, one step further in.
pub proof fn line_is_followed_by_its_contents(
    expanded: Set<Seq<char>>,
    tree: Seq<(Seq<char>, Seq<RemoteFileEntry>)>,
    entries: Seq<RemoteFileEntry>,
    entry: RemoteFileEntry,
    depth: nat,
    levels: nat,
)
    ensures
        flatten(expanded, tree, Seq::empty(), depth, levels).len() == 0,
        ({
            let before = flatten(expanded, tree, entries, depth, levels);
            let after = flatten(expanded, tree, entries.push(entry), depth, levels);
            &&& after.len() > before.len()
            &&& after.take(before.len() as int) == before
            &&& after[before.len() as int] == (entry, depth)
            &&& !expanded.contains(entry.path@) ==> after.len() == before.len() + 1
            &&& expanded.contains(entry.path@) && table_get(tree, entry.path@) is Some && levels
                > 0 ==> after.skip((before.len() + 1) as int) == flatten(
                expanded,
                tree,
                table_get(tree, entry.path@)->0,
                depth + 1,
                (levels - 1) as nat,
            )
        }),
{
    let before = flatten(expanded, tree, entries, depth, levels);
    let after = flatten(expanded, tree, entries.push(entry), depth, levels);
    assert(entries.push(entry).drop_last() =~= entries);
    assert(after.take(before.len() as int) =~= before);
    if expanded.contains(entry.path@) && table_get(tree, entry.path@) is Some && levels > 0 {
        assert(after.skip((before.len() + 1) as int) =~= flatten(
            expanded,
            tree,
            table_get(tree, entry.path@)->0,
            depth + 1,
            (levels - 1) as nat,
        ));
    }
}

/// The list without the tree has one line for each entry of the directory, in their order, and so
/// has the tree while nothing is expanded.
pub proof fn plain_list_is_the_directory(browser: SftpBrowserState, i: int)
    requires
        0 <= i < browser.entries@.len(),
    ensures
        browser.rows(false).len() == browser.entries@.len(),
        browser.rows(false)[i] == (browser.entries@[i], 0nat),
        browser.row_paths(false)[i] == browser.entries@[i].path@,
        (forall|p: Seq<char>| !(#[trigger] browser.expanded_paths@.contains(p))) ==> browser.rows(
            true,
        ) == browser.rows(false),
{
    if forall|p: Seq<char>| !(#[trigger] browser.expanded_paths@.contains(p)) {
        nothing_expanded_is_flat(
            browser.expanded_paths@,
            browser.tree_entries@,
            browser.entries@,
            browser.tree_entries@.len(),
        );
        assert(browser.rows(true) =~= browser.rows(false));
    }
}

/// While nothing is expanded there is one line for each entry.
proof fn nothing_expanded_is_flat(
    expanded: Set<Seq<char>>,
    tree: Seq<(Seq<char>, Seq<RemoteFileEntry>)>,
    entries: Seq<RemoteFileEntry>,
    levels: nat,
)
    requires
        forall|p: Seq<char>| !(#[trigger] expanded.contains(p)),
    ensures
        flatten(expanded, tree, entries, 0, levels).len() == entries.len(),
        forall|i: int|
            0 <= i < entries.len() ==> #[trigger] flatten(expanded, tree, entries, 0, levels)[i]
                == (entries[i], 0nat),
    decreases entries.len(),
{
    if entries.len() > 0 {
        nothing_expanded_is_flat(expanded, tree, entries.drop_last(), levels);
    }
}

/// What is selected is found by its path: one path more adds the first known entry with that path,
/// and nothing where none has it.
pub proof fn selected_path_names_its_entry(
    all: Seq<RemoteFileEntry>,
    paths: Seq<Seq<char>>,
    path: Seq<char>,
    i: int,
)
    requires
        0 <= i <= all.len(),
        i < all.len() ==> all[i].path@ == path,
        forall|k: int| 0 <= k < i ==> (#[trigger] all[k]).path@ != path,
    ensures
        named_entries(all, Seq::empty()).len() == 0,
        i < all.len() ==> named_entries(all, paths.push(path)) == named_entries(all, paths).push(
            all[i],
        ),
        i == all.len() ==> named_entries(all, paths.push(path)) == named_entries(all, paths),
{
    assert(paths.push(path).drop_last() =~= paths);
    first_index_is(all, entry_has_path(path), i);
}

/// Opening a file asks for its contents under a number that no earlier request has, and shows
/// nothing of another file; the directory stays.
pub proof fn opened_file_is_empty_until_read(
    before: SftpBrowserState,
    path: String,
    editable: bool,
    after: SftpBrowserState,
)
    requires
        file_requested(before, path, editable, after),
        before.next_request_id < u64::MAX,
    ensures
        after.file matches Some(file) && file.path == path && file.editable == editable
            && file.loading && !file.saving && file.editor is None && file.text_format is None
            && file.original_contents@.len() == 0 && file.error is None && file.read_request_id
            == Some(before.next_request_id) && file.write_request_id is None,
        after.next_request_id == before.next_request_id + 1,
        after.path == before.path,
        after.entries == before.entries,
        after.active_request_id == before.active_request_id,
        after.tree_entries == before.tree_entries,
{
}

/// Only the text of a file that can be edited is ever saved, in the format that the file was read
/// in; a file counts as changed only where that differs from what was read.
pub proof fn only_edited_text_is_saved(file: SftpFileState)
    ensures
        file.edited() is Some <==> file.editable && file.editor is Some && file.text_format is Some,
        file.edited() is Some ==> file.edited()->0 == encoded(
            file.text_format->0,
            file.editor->0@,
        ),
        file.dirty() <==> file.edited() is Some && file.edited()->0 != file.original_contents@,
        !file.editable ==> !file.dirty(),
{
}

} // verus!
