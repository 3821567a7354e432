//! What an upload of local files and a download of a remote directory come down to: which
//! directories to make and which file goes where.
use crate::local_path::{
    join_local, join_remote_relative, local_file_name, local_join, local_name, local_target,
};
use crate::remote_files::{RemoteDirectoryTree, RemoteFileEntry};
use crate::remote_path::{
    join_path, path_before, path_before_total, path_before_transitive, relative_path,
    remote_join_path, remote_path_depth, remote_relative_path,
};
use crate::sequences::{first_index, first_index_is};
use crate::text::{
    text_before, text_eq, text_less, text_less_total, text_less_transitive, views, views_push,
};
use std::path::PathBuf;
use vstd::prelude::*;
use vstd::string::*;

verus! {

/// The order of directories (by depth, so that each comes after the one that holds it) or of files
/// (by their text).
pub open spec fn key_before(by_depth: bool, a: Seq<char>, b: Seq<char>) -> bool {
    if by_depth {
        path_before(a, b)
    } else {
        text_less(a, b)
    }
}

/// `order` are the positions of the first of each of `keys`, in the order of the keys.
pub open spec fn is_first_order(by_depth: bool, keys: Seq<Seq<char>>, order: Seq<usize>) -> bool {
    &&& forall|i: int|
        0 <= i < order.len() ==> (#[trigger] order[i]) < keys.len() && forall|k: int|
            0 <= k < order[i] ==> #[trigger] keys[k] != keys[order[i] as int]
    &&& forall|i: int, j: int|
        0 <= i < j < order.len() ==> key_before(
            by_depth,
            keys[(#[trigger] order[i]) as int],
            keys[(#[trigger] order[j]) as int],
        )
    &&& forall|k: int| 0 <= k < keys.len() ==> is_listed(keys, order, #[trigger] keys[k])
}

/// `key` stands at one of the positions `order`.
pub open spec fn is_listed(keys: Seq<Seq<char>>, order: Seq<usize>, key: Seq<char>) -> bool {
    exists|i: int| 0 <= i < order.len() && key == keys[(#[trigger] order[i]) as int]
}

proof fn key_before_total(by_depth: bool, a: Seq<char>, b: Seq<char>)
    ensures
        !key_before(by_depth, a, a),
        a != b ==> (key_before(by_depth, a, b) <==> !key_before(by_depth, b, a)),
{
    path_before_total(a, b);
    text_less_total(a, b);
    text_less_total(a, a);
}

proof fn key_before_transitive(by_depth: bool, a: Seq<char>, b: Seq<char>, c: Seq<char>)
    requires
        key_before(by_depth, a, b),
        key_before(by_depth, b, c),
    ensures
        key_before(by_depth, a, c),
{
    if by_depth {
        path_before_transitive(a, b, c);
    } else {
        text_less_transitive(a, b, c);
    }
}

/// `a` comes before `b`.
fn comes_before(by_depth: bool, a: &str, b: &str) -> (r: bool)
    ensures
        r == key_before(by_depth, a@, b@),
{
    if by_depth {
        let x: usize = remote_path_depth(a);
        let y: usize = remote_path_depth(b);
        x < y || (x == y && text_before(a, b))
    } else {
        text_before(a, b)
    }
}

/// The positions of the first of each of `keys`, in the order of the keys.
fn first_order(by_depth: bool, keys: &Vec<String>) -> (r: Vec<usize>)
    ensures
        is_first_order(by_depth, views(keys@), r@),
{
    let ghost all = views(keys@);
    let mut order: Vec<usize> = Vec::new();
    let mut i: usize = 0;
    while i < keys.len()
        invariant
            i <= keys@.len(),
            all == views(keys@),
            is_first_order(by_depth, all.take(i as int), order@),
        decreases keys@.len() - i,
    {
        let ghost seen = all.take(i as int);
        let ghost next = all.take(i + 1);
        let ghost key = all[i as int];
        let ghost before = order@;
        assert(key == keys@[i as int]@);
        let mut at: usize = 0;
        while at < order.len() && comes_before(
            by_depth,
            keys[order[at]].as_str(),
            keys[i].as_str(),
        )
            invariant
                i < keys@.len(),
                at <= order@.len(),
                all == views(keys@),
                key == all[i as int],
                forall|k: int| 0 <= k < order@.len() ==> (#[trigger] order@[k]) < i,
                forall|k: int|
                    0 <= k < at ==> key_before(by_depth, all[(#[trigger] order@[k]) as int], key),
            decreases order@.len() - at,
        {
            assert(all[order@[at as int] as int] == keys@[order@[at as int] as int]@);
            at = at + 1;
        }
        assert forall|k: int| 0 <= k < i implies #[trigger] next[k] == seen[k] by {}
        if at < order.len() && text_eq(keys[order[at]].as_str(), keys[i].as_str()) {
            assert(all[order@[at as int] as int] == key);
            assert(is_first_order(by_depth, next, order@)) by {
                assert forall|a: int| 0 <= a < order@.len() implies (#[trigger] order@[a])
                    < next.len() && forall|k: int|
                    0 <= k < order@[a] ==> #[trigger] next[k] != next[order@[a] as int] by {
                    assert forall|k: int| 0 <= k < order@[a] implies #[trigger] next[k]
                        != next[order@[a] as int] by {
                        assert(seen[k] != seen[order@[a] as int]);
                    }
                }
                assert forall|a: int, b: int| 0 <= a < b < order@.len() implies key_before(
                    by_depth,
                    next[(#[trigger] order@[a]) as int],
                    next[(#[trigger] order@[b]) as int],
                ) by {
                    assert(key_before(by_depth, seen[order@[a] as int], seen[order@[b] as int]));
                }
                assert forall|k: int| 0 <= k < next.len() implies is_listed(
                    next,
                    order@,
                    #[trigger] next[k],
                ) by {
                    if k < i {
                        assert(is_listed(seen, order@, seen[k]));
                        let a = choose|a: int|
                            0 <= a < order@.len() && seen[k] == seen[(#[trigger] order@[a]) as int];
                        assert(next[k] == next[order@[a] as int]);
                    } else {
                        assert(next[k] == next[order@[at as int] as int]);
                    }
                }
            }
        } else {
            proof {
                assert forall|k: int| at <= k < order@.len() implies key_before(
                    by_depth,
                    key,
                    all[(#[trigger] order@[k]) as int],
                ) by {
                    let first = all[order@[at as int] as int];
                    assert(first == keys@[order@[at as int] as int]@);
                    key_before_total(by_depth, first, key);
                    if k > at {
                        assert(key_before(
                            by_depth,
                            seen[order@[at as int] as int],
                            seen[order@[k] as int],
                        ));
                        key_before_transitive(by_depth, key, first, all[order@[k] as int]);
                    }
                }
                assert forall|k: int| 0 <= k < i implies #[trigger] all[k] != key by {
                    assert(is_listed(seen, order@, seen[k]));
                    let a = choose|a: int|
                        0 <= a < order@.len() && seen[k] == seen[(#[trigger] order@[a]) as int];
                    assert(seen[k] == all[k]);
                    key_before_total(by_depth, key, key);
                }
            }
            order.insert(at, i);
            proof {
                let after = order@;
                assert(after == before.insert(at as int, i));
                assert forall|a: int| 0 <= a < after.len() implies (#[trigger] after[a])
                    < next.len() && forall|k: int|
                    0 <= k < after[a] ==> #[trigger] next[k] != next[after[a] as int] by {
                    if a == at {
                    } else {
                        let a0 = if a < at { a } else { a - 1 };
                        assert(after[a] == before[a0]);
                        assert forall|k: int| 0 <= k < after[a] implies #[trigger] next[k]
                            != next[after[a] as int] by {
                            assert(seen[k] != seen[before[a0] as int]);
                        }
                    }
                }
                assert forall|a: int, b: int| 0 <= a < b < after.len() implies key_before(
                    by_depth,
                    next[(#[trigger] after[a]) as int],
                    next[(#[trigger] after[b]) as int],
                ) by {
                    let a0 = if a < at { a } else { a - 1 };
                    let b0 = if b < at { b } else { b - 1 };
                    if a == at {
                        assert(after[b] == before[b0]);
                    } else if b == at {
                        assert(after[a] == before[a0]);
                    } else {
                        assert(after[a] == before[a0]);
                        assert(after[b] == before[b0]);
                        assert(key_before(
                            by_depth,
                            seen[before[a0] as int],
                            seen[before[b0] as int],
                        ));
                    }
                }
                assert forall|k: int| 0 <= k < next.len() implies is_listed(
                    next,
                    after,
                    #[trigger] next[k],
                ) by {
                    if k < i {
                        assert(is_listed(seen, before, seen[k]));
                        let a = choose|a: int|
                            0 <= a < before.len() && seen[k] == seen[(
                            #[trigger] before[a]) as int];
                        let a1 = if a < at { a } else { a + 1 };
                        assert(after[a1] == before[a]);
                        assert(next[k] == next[after[a1] as int]);
                    } else {
                        assert(after[at as int] == i);
                        assert(next[k] == next[after[at as int] as int]);
                    }
                }
                assert(is_first_order(by_depth, next, after));
            }
        }
        i = i + 1;
    }
    assert(all.take(i as int) =~= all);
    order
}

/// What a local path turns out to be, without following a link.
#[derive(Clone, Copy, Debug, PartialEq, Eq, Structural)]
pub enum LocalKind {
    Directory,
    File,
    Symlink,
    Other,
}

/// The directories to make on the server, each after the one that holds it, and the files to send.
#[derive(Debug, PartialEq, Eq)]
pub struct LocalUploadPlan {
    pub directories: Vec<String>,
    pub files: Vec<(PathBuf, String)>,
}

/// `plan` is what the directories and files that were found come down to: each remote path once,
/// and of two files for one remote path the first that was found.
pub open spec fn is_upload_plan(
    directories: Seq<String>,
    files: Seq<(PathBuf, String)>,
    plan: LocalUploadPlan,
) -> bool {
    &&& exists|order: Seq<usize>| #[trigger]
        is_first_order(true, views(directories), order) && plan.directories@ == Seq::new(
            order.len(),
            |i: int| directories[order[i] as int],
        )
    &&& exists|order: Seq<usize>| #[trigger]
        is_first_order(false, remote_keys(files), order) && plan.files@ == Seq::new(
            order.len(),
            |i: int| files[order[i] as int],
        )
}

/// The remote paths of a list of files.
pub open spec fn remote_keys(files: Seq<(PathBuf, String)>) -> Seq<Seq<char>> {
    files.map_values(|file: (PathBuf, String)| file.1@)
}

/// An upload plan in the making: what was found so far, and the directories still to be read, the
/// next one last.
#[derive(Debug, PartialEq, Eq)]
pub struct UploadPlanner {
    pub directories: Vec<String>,
    pub files: Vec<(PathBuf, String)>,
    pub pending: Vec<(PathBuf, String)>,
}

impl UploadPlanner {
    /// Nothing was found yet.
    pub fn new() -> (r: Self)
        ensures
            r.directories@.len() == 0,
            r.files@.len() == 0,
            r.pending@.len() == 0,
    {
        UploadPlanner { directories: Vec::new(), files: Vec::new(), pending: Vec::new() }
    }

    /// The remote path for something of this name in a remote directory.
    pub fn remote_path_for(remote_directory: &str, local_path: &PathBuf) -> (r: Option<String>)
        ensures
            match r {
                Some(path) => local_name(*local_path) matches Some(name) && path@ == join_path(
                    remote_directory@,
                    name,
                ),
                None => local_name(*local_path) is None,
            },
    {
        match local_file_name(local_path) {
            Some(name) => Some(remote_join_path(remote_directory, name.as_str())),
            None => None,
        }
    }

    /// Takes in something that was found: a directory is made and still to be read, a file is
    /// sent, and anything else is left alone.
    pub fn add(&mut self, local_path: PathBuf, remote_path: String, kind: LocalKind)
        ensures
            match kind {
                LocalKind::Directory => {
                    &&& final(self).directories@ == old(self).directories@.push(remote_path)
                    &&& final(self).pending@ == old(self).pending@.push((local_path, remote_path))
                    &&& final(self).files@ == old(self).files@
                },
                LocalKind::File => {
                    &&& final(self).directories@ == old(self).directories@
                    &&& final(self).pending@ == old(self).pending@
                    &&& final(self).files@ == old(self).files@.push((local_path, remote_path))
                },
                LocalKind::Symlink | LocalKind::Other => *final(self) == *old(self),
            },
    {
        match kind {
            LocalKind::Directory => {
                self.directories.push(remote_path.clone());
                self.pending.push((local_path, remote_path));
            },
            LocalKind::File => {
                self.files.push((local_path, remote_path));
            },
            LocalKind::Symlink | LocalKind::Other => {},
        }
    }

    /// The next directory to read, with its remote path.
    pub fn next_directory(&mut self) -> (r: Option<(PathBuf, String)>)
        ensures
            final(self).directories == old(self).directories,
            final(self).files == old(self).files,
            if old(self).pending@.len() > 0 {
                r == Some(old(self).pending@.last()) && final(self).pending@ == old(
                    self,
                ).pending@.drop_last()
            } else {
                r is None && final(self).pending@ == old(self).pending@
            },
    {
        self.pending.pop()
    }

    /// The plan that what was found comes down to.
    pub fn finish(self) -> (r: LocalUploadPlan)
        ensures
            is_upload_plan(self.directories@, self.files@, r),
    {
        let order = first_order(true, &self.directories);
        let mut directories: Vec<String> = Vec::new();
        let mut i: usize = 0;
        while i < order.len()
            invariant
                i <= order@.len(),
                is_first_order(true, views(self.directories@), order@),
                directories@ == Seq::new(
                    i as nat,
                    |k: int| self.directories@[order@[k] as int],
                ),
            decreases order@.len() - i,
        {
            directories.push(self.directories[order[i]].clone());
            i = i + 1;
            assert(directories@ =~= Seq::new(
                i as nat,
                |k: int| self.directories@[order@[k] as int],
            ));
        }
        assert(directories@ =~= Seq::new(
            order@.len(),
            |k: int| self.directories@[order@[k] as int],
        ));
        let mut keys: Vec<String> = Vec::new();
        let mut j: usize = 0;
        while j < self.files.len()
            invariant
                j <= self.files@.len(),
                views(keys@) == remote_keys(self.files@).take(j as int),
            decreases self.files@.len() - j,
        {
            let key = self.files[j].1.clone();
            proof {
                views_push(keys@, key);
            }
            keys.push(key);
            assert(remote_keys(self.files@).take(j + 1) =~= remote_keys(self.files@).take(
                j as int,
            ).push(remote_keys(self.files@)[j as int]));
            j = j + 1;
        }
        assert(remote_keys(self.files@).take(j as int) =~= remote_keys(self.files@));
        let order = first_order(false, &keys);
        let mut files: Vec<(PathBuf, String)> = Vec::new();
        let mut i: usize = 0;
        while i < order.len()
            invariant
                i <= order@.len(),
                is_first_order(false, remote_keys(self.files@), order@),
                files@ == Seq::new(i as nat, |k: int| self.files@[order@[k] as int]),
            decreases order@.len() - i,
        {
            let file = &self.files[order[i]];
            files.push((file.0.clone(), file.1.clone()));
            i = i + 1;
            assert(files@ =~= Seq::new(i as nat, |k: int| self.files@[order@[k] as int]));
        }
        assert(files@ =~= Seq::new(order@.len(), |k: int| self.files@[order@[k] as int]));
        LocalUploadPlan { directories, files }
    }
}

/// Why a remote directory cannot be downloaded as a whole.
#[derive(Clone, Copy, Debug, PartialEq, Eq, Structural)]
pub enum DownloadPlanError {
    DirectoryEscaped,
    FileEscaped,
}

impl DownloadPlanError {
    /// What the error says.
    pub fn message(self) -> (r: &'static str)
        ensures
            r@ == match self {
                DownloadPlanError::DirectoryEscaped => {
                    "remote directory escaped its requested root"@
                },
                DownloadPlanError::FileEscaped => "remote file escaped its requested root"@,
            },
    {
        match self {
            DownloadPlanError::DirectoryEscaped => "remote directory escaped its requested root",
            DownloadPlanError::FileEscaped => "remote file escaped its requested root",
        }
    }
}

/// The local directories to make and the files to fetch, up to the first that lies outside the
/// directory that was asked for; `error` is what then ends the download.
#[derive(Debug, PartialEq, Eq)]
pub struct RemoteDownloadPlan {
    pub directories: Vec<PathBuf>,
    pub files: Vec<(PathBuf, String, Option<u64>)>,
    pub error: Option<DownloadPlanError>,
}

/// Lying outside `root`.
pub open spec fn outside(root: Seq<char>) -> spec_fn(Seq<char>) -> bool {
    |path: Seq<char>| relative_path(root, path) is None
}

/// The remote paths of a list of entries.
pub open spec fn entry_paths(entries: Seq<RemoteFileEntry>) -> Seq<Seq<char>> {
    entries.map_values(|entry: RemoteFileEntry| entry.path@)
}

/// Where a remote path below `root` goes below `destination`.
pub open spec fn download_target(
    root: Seq<char>,
    destination: PathBuf,
    path: Seq<char>,
) -> PathBuf {
    match relative_path(root, path) {
        Some(relative) => local_target(destination, relative),
        None => destination,
    }
}

/// `r` is where everything below a remote directory goes below `destination`.
pub open spec fn is_download_plan(
    tree: RemoteDirectoryTree,
    destination: PathBuf,
    r: RemoteDownloadPlan,
) -> bool {
    let n = first_index(views(tree.directories@), outside(tree.root@));
    let m = first_index(entry_paths(tree.files@), outside(tree.root@));
    &&& 0 <= n <= tree.directories@.len()
    &&& 0 <= m <= tree.files@.len()
    &&& r.directories@ == Seq::new(
        n as nat,
        |i: int| download_target(tree.root@, destination, tree.directories@[i]@),
    )
    &&& if n < tree.directories@.len() {
        r.error == Some(DownloadPlanError::DirectoryEscaped) && r.files@.len() == 0
    } else {
        &&& r.files@ == Seq::new(
            m as nat,
            |i: int|
                (
                    download_target(tree.root@, destination, tree.files@[i].path@),
                    tree.files@[i].path,
                    tree.files@[i].size,
                ),
        )
        &&& r.error == if m < tree.files@.len() {
            Some(DownloadPlanError::FileEscaped)
        } else {
            None
        }
    }
}

/// Where everything below a remote directory goes below `destination`.
pub fn build_remote_download_plan(tree: RemoteDirectoryTree, destination: PathBuf) -> (r:
    RemoteDownloadPlan)
    ensures
        is_download_plan(tree, destination, r),
{
    let mut directories: Vec<PathBuf> = Vec::new();
    let mut files: Vec<(PathBuf, String, Option<u64>)> = Vec::new();
    let ghost paths = entry_paths(tree.files@);
    let ghost m = first_index(paths, outside(tree.root@));
    proof {
        crate::sequences::first_index_properties(paths, outside(tree.root@));
    }
    let mut i: usize = 0;
    while i < tree.directories.len()
        invariant
            i <= tree.directories@.len(),
            0 <= m <= tree.files@.len(),
            m == first_index(entry_paths(tree.files@), outside(tree.root@)),
            files@.len() == 0,
            forall|k: int|
                0 <= k < i ==> !outside(tree.root@)(#[trigger] views(tree.directories@)[k]),
            directories@ == Seq::new(
                i as nat,
                |k: int| download_target(tree.root@, destination, tree.directories@[k]@),
            ),
        decreases tree.directories@.len() - i,
    {
        match remote_relative_path(tree.root.as_str(), tree.directories[i].as_str()) {
            None => {
                proof {
                    assert(outside(tree.root@)(views(tree.directories@)[i as int]));
                    first_index_is(views(tree.directories@), outside(tree.root@), i as int);
                }
                return RemoteDownloadPlan {
                    directories,
                    files,
                    error: Some(DownloadPlanError::DirectoryEscaped),
                };
            },
            Some(relative) => {
                directories.push(join_remote_relative(&destination, relative));
            },
        }
        i = i + 1;
        assert(directories@ =~= Seq::new(
            i as nat,
            |k: int| download_target(tree.root@, destination, tree.directories@[k]@),
        ));
    }
    proof {
        first_index_is(views(tree.directories@), outside(tree.root@), i as int);
    }
    let mut j: usize = 0;
    while j < tree.files.len()
        invariant
            j <= tree.files@.len(),
            i == tree.directories@.len(),
            i == first_index(views(tree.directories@), outside(tree.root@)),
            paths == entry_paths(tree.files@),
            forall|k: int| 0 <= k < j ==> !outside(tree.root@)(#[trigger] paths[k]),
            directories@ == Seq::new(
                i as nat,
                |k: int| download_target(tree.root@, destination, tree.directories@[k]@),
            ),
            files@ == Seq::new(
                j as nat,
                |k: int|
                    (
                        download_target(tree.root@, destination, tree.files@[k].path@),
                        tree.files@[k].path,
                        tree.files@[k].size,
                    ),
            ),
        decreases tree.files@.len() - j,
    {
        match remote_relative_path(tree.root.as_str(), tree.files[j].path.as_str()) {
            None => {
                proof {
                    assert(outside(tree.root@)(paths[j as int]));
                    first_index_is(paths, outside(tree.root@), j as int);
                }
                return RemoteDownloadPlan {
                    directories,
                    files,
                    error: Some(DownloadPlanError::FileEscaped),
                };
            },
            Some(relative) => {
                let target = join_remote_relative(&destination, relative);
                files.push((target, tree.files[j].path.clone(), tree.files[j].size));
            },
        }
        j = j + 1;
        assert(files@ =~= Seq::new(
            j as nat,
            |k: int|
                (
                    download_target(tree.root@, destination, tree.files@[k].path@),
                    tree.files@[k].path,
                    tree.files@[k].size,
                ),
        ));
    }
    proof {
        first_index_is(paths, outside(tree.root@), j as int);
    }
    RemoteDownloadPlan { directories, files, error: None }
}

/// Where a selected entry of a browser at `browser_root` goes below `destination`.
pub open spec fn selected_target(
    browser_root: Seq<char>,
    destination: PathBuf,
    entry: RemoteFileEntry,
) -> PathBuf {
    match relative_path(browser_root, entry.path@) {
        Some(relative) => local_target(destination, relative),
        None => local_join(destination, entry.name@),
    }
}

/// Where a selected entry of a browser at `browser_root` goes below `destination`: to the same
/// place below it, or, from elsewhere, under its own name.
pub fn download_destination(
    browser_root: &str,
    destination: &PathBuf,
    entry: &RemoteFileEntry,
) -> (r: PathBuf)
    ensures
        r == selected_target(browser_root@, *destination, *entry),
{
    match remote_relative_path(browser_root, entry.path.as_str()) {
        Some(relative) => join_remote_relative(destination, relative),
        None => join_local(destination, entry.name.as_str()),
    }
}

/// A plan for a remote directory holds only what lies in that directory, each thing in its order:
/// a file keeps its remote path and its size, and goes below the destination to where it stands
/// below the remote directory. There is an error exactly where something lies outside, and then
/// nothing from that on is fetched.
pub proof fn download_plan_stays_in_its_root(
    tree: RemoteDirectoryTree,
    destination: PathBuf,
    r: RemoteDownloadPlan,
    i: int,
)
    requires
        is_download_plan(tree, destination, r),
    ensures
        r.error is None <==> (forall|k: int|
            0 <= k < tree.directories@.len() ==> relative_path(
                tree.root@,
                (#[trigger] tree.directories@[k])@,
            ) is Some) && (forall|k: int|
            0 <= k < tree.files@.len() ==> relative_path(
                tree.root@,
                (#[trigger] tree.files@[k]).path@,
            ) is Some),
        r.error is None ==> r.directories@.len() == tree.directories@.len() && r.files@.len()
            == tree.files@.len(),
        r.error == Some(DownloadPlanError::DirectoryEscaped) ==> r.files@.len() == 0
            && r.directories@.len() < tree.directories@.len(),
        r.error == Some(DownloadPlanError::FileEscaped) ==> r.files@.len() < tree.files@.len()
            && relative_path(tree.root@, tree.files@[r.files@.len() as int].path@) is None,
        0 <= i < r.directories@.len() ==> {
            &&& i < tree.directories@.len()
            &&& relative_path(tree.root@, tree.directories@[i]@) matches Some(relative)
                && r.directories@[i] == local_target(destination, relative)
        },
        0 <= i < r.files@.len() ==> {
            &&& i < tree.files@.len()
            &&& r.files@[i].1 == tree.files@[i].path
            &&& r.files@[i].2 == tree.files@[i].size
            &&& relative_path(tree.root@, tree.files@[i].path@) matches Some(relative)
                && r.files@[i].0 == local_target(destination, relative)
        },
{
    let names = views(tree.directories@);
    let paths = entry_paths(tree.files@);
    let out = outside(tree.root@);
    crate::sequences::first_index_properties(names, out);
    crate::sequences::first_index_properties(paths, out);
    let n = first_index(names, out);
    let m = first_index(paths, out);
    assert forall|k: int| 0 <= k < n implies relative_path(
        tree.root@,
        (#[trigger] tree.directories@[k])@,
    ) is Some by {
        assert(!out(names[k]));
    }
    assert forall|k: int| 0 <= k < m implies relative_path(
        tree.root@,
        (#[trigger] tree.files@[k]).path@,
    ) is Some by {
        assert(!out(paths[k]));
    }
    if n < names.len() {
        assert(out(names[n]));
        assert(relative_path(tree.root@, tree.directories@[n]@) is None);
    }
    if m < paths.len() {
        assert(out(paths[m]));
        assert(relative_path(tree.root@, tree.files@[m].path@) is None);
    }
}

/// A plan for an upload holds every directory that was found, once, and none before one that is
/// less deep; and every remote path of a file that was found, once, with the local file that was
/// first found for it.
pub proof fn upload_plan_is_complete(
    directories: Seq<String>,
    files: Seq<(PathBuf, String)>,
    plan: LocalUploadPlan,
    i: int,
    j: int,
    k: int,
)
    requires
        is_upload_plan(directories, files, plan),
    ensures
        0 <= k < directories.len() ==> exists|a: int|
            0 <= a < plan.directories@.len() && (#[trigger] plan.directories@[a])@
                == directories[k]@,
        0 <= k < files.len() ==> exists|a: int|
            0 <= a < plan.files@.len() && (#[trigger] plan.files@[a]).1@ == files[k].1@,
        0 <= i < j < plan.directories@.len() ==> plan.directories@[i]@ != plan.directories@[j]@
            && crate::remote_path::path_depth(plan.directories@[i]@)
            <= crate::remote_path::path_depth(plan.directories@[j]@),
        0 <= i < j < plan.files@.len() ==> plan.files@[i].1@ != plan.files@[j].1@,
        0 <= i < plan.directories@.len() ==> directories.contains(plan.directories@[i]),
        0 <= i < plan.files@.len() ==> exists|a: int|
            0 <= a < files.len() && #[trigger] files[a] == plan.files@[i] && forall|b: int|
                0 <= b < a ==> (#[trigger] files[b]).1@ != files[a].1@,
{
    let keys = views(directories);
    let order = choose|order: Seq<usize>| #[trigger]
        is_first_order(true, keys, order) && plan.directories@ == Seq::new(
            order.len(),
            |i: int| directories[order[i] as int],
        );
    let remote = remote_keys(files);
    let sent = choose|order: Seq<usize>| #[trigger]
        is_first_order(false, remote, order) && plan.files@ == Seq::new(
            order.len(),
            |i: int| files[order[i] as int],
        );
    if 0 <= k < directories.len() {
        assert(is_listed(keys, order, keys[k]));
        let a = choose|a: int| 0 <= a < order.len() && keys[k] == keys[(
        #[trigger] order[a]) as int];
        assert(plan.directories@[a]@ == directories[k]@);
    }
    if 0 <= k < files.len() {
        assert(is_listed(remote, sent, remote[k]));
        let a = choose|a: int| 0 <= a < sent.len() && remote[k] == remote[(
        #[trigger] sent[a]) as int];
        assert(plan.files@[a].1@ == files[k].1@);
    }
    if 0 <= i < j < plan.directories@.len() {
        assert(key_before(true, keys[order[i] as int], keys[order[j] as int]));
        key_before_total(true, keys[order[i] as int], keys[order[j] as int]);
    }
    if 0 <= i < j < plan.files@.len() {
        assert(key_before(false, remote[sent[i] as int], remote[sent[j] as int]));
        key_before_total(false, remote[sent[i] as int], remote[sent[j] as int]);
    }
    if 0 <= i < plan.directories@.len() {
        assert(directories[order[i] as int] == plan.directories@[i]);
    }
    if 0 <= i < plan.files@.len() {
        let a = sent[i] as int;
        assert(files[a] == plan.files@[i]);
        assert forall|b: int| 0 <= b < a implies (#[trigger] files[b]).1@ != files[a].1@ by {
            assert(remote[b] != remote[a]);
        }
    }
}

/// A selected entry that stands directly in the browser's directory goes to the destination under
/// its own name; one from elsewhere goes there under its name too.
pub proof fn selected_entry_keeps_its_name(
    root: Seq<char>,
    destination: PathBuf,
    entry: RemoteFileEntry,
    name: Seq<char>,
)
    requires
        crate::remote_path::is_name(name),
        name != "."@ && name != ".."@,
        root.len() > 0,
    ensures
        root != "."@ && entry.path@ == join_path(root, name) ==> selected_target(
            root,
            destination,
            entry,
        ) == local_join(destination, name),
        relative_path(root, entry.path@) is None && entry.name@ == name ==> selected_target(
            root,
            destination,
            entry,
        ) == local_join(destination, name),
{
    if root != "."@ && entry.path@ == join_path(root, name) {
        crate::remote_path::join_is_below(root, name);
        crate::local_path::remote_names_go_down(destination, name, name);
    }
}

} // verus!
