//! What a remote directory listing holds.
use vstd::prelude::*;

verus! {

/// What kind of thing a remote path names.
#[derive(Clone, Copy, Debug, PartialEq, Eq, Structural)]
pub enum RemoteFileKind {
    File,
    Directory,
    Symlink,
    Other,
}

/// One entry of a remote directory.
#[derive(Debug, PartialEq, Eq)]
pub struct RemoteFileEntry {
    pub name: String,
    pub path: String,
    pub kind: RemoteFileKind,
    pub size: Option<u64>,
    /// Seconds since the Unix epoch.
    pub modified: Option<u64>,
}

impl Clone for RemoteFileEntry {
    fn clone(&self) -> (r: Self)
        ensures
            r == *self,
    {
        RemoteFileEntry {
            name: self.name.clone(),
            path: self.path.clone(),
            kind: self.kind,
            size: self.size,
            modified: self.modified,
        }
    }
}

/// A directory as the server resolved it, with its entries.
#[derive(Debug, PartialEq, Eq)]
pub struct RemoteDirectory {
    pub path: String,
    pub entries: Vec<RemoteFileEntry>,
}

/// Everything below a remote directory.
#[derive(Debug, PartialEq, Eq)]
pub struct RemoteDirectoryTree {
    pub root: String,
    pub directories: Vec<String>,
    pub files: Vec<RemoteFileEntry>,
}

} // verus!
