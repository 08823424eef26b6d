use vstd::prelude::*;

use crate::normalize::{normalized_text, is_sliceable, NormalizedPath};

verus! {

/// The type of a directory entry, read without following a symbolic link,
/// except that a link to a directory is told apart from other links.
#[derive(Clone, Copy, Debug, PartialEq, Eq, Structural)]
pub enum FileKind {
    Directory,
    File,
    /// A symbolic link whose target is not a directory, or cannot be read.
    Symlink,
    /// A symbolic link whose target is a directory.
    DirectoryLink,
    /// A socket, a FIFO, a device, or anything else that is neither a
    /// directory, a regular file nor a link.
    Other,
}

/// What the filesystem reports about a candidate's own path, read without
/// following it, and for a link, its canonical target.
pub enum PathProbe {
    Directory,
    File,
    /// Neither a directory, a regular file nor a link.
    Special,
    /// A symbolic link, with the canonical path of what it points to.
    Link(String),
    /// A symbolic link whose target could not be canonicalized, and why.
    BrokenLink(String),
    /// The metadata or the link could not be read, and why.
    Unreadable(String),
}

/// One entry of a directory listing.
pub struct DirEntryInfo {
    /// The entry's name, or `None` where it is not valid text.
    pub name: Option<String>,
    /// The directory's path joined with the entry's name.
    pub path: String,
    pub kind: FileKind,
}

impl DirEntryInfo {
    pub fn new(name: Option<String>, path: String, kind: FileKind) -> (r: DirEntryInfo)
        ensures
            r.name == name,
            r.path == path,
            r.kind == kind,
    {
        DirEntryInfo { name, path, kind }
    }
}

/// A directory waiting on the work stack, with its depth below the root and
/// the entry type that the listing gave, where it came from one.
pub struct SearchCandidate {
    pub depth: usize,
    pub path: String,
    pub kind: Option<FileKind>,
}

impl SearchCandidate {
    pub fn to_path(&self) -> (r: &str)
        ensures
            r@ == self.path@,
    {
        self.path.as_str()
    }

    /// The candidate's path as it is shown; `windows` as for `NormalizedPath::new`.
    pub fn normal(&self, windows: bool) -> (r: NormalizedPath)
        ensures
            !windows ==> r is Untouched && r.text() == self.path@,
            windows ==> (r is Sliced) == is_sliceable(self.path@),
            r.text() == normalized_text(self.path@, windows),
    {
        NormalizedPath::new(self.path.as_str(), windows)
    }

    pub fn depth(&self) -> (r: usize)
        ensures
            r == self.depth,
    {
        self.depth
    }

    /// The probe that the listing already answers: the entry's own type,
    /// where it is known and is not a link (a link still has to be resolved).
    pub fn get_metadata(&self) -> (r: Option<PathProbe>)
        ensures
            r == match self.kind {
                Some(FileKind::Directory) => Some(PathProbe::Directory),
                Some(FileKind::File) => Some(PathProbe::File),
                Some(FileKind::Other) => Some(PathProbe::Special),
                _ => None::<PathProbe>,
            },
    {
        match self.kind {
            Some(FileKind::Directory) => Some(PathProbe::Directory),
            Some(FileKind::File) => Some(PathProbe::File),
            Some(FileKind::Other) => Some(PathProbe::Special),
            _ => None,
        }
    }

    pub fn from_path(path: String, depth: usize) -> (r: SearchCandidate)
        ensures
            r.path == path,
            r.depth == depth,
            r.kind is None,
    {
        SearchCandidate { depth, path, kind: None }
    }

    pub fn from_dir_entry(entry: DirEntryInfo, depth: usize) -> (r: SearchCandidate)
        ensures
            r.path == entry.path,
            r.depth == depth,
            r.kind == Some(entry.kind),
    {
        SearchCandidate { depth, path: entry.path, kind: Some(entry.kind) }
    }
}

} // verus!
