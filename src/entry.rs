use vstd::prelude::*;

verus! {

/// The stage of a filesystem operation at which an I/O call failed.
#[derive(Clone, Copy, Debug, PartialEq, Eq, Structural)]
pub enum IoPhase {
    Create,
    Write,
    Sync,
    Rename,
    Read,
    Metadata,
    Remove,
}

/// Why an operation of this library failed.
#[derive(Clone, Copy, Debug, PartialEq, Eq, Structural)]
pub enum FsError {
    /// No parent component, a bad name, or an encoding that is not UTF-8.
    InvalidPath,
    NotFound,
    AlreadyExists,
    NotADirectory,
    IoFailure(IoPhase),
    /// The registry's lock could not be taken.
    LockFailure,
    /// A picker dialog was dismissed.
    UserCancelled,
}

/// What a path names on disk, as observed just before an operation.
#[derive(Clone, Copy, Debug, PartialEq, Eq, Structural)]
pub enum PathKind {
    Missing,
    File,
    Directory,
}

/// A file opened, read or created: where it is, what it holds, what to call it.
#[derive(Clone, Debug, PartialEq, Eq)]
pub struct FileData {
    pub path: String,
    pub content: String,
    pub name: String,
}

/// Where a "save as" put the document.
#[derive(Clone, Debug, PartialEq, Eq)]
pub struct SaveResult {
    pub path: String,
    pub name: String,
}

/// One node of a directory snapshot. `children` is `None` for a file,
/// `Some` of an empty vector for a directory that was not expanded (or is
/// empty), and `Some` of its sorted entries for an expanded directory.
#[derive(Debug)]
pub struct FileEntry {
    pub name: String,
    pub path: String,
    pub is_dir: bool,
    pub is_markdown: bool,
    pub children: Option<Vec<FileEntry>>,
}

/// A folder opened in the browser, with its top-level entries.
#[derive(Debug)]
pub struct FolderData {
    pub path: String,
    pub name: String,
    pub entries: Vec<FileEntry>,
}

/// One item of a directory listing as the filesystem reported it. `path` is
/// `None` where the entry's path is not valid UTF-8.
#[derive(Clone, Debug, PartialEq, Eq)]
pub struct RawEntry {
    pub name: String,
    pub path: Option<String>,
    pub is_dir: bool,
}

} // verus!
