use vstd::prelude::*;
use vstd::string::*;
use crate::entry::FileData;
use crate::entry::FileEntry;
use crate::entry::FolderData;
use crate::entry::FsError;
use crate::entry::PathKind;
use crate::entry::RawEntry;
use crate::entry::SaveResult;
use crate::path::display_name;
use crate::path::extension;
use crate::path::file_name;
use crate::path::is_valid_item_name;
use crate::path::join;
use crate::path::name_or;
use crate::path::parent;
use crate::path::path_extension;
use crate::path::path_file_name;
use crate::path::path_joined;
use crate::path::path_parent;
use crate::path::path_with_extension;
use crate::path::valid_item_name;
use crate::path::with_extension;
use crate::scan::scan_outcome;
use crate::scan::scan_dir;

verus! {

/// How deep a folder opened in the browser is read at once.
pub const FOLDER_DEPTH: u32 = 2;

/// How deep a directory expanded in the browser is read.
pub const EXPAND_DEPTH: u32 = 1;

/// How an item that exists is removed.
#[derive(Clone, Copy, Debug, PartialEq, Eq, Structural)]
pub enum Removal {
    /// A directory, with everything under it.
    Tree,
    File,
}

/// The document at `path`, given whether it exists and, where it does, what
/// reading it gave: `NotFound` where it does not exist, the read's error where
/// that failed, else the content named by its file name or "Untitled".
pub fn read_file(path: String, exists: bool, content: Result<String, FsError>) -> (r: Result<
    FileData,
    FsError,
>)
    ensures
        !exists ==> (r matches Err(e) && e == FsError::NotFound),
        exists ==> match content {
            Ok(c) => (r matches Ok(d) && d.path@ == path@ && d.content@ == c@ && d.name@ == name_or(
                path@,
                "Untitled"@,
            )),
            Err(e) => r == Err::<FileData, FsError>(e),
        },
{
    if !exists {
        return Err(FsError::NotFound);
    }
    let content = match content {
        Ok(c) => c,
        Err(e) => return Err(e),
    };
    let name = display_name(path.as_str(), "Untitled");
    Ok(FileData { path, content, name })
}

/// The document that creating `path` makes, given whether something is
/// there already: `AlreadyExists` if so, else the content given (empty when
/// none was) under the file name or "Untitled".
pub fn create_file(path: String, exists: bool, content: Option<String>) -> (r: Result<
    FileData,
    FsError,
>)
    ensures
        exists ==> r == Err::<FileData, FsError>(FsError::AlreadyExists),
        !exists ==> (r matches Ok(d) && d.path@ == path@ && d.name@ == name_or(path@, "Untitled"@)
            && d.content@ == match content {
            Some(c) => c@,
            None => Seq::<char>::empty(),
        }),
{
    if exists {
        return Err(FsError::AlreadyExists);
    }
    let body = match content {
        Some(c) => c,
        None => String::new(),
    };
    let name = display_name(path.as_str(), "Untitled");
    Ok(FileData { path, content: body, name })
}

/// The entry for a folder created at `path`, given whether something is
/// there already: `AlreadyExists` if so, else an empty, expanded directory
/// named by its file name or "New Folder".
pub fn create_folder(path: String, exists: bool) -> (r: Result<FileEntry, FsError>)
    ensures
        exists ==> (r matches Err(e) && e == FsError::AlreadyExists),
        !exists ==> (r matches Ok(e) && e.path@ == path@ && e.name@ == name_or(path@, "New Folder"@)
            && e.is_dir && !e.is_markdown && e.children is Some && e.children->0@.len() == 0),
{
    if exists {
        return Err(FsError::AlreadyExists);
    }
    let name = display_name(path.as_str(), "New Folder");
    Ok(FileEntry { name, path, is_dir: true, is_markdown: false, children: Some(Vec::new()) })
}

/// Where renaming the item at `old_path` to `new_name` puts it: `NotFound`
/// where the item does not exist, `InvalidPath` where the name is empty or
/// holds a path separator or the item has no parent, else the name joined to
/// the item's parent.
pub fn rename_item(old_path: &str, exists: bool, new_name: &str) -> (r: Result<String, FsError>)
    ensures
        !exists ==> (r matches Err(e) && e == FsError::NotFound),
        exists && !valid_item_name(new_name@) ==> (r matches Err(e) && e == FsError::InvalidPath),
        exists && valid_item_name(new_name@) ==> match path_parent(old_path@) {
            Some(dir) => (r matches Ok(p) && p@ == path_joined(dir, new_name@)),
            None => (r matches Err(e) && e == FsError::InvalidPath),
        },
{
    if !exists {
        return Err(FsError::NotFound);
    }
    if !is_valid_item_name(new_name) {
        return Err(FsError::InvalidPath);
    }
    match parent(old_path) {
        Some(dir) => Ok(join(dir.as_str(), new_name)),
        None => Err(FsError::InvalidPath),
    }
}

/// Where moving the item at `source_path` into `target_dir` puts it:
/// `NotFound` where the item does not exist, `NotADirectory` where the target
/// is not a directory, `InvalidPath` where the source has no file name, else
/// its file name joined to the target.
pub fn move_item(source_path: &str, exists: bool, target_dir: &str, target: PathKind) -> (r:
    Result<String, FsError>)
    ensures
        !exists ==> (r matches Err(e) && e == FsError::NotFound),
        exists && target != PathKind::Directory ==> (r matches Err(e) && e == FsError::NotADirectory),
        exists && target == PathKind::Directory ==> match path_file_name(source_path@) {
            Some(n) => (r matches Ok(p) && p@ == path_joined(target_dir@, n)),
            None => (r matches Err(e) && e == FsError::InvalidPath),
        },
{
    if !exists {
        return Err(FsError::NotFound);
    }
    if target != PathKind::Directory {
        return Err(FsError::NotADirectory);
    }
    match file_name(source_path) {
        Some(n) => Ok(join(target_dir, n.as_str())),
        None => Err(FsError::InvalidPath),
    }
}

/// Claims `dest` for a rename or a move: `AlreadyExists` where something is
/// there, in which case the source is to be left as it is.
pub fn claim_destination(dest: String, dest_exists: bool) -> (r: Result<String, FsError>)
    ensures
        dest_exists ==> (r matches Err(e) && e == FsError::AlreadyExists),
        !dest_exists ==> (r matches Ok(p) && p@ == dest@),
{
    if dest_exists {
        Err(FsError::AlreadyExists)
    } else {
        Ok(dest)
    }
}

/// How to delete what `kind` says is at a path: `NotFound` where nothing is.
pub fn delete_item(kind: PathKind) -> (r: Result<Removal, FsError>)
    ensures
        r == match kind {
            PathKind::Missing => Err(FsError::NotFound),
            PathKind::Directory => Ok(Removal::Tree),
            PathKind::File => Ok(Removal::File),
        },
{
    match kind {
        PathKind::Missing => Err(FsError::NotFound),
        PathKind::Directory => Ok(Removal::Tree),
        PathKind::File => Ok(Removal::File),
    }
}

/// The path a "save as" writes to: the chosen one, with the extension "md"
/// where it has none; and the name shown for it, or "Untitled.md".
pub fn save_markdown_file_as(chosen: &str) -> (r: SaveResult)
    ensures
        r.path@ == match path_extension(chosen@) {
            Some(_) => chosen@,
            None => path_with_extension(chosen@, "md"@),
        },
        r.name@ == name_or(r.path@, "Untitled.md"@),
{
    let path = match extension(chosen) {
        Some(_) => chosen.to_string(),
        None => {
            proof {
                reveal_strlit("md");
                assert(!"md"@.contains('/') && !"md"@.contains('\\'));
            }
            with_extension(chosen, "md")
        },
    };
    let name = display_name(path.as_str(), "Untitled.md");
    SaveResult { path, name }
}

/// The entries of the directory at `path`, one level deep, for expanding it
/// in the browser: `NotFound` where nothing is there, `NotADirectory` where a
/// file is, else as `scan_dir` makes them.
pub fn read_directory<F>(read: &F, path: &str, kind: PathKind) -> (r: Result<
    Vec<FileEntry>,
    FsError,
>) where F: Fn(&str) -> Result<Vec<RawEntry>, FsError>
    requires
        forall|p: &str| read.requires((p,)),
    ensures
        kind == PathKind::Missing ==> (r matches Err(e) && e == FsError::NotFound),
        kind == PathKind::File ==> (r matches Err(e) && e == FsError::NotADirectory),
        kind == PathKind::Directory ==> scan_outcome(*read, path@, 0, EXPAND_DEPTH as int, r),
{
    match kind {
        PathKind::Missing => Err(FsError::NotFound),
        PathKind::File => Err(FsError::NotADirectory),
        PathKind::Directory => scan_dir(read, path, 0, EXPAND_DEPTH),
    }
}

/// The folder at `path` as the browser opens it: named by its file name or
/// "Folder", with its entries read two levels deep as `scan_dir` makes them.
pub fn open_folder_dialog<F>(read: &F, path: &str) -> (r: Result<FolderData, FsError>) where
    F: Fn(&str) -> Result<Vec<RawEntry>, FsError>
    requires
        forall|p: &str| read.requires((p,)),
    ensures
        scan_outcome(
            *read,
            path@,
            0,
            FOLDER_DEPTH as int,
            match r {
                Ok(f) => Ok(f.entries),
                Err(e) => Err(e),
            },
        ),
        r matches Ok(f) ==> f.path@ == path@ && f.name@ == name_or(path@, "Folder"@),
{
    let entries = match scan_dir(read, path, 0, FOLDER_DEPTH) {
        Ok(es) => es,
        Err(e) => return Err(e),
    };
    let name = display_name(path, "Folder");
    Ok(FolderData { path: path.to_string(), name, entries })
}

} // verus!
