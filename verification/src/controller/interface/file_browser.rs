//! Browsing the files under the roots the controller is allowed to show.
use vstd::prelude::*;
use crate::order::{TextKeyed, sort_by_text, sorted_by_text};
use crate::paths::{file_name_of, is_absolute, path_is_absolute, path_starts_with, std_file_name, std_starts_with};

verus! {

/// Which entry to show: a path relative to a root, and how.
#[derive(Debug)]
pub struct GetEntryQuery {
    pub root: String,
    pub relative_path: Option<String>,
    pub list_children: bool,
    pub include_hidden: bool,
}

/// The roots that may be browsed.
#[derive(Debug)]
pub struct GetRootsResponse {
    pub roots: Vec<String>,
}

/// The kind of a file system entry.
#[derive(Debug, Clone, Copy, PartialEq, Eq, Structural)]
pub enum EntryType {
    File,
    Directory,
    Symlink,
    Other,
}

/// A file system entry as shown.
#[derive(Debug)]
pub struct FsEntry {
    pub name: String,
    pub path: String,
    pub entry_type: EntryType,
    pub size: Option<u64>,
    pub modified_unix_ms: Option<u64>,
    pub readonly: Option<bool>,
    pub has_children: Option<bool>,
}

/// An entry and, when asked for a directory, its children.
#[derive(Debug)]
pub struct GetEntryResponse {
    pub entry: FsEntry,
    pub children: Option<Vec<FsEntry>>,
}

/// What the file system says of an entry (its metadata, read without following a link).
#[derive(Debug, Clone, Copy)]
pub struct EntryMetadata {
    pub is_dir: bool,
    pub is_file: bool,
    pub is_symlink: bool,
    pub len: u64,
    pub modified_unix_ms: Option<u64>,
    pub readonly: bool,
}

/// Why browsing failed.
#[derive(Debug)]
pub enum FileBrowserError {
    /// The message of an I/O error.
    Io(String),
    /// The path is outside the allowed roots, or the relative path is absolute.
    PathNotAllowed(String),
}

/// The result refuses the path `p` as not allowed.
pub open spec fn refused<T>(r: Result<T, FileBrowserError>, p: Seq<char>) -> bool {
    match r {
        Err(FileBrowserError::PathNotAllowed(q)) => q@ == p,
        _ => false,
    }
}

/// A path is hidden when its file name starts with `.`.
pub open spec fn hidden(path: Seq<char>) -> bool {
    match std_file_name(path) {
        Some(n) => n.len() > 0 && n[0] == '.',
        None => false,
    }
}

/// Whether a path is hidden.
pub fn is_hidden(path: &str) -> (b: bool)
    ensures
        b == hidden(path@),
{
    match file_name_of(path) {
        Some(n) => n.unicode_len() > 0 && n.get_char(0) == '.',
        None => false,
    }
}

/// The kind of an entry: a directory, else a file, else a link, else something other.
pub open spec fn entry_type_of(is_dir: bool, is_file: bool, is_symlink: bool) -> EntryType {
    if is_dir {
        EntryType::Directory
    } else if is_file {
        EntryType::File
    } else if is_symlink {
        EntryType::Symlink
    } else {
        EntryType::Other
    }
}

/// The kind of an entry from its file type.
pub fn map_entry_type(is_dir: bool, is_file: bool, is_symlink: bool) -> (t: EntryType)
    ensures
        t == entry_type_of(is_dir, is_file, is_symlink),
{
    if is_dir {
        EntryType::Directory
    } else if is_file {
        EntryType::File
    } else if is_symlink {
        EntryType::Symlink
    } else {
        EntryType::Other
    }
}

/// The entry shown for `path` with metadata `meta`: named by its file name (the whole path
/// when it has none), with a size for files, and for directories whether they have
/// children (`has_children`, which only matters for them).
pub fn build_entry(path: &str, meta: EntryMetadata, has_children: bool) -> (e: FsEntry)
    ensures
        e.name@ == match std_file_name(path@) { Some(n) => n, None => path@ },
        e.path@ == path@,
        e.entry_type == entry_type_of(meta.is_dir, meta.is_file, meta.is_symlink),
        e.size == (if e.entry_type == EntryType::File { Some(meta.len) } else { None }),
        e.has_children == (if e.entry_type == EntryType::Directory { Some(has_children) } else { None }),
        e.modified_unix_ms == meta.modified_unix_ms,
        e.readonly == Some(meta.readonly),
{
    let entry_type = map_entry_type(meta.is_dir, meta.is_file, meta.is_symlink);
    let name = match file_name_of(path) {
        Some(n) => n,
        None => path.to_string(),
    };
    let is_dir = match entry_type { EntryType::Directory => true, _ => false };
    let is_file = match entry_type { EntryType::File => true, _ => false };
    FsEntry {
        name,
        path: path.to_string(),
        entry_type,
        size: if is_file { Some(meta.len) } else { None },
        modified_unix_ms: meta.modified_unix_ms,
        readonly: Some(meta.readonly),
        has_children: if is_dir { Some(has_children) } else { None },
    }
}

/// A child is shown when it is not hidden, or when hidden ones are included.
pub open spec fn shown(path: Seq<char>, include_hidden: bool) -> bool {
    include_hidden || !hidden(path)
}

/// Whether a directory with the children `paths` shows any: one that is not hidden, or any
/// at all when hidden ones are included.
pub fn directory_has_children(paths: &Vec<String>, include_hidden: bool) -> (b: bool)
    ensures
        b == exists|i: int| 0 <= i < paths@.len() && #[trigger] shown(paths@[i]@, include_hidden),
{
    let mut i: usize = 0;
    while i < paths.len()
        invariant
            i <= paths@.len(),
            forall|k: int| 0 <= k < i ==> !#[trigger] shown(paths@[k]@, include_hidden),
        decreases paths@.len() - i,
    {
        if include_hidden || !is_hidden(paths[i].as_str()) {
            assert(shown(paths@[i as int]@, include_hidden));
            return true;
        }
        i = i + 1;
    }
    false
}

/// A relative path to browse must not be absolute; the root names the refusal.
pub fn check_relative_path(root: &str, relative_path: Option<&str>) -> (r: Result<(), FileBrowserError>)
    ensures
        r is Ok <==> !(relative_path is Some && is_absolute(relative_path->0@)),
        r is Err ==> refused(r, root@),
{
    match relative_path {
        Some(rel) => if path_is_absolute(rel) {
            Err(FileBrowserError::PathNotAllowed(root.to_string()))
        } else {
            Ok(())
        },
        None => Ok(()),
    }
}

/// Some allowed root holds both the resolved path and the resolved root.
pub open spec fn within_allowed_roots(resolved_root: Seq<char>, resolved_path: Seq<char>, roots: Seq<String>) -> bool {
    exists|i: int| 0 <= i < roots.len()
        && std_starts_with(resolved_path, #[trigger] roots[i]@)
        && std_starts_with(resolved_root, roots[i]@)
}

/// The resolved path when some allowed (resolved) root holds it and the resolved root;
/// otherwise the path is not allowed.
pub fn path_in_allowed_roots(resolved_root: &str, resolved_path: &str, allowed_roots: &Vec<String>) -> (r: Result<String, FileBrowserError>)
    ensures
        r is Ok <==> within_allowed_roots(resolved_root@, resolved_path@, allowed_roots@),
        r is Ok ==> r->Ok_0@ == resolved_path@,
        r is Err ==> refused(r, resolved_path@),
{
    let mut i: usize = 0;
    while i < allowed_roots.len()
        invariant
            i <= allowed_roots@.len(),
            forall|k: int| 0 <= k < i ==> !(std_starts_with(resolved_path@, #[trigger] allowed_roots@[k]@)
                && std_starts_with(resolved_root@, allowed_roots@[k]@)),
        decreases allowed_roots@.len() - i,
    {
        let root = allowed_roots[i].as_str();
        if path_starts_with(resolved_path, root) && path_starts_with(resolved_root, root) {
            return Ok(resolved_path.to_string());
        }
        i = i + 1;
    }
    Err(FileBrowserError::PathNotAllowed(resolved_path.to_string()))
}

impl TextKeyed for FsEntry {
    open spec fn text_key(&self) -> Seq<char> {
        self.name@
    }

    fn key_str(&self) -> (r: &str) {
        self.name.as_str()
    }
}

/// The children of a directory that are shown, in order: those not hidden, or all when
/// hidden ones are included.
pub fn visible_children(paths: Vec<String>, include_hidden: bool) -> (r: Vec<String>)
    ensures
        r@ == paths@.filter(|p: String| shown(p@, include_hidden)),
{
    let ghost orig = paths@;
    let mut r: Vec<String> = Vec::new();
    let mut i: usize = 0;
    while i < paths.len()
        invariant
            i <= paths@.len(),
            paths@ == orig,
            r@ == orig.take(i as int).filter(|p: String| shown(p@, include_hidden)),
        decreases paths@.len() - i,
    {
        proof {
            let t = orig.take(i + 1);
            assert(t.drop_last() =~= orig.take(i as int));
            assert(t.last() == orig[i as int]);
            reveal_with_fuel(Seq::filter, 1);
        }
        if include_hidden || !is_hidden(paths[i].as_str()) {
            r.push(paths[i].clone());
        }
        i = i + 1;
    }
    assert(orig.take(orig.len() as int) =~= orig);
    r
}

/// The entries of a directory's children ordered by name.
pub fn sort_entries_by_name(entries: Vec<FsEntry>) -> (r: Vec<FsEntry>)
    ensures
        sorted_by_text(r@),
        r@.to_multiset() == entries@.to_multiset(),
{
    sort_by_text(entries)
}

} // verus!
