//! An entry of a directory with what a listing shows of it.

use vstd::prelude::*;
use crate::text::{char_at, chars_of, string_of};
use crate::util::{permission_text, permissions_to_string};

verus! {

/// The kind of an entry, as the file system has it.
#[derive(Debug, Clone, Copy, PartialEq, Eq)]
pub enum FileKind {
    File,
    Directory,
    Symlink,
    Other,
}

/// The kind of an entry, from the three questions that a file type
/// answers: a directory first, then a file, then a symbolic link.
pub open spec fn kind_of_type(is_dir: bool, is_file: bool, is_symlink: bool) -> FileKind {
    if is_dir {
        FileKind::Directory
    } else if is_file {
        FileKind::File
    } else if is_symlink {
        FileKind::Symlink
    } else {
        FileKind::Other
    }
}

impl FileKind {
    /// The kind of an entry, from what its file type says.
    pub fn from_type(is_dir: bool, is_file: bool, is_symlink: bool) -> (kind: FileKind)
        ensures
            kind == kind_of_type(is_dir, is_file, is_symlink),
    {
        if is_dir {
            FileKind::Directory
        } else if is_file {
            FileKind::File
        } else if is_symlink {
            FileKind::Symlink
        } else {
            FileKind::Other
        }
    }

    /// The letter for this kind: `f`, `d`, `l` or `?`.
    pub fn to_string(&self) -> (s: String)
        ensures
            s@ == match self {
                FileKind::File => "f"@,
                FileKind::Directory => "d"@,
                FileKind::Symlink => "l"@,
                FileKind::Other => "?"@,
            },
    {
        match self {
            FileKind::File => "f".to_owned(),
            FileKind::Directory => "d".to_owned(),
            FileKind::Symlink => "l".to_owned(),
            FileKind::Other => "?".to_owned(),
        }
    }
}

/// What the file system says of an entry; `None` where it could not be
/// read.
pub struct Metadata {
    pub size: u64,
    pub mode: u32,
    pub nlink: u64,
    /// When the entry was last modified, in seconds since the epoch.
    pub modified: Option<i64>,
}

/// An entry with what a listing shows of it.
#[derive(Debug, Clone)]
pub struct DetailedEntry {
    path: String,
    name: String,
    ext: Option<String>,
    kind: FileKind,
    size: u64,
    permissions: String,
    timestamp: Option<i64>,
    nlink: u64,
    link_target: Option<String>,
    executable: bool,
}

/// A path without `./` in front, if it has that in front.
pub open spec fn without_dot_slash(path: Seq<char>) -> Seq<char> {
    if path.len() >= 2 && path[0] == '.' && path[1] == '/' {
        path.subrange(2, path.len() as int)
    } else {
        path
    }
}

fn strip_dot_slash(path: &str) -> (out: String)
    ensures
        out@ == without_dot_slash(path@),
{
    let v = chars_of(path);
    if v.len() >= 2 && char_at(&v, 0) == '.' && char_at(&v, 1) == '/' {
        string_of(&v, 2, v.len())
    } else {
        path.to_owned()
    }
}

impl DetailedEntry {
    /// The entry of `path`, from what the file system says of it. Without
    /// metadata the size is 0, the permissions are `unknown`, there is one
    /// link and the entry is not executable. Only a symbolic link has a
    /// target.
    pub fn new(
        path: &str,
        name: String,
        ext: Option<String>,
        kind: FileKind,
        meta: Option<Metadata>,
        link_target: Option<String>,
    ) -> (e: DetailedEntry)
        ensures
            e.spec_path() == without_dot_slash(path@),
            e.spec_name() == name@,
            e.spec_ext() == ext,
            e.spec_kind() == kind,
            e.spec_link_target() == if kind == FileKind::Symlink {
                link_target
            } else {
                None
            },
            match meta {
                Some(m) => {
                    &&& e.spec_size() == m.size
                    &&& e.spec_permissions() == permission_text(m.mode)
                    &&& e.spec_timestamp() == m.modified
                    &&& e.spec_nlink() == m.nlink
                    &&& e.spec_executable() == (m.mode & 0o11 != 0)
                },
                None => {
                    &&& e.spec_size() == 0
                    &&& e.spec_permissions() == "unknown"@
                    &&& e.spec_timestamp() is None
                    &&& e.spec_nlink() == 1
                    &&& !e.spec_executable()
                },
            },
    {
        let target = match kind {
            FileKind::Symlink => link_target,
            _ => None,
        };
        match meta {
            Some(m) => DetailedEntry {
                path: strip_dot_slash(path),
                name,
                ext,
                kind,
                size: m.size,
                permissions: permissions_to_string(m.mode),
                timestamp: m.modified,
                nlink: m.nlink,
                link_target: target,
                executable: m.mode & 0o11 != 0,
            },
            None => DetailedEntry {
                path: strip_dot_slash(path),
                name,
                ext,
                kind,
                size: 0,
                permissions: "unknown".to_owned(),
                timestamp: None,
                nlink: 1,
                link_target: target,
                executable: false,
            },
        }
    }

    pub closed spec fn spec_path(&self) -> Seq<char> {
        self.path@
    }

    pub closed spec fn spec_name(&self) -> Seq<char> {
        self.name@
    }

    pub closed spec fn spec_ext(&self) -> Option<String> {
        self.ext
    }

    pub closed spec fn spec_kind(&self) -> FileKind {
        self.kind
    }

    pub closed spec fn spec_size(&self) -> u64 {
        self.size
    }

    pub closed spec fn spec_permissions(&self) -> Seq<char> {
        self.permissions@
    }

    pub closed spec fn spec_timestamp(&self) -> Option<i64> {
        self.timestamp
    }

    pub closed spec fn spec_nlink(&self) -> u64 {
        self.nlink
    }

    pub closed spec fn spec_executable(&self) -> bool {
        self.executable
    }

    pub closed spec fn spec_link_target(&self) -> Option<String> {
        self.link_target
    }

    /// The path, without `./` in front.
    pub fn path(&self) -> (r: &str)
        ensures
            r@ == self.spec_path(),
    {
        self.path.as_str()
    }

    /// The name of the entry.
    pub fn name(&self) -> (r: &str)
        ensures
            r@ == self.spec_name(),
    {
        self.name.as_str()
    }

    /// The extension of the name, if it has one.
    pub fn ext(&self) -> (r: &Option<String>)
        ensures
            *r == self.spec_ext(),
    {
        &self.ext
    }

    /// The kind of the entry.
    pub fn kind(&self) -> (r: FileKind)
        ensures
            r == self.spec_kind(),
    {
        self.kind
    }

    /// The size in bytes.
    pub fn size(&self) -> (r: u64)
        ensures
            r == self.spec_size(),
    {
        self.size
    }

    /// The permissions, as in `rwxr-xr-x`.
    pub fn permissions(&self) -> (r: &str)
        ensures
            r@ == self.spec_permissions(),
    {
        self.permissions.as_str()
    }

    /// When the entry was last modified, in seconds since the epoch.
    pub fn timestamp(&self) -> (r: Option<i64>)
        ensures
            r == self.spec_timestamp(),
    {
        self.timestamp
    }

    /// The number of hard links.
    pub fn nlink(&self) -> (r: u64)
        ensures
            r == self.spec_nlink(),
    {
        self.nlink
    }

    /// Whether the owner or the group may execute the entry.
    pub fn executable(&self) -> (r: bool)
        ensures
            r == self.spec_executable(),
    {
        self.executable
    }

    /// Where the entry points, if it is a symbolic link.
    pub fn link_target(&self) -> (r: &Option<String>)
        ensures
            *r == self.spec_link_target(),
    {
        &self.link_target
    }
}

} // verus!
