//! The state of the entries of a directory in their git repository, and a
//! cache that gives each directory the most urgent state of its files.

use vstd::prelude::*;
use crate::named::Named;

verus! {

/// The state of a file in its git repository.
#[derive(Debug, Clone, Copy, PartialEq, Eq)]
pub enum GitStatus {
    /// Not tracked.
    Untracked,
    /// Changed.
    Modified,
    /// Deleted.
    Deleted,
    /// Renamed.
    Renamed,
    /// Ignored.
    Ignored,
    /// In conflict.
    Conflict,
    /// Unchanged.
    Clean,
}

/// What git reports of a file, one flag for each thing that can be said
/// of it.
#[derive(Debug, Clone, Copy, PartialEq, Eq)]
pub struct StatusFlags {
    pub ignored: bool,
    pub conflicted: bool,
    pub wt_new: bool,
    pub wt_modified: bool,
    pub wt_deleted: bool,
    pub index_deleted: bool,
    pub wt_renamed: bool,
    pub index_renamed: bool,
}

/// How urgent a state is: a conflict most, a clean file least.
pub open spec fn priority_of(status: GitStatus) -> u8 {
    match status {
        GitStatus::Conflict => 6,
        GitStatus::Modified => 5,
        GitStatus::Deleted => 5,
        GitStatus::Renamed => 5,
        GitStatus::Untracked => 4,
        GitStatus::Ignored => 3,
        GitStatus::Clean => 1,
    }
}

/// The state that a set of flags amounts to. The flags are tried in the
/// order ignored, conflicted, new, modified, deleted, renamed; a file of
/// which none is set is clean.
pub open spec fn status_of_flags(flags: StatusFlags) -> GitStatus {
    if flags.ignored {
        GitStatus::Ignored
    } else if flags.conflicted {
        GitStatus::Conflict
    } else if flags.wt_new {
        GitStatus::Untracked
    } else if flags.wt_modified {
        GitStatus::Modified
    } else if flags.wt_deleted || flags.index_deleted {
        GitStatus::Deleted
    } else if flags.wt_renamed || flags.index_renamed {
        GitStatus::Renamed
    } else {
        GitStatus::Clean
    }
}

impl GitStatus {
    /// How urgent this state is.
    pub fn priority(&self) -> (p: u8)
        ensures
            p == priority_of(*self),
    {
        match self {
            GitStatus::Conflict => 6,
            GitStatus::Modified | GitStatus::Deleted | GitStatus::Renamed => 5,
            GitStatus::Untracked => 4,
            GitStatus::Ignored => 3,
            GitStatus::Clean => 1,
        }
    }

    /// The word for this state.
    pub fn to_string(&self) -> (s: String)
        ensures
            s@ == match self {
                GitStatus::Untracked => "Untracked"@,
                GitStatus::Modified => "Modified"@,
                GitStatus::Deleted => "Deleted"@,
                GitStatus::Renamed => "Renamed"@,
                GitStatus::Ignored => "Ignored"@,
                GitStatus::Conflict => "Conflict"@,
                GitStatus::Clean => "Clean"@,
            },
    {
        match self {
            GitStatus::Untracked => "Untracked".to_owned(),
            GitStatus::Modified => "Modified".to_owned(),
            GitStatus::Deleted => "Deleted".to_owned(),
            GitStatus::Renamed => "Renamed".to_owned(),
            GitStatus::Ignored => "Ignored".to_owned(),
            GitStatus::Conflict => "Conflict".to_owned(),
            GitStatus::Clean => "Clean".to_owned(),
        }
    }

    /// The state that a set of flags amounts to.
    pub fn from_flags(flags: StatusFlags) -> (status: GitStatus)
        ensures
            status == status_of_flags(flags),
    {
        if flags.ignored {
            GitStatus::Ignored
        } else if flags.conflicted {
            GitStatus::Conflict
        } else if flags.wt_new {
            GitStatus::Untracked
        } else if flags.wt_modified {
            GitStatus::Modified
        } else if flags.wt_deleted || flags.index_deleted {
            GitStatus::Deleted
        } else if flags.wt_renamed || flags.index_renamed {
            GitStatus::Renamed
        } else {
            GitStatus::Clean
        }
    }
}

/// What git reports of one path: the path, the directory it lies in if it
/// lies in one, and its state.
pub struct StatusEntry {
    pub path: String,
    pub parent: Option<String>,
    pub status: GitStatus,
}

/// The state of `path` as a file: that of the last entry with this path.
pub open spec fn file_status(entries: Seq<StatusEntry>, path: Seq<char>) -> Option<GitStatus>
    decreases entries.len(),
{
    if entries.len() == 0 {
        None
    } else if entries.last().path@ == path {
        Some(entries.last().status)
    } else {
        file_status(entries.drop_last(), path)
    }
}

/// The state of `dir` as a directory: the most urgent state among the
/// entries that lie in it, and among equally urgent ones the last.
pub open spec fn dir_status(entries: Seq<StatusEntry>, dir: Seq<char>) -> Option<GitStatus>
    decreases entries.len(),
{
    if entries.len() == 0 {
        None
    } else {
        let before = dir_status(entries.drop_last(), dir);
        let entry = entries.last();
        match entry.parent {
            Some(parent) => if parent@ == dir {
                match before {
                    Some(best) => if priority_of(entry.status) >= priority_of(best) {
                        Some(entry.status)
                    } else {
                        before
                    },
                    None => Some(entry.status),
                }
            } else {
                before
            },
            None => before,
        }
    }
}

/// The state of `path`: its state as a directory if any entry lies in it,
/// and else its state as a file.
pub open spec fn cached_status(entries: Seq<StatusEntry>, path: Seq<char>) -> Option<GitStatus> {
    match dir_status(entries, path) {
        Some(status) => Some(status),
        None => file_status(entries, path),
    }
}

/// The states of the paths of a repository.
pub struct GitCache {
    files: Named<GitStatus>,
    dirs: Named<GitStatus>,
}

fn lookup(map: &Named<GitStatus>, path: &str) -> (r: Option<GitStatus>)
    ensures
        r == if map@.contains_key(path@) {
            Some(map@[path@])
        } else {
            None
        },
{
    match map.get(path) {
        Some(status) => Some(*status),
        None => None,
    }
}

impl GitCache {
    /// The state that the cache holds for `path`, if any.
    pub closed spec fn status(&self, path: Seq<char>) -> Option<GitStatus> {
        if self.dirs@.contains_key(path) {
            Some(self.dirs@[path])
        } else if self.files@.contains_key(path) {
            Some(self.files@[path])
        } else {
            None
        }
    }

    /// The cache of what git reports. A path has the state of its last
    /// entry; a directory in which entries lie has the most urgent of their
    /// states instead.
    pub fn from_entries(entries: &Vec<StatusEntry>) -> (cache: GitCache)
        ensures
            forall|path: Seq<char>| #[trigger] cache.status(path) == cached_status(entries@, path),
    {
        let mut files: Named<GitStatus> = Named::new();
        let mut dirs: Named<GitStatus> = Named::new();
        let mut i: usize = 0;
        assert(entries@.take(0) =~= Seq::<StatusEntry>::empty());
        while i < entries.len()
            invariant
                i <= entries.len(),
                forall|path: Seq<char>|
                    (if files@.contains_key(path) {
                        Some(files@[path])
                    } else {
                        None
                    }) == #[trigger] file_status(entries@.take(i as int), path),
                forall|path: Seq<char>|
                    (if dirs@.contains_key(path) {
                        Some(dirs@[path])
                    } else {
                        None
                    }) == #[trigger] dir_status(entries@.take(i as int), path),
            decreases entries.len() - i,
        {
            let entry = &entries[i];
            let ghost prev = entries@.take(i as int);
            let ghost next = entries@.take(i + 1);
            let ghost files0 = files@;
            let ghost dirs0 = dirs@;
            proof {
                assert(next.drop_last() =~= prev);
                assert(next.last() == entries@[i as int]);
            }
            files.insert(entry.path.as_str(), entry.status);
            if let Some(parent) = &entry.parent {
                let better = match lookup(&dirs, parent.as_str()) {
                    Some(best) => entry.status.priority() >= best.priority(),
                    None => true,
                };
                if better {
                    dirs.insert(parent.as_str(), entry.status);
                }
            }
            proof {
                assert forall|path: Seq<char>|
                    (if files@.contains_key(path) {
                        Some(files@[path])
                    } else {
                        None
                    }) == #[trigger] file_status(next, path) by {
                    assert(file_status(prev, path) == if files0.contains_key(path) {
                        Some(files0[path])
                    } else {
                        None
                    });
                }
                assert forall|path: Seq<char>|
                    (if dirs@.contains_key(path) {
                        Some(dirs@[path])
                    } else {
                        None
                    }) == #[trigger] dir_status(next, path) by {
                    assert(dir_status(prev, path) == if dirs0.contains_key(path) {
                        Some(dirs0[path])
                    } else {
                        None
                    });
                    if let Some(parent) = entry.parent {
                        assert(dir_status(prev, parent@) == if dirs0.contains_key(parent@) {
                            Some(dirs0[parent@])
                        } else {
                            None
                        });
                    }
                }
            }
            i += 1;
        }
        assert(entries@.take(i as int) =~= entries@);
        let cache = GitCache { files, dirs };
        assert forall|path: Seq<char>| #[trigger]
            cache.status(path) == cached_status(entries@, path) by {
            assert(file_status(entries@, path) == if files@.contains_key(path) {
                Some(files@[path])
            } else {
                None
            });
            assert(dir_status(entries@, path) == if dirs@.contains_key(path) {
                Some(dirs@[path])
            } else {
                None
            });
        }
        cache
    }

    /// The state of `path`, if the cache holds one.
    pub fn get_status(&self, path: &str) -> (r: Option<GitStatus>)
        ensures
            r == self.status(path@),
    {
        match lookup(&self.dirs, path) {
            Some(status) => Some(status),
            None => lookup(&self.files, path),
        }
    }
}

} // verus!
