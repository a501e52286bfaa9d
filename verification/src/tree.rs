//! The decisions of a walk through a directory tree. The walk itself reads
//! the file system elsewhere: it takes the next path from the stack, asks
//! here what to do with it, and hands back the children of a directory
//! that is to be walked.

use vstd::prelude::*;
use crate::text::{char_at, chars_of, same_text};

verus! {

/// An entry that a walk yields.
pub struct Entry {
    pub path: String,
    pub name: String,
    pub is_dir: bool,
    pub depth: usize,
}

/// What a walk passes over and how deep it goes.
pub struct WalkOptions {
    /// Pass over entries whose name starts with a full stop.
    pub skip_hidden: bool,
    /// Pass over symbolic links.
    pub skip_symlinks: bool,
    /// Directories that are passed over, by path.
    pub skip_dirs: Vec<String>,
    /// The depth below which nothing is walked; the root has depth 0.
    pub max_depth: usize,
}

impl Default for WalkOptions {
    fn default() -> (o: WalkOptions)
        ensures
            o.skip_hidden,
            o.skip_symlinks,
            o.skip_dirs@.len() == 4,
            o.skip_dirs@[0]@ == "/proc"@,
            o.skip_dirs@[1]@ == "/run"@,
            o.skip_dirs@[2]@ == "/sys"@,
            o.skip_dirs@[3]@ == "/dev"@,
            o.max_depth == usize::MAX,
    {
        let mut skip_dirs: Vec<String> = Vec::new();
        skip_dirs.push("/proc".to_owned());
        skip_dirs.push("/run".to_owned());
        skip_dirs.push("/sys".to_owned());
        skip_dirs.push("/dev".to_owned());
        WalkOptions { skip_hidden: true, skip_symlinks: true, skip_dirs, max_depth: usize::MAX }
    }
}

/// What to do with a path that came off the stack.
#[derive(Debug, Clone, Copy, PartialEq, Eq)]
pub enum Visit {
    /// Pass over it.
    Skip,
    /// Yield it, and walk its children if `descend` is set.
    Yield { descend: bool },
}

/// Whether a name is hidden: it starts with a full stop and has more to it.
pub open spec fn is_hidden(name: Seq<char>) -> bool {
    name.len() > 1 && name[0] == '.'
}

/// Whether `path` is one of `dirs`.
pub open spec fn among(dirs: Seq<String>, path: Seq<char>) -> bool {
    exists|k: int| 0 <= k < dirs.len() && (#[trigger] dirs[k])@ == path
}

/// What a walk does with a path. It passes over what lies too deep, then
/// over symbolic links and hidden names if the options say so, then over
/// directories that the options list. It yields the rest, and walks the
/// children of a directory that lies above the greatest depth.
pub open spec fn visit_of(
    options: WalkOptions,
    path: Seq<char>,
    depth: usize,
    name: Seq<char>,
    is_symlink: bool,
    is_dir: bool,
) -> Visit {
    if depth > options.max_depth {
        Visit::Skip
    } else if options.skip_symlinks && is_symlink {
        Visit::Skip
    } else if options.skip_hidden && is_hidden(name) {
        Visit::Skip
    } else if is_dir && among(options.skip_dirs@, path) {
        Visit::Skip
    } else {
        Visit::Yield { descend: is_dir && depth < options.max_depth }
    }
}

/// A walk: its options, and the paths that are still to be visited, the
/// next one last.
pub struct SyncWalk {
    options: WalkOptions,
    stack: Vec<(String, usize)>,
    root_depth: usize,
}

/// The mathematical value of a [`SyncWalk`].
pub struct SyncWalkView {
    pub options: WalkOptions,
    pub stack: Seq<(String, usize)>,
}

impl View for SyncWalk {
    type V = SyncWalkView;

    closed spec fn view(&self) -> SyncWalkView {
        SyncWalkView { options: self.options, stack: self.stack@ }
    }
}

fn hidden(name: &str) -> (b: bool)
    ensures
        b == is_hidden(name@),
{
    let v = chars_of(name);
    v.len() > 1 && char_at(&v, 0) == '.'
}

fn listed(dirs: &Vec<String>, path: &str) -> (b: bool)
    ensures
        b == among(dirs@, path@),
{
    let mut k: usize = 0;
    while k < dirs.len()
        invariant
            k <= dirs.len(),
            forall|j: int| 0 <= j < k ==> (#[trigger] dirs@[j])@ != path@,
        decreases dirs.len() - k,
    {
        if same_text(dirs[k].as_str(), path) {
            return true;
        }
        k += 1;
    }
    false
}

impl SyncWalk {
    /// A walk that starts at `path`, with the default options.
    pub fn new(path: &str) -> (w: SyncWalk)
        ensures
            w@.stack.len() == 1,
            w@.stack[0].0@ == path@,
            w@.stack[0].1 == 0,
            w@.options.skip_hidden,
            w@.options.skip_symlinks,
            w@.options.skip_dirs@.len() == 4,
            w@.options.max_depth == usize::MAX,
    {
        let mut stack: Vec<(String, usize)> = Vec::new();
        stack.push((path.to_owned(), 0));
        SyncWalk { options: WalkOptions::default(), stack, root_depth: 0 }
    }

    /// This walk, passing over hidden entries or not.
    pub fn skip_hidden(self, skip: bool) -> (w: SyncWalk)
        ensures
            w@.stack == self@.stack,
            w@.options.skip_hidden == skip,
            w@.options.skip_symlinks == self@.options.skip_symlinks,
            w@.options.skip_dirs == self@.options.skip_dirs,
            w@.options.max_depth == self@.options.max_depth,
    {
        let mut w = self;
        w.options.skip_hidden = skip;
        w
    }

    /// This walk, passing over symbolic links or not.
    pub fn skip_symlinks(self, skip: bool) -> (w: SyncWalk)
        ensures
            w@.stack == self@.stack,
            w@.options.skip_hidden == self@.options.skip_hidden,
            w@.options.skip_symlinks == skip,
            w@.options.skip_dirs == self@.options.skip_dirs,
            w@.options.max_depth == self@.options.max_depth,
    {
        let mut w = self;
        w.options.skip_symlinks = skip;
        w
    }

    /// This walk, passing over the directories `dirs`.
    pub fn skip_dirs(self, dirs: Vec<String>) -> (w: SyncWalk)
        ensures
            w@.stack == self@.stack,
            w@.options.skip_hidden == self@.options.skip_hidden,
            w@.options.skip_symlinks == self@.options.skip_symlinks,
            w@.options.skip_dirs == dirs,
            w@.options.max_depth == self@.options.max_depth,
    {
        let mut w = self;
        w.options.skip_dirs = dirs;
        w
    }

    /// This walk, going no deeper than `depth`.
    pub fn max_depth(self, depth: usize) -> (w: SyncWalk)
        ensures
            w@.stack == self@.stack,
            w@.options.skip_hidden == self@.options.skip_hidden,
            w@.options.skip_symlinks == self@.options.skip_symlinks,
            w@.options.skip_dirs == self@.options.skip_dirs,
            w@.options.max_depth == depth,
    {
        let mut w = self;
        w.options.max_depth = depth;
        w
    }

    /// Takes the next path to visit off the stack, with its depth.
    pub fn pop(&mut self) -> (r: Option<(String, usize)>)
        ensures
            final(self)@.options == old(self)@.options,
            match r {
                Some(top) => {
                    &&& old(self)@.stack.len() > 0
                    &&& top == old(self)@.stack.last()
                    &&& final(self)@.stack == old(self)@.stack.drop_last()
                },
                None => old(self)@.stack.len() == 0 && final(self)@.stack == old(self)@.stack,
            },
    {
        self.stack.pop()
    }

    /// What to do with a path that came off the stack, given what the file
    /// system says of it.
    pub fn visit(&self, path: &str, depth: usize, name: &str, is_symlink: bool, is_dir: bool) -> (v:
        Visit)
        ensures
            v == visit_of(self@.options, path@, depth, name@, is_symlink, is_dir),
    {
        if depth > self.options.max_depth {
            Visit::Skip
        } else if self.options.skip_symlinks && is_symlink {
            Visit::Skip
        } else if self.options.skip_hidden && hidden(name) {
            Visit::Skip
        } else if is_dir && listed(&self.options.skip_dirs, path) {
            Visit::Skip
        } else {
            Visit::Yield { descend: is_dir && depth < self.options.max_depth }
        }
    }

    /// Puts the children of a directory on the stack, each with `depth`, so
    /// that they come off in the order in which they are given.
    pub fn push_children(&mut self, children: Vec<String>, depth: usize)
        ensures
            final(self)@.options == old(self)@.options,
            final(self)@.stack.len() == old(self)@.stack.len() + children@.len(),
            forall|k: int|
                0 <= k < old(self)@.stack.len() ==> final(self)@.stack[k] == old(self)@.stack[k],
            forall|k: int|
                0 <= k < children@.len() ==> #[trigger] final(self)@.stack[old(self)@.stack.len()
                    + k] == (children@[children@.len() - 1 - k], depth),
    {
        let mut rest = children;
        let ghost base = self.stack@.len();
        let ghost n = children@.len();
        while rest.len() > 0
            invariant
                self.options == old(self).options,
                base == old(self)@.stack.len(),
                n == children@.len(),
                rest@.len() <= n,
                rest@ == children@.take(rest@.len() as int),
                self.stack@.len() == base + (n - rest@.len()),
                forall|k: int| 0 <= k < base ==> self.stack@[k] == old(self)@.stack[k],
                forall|k: int|
                    0 <= k < n - rest@.len() ==> #[trigger] self.stack@[base + k] == (
                        children@[n - 1 - k],
                        depth,
                    ),
            decreases rest.len(),
        {
            let ghost m = rest@.len();
            match rest.pop() {
                Some(child) => {
                    assert(child == children@[m - 1]);
                    self.stack.push((child, depth));
                    assert(rest@ =~= children@.take(m - 1));
                },
                None => {},
            }
        }
    }
}

/// Whether `s` starts with `prefix`.
pub open spec fn starts_with(s: Seq<char>, prefix: Seq<char>) -> bool {
    prefix.len() <= s.len() && s.subrange(0, prefix.len() as int) == prefix
}

fn has_prefix(v: &Vec<char>, prefix: &str) -> (b: bool)
    ensures
        b == starts_with(v@, prefix@),
{
    let p = chars_of(prefix);
    if p.len() > v.len() {
        return false;
    }
    let mut k: usize = 0;
    while k < p.len()
        invariant
            k <= p.len() <= v.len(),
            p@ == prefix@,
            v@.subrange(0, k as int) == p@.subrange(0, k as int),
        decreases p.len() - k,
    {
        if char_at(v, k) != char_at(&p, k) {
            proof {
                let head = v@.subrange(0, p.len() as int);
                assert(head[k as int] == v@[k as int]);
                assert(head != p@);
            }
            return false;
        }
        assert(v@.subrange(0, k + 1) =~= v@.subrange(0, k as int).push(v@[k as int]));
        assert(p@.subrange(0, k + 1) =~= p@.subrange(0, k as int).push(p@[k as int]));
        k += 1;
    }
    assert(p@.subrange(0, p.len() as int) =~= p@);
    true
}

/// Whether the sizes below `path` are left out of a total: the path starts
/// with `/proc`, `/sys` or `/dev`, where files are no files.
pub fn should_skip_path(path: &str) -> (b: bool)
    ensures
        b == (starts_with(path@, "/proc"@) || starts_with(path@, "/sys"@) || starts_with(
            path@,
            "/dev"@,
        )),
{
    let v = chars_of(path);
    has_prefix(&v, "/proc") || has_prefix(&v, "/sys") || has_prefix(&v, "/dev")
}

/// Whether a walk passes over a name because it is hidden: it starts with a
/// full stop.
pub fn passes_over(name: &str, skip_hidden: bool) -> (b: bool)
    ensures
        b == (skip_hidden && name@.len() > 0 && name@[0] == '.'),
{
    if !skip_hidden {
        return false;
    }
    let v = chars_of(name);
    v.len() > 0 && char_at(&v, 0) == '.'
}

/// Whether a walk goes into a directory entry at `depth`: the entry is a
/// directory, its children do not lie deeper than `max_depth`, and it is no
/// symbolic link unless links are followed.
pub fn goes_into(
    is_dir: bool,
    is_symlink: bool,
    depth: usize,
    max_depth: usize,
    follow_symlinks: bool,
) -> (b: bool)
    ensures
        b == (is_dir && depth < max_depth && (!is_symlink || follow_symlinks)),
{
    is_dir && depth < max_depth && (!is_symlink || follow_symlinks)
}

} // verus!
