//! Resolving a path against a working directory and a snapshot of the files.
//!
//! Paths are plain text with `/` between their components. A path handed to the
//! marker is always taken relative to the working directory: separators at its
//! front are dropped before it is joined.

use vstd::prelude::*;
use vstd::string::StringExecFns;
use vstd::string::StrSliceExecFns;
use crate::error::TransformError;
use crate::error::TransformErrorView;

verus! {

/// What resolving one path gave.
#[derive(Debug, PartialEq, Eq)]
pub enum Lookup {
    /// Nothing exists at the path.
    Missing,
    /// Something exists at the path but cannot be read as text.
    Unreadable,
    /// The whole text of the file at the path.
    Text(String),
}

/// The mathematical value of a [`Lookup`].
pub enum LookupView {
    Missing,
    Unreadable,
    Text(Seq<char>),
}

impl View for Lookup {
    type V = LookupView;

    open spec fn view(&self) -> LookupView {
        match *self {
            Lookup::Missing => LookupView::Missing,
            Lookup::Unreadable => LookupView::Unreadable,
            Lookup::Text(text) => LookupView::Text(text@),
        }
    }
}

/// The model of a file system: what stands at each path. A path without an
/// entry holds nothing.
pub type FileSystem = Map<Seq<char>, LookupView>;

/// What a file system holds at `path`.
pub open spec fn lookup_in(fs: FileSystem, path: Seq<char>) -> LookupView {
    if fs.contains_key(path) {
        fs[path]
    } else {
        LookupView::Missing
    }
}

/// `path` without the separators at its front.
pub open spec fn strip_root(path: Seq<char>) -> Seq<char>
    decreases path.len(),
{
    if path.len() > 0 && path[0] == '/' {
        strip_root(path.drop_first())
    } else {
        path
    }
}

/// The path of `path` below the directory `cwd`.
pub open spec fn joined(cwd: Seq<char>, path: Seq<char>) -> Seq<char> {
    if cwd.len() == 0 {
        strip_root(path)
    } else if cwd.last() == '/' {
        cwd + strip_root(path)
    } else {
        cwd + seq!['/'] + strip_root(path)
    }
}

/// What reading the file at `path` returns, given what was found there.
pub open spec fn contents_spec(path: Seq<char>, found: LookupView) -> Result<
    Seq<char>,
    TransformErrorView,
> {
    match found {
        LookupView::Missing => Err(TransformErrorView::FileNotFound { path }),
        LookupView::Unreadable => Err(TransformErrorView::ReadFailure { path }),
        LookupView::Text(text) => Ok(text),
    }
}

/// Whether `r` is the executable form of `expected`.
pub open spec fn text_result_is(
    r: Result<String, TransformError>,
    expected: Result<Seq<char>, TransformErrorView>,
) -> bool {
    match expected {
        Ok(text) => r is Ok && r->Ok_0@ == text,
        Err(e) => r is Err && r->Err_0@ == e,
    }
}

/// Joins `path` to the working directory `cwd`, taking it as relative whatever
/// it starts with.
pub fn join(cwd: &str, path: &str) -> (r: String)
    ensures
        r@ == joined(cwd@, path@),
{
    let n = path.unicode_len();
    let mut i: usize = 0;
    assert(path@.subrange(0, n as int) =~= path@);
    while i < n && path.get_char(i) == '/'
        invariant
            i <= n,
            n == path@.len(),
            strip_root(path@) == strip_root(path@.subrange(i as int, n as int)),
        decreases n - i,
    {
        proof {
            let rest = path@.subrange(i as int, n as int);
            assert(rest.drop_first() =~= path@.subrange(i + 1, n as int));
        }
        i = i + 1;
    }
    let rel = path.substring_char(i, n);
    let m = cwd.unicode_len();
    let mut out = String::from_str(cwd);
    if m > 0 && cwd.get_char(m - 1) != '/' {
        proof {
            reveal_strlit("/");
            assert("/"@ =~= seq!['/']);
        }
        out.append("/");
    }
    out.append(rel);
    assert(cwd@.len() == 0 ==> out@ =~= rel@);
    out
}

/// Turns what was found at `path` into the text to embed, or into the failure
/// that names `path`.
pub fn contents_of(path: String, found: Lookup) -> (r: Result<String, TransformError>)
    ensures
        text_result_is(r, contents_spec(path@, found@)),
{
    match found {
        Lookup::Missing => Err(TransformError::FileNotFound { path }),
        Lookup::Unreadable => Err(TransformError::ReadFailure { path }),
        Lookup::Text(text) => Ok(text),
    }
}

/// One file of a snapshot.
struct FileEntry {
    path: String,
    state: Lookup,
}

/// A snapshot of the files that a transform may read.
pub struct Files {
    entries: Vec<FileEntry>,
}

/// The file system that the first `n` entries describe. A later entry for a
/// path replaces an earlier one.
spec fn entries_map(entries: Seq<FileEntry>, n: int) -> FileSystem
    decreases n,
{
    if n <= 0 {
        Map::empty()
    } else {
        entries_map(entries, n - 1).insert(entries[n - 1].path@, entries[n - 1].state@)
    }
}

/// Entries past the first `n` that do not name `path` leave its lookup as it
/// is after `n`.
proof fn lemma_later_entries(entries: Seq<FileEntry>, n: int, m: int, path: Seq<char>)
    requires
        0 <= n <= m <= entries.len(),
        forall|j: int| n <= j < m ==> entries[j].path@ != path,
    ensures
        lookup_in(entries_map(entries, m), path) == lookup_in(entries_map(entries, n), path),
    decreases m - n,
{
    if n < m {
        lemma_later_entries(entries, n, m - 1, path);
    }
}

/// The map of a prefix only depends on that prefix.
proof fn lemma_entries_prefix(a: Seq<FileEntry>, b: Seq<FileEntry>, n: int)
    requires
        0 <= n <= a.len(),
        n <= b.len(),
        forall|j: int| 0 <= j < n ==> a[j] == b[j],
    ensures
        entries_map(a, n) == entries_map(b, n),
    decreases n,
{
    if n > 0 {
        lemma_entries_prefix(a, b, n - 1);
    }
}

impl View for Files {
    type V = FileSystem;

    closed spec fn view(&self) -> FileSystem {
        entries_map(self.entries@, self.entries@.len() as int)
    }
}

impl Files {
    /// A snapshot that holds no file.
    pub fn new() -> (r: Files)
        ensures
            r@ == Map::<Seq<char>, LookupView>::empty(),
    {
        Files { entries: Vec::new() }
    }

    /// Records what stands at `path`, in place of what was recorded before.
    pub fn insert(&mut self, path: String, state: Lookup)
        ensures
            final(self)@ == old(self)@.insert(path@, state@),
    {
        let ghost before = self.entries@;
        self.entries.push(FileEntry { path, state });
        proof {
            lemma_entries_prefix(before, self.entries@, before.len() as int);
        }
    }

    /// What the snapshot holds at `path`.
    pub fn lookup(&self, path: &str) -> (r: Lookup)
        ensures
            r@ == lookup_in(self@, path@),
    {
        let wanted = String::from_str(path);
        let mut i: usize = self.entries.len();
        while i > 0
            invariant
                i <= self.entries.len(),
                wanted@ == path@,
                forall|j: int| i <= j < self.entries.len() ==> self.entries[j].path@ != path@,
            decreases i,
        {
            i = i - 1;
            if self.entries[i].path == wanted {
                proof {
                    lemma_later_entries(
                        self.entries@,
                        i + 1,
                        self.entries@.len() as int,
                        path@,
                    );
                }
                return match &self.entries[i].state {
                    Lookup::Missing => Lookup::Missing,
                    Lookup::Unreadable => Lookup::Unreadable,
                    Lookup::Text(text) => Lookup::Text(text.clone()),
                };
            }
        }
        proof {
            lemma_later_entries(self.entries@, 0, self.entries@.len() as int, path@);
        }
        Lookup::Missing
    }
}

/// Reads the file that `path` names below the working directory `cwd`.
pub fn resolve(path: &str, cwd: &str, files: &Files) -> (r: Result<String, TransformError>)
    ensures
        text_result_is(
            r,
            contents_spec(joined(cwd@, path@), lookup_in(files@, joined(cwd@, path@))),
        ),
{
    let full = join(cwd, path);
    let found = files.lookup(full.as_str());
    contents_of(full, found)
}

} // verus!
