//! The watcher's decisions: which of the paths that a file-system event names
//! are reported, and as what.
//!
//! The library watches nothing. The caller hands over each event as its kind
//! and its paths, and makes the calls that `run` returns.

use crate::fs::fs_store::{present, present_paths, text_of, texts, texts_of};
use crate::fs::path::{file_name, path_file_name, path_strip_prefix, strip_prefix};
use vstd::prelude::*;
use vstd::string::*;

verus! {

/// The marker that starts the name of a hidden file.
pub const HIDDEN_MARKER: char = '.';

/// The marker that ends the path of a backup file.
pub const BACKUP_MARKER: char = '~';

/// Whether a file name starts with the hidden-file marker. A path without a
/// file name is not hidden.
pub open spec fn is_hidden_name(name: Option<Seq<char>>) -> bool {
    match name {
        Some(name) => name.len() > 0 && name[0] == HIDDEN_MARKER,
        None => false,
    }
}

/// Whether `file` ends with the backup marker.
pub open spec fn is_backup(file: Seq<char>) -> bool {
    file.len() > 0 && file.last() == BACKUP_MARKER
}

/// What is reported of `file`, given its path below the watched directory, if
/// it has one, and its file name, if it has one: the path below, unless the
/// file is elsewhere, hidden or a backup.
pub open spec fn reportable(
    below: Option<Seq<char>>,
    name: Option<Seq<char>>,
    file: Seq<char>,
) -> Option<Seq<char>> {
    if is_hidden_name(name) || is_backup(file) {
        None
    } else {
        below
    }
}

/// The paths among `files` that are reported, each as its path below `dir`,
/// in the order of `files`: those below `dir` that are neither hidden nor
/// backups.
pub open spec fn reported(dir: Seq<char>, files: Seq<Seq<char>>) -> Seq<Seq<char>> {
    present(
        Seq::new(
            files.len(),
            |i: int|
                reportable(path_strip_prefix(files[i], dir), path_file_name(files[i]), files[i]),
        ),
    )
}

/// Whether a file name starts with the hidden-file marker.
pub fn hidden_name(name: &Option<String>) -> (yes: bool)
    ensures
        yes == is_hidden_name(text_of(*name)),
{
    match name {
        Some(name) => name.as_str().unicode_len() > 0 && name.as_str().get_char(0)
            == HIDDEN_MARKER,
        None => false,
    }
}

/// Whether `file` ends with the backup marker.
pub fn backup(file: &str) -> (yes: bool)
    ensures
        yes == is_backup(file@),
{
    let len = file.unicode_len();
    len > 0 && file.get_char(len - 1) == BACKUP_MARKER
}

/// What is reported of `file`, whose path below the watched directory is
/// `below` and whose file name is `name`.
pub fn report(below: Option<String>, name: &Option<String>, file: &str) -> (kept: Option<String>)
    ensures
        text_of(kept) == reportable(text_of(below), text_of(*name), file@),
{
    if hidden_name(name) || backup(file) {
        None
    } else {
        below
    }
}

/// The paths of an event that are reported, each below `dir`.
pub fn sub_paths(dir: &str, files: &Vec<String>) -> (paths: Vec<String>)
    ensures
        texts(paths@) == reported(dir@, texts(files@)),
{
    let mut kept: Vec<Option<String>> = Vec::new();
    let mut i: usize = 0;
    while i < files.len()
        invariant
            0 <= i <= files.len(),
            kept@.len() == i,
            forall|j: int|
                0 <= j < i ==> text_of(#[trigger] kept@[j]) == reportable(
                    path_strip_prefix(files@[j]@, dir@),
                    path_file_name(files@[j]@),
                    files@[j]@,
                ),
        decreases files.len() - i,
    {
        let file = files[i].as_str();
        let below = strip_prefix(file, dir);
        let name = file_name(file);
        kept.push(report(below, &name, file));
        i = i + 1;
    }
    assert(texts_of(kept@) =~= Seq::new(
        texts(files@).len(),
        |i: int|
            reportable(
                path_strip_prefix(texts(files@)[i], dir@),
                path_file_name(texts(files@)[i]),
                texts(files@)[i],
            ),
    ));
    present_paths(&kept)
}

/// What kind of change an event reports.
#[derive(Debug, PartialEq, Eq, Structural, Clone, Copy)]
pub enum ChangeKind {
    /// Files were created.
    Create,
    /// Files were modified.
    Modify,
    /// Files were removed.
    Remove,
    /// Anything else: an access, or an event of unknown kind.
    Other,
}

/// A call to make on the service.
#[derive(Debug, PartialEq, Eq)]
pub enum FileChange {
    /// The file at this path below the root was added.
    Added(String),
    /// The file at this path below the root was modified.
    Modified(String),
    /// The file at this path below the root was removed.
    Removed(String),
}

/// A `FileChange` as a mathematical value.
pub enum FileChangeView {
    Added(Seq<char>),
    Modified(Seq<char>),
    Removed(Seq<char>),
}

impl View for FileChange {
    type V = FileChangeView;

    open spec fn view(&self) -> FileChangeView {
        match self {
            FileChange::Added(path) => FileChangeView::Added(path@),
            FileChange::Modified(path) => FileChangeView::Modified(path@),
            FileChange::Removed(path) => FileChangeView::Removed(path@),
        }
    }
}

/// The calls that an event of `kind` on the reported `paths` asks for: one per
/// path, in order, and none for a kind that reports no change.
pub open spec fn changes(kind: ChangeKind, paths: Seq<Seq<char>>) -> Seq<FileChangeView> {
    match kind {
        ChangeKind::Create => Seq::new(paths.len(), |i: int| FileChangeView::Added(paths[i])),
        ChangeKind::Modify => Seq::new(paths.len(), |i: int| FileChangeView::Modified(paths[i])),
        ChangeKind::Remove => Seq::new(paths.len(), |i: int| FileChangeView::Removed(paths[i])),
        ChangeKind::Other => Seq::<FileChangeView>::empty(),
    }
}

/// The calls of a vector as mathematical values.
pub open spec fn calls(items: Seq<FileChange>) -> Seq<FileChangeView> {
    Seq::new(items.len(), |i: int| items[i]@)
}

/// The watcher of one root directory.
#[derive(Debug)]
pub struct WatchService {
    dir: String,
}

impl View for WatchService {
    type V = Seq<char>;

    closed spec fn view(&self) -> Seq<char> {
        self.dir@
    }
}

impl WatchService {
    /// A watcher of the root directory `dir`.
    pub fn new(dir: String) -> (service: Self)
        ensures
            service@ == dir@,
    {
        WatchService { dir }
    }

    /// The root directory: what the caller watches, recursively.
    pub fn dir(&self) -> (dir: &str)
        ensures
            dir@ == self@,
    {
        self.dir.as_str()
    }

    /// One round of the watch: the calls to make for an event of `kind` that
    /// names `files`. The caller makes them in order and stops at the first
    /// that fails.
    pub fn run(&self, kind: ChangeKind, files: &Vec<String>) -> (due: Vec<FileChange>)
        ensures
            calls(due@) == changes(kind, reported(self@, texts(files@))),
    {
        let paths = sub_paths(self.dir.as_str(), files);
        let mut due: Vec<FileChange> = Vec::new();
        if kind == ChangeKind::Other {
            assert(calls(due@) =~= Seq::<FileChangeView>::empty());
            return due;
        }
        let mut i: usize = 0;
        while i < paths.len()
            invariant
                0 <= i <= paths.len(),
                kind != ChangeKind::Other,
                due@.len() == i,
                forall|j: int| 0 <= j < i ==> (#[trigger] due@[j])@ == changes(kind, texts(paths@))[j],
            decreases paths.len() - i,
        {
            let path = paths[i].clone();
            let change = match kind {
                ChangeKind::Create => FileChange::Added(path),
                ChangeKind::Modify => FileChange::Modified(path),
                _ => FileChange::Removed(path),
            };
            due.push(change);
            i = i + 1;
        }
        assert(calls(due@) =~= changes(kind, texts(paths@)));
        due
    }
}

} // verus!
