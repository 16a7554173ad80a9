//! The file store: access to the files below one root directory, planned
//! here and carried out by the caller.
//!
//! The store opens no file. For each operation it says which path to act on
//! and, where the operation reads a file piece by piece, it takes each piece
//! and says when to stop and what came of it.

use super::digest::{consumed, context_compute, context_consume, context_new};
use super::fs_info::FsInfo;
use super::fs_meta::{is_fingerprint, FsMeta};
use super::path::{join, parent, path_join, path_parent, path_strip_prefix, strip_prefix};
use crate::conn::buffer::{
    buffer_extend, buffer_len, buffer_prefix, buffer_with_capacity, buffered,
};
use std::ops::Range;
use vstd::prelude::*;

verus! {

/// The nominal size of a chunk: 64 KiB.
pub const CHUNK_SIZE: usize = 65536;

/// The strings of a vector as a sequence of character sequences.
pub open spec fn texts(items: Seq<String>) -> Seq<Seq<char>> {
    Seq::new(items.len(), |i: int| items[i]@)
}

/// A string that may be missing, as a character sequence that may be missing.
pub open spec fn text_of(item: Option<String>) -> Option<Seq<char>> {
    match item {
        Some(text) => Some(text@),
        None => None,
    }
}

/// The strings of a vector, each of which may be missing.
pub open spec fn texts_of(items: Seq<Option<String>>) -> Seq<Option<Seq<char>>> {
    Seq::new(items.len(), |i: int| text_of(items[i]))
}

/// The items that are there, in order.
pub open spec fn present(items: Seq<Option<Seq<char>>>) -> Seq<Seq<char>>
    decreases items.len(),
{
    if items.len() == 0 {
        Seq::<Seq<char>>::empty()
    } else {
        match items.last() {
            Some(item) => present(items.drop_last()).push(item),
            None => present(items.drop_last()),
        }
    }
}

/// One more item at the end: it is kept at the end where it is there, and
/// changes nothing where it is missing.
pub proof fn lemma_present_push(items: Seq<Option<Seq<char>>>, item: Option<Seq<char>>)
    ensures
        present(Seq::<Option<Seq<char>>>::empty()) == Seq::<Seq<char>>::empty(),
        present(items.push(item)) == (match item {
            Some(text) => present(items).push(text),
            None => present(items),
        }),
{
    assert(items.push(item).drop_last() =~= items);
}

/// The files below `dir` among `files`, each as its path below `dir`, in the
/// order of `files`. A path that is not below `dir` is left out.
pub open spec fn paths_below(dir: Seq<char>, files: Seq<Seq<char>>) -> Seq<Seq<char>> {
    present(Seq::new(files.len(), |i: int| path_strip_prefix(files[i], dir)))
}

/// The paths that are there among `items`, in order.
pub fn present_paths(items: &Vec<Option<String>>) -> (kept: Vec<String>)
    ensures
        texts(kept@) == present(texts_of(items@)),
        kept@.len() == present(texts_of(items@)).len(),
        forall|i: int| 0 <= i < kept@.len() ==> (#[trigger] kept@[i])@ == present(texts_of(items@))[i],
{
    let mut kept: Vec<String> = Vec::new();
    let mut i: usize = 0;
    assert(texts_of(items@).take(0) =~= Seq::<Option<Seq<char>>>::empty());
    assert(texts(kept@) =~= Seq::<Seq<char>>::empty());
    while i < items.len()
        invariant
            0 <= i <= items.len(),
            texts(kept@) == present(texts_of(items@).take(i as int)),
        decreases items.len() - i,
    {
        let ghost before = texts(kept@);
        proof {
            let seen = texts_of(items@).take(i as int);
            lemma_present_push(seen, text_of(items@[i as int]));
            assert(seen.push(text_of(items@[i as int])) =~= texts_of(items@).take(i as int + 1));
        }
        match &items[i] {
            Some(path) => {
                kept.push(path.clone());
                assert(texts(kept@) =~= before.push(path@));
            },
            None => {},
        }
        i = i + 1;
    }
    assert(texts_of(items@).take(items.len() as int) =~= texts_of(items@));
    assert forall|i: int| 0 <= i < kept@.len() implies (#[trigger] kept@[i])@ == present(
        texts_of(items@),
    )[i] by {
        assert(texts(kept@)[i] == kept@[i]@);
    }
    kept
}

/// The paths below `dir` of the files that a scan of `dir` found.
pub fn get_all_files(dir: &str, files: &Vec<String>) -> (below: Vec<String>)
    ensures
        texts(below@) == paths_below(dir@, texts(files@)),
{
    let mut stripped: Vec<Option<String>> = Vec::new();
    let mut i: usize = 0;
    while i < files.len()
        invariant
            0 <= i <= files.len(),
            stripped@.len() == i,
            forall|j: int|
                0 <= j < i ==> text_of(#[trigger] stripped@[j]) == path_strip_prefix(
                    files@[j]@,
                    dir@,
                ),
        decreases files.len() - i,
    {
        stripped.push(strip_prefix(files[i].as_str(), dir));
        i = i + 1;
    }
    assert(texts_of(stripped@) =~= Seq::new(
        texts(files@).len(),
        |i: int| path_strip_prefix(texts(files@)[i], dir@),
    ));
    present_paths(&stripped)
}

/// The number of bytes that a byte range asks for: `end - start`, none where
/// the range is empty or reversed, and no more than a length can count.
pub open spec fn range_len(start: u64, end: u64) -> nat {
    if start < end {
        if end - start > usize::MAX {
            usize::MAX as nat
        } else {
            (end - start) as nat
        }
    } else {
        0
    }
}

/// A store of files below one root directory.
#[derive(Debug)]
pub struct FsStore {
    dir: String,
}

/// A store is seen as the path of its root.
impl View for FsStore {
    type V = Seq<char>;

    closed spec fn view(&self) -> Seq<char> {
        self.dir@
    }
}

/// How to open a file for writing.
#[derive(Debug, PartialEq, Eq)]
pub enum OpenPlan {
    /// The file exists: open it for writing, its content untouched.
    OpenExisting { path: String },
    /// The file is missing and its directory is there, or it has none: create
    /// the file.
    Create { path: String },
    /// The file and its directory are missing: create the directory with all
    /// that is missing above it, then the file.
    CreateWithParents { dir: String, path: String },
}

/// An `OpenPlan` as a mathematical value.
pub enum OpenPlanView {
    OpenExisting { path: Seq<char> },
    Create { path: Seq<char> },
    CreateWithParents { dir: Seq<char>, path: Seq<char> },
}

impl View for OpenPlan {
    type V = OpenPlanView;

    open spec fn view(&self) -> OpenPlanView {
        match self {
            OpenPlan::OpenExisting { path } => OpenPlanView::OpenExisting { path: path@ },
            OpenPlan::Create { path } => OpenPlanView::Create { path: path@ },
            OpenPlan::CreateWithParents { dir, path } => OpenPlanView::CreateWithParents {
                dir: dir@,
                path: path@,
            },
        }
    }
}

/// A file that is about to be opened for writing: its path, and the directory
/// that must be there before the file can be created.
#[derive(Debug)]
pub struct FileProbe {
    path: String,
    parent: Option<String>,
}

/// A `FileProbe` as a mathematical value.
pub struct FileProbeView {
    pub path: Seq<char>,
    pub parent: Option<Seq<char>>,
}

impl View for FileProbe {
    type V = FileProbeView;

    closed spec fn view(&self) -> FileProbeView {
        FileProbeView { path: self.path@, parent: text_of(self.parent) }
    }
}

/// The plan for a file, given what is on disk.
pub open spec fn open_plan(probe: FileProbeView, exists: bool, parent_exists: bool) -> OpenPlanView {
    if exists {
        OpenPlanView::OpenExisting { path: probe.path }
    } else {
        match probe.parent {
            Some(dir) if !parent_exists => OpenPlanView::CreateWithParents {
                dir,
                path: probe.path,
            },
            _ => OpenPlanView::Create { path: probe.path },
        }
    }
}

impl FileProbe {
    /// The probe for the file at `path`, whose directory is `parent`.
    pub fn new(path: String, parent: Option<String>) -> (probe: Self)
        ensures
            probe@ == (FileProbeView { path: path@, parent: text_of(parent) }),
    {
        FileProbe { path, parent }
    }

    /// The path of the file: the caller finds out whether it exists.
    pub fn path(&self) -> (path: &str)
        ensures
            path@ == self@.path,
    {
        self.path.as_str()
    }

    /// The directory of the file, where it has one: the caller finds out
    /// whether it exists.
    pub fn parent(&self) -> (dir: Option<&str>)
        ensures
            match dir {
                Some(up) => self@.parent == Some(up@),
                None => self@.parent is None,
            },
    {
        match &self.parent {
            Some(up) => Some(up.as_str()),
            None => None,
        }
    }

    /// Decides how to open the file. `exists` says whether the file is there,
    /// `parent_exists` whether its directory is; the latter counts only where
    /// the file is missing and has a directory.
    pub fn plan(self, exists: bool, parent_exists: bool) -> (plan: OpenPlan)
        ensures
            plan@ == open_plan(self@, exists, parent_exists),
    {
        if exists {
            OpenPlan::OpenExisting { path: self.path }
        } else {
            match self.parent {
                Some(dir) => {
                    if parent_exists {
                        OpenPlan::Create { path: self.path }
                    } else {
                        OpenPlan::CreateWithParents { dir, path: self.path }
                    }
                },
                None => OpenPlan::Create { path: self.path },
            }
        }
    }
}

/// A fingerprint in the making: the path of the file to read, and what has
/// been read of it.
pub struct MetaScan {
    path: String,
    context: md5::Context,
    size: usize,
}

/// What follows a piece of a file in a fingerprint scan.
pub enum MetaStep {
    /// Read on, and hand the next piece to this scan.
    More(MetaScan),
    /// The file has ended: this is its fingerprint.
    Done(FsMeta),
}

/// A `MetaScan` as a mathematical value.
pub struct MetaScanView {
    /// The path of the file that the scan reads.
    pub path: Seq<char>,
    /// The bytes that the scan has taken in, in order.
    pub content: Seq<u8>,
}

impl View for MetaScan {
    type V = MetaScanView;

    closed spec fn view(&self) -> MetaScanView {
        MetaScanView { path: self.path@, content: consumed(self.context) }
    }
}

/// The bytes of all pieces, in order.
pub open spec fn joined(pieces: Seq<Seq<u8>>) -> Seq<u8>
    decreases pieces.len(),
{
    if pieces.len() == 0 {
        Seq::<u8>::empty()
    } else {
        pieces[0] + joined(pieces.drop_first())
    }
}

/// What a piece of the file does to a fingerprint scan: an empty piece says
/// that the file has ended, and the scan ends on the content taken in; any
/// other piece goes behind that content.
pub open spec fn scan_step(s: MetaScanView, data: Seq<u8>) -> (MetaScanView, Option<Seq<u8>>) {
    if data.len() == 0 {
        (s, Some(s.content))
    } else {
        (MetaScanView { content: s.content + data, ..s }, None)
    }
}

/// The content on which a scan ends over the pieces that the reads bring, as
/// far as they go: it stops at the first empty piece.
pub open spec fn scan_over(s: MetaScanView, pieces: Seq<Seq<u8>>) -> Option<Seq<u8>>
    decreases pieces.len(),
{
    if pieces.len() == 0 {
        None
    } else {
        let (next, out) = scan_step(s, pieces[0]);
        if out is Some {
            out
        } else {
            scan_over(next, pieces.drop_first())
        }
    }
}

/// A fingerprint does not depend on how the file is cut into reads: the
/// reads bring `pieces`, none of them empty, and then the end of the file,
/// and the scan ends on all their bytes in order. So two scans of a file that
/// has not changed end on the same content, and by `lemma_fingerprint_unique`
/// on the same size and digest.
pub proof fn lemma_scan_cuts(s: MetaScanView, pieces: Seq<Seq<u8>>)
    requires
        forall|i: int| 0 <= i < pieces.len() ==> (#[trigger] pieces[i]).len() > 0,
    ensures
        scan_over(s, pieces.push(Seq::<u8>::empty())) == Some(s.content + joined(pieces)),
    decreases pieces.len(),
{
    let reads = pieces.push(Seq::<u8>::empty());
    if pieces.len() == 0 {
        assert(s.content + joined(pieces) =~= s.content);
    } else {
        let (next, out) = scan_step(s, pieces[0]);
        let tail = pieces.drop_first();
        assert(reads[0] == pieces[0]);
        assert(reads.drop_first() =~= tail.push(Seq::<u8>::empty()));
        assert(s.content + joined(pieces) =~= next.content + joined(tail));
        assert forall|i: int| 0 <= i < tail.len() implies (#[trigger] tail[i]).len() > 0 by {
            assert(tail[i] == pieces[i + 1]);
        }
        lemma_scan_cuts(next, tail);
    }
}

impl MetaScan {
    #[verifier::type_invariant]
    spec fn counted(self) -> bool {
        self.size == consumed(self.context).len()
    }

    /// The path of the file to open and read from its start.
    pub fn path(&self) -> (path: &str)
        ensures
            path@ == self@.path,
    {
        self.path.as_str()
    }

    /// The number of bytes that the scan has taken in.
    pub fn size(&self) -> (n: usize)
        ensures
            n == self@.content.len(),
    {
        proof {
            use_type_invariant(self);
        }
        self.size
    }

    /// Takes the next piece of the file. An empty piece says that the file has
    /// ended, and the fingerprint of all that was taken in comes out; any other
    /// piece goes into the digest and the size, and the scan goes on. The
    /// pieces may be of any size: only their bytes count.
    pub fn on_read(self, data: &[u8]) -> (step: MetaStep)
        requires
            self@.content.len() + data@.len() <= usize::MAX,
        ensures
            match step {
                MetaStep::More(next) => scan_step(self@, data@) == (next@, None::<Seq<u8>>),
                MetaStep::Done(meta) => scan_step(self@, data@).1 == Some(self@.content)
                    && is_fingerprint(meta, self@.content),
            },
    {
        proof {
            use_type_invariant(&self);
        }
        if data.len() == 0 {
            MetaStep::Done(FsMeta { size: self.size, md5: context_compute(self.context) })
        } else {
            let mut context = self.context;
            context_consume(&mut context, data);
            MetaStep::More(MetaScan { path: self.path, context, size: self.size + data.len() })
        }
    }

    /// `on_read` for a caller that has not checked the size: where the file
    /// has more bytes than a size can count, nothing is done and `None` comes
    /// back.
    pub fn try_on_read(self, data: &[u8]) -> (step: Option<MetaStep>)
        ensures
            match step {
                None => self@.content.len() + data@.len() > usize::MAX,
                Some(MetaStep::More(next)) => self@.content.len() + data@.len() <= usize::MAX
                    && scan_step(self@, data@) == (next@, None::<Seq<u8>>),
                Some(MetaStep::Done(meta)) => scan_step(self@, data@).1 == Some(self@.content)
                    && is_fingerprint(meta, self@.content),
            },
    {
        proof {
            use_type_invariant(&self);
        }
        if data.len() <= usize::MAX - self.size {
            Some(self.on_read(data))
        } else {
            None
        }
    }
}

/// A range read in progress: the path of the file, where in it to start,
/// how many bytes are wanted, and the bytes read so far.
pub struct ChunkRead {
    path: String,
    start: u64,
    wanted: usize,
    buffer: bytes::BytesMut,
}

/// A `ChunkRead` as a mathematical value.
pub struct ChunkReadView {
    pub path: Seq<char>,
    pub start: u64,
    pub wanted: nat,
    pub buffer: Seq<u8>,
}

/// What follows a piece of a file in a range read.
pub enum ChunkStep {
    /// Read on, and hand the next piece to this read.
    More(ChunkRead),
    /// The read is over: these are the bytes of the range that the file has.
    Done(Vec<u8>),
}

impl View for ChunkRead {
    type V = ChunkReadView;

    closed spec fn view(&self) -> ChunkReadView {
        ChunkReadView {
            path: self.path@,
            start: self.start,
            wanted: self.wanted as nat,
            buffer: buffered(self.buffer),
        }
    }
}

/// The first `count` of `bytes`, or all of them where there are fewer.
pub open spec fn first_bytes(bytes: Seq<u8>, count: nat) -> Seq<u8> {
    if bytes.len() < count {
        bytes
    } else {
        bytes.subrange(0, count as int)
    }
}

/// What a piece of the file does to a range read: it goes behind the bytes
/// read so far; the read is over when the piece was empty, which says that
/// the file has ended, or when as many bytes as wanted are there; and what
/// comes out is never more than was wanted.
pub open spec fn read_step(s: ChunkReadView, data: Seq<u8>) -> (ChunkReadView, Option<Seq<u8>>) {
    let filled = ChunkReadView { buffer: s.buffer + data, ..s };
    if data.len() == 0 || filled.buffer.len() >= s.wanted {
        (filled, Some(first_bytes(filled.buffer, s.wanted)))
    } else {
        (filled, None)
    }
}

/// A range read carried on over the pieces that the reads bring, as far as
/// they go: it stops at the first piece that ends it.
pub open spec fn read_over(s: ChunkReadView, pieces: Seq<Seq<u8>>) -> Option<Seq<u8>>
    decreases pieces.len(),
{
    if pieces.len() == 0 {
        None
    } else {
        let (next, out) = read_step(s, pieces[0]);
        if out is Some {
            out
        } else {
            read_over(next, pieces.drop_first())
        }
    }
}

/// A range read returns the bytes of the range that the file has, however
/// the file is cut into reads: the reads bring `pieces`, none of them empty,
/// and then the end of the file, and what comes out is the first `wanted`
/// bytes of what they bring, or all of it where the file ends before.
pub proof fn lemma_read_range(s: ChunkReadView, pieces: Seq<Seq<u8>>)
    requires
        forall|i: int| 0 <= i < pieces.len() ==> (#[trigger] pieces[i]).len() > 0,
    ensures
        read_over(s, pieces.push(Seq::<u8>::empty())) == Some(
            first_bytes(s.buffer + joined(pieces), s.wanted),
        ),
        s.buffer.len() + joined(pieces).len() < s.wanted ==> read_over(
            s,
            pieces.push(Seq::<u8>::empty()),
        ) == Some(s.buffer + joined(pieces)),
    decreases pieces.len(),
{
    let reads = pieces.push(Seq::<u8>::empty());
    if pieces.len() == 0 {
        assert(s.buffer + reads[0] =~= s.buffer);
        assert(s.buffer + joined(pieces) =~= s.buffer);
    } else {
        let (next, out) = read_step(s, pieces[0]);
        let tail = pieces.drop_first();
        assert(reads[0] == pieces[0]);
        assert(reads.drop_first() =~= tail.push(Seq::<u8>::empty()));
        let all = s.buffer + joined(pieces);
        assert(all =~= next.buffer + joined(tail));
        if out is Some {
            assert(next.buffer.subrange(0, s.wanted as int) =~= all.subrange(0, s.wanted as int));
        } else {
            assert forall|i: int| 0 <= i < tail.len() implies (#[trigger] tail[i]).len() > 0 by {
                assert(tail[i] == pieces[i + 1]);
            }
            lemma_read_range(next, tail);
        }
    }
}

impl ChunkRead {
    /// The path of the file to open.
    pub fn path(&self) -> (path: &str)
        ensures
            path@ == self@.path,
    {
        self.path.as_str()
    }

    /// Where to seek before the first read: the start of the range, or
    /// nowhere for a range that starts at the start of the file.
    pub fn seek(&self) -> (position: Option<u64>)
        ensures
            position == if self@.start > 0 {
                Some(self@.start)
            } else {
                None::<u64>
            },
    {
        if self.start > 0 {
            Some(self.start)
        } else {
            None
        }
    }

    /// The number of bytes read so far.
    pub fn buffered_len(&self) -> (n: usize)
        ensures
            n == self@.buffer.len(),
    {
        buffer_len(&self.buffer)
    }

    /// Takes the next piece of the file. An empty piece says that the file has
    /// ended. A file that ends before the range does is no error: the read
    /// returns the bytes that are there.
    pub fn on_read(self, data: &[u8]) -> (step: ChunkStep)
        requires
            self@.buffer.len() + data@.len() <= isize::MAX,
        ensures
            match step {
                ChunkStep::More(next) => read_step(self@, data@) == (next@, None::<Seq<u8>>),
                ChunkStep::Done(bytes) => read_step(self@, data@).1 == Some(bytes@),
            },
    {
        let mut buffer = self.buffer;
        buffer_extend(&mut buffer, data);
        let held = buffer_len(&buffer);
        if data.len() == 0 || held >= self.wanted {
            if held < self.wanted {
                ChunkStep::Done(buffer_prefix(&buffer, held))
            } else {
                ChunkStep::Done(buffer_prefix(&buffer, self.wanted))
            }
        } else {
            ChunkStep::More(
                ChunkRead { path: self.path, start: self.start, wanted: self.wanted, buffer },
            )
        }
    }

    /// `on_read` for a caller that has not checked the room: where the bytes
    /// do not fit into the buffer, nothing is done and `None` comes back.
    pub fn try_on_read(self, data: &[u8]) -> (step: Option<ChunkStep>)
        ensures
            match step {
                None => self@.buffer.len() + data@.len() > isize::MAX,
                Some(ChunkStep::More(next)) => self@.buffer.len() + data@.len() <= isize::MAX
                    && read_step(self@, data@) == (next@, None::<Seq<u8>>),
                Some(ChunkStep::Done(bytes)) => self@.buffer.len() + data@.len() <= isize::MAX
                    && read_step(self@, data@).1 == Some(bytes@),
            },
    {
        let held = buffer_len(&self.buffer);
        if held <= isize::MAX as usize && data.len() <= isize::MAX as usize - held {
            Some(self.on_read(data))
        } else {
            None
        }
    }
}

impl FsStore {
    /// A store below `dir`. The caller passes the root in canonical form.
    pub fn new(dir: String) -> (store: Self)
        ensures
            store@ == dir@,
    {
        FsStore { dir }
    }

    /// The root directory.
    pub fn dir(&self) -> (dir: &str)
        ensures
            dir@ == self@,
    {
        self.dir.as_str()
    }

    /// The paths below the root of the files that a scan of the root found.
    pub fn list_fs_paths(&self, files: &Vec<String>) -> (below: Vec<String>)
        ensures
            texts(below@) == paths_below(self@, texts(files@)),
    {
        get_all_files(self.dir.as_str(), files)
    }

    /// The catalog entry of a file whose fingerprint has been computed.
    pub fn get_fs_info(&self, fs_path: &str, meta: FsMeta) -> (info: FsInfo)
        ensures
            info.fs_path@ == fs_path@,
            info.meta == meta,
    {
        FsInfo { fs_path: fs_path.to_owned(), meta }
    }

    /// Starts opening the file at `fs_path` below the root for writing: says
    /// which paths to look for on disk. No check keeps `fs_path` below the
    /// root.
    pub fn get_file(&self, fs_path: &str) -> (probe: FileProbe)
        ensures
            probe@.path == path_join(self@, fs_path@),
            probe@.parent == path_parent(path_join(self@, fs_path@)),
    {
        let path = join(self.dir.as_str(), fs_path);
        let parent = parent(path.as_str());
        FileProbe::new(path, parent)
    }

    /// Starts the fingerprint of the file at `fs_path` below the root.
    pub fn get_fs_meta(&self, fs_path: &str) -> (scan: MetaScan)
        ensures
            scan@ == (MetaScanView {
                path: path_join(self@, fs_path@),
                content: Seq::<u8>::empty(),
            }),
    {
        MetaScan { path: join(self.dir.as_str(), fs_path), context: context_new(), size: 0 }
    }

    /// Starts reading the bytes of `range` from the file at `fs_path` below
    /// the root. No check keeps `fs_path` below the root.
    pub fn get_fs_chunk(&self, fs_path: &str, range: Range<u64>) -> (read: ChunkRead)
        ensures
            read@ == (ChunkReadView {
                path: path_join(self@, fs_path@),
                start: range.start,
                wanted: range_len(range.start, range.end),
                buffer: Seq::<u8>::empty(),
            }),
    {
        let wanted: usize = if range.start < range.end {
            let span: u64 = range.end - range.start;
            if span > usize::MAX as u64 {
                usize::MAX
            } else {
                span as usize
            }
        } else {
            0
        };
        ChunkRead {
            path: join(self.dir.as_str(), fs_path),
            start: range.start,
            wanted,
            buffer: buffer_with_capacity(0),
        }
    }
}

} // verus!
