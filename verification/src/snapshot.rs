//! What is known of the files on disk.
//!
//! The rules of a build ask two things of a file: whether it is there, and
//! when it was last modified. A `FileSystem` holds the answers that were
//! gathered for the paths of interest. A path that it holds no answer for
//! counts as missing.

use vstd::prelude::*;
use crate::bytes::bytes_eq;

verus! {

/// A point in time, in nanoseconds since the beginning of 1970 (negative
/// before it).
#[derive(Debug, Clone, Copy, PartialEq, Eq, Structural)]
pub struct Timestamp {
    pub nanos: i128,
}

impl Timestamp {
    /// Whether this point in time is strictly later than `other`.
    pub fn is_after(&self, other: &Timestamp) -> (r: bool)
        ensures
            r == (self.nanos > other.nanos),
    {
        self.nanos > other.nanos
    }
}

/// What the system says of a path: the file is there and was modified at the
/// given time, there is no such file, or the question was refused, with the
/// system's words for the refusal.
#[derive(Debug)]
pub enum FileStat {
    Modified(Timestamp),
    Missing,
    Unreadable(String),
}

/// A `FileStat` with the system's words as a sequence of characters.
pub enum FileStatView {
    Modified(Timestamp),
    Missing,
    Unreadable(Seq<char>),
}

impl View for FileStat {
    type V = FileStatView;

    open spec fn view(&self) -> FileStatView {
        match self {
            FileStat::Modified(time) => FileStatView::Modified(*time),
            FileStat::Missing => FileStatView::Missing,
            FileStat::Unreadable(cause) => FileStatView::Unreadable(cause@),
        }
    }
}

/// The answers of a run of records, a later one replacing an earlier one
/// for the same path.
pub open spec fn table(entries: Seq<(Vec<u8>, FileStat)>) -> Map<Seq<u8>, FileStatView>
    decreases entries.len(),
{
    if entries.len() == 0 {
        Map::empty()
    } else {
        table(entries.drop_last()).insert(entries.last().0@, entries.last().1@)
    }
}

/// The answer for a path is that of the last record about it.
pub proof fn lemma_table_last_record(entries: Seq<(Vec<u8>, FileStat)>, path: Seq<u8>, i: int)
    requires
        0 <= i < entries.len(),
        entries[i].0@ == path,
        forall|j: int| i < j < entries.len() ==> (#[trigger] entries[j]).0@ != path,
    ensures
        table(entries).contains_key(path),
        table(entries)[path] == entries[i].1@,
    decreases entries.len(),
{
    if i < entries.len() - 1 {
        let front = entries.drop_last();
        assert(front[i] == entries[i]);
        assert forall|j: int| i < j < front.len() implies (#[trigger] front[j]).0@ != path by {
            assert(front[j] == entries[j]);
        }
        lemma_table_last_record(front, path, i);
        assert(entries.last() == entries[entries.len() - 1]);
    }
}

/// There is no answer for a path that no record is about.
pub proof fn lemma_table_no_record(entries: Seq<(Vec<u8>, FileStat)>, path: Seq<u8>)
    requires
        forall|j: int| 0 <= j < entries.len() ==> (#[trigger] entries[j]).0@ != path,
    ensures
        !table(entries).contains_key(path),
    decreases entries.len(),
{
    if entries.len() > 0 {
        let front = entries.drop_last();
        assert forall|j: int| 0 <= j < front.len() implies (#[trigger] front[j]).0@ != path by {
            assert(front[j] == entries[j]);
        }
        lemma_table_no_record(front, path);
        assert(entries.last() == entries[entries.len() - 1]);
    }
}

/// What a table of answers says of a path: the answer it holds, or that the
/// file is missing where it holds none.
pub open spec fn stat_in(files: Map<Seq<u8>, FileStatView>, path: Seq<u8>) -> FileStatView {
    if files.contains_key(path) {
        files[path]
    } else {
        FileStatView::Missing
    }
}

/// Whether a file is there, as far as a table of answers knows.
pub open spec fn exists_in(files: Map<Seq<u8>, FileStatView>, path: Seq<u8>) -> bool {
    stat_in(files, path) is Modified
}

/// The answers gathered about the files on disk.
#[derive(Debug)]
pub struct FileSystem {
    entries: Vec<(Vec<u8>, FileStat)>,
}

impl View for FileSystem {
    type V = Map<Seq<u8>, FileStatView>;

    closed spec fn view(&self) -> Map<Seq<u8>, FileStatView> {
        table(self.entries@)
    }
}

impl FileSystem {
    /// Nothing is known: every file counts as missing.
    pub fn new() -> (r: FileSystem)
        ensures
            r@ == Map::<Seq<u8>, FileStatView>::empty(),
    {
        FileSystem { entries: Vec::new() }
    }

    /// Records what the system says of `path`, in place of what was known
    /// of it before.
    pub fn record(&mut self, path: Vec<u8>, stat: FileStat)
        ensures
            final(self)@ == old(self)@.insert(path@, stat@),
    {
        let ghost before = self.entries@;
        self.entries.push((path, stat));
        assert(self.entries@.drop_last() =~= before);
    }

    /// The answer held for `path`, if there is one.
    pub fn lookup(&self, path: &[u8]) -> (r: Option<&FileStat>)
        ensures
            match r {
                Some(stat) => self@.contains_key(path@) && self@[path@] == stat@,
                None => !self@.contains_key(path@),
            },
    {
        let mut i: usize = self.entries.len();
        while i > 0
            invariant
                i <= self.entries.len(),
                forall|j: int| i <= j < self.entries@.len() ==> (#[trigger] self.entries@[j]).0@ != path@,
            decreases i,
        {
            i -= 1;
            if bytes_eq(self.entries[i].0.as_slice(), path) {
                proof {
                    lemma_table_last_record(self.entries@, path@, i as int);
                }
                return Some(&self.entries[i].1);
            }
        }
        proof {
            lemma_table_no_record(self.entries@, path@);
        }
        None
    }

    /// Whether the file at `path` is there.
    pub fn is_present(&self, path: &[u8]) -> (r: bool)
        ensures
            r == exists_in(self@, path@),
    {
        match self.lookup(path) {
            Some(FileStat::Modified(_)) => true,
            _ => false,
        }
    }
}

} // verus!
