//! Which sources have to be compiled again.
//!
//! A source is stale when the artifact is not there, or when the source or
//! one of its headers is missing or was modified after the artifact. The
//! source is looked at first, then its headers in order, and the first file
//! that decides ends the look: a file whose time cannot be read fails it,
//! unless an earlier file has already made the source stale.

use vstd::prelude::*;
use vstd::string::*;
use crate::bytes::copy_bytes;
use crate::command::FsError;
use crate::snapshot::{stat_in, FileStat, FileStatView, FileSystem, Timestamp};
use crate::sources::{all_known, header_views, Header, HeaderView, SourceEntryView, SourceMap};

verus! {

/// What looking at a source and its headers comes to.
pub enum Freshness {
    /// Every file is there and none was modified after the artifact.
    Fresh,
    /// A file is missing or was modified after the artifact.
    Stale,
    /// The time of the file at this path cannot be read, for this reason.
    Unreadable(Seq<u8>, Seq<char>),
}

/// What looking at the files from index `from` on comes to, for an artifact
/// of the given time.
pub open spec fn freshness_from(
    time: Timestamp,
    paths: Seq<Seq<u8>>,
    files: Map<Seq<u8>, FileStatView>,
    from: int,
) -> Freshness
    decreases paths.len() - from,
{
    if from < 0 || from >= paths.len() {
        Freshness::Fresh
    } else {
        match stat_in(files, paths[from]) {
            FileStatView::Modified(modified) => if modified.nanos > time.nanos {
                Freshness::Stale
            } else {
                freshness_from(time, paths, files, from + 1)
            },
            FileStatView::Missing => Freshness::Stale,
            FileStatView::Unreadable(cause) => Freshness::Unreadable(paths[from], cause),
        }
    }
}

/// The paths of the headers as the compiler reported them, in order.
pub open spec fn reported(headers: Seq<HeaderView>) -> Seq<Seq<u8>> {
    headers.map_values(|h: HeaderView| h.reported)
}

/// The files that decide whether a source is stale: the source, then its
/// headers.
pub open spec fn participants(source: Seq<u8>, headers: Seq<HeaderView>) -> Seq<Seq<u8>> {
    seq![source] + reported(headers)
}

/// Whether a source is stale, for an artifact of the given time or for one
/// that is not there.
pub open spec fn freshness_of(
    target_time: Option<Timestamp>,
    entry: SourceEntryView,
    files: Map<Seq<u8>, FileStatView>,
) -> Freshness {
    match target_time {
        None => Freshness::Stale,
        Some(time) => freshness_from(time, participants(entry.source, entry.headers), files, 0),
    }
}

/// The error that says that the time of a file could not be read.
pub open spec fn is_metadata_error(error: FsError, path: Seq<u8>, cause: Seq<char>) -> bool {
    &&& error.path@ == path
    &&& error.error@ == cause
    &&& error.operation@ == "get metadata of"@
}

/// What one file says about the artifact.
fn look(time: Timestamp, path: &[u8], fs: &FileSystem) -> (r: Result<bool, FsError>)
    ensures
        match stat_in(fs@, path@) {
            FileStatView::Modified(modified) => r == Ok::<bool, FsError>(modified.nanos > time.nanos),
            FileStatView::Missing => r == Ok::<bool, FsError>(true),
            FileStatView::Unreadable(cause) => r matches Err(e) && is_metadata_error(e, path@, cause),
        },
{
    match fs.lookup(path) {
        None => Ok(true),
        Some(FileStat::Missing) => Ok(true),
        Some(FileStat::Modified(modified)) => Ok(modified.is_after(&time)),
        Some(FileStat::Unreadable(cause)) => Err(
            FsError { path: copy_bytes(path), error: cause.clone(), operation: "get metadata of" },
        ),
    }
}

/// Whether the artifact of the given time is older than `source` or one of
/// `headers`, a missing file counting as newer than anything.
pub fn is_older(time: Timestamp, source: &[u8], headers: &Vec<Header>, fs: &FileSystem) -> (r: Result<
    bool,
    FsError,
>)
    ensures
        match freshness_from(time, participants(source@, header_views(headers@)), fs@, 0) {
            Freshness::Fresh => r == Ok::<bool, FsError>(false),
            Freshness::Stale => r == Ok::<bool, FsError>(true),
            Freshness::Unreadable(path, cause) => r matches Err(e) && is_metadata_error(e, path, cause),
        },
{
    let ghost paths = participants(source@, header_views(headers@));
    assert(paths[0] == source@);
    match look(time, source, fs) {
        Ok(true) => {
            return Ok(true);
        },
        Ok(false) => {},
        Err(e) => {
            return Err(e);
        },
    }
    let mut i: usize = 0;
    while i < headers.len()
        invariant
            i <= headers.len(),
            paths == participants(source@, header_views(headers@)),
            freshness_from(time, paths, fs@, 0) == freshness_from(time, paths, fs@, i + 1),
        decreases headers.len() - i,
    {
        assert(paths[i + 1] == headers@[i as int].reported@);
        match look(time, headers[i].reported.as_slice(), fs) {
            Ok(true) => {
                return Ok(true);
            },
            Ok(false) => {},
            Err(e) => {
                return Err(e);
            },
        }
        i += 1;
    }
    Ok(false)
}

/// Where every file from `from` on is there and none was modified after the
/// artifact, the look finds the source fresh.
pub proof fn lemma_unmodified_is_fresh(
    time: Timestamp,
    paths: Seq<Seq<u8>>,
    files: Map<Seq<u8>, FileStatView>,
    from: int,
)
    requires
        0 <= from,
        forall|i: int|
            from <= i < paths.len() ==> (stat_in(files, #[trigger] paths[i]) matches FileStatView::Modified(m)
                && m.nanos <= time.nanos),
    ensures
        freshness_from(time, paths, files, from) == Freshness::Fresh,
    decreases paths.len() - from,
{
    if from < paths.len() {
        lemma_unmodified_is_fresh(time, paths, files, from + 1);
    }
}

/// Where the time of every file can be read, a source is stale exactly when
/// one of its files is missing or was modified after the artifact.
pub proof fn lemma_stale_iff_modified(
    time: Timestamp,
    paths: Seq<Seq<u8>>,
    files: Map<Seq<u8>, FileStatView>,
    from: int,
)
    requires
        0 <= from,
        forall|i: int| from <= i < paths.len() ==> !(stat_in(files, #[trigger] paths[i]) is Unreadable),
    ensures
        freshness_from(time, paths, files, from) == Freshness::Stale <==> exists|i: int|
            from <= i < paths.len() && !(stat_in(files, #[trigger] paths[i]) matches FileStatView::Modified(m)
                && m.nanos <= time.nanos),
        freshness_from(time, paths, files, from) == Freshness::Stale || freshness_from(time, paths, files, from)
            == Freshness::Fresh,
    decreases paths.len() - from,
{
    if from < paths.len() {
        lemma_stale_iff_modified(time, paths, files, from + 1);
    }
}

/// The first source from index `from` on that is not fresh.
pub open spec fn next_modified(
    target_time: Option<Timestamp>,
    sources: Seq<SourceEntryView>,
    files: Map<Seq<u8>, FileStatView>,
    from: int,
) -> Option<int>
    decreases sources.len() - from,
{
    if from < 0 || from >= sources.len() {
        None
    } else if freshness_of(target_time, sources[from], files) == Freshness::Fresh {
        next_modified(target_time, sources, files, from + 1)
    } else {
        Some(from)
    }
}

/// What `next_modified` finds is a source that is not fresh, and every
/// source between `from` and it is fresh.
pub proof fn lemma_next_modified(
    target_time: Option<Timestamp>,
    sources: Seq<SourceEntryView>,
    files: Map<Seq<u8>, FileStatView>,
    from: int,
)
    requires
        0 <= from,
    ensures
        match next_modified(target_time, sources, files, from) {
            Some(at) => from <= at < sources.len() && freshness_of(target_time, sources[at], files)
                != Freshness::Fresh && forall|i: int|
                from <= i < at ==> freshness_of(target_time, #[trigger] sources[i], files) == Freshness::Fresh,
            None => forall|i: int|
                from <= i < sources.len() ==> freshness_of(target_time, #[trigger] sources[i], files)
                    == Freshness::Fresh,
        },
    decreases sources.len() - from,
{
    if from < sources.len() {
        lemma_next_modified(target_time, sources, files, from + 1);
    }
}

/// Where the artifact is there and every source and every header is there
/// and was not modified after it, no source is stale: there is nothing to
/// compile.
pub proof fn lemma_fresh_yields_nothing(
    time: Timestamp,
    sources: Seq<SourceEntryView>,
    files: Map<Seq<u8>, FileStatView>,
    from: int,
)
    requires
        0 <= from,
        forall|i: int, j: int|
            0 <= i < sources.len() && 0 <= j < participants(sources[i].source, sources[i].headers).len() ==> (
            stat_in(files, #[trigger] participants(sources[i].source, sources[i].headers)[j])
                matches FileStatView::Modified(m) && m.nanos <= time.nanos),
    ensures
        next_modified(Some(time), sources, files, from) is None,
    decreases sources.len() - from,
{
    if from < sources.len() {
        lemma_unmodified_is_fresh(time, participants(sources[from].source, sources[from].headers), files, 0);
        lemma_fresh_yields_nothing(time, sources, files, from + 1);
    }
}

/// Goes through the sources of a target and hands out those that have to be
/// compiled again.
#[derive(Debug)]
pub struct ModifiedSources<'a> {
    target_time: Option<Timestamp>,
    sources: &'a SourceMap,
    position: usize,
}

impl<'a> ModifiedSources<'a> {
    /// The time of the artifact, if it is there.
    pub closed spec fn target_time(&self) -> Option<Timestamp> {
        self.target_time
    }

    /// The sources that are gone through.
    pub closed spec fn sources(&self) -> Seq<SourceEntryView> {
        self.sources@
    }

    /// The index of the source that is looked at next.
    pub closed spec fn position(&self) -> nat {
        self.position as nat
    }

    /// Starts at the first source.
    pub fn scan(target_time: Option<Timestamp>, sources: &'a SourceMap) -> (r: ModifiedSources<'a>)
        ensures
            r.target_time() == target_time,
            r.sources() == sources@,
            r.position() == 0,
    {
        ModifiedSources { target_time, sources, position: 0 }
    }

    /// Hands out the next source that is not fresh: its path where it is
    /// stale, the error where the time of one of its files cannot be read.
    /// Nothing when every source that is left is fresh. The sources are
    /// those of a map of sources, so the extension of each stands for a
    /// language.
    pub fn next(&mut self, fs: &FileSystem) -> (r: Option<Result<Vec<u8>, FsError>>)
        ensures
            final(self).target_time() == old(self).target_time(),
            final(self).sources() == old(self).sources(),
            all_known(final(self).sources()),
            match next_modified(old(self).target_time(), old(self).sources(), fs@, old(self).position() as int) {
                None => r is None && final(self).position() >= final(self).sources().len(),
                Some(at) => final(self).position() == at + 1 && match freshness_of(
                    old(self).target_time(),
                    old(self).sources()[at],
                    fs@,
                ) {
                    Freshness::Unreadable(path, cause) => r matches Some(Err(e)) && is_metadata_error(
                        e,
                        path,
                        cause,
                    ),
                    _ => r matches Some(Ok(source)) && source@ == old(self).sources()[at].source,
                },
            },
    {
        let ghost start = self.position as int;
        proof {
            use_type_invariant(self.sources);
        }
        while self.position < self.sources.len()
            invariant
                self.target_time == old(self).target_time,
                self.sources == old(self).sources,
                all_known(self.sources@),
                start == old(self).position,
                start <= self.position,
                next_modified(self.target_time, self.sources@, fs@, start) == next_modified(
                    self.target_time,
                    self.sources@,
                    fs@,
                    self.position as int,
                ),
            decreases self.sources@.len() - self.position,
        {
            let entry = self.sources.get(self.position);
            self.position += 1;
            match self.target_time {
                None => {
                    return Some(Ok(copy_bytes(entry.source.as_slice())));
                },
                Some(time) => match is_older(time, entry.source.as_slice(), &entry.headers, fs) {
                    Ok(true) => {
                        return Some(Ok(copy_bytes(entry.source.as_slice())));
                    },
                    Ok(false) => {},
                    Err(e) => {
                        return Some(Err(e));
                    },
                },
            }
        }
        None
    }
}

} // verus!
