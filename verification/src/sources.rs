//! The sources of a target and the headers that each of them includes.

use vstd::prelude::*;
use crate::bytes::{bytes_eq, copy_bytes};
use crate::options::Compiler;

verus! {

/// A header as the compiler reported it, and the canonical path of the same
/// file.
#[derive(Debug)]
pub struct Header {
    pub reported: Vec<u8>,
    pub canonical: Vec<u8>,
}

/// A `Header` as byte strings.
pub struct HeaderView {
    pub reported: Seq<u8>,
    pub canonical: Seq<u8>,
}

impl View for Header {
    type V = HeaderView;

    open spec fn view(&self) -> HeaderView {
        HeaderView { reported: self.reported@, canonical: self.canonical@ }
    }
}

impl Header {
    /// A copy of this header.
    pub fn duplicate(&self) -> (r: Header)
        ensures
            r@ == self@,
    {
        Header {
            reported: copy_bytes(self.reported.as_slice()),
            canonical: copy_bytes(self.canonical.as_slice()),
        }
    }
}

/// The headers of a list, as byte strings.
pub open spec fn header_views(headers: Seq<Header>) -> Seq<HeaderView> {
    headers.map_values(|h: Header| h@)
}

/// A source, by its canonical path, and the headers that the compiler
/// reported for it, in the compiler's order.
#[derive(Debug)]
pub struct SourceEntry {
    pub source: Vec<u8>,
    pub headers: Vec<Header>,
}

/// A `SourceEntry` as byte strings.
pub struct SourceEntryView {
    pub source: Seq<u8>,
    pub headers: Seq<HeaderView>,
}

impl View for SourceEntry {
    type V = SourceEntryView;

    open spec fn view(&self) -> SourceEntryView {
        SourceEntryView { source: self.source@, headers: header_views(self.headers@) }
    }
}

/// The sources of a list of entries, in order.
pub open spec fn keys(entries: Seq<SourceEntryView>) -> Seq<Seq<u8>> {
    entries.map_values(|e: SourceEntryView| e.source)
}

/// Whether every source has an extension that stands for a language.
pub open spec fn all_known(entries: Seq<SourceEntryView>) -> bool {
    forall|i: int| 0 <= i < entries.len() ==> Compiler::of_file((#[trigger] entries[i]).source) is Some
}

/// The headers of all the entries, entry after entry.
pub open spec fn all_headers(entries: Seq<SourceEntryView>) -> Seq<HeaderView>
    decreases entries.len(),
{
    if entries.len() == 0 {
        Seq::empty()
    } else {
        all_headers(entries.drop_last()) + entries.last().headers
    }
}

/// Every header of every entry is among all the headers.
pub proof fn lemma_all_headers_hold(entries: Seq<SourceEntryView>, i: int, j: int)
    requires
        0 <= i < entries.len(),
        0 <= j < entries[i].headers.len(),
    ensures
        all_headers(entries).contains(entries[i].headers[j]),
    decreases entries.len(),
{
    let front = all_headers(entries.drop_last());
    let all = all_headers(entries);
    if i == entries.len() - 1 {
        assert(all[front.len() + j] == entries[i].headers[j]);
    } else {
        lemma_all_headers_hold(entries.drop_last(), i, j);
        let k = choose|k: int| 0 <= k < front.len() && front[k] == entries[i].headers[j];
        assert(all[k] == entries[i].headers[j]);
    }
}

/// Each of all the headers is a header of some entry.
pub proof fn lemma_all_headers_come_from(entries: Seq<SourceEntryView>, k: int) -> (at: (int, int))
    requires
        0 <= k < all_headers(entries).len(),
    ensures
        0 <= at.0 < entries.len(),
        0 <= at.1 < entries[at.0].headers.len(),
        entries[at.0].headers[at.1] == all_headers(entries)[k],
    decreases entries.len(),
{
    let front = all_headers(entries.drop_last());
    if k < front.len() {
        lemma_all_headers_come_from(entries.drop_last(), k)
    } else {
        (entries.len() - 1, k - front.len())
    }
}

/// The entries after `source` has been entered with `headers`: the entry of
/// `source` holds the new headers where there was one, and a new entry ends
/// the list where there was none.
pub open spec fn entered(entries: Seq<SourceEntryView>, source: Seq<u8>, headers: Seq<HeaderView>) -> Seq<
    SourceEntryView,
> {
    let entry = SourceEntryView { source, headers };
    match keys(entries).index_of_first(source) {
        Some(at) => entries.update(at, entry),
        None => entries.push(entry),
    }
}

/// Entering a source keeps the sources distinct.
pub proof fn lemma_entered_distinct(entries: Seq<SourceEntryView>, source: Seq<u8>, headers: Seq<HeaderView>)
    requires
        keys(entries).no_duplicates(),
    ensures
        keys(entered(entries, source, headers)).no_duplicates(),
        keys(entered(entries, source, headers)).to_set() == keys(entries).to_set().insert(source),
{
    let after = entered(entries, source, headers);
    keys(entries).index_of_first_ensures(source);
    if keys(entries).contains(source) {
        assert(keys(after) =~= keys(entries));
        assert(keys(entries).to_set().insert(source) =~= keys(entries).to_set());
    } else {
        assert(keys(after) =~= keys(entries).push(source));
        assert(keys(after).to_set() =~= keys(entries).to_set().insert(source)) by {
            assert forall|s: Seq<u8>| keys(after).to_set().contains(s) <==> keys(entries).to_set().insert(source).contains(s) by {
                if keys(after).contains(s) {
                    let k = choose|k: int| 0 <= k < keys(after).len() && keys(after)[k] == s;
                    if k < keys(entries).len() {
                        assert(keys(entries)[k] == s);
                    }
                }
                if keys(entries).contains(s) {
                    let k = choose|k: int| 0 <= k < keys(entries).len() && keys(entries)[k] == s;
                    assert(keys(after)[k] == s);
                }
                if s == source {
                    assert(keys(after)[keys(entries).len() as int] == s);
                }
            }
        }
    }
}

/// Entering a source whose extension stands for a language keeps it so that
/// every source has such an extension.
pub proof fn lemma_entered_known(entries: Seq<SourceEntryView>, source: Seq<u8>, headers: Seq<HeaderView>)
    requires
        all_known(entries),
        Compiler::of_file(source) is Some,
    ensures
        all_known(entered(entries, source, headers)),
{
    keys(entries).index_of_first_ensures(source);
    let after = entered(entries, source, headers);
    assert forall|i: int| 0 <= i < after.len() implies Compiler::of_file((#[trigger] after[i]).source) is Some by {
        if i < entries.len() && after[i] == entries[i] {
        } else {
            assert(after[i].source == source);
        }
    }
}

/// The sources of a target with the headers of each: the closure that a scan
/// builds. No source has two entries, and the extension of every source
/// stands for a language.
#[derive(Debug)]
pub struct SourceMap {
    entries: Vec<SourceEntry>,
}

impl View for SourceMap {
    type V = Seq<SourceEntryView>;

    closed spec fn view(&self) -> Seq<SourceEntryView> {
        self.entries@.map_values(|e: SourceEntry| e@)
    }
}

impl SourceMap {
    /// What holds of every map of sources: no source has two entries, and
    /// the extension of every source stands for a language.
    #[verifier::type_invariant]
    pub open spec fn wf(&self) -> bool {
        keys(self@).no_duplicates() && all_known(self@)
    }

    /// No sources.
    pub fn new() -> (r: SourceMap)
        ensures
            r@ == Seq::<SourceEntryView>::empty(),
            r.wf(),
    {
        let r = SourceMap { entries: Vec::new() };
        assert(r@ =~= Seq::<SourceEntryView>::empty());
        r
    }

    /// The number of sources.
    pub fn len(&self) -> (r: usize)
        ensures
            r == self@.len(),
    {
        self.entries.len()
    }

    /// The entry at a position.
    pub fn get(&self, i: usize) -> (r: &SourceEntry)
        requires
            i < self@.len(),
        ensures
            r@ == self@[i as int],
    {
        &self.entries[i]
    }

    /// The position of the entry of `source`, where there is one.
    pub fn position(&self, source: &[u8]) -> (r: Option<usize>)
        ensures
            match r {
                Some(i) => keys(self@).index_of_first(source@) == Some(i as int) && i < self@.len(),
                None => keys(self@).index_of_first(source@) is None,
            },
    {
        let mut i: usize = 0;
        while i < self.entries.len()
            invariant
                i <= self.entries.len(),
                forall|j: int| 0 <= j < i ==> keys(self@)[j] != source@,
            decreases self.entries.len() - i,
        {
            if bytes_eq(self.entries[i].source.as_slice(), source) {
                assert(keys(self@)[i as int] == source@);
                proof {
                    keys(self@).index_of_first_ensures(source@);
                }
                return Some(i);
            }
            i += 1;
        }
        proof {
            keys(self@).index_of_first_ensures(source@);
        }
        None
    }

    /// Whether `source` has an entry.
    pub fn contains_key(&self, source: &[u8]) -> (r: bool)
        ensures
            r == keys(self@).contains(source@),
    {
        proof {
            keys(self@).index_of_first_ensures(source@);
        }
        self.position(source).is_some()
    }

    /// Enters `source` with `headers`, in place of the entry that it had
    /// before, if any. A source whose extension stands for no language is
    /// not entered. Says whether the source was entered.
    pub fn insert(&mut self, source: Vec<u8>, headers: Vec<Header>) -> (done: bool)
        ensures
            done == (Compiler::of_file(source@) is Some),
            final(self)@ == if done {
                entered(old(self)@, source@, header_views(headers@))
            } else {
                old(self)@
            },
            final(self).wf(),
    {
        proof {
            use_type_invariant(&*self);
        }
        if Compiler::determine_from_file(source.as_slice()).is_none() {
            return false;
        }
        proof {
            lemma_entered_distinct(self@, source@, header_views(headers@));
            lemma_entered_known(self@, source@, header_views(headers@));
        }
        let ghost before = self@;
        let entry = SourceEntry { source, headers };
        let at = self.position(entry.source.as_slice());
        let mut entries: Vec<SourceEntry> = Vec::new();
        core::mem::swap(&mut self.entries, &mut entries);
        match at {
            Some(i) => {
                entries.set(i, entry);
            },
            None => {
                entries.push(entry);
            },
        }
        assert(entries@.map_values(|e: SourceEntry| e@) =~= entered(before, entry.source@, entry@.headers));
        core::mem::swap(&mut self.entries, &mut entries);
        true
    }
}

} // verus!
