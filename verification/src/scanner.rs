//! Finding the sources of a target.
//!
//! A target names the sources to start from. Each source includes headers,
//! each header may have a unit that implements it, and that unit belongs to
//! the target too. The scan goes round by round: a round looks at every
//! header of every source found so far and names the units that are still
//! to be scanned; the compiler is asked for the headers of each, and they
//! are recorded. The scan is done when a round names no unit.

use vstd::prelude::*;
use crate::bytes::{contains, copy_bytes, views};
use crate::options::Compiler;
use crate::project::{DetachedHeaders, DetachedHeadersView};
use crate::resolver::{header_to_unit, mapping_views, resolve};
use crate::snapshot::{FileStatView, FileSystem};
use crate::sources::{all_headers, entered, header_views, keys, lemma_all_headers_hold, Header, HeaderView, SourceEntryView, SourceMap};

verus! {

/// What a scan goes by, as byte strings: the sources to leave out, the
/// headers that have no unit, the detached-header mappings, and whether a
/// header without a unit is to be passed over.
pub struct ScanRules {
    pub ignore_files: Seq<Seq<u8>>,
    pub headers_only: Seq<Seq<u8>>,
    pub detached_headers: Seq<DetachedHeadersView>,
    pub ignore_missing_sources: bool,
}

/// Whether a header ought to have a unit and has none: it is not known as a
/// header without one, and looking for its unit finds none, or finds two.
pub open spec fn lacks_unit(rules: ScanRules, files: Map<Seq<u8>, FileStatView>, header: HeaderView) -> bool {
    &&& !rules.headers_only.contains(header.canonical)
    &&& resolve(header.canonical, rules.detached_headers, files).unit() is None
}

/// The unit that a header brings into the target: the unit that implements
/// it, unless the header is known to have none or the unit is to be left
/// out.
pub open spec fn brings(rules: ScanRules, files: Map<Seq<u8>, FileStatView>, header: HeaderView) -> Option<
    Seq<u8>,
> {
    if rules.headers_only.contains(header.canonical) {
        None
    } else {
        match resolve(header.canonical, rules.detached_headers, files).unit() {
            Some(unit) => if rules.ignore_files.contains(unit) {
                None
            } else {
                Some(unit)
            },
            None => None,
        }
    }
}

/// The first of the headers that lacks a unit.
pub open spec fn first_lacking(
    headers: Seq<HeaderView>,
    rules: ScanRules,
    files: Map<Seq<u8>, FileStatView>,
) -> Option<int>
    decreases headers.len(),
{
    if headers.len() == 0 {
        None
    } else {
        match first_lacking(headers.drop_last(), rules, files) {
            Some(at) => Some(at),
            None => if lacks_unit(rules, files, headers.last()) {
                Some(headers.len() - 1)
            } else {
                None
            },
        }
    }
}

/// The units that the headers bring and that are not known yet, each once,
/// in the order in which the headers bring them.
pub open spec fn new_units(
    headers: Seq<HeaderView>,
    rules: ScanRules,
    files: Map<Seq<u8>, FileStatView>,
    known: Seq<Seq<u8>>,
) -> Seq<Seq<u8>>
    decreases headers.len(),
{
    if headers.len() == 0 {
        Seq::empty()
    } else {
        let before = new_units(headers.drop_last(), rules, files, known);
        match brings(rules, files, headers.last()) {
            Some(unit) => if known.contains(unit) || before.contains(unit) {
                before
            } else {
                before.push(unit)
            },
            None => before,
        }
    }
}

/// What a round of the scan comes to.
#[derive(Debug)]
pub enum ScanStep {
    /// These units are to be scanned and recorded before the next round.
    Scan(Vec<Vec<u8>>),
    /// The scan fails: this header, named as the compiler reported it, ought
    /// to have a unit and has none.
    Missing(Vec<u8>),
    /// Nothing is left to scan.
    Done,
}

/// A `ScanStep` as byte strings.
pub enum ScanStepView {
    Scan(Seq<Seq<u8>>),
    Missing(Seq<u8>),
    Done,
}

impl View for ScanStep {
    type V = ScanStepView;

    open spec fn view(&self) -> ScanStepView {
        match self {
            ScanStep::Scan(units) => ScanStepView::Scan(views(units@)),
            ScanStep::Missing(header) => ScanStepView::Missing(header@),
            ScanStep::Done => ScanStepView::Done,
        }
    }
}

/// What a round comes to, given what has been scanned so far. Where headers
/// without a unit are not passed over, the first of them fails the scan.
/// Otherwise the round names the units that the headers bring and that have
/// not been scanned, or is done where there are none.
pub open spec fn scan_step(
    scanned: Seq<SourceEntryView>,
    rules: ScanRules,
    files: Map<Seq<u8>, FileStatView>,
) -> ScanStepView {
    let headers = all_headers(scanned);
    let lacking = first_lacking(headers, rules, files);
    if !rules.ignore_missing_sources && lacking is Some {
        ScanStepView::Missing(headers[lacking->0].reported)
    } else {
        let units = new_units(headers, rules, files, keys(scanned));
        if units.len() == 0 {
            ScanStepView::Done
        } else {
            ScanStepView::Scan(units)
        }
    }
}

/// Whether the scanned sources are closed: every unit that a header of one
/// of them brings is one of them.
pub open spec fn closed(scanned: Seq<SourceEntryView>, rules: ScanRules, files: Map<Seq<u8>, FileStatView>) -> bool {
    forall|i: int, j: int|
        0 <= i < scanned.len() && 0 <= j < scanned[i].headers.len() ==> (brings(
            rules,
            files,
            #[trigger] scanned[i].headers[j],
        ) matches Some(unit) ==> keys(scanned).contains(unit))
}

/// A header that lacks a unit among the first few lacks it among all.
pub proof fn lemma_first_lacking_stays(
    headers: Seq<HeaderView>,
    rules: ScanRules,
    files: Map<Seq<u8>, FileStatView>,
    n: int,
)
    requires
        0 <= n <= headers.len(),
        first_lacking(headers.take(n), rules, files) is Some,
    ensures
        first_lacking(headers, rules, files) == first_lacking(headers.take(n), rules, files),
    decreases headers.len() - n,
{
    if n < headers.len() {
        assert(headers.take(n + 1).drop_last() =~= headers.take(n));
        lemma_first_lacking_stays(headers, rules, files, n + 1);
    } else {
        assert(headers.take(n) =~= headers);
    }
}

/// A unit that one of the headers brings is known or new.
pub proof fn lemma_new_units_cover(
    headers: Seq<HeaderView>,
    rules: ScanRules,
    files: Map<Seq<u8>, FileStatView>,
    known: Seq<Seq<u8>>,
    k: int,
)
    requires
        0 <= k < headers.len(),
        brings(rules, files, headers[k]) is Some,
    ensures
        known.contains(brings(rules, files, headers[k])->0) || new_units(headers, rules, files, known).contains(
            brings(rules, files, headers[k])->0,
        ),
    decreases headers.len(),
{
    let unit = brings(rules, files, headers[k])->0;
    let before = new_units(headers.drop_last(), rules, files, known);
    let all = new_units(headers, rules, files, known);
    if k < headers.len() - 1 {
        lemma_new_units_cover(headers.drop_last(), rules, files, known, k);
        if before.contains(unit) {
            let at = choose|at: int| 0 <= at < before.len() && before[at] == unit;
            assert(all[at] == unit);
        }
    } else {
        if !known.contains(unit) && !before.contains(unit) {
            assert(all[before.len() as int] == unit);
        }
    }
}

/// The new units are distinct, none of them is known, and a header brings
/// each of them.
pub proof fn lemma_new_units_are_new(
    headers: Seq<HeaderView>,
    rules: ScanRules,
    files: Map<Seq<u8>, FileStatView>,
    known: Seq<Seq<u8>>,
)
    ensures
        new_units(headers, rules, files, known).no_duplicates(),
        forall|i: int|
            0 <= i < new_units(headers, rules, files, known).len() ==> {
                let unit = #[trigger] new_units(headers, rules, files, known)[i];
                &&& !known.contains(unit)
                &&& exists|k: int| 0 <= k < headers.len() && brings(rules, files, #[trigger] headers[k]) == Some(unit)
            },
    decreases headers.len(),
{
    if headers.len() > 0 {
        let front = headers.drop_last();
        lemma_new_units_are_new(front, rules, files, known);
        let before = new_units(front, rules, files, known);
        let all = new_units(headers, rules, files, known);
        assert forall|i: int| 0 <= i < all.len() implies {
            let unit = #[trigger] all[i];
            &&& !known.contains(unit)
            &&& exists|k: int| 0 <= k < headers.len() && brings(rules, files, #[trigger] headers[k]) == Some(unit)
        } by {
            let unit = all[i];
            if i < before.len() {
                assert(before[i] == unit);
                let k = choose|k: int| 0 <= k < front.len() && brings(rules, files, #[trigger] front[k]) == Some(unit);
                assert(headers[k] == front[k]);
            } else {
                assert(headers[headers.len() - 1] == headers.last());
            }
        }
    }
}

/// A scan that goes on grows: recording a unit that a round names makes the
/// scanned sources one more.
pub proof fn lemma_named_unit_adds_a_source(
    scanned: Seq<SourceEntryView>,
    rules: ScanRules,
    files: Map<Seq<u8>, FileStatView>,
    i: int,
    headers: Seq<HeaderView>,
)
    requires
        0 <= i < new_units(all_headers(scanned), rules, files, keys(scanned)).len(),
    ensures
        entered(scanned, new_units(all_headers(scanned), rules, files, keys(scanned))[i], headers).len()
            == scanned.len() + 1,
{
    let unit = new_units(all_headers(scanned), rules, files, keys(scanned))[i];
    lemma_new_units_are_new(all_headers(scanned), rules, files, keys(scanned));
    keys(scanned).index_of_first_ensures(unit);
}

/// Where a round names no unit, the scanned sources are closed.
pub proof fn lemma_done_is_closed(
    scanned: Seq<SourceEntryView>,
    rules: ScanRules,
    files: Map<Seq<u8>, FileStatView>,
)
    requires
        new_units(all_headers(scanned), rules, files, keys(scanned)).len() == 0,
    ensures
        closed(scanned, rules, files),
{
    let headers = all_headers(scanned);
    assert forall|i: int, j: int|
        0 <= i < scanned.len() && 0 <= j < scanned[i].headers.len() implies (brings(
        rules,
        files,
        #[trigger] scanned[i].headers[j],
    ) matches Some(unit) ==> keys(scanned).contains(unit)) by {
        let header = scanned[i].headers[j];
        if brings(rules, files, header) is Some {
            lemma_all_headers_hold(scanned, i, j);
            let k = choose|k: int| 0 <= k < headers.len() && headers[k] == header;
            lemma_new_units_cover(headers, rules, files, keys(scanned), k);
        }
    }
}

/// A scan in progress: the sources recorded so far, and the rules.
#[derive(Debug)]
pub struct Scanner {
    pub files: SourceMap,
    pub ignore_files: Vec<Vec<u8>>,
    pub headers_only: Vec<Vec<u8>>,
    pub detached_headers: Vec<DetachedHeaders>,
    pub ignore_missing_sources: bool,
}

impl Scanner {
    /// The rules of this scan.
    pub open spec fn rules(&self) -> ScanRules {
        ScanRules {
            ignore_files: views(self.ignore_files@),
            headers_only: views(self.headers_only@),
            detached_headers: mapping_views(self.detached_headers@),
            ignore_missing_sources: self.ignore_missing_sources,
        }
    }

    /// A scan that has recorded nothing yet. All paths are canonical.
    pub fn new(
        ignore_files: Vec<Vec<u8>>,
        headers_only: Vec<Vec<u8>>,
        detached_headers: Vec<DetachedHeaders>,
        ignore_missing_sources: bool,
    ) -> (r: Scanner)
        ensures
            r.files@ == Seq::<SourceEntryView>::empty(),
            r.files.wf(),
            r.ignore_files == ignore_files,
            r.headers_only == headers_only,
            r.detached_headers == detached_headers,
            r.ignore_missing_sources == ignore_missing_sources,
    {
        Scanner { files: SourceMap::new(), ignore_files, headers_only, detached_headers, ignore_missing_sources }
    }

    /// Records the headers that the compiler reported for a source: a source
    /// to start from, or a unit that a round named. A source whose extension
    /// stands for no language is not recorded. Says whether the source was
    /// recorded.
    pub fn record(&mut self, source: Vec<u8>, headers: Vec<Header>) -> (done: bool)
        ensures
            done == (Compiler::of_file(source@) is Some),
            final(self).files@ == if done {
                entered(old(self).files@, source@, header_views(headers@))
            } else {
                old(self).files@
            },
            final(self).files.wf(),
            final(self).rules() == old(self).rules(),
    {
        self.files.insert(source, headers)
    }

    /// All the headers recorded so far, source after source.
    fn headers(&self) -> (r: Vec<Header>)
        ensures
            header_views(r@) == all_headers(self.files@),
    {
        let mut r: Vec<Header> = Vec::new();
        let mut i: usize = 0;
        assert(self.files@.take(0) =~= Seq::<SourceEntryView>::empty());
        while i < self.files.len()
            invariant
                i <= self.files@.len(),
                header_views(r@) == all_headers(self.files@.take(i as int)),
            decreases self.files@.len() - i,
        {
            let entry = self.files.get(i);
            let ghost before = header_views(r@);
            let mut j: usize = 0;
            while j < entry.headers.len()
                invariant
                    j <= entry.headers.len(),
                    header_views(r@) == before + header_views(entry.headers@).take(j as int),
                decreases entry.headers.len() - j,
            {
                let ghost so_far = header_views(r@);
                r.push(entry.headers[j].duplicate());
                assert(header_views(r@) =~= so_far.push(entry.headers@[j as int]@));
                assert(header_views(r@) =~= before + header_views(entry.headers@).take(j + 1));
                j += 1;
            }
            assert(header_views(entry.headers@).take(entry.headers@.len() as int) =~= entry@.headers);
            assert(self.files@.take(i + 1).drop_last() =~= self.files@.take(i as int));
            assert(self.files@.take(i + 1).last() == entry@);
            i += 1;
        }
        assert(self.files@.take(self.files@.len() as int) =~= self.files@);
        r
    }

    /// Runs a round: says which units are to be scanned next, that a header
    /// lacks its unit, or that the scan is done, in which case the scanned
    /// sources are closed.
    pub fn next(&self, fs: &FileSystem) -> (r: ScanStep)
        ensures
            r@ == scan_step(self.files@, self.rules(), fs@),
            r is Done ==> closed(self.files@, self.rules(), fs@),
    {
        let headers = self.headers();
        let ghost all = all_headers(self.files@);
        let ghost rules = self.rules();
        let ghost known = keys(self.files@);
        let mut units: Vec<Vec<u8>> = Vec::new();
        let mut k: usize = 0;
        assert(views(units@) =~= new_units(all.take(0), rules, fs@, known));
        while k < headers.len()
            invariant
                k <= headers.len(),
                header_views(headers@) == all,
                all == all_headers(self.files@),
                rules == self.rules(),
                known == keys(self.files@),
                views(units@) == new_units(all.take(k as int), rules, fs@, known),
                !rules.ignore_missing_sources ==> first_lacking(all.take(k as int), rules, fs@) is None,
            decreases headers.len() - k,
        {
            let header = &headers[k];
            assert(all.take(k + 1).drop_last() =~= all.take(k as int));
            assert(all.take(k + 1).last() == header@);
            if !contains(&self.headers_only, header.canonical.as_slice()) {
                match header_to_unit(header.canonical.as_slice(), &self.detached_headers, fs) {
                    None => {
                        if !self.ignore_missing_sources {
                            proof {
                                lemma_first_lacking_stays(all, rules, fs@, k + 1);
                            }
                            return ScanStep::Missing(copy_bytes(header.reported.as_slice()));
                        }
                    },
                    Some(unit) => {
                        if !contains(&self.ignore_files, unit.as_slice()) && !self.files.contains_key(
                            unit.as_slice(),
                        ) && !contains(&units, unit.as_slice()) {
                            let ghost before = views(units@);
                            units.push(unit);
                            assert(views(units@) =~= before.push(unit@));
                        }
                    },
                }
            }
            k += 1;
        }
        assert(all.take(headers@.len() as int) =~= all);
        if units.len() == 0 {
            proof {
                lemma_done_is_closed(self.files@, rules, fs@);
            }
            ScanStep::Done
        } else {
            ScanStep::Scan(units)
        }
    }

    /// Ends the scan and hands over what it recorded.
    pub fn finish(self) -> (r: SourceMap)
        ensures
            r == self.files,
    {
        self.files
    }
}

} // verus!
