//! From a header to the unit that implements it.
//!
//! The unit of a header lies next to it under the same name, as a C or as a
//! C++ source. Where both are there, the header is ambiguous and has no
//! unit. Where neither is there, the detached-header mappings are tried in
//! order: a mapping whose tree of headers holds the header names a place in
//! its tree of sources, and the first mapping at whose place a unit is found
//! decides.

use vstd::prelude::*;
use crate::bytes::{bytes_of, copy_bytes, views};
use crate::path::{join, set_extension, spec_join, spec_strip_prefix, strip_prefix, with_extension};
use crate::project::{DetachedHeaders, DetachedHeadersView};
use crate::snapshot::{exists_in, FileStatView, FileSystem};

verus! {

/// What comes of looking for the unit of a header.
#[derive(Debug)]
pub enum Resolution {
    /// The unit that implements the header.
    Unit(Vec<u8>),
    /// A C and a C++ source both lie next to the header.
    Ambiguous,
    /// No unit was found.
    Missing,
}

/// A `Resolution` with the unit as a byte string.
pub enum ResolutionView {
    Unit(Seq<u8>),
    Ambiguous,
    Missing,
}

impl ResolutionView {
    /// The unit, where one was found.
    pub open spec fn unit(self) -> Option<Seq<u8>> {
        match self {
            ResolutionView::Unit(unit) => Some(unit),
            _ => None,
        }
    }
}

impl View for Resolution {
    type V = ResolutionView;

    open spec fn view(&self) -> ResolutionView {
        match self {
            Resolution::Unit(unit) => ResolutionView::Unit(unit@),
            Resolution::Ambiguous => ResolutionView::Ambiguous,
            Resolution::Missing => ResolutionView::Missing,
        }
    }
}

/// The mappings of a list, as byte strings.
pub open spec fn mapping_views(mappings: Seq<DetachedHeaders>) -> Seq<DetachedHeadersView> {
    mappings.map_values(|m: DetachedHeaders| m@)
}

/// The C source next to a header.
pub open spec fn c_sibling(header: Seq<u8>) -> Seq<u8> {
    with_extension(header, bytes_of("c"))
}

/// The C++ source next to a header.
pub open spec fn cpp_sibling(header: Seq<u8>) -> Seq<u8> {
    with_extension(header, bytes_of("cpp"))
}

/// The place in the tree of sources of a mapping that stands for a header,
/// where the tree of headers of the mapping holds the header.
pub open spec fn mapped_place(header: Seq<u8>, mapping: DetachedHeadersView) -> Option<Seq<u8>> {
    match spec_strip_prefix(header, mapping.includes) {
        Some(rest) => Some(spec_join(mapping.sources, rest)),
        None => None,
    }
}

/// The unit that one mapping gives a header: the C++ source at the mapped
/// place, or else the C source there.
pub open spec fn mapped_unit(
    header: Seq<u8>,
    mapping: DetachedHeadersView,
    files: Map<Seq<u8>, FileStatView>,
) -> Option<Seq<u8>> {
    match mapped_place(header, mapping) {
        None => None,
        Some(place) => if exists_in(files, cpp_sibling(place)) {
            Some(cpp_sibling(place))
        } else if exists_in(files, c_sibling(place)) {
            Some(c_sibling(place))
        } else {
            None
        },
    }
}

/// The unit that the mappings from index `from` on give a header: that of
/// the first mapping that gives one.
pub open spec fn detached_unit(
    header: Seq<u8>,
    mappings: Seq<DetachedHeadersView>,
    files: Map<Seq<u8>, FileStatView>,
    from: int,
) -> Option<Seq<u8>>
    decreases mappings.len() - from,
{
    if from < 0 || from >= mappings.len() {
        None
    } else {
        match mapped_unit(header, mappings[from], files) {
            Some(unit) => Some(unit),
            None => detached_unit(header, mappings, files, from + 1),
        }
    }
}

/// What comes of looking for the unit of `header`, given the mappings and
/// the files that are there.
pub open spec fn resolve(
    header: Seq<u8>,
    mappings: Seq<DetachedHeadersView>,
    files: Map<Seq<u8>, FileStatView>,
) -> ResolutionView {
    let c = exists_in(files, c_sibling(header));
    let cpp = exists_in(files, cpp_sibling(header));
    if c && cpp {
        ResolutionView::Ambiguous
    } else if cpp {
        ResolutionView::Unit(cpp_sibling(header))
    } else if c {
        ResolutionView::Unit(c_sibling(header))
    } else {
        match detached_unit(header, mappings, files, 0) {
            Some(unit) => ResolutionView::Unit(unit),
            None => ResolutionView::Missing,
        }
    }
}

/// `path` with its extension replaced.
fn sibling(path: &[u8], ext: &str) -> (r: Vec<u8>)
    ensures
        r@ == with_extension(path@, bytes_of(ext)),
{
    let mut r = copy_bytes(path);
    set_extension(&mut r, ext.as_bytes());
    r
}

/// Looks for the unit of `header`.
pub fn resolve_header(header: &[u8], mappings: &Vec<DetachedHeaders>, fs: &FileSystem) -> (r: Resolution)
    ensures
        r@ == resolve(header@, mapping_views(mappings@), fs@),
{
    let c = sibling(header, "c");
    let cpp = sibling(header, "cpp");
    let c_exists = fs.is_present(c.as_slice());
    if fs.is_present(cpp.as_slice()) {
        if c_exists {
            Resolution::Ambiguous
        } else {
            Resolution::Unit(cpp)
        }
    } else if c_exists {
        Resolution::Unit(c)
    } else {
        let ghost ms = mapping_views(mappings@);
        let mut i: usize = 0;
        while i < mappings.len()
            invariant
                i <= mappings.len(),
                ms == mapping_views(mappings@),
                !exists_in(fs@, c_sibling(header@)),
                !exists_in(fs@, cpp_sibling(header@)),
                detached_unit(header@, ms, fs@, 0) == detached_unit(header@, ms, fs@, i as int),
            decreases mappings.len() - i,
        {
            let mapping = &mappings[i];
            assert(ms[i as int] == mapping@);
            match strip_prefix(header, mapping.includes.as_slice()) {
                Some(rest) => {
                    let place = join(mapping.sources.as_slice(), rest.as_slice());
                    let mapped_cpp = sibling(place.as_slice(), "cpp");
                    if fs.is_present(mapped_cpp.as_slice()) {
                        return Resolution::Unit(mapped_cpp);
                    }
                    let mapped_c = sibling(place.as_slice(), "c");
                    if fs.is_present(mapped_c.as_slice()) {
                        return Resolution::Unit(mapped_c);
                    }
                },
                None => {},
            }
            i += 1;
        }
        Resolution::Missing
    }
}

/// Maps a header to the unit that implements it, if there is exactly one
/// way to.
pub fn header_to_unit(header: &[u8], mappings: &Vec<DetachedHeaders>, fs: &FileSystem) -> (r: Option<Vec<u8>>)
    ensures
        match r {
            Some(unit) => resolve(header@, mapping_views(mappings@), fs@).unit() == Some(unit@),
            None => resolve(header@, mapping_views(mappings@), fs@).unit() is None,
        },
{
    match resolve_header(header, mappings, fs) {
        Resolution::Unit(unit) => Some(unit),
        _ => None,
    }
}

/// The paths whose presence decides the unit of `header`: its two siblings,
/// then for each mapping that holds the header, in order, the C++ and the C
/// source at the mapped place.
pub open spec fn candidates(header: Seq<u8>, mappings: Seq<DetachedHeadersView>) -> Seq<Seq<u8>>
    decreases mappings.len(),
{
    if mappings.len() == 0 {
        seq![c_sibling(header), cpp_sibling(header)]
    } else {
        let before = candidates(header, mappings.drop_last());
        match mapped_place(header, mappings.last()) {
            Some(place) => before + seq![cpp_sibling(place), c_sibling(place)],
            None => before,
        }
    }
}

/// Lists the paths whose presence decides the unit of `header`.
pub fn unit_candidates(header: &[u8], mappings: &Vec<DetachedHeaders>) -> (r: Vec<Vec<u8>>)
    ensures
        views(r@) == candidates(header@, mapping_views(mappings@)),
{
    let ghost ms = mapping_views(mappings@);
    let mut r: Vec<Vec<u8>> = Vec::new();
    r.push(sibling(header, "c"));
    r.push(sibling(header, "cpp"));
    assert(views(r@) =~= candidates(header@, ms.take(0)));
    let mut i: usize = 0;
    while i < mappings.len()
        invariant
            i <= mappings.len(),
            ms == mapping_views(mappings@),
            views(r@) == candidates(header@, ms.take(i as int)),
        decreases mappings.len() - i,
    {
        let mapping = &mappings[i];
        assert(ms.take(i + 1).drop_last() =~= ms.take(i as int));
        assert(ms.take(i + 1).last() == mapping@);
        let ghost before = views(r@);
        match strip_prefix(header, mapping.includes.as_slice()) {
            Some(rest) => {
                let place = join(mapping.sources.as_slice(), rest.as_slice());
                r.push(sibling(place.as_slice(), "cpp"));
                r.push(sibling(place.as_slice(), "c"));
                assert(views(r@) =~= before + seq![cpp_sibling(place@), c_sibling(place@)]);
            },
            None => {},
        }
        i += 1;
    }
    assert(ms.take(mappings@.len() as int) =~= ms);
    r
}

/// The candidates of fewer mappings are among those of more.
proof fn lemma_candidates_grow(header: Seq<u8>, mappings: Seq<DetachedHeadersView>, n: int, path: Seq<u8>)
    requires
        0 <= n <= mappings.len(),
        candidates(header, mappings.take(n)).contains(path),
    ensures
        candidates(header, mappings).contains(path),
    decreases mappings.len() - n,
{
    if n < mappings.len() {
        let shorter = candidates(header, mappings.take(n));
        let longer = candidates(header, mappings.take(n + 1));
        assert(mappings.take(n + 1).drop_last() =~= mappings.take(n));
        let k = choose|k: int| 0 <= k < shorter.len() && shorter[k] == path;
        assert(longer[k] == path);
        lemma_candidates_grow(header, mappings, n + 1, path);
    } else {
        assert(mappings.take(n) =~= mappings);
    }
}

/// The siblings of a header and the two sources at the mapped place of each
/// mapping that holds it are candidates.
pub proof fn lemma_candidates_hold(header: Seq<u8>, mappings: Seq<DetachedHeadersView>)
    ensures
        candidates(header, mappings).contains(c_sibling(header)),
        candidates(header, mappings).contains(cpp_sibling(header)),
        forall|i: int|
            0 <= i < mappings.len() && mapped_place(header, #[trigger] mappings[i]) is Some ==> {
                let place = mapped_place(header, mappings[i])->0;
                &&& candidates(header, mappings).contains(cpp_sibling(place))
                &&& candidates(header, mappings).contains(c_sibling(place))
            },
{
    let none = candidates(header, mappings.take(0));
    assert(none[0] == c_sibling(header));
    assert(none[1] == cpp_sibling(header));
    lemma_candidates_grow(header, mappings, 0, c_sibling(header));
    lemma_candidates_grow(header, mappings, 0, cpp_sibling(header));
    assert forall|i: int|
        0 <= i < mappings.len() && mapped_place(header, #[trigger] mappings[i]) is Some implies {
        let place = mapped_place(header, mappings[i])->0;
        &&& candidates(header, mappings).contains(cpp_sibling(place))
        &&& candidates(header, mappings).contains(c_sibling(place))
    } by {
        let place = mapped_place(header, mappings[i])->0;
        let upto = candidates(header, mappings.take(i + 1));
        assert(mappings.take(i + 1).last() == mappings[i]);
        assert(upto[upto.len() - 2] == cpp_sibling(place));
        assert(upto[upto.len() - 1] == c_sibling(place));
        lemma_candidates_grow(header, mappings, i + 1, cpp_sibling(place));
        lemma_candidates_grow(header, mappings, i + 1, c_sibling(place));
    }
}

/// Two tables of answers that agree on the presence of every candidate give
/// a header the same unit from the mappings.
proof fn lemma_detached_unit_frame(
    header: Seq<u8>,
    mappings: Seq<DetachedHeadersView>,
    files: Map<Seq<u8>, FileStatView>,
    other: Map<Seq<u8>, FileStatView>,
    from: int,
)
    requires
        0 <= from,
        forall|path: Seq<u8>| #[trigger]
            candidates(header, mappings).contains(path) ==> exists_in(files, path) == exists_in(other, path),
    ensures
        detached_unit(header, mappings, files, from) == detached_unit(header, mappings, other, from),
    decreases mappings.len() - from,
{
    if from < mappings.len() {
        lemma_candidates_hold(header, mappings);
        if mapped_place(header, mappings[from]) is Some {
            let place = mapped_place(header, mappings[from])->0;
            assert(candidates(header, mappings).contains(cpp_sibling(place)));
            assert(candidates(header, mappings).contains(c_sibling(place)));
        }
        lemma_detached_unit_frame(header, mappings, files, other, from + 1);
    }
}

/// The unit of a header depends on the files only through the presence of
/// its candidates: two tables of answers that agree on those resolve it
/// alike.
pub proof fn lemma_resolve_frame(
    header: Seq<u8>,
    mappings: Seq<DetachedHeadersView>,
    files: Map<Seq<u8>, FileStatView>,
    other: Map<Seq<u8>, FileStatView>,
)
    requires
        forall|path: Seq<u8>| #[trigger]
            candidates(header, mappings).contains(path) ==> exists_in(files, path) == exists_in(other, path),
    ensures
        resolve(header, mappings, files) == resolve(header, mappings, other),
{
    lemma_candidates_hold(header, mappings);
    assert(candidates(header, mappings).contains(c_sibling(header)));
    assert(candidates(header, mappings).contains(cpp_sibling(header)));
    lemma_detached_unit_frame(header, mappings, files, other, 0);
}

/// Among the mappings from `from` on, the first that gives a unit decides.
pub proof fn lemma_first_match_decides(
    header: Seq<u8>,
    mappings: Seq<DetachedHeadersView>,
    files: Map<Seq<u8>, FileStatView>,
    from: int,
    first: int,
)
    requires
        0 <= from <= first < mappings.len(),
        mapped_unit(header, mappings[first], files) is Some,
        forall|j: int| from <= j < first ==> mapped_unit(header, #[trigger] mappings[j], files) is None,
    ensures
        detached_unit(header, mappings, files, from) == mapped_unit(header, mappings[first], files),
    decreases first - from,
{
    if from < first {
        lemma_first_match_decides(header, mappings, files, from + 1, first);
    }
}

/// Where no mapping from `from` on gives a unit, the mappings give none.
pub proof fn lemma_no_match(
    header: Seq<u8>,
    mappings: Seq<DetachedHeadersView>,
    files: Map<Seq<u8>, FileStatView>,
    from: int,
)
    requires
        0 <= from,
        forall|j: int| from <= j < mappings.len() ==> mapped_unit(header, #[trigger] mappings[j], files) is None,
    ensures
        detached_unit(header, mappings, files, from) is None,
    decreases mappings.len() - from,
{
    if from < mappings.len() {
        lemma_no_match(header, mappings, files, from + 1);
    }
}

/// The mappings' order matters only through which mapping is the first to
/// give a unit: two lists of mappings whose first giving mappings are the
/// same mapping resolve a header alike, whatever else the lists hold and in
/// whatever order.
pub proof fn lemma_resolve_first_match_only(
    header: Seq<u8>,
    mappings: Seq<DetachedHeadersView>,
    others: Seq<DetachedHeadersView>,
    files: Map<Seq<u8>, FileStatView>,
    first: int,
    other_first: int,
)
    requires
        0 <= first < mappings.len(),
        0 <= other_first < others.len(),
        mappings[first] == others[other_first],
        mapped_unit(header, mappings[first], files) is Some,
        forall|j: int| 0 <= j < first ==> mapped_unit(header, #[trigger] mappings[j], files) is None,
        forall|j: int| 0 <= j < other_first ==> mapped_unit(header, #[trigger] others[j], files) is None,
    ensures
        resolve(header, mappings, files) == resolve(header, others, files),
{
    lemma_first_match_decides(header, mappings, files, 0, first);
    lemma_first_match_decides(header, others, files, 0, other_first);
}

/// Mappings that give a header no unit do not matter: two lists of mappings
/// of which none gives one resolve the header alike.
pub proof fn lemma_resolve_without_match(
    header: Seq<u8>,
    mappings: Seq<DetachedHeadersView>,
    others: Seq<DetachedHeadersView>,
    files: Map<Seq<u8>, FileStatView>,
)
    requires
        forall|j: int| 0 <= j < mappings.len() ==> mapped_unit(header, #[trigger] mappings[j], files) is None,
        forall|j: int| 0 <= j < others.len() ==> mapped_unit(header, #[trigger] others[j], files) is None,
    ensures
        resolve(header, mappings, files) == resolve(header, others, files),
{
    lemma_no_match(header, mappings, files, 0);
    lemma_no_match(header, others, files, 0);
}

} // verus!
