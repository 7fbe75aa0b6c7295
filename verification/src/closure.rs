//! What a scan arrives at.
//!
//! A scan is told by the compiler which headers each source includes and by
//! the file system which files are there. Where both tell the truth, the
//! scan can only end in one way: with the sources that are reachable from
//! those it started from, each with the headers that the compiler reports
//! for it. The order in which units are scanned has no part in that.

use vstd::prelude::*;
use crate::scanner::{brings, closed, lemma_new_units_are_new, new_units, ScanRules};
use crate::snapshot::FileStatView;
use crate::sources::{all_headers, entered, keys, lemma_all_headers_come_from, HeaderView, SourceEntryView};

verus! {

/// What a scan is told: which files are there, and which headers the
/// compiler reports for each source.
pub struct World {
    pub files: Map<Seq<u8>, FileStatView>,
    pub reports: spec_fn(Seq<u8>) -> Seq<HeaderView>,
}

/// Whether `unit` is reached from the roots in at most `steps` steps, a step
/// leading from a source to a unit that one of its headers brings.
pub open spec fn reached(roots: Set<Seq<u8>>, rules: ScanRules, world: World, unit: Seq<u8>, steps: nat) -> bool
    decreases steps,
{
    if steps == 0 {
        roots.contains(unit)
    } else {
        ||| reached(roots, rules, world, unit, (steps - 1) as nat)
        ||| exists|from: Seq<u8>, k: int|
            reached(roots, rules, world, from, (steps - 1) as nat) && 0 <= k < (world.reports)(from).len()
                && brings(rules, world.files, #[trigger] (world.reports)(from)[k]) == Some(unit)
    }
}

/// Whether `unit` is reached from the roots at all.
pub open spec fn reachable(roots: Set<Seq<u8>>, rules: ScanRules, world: World, unit: Seq<u8>) -> bool {
    exists|steps: nat| reached(roots, rules, world, unit, steps)
}

/// Whether what has been scanned is true to the world: every source is
/// reachable from the roots, and its headers are those that the compiler
/// reports for it.
pub open spec fn truthful(scanned: Seq<SourceEntryView>, roots: Set<Seq<u8>>, rules: ScanRules, world: World) -> bool {
    forall|i: int|
        0 <= i < scanned.len() ==> {
            &&& (#[trigger] scanned[i]).headers == (world.reports)(scanned[i].source)
            &&& reachable(roots, rules, world, scanned[i].source)
        }
}

/// Whether every root has been scanned.
pub open spec fn holds_roots(scanned: Seq<SourceEntryView>, roots: Set<Seq<u8>>) -> bool {
    forall|root: Seq<u8>| roots.contains(root) ==> keys(scanned).contains(root)
}

/// The scanned sources as a map from each source to its headers.
pub open spec fn as_map(scanned: Seq<SourceEntryView>) -> Map<Seq<u8>, Seq<HeaderView>> {
    Map::new(
        |source: Seq<u8>| keys(scanned).contains(source),
        |source: Seq<u8>| scanned[keys(scanned).index_of(source)].headers,
    )
}

/// Recording what the compiler reports for a reachable source keeps a scan
/// true to the world.
pub proof fn lemma_record_keeps_truthful(
    scanned: Seq<SourceEntryView>,
    roots: Set<Seq<u8>>,
    rules: ScanRules,
    world: World,
    source: Seq<u8>,
    headers: Seq<HeaderView>,
)
    requires
        truthful(scanned, roots, rules, world),
        reachable(roots, rules, world, source),
        headers == (world.reports)(source),
    ensures
        truthful(entered(scanned, source, headers), roots, rules, world),
{
    keys(scanned).index_of_first_ensures(source);
    let after = entered(scanned, source, headers);
    assert forall|i: int| 0 <= i < after.len() implies {
        &&& (#[trigger] after[i]).headers == (world.reports)(after[i].source)
        &&& reachable(roots, rules, world, after[i].source)
    } by {
        if i < scanned.len() && after[i] == scanned[i] {
        } else {
            assert(after[i].source == source);
        }
    }
}

/// The units that a round names are reachable, where the scan is true to
/// the world.
pub proof fn lemma_named_units_are_reachable(
    scanned: Seq<SourceEntryView>,
    roots: Set<Seq<u8>>,
    rules: ScanRules,
    world: World,
    i: int,
)
    requires
        truthful(scanned, roots, rules, world),
        0 <= i < new_units(all_headers(scanned), rules, world.files, keys(scanned)).len(),
    ensures
        reachable(roots, rules, world, new_units(all_headers(scanned), rules, world.files, keys(scanned))[i]),
{
    let headers = all_headers(scanned);
    let units = new_units(headers, rules, world.files, keys(scanned));
    lemma_new_units_are_new(headers, rules, world.files, keys(scanned));
    let unit = units[i];
    let k = choose|k: int| 0 <= k < headers.len() && brings(rules, world.files, #[trigger] headers[k]) == Some(unit);
    let at = lemma_all_headers_come_from(scanned, k);
    let from = scanned[at.0].source;
    assert(scanned[at.0].headers == (world.reports)(from));
    let steps = choose|steps: nat| reached(roots, rules, world, from, steps);
    assert((world.reports)(from)[at.1] == headers[k]);
    assert(reached(roots, rules, world, unit, steps + 1));
}

/// A scan that is true to the world, holds the roots and is closed holds
/// every source that is reachable from the roots.
pub proof fn lemma_reached_is_scanned(
    scanned: Seq<SourceEntryView>,
    roots: Set<Seq<u8>>,
    rules: ScanRules,
    world: World,
    unit: Seq<u8>,
    steps: nat,
)
    requires
        truthful(scanned, roots, rules, world),
        holds_roots(scanned, roots),
        closed(scanned, rules, world.files),
        reached(roots, rules, world, unit, steps),
    ensures
        keys(scanned).contains(unit),
    decreases steps,
{
    if steps > 0 {
        let fewer = (steps - 1) as nat;
        if reached(roots, rules, world, unit, fewer) {
            lemma_reached_is_scanned(scanned, roots, rules, world, unit, fewer);
        } else {
            let (from, k) = choose|from: Seq<u8>, k: int|
                reached(roots, rules, world, from, fewer) && 0 <= k < (world.reports)(from).len() && brings(
                    rules,
                    world.files,
                    #[trigger] (world.reports)(from)[k],
                ) == Some(unit);
            lemma_reached_is_scanned(scanned, roots, rules, world, from, fewer);
            let i = choose|i: int| 0 <= i < keys(scanned).len() && keys(scanned)[i] == from;
            assert(scanned[i].source == from);
            assert(scanned[i].headers == (world.reports)(from));
            assert(brings(rules, world.files, scanned[i].headers[k]) == Some(unit));
        }
    }
}

/// Against one world, a scan has one result: two scans from the same roots
/// under the same rules that are true to the world, hold the roots and are
/// closed hold the same sources with the same headers, in whatever order
/// they came by them.
pub proof fn lemma_scan_result_unique(
    first: Seq<SourceEntryView>,
    second: Seq<SourceEntryView>,
    roots: Set<Seq<u8>>,
    rules: ScanRules,
    world: World,
)
    requires
        truthful(first, roots, rules, world),
        truthful(second, roots, rules, world),
        holds_roots(first, roots),
        holds_roots(second, roots),
        closed(first, rules, world.files),
        closed(second, rules, world.files),
    ensures
        as_map(first) == as_map(second),
{
    assert forall|source: Seq<u8>| keys(first).contains(source) implies keys(second).contains(source) by {
        let i = choose|i: int| 0 <= i < keys(first).len() && keys(first)[i] == source;
        assert(first[i].source == source);
        let steps = choose|steps: nat| reached(roots, rules, world, source, steps);
        lemma_reached_is_scanned(second, roots, rules, world, source, steps);
    }
    assert forall|source: Seq<u8>| keys(second).contains(source) implies keys(first).contains(source) by {
        let i = choose|i: int| 0 <= i < keys(second).len() && keys(second)[i] == source;
        assert(second[i].source == source);
        let steps = choose|steps: nat| reached(roots, rules, world, source, steps);
        lemma_reached_is_scanned(first, roots, rules, world, source, steps);
    }
    assert forall|source: Seq<u8>| keys(first).contains(source) implies as_map(first)[source] == as_map(second)[source] by {
        let i = keys(first).index_of(source);
        let j = keys(second).index_of(source);
        assert(first[i].source == source);
        assert(second[j].source == source);
    }
    assert(as_map(first) =~= as_map(second));
}

} // verus!
