use gocar::project::DetachedHeaders;
use gocar::scanner::{ScanStep, Scanner};
use gocar::snapshot::{FileStat, FileSystem, Timestamp};
use gocar::sources::{Header, SourceMap};

fn header(path: &[u8]) -> Header {
    Header { reported: path.to_vec(), canonical: path.to_vec() }
}

fn files(paths: &[&[u8]]) -> FileSystem {
    let mut fs = FileSystem::new();
    for path in paths {
        fs.record(path.to_vec(), FileStat::Modified(Timestamp { nanos: 1 }));
    }
    fs
}

fn list(items: &[&[u8]]) -> Vec<Vec<u8>> {
    items.iter().map(|item| item.to_vec()).collect()
}

/// What the compiler reports for each source of a small project:
/// main.c includes a.h and util.h; a.c includes a.h and b.h; b.cpp includes
/// b.h; util.h has no unit.
fn reports(source: &[u8]) -> Vec<Header> {
    match source {
        b"/p/src/main.c" => vec![header(b"/p/src/a.h"), header(b"/p/src/util.h")],
        b"/p/src/a.c" => vec![header(b"/p/src/a.h"), header(b"/p/src/b.h")],
        b"/p/src/b.cpp" => vec![header(b"/p/src/b.h")],
        b"/p/src/other.c" => vec![header(b"/p/src/b.h")],
        _ => Vec::new(),
    }
}

fn project_files() -> FileSystem {
    files(&[b"/p/src/main.c", b"/p/src/a.c", b"/p/src/a.h", b"/p/src/b.cpp", b"/p/src/b.h", b"/p/src/util.h"])
}

/// Drives a scan to its end as a build does: the roots first, then round
/// after round.
fn run(mut scanner: Scanner, roots: &[&[u8]], fs: &FileSystem) -> Result<(SourceMap, Vec<Vec<Vec<u8>>>), Vec<u8>> {
    for root in roots {
        scanner.record(root.to_vec(), reports(root));
    }
    let mut rounds = Vec::new();
    loop {
        match scanner.next(fs) {
            ScanStep::Done => return Ok((scanner.finish(), rounds)),
            ScanStep::Missing(header) => return Err(header),
            ScanStep::Scan(units) => {
                for unit in &units {
                    scanner.record(unit.clone(), reports(unit));
                }
                rounds.push(units);
            }
        }
    }
}

fn keys(map: &SourceMap) -> Vec<Vec<u8>> {
    (0..map.len()).map(|i| map.get(i).source.clone()).collect()
}

fn reported(map: &SourceMap, i: usize) -> Vec<Vec<u8>> {
    map.get(i).headers.iter().map(|h| h.reported.clone()).collect()
}

#[test]
fn scan_follows_headers_to_units() {
    let scanner = Scanner::new(Vec::new(), Vec::new(), Vec::new(), true);
    let (map, rounds) = run(scanner, &[b"/p/src/main.c"], &project_files()).unwrap();
    assert_eq!(keys(&map), list(&[b"/p/src/main.c", b"/p/src/a.c", b"/p/src/b.cpp"]));
    assert_eq!(rounds, vec![list(&[b"/p/src/a.c"]), list(&[b"/p/src/b.cpp"])]);
    assert_eq!(reported(&map, 0), list(&[b"/p/src/a.h", b"/p/src/util.h"]));
    assert_eq!(reported(&map, 1), list(&[b"/p/src/a.h", b"/p/src/b.h"]));
    assert_eq!(reported(&map, 2), list(&[b"/p/src/b.h"]));
}

#[test]
fn the_result_is_closed() {
    let scanner = Scanner::new(Vec::new(), Vec::new(), Vec::new(), true);
    let fs = project_files();
    let (map, _) = run(scanner, &[b"/p/src/main.c"], &fs).unwrap();
    let known = keys(&map);
    for i in 0..map.len() {
        for h in &map.get(i).headers {
            if let Some(unit) = gocar::resolver::header_to_unit(&h.canonical, &Vec::new(), &fs) {
                assert!(known.contains(&unit));
            }
        }
    }
}

#[test]
fn scanning_twice_gives_the_same_map() {
    let fs = project_files();
    let (first, _) = run(Scanner::new(Vec::new(), Vec::new(), Vec::new(), true), &[b"/p/src/main.c"], &fs).unwrap();
    let (second, _) = run(Scanner::new(Vec::new(), Vec::new(), Vec::new(), true), &[b"/p/src/main.c"], &fs).unwrap();
    assert_eq!(keys(&first), keys(&second));
    for i in 0..first.len() {
        assert_eq!(reported(&first, i), reported(&second, i));
    }
}

#[test]
fn the_order_of_the_roots_does_not_change_the_sources() {
    let fs = project_files();
    let (one, _) = run(Scanner::new(Vec::new(), Vec::new(), Vec::new(), true), &[b"/p/src/main.c", b"/p/src/b.cpp"], &fs).unwrap();
    let (other, _) = run(Scanner::new(Vec::new(), Vec::new(), Vec::new(), true), &[b"/p/src/b.cpp", b"/p/src/main.c"], &fs).unwrap();
    let mut a = keys(&one);
    let mut b = keys(&other);
    a.sort();
    b.sort();
    assert_eq!(a, b);
    assert_eq!(a, list(&[b"/p/src/a.c", b"/p/src/b.cpp", b"/p/src/main.c"]));
}

#[test]
fn a_header_without_unit_fails_the_scan() {
    let scanner = Scanner::new(Vec::new(), Vec::new(), Vec::new(), false);
    assert_eq!(run(scanner, &[b"/p/src/main.c"], &project_files()).unwrap_err(), b"/p/src/util.h".to_vec());
}

#[test]
fn the_missing_header_is_named_as_reported() {
    let mut scanner = Scanner::new(Vec::new(), Vec::new(), Vec::new(), false);
    scanner.record(
        b"/p/src/main.c".to_vec(),
        vec![Header { reported: b"src/lonely.h".to_vec(), canonical: b"/p/src/lonely.h".to_vec() }],
    );
    assert!(matches!(scanner.next(&project_files()), ScanStep::Missing(h) if h == b"src/lonely.h".to_vec()));
}

#[test]
fn a_missing_header_fails_before_anything_is_scanned() {
    let mut scanner = Scanner::new(Vec::new(), Vec::new(), Vec::new(), false);
    scanner.record(b"/p/src/x.c".to_vec(), vec![header(b"/p/src/a.h"), header(b"/p/src/util.h")]);
    assert!(matches!(scanner.next(&project_files()), ScanStep::Missing(h) if h == b"/p/src/util.h".to_vec()));
}

#[test]
fn headers_only_are_passed_over() {
    let scanner = Scanner::new(Vec::new(), list(&[b"/p/src/util.h"]), Vec::new(), false);
    let (map, _) = run(scanner, &[b"/p/src/main.c"], &project_files()).unwrap();
    assert_eq!(keys(&map), list(&[b"/p/src/main.c", b"/p/src/a.c", b"/p/src/b.cpp"]));
}

#[test]
fn headers_only_are_not_resolved_even_with_a_unit() {
    let scanner = Scanner::new(Vec::new(), list(&[b"/p/src/a.h", b"/p/src/util.h"]), Vec::new(), false);
    let (map, rounds) = run(scanner, &[b"/p/src/main.c"], &project_files()).unwrap();
    assert_eq!(keys(&map), list(&[b"/p/src/main.c"]));
    assert!(rounds.is_empty());
}

#[test]
fn headers_only_go_by_the_canonical_path() {
    let mut scanner = Scanner::new(Vec::new(), list(&[b"/p/src/util.h"]), Vec::new(), false);
    scanner.record(
        b"/p/src/main.c".to_vec(),
        vec![Header { reported: b"src/../src/util.h".to_vec(), canonical: b"/p/src/util.h".to_vec() }],
    );
    assert!(matches!(scanner.next(&project_files()), ScanStep::Done));
}

#[test]
fn ignored_units_are_left_out() {
    let scanner = Scanner::new(list(&[b"/p/src/a.c"]), Vec::new(), Vec::new(), true);
    let (map, rounds) = run(scanner, &[b"/p/src/main.c"], &project_files()).unwrap();
    assert_eq!(keys(&map), list(&[b"/p/src/main.c"]));
    assert!(rounds.is_empty());
}

#[test]
fn an_ambiguous_header_has_no_unit() {
    let fs = files(&[b"/p/src/main.c", b"/p/src/a.c", b"/p/src/a.cpp"]);
    let mut lenient = Scanner::new(Vec::new(), Vec::new(), Vec::new(), true);
    lenient.record(b"/p/src/main.c".to_vec(), vec![header(b"/p/src/a.h")]);
    assert!(matches!(lenient.next(&fs), ScanStep::Done));
    let mut strict = Scanner::new(Vec::new(), Vec::new(), Vec::new(), false);
    strict.record(b"/p/src/main.c".to_vec(), vec![header(b"/p/src/a.h")]);
    assert!(matches!(strict.next(&fs), ScanStep::Missing(h) if h == b"/p/src/a.h".to_vec()));
}

#[test]
fn a_unit_is_named_once_in_a_round() {
    let mut scanner = Scanner::new(Vec::new(), Vec::new(), Vec::new(), true);
    scanner.record(b"/p/src/main.c".to_vec(), vec![header(b"/p/src/b.h"), header(b"/p/src/a.h"), header(b"/p/src/b.h")]);
    scanner.record(b"/p/src/other.c".to_vec(), vec![header(b"/p/src/b.h")]);
    match scanner.next(&project_files()) {
        ScanStep::Scan(units) => assert_eq!(units, list(&[b"/p/src/b.cpp", b"/p/src/a.c"])),
        _ => panic!("two units are to be scanned"),
    }
}

#[test]
fn detached_headers_are_followed() {
    let fs = files(&[b"/p/src/main.c", b"/p/lib/net.cpp"]);
    let mappings = vec![DetachedHeaders { includes: b"/p/include".to_vec(), sources: b"/p/lib".to_vec() }];
    let mut scanner = Scanner::new(Vec::new(), Vec::new(), mappings, false);
    scanner.record(b"/p/src/main.c".to_vec(), vec![header(b"/p/include/net.h")]);
    match scanner.next(&fs) {
        ScanStep::Scan(units) => assert_eq!(units, list(&[b"/p/lib/net.cpp"])),
        _ => panic!("the mapped unit is to be scanned"),
    }
    scanner.record(b"/p/lib/net.cpp".to_vec(), vec![header(b"/p/include/net.h")]);
    assert!(matches!(scanner.next(&fs), ScanStep::Done));
}

#[test]
fn no_roots_nothing_to_scan() {
    let scanner = Scanner::new(Vec::new(), Vec::new(), Vec::new(), false);
    assert!(matches!(scanner.next(&FileSystem::new()), ScanStep::Done));
    assert_eq!(scanner.finish().len(), 0);
}

#[test]
fn recording_again_replaces_the_headers() {
    let mut map = SourceMap::new();
    map.insert(b"/a.c".to_vec(), vec![header(b"/a.h")]);
    map.insert(b"/b.c".to_vec(), Vec::new());
    map.insert(b"/a.c".to_vec(), vec![header(b"/x.h"), header(b"/y.h")]);
    assert_eq!(map.len(), 2);
    assert_eq!(keys(&map), list(&[b"/a.c", b"/b.c"]));
    assert_eq!(reported(&map, 0), list(&[b"/x.h", b"/y.h"]));
    assert!(map.contains_key(b"/a.c"));
    assert!(map.contains_key(b"/b.c"));
    assert!(!map.contains_key(b"/c.c"));
    assert_eq!(map.position(b"/b.c"), Some(1));
    assert_eq!(map.position(b"/c.c"), None);
}

#[test]
fn a_source_without_language_is_not_entered() {
    let mut map = SourceMap::new();
    assert!(map.insert(b"/a.c".to_vec(), vec![header(b"/a.h")]));
    assert!(!map.insert(b"/b.C".to_vec(), Vec::new()));
    assert!(!map.insert(b"/Makefile".to_vec(), Vec::new()));
    assert!(!map.insert(b"/a.h".to_vec(), Vec::new()));
    assert!(map.insert(b"/c.cxx".to_vec(), Vec::new()));
    assert_eq!(keys(&map), list(&[b"/a.c", b"/c.cxx"]));

    let mut scanner = Scanner::new(Vec::new(), Vec::new(), Vec::new(), true);
    assert!(!scanner.record(b"/p/src/main.rs".to_vec(), vec![header(b"/p/src/a.h")]));
    assert!(matches!(scanner.next(&project_files()), ScanStep::Done));
    assert!(scanner.record(b"/p/src/main.c".to_vec(), vec![header(b"/p/src/a.h")]));
    assert!(matches!(scanner.next(&project_files()), ScanStep::Scan(_)));
}
