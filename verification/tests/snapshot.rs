use gocar::snapshot::{FileStat, FileSystem, Timestamp};

#[test]
fn nothing_is_known_at_first() {
    let fs = FileSystem::new();
    assert!(fs.lookup(b"/a").is_none());
    assert!(!fs.is_present(b"/a"));
}

#[test]
fn record_and_lookup() {
    let mut fs = FileSystem::new();
    fs.record(b"/a".to_vec(), FileStat::Modified(Timestamp { nanos: 5 }));
    fs.record(b"/b".to_vec(), FileStat::Missing);
    fs.record(b"/c".to_vec(), FileStat::Unreadable("permission denied".to_string()));
    assert!(matches!(fs.lookup(b"/a"), Some(FileStat::Modified(Timestamp { nanos: 5 }))));
    assert!(matches!(fs.lookup(b"/b"), Some(FileStat::Missing)));
    match fs.lookup(b"/c") {
        Some(FileStat::Unreadable(cause)) => assert_eq!(cause, "permission denied"),
        _ => panic!("the record of /c is lost"),
    }
    assert!(fs.lookup(b"/d").is_none());
    assert!(fs.is_present(b"/a"));
    assert!(!fs.is_present(b"/b"));
    assert!(!fs.is_present(b"/c"));
    assert!(!fs.is_present(b"/d"));
}

#[test]
fn a_later_record_replaces_an_earlier_one() {
    let mut fs = FileSystem::new();
    fs.record(b"/a".to_vec(), FileStat::Modified(Timestamp { nanos: 5 }));
    fs.record(b"/a".to_vec(), FileStat::Modified(Timestamp { nanos: 9 }));
    assert!(matches!(fs.lookup(b"/a"), Some(FileStat::Modified(Timestamp { nanos: 9 }))));
    fs.record(b"/a".to_vec(), FileStat::Missing);
    assert!(!fs.is_present(b"/a"));
    fs.record(b"/a".to_vec(), FileStat::Modified(Timestamp { nanos: -3 }));
    assert!(fs.is_present(b"/a"));
}

#[test]
fn timestamps_compare_by_nanoseconds() {
    let early = Timestamp { nanos: -1 };
    let late = Timestamp { nanos: 1 };
    assert!(late.is_after(&early));
    assert!(!early.is_after(&late));
    assert!(!late.is_after(&late));
    assert_eq!(late, Timestamp { nanos: 1 });
}
