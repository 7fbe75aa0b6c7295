use gocar::bytes::{bytes_eq, catenate, contains, decimal_string, ends_with, starts_with, to_bytes};
use gocar::path::{extension, file_name, find_last, is_relative, join, parent, set_extension, strip_prefix};

#[test]
fn join_adds_one_separator() {
    assert_eq!(join(b"/target", b"0_file"), b"/target/0_file".to_vec());
    assert_eq!(join(b"/target/", b"0_file"), b"/target/0_file".to_vec());
    assert_eq!(join(b"/", b"file"), b"/file".to_vec());
    assert_eq!(join(b"", b"file"), b"file".to_vec());
    assert_eq!(join(b"/target", b""), b"/target/".to_vec());
}

#[test]
fn join_lets_an_absolute_path_stand() {
    assert_eq!(join(b"/project", b"/usr/include/x.h"), b"/usr/include/x.h".to_vec());
    assert_eq!(join(b"", b"/x"), b"/x".to_vec());
}

#[test]
fn parent_drops_the_last_component() {
    assert_eq!(parent(b"/base/dir"), Some(b"/base".to_vec()));
    assert_eq!(parent(b"/base"), Some(b"/".to_vec()));
    assert_eq!(parent(b"/"), None);
    assert_eq!(parent(b""), None);
    assert_eq!(parent(b"a"), Some(b"".to_vec()));
    assert_eq!(parent(b"a/b"), Some(b"a".to_vec()));
}

#[test]
fn strip_prefix_stops_at_component_boundaries() {
    assert_eq!(strip_prefix(b"/base/dir/file", b"/base/dir"), Some(b"file".to_vec()));
    assert_eq!(strip_prefix(b"/base/dir/file", b"/base"), Some(b"dir/file".to_vec()));
    assert_eq!(strip_prefix(b"/base/dir/file", b"/"), Some(b"base/dir/file".to_vec()));
    assert_eq!(strip_prefix(b"/base/dir", b"/base/dir"), Some(b"".to_vec()));
    assert_eq!(strip_prefix(b"/base/dirfile", b"/base/dir"), None);
    assert_eq!(strip_prefix(b"/base", b"/base/dir"), None);
    assert_eq!(strip_prefix(b"/other/file", b"/base"), None);
    assert_eq!(strip_prefix(b"rel/file", b""), Some(b"rel/file".to_vec()));
    assert_eq!(strip_prefix(b"/abs/file", b""), Some(b"/abs/file".to_vec()));
}

#[test]
fn file_name_is_the_last_component() {
    assert_eq!(file_name(b"/a/b/foo.h"), Some(b"foo.h".to_vec()));
    assert_eq!(file_name(b"foo.h"), Some(b"foo.h".to_vec()));
    assert_eq!(file_name(b"/a/b/"), None);
    assert_eq!(file_name(b"/"), None);
    assert_eq!(file_name(b""), None);
    assert_eq!(file_name(b"/a/.."), None);
    assert_eq!(file_name(b"/a/."), None);
    assert_eq!(file_name(b"/a/..."), Some(b"...".to_vec()));
}

#[test]
fn extension_follows_the_last_dot_of_the_name() {
    assert_eq!(extension(b"/a/foo.c"), Some(b"c".to_vec()));
    assert_eq!(extension(b"/a/foo.tar.gz"), Some(b"gz".to_vec()));
    assert_eq!(extension(b"/a/foo."), Some(b"".to_vec()));
    assert_eq!(extension(b"/a/foo"), None);
    assert_eq!(extension(b"/a/.bashrc"), None);
    assert_eq!(extension(b"/a/.bashrc.bak"), Some(b"bak".to_vec()));
    assert_eq!(extension(b"/a.d/foo"), None);
    assert_eq!(extension(b"/a/.."), None);
    assert_eq!(extension(b""), None);
}

#[test]
fn set_extension_replaces_or_adds() {
    let mut p = b"/a/foo.h".to_vec();
    assert!(set_extension(&mut p, b"c"));
    assert_eq!(p, b"/a/foo.c".to_vec());
    assert!(set_extension(&mut p, b"cpp"));
    assert_eq!(p, b"/a/foo.cpp".to_vec());

    let mut bare = b"/a/foo".to_vec();
    assert!(set_extension(&mut bare, b"c"));
    assert_eq!(bare, b"/a/foo.c".to_vec());

    let mut hidden = b"/a/.h".to_vec();
    assert!(set_extension(&mut hidden, b"c"));
    assert_eq!(hidden, b"/a/.h.c".to_vec());

    let mut removed = b"/a/foo.tar.gz".to_vec();
    assert!(set_extension(&mut removed, b""));
    assert_eq!(removed, b"/a/foo.tar".to_vec());
}

#[test]
fn set_extension_needs_a_file_name() {
    let mut root = b"/".to_vec();
    assert!(!set_extension(&mut root, b"c"));
    assert_eq!(root, b"/".to_vec());
    let mut dots = b"/a/..".to_vec();
    assert!(!set_extension(&mut dots, b"c"));
    assert_eq!(dots, b"/a/..".to_vec());
    let mut empty = b"".to_vec();
    assert!(!set_extension(&mut empty, b"c"));
    assert_eq!(empty, b"".to_vec());
}

#[test]
fn relative_and_absolute() {
    assert!(is_relative(b"src/a.c"));
    assert!(is_relative(b""));
    assert!(!is_relative(b"/src/a.c"));
    assert!(!is_relative(b"/"));
}

#[test]
fn find_last_finds_the_last() {
    assert_eq!(find_last(b"/a/b", b'/'), Some(2));
    assert_eq!(find_last(b"/", b'/'), Some(0));
    assert_eq!(find_last(b"ab", b'/'), None);
    assert_eq!(find_last(b"", b'/'), None);
}

#[test]
fn byte_string_helpers() {
    assert!(bytes_eq(b"abc", b"abc"));
    assert!(!bytes_eq(b"abc", b"abd"));
    assert!(!bytes_eq(b"abc", b"ab"));
    assert!(bytes_eq(b"", b""));
    assert_eq!(catenate(b"-I", b"/inc"), b"-I/inc".to_vec());
    assert_eq!(to_bytes("c++"), b"c++".to_vec());
    assert!(starts_with(b"/base/dir", b"/base"));
    assert!(starts_with(b"/base", b""));
    assert!(!starts_with(b"/base", b"/base/dir"));
    assert!(!starts_with(b"/base", b"/bose"));
    assert!(ends_with(b"foo.hpp", b".hpp"));
    assert!(!ends_with(b"foo.hpp", b".h"));
    assert!(!ends_with(b"h", b".h"));
    assert!(contains(&vec![b"a".to_vec(), b"b".to_vec()], b"b"));
    assert!(!contains(&vec![b"a".to_vec(), b"b".to_vec()], b"c"));
    assert!(!contains(&Vec::new(), b"c"));
}

#[test]
fn decimal_rendering() {
    assert_eq!(decimal_string(0), b"0".to_vec());
    assert_eq!(decimal_string(7), b"7".to_vec());
    assert_eq!(decimal_string(10), b"10".to_vec());
    assert_eq!(decimal_string(409), b"409".to_vec());
    assert_eq!(decimal_string(65535), b"65535".to_vec());
}
