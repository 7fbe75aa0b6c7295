use gocar::objs::{get_obj_path, unit_to_obj};

#[test]
fn basic() {
    assert_eq!(get_obj_path(b"/target", b"/base/dir", b"/base/dir/file"), b"/target/0_file".to_vec());
}

#[test]
fn child() {
    assert_eq!(get_obj_path(b"/target", b"/base/dir", b"/base/dir/child/file"), b"/target/0_child/file".to_vec());
}

#[test]
fn parent() {
    assert_eq!(get_obj_path(b"/target", b"/base/dir", b"/base/file"), b"/target/1_file".to_vec());
}

#[test]
fn cousin() {
    assert_eq!(get_obj_path(b"/target", b"/base/dir", b"/base/child/file"), b"/target/1_child/file".to_vec());
}

#[test]
fn grand_parent() {
    assert_eq!(get_obj_path(b"/target", b"/base/dir", b"/file"), b"/target/2_file".to_vec());
}

#[test]
fn grand_cousin() {
    assert_eq!(get_obj_path(b"/target", b"/base/dir", b"/child1/child2/file"), b"/target/2_child1/child2/file".to_vec());
}

#[test]
fn source_that_is_the_base_gets_a_bare_mark() {
    assert_eq!(get_obj_path(b"/target", b"/base/dir", b"/base/dir"), b"/target/0_".to_vec());
    assert_eq!(get_obj_path(b"/target", b"/base/dir", b"/base"), b"/target/1_".to_vec());
    assert_eq!(get_obj_path(b"/target", b"/base/dir", b"/"), b"/target/2_".to_vec());
}

#[test]
fn relative_source_under_absolute_base_is_outside() {
    assert_eq!(get_obj_path(b"/target", b"/base/dir", b"src/main.o"), b"/target/x_src/main.o".to_vec());
}

#[test]
fn relative_base_ends_at_the_empty_path() {
    assert_eq!(get_obj_path(b"/target", b"proj", b"proj/a.o"), b"/target/0_a.o".to_vec());
    assert_eq!(get_obj_path(b"/target", b"proj", b"other/a.o"), b"/target/1_other/a.o".to_vec());
    assert_eq!(get_obj_path(b"/target", b"proj", b"/abs/a.o"), b"/target/1_/abs/a.o".to_vec());
}

#[test]
fn relative_target_directory() {
    assert_eq!(get_obj_path(b"target/debug", b"/home/u/p", b"/home/u/p/src/a.o"), b"target/debug/0_src/a.o".to_vec());
    assert_eq!(get_obj_path(b"", b"/p", b"/p/a.o"), b"0_a.o".to_vec());
    assert_eq!(get_obj_path(b"out/", b"/p", b"/p/a.o"), b"out/0_a.o".to_vec());
}

#[test]
fn base_prefix_must_end_at_a_component() {
    assert_eq!(get_obj_path(b"/t", b"/base/dir", b"/base/dirfile"), b"/t/1_dirfile".to_vec());
}

#[test]
fn count_of_levels_is_decimal() {
    let base = b"/a/b/c/d/e/f/g/h/i/j/k/l";
    assert_eq!(get_obj_path(b"/t", base, b"/a/b/x.o"), b"/t/10_x.o".to_vec());
    assert_eq!(get_obj_path(b"/t", base, b"/a/x.o"), b"/t/11_x.o".to_vec());
    assert_eq!(get_obj_path(b"/t", base, b"/x.o"), b"/t/12_x.o".to_vec());
}

#[test]
fn distinct_sources_get_distinct_objects() {
    let sources: Vec<&[u8]> = vec![
        b"/base/dir/file",
        b"/base/dir/child/file",
        b"/base/file",
        b"/base/child/file",
        b"/file",
        b"/child/file",
        b"/base/dir/1_file",
        b"/base/1_file",
        b"/base/dir",
        b"/base",
        b"/",
    ];
    let mut objects: Vec<Vec<u8>> = Vec::new();
    for source in &sources {
        let object = get_obj_path(b"/target", b"/base/dir", source);
        assert!(!objects.contains(&object));
        objects.push(object);
    }
    assert_eq!(objects.len(), sources.len());
}

#[test]
fn unit_to_obj_replaces_the_extension() {
    assert_eq!(unit_to_obj(b"/p/src/main.c"), Some(b"/p/src/main.o".to_vec()));
    assert_eq!(unit_to_obj(b"/p/src/main.cpp"), Some(b"/p/src/main.o".to_vec()));
    assert_eq!(unit_to_obj(b"/p/src/a.b.cxx"), Some(b"/p/src/a.b.o".to_vec()));
    assert_eq!(unit_to_obj(b"main.c"), Some(b"main.o".to_vec()));
}

#[test]
fn unit_to_obj_needs_an_extension() {
    assert_eq!(unit_to_obj(b"/p/src/main"), None);
    assert_eq!(unit_to_obj(b"/p/src.d/main"), None);
    assert_eq!(unit_to_obj(b"/p/.hidden"), None);
    assert_eq!(unit_to_obj(b"/p/dir/"), None);
    assert_eq!(unit_to_obj(b""), None);
}

#[test]
fn units_that_differ_in_extension_only_share_an_object() {
    let c = unit_to_obj(b"/p/foo.c").unwrap();
    let cpp = unit_to_obj(b"/p/foo.cpp").unwrap();
    assert_eq!(get_obj_path(b"/t", b"/p", &c), get_obj_path(b"/t", b"/p", &cpp));
    let other = unit_to_obj(b"/p/bar.c").unwrap();
    assert_ne!(get_obj_path(b"/t", b"/p", &c), get_obj_path(b"/t", b"/p", &other));
}
