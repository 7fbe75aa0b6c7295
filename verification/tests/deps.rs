use gocar::command::Error;
use gocar::deps::{deps_include_dir, BuildTarget};
use gocar::driver::CompileOutput;
use gocar::options::{CompileOptions, LibraryType};
use gocar::project::{Binary, CompilerEnv, Dependency, Library, Project, Target};
use gocar::sources::SourceMap;

fn list(items: &[&[u8]]) -> Vec<Vec<u8>> {
    items.iter().map(|item| item.to_vec()).collect()
}

fn empty_project() -> Project {
    Project {
        bin: Vec::new(),
        lib: Vec::new(),
        profiles: Vec::new(),
        add_compile_options: Vec::new(),
        add_c_compile_options: Vec::new(),
        add_cpp_compile_options: Vec::new(),
        add_link_options: Vec::new(),
        ignore_missing_sources: false,
        detached_headers: Vec::new(),
        post_compile: None,
        headers_only: Vec::new(),
        dependencies: Vec::new(),
        include_dirs: Vec::new(),
    }
}

fn library(name: &[u8], public_headers: &[&[u8]]) -> Library {
    Library {
        target: Target {
            name: name.to_vec(),
            root_files: list(&[b"src/lib.c"]),
            compile_options: CompileOptions::default(),
            link_options: Vec::new(),
            ignore_files: Vec::new(),
            _phantom: Default::default(),
        },
        disallow_static: false,
        disallow_dynamic: false,
        public_headers: list(public_headers),
    }
}

fn dependency(path: &[u8], linkage: Option<LibraryType>, config_headers: &[&[u8]]) -> Dependency {
    Dependency { path: path.to_vec(), linkage, config_headers: list(config_headers) }
}

#[test]
fn staged_headers_go_under_deps_include() {
    assert_eq!(deps_include_dir(b"target/debug"), b"target/debug/deps/include".to_vec());
    assert_eq!(deps_include_dir(b"/abs/target"), b"/abs/target/deps/include".to_vec());
}

#[test]
fn plan_of_a_relative_dependency() {
    let dep = dependency(b"../foo", None, &[]);
    let plan = dep.plan(b"foo", b"target/debug", b"/home/u/app/target/debug/deps/include", b"/home/u/app", LibraryType::Static);
    assert_eq!(plan.lib_dir, b"target/debug/deps/lib/foo".to_vec());
    assert_eq!(plan.include_dir, b"/home/u/app/target/debug/deps/include/foo".to_vec());
    assert_eq!(plan.project_dir, b"/home/u/app/../foo".to_vec());
    assert_eq!(plan.linkage, LibraryType::Static);
    assert!(plan.extra_include.is_none());
}

#[test]
fn plan_of_an_absolute_dependency() {
    let dep = dependency(b"/opt/src/bar", None, &[]);
    let plan = dep.plan(b"bar", b"target/release", b"/inc", b"/home/u/app", LibraryType::Dynamic);
    assert_eq!(plan.project_dir, b"/opt/src/bar".to_vec());
    assert_eq!(plan.lib_dir, b"target/release/deps/lib/bar".to_vec());
    assert_eq!(plan.include_dir, b"/inc/bar".to_vec());
    assert_eq!(plan.linkage, LibraryType::Dynamic);
}

#[test]
fn a_dependency_may_choose_its_linkage() {
    let dep = dependency(b"foo", Some(LibraryType::Dynamic), &[]);
    assert_eq!(dep.plan(b"foo", b"t", b"/i", b"/p", LibraryType::Static).linkage, LibraryType::Dynamic);
    let dep = dependency(b"foo", Some(LibraryType::Static), &[]);
    assert_eq!(dep.plan(b"foo", b"t", b"/i", b"/p", LibraryType::Dynamic).linkage, LibraryType::Static);
}

#[test]
fn config_headers_add_the_staging_directory_to_the_search() {
    let dep = dependency(b"foo", None, &[b"config/foo_config.h"]);
    let plan = dep.plan(b"foo", b"t", b"/i", b"/p", LibraryType::Static);
    assert_eq!(plan.extra_include, Some(b"/i/foo".to_vec()));
}

#[test]
fn config_headers_are_staged_and_made_known() {
    let dep = dependency(b"foo", None, &[b"config/foo_config.h", b"/etc/app/limits.h", b"config/foo_config.h"]);
    let mut sub = empty_project();
    sub.headers_only = list(&[b"/known.h"]);
    let copies = dep.copy_config_headers(b"/home/u/app", b"/i/foo", &mut sub).unwrap();
    let pairs: Vec<(Vec<u8>, Vec<u8>)> = copies.into_iter().map(|c| (c.from, c.to)).collect();
    assert_eq!(
        pairs,
        vec![
            (b"/home/u/app/config/foo_config.h".to_vec(), b"/i/foo/foo_config.h".to_vec()),
            (b"/etc/app/limits.h".to_vec(), b"/i/foo/limits.h".to_vec()),
            (b"/home/u/app/config/foo_config.h".to_vec(), b"/i/foo/foo_config.h".to_vec()),
        ]
    );
    assert_eq!(sub.headers_only, list(&[b"/known.h", b"/i/foo/foo_config.h", b"/i/foo/limits.h"]));
}

#[test]
fn a_config_header_without_file_name_stops_the_staging() {
    let dep = dependency(b"foo", None, &[b"config/a.h", b"config/.."]);
    let mut sub = empty_project();
    assert!(dep.copy_config_headers(b"/home/u/app", b"/i/foo", &mut sub).is_none());
    assert!(sub.headers_only.is_empty());
}

#[test]
fn public_headers_are_staged_by_file_name() {
    let mut sub = empty_project();
    sub.lib.push(library(b"foo", &[b"foo.h", b"detail/impl.h"]));
    sub.lib.push(library(b"bar", &[b"bar.hpp"]));
    let copies = sub.copy_headers(b"target/deps/include/foo", b"/home/u/foo").unwrap();
    let pairs: Vec<(Vec<u8>, Vec<u8>)> = copies.into_iter().map(|c| (c.from, c.to)).collect();
    assert_eq!(
        pairs,
        vec![
            (b"/home/u/foo/src/foo.h".to_vec(), b"target/deps/include/foo/foo.h".to_vec()),
            (b"/home/u/foo/src/detail/impl.h".to_vec(), b"target/deps/include/foo/impl.h".to_vec()),
            (b"/home/u/foo/src/bar.hpp".to_vec(), b"target/deps/include/foo/bar.hpp".to_vec()),
        ]
    );
}

#[test]
fn a_public_header_without_file_name_stops_the_staging() {
    let mut sub = empty_project();
    sub.lib.push(library(b"foo", &[b"foo.h", b"dir/"]));
    assert!(sub.copy_headers(b"t", b"/p").is_none());
    let none = empty_project();
    assert_eq!(none.copy_headers(b"t", b"/p").unwrap().len(), 0);
}

#[test]
fn link_arguments_name_the_directory_and_each_library() {
    let mut sub = empty_project();
    sub.lib.push(library(b"foo", &[]));
    sub.lib.push(library(b"foo_extra", &[]));
    let mut lib_dirs = list(&[b"-Lbefore"]);
    let mut libs = list(&[b"-lbefore"]);
    sub.link_arguments(b"target/deps/lib/foo", &mut lib_dirs, &mut libs);
    assert_eq!(lib_dirs, list(&[b"-Lbefore", b"-Ltarget/deps/lib/foo"]));
    assert_eq!(libs, list(&[b"-lbefore", b"-lfoo", b"-lfoo_extra"]));
}

#[test]
fn dependency_staging() {
    let dep = dependency(b"libfoo", None, &[]);
    let mut sub = empty_project();
    sub.lib.push(library(b"foo", &[b"foo.h"]));
    let include_root = deps_include_dir(b"target");
    let plan = dep.plan(b"foo", b"target", &include_root, b"/home/u/app", LibraryType::Static);
    let copies = sub.copy_headers(&plan.include_dir, &plan.project_dir).unwrap();
    assert_eq!(copies.len(), 1);
    assert_eq!(copies[0].from, b"/home/u/app/libfoo/src/foo.h".to_vec());
    assert_eq!(copies[0].to, b"target/deps/include/foo/foo.h".to_vec());

    let mut lib_dirs = Vec::new();
    let mut libs = Vec::new();
    sub.link_arguments(&plan.lib_dir, &mut lib_dirs, &mut libs);

    let mut parent = empty_project();
    parent.init_default_profiles(&CompilerEnv { cc: None, cxx: None });
    let env = parent
        .with_build_env(
            b"target".to_vec(),
            b"/home/u/app".to_vec(),
            b"debug",
            include_root.clone(),
            lib_dirs,
            libs,
            b"/home/u/app".to_vec(),
            Vec::new(),
            &Vec::new(),
            None,
        )
        .unwrap();
    let binary = Binary {
        target: Target {
            name: b"app".to_vec(),
            root_files: list(&[b"src/main.c"]),
            compile_options: CompileOptions::default(),
            link_options: Vec::new(),
            ignore_files: Vec::new(),
            _phantom: Default::default(),
        },
    };
    let mut files = SourceMap::new();
    files.insert(b"/home/u/app/src/main.c".to_vec(), Vec::new());
    let command = binary.build(&env, &files, &CompileOutput { up_to_date: false, has_cpp: false }).unwrap();
    assert_eq!(command.cmd, b"cc".to_vec());
    assert_eq!(
        command.args,
        list(&[b"-o", b"target/app", b"target/0_src/main.o", b"-Ltarget/deps/lib/foo", b"-lfoo"])
    );
    let step = binary.target.compile_unit(&env, &env.os.bin_spec, b"/home/u/app/src/main.c").unwrap();
    assert!(step.command.args.contains(&b"-Itarget/deps/include".to_vec()));
}

#[test]
fn build_env_holds_what_it_is_given() {
    let mut project = empty_project();
    project.init_default_profiles(&CompilerEnv { cc: Some(b"gcc".to_vec()), cxx: None });
    let env = project
        .with_build_env(
            b"target/release".to_vec(),
            b"/home/u/app".to_vec(),
            b"release",
            b"/home/u/app/target/release/deps/include".to_vec(),
            list(&[b"-La"]),
            list(&[b"-lb"]),
            b"/home/u".to_vec(),
            list(&[b"/home/u/app/src/only.h"]),
            &list(&[b"/home/u/app/include", b"/usr/local/include"]),
            Some(b"/extra".to_vec()),
        )
        .unwrap();
    assert_eq!(env.target_dir, b"target/release".to_vec());
    assert_eq!(env.project_dir, b"/home/u/app".to_vec());
    assert_eq!(env.include_dir, b"/home/u/app/target/release/deps/include".to_vec());
    assert_eq!(env.include_dirs, list(&[b"-I/home/u/app/include", b"-I/usr/local/include", b"-I/extra"]));
    assert_eq!(env.lib_dirs, list(&[b"-La"]));
    assert_eq!(env.libs, list(&[b"-lb"]));
    assert_eq!(env.strip_prefix, b"/home/u".to_vec());
    assert_eq!(env.headers_only, list(&[b"/home/u/app/src/only.h"]));
    assert_eq!(env.profile.c_compiler, b"gcc".to_vec());
    assert_eq!(env.profile.compile_options.common, list(&[b"-O2"]));
    assert_eq!(env.os.dynamic_lib_spec.extension, b"so".to_vec());
    assert!(!env.project.ignore_missing_sources);
}

#[test]
fn build_env_without_extra_include() {
    let mut project = empty_project();
    project.init_default_profiles(&CompilerEnv { cc: None, cxx: None });
    let env = project
        .with_build_env(b"t".to_vec(), b"/p".to_vec(), b"debug", b"/i".to_vec(), Vec::new(), Vec::new(), Vec::new(), Vec::new(), &list(&[b"/inc"]), None)
        .unwrap();
    assert_eq!(env.include_dirs, list(&[b"-I/inc"]));
    assert_eq!(env.profile.compile_options.common, list(&[b"-g", b"-DDEBUG"]));
}

#[test]
fn build_env_needs_a_known_profile() {
    let mut project = empty_project();
    project.init_default_profiles(&CompilerEnv { cc: None, cxx: None });
    let result = project.with_build_env(
        b"t".to_vec(),
        b"/p".to_vec(),
        b"bench",
        b"/i".to_vec(),
        Vec::new(),
        Vec::new(),
        Vec::new(),
        Vec::new(),
        &Vec::new(),
        None,
    );
    assert!(matches!(result, Err(Error::InvalidProfileName)));
}

#[test]
fn dependencies_are_laid_out_in_order() {
    let mut project = empty_project();
    project.dependencies.push((b"foo".to_vec(), dependency(b"../foo", None, &[])));
    project.dependencies.push((b"bar".to_vec(), dependency(b"/opt/bar", Some(LibraryType::Dynamic), &[b"cfg.h"])));
    let plans = project.build_dependencies(b"target/debug", b"/abs/target/debug/deps/include", b"/home/u/app", LibraryType::Static);
    assert_eq!(plans.len(), 2);
    assert_eq!(plans[0].lib_dir, b"target/debug/deps/lib/foo".to_vec());
    assert_eq!(plans[0].include_dir, b"/abs/target/debug/deps/include/foo".to_vec());
    assert_eq!(plans[0].project_dir, b"/home/u/app/../foo".to_vec());
    assert_eq!(plans[0].linkage, LibraryType::Static);
    assert_eq!(plans[0].extra_include, None);
    assert_eq!(plans[1].lib_dir, b"target/debug/deps/lib/bar".to_vec());
    assert_eq!(plans[1].include_dir, b"/abs/target/debug/deps/include/bar".to_vec());
    assert_eq!(plans[1].project_dir, b"/opt/bar".to_vec());
    assert_eq!(plans[1].linkage, LibraryType::Dynamic);
    assert_eq!(plans[1].extra_include, Some(b"/abs/target/debug/deps/include/bar".to_vec()));
    assert!(empty_project().build_dependencies(b"t", b"/i", b"/p", LibraryType::Static).is_empty());
}

#[test]
fn libraries_are_built_before_binaries() {
    let mut project = empty_project();
    assert!(project.build().is_empty());
    project.lib.push(library(b"one", &[]));
    project.lib.push(library(b"two", &[]));
    for name in [b"a", b"b", b"c"] {
        project.bin.push(Binary {
            target: Target {
                name: name.to_vec(),
                root_files: list(&[b"src/main.c"]),
                compile_options: CompileOptions::default(),
                link_options: Vec::new(),
                ignore_files: Vec::new(),
                _phantom: Default::default(),
            },
        });
    }
    assert_eq!(
        project.build(),
        vec![
            BuildTarget::Library(0),
            BuildTarget::Library(1),
            BuildTarget::Binary(0),
            BuildTarget::Binary(1),
            BuildTarget::Binary(2),
        ]
    );
    assert_eq!(project.build_libraries(), vec![BuildTarget::Library(0), BuildTarget::Library(1)]);
}
