use gocar::command::Error;
use gocar::options::CompileOptions;
use gocar::project::{CompilerEnv, Profile, Project};

fn list(items: &[&[u8]]) -> Vec<Vec<u8>> {
    items.iter().map(|item| item.to_vec()).collect()
}

fn empty_project() -> Project {
    Project {
        bin: Vec::new(),
        lib: Vec::new(),
        profiles: Vec::new(),
        add_compile_options: Vec::new(),
        add_c_compile_options: Vec::new(),
        add_cpp_compile_options: Vec::new(),
        add_link_options: Vec::new(),
        ignore_missing_sources: false,
        detached_headers: Vec::new(),
        post_compile: None,
        headers_only: Vec::new(),
        dependencies: Vec::new(),
        include_dirs: Vec::new(),
    }
}

fn env() -> CompilerEnv {
    CompilerEnv { cc: None, cxx: Some(b"clang++".to_vec()) }
}

#[test]
fn default_profiles_are_added() {
    let mut project = empty_project();
    project.init_default_profiles(&env());
    assert_eq!(project.profiles.len(), 2);
    assert_eq!(project.profiles[0].0, b"release".to_vec());
    assert_eq!(project.profiles[0].1.compile_options.common, list(&[b"-O2"]));
    assert_eq!(project.profiles[0].1.c_compiler, b"cc".to_vec());
    assert_eq!(project.profiles[0].1.cpp_compiler, b"clang++".to_vec());
    assert_eq!(project.profiles[1].0, b"debug".to_vec());
    assert_eq!(project.profiles[1].1.compile_options.common, list(&[b"-g", b"-DDEBUG"]));
    assert!(project.has_profile(b"release"));
    assert!(project.has_profile(b"debug"));
    assert!(!project.has_profile(b"bench"));
}

#[test]
fn addons_are_appended_to_every_profile() {
    let mut project = empty_project();
    project.add_compile_options = list(&[b"-Wall"]);
    project.add_c_compile_options = list(&[b"-std=c11"]);
    project.add_cpp_compile_options = list(&[b"-std=c++17"]);
    project.add_link_options = list(&[b"-lm"]);
    project.profiles.push((
        b"bench".to_vec(),
        Profile {
            c_compiler: b"gcc".to_vec(),
            cpp_compiler: b"g++".to_vec(),
            compile_options: CompileOptions { common: list(&[b"-O3"]), c: list(&[b"-c1"]), cpp: list(&[b"-x1"]) },
            link_options: list(&[b"-s"]),
        },
    ));
    project.init_default_profiles(&env());
    let names: Vec<Vec<u8>> = project.profiles.iter().map(|(name, _)| name.clone()).collect();
    assert_eq!(names, list(&[b"bench", b"release", b"debug"]));
    let bench = &project.profiles[0].1;
    assert_eq!(bench.c_compiler, b"gcc".to_vec());
    assert_eq!(bench.compile_options.common, list(&[b"-O3", b"-Wall"]));
    assert_eq!(bench.compile_options.c, list(&[b"-c1", b"-std=c11"]));
    assert_eq!(bench.compile_options.cpp, list(&[b"-x1", b"-std=c++17"]));
    assert_eq!(bench.link_options, list(&[b"-s", b"-lm"]));
    let release = &project.profiles[1].1;
    assert_eq!(release.compile_options.common, list(&[b"-O2", b"-Wall"]));
    assert_eq!(release.compile_options.c, list(&[b"-std=c11"]));
    assert_eq!(release.compile_options.cpp, list(&[b"-std=c++17"]));
    assert_eq!(release.link_options, list(&[b"-lm"]));
    let debug = &project.profiles[2].1;
    assert_eq!(debug.compile_options.common, list(&[b"-g", b"-DDEBUG", b"-Wall"]));
    assert_eq!(debug.link_options, list(&[b"-lm"]));
    assert_eq!(project.add_compile_options, list(&[b"-Wall"]));
    assert_eq!(project.add_link_options, list(&[b"-lm"]));
}

#[test]
fn a_profile_of_the_manifest_is_not_replaced() {
    let mut project = empty_project();
    project.profiles.push((
        b"release".to_vec(),
        Profile {
            c_compiler: b"tcc".to_vec(),
            cpp_compiler: b"c++".to_vec(),
            compile_options: CompileOptions { common: list(&[b"-Os"]), c: Vec::new(), cpp: Vec::new() },
            link_options: Vec::new(),
        },
    ));
    project.add_compile_options = list(&[b"-Wextra"]);
    project.init_default_profiles(&env());
    assert_eq!(project.profiles.len(), 2);
    assert_eq!(project.profiles[0].0, b"release".to_vec());
    assert_eq!(project.profiles[0].1.c_compiler, b"tcc".to_vec());
    assert_eq!(project.profiles[0].1.compile_options.common, list(&[b"-Os", b"-Wextra"]));
    assert_eq!(project.profiles[1].0, b"debug".to_vec());
    assert_eq!(project.profiles[1].1.compile_options.common, list(&[b"-g", b"-DDEBUG", b"-Wextra"]));
}

#[test]
fn profile_lookup() {
    let mut project = empty_project();
    project.init_default_profiles(&env());
    let release = project.profile(b"release").unwrap();
    assert_eq!(release.compile_options.common, list(&[b"-O2"]));
    let debug = project.profile(b"debug").unwrap();
    assert_eq!(debug.compile_options.common, list(&[b"-g", b"-DDEBUG"]));
}

#[test]
fn unknown_profile_name_is_invalid() {
    let mut project = empty_project();
    assert!(matches!(project.profile(b"debug"), Err(Error::InvalidProfileName)));
    project.init_default_profiles(&env());
    assert!(matches!(project.profile(b"bench"), Err(Error::InvalidProfileName)));
    assert!(matches!(project.profile(b"Debug"), Err(Error::InvalidProfileName)));
    assert!(matches!(project.profile(b""), Err(Error::InvalidProfileName)));
}

#[test]
fn the_first_profile_of_a_name_counts() {
    let mut project = empty_project();
    project.profiles.push((b"fast".to_vec(), Profile::release(&env())));
    project.profiles.push((b"fast".to_vec(), Profile::debug(&env())));
    assert_eq!(project.profile(b"fast").unwrap().compile_options.common, list(&[b"-O2"]));
}
