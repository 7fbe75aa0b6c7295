//! The manifest of a project: its targets, profiles, dependencies and the
//! options that hold for all of them.

use vstd::prelude::*;
use vstd::string::*;
use std::marker::PhantomData;
use crate::bytes::{bytes_eq, bytes_of, copy_bytes, copy_list, extend, to_bytes, views};
use crate::command::Error;
use crate::options::{BinTarget, CompileOptions, CompileOptionsView, Compiler, LibTarget, LibraryType, TargetKind};

verus! {

/// What the environment says of the compilers: the values of `CC` and of
/// `CXX`, where they are set.
#[derive(Debug)]
pub struct CompilerEnv {
    pub cc: Option<Vec<u8>>,
    pub cxx: Option<Vec<u8>>,
}

impl CompilerEnv {
    /// The C compiler of a profile that names none: `CC`, or `cc` where
    /// that is not set.
    pub open spec fn c_compiler(&self) -> Seq<u8> {
        match self.cc {
            Some(path) => path@,
            None => bytes_of("cc"),
        }
    }

    /// The C++ compiler of a profile that names none: `CXX`, or `c++` where
    /// that is not set.
    pub open spec fn cpp_compiler(&self) -> Seq<u8> {
        match self.cxx {
            Some(path) => path@,
            None => bytes_of("c++"),
        }
    }
}

/// The C compiler of a profile that names none.
pub fn default_c_compiler(env: &CompilerEnv) -> (r: Vec<u8>)
    ensures
        r@ == env.c_compiler(),
{
    match &env.cc {
        Some(path) => copy_bytes(path.as_slice()),
        None => to_bytes("cc"),
    }
}

/// The C++ compiler of a profile that names none.
pub fn default_cpp_compiler(env: &CompilerEnv) -> (r: Vec<u8>)
    ensures
        r@ == env.cpp_compiler(),
{
    match &env.cxx {
        Some(path) => copy_bytes(path.as_slice()),
        None => to_bytes("c++"),
    }
}

/// A flavour of compilation: the two compilers and the options they get.
#[derive(Debug)]
pub struct Profile {
    pub c_compiler: Vec<u8>,
    pub cpp_compiler: Vec<u8>,
    pub compile_options: CompileOptions,
    pub link_options: Vec<Vec<u8>>,
}

/// A `Profile` as sequences of byte strings.
#[verifier::ext_equal]
pub struct ProfileView {
    pub c_compiler: Seq<u8>,
    pub cpp_compiler: Seq<u8>,
    pub compile_options: CompileOptionsView,
    pub link_options: Seq<Seq<u8>>,
}

impl ProfileView {
    /// The release profile: the compilers of the environment, `-O2`.
    pub open spec fn release(env: &CompilerEnv) -> ProfileView {
        ProfileView {
            c_compiler: env.c_compiler(),
            cpp_compiler: env.cpp_compiler(),
            compile_options: CompileOptionsView::release(),
            link_options: Seq::empty(),
        }
    }

    /// The debug profile: the compilers of the environment, `-g` and
    /// `-DDEBUG`.
    pub open spec fn debug(env: &CompilerEnv) -> ProfileView {
        ProfileView {
            c_compiler: env.c_compiler(),
            cpp_compiler: env.cpp_compiler(),
            compile_options: CompileOptionsView::debug(),
            link_options: Seq::empty(),
        }
    }

    /// The compiler driver for a language.
    pub open spec fn compiler(self, compiler: Compiler) -> Seq<u8> {
        match compiler {
            Compiler::C => self.c_compiler,
            Compiler::Cpp => self.cpp_compiler,
        }
    }

    /// This profile with the project-wide options appended to its own.
    pub open spec fn with_addons(self, compile: CompileOptionsView, link: Seq<Seq<u8>>) -> ProfileView {
        ProfileView {
            compile_options: self.compile_options.followed_by(compile),
            link_options: self.link_options + link,
            ..self
        }
    }
}

impl View for Profile {
    type V = ProfileView;

    open spec fn view(&self) -> ProfileView {
        ProfileView {
            c_compiler: self.c_compiler@,
            cpp_compiler: self.cpp_compiler@,
            compile_options: self.compile_options@,
            link_options: views(self.link_options@),
        }
    }
}

impl Profile {
    /// The release profile.
    pub fn release(env: &CompilerEnv) -> (r: Profile)
        ensures
            r@ == ProfileView::release(env),
    {
        let r = Profile {
            c_compiler: default_c_compiler(env),
            cpp_compiler: default_cpp_compiler(env),
            compile_options: CompileOptions::release(),
            link_options: Vec::new(),
        };
        assert(r@.link_options =~= Seq::<Seq<u8>>::empty());
        r
    }

    /// The debug profile.
    pub fn debug(env: &CompilerEnv) -> (r: Profile)
        ensures
            r@ == ProfileView::debug(env),
    {
        let r = Profile {
            c_compiler: default_c_compiler(env),
            cpp_compiler: default_cpp_compiler(env),
            compile_options: CompileOptions::debug(),
            link_options: Vec::new(),
        };
        assert(r@.link_options =~= Seq::<Seq<u8>>::empty());
        r
    }

    /// The compiler driver of this profile for a language.
    pub fn compiler(&self, compiler: Compiler) -> (r: &Vec<u8>)
        ensures
            r@ == self@.compiler(compiler),
    {
        match compiler {
            Compiler::C => &self.c_compiler,
            Compiler::Cpp => &self.cpp_compiler,
        }
    }

    /// A copy of this profile.
    pub fn duplicate(&self) -> (r: Profile)
        ensures
            r@ == self@,
    {
        Profile {
            c_compiler: copy_bytes(self.c_compiler.as_slice()),
            cpp_compiler: copy_bytes(self.cpp_compiler.as_slice()),
            compile_options: self.compile_options.duplicate(),
            link_options: copy_list(&self.link_options),
        }
    }
}

/// What binaries and libraries have in common: a name, the sources to start
/// from, options of their own, and sources to leave out. `root_files` and
/// `ignore_files` are sets: neither order nor repetition means anything.
#[derive(Debug)]
pub struct Target<K: TargetKind> {
    pub name: Vec<u8>,
    pub root_files: Vec<Vec<u8>>,
    pub compile_options: CompileOptions,
    pub link_options: Vec<Vec<u8>>,
    pub ignore_files: Vec<Vec<u8>>,
    pub _phantom: PhantomData<K>,
}

/// An executable to build.
#[derive(Debug)]
pub struct Binary {
    pub target: Target<BinTarget>,
}

/// A library to build, and the headers that its users include.
/// `public_headers` is a set of paths below `src`.
#[derive(Debug)]
pub struct Library {
    pub target: Target<LibTarget>,
    pub disallow_static: bool,
    pub disallow_dynamic: bool,
    pub public_headers: Vec<Vec<u8>>,
}

/// Another project that this one links against.
#[derive(Debug)]
pub struct Dependency {
    pub path: Vec<u8>,
    pub linkage: Option<LibraryType>,
    pub config_headers: Vec<Vec<u8>>,
}

/// A tree of headers whose implementation units lie in another tree: the
/// unit of `includes/X` is looked for at `sources/X`.
#[derive(Debug)]
pub struct DetachedHeaders {
    pub includes: Vec<u8>,
    pub sources: Vec<u8>,
}

/// A `DetachedHeaders` as byte strings.
pub struct DetachedHeadersView {
    pub includes: Seq<u8>,
    pub sources: Seq<u8>,
}

impl View for DetachedHeaders {
    type V = DetachedHeadersView;

    open spec fn view(&self) -> DetachedHeadersView {
        DetachedHeadersView { includes: self.includes@, sources: self.sources@ }
    }
}

/// The manifest at the root of a project. `profiles` and `dependencies` are
/// keyed by name, and the first entry of a name is the one that counts;
/// `headers_only` is a set.
#[derive(Debug)]
pub struct Project {
    pub bin: Vec<Binary>,
    pub lib: Vec<Library>,
    pub profiles: Vec<(Vec<u8>, Profile)>,
    pub add_compile_options: Vec<Vec<u8>>,
    pub add_c_compile_options: Vec<Vec<u8>>,
    pub add_cpp_compile_options: Vec<Vec<u8>>,
    pub add_link_options: Vec<Vec<u8>>,
    pub ignore_missing_sources: bool,
    pub detached_headers: Vec<DetachedHeaders>,
    pub post_compile: Option<Vec<u8>>,
    pub headers_only: Vec<Vec<u8>>,
    pub dependencies: Vec<(Vec<u8>, Dependency)>,
    pub include_dirs: Vec<Vec<u8>>,
}

/// The names of a list of profiles, in order.
pub open spec fn profile_names(profiles: Seq<(Vec<u8>, Profile)>) -> Seq<Seq<u8>> {
    profiles.map_values(|e: (Vec<u8>, Profile)| e.0@)
}

/// A list of profiles as names and views, in order.
pub open spec fn profile_views(profiles: Seq<(Vec<u8>, Profile)>) -> Seq<(Seq<u8>, ProfileView)> {
    profiles.map_values(|e: (Vec<u8>, Profile)| (e.0@, e.1@))
}

/// `profiles`, followed by the release profile where none of them is named
/// `release`, and then by the debug profile where none is named `debug`.
pub open spec fn with_default_profiles(
    profiles: Seq<(Seq<u8>, ProfileView)>,
    env: &CompilerEnv,
) -> Seq<(Seq<u8>, ProfileView)> {
    let names = profiles.map_values(|e: (Seq<u8>, ProfileView)| e.0);
    let first = if names.contains(bytes_of("release")) {
        profiles
    } else {
        profiles.push((bytes_of("release"), ProfileView::release(env)))
    };
    let first_names = first.map_values(|e: (Seq<u8>, ProfileView)| e.0);
    if first_names.contains(bytes_of("debug")) {
        first
    } else {
        first.push((bytes_of("debug"), ProfileView::debug(env)))
    }
}

impl Project {
    /// The project-wide compile options, which every profile gets appended
    /// to its own.
    pub open spec fn addon_compile_options(&self) -> CompileOptionsView {
        CompileOptionsView {
            common: views(self.add_compile_options@),
            c: views(self.add_c_compile_options@),
            cpp: views(self.add_cpp_compile_options@),
        }
    }

    /// Whether a profile has the given name.
    pub fn has_profile(&self, name: &[u8]) -> (r: bool)
        ensures
            r == profile_names(self.profiles@).contains(name@),
    {
        let mut i: usize = 0;
        while i < self.profiles.len()
            invariant
                i <= self.profiles.len(),
                forall|j: int| 0 <= j < i ==> profile_names(self.profiles@)[j] != name@,
            decreases self.profiles.len() - i,
        {
            if bytes_eq(self.profiles[i].0.as_slice(), name) {
                assert(profile_names(self.profiles@)[i as int] == name@);
                return true;
            }
            i += 1;
        }
        false
    }

    /// The profile of the given name: the first one that has it. Where no
    /// profile has it, the name is invalid.
    pub fn profile(&self, name: &[u8]) -> (r: Result<&Profile, Error>)
        ensures
            match r {
                Ok(profile) => exists|i: int|
                    0 <= i < self.profiles@.len() && self.profiles@[i].0@ == name@ && *profile
                        == self.profiles@[i].1 && forall|j: int|
                        0 <= j < i ==> (#[trigger] self.profiles@[j]).0@ != name@,
                Err(e) => e is InvalidProfileName && !profile_names(self.profiles@).contains(name@),
            },
    {
        let mut i: usize = 0;
        while i < self.profiles.len()
            invariant
                i <= self.profiles.len(),
                forall|j: int| 0 <= j < i ==> (#[trigger] self.profiles@[j]).0@ != name@,
            decreases self.profiles.len() - i,
        {
            if bytes_eq(self.profiles[i].0.as_slice(), name) {
                return Ok(&self.profiles[i].1);
            }
            i += 1;
        }
        assert(!profile_names(self.profiles@).contains(name@)) by {
            if profile_names(self.profiles@).contains(name@) {
                let k = choose|k: int|
                    0 <= k < profile_names(self.profiles@).len() && profile_names(self.profiles@)[k]
                        == name@;
                assert(self.profiles@[k].0@ == name@);
            }
        }
        Err(Error::InvalidProfileName)
    }

    /// Completes the profiles: adds the release and the debug profile where
    /// the manifest defines none of that name, then appends the project-wide
    /// options to the options of every profile. Nothing else changes.
    pub fn init_default_profiles(&mut self, env: &CompilerEnv)
        ensures
            profile_views(final(self).profiles@) == with_default_profiles(
                profile_views(old(self).profiles@),
                env,
            ).map_values(
                |e: (Seq<u8>, ProfileView)|
                    (e.0, e.1.with_addons(old(self).addon_compile_options(), views(old(self).add_link_options@))),
            ),
            profile_names(final(self).profiles@).contains(bytes_of("release")),
            profile_names(final(self).profiles@).contains(bytes_of("debug")),
            final(self).bin == old(self).bin,
            final(self).lib == old(self).lib,
            final(self).add_compile_options == old(self).add_compile_options,
            final(self).add_c_compile_options == old(self).add_c_compile_options,
            final(self).add_cpp_compile_options == old(self).add_cpp_compile_options,
            final(self).add_link_options == old(self).add_link_options,
            final(self).ignore_missing_sources == old(self).ignore_missing_sources,
            final(self).detached_headers == old(self).detached_headers,
            final(self).post_compile == old(self).post_compile,
            final(self).headers_only == old(self).headers_only,
            final(self).dependencies == old(self).dependencies,
            final(self).include_dirs == old(self).include_dirs,
    {
        let ghost before = profile_views(self.profiles@);
        assert(profile_names(self.profiles@) =~= before.map_values(|e: (Seq<u8>, ProfileView)| e.0));
        if !self.has_profile("release".as_bytes()) {
            self.profiles.push((to_bytes("release"), Profile::release(env)));
        }
        let ghost first = profile_views(self.profiles@);
        assert(first =~= if before.map_values(|e: (Seq<u8>, ProfileView)| e.0).contains(bytes_of("release")) {
            before
        } else {
            before.push((bytes_of("release"), ProfileView::release(env)))
        });
        assert(profile_names(self.profiles@) =~= first.map_values(|e: (Seq<u8>, ProfileView)| e.0));
        if !self.has_profile("debug".as_bytes()) {
            self.profiles.push((to_bytes("debug"), Profile::debug(env)));
        }
        let ghost both = profile_views(self.profiles@);
        assert(both =~= with_default_profiles(before, env));
        let ghost names = profile_names(self.profiles@);
        assert(names.contains(bytes_of("release")) && names.contains(bytes_of("debug"))) by {
            let before_names = before.map_values(|e: (Seq<u8>, ProfileView)| e.0);
            let first_names = first.map_values(|e: (Seq<u8>, ProfileView)| e.0);
            if before_names.contains(bytes_of("release")) {
                let k = choose|k: int| 0 <= k < before_names.len() && before_names[k] == bytes_of("release");
                assert(names[k] == bytes_of("release"));
            } else {
                assert(names[before.len() as int] == bytes_of("release"));
            }
            if first_names.contains(bytes_of("debug")) {
                let k = choose|k: int| 0 <= k < first_names.len() && first_names[k] == bytes_of("debug");
                assert(names[k] == bytes_of("debug"));
            } else {
                assert(names[first.len() as int] == bytes_of("debug"));
            }
        }

        let ghost compile = self.addon_compile_options();
        let ghost link = views(self.add_link_options@);
        let addons = CompileOptions {
            common: copy_list(&self.add_compile_options),
            c: copy_list(&self.add_c_compile_options),
            cpp: copy_list(&self.add_cpp_compile_options),
        };
        let mut completed: Vec<(Vec<u8>, Profile)> = Vec::new();
        let mut i: usize = 0;
        while i < self.profiles.len()
            invariant
                i <= self.profiles.len(),
                addons@ == compile,
                views(self.add_link_options@) == link,
                profile_views(self.profiles@) == both,
                profile_names(self.profiles@) == names,
                completed@.len() == i,
                forall|j: int|
                    0 <= j < i ==> (#[trigger] completed@[j]).0@ == both[j].0 && completed@[j].1@
                        == both[j].1.with_addons(compile, link),
            decreases self.profiles.len() - i,
        {
            let name = copy_bytes(self.profiles[i].0.as_slice());
            let mut profile = self.profiles[i].1.duplicate();
            profile.compile_options.append(&addons);
            extend(&mut profile.link_options, &self.add_link_options);
            assert(both[i as int] == (self.profiles@[i as int].0@, self.profiles@[i as int].1@));
            assert(profile@ =~= both[i as int].1.with_addons(compile, link));
            completed.push((name, profile));
            i += 1;
        }
        self.profiles = completed;
        assert(profile_views(self.profiles@) =~= both.map_values(
            |e: (Seq<u8>, ProfileView)| (e.0, e.1.with_addons(compile, link)),
        ));
        assert(profile_names(self.profiles@) =~= names) by {
            assert forall|j: int| 0 <= j < names.len() implies profile_names(self.profiles@)[j] == names[j] by {
                assert(self.profiles@[j].0@ == both[j].0);
            }
        }
    }
}

} // verus!
