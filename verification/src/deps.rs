//! Dependencies: where their libraries and headers go, how they are linked
//! in, and the setting in which a project is built.

use vstd::prelude::*;
use vstd::string::*;
use crate::bytes::{bytes_of, catenate, contains, copy_bytes, views};
use crate::command::Error;
use crate::driver::{include_option, spec_include_option, BuildEnv};
use crate::options::{LibraryType, OsSpec, OsSpecView};
use crate::path::{file_name, join, spec_file_name, spec_join};
use crate::project::{Dependency, Library, Project};

verus! {

/// A file to copy.
#[derive(Debug)]
pub struct CopyFile {
    pub from: Vec<u8>,
    pub to: Vec<u8>,
}

/// A `CopyFile` as byte strings.
pub struct CopyFileView {
    pub from: Seq<u8>,
    pub to: Seq<u8>,
}

impl View for CopyFile {
    type V = CopyFileView;

    open spec fn view(&self) -> CopyFileView {
        CopyFileView { from: self.from@, to: self.to@ }
    }
}

/// The files to copy of a list, as byte strings.
pub open spec fn copy_views(copies: Seq<CopyFile>) -> Seq<CopyFileView> {
    copies.map_values(|c: CopyFile| c@)
}

/// The directory under which the headers of all dependencies are staged:
/// `deps/include` in the target directory.
pub open spec fn spec_deps_include_dir(target_dir: Seq<u8>) -> Seq<u8> {
    spec_join(spec_join(target_dir, bytes_of("deps")), bytes_of("include"))
}

/// Where the headers of all dependencies are staged.
pub fn deps_include_dir(target_dir: &[u8]) -> (r: Vec<u8>)
    ensures
        r@ == spec_deps_include_dir(target_dir@),
{
    let deps = join(target_dir, "deps".as_bytes());
    join(deps.as_slice(), "include".as_bytes())
}

/// The directory that the libraries of one dependency are built in:
/// `deps/lib` and the name of the dependency, in the target directory.
pub open spec fn spec_deps_lib_dir(target_dir: Seq<u8>, name: Seq<u8>) -> Seq<u8> {
    spec_join(spec_join(spec_join(target_dir, bytes_of("deps")), bytes_of("lib")), name)
}

/// The argument that adds a directory to the linker's search for libraries.
pub open spec fn spec_lib_dir_option(dir: Seq<u8>) -> Seq<u8> {
    bytes_of("-L") + dir
}

/// The argument that links a library in.
pub open spec fn spec_lib_option(name: Seq<u8>) -> Seq<u8> {
    bytes_of("-l") + name
}

/// How one dependency is built.
#[derive(Debug)]
pub struct DependencyPlan {
    /// The directory that its libraries are built in.
    pub lib_dir: Vec<u8>,
    /// The directory that its headers are staged in.
    pub include_dir: Vec<u8>,
    /// The directory of its project.
    pub project_dir: Vec<u8>,
    /// How its libraries are linked.
    pub linkage: LibraryType,
    /// The directory to add to its search for headers: that of its staged
    /// headers, where configuration headers are copied there.
    pub extra_include: Option<Vec<u8>>,
}

/// A `DependencyPlan` as byte strings.
pub struct DependencyPlanView {
    pub lib_dir: Seq<u8>,
    pub include_dir: Seq<u8>,
    pub project_dir: Seq<u8>,
    pub linkage: LibraryType,
    pub extra_include: Option<Seq<u8>>,
}

impl View for DependencyPlan {
    type V = DependencyPlanView;

    open spec fn view(&self) -> DependencyPlanView {
        DependencyPlanView {
            lib_dir: self.lib_dir@,
            include_dir: self.include_dir@,
            project_dir: self.project_dir@,
            linkage: self.linkage,
            extra_include: match self.extra_include {
                Some(dir) => Some(dir@),
                None => None,
            },
        }
    }
}

impl Dependency {
    /// How this dependency, named `name`, is built for a project in
    /// `project_dir` that is built into `target_dir` and whose dependencies
    /// stage their headers under `include_root`: its libraries go to
    /// `deps/lib` and its name in the target directory, its headers are
    /// staged under its name, its own directory is its path seen from the
    /// project, and its libraries are linked as it says, or else as the
    /// project that depends on it is. Where it has configuration headers,
    /// the directory of its staged headers joins its search for headers.
    pub open spec fn spec_plan(
        &self,
        name: Seq<u8>,
        target_dir: Seq<u8>,
        include_root: Seq<u8>,
        project_dir: Seq<u8>,
        linkage: LibraryType,
    ) -> DependencyPlanView {
        DependencyPlanView {
            lib_dir: spec_deps_lib_dir(target_dir, name),
            include_dir: spec_join(include_root, name),
            project_dir: spec_join(project_dir, self.path@),
            linkage: match self.linkage {
                Some(own) => own,
                None => linkage,
            },
            extra_include: if self.config_headers@.len() > 0 {
                Some(spec_join(include_root, name))
            } else {
                None
            },
        }
    }

    /// Lays out the build of this dependency.
    pub fn plan(&self, name: &[u8], target_dir: &[u8], include_root: &[u8], project_dir: &[u8], linkage: LibraryType) -> (r:
        DependencyPlan)
        ensures
            r@ == self.spec_plan(name@, target_dir@, include_root@, project_dir@, linkage),
    {
        let deps = join(target_dir, "deps".as_bytes());
        let lib = join(deps.as_slice(), "lib".as_bytes());
        let include_dir = join(include_root, name);
        let extra_include = if self.config_headers.len() > 0 {
            Some(copy_bytes(include_dir.as_slice()))
        } else {
            None
        };
        DependencyPlan {
            lib_dir: join(lib.as_slice(), name),
            include_dir,
            project_dir: join(project_dir, self.path.as_slice()),
            linkage: match self.linkage {
                Some(own) => own,
                None => linkage,
            },
            extra_include,
        }
    }

    /// Whether every configuration header has a file name.
    pub open spec fn config_headers_named(&self) -> bool {
        forall|i: int| 0 <= i < self.config_headers@.len() ==> spec_file_name(#[trigger] self.config_headers@[i]@) is Some
    }

    /// The copy that stages one configuration header: from its place seen
    /// from the directory of the depending project, to its file name in the
    /// staging directory.
    pub open spec fn config_copy(header: Seq<u8>, project_dir: Seq<u8>, dest: Seq<u8>) -> CopyFileView {
        CopyFileView { from: spec_join(project_dir, header), to: spec_join(dest, spec_file_name(header)->0) }
    }

    /// The copies that stage the configuration headers of this dependency,
    /// in order.
    pub open spec fn config_copies(&self, project_dir: Seq<u8>, dest: Seq<u8>) -> Seq<CopyFileView> {
        views(self.config_headers@).map_values(|h: Seq<u8>| Self::config_copy(h, project_dir, dest))
    }

    /// The headers without a unit after the staged copies have been added:
    /// each copy that was not among them follows them, in order.
    pub open spec fn with_staged(headers_only: Seq<Seq<u8>>, copies: Seq<CopyFileView>) -> Seq<Seq<u8>>
        decreases copies.len(),
    {
        if copies.len() == 0 {
            headers_only
        } else {
            let before = Self::with_staged(headers_only, copies.drop_last());
            if before.contains(copies.last().to) {
                before
            } else {
                before.push(copies.last().to)
            }
        }
    }

    /// Says which files to copy to stage the configuration headers of this
    /// dependency in `dest`, and makes each staged copy known to the
    /// dependency's `project` as a header without a unit. Nothing is done,
    /// and nothing said, where a configuration header has no file name.
    pub fn copy_config_headers(&self, project_dir: &[u8], dest: &[u8], project: &mut Project) -> (r: Option<
        Vec<CopyFile>,
    >)
        ensures
            match r {
                Some(copies) => self.config_headers_named() && copy_views(copies@) == self.config_copies(
                    project_dir@,
                    dest@,
                ) && views(final(project).headers_only@) == Self::with_staged(
                    views(old(project).headers_only@),
                    self.config_copies(project_dir@, dest@),
                ),
                None => !self.config_headers_named() && views(final(project).headers_only@) == views(
                    old(project).headers_only@,
                ),
            },
            final(project).bin == old(project).bin,
            final(project).lib == old(project).lib,
            final(project).profiles == old(project).profiles,
            final(project).add_compile_options == old(project).add_compile_options,
            final(project).add_c_compile_options == old(project).add_c_compile_options,
            final(project).add_cpp_compile_options == old(project).add_cpp_compile_options,
            final(project).add_link_options == old(project).add_link_options,
            final(project).ignore_missing_sources == old(project).ignore_missing_sources,
            final(project).detached_headers == old(project).detached_headers,
            final(project).post_compile == old(project).post_compile,
            final(project).dependencies == old(project).dependencies,
            final(project).include_dirs == old(project).include_dirs,
    {
        let ghost all = self.config_copies(project_dir@, dest@);
        let mut copies: Vec<CopyFile> = Vec::new();
        let mut i: usize = 0;
        while i < self.config_headers.len()
            invariant
                i <= self.config_headers.len(),
                all == self.config_copies(project_dir@, dest@),
                copy_views(copies@) == all.take(i as int),
                forall|j: int| 0 <= j < i ==> spec_file_name(#[trigger] self.config_headers@[j]@) is Some,
            decreases self.config_headers.len() - i,
        {
            let header = &self.config_headers[i];
            match file_name(header.as_slice()) {
                None => {
                    return None;
                },
                Some(name) => {
                    let ghost before = copy_views(copies@);
                    copies.push(
                        CopyFile { from: join(project_dir, header.as_slice()), to: join(dest, name.as_slice()) },
                    );
                    assert(copy_views(copies@) =~= before.push(all[i as int]));
                    assert(copy_views(copies@) =~= all.take(i + 1));
                },
            }
            i += 1;
        }
        assert(all.take(self.config_headers@.len() as int) =~= all);
        let ghost known = views(project.headers_only@);
        let mut k: usize = 0;
        assert(all.take(0) =~= Seq::<CopyFileView>::empty());
        while k < copies.len()
            invariant
                k <= copies.len(),
                copy_views(copies@) == all,
                views(project.headers_only@) == Self::with_staged(known, all.take(k as int)),
                project.bin == old(project).bin,
                project.lib == old(project).lib,
                project.profiles == old(project).profiles,
                project.add_compile_options == old(project).add_compile_options,
                project.add_c_compile_options == old(project).add_c_compile_options,
                project.add_cpp_compile_options == old(project).add_cpp_compile_options,
                project.add_link_options == old(project).add_link_options,
                project.ignore_missing_sources == old(project).ignore_missing_sources,
                project.detached_headers == old(project).detached_headers,
                project.post_compile == old(project).post_compile,
                project.dependencies == old(project).dependencies,
                project.include_dirs == old(project).include_dirs,
            decreases copies.len() - k,
        {
            assert(all.take(k + 1).drop_last() =~= all.take(k as int));
            assert(all.take(k + 1).last() == copies@[k as int]@);
            if !contains(&project.headers_only, copies[k].to.as_slice()) {
                let ghost before = views(project.headers_only@);
                project.headers_only.push(copy_bytes(copies[k].to.as_slice()));
                assert(views(project.headers_only@) =~= before.push(copies@[k as int].to@));
            }
            k += 1;
        }
        assert(all.take(copies@.len() as int) =~= all);
        Some(copies)
    }
}

/// The copy that stages one public header of a project in `project_dir`:
/// from its place under `src`, to its file name in the staging directory.
pub open spec fn header_copy(header: Seq<u8>, target_dir: Seq<u8>, project_dir: Seq<u8>) -> CopyFileView {
    CopyFileView {
        from: spec_join(spec_join(project_dir, bytes_of("src")), header),
        to: spec_join(target_dir, spec_file_name(header)->0),
    }
}

/// The copies that stage the public headers of a list of libraries,
/// library after library.
pub open spec fn header_copies(libs: Seq<Library>, target_dir: Seq<u8>, project_dir: Seq<u8>) -> Seq<CopyFileView>
    decreases libs.len(),
{
    if libs.len() == 0 {
        Seq::empty()
    } else {
        header_copies(libs.drop_last(), target_dir, project_dir) + views(libs.last().public_headers@).map_values(
            |h: Seq<u8>| header_copy(h, target_dir, project_dir),
        )
    }
}

/// Whether every public header of every library has a file name.
pub open spec fn public_headers_named(libs: Seq<Library>) -> bool {
    forall|i: int, j: int|
        0 <= i < libs.len() && 0 <= j < libs[i].public_headers@.len() ==> spec_file_name(
            #[trigger] libs[i].public_headers@[j]@,
        ) is Some
}

/// The `-l` arguments of a list of libraries, in order.
pub open spec fn lib_options(libs: Seq<Library>) -> Seq<Seq<u8>> {
    libs.map_values(|lib: Library| spec_lib_option(lib.target.name@))
}

/// A target of a project, by its place among the libraries or among the
/// binaries of the manifest.
#[derive(Debug, PartialEq, Eq, Clone, Copy, Structural)]
pub enum BuildTarget {
    Library(usize),
    Binary(usize),
}

/// The first `count` libraries, in the order of the manifest.
pub open spec fn libraries_in_order(count: nat) -> Seq<BuildTarget> {
    Seq::new(count, |i: int| BuildTarget::Library(i as usize))
}

/// The first `count` binaries, in the order of the manifest.
pub open spec fn binaries_in_order(count: nat) -> Seq<BuildTarget> {
    Seq::new(count, |i: int| BuildTarget::Binary(i as usize))
}

impl Project {
    /// Lays out the build of every dependency of this project, in the order
    /// of the manifest.
    pub fn build_dependencies(
        &self,
        target_dir: &[u8],
        include_root: &[u8],
        project_dir: &[u8],
        linkage: LibraryType,
    ) -> (r: Vec<DependencyPlan>)
        ensures
            r@.len() == self.dependencies@.len(),
            forall|i: int|
                0 <= i < r@.len() ==> (#[trigger] r@[i])@ == self.dependencies@[i].1.spec_plan(
                    self.dependencies@[i].0@,
                    target_dir@,
                    include_root@,
                    project_dir@,
                    linkage,
                ),
    {
        let mut r: Vec<DependencyPlan> = Vec::new();
        let mut i: usize = 0;
        while i < self.dependencies.len()
            invariant
                i <= self.dependencies.len(),
                r@.len() == i,
                forall|j: int|
                    0 <= j < i ==> (#[trigger] r@[j])@ == self.dependencies@[j].1.spec_plan(
                        self.dependencies@[j].0@,
                        target_dir@,
                        include_root@,
                        project_dir@,
                        linkage,
                    ),
            decreases self.dependencies.len() - i,
        {
            let entry = &self.dependencies[i];
            r.push(entry.1.plan(entry.0.as_slice(), target_dir, include_root, project_dir, linkage));
            i += 1;
        }
        r
    }

    /// The targets that a build of this project's libraries builds: every
    /// library, in the order of the manifest.
    pub fn build_libraries(&self) -> (r: Vec<BuildTarget>)
        ensures
            r@ == libraries_in_order(self.lib@.len()),
    {
        let mut r: Vec<BuildTarget> = Vec::new();
        let mut i: usize = 0;
        while i < self.lib.len()
            invariant
                i <= self.lib.len(),
                r@ == libraries_in_order(i as nat),
            decreases self.lib.len() - i,
        {
            r.push(BuildTarget::Library(i));
            i += 1;
            assert(r@ =~= libraries_in_order(i as nat));
        }
        r
    }

    /// The targets that a build of this project builds, in the order in
    /// which they are built: every library, then every binary.
    pub fn build(&self) -> (r: Vec<BuildTarget>)
        ensures
            r@ == libraries_in_order(self.lib@.len()) + binaries_in_order(self.bin@.len()),
    {
        let mut r = self.build_libraries();
        let ghost libraries = r@;
        let mut i: usize = 0;
        while i < self.bin.len()
            invariant
                i <= self.bin.len(),
                r@ == libraries + binaries_in_order(i as nat),
            decreases self.bin.len() - i,
        {
            r.push(BuildTarget::Binary(i));
            i += 1;
            assert(r@ =~= libraries + binaries_in_order(i as nat));
        }
        r
    }

    /// Says which files to copy to stage the public headers of the libraries
    /// of this project, which lies in `project_dir`, in `target_dir`.
    /// Nothing is said where a public header has no file name.
    pub fn copy_headers(&self, target_dir: &[u8], project_dir: &[u8]) -> (r: Option<Vec<CopyFile>>)
        ensures
            match r {
                Some(copies) => public_headers_named(self.lib@) && copy_views(copies@) == header_copies(
                    self.lib@,
                    target_dir@,
                    project_dir@,
                ),
                None => !public_headers_named(self.lib@),
            },
    {
        let src = join(project_dir, "src".as_bytes());
        let mut copies: Vec<CopyFile> = Vec::new();
        let mut i: usize = 0;
        assert(self.lib@.take(0) =~= Seq::<Library>::empty());
        while i < self.lib.len()
            invariant
                i <= self.lib.len(),
                src@ == spec_join(project_dir@, bytes_of("src")),
                copy_views(copies@) == header_copies(self.lib@.take(i as int), target_dir@, project_dir@),
                forall|a: int, b: int|
                    0 <= a < i && 0 <= b < self.lib@[a].public_headers@.len() ==> spec_file_name(
                        #[trigger] self.lib@[a].public_headers@[b]@,
                    ) is Some,
            decreases self.lib.len() - i,
        {
            let lib = &self.lib[i];
            let ghost before = copy_views(copies@);
            let ghost mine = views(lib.public_headers@).map_values(
                |h: Seq<u8>| header_copy(h, target_dir@, project_dir@),
            );
            let mut j: usize = 0;
            while j < lib.public_headers.len()
                invariant
                    j <= lib.public_headers.len(),
                    i < self.lib.len(),
                    self.lib@[i as int] == *lib,
                    src@ == spec_join(project_dir@, bytes_of("src")),
                    mine == views(lib.public_headers@).map_values(
                        |h: Seq<u8>| header_copy(h, target_dir@, project_dir@),
                    ),
                    copy_views(copies@) == before + mine.take(j as int),
                    forall|b: int| 0 <= b < j ==> spec_file_name(#[trigger] lib.public_headers@[b]@) is Some,
                decreases lib.public_headers.len() - j,
            {
                let header = &lib.public_headers[j];
                match file_name(header.as_slice()) {
                    None => {
                        assert(spec_file_name(self.lib@[i as int].public_headers@[j as int]@) is None);
                        return None;
                    },
                    Some(name) => {
                        let ghost so_far = copy_views(copies@);
                        copies.push(
                            CopyFile { from: join(src.as_slice(), header.as_slice()), to: join(target_dir, name.as_slice()) },
                        );
                        assert(copy_views(copies@) =~= so_far.push(mine[j as int]));
                        assert(copy_views(copies@) =~= before + mine.take(j + 1));
                    },
                }
                j += 1;
            }
            assert(mine.take(lib.public_headers@.len() as int) =~= mine);
            assert(self.lib@.take(i + 1).drop_last() =~= self.lib@.take(i as int));
            assert(self.lib@.take(i + 1).last() == *lib);
            i += 1;
        }
        assert(self.lib@.take(self.lib@.len() as int) =~= self.lib@);
        Some(copies)
    }

    /// Adds what linking against the libraries of this project takes, the
    /// libraries having been built in `lib_dir`: the directory to the `-L`
    /// arguments, and each library to the `-l` arguments.
    pub fn link_arguments(&self, lib_dir: &[u8], lib_dirs: &mut Vec<Vec<u8>>, libs: &mut Vec<Vec<u8>>)
        ensures
            views(final(lib_dirs)@) == views(old(lib_dirs)@).push(spec_lib_dir_option(lib_dir@)),
            views(final(libs)@) == views(old(libs)@) + lib_options(self.lib@),
    {
        let ghost dirs = views(lib_dirs@);
        lib_dirs.push(catenate("-L".as_bytes(), lib_dir));
        assert(views(lib_dirs@) =~= dirs.push(spec_lib_dir_option(lib_dir@)));
        let ghost before = views(libs@);
        let mut i: usize = 0;
        while i < self.lib.len()
            invariant
                i <= self.lib.len(),
                views(libs@) == before + lib_options(self.lib@).take(i as int),
            decreases self.lib.len() - i,
        {
            let ghost so_far = views(libs@);
            libs.push(catenate("-l".as_bytes(), self.lib[i].target.name.as_slice()));
            assert(views(libs@) =~= so_far.push(lib_options(self.lib@)[i as int]));
            assert(views(libs@) =~= before + lib_options(self.lib@).take(i + 1));
            i += 1;
        }
        assert(lib_options(self.lib@).take(self.lib@.len() as int) =~= lib_options(self.lib@));
    }

    /// The `-I` arguments of a build: one for each include directory of the
    /// project, in order, and one for the extra directory, if there is one.
    pub open spec fn include_arguments(include_dirs: Seq<Seq<u8>>, extra_include: Option<Seq<u8>>) -> Seq<Seq<u8>> {
        let own = include_dirs.map_values(|dir: Seq<u8>| spec_include_option(dir));
        match extra_include {
            Some(dir) => own.push(spec_include_option(dir)),
            None => own,
        }
    }

    /// Sets up the build of this project with the profile named
    /// `profile_name`, for Linux. The dependencies have been built and have
    /// staged their headers in `include_dir`; `headers_only` and
    /// `include_dirs` are those of the manifest, made canonical. Fails where
    /// no profile has that name.
    pub fn with_build_env<'a>(
        &'a self,
        target_dir: Vec<u8>,
        project_dir: Vec<u8>,
        profile_name: &[u8],
        include_dir: Vec<u8>,
        lib_dirs: Vec<Vec<u8>>,
        libs: Vec<Vec<u8>>,
        strip_prefix: Vec<u8>,
        headers_only: Vec<Vec<u8>>,
        include_dirs: &Vec<Vec<u8>>,
        extra_include: Option<Vec<u8>>,
    ) -> (r: Result<BuildEnv<'a>, Error>)
        ensures
            match r {
                Ok(env) => {
                    &&& env.target_dir == target_dir
                    &&& env.project_dir == project_dir
                    &&& env.include_dir == include_dir
                    &&& env.lib_dirs == lib_dirs
                    &&& env.libs == libs
                    &&& env.strip_prefix == strip_prefix
                    &&& env.headers_only == headers_only
                    &&& env.project == self
                    &&& env.os@ == OsSpecView::linux()
                    &&& views(env.include_dirs@) == Self::include_arguments(
                        views(include_dirs@),
                        match extra_include {
                            Some(dir) => Some(dir@),
                            None => None,
                        },
                    )
                    &&& exists|i: int|
                        0 <= i < self.profiles@.len() && self.profiles@[i].0@ == profile_name@ && *env.profile
                            == self.profiles@[i].1 && forall|j: int|
                            0 <= j < i ==> (#[trigger] self.profiles@[j]).0@ != profile_name@
                },
                Err(e) => e is InvalidProfileName && forall|i: int|
                    0 <= i < self.profiles@.len() ==> (#[trigger] self.profiles@[i]).0@ != profile_name@,
            },
    {
        let profile = match self.profile(profile_name) {
            Ok(profile) => profile,
            Err(e) => {
                assert forall|i: int| 0 <= i < self.profiles@.len() implies (#[trigger] self.profiles@[i]).0@
                    != profile_name@ by {
                    assert(crate::project::profile_names(self.profiles@)[i] == self.profiles@[i].0@);
                }
                return Err(e);
            },
        };
        let ghost dirs = views(include_dirs@);
        let ghost own = dirs.map_values(|dir: Seq<u8>| spec_include_option(dir));
        let mut arguments: Vec<Vec<u8>> = Vec::new();
        let mut i: usize = 0;
        while i < include_dirs.len()
            invariant
                i <= include_dirs.len(),
                dirs == views(include_dirs@),
                own == dirs.map_values(|dir: Seq<u8>| spec_include_option(dir)),
                views(arguments@) == own.take(i as int),
            decreases include_dirs.len() - i,
        {
            let ghost before = views(arguments@);
            arguments.push(include_option(include_dirs[i].as_slice()));
            assert(views(arguments@) =~= before.push(own[i as int]));
            assert(views(arguments@) =~= own.take(i + 1));
            i += 1;
        }
        assert(own.take(include_dirs@.len() as int) =~= own);
        match &extra_include {
            Some(dir) => {
                arguments.push(include_option(dir.as_slice()));
                assert(views(arguments@) =~= own.push(spec_include_option(dir@)));
            },
            None => {},
        }
        Ok(
            BuildEnv {
                project_dir,
                target_dir,
                include_dir,
                include_dirs: arguments,
                lib_dirs,
                libs,
                strip_prefix,
                os: OsSpec::linux(),
                profile,
                project: self,
                headers_only,
            },
        )
    }
}

} // verus!
