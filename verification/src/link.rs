//! Naming and linking the artifacts: binaries, static and dynamic libraries.

use vstd::prelude::*;
use vstd::string::*;
use crate::bytes::{append, bytes_of, copy_bytes, copy_list, extend, to_bytes, views};
use crate::command::{Command, CommandView};
use crate::driver::{object_of, BuildEnv, CompileOutput};
use crate::objs::{get_obj_path, lemma_unit_objects_distinct, spec_unit_to_obj, unit_to_obj};
use crate::options::{LibraryType, TargetSpec};
use crate::path::{is_normal, join, spec_join, DOT};
use crate::project::{Binary, Library, ProfileView};
use crate::sources::{all_known, SourceEntryView, SourceMap};

verus! {

/// The objects of the sources, in the order of the sources.
pub open spec fn objects(sources: Seq<SourceEntryView>, env: &BuildEnv) -> Seq<Seq<u8>> {
    sources.map_values(|e: SourceEntryView| object_of(env, e.source))
}

/// Lists the objects of the sources of a target.
pub fn object_list(files: &SourceMap, env: &BuildEnv) -> (r: Vec<Vec<u8>>)
    ensures
        views(r@) == objects(files@, env),
{
    proof {
        use_type_invariant(files);
    }
    let mut r: Vec<Vec<u8>> = Vec::new();
    let mut i: usize = 0;
    while i < files.len()
        invariant
            i <= files@.len(),
            all_known(files@),
            views(r@) == objects(files@, env).take(i as int),
        decreases files@.len() - i,
    {
        let entry = files.get(i);
        assert(files@[i as int] == entry@);
        match unit_to_obj(entry.source.as_slice()) {
            Some(object) => {
                let ghost before = views(r@);
                r.push(get_obj_path(env.target_dir.as_slice(), env.project_dir.as_slice(), object.as_slice()));
                assert(views(r@) =~= before.push(object_of(env, entry@.source)));
                assert(views(r@) =~= objects(files@, env).take(i + 1));
            },
            None => {},
        }
        i += 1;
    }
    assert(objects(files@, env).take(files@.len() as int) =~= objects(files@, env));
    r
}

/// Two sources of a target share an object only where they turn into the
/// same object name, that is, where they differ in nothing but their
/// extension: the objects of normal sources that differ in more are
/// distinct.
pub proof fn lemma_objects_distinct(sources: Seq<SourceEntryView>, env: &BuildEnv, i: int, j: int)
    requires
        all_known(sources),
        0 <= i < sources.len(),
        0 <= j < sources.len(),
        is_normal(sources[i].source),
        is_normal(sources[j].source),
        spec_unit_to_obj(sources[i].source) != spec_unit_to_obj(sources[j].source),
    ensures
        objects(sources, env)[i] != objects(sources, env)[j],
{
    if objects(sources, env)[i] == objects(sources, env)[j] {
        lemma_unit_objects_distinct(env.target_dir@, env.project_dir@, sources[i].source, sources[j].source);
    }
}

/// The command that links objects with a compiler driver: the options,
/// `-o` and the output, the objects, then the directories and the names of
/// the libraries of the dependencies.
pub open spec fn link_command(
    driver: Seq<u8>,
    options: Seq<Seq<u8>>,
    output: Seq<u8>,
    objects: Seq<Seq<u8>>,
    lib_dirs: Seq<Seq<u8>>,
    libs: Seq<Seq<u8>>,
) -> CommandView {
    CommandView::new(driver).args(options).arg(bytes_of("-o")).arg(output).args(objects).args(lib_dirs).args(libs)
}

/// Makes the command that links the objects of `files` into `output` with
/// the driver `compiler`.
pub fn link_using_compiler(
    compiler: &[u8],
    output: &[u8],
    options: &Vec<Vec<u8>>,
    files: &SourceMap,
    env: &BuildEnv,
) -> (r: Command)
    ensures
        r@ == link_command(
            compiler@,
            views(options@),
            output@,
            objects(files@, env),
            views(env.lib_dirs@),
            views(env.libs@),
        ),
{
    let objects = object_list(files, env);
    Command::new(copy_bytes(compiler)).args(options).arg(to_bytes("-o")).arg(copy_bytes(output)).args(
        &objects,
    ).args(&env.lib_dirs).args(&env.libs)
}

/// All the byte strings of a list, one after the other.
pub open spec fn run_together(list: Seq<Seq<u8>>) -> Seq<u8>
    decreases list.len(),
{
    if list.len() == 0 {
        Seq::empty()
    } else {
        run_together(list.drop_last()) + list.last()
    }
}

/// The command that puts objects into an archive: `ar`, the letters `crs`
/// with the options run together behind them as one argument, the output,
/// and the objects.
pub open spec fn archive_command(output: Seq<u8>, options: Seq<Seq<u8>>, objects: Seq<Seq<u8>>) -> CommandView {
    CommandView::new(bytes_of("ar")).arg(bytes_of("crs") + run_together(options)).arg(output).args(objects)
}

/// The name of an artifact: a prefix, the name of the target and, after a
/// dot, the extension, where the kind of output has one.
pub open spec fn artifact_name(prefix: Seq<u8>, name: Seq<u8>, extension: Seq<u8>) -> Seq<u8> {
    if extension.len() == 0 {
        prefix + name
    } else {
        prefix + name + seq![DOT] + extension
    }
}

/// Makes the path of an artifact in the target directory.
fn artifact_path(target_dir: &[u8], prefix: &str, name: &[u8], extension: &[u8]) -> (r: Vec<u8>)
    ensures
        r@ == spec_join(target_dir@, artifact_name(bytes_of(prefix), name@, extension@)),
{
    let mut file = to_bytes(prefix);
    append(&mut file, name);
    if extension.len() > 0 {
        file.push(DOT);
        append(&mut file, extension);
    }
    join(target_dir, file.as_slice())
}

/// The driver that links a target: that for C++ where one of its units is
/// a C++ unit, that for C otherwise.
pub open spec fn linker(profile: ProfileView, has_cpp: bool) -> Seq<u8> {
    if has_cpp {
        profile.cpp_compiler
    } else {
        profile.c_compiler
    }
}

/// Picks the driver that links a target.
fn pick_linker<'a>(env: &'a BuildEnv, compiled: &CompileOutput) -> (r: &'a Vec<u8>)
    ensures
        r@ == linker(env.profile@, compiled.has_cpp),
{
    if compiled.has_cpp {
        &env.profile.cpp_compiler
    } else {
        &env.profile.c_compiler
    }
}

/// The options that a target is linked with: those that its kind of output
/// requires, then its own.
fn link_options(spec: &TargetSpec, own: &Vec<Vec<u8>>) -> (r: Vec<Vec<u8>>)
    ensures
        views(r@) == spec@.required_link_options + views(own@),
{
    let mut r = copy_list(&spec.required_link_options);
    extend(&mut r, own);
    r
}

impl Binary {
    /// The path of the executable: the name of the target, with the
    /// extension of executables, in the target directory.
    pub open spec fn spec_path(&self, env: &BuildEnv) -> Seq<u8> {
        spec_join(env.target_dir@, artifact_name(bytes_of(""), self.target.name@, env.os@.bin_spec.extension))
    }

    /// Where the executable goes.
    pub fn path(&self, env: &BuildEnv) -> (r: Vec<u8>)
        ensures
            r@ == self.spec_path(env),
    {
        artifact_path(env.target_dir.as_slice(), "", self.target.name.as_slice(), env.os.bin_spec.extension.as_slice())
    }

    /// Says how to link the executable from the objects of `files`, once
    /// its units have been compiled. Where none had to be, the executable is
    /// up to date and there is nothing to do.
    pub fn build(&self, env: &BuildEnv, files: &SourceMap, compiled: &CompileOutput) -> (r: Option<Command>)
        ensures
            compiled.up_to_date ==> r is None,
            !compiled.up_to_date ==> (r matches Some(command) && command@ == link_command(
                linker(env.profile@, compiled.has_cpp),
                env.os@.bin_spec.required_link_options + views(self.target.link_options@),
                self.spec_path(env),
                objects(files@, env),
                views(env.lib_dirs@),
                views(env.libs@),
            )),
    {
        if compiled.up_to_date {
            return None;
        }
        let output = self.path(env);
        let options = link_options(&env.os.bin_spec, &self.target.link_options);
        Some(link_using_compiler(pick_linker(env, compiled).as_slice(), output.as_slice(), &options, files, env))
    }
}

impl Library {
    /// The path of the library: `lib` and the name of the target, with the
    /// extension of libraries that are linked in the given way, in the
    /// target directory.
    pub open spec fn spec_path(&self, env: &BuildEnv, linkage: LibraryType) -> Seq<u8> {
        spec_join(
            env.target_dir@,
            artifact_name(bytes_of("lib"), self.target.name@, env.os@.library(linkage).extension),
        )
    }

    /// Whether the library may be linked in the given way.
    pub open spec fn spec_allows(&self, linkage: LibraryType) -> bool {
        match linkage {
            LibraryType::Static => !self.disallow_static,
            LibraryType::Dynamic => !self.disallow_dynamic,
        }
    }

    /// Tells whether the library may be linked in the given way.
    pub fn allows(&self, linkage: LibraryType) -> (r: bool)
        ensures
            r == self.spec_allows(linkage),
    {
        match linkage {
            LibraryType::Static => !self.disallow_static,
            LibraryType::Dynamic => !self.disallow_dynamic,
        }
    }

    /// Where the library goes.
    pub fn path(&self, env: &BuildEnv, linkage: LibraryType) -> (r: Vec<u8>)
        ensures
            r@ == self.spec_path(env, linkage),
    {
        let spec = match linkage {
            LibraryType::Dynamic => &env.os.dynamic_lib_spec,
            LibraryType::Static => &env.os.static_lib_spec,
        };
        artifact_path(env.target_dir.as_slice(), "lib", self.target.name.as_slice(), spec.extension.as_slice())
    }

    /// Says how to link the library from the objects of `files`, once its
    /// units have been compiled: with the compiler driver where it is
    /// dynamic, with the archiver where it is static. The archiver gets
    /// the options that static libraries require and none of the target's
    /// own, which are options for a linker. Where no unit had to be
    /// compiled, the library is up to date and there is nothing to do.
    pub fn build(&self, env: &BuildEnv, linkage: LibraryType, files: &SourceMap, compiled: &CompileOutput) -> (r:
        Option<Command>)
        ensures
            compiled.up_to_date ==> r is None,
            !compiled.up_to_date ==> (r matches Some(command) && command@ == match linkage {
                LibraryType::Dynamic => link_command(
                    linker(env.profile@, compiled.has_cpp),
                    env.os@.dynamic_lib_spec.required_link_options + views(self.target.link_options@),
                    self.spec_path(env, linkage),
                    objects(files@, env),
                    views(env.lib_dirs@),
                    views(env.libs@),
                ),
                LibraryType::Static => archive_command(
                    self.spec_path(env, linkage),
                    env.os@.static_lib_spec.required_link_options,
                    objects(files@, env),
                ),
            }),
    {
        if compiled.up_to_date {
            return None;
        }
        let output = self.path(env, linkage);
        match linkage {
            LibraryType::Dynamic => {
                let options = link_options(&env.os.dynamic_lib_spec, &self.target.link_options);
                Some(
                    link_using_compiler(
                        pick_linker(env, compiled).as_slice(),
                        output.as_slice(),
                        &options,
                        files,
                        env,
                    ),
                )
            },
            LibraryType::Static => Some(
                Library::link_static(
                    output.as_slice(),
                    &env.os.static_lib_spec.required_link_options,
                    files,
                    env,
                ),
            ),
        }
    }

    /// Makes the command that puts the objects of `files` into the archive
    /// `output`.
    pub fn link_static(output: &[u8], options: &Vec<Vec<u8>>, files: &SourceMap, env: &BuildEnv) -> (r: Command)
        ensures
            r@ == archive_command(output@, views(options@), objects(files@, env)),
    {
        let mut letters = to_bytes("crs");
        let mut i: usize = 0;
        assert(views(options@).take(0) =~= Seq::<Seq<u8>>::empty());
        while i < options.len()
            invariant
                i <= options.len(),
                letters@ == bytes_of("crs") + run_together(views(options@).take(i as int)),
            decreases options.len() - i,
        {
            append(&mut letters, options[i].as_slice());
            assert(views(options@).take(i + 1).drop_last() =~= views(options@).take(i as int));
            assert(views(options@).take(i + 1).last() == options@[i as int]@);
            i += 1;
        }
        assert(views(options@).take(options@.len() as int) =~= views(options@));
        let objects = object_list(files, env);
        Command::new(to_bytes("ar")).arg(letters).arg(copy_bytes(output)).args(&objects)
    }
}

} // verus!
