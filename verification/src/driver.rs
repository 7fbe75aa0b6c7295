//! The command lines of a build: asking for dependencies, compiling a unit,
//! linking a binary or a library.

use vstd::prelude::*;
use vstd::string::*;
use crate::bytes::{bytes_of, catenate, copy_bytes, extend, to_bytes, views};
use crate::command::{Command, CommandView, Error};
use crate::freshness::{freshness_of, is_metadata_error, lemma_next_modified, next_modified, Freshness, ModifiedSources};
use crate::objs::{get_obj_path, obj_path, spec_unit_to_obj, unit_to_obj};
use crate::options::{Compiler, CompileOptionsView, OsSpec, TargetKind, TargetSpec, TargetSpecView};
use crate::project::{Profile, ProfileView, Project, Target};
use crate::snapshot::{FileSystem, Timestamp};
use crate::sources::{SourceEntryView, SourceMap};

verus! {

/// What a build of one project goes by: its directories, the arguments that
/// its dependencies contribute, the operating system, the profile and the
/// manifest.
#[derive(Debug)]
pub struct BuildEnv<'a> {
    /// The directory of the project.
    pub project_dir: Vec<u8>,
    /// Where objects and artifacts go.
    pub target_dir: Vec<u8>,
    /// Where the headers of the dependencies are staged.
    pub include_dir: Vec<u8>,
    /// The `-I` arguments of the project's own include directories.
    pub include_dirs: Vec<Vec<u8>>,
    /// The `-L` arguments of the dependencies.
    pub lib_dirs: Vec<Vec<u8>>,
    /// The `-l` arguments of the dependencies.
    pub libs: Vec<Vec<u8>>,
    /// What is left out of paths when they are shown.
    pub strip_prefix: Vec<u8>,
    pub os: OsSpec,
    pub profile: &'a Profile,
    pub project: &'a Project,
    /// The canonical paths of the headers that have no unit.
    pub headers_only: Vec<Vec<u8>>,
}

/// The argument that adds a directory to the compiler's search for headers.
pub open spec fn spec_include_option(dir: Seq<u8>) -> Seq<u8> {
    bytes_of("-I") + dir
}

/// Makes the argument that adds `dir` to the compiler's search for headers.
pub fn include_option(dir: &[u8]) -> (r: Vec<u8>)
    ensures
        r@ == spec_include_option(dir@),
{
    catenate("-I".as_bytes(), dir)
}

/// The command that asks the compiler of a profile for the dependencies of
/// a source: the include directories, the options of the profile for the
/// language, `-MM` and the source, with the output captured.
pub open spec fn headers_command(
    file: Seq<u8>,
    compiler: Compiler,
    profile: ProfileView,
    include_dirs: Seq<Seq<u8>>,
) -> CommandView {
    CommandView::new(profile.compiler(compiler)).args(include_dirs).args(profile.compile_options.all(compiler)).arg(
        bytes_of("-MM"),
    ).arg(file).piped()
}

/// Makes the command that lists the dependencies of `file`, from which its
/// headers are read. There is none for a file whose extension stands for no
/// language.
pub fn get_headers_command(file: &[u8], env: &BuildEnv) -> (r: Option<Command>)
    ensures
        match Compiler::of_file(file@) {
            None => r is None,
            Some(compiler) => r matches Some(command) && command@ == headers_command(
                file@,
                compiler,
                env.profile@,
                views(env.include_dirs@),
            ),
        },
{
    match Compiler::determine_from_file(file) {
        None => None,
        Some(compiler) => {
            let options = env.profile.compile_options.all(compiler);
            let driver = copy_bytes(env.profile.compiler(compiler).as_slice());
            Some(
                Command::new(driver).args(&env.include_dirs).args(&options).arg(to_bytes("-MM")).arg(
                    copy_bytes(file),
                ).piped_stdout(),
            )
        },
    }
}

/// The options that a unit is compiled with, in order: those that the kind
/// of output requires, those of the profile, those of the target, and the
/// include argument of the directory where the headers of the dependencies
/// are staged.
pub open spec fn unit_options(
    spec: TargetSpecView,
    profile: ProfileView,
    target: CompileOptionsView,
    include_dir: Seq<u8>,
    compiler: Compiler,
) -> Seq<Seq<u8>> {
    spec.required_compile_options.all(compiler) + profile.compile_options.all(compiler) + target.all(compiler)
        + seq![spec_include_option(include_dir)]
}

/// The command that compiles a unit into an object.
pub open spec fn compile_command(
    driver: Seq<u8>,
    include_dirs: Seq<Seq<u8>>,
    options: Seq<Seq<u8>>,
    object: Seq<u8>,
    unit: Seq<u8>,
) -> CommandView {
    CommandView::new(driver).args(include_dirs).args(options).arg(bytes_of("-c")).arg(bytes_of("-o")).arg(
        object,
    ).arg(unit)
}

/// The command that runs a hook on an object that has just been compiled.
pub open spec fn post_compile_command(
    hook: Seq<u8>,
    object: Seq<u8>,
    unit: Seq<u8>,
    driver: Seq<u8>,
    include_dirs: Seq<Seq<u8>>,
    options: Seq<Seq<u8>>,
) -> CommandView {
    CommandView::new(hook).arg(object).arg(unit).arg(driver).args(include_dirs).args(options)
}

/// What it takes to compile one unit.
#[derive(Debug)]
pub struct CompileStep {
    /// The unit.
    pub unit: Vec<u8>,
    /// Its language.
    pub compiler: Compiler,
    /// Where its object goes. The directory of that path has to be there
    /// before the compiler runs.
    pub output: Vec<u8>,
    /// The command that compiles it.
    pub command: Command,
    /// The command to run once it has been compiled, where the project has
    /// such a hook.
    pub post_compile: Option<Command>,
}

/// A `CompileStep` as byte strings.
pub struct CompileStepView {
    pub unit: Seq<u8>,
    pub compiler: Compiler,
    pub output: Seq<u8>,
    pub command: CommandView,
    pub post_compile: Option<CommandView>,
}

impl View for CompileStep {
    type V = CompileStepView;

    open spec fn view(&self) -> CompileStepView {
        CompileStepView {
            unit: self.unit@,
            compiler: self.compiler,
            output: self.output@,
            command: self.command@,
            post_compile: match self.post_compile {
                Some(command) => Some(command@),
                None => None,
            },
        }
    }
}

/// The path of the object of a unit in a build.
pub open spec fn object_of(env: &BuildEnv, unit: Seq<u8>) -> Seq<u8> {
    obj_path(env.target_dir@, env.project_dir@, spec_unit_to_obj(unit)->0)
}

/// What it takes to compile `unit`, a unit in the given language, for a
/// target with the given options and a kind of output with the given spec.
pub open spec fn compile_step(
    env: &BuildEnv,
    spec: TargetSpecView,
    target: CompileOptionsView,
    unit: Seq<u8>,
    compiler: Compiler,
) -> CompileStepView {
    let driver = env.profile@.compiler(compiler);
    let options = unit_options(spec, env.profile@, target, env.include_dir@, compiler);
    let object = object_of(env, unit);
    CompileStepView {
        unit,
        compiler,
        output: object,
        command: compile_command(driver, views(env.include_dirs@), options, object, unit),
        post_compile: match env.project.post_compile {
            Some(hook) => Some(
                post_compile_command(hook@, object, unit, driver, views(env.include_dirs@), options),
            ),
            None => None,
        },
    }
}

/// Whether one of the sources is a C++ unit.
pub open spec fn any_cpp(sources: Seq<SourceEntryView>) -> bool {
    exists|i: int| 0 <= i < sources.len() && Compiler::of_file((#[trigger] sources[i]).source) == Some(Compiler::Cpp)
}

/// Tells whether one of the sources of `files` is a C++ unit.
pub fn has_cpp(files: &SourceMap) -> (r: bool)
    ensures
        r == any_cpp(files@),
{
    let mut i: usize = 0;
    while i < files.len()
        invariant
            i <= files@.len(),
            forall|j: int| 0 <= j < i ==> Compiler::of_file((#[trigger] files@[j]).source) != Some(Compiler::Cpp),
        decreases files@.len() - i,
    {
        match Compiler::determine_from_file(files.get(i).source.as_slice()) {
            Some(Compiler::Cpp) => {
                return true;
            },
            _ => {},
        }
        i += 1;
    }
    false
}

/// What compiling a target came to.
#[derive(Debug)]
pub struct CompileOutput {
    /// Whether no unit had to be compiled.
    pub up_to_date: bool,
    /// Whether one of the units of the target is a C++ unit.
    pub has_cpp: bool,
}

/// The compiling of a target in progress: it hands out, unit by unit, what
/// it takes to compile the units that are stale.
#[derive(Debug)]
pub struct Compilation<'a, K: TargetKind> {
    target: &'a Target<K>,
    env: &'a BuildEnv<'a>,
    spec: &'a TargetSpec,
    modified: ModifiedSources<'a>,
    up_to_date: bool,
    has_cpp: bool,
}

impl<'a, K: TargetKind> Compilation<'a, K> {
    /// The target that is compiled.
    pub closed spec fn target(&self) -> &Target<K> {
        self.target
    }

    /// The build that it is compiled in.
    pub closed spec fn env(&self) -> &BuildEnv<'a> {
        self.env
    }

    /// The spec of its kind of output.
    pub closed spec fn spec(&self) -> TargetSpecView {
        self.spec@
    }

    /// The time of the artifact, if it is there.
    pub closed spec fn target_time(&self) -> Option<Timestamp> {
        self.modified.target_time()
    }

    /// The sources of the target.
    pub closed spec fn sources(&self) -> Seq<SourceEntryView> {
        self.modified.sources()
    }

    /// The index of the source that is looked at next.
    pub closed spec fn position(&self) -> nat {
        self.modified.position()
    }

    /// Whether no unit has been handed out so far.
    pub closed spec fn up_to_date(&self) -> bool {
        self.up_to_date
    }

    /// Whether one of the sources is a C++ unit.
    pub closed spec fn has_cpp(&self) -> bool {
        self.has_cpp
    }

    /// Hands out what it takes to compile the next stale unit, or the error
    /// where the time of one of its files cannot be read. Nothing when every
    /// source that is left is fresh.
    pub fn next(&mut self, fs: &FileSystem) -> (r: Option<Result<CompileStep, Error>>)
        ensures
            final(self).target() == old(self).target(),
            final(self).env() == old(self).env(),
            final(self).spec() == old(self).spec(),
            final(self).target_time() == old(self).target_time(),
            final(self).sources() == old(self).sources(),
            final(self).has_cpp() == old(self).has_cpp(),
            final(self).up_to_date() == (old(self).up_to_date() && r is None),
            match next_modified(old(self).target_time(), old(self).sources(), fs@, old(self).position() as int) {
                None => r is None && final(self).position() >= final(self).sources().len(),
                Some(at) => final(self).position() == at + 1 && match freshness_of(
                    old(self).target_time(),
                    old(self).sources()[at],
                    fs@,
                ) {
                    Freshness::Unreadable(path, cause) => r matches Some(Err(Error::Filesystem(e)))
                        && is_metadata_error(e, path, cause),
                    _ => r matches Some(Ok(step)) && step@ == compile_step(
                        old(self).env(),
                        old(self).spec(),
                        old(self).target().compile_options@,
                        old(self).sources()[at].source,
                        Compiler::of_file(old(self).sources()[at].source)->0,
                    ),
                },
            },
    {
        proof {
            lemma_next_modified(self.target_time(), self.sources(), fs@, self.position() as int);
        }
        match self.modified.next(fs) {
            None => None,
            Some(Err(e)) => {
                self.up_to_date = false;
                Some(Err(Error::Filesystem(e)))
            },
            Some(Ok(unit)) => {
                self.up_to_date = false;
                match self.target.compile_unit(self.env, self.spec, unit.as_slice()) {
                    Some(step) => Some(Ok(step)),
                    None => None,
                }
            },
        }
    }

    /// Ends the compiling and says what it came to.
    pub fn finish(self) -> (r: CompileOutput)
        ensures
            r.up_to_date == self.up_to_date(),
            r.has_cpp == self.has_cpp(),
    {
        CompileOutput { up_to_date: self.up_to_date, has_cpp: self.has_cpp }
    }
}

impl<K: TargetKind> Target<K> {
    /// Says what it takes to compile one unit of this target. There is no
    /// way to for a unit whose extension stands for no language.
    pub fn compile_unit(&self, env: &BuildEnv, spec: &TargetSpec, unit: &[u8]) -> (r: Option<CompileStep>)
        ensures
            match Compiler::of_file(unit@) {
                None => r is None,
                Some(compiler) => r matches Some(step) && step@ == compile_step(
                    env,
                    spec@,
                    self.compile_options@,
                    unit@,
                    compiler,
                ),
            },
    {
        let compiler = match Compiler::determine_from_file(unit) {
            None => {
                return None;
            },
            Some(compiler) => compiler,
        };
        let object = match unit_to_obj(unit) {
            None => {
                return None;
            },
            Some(object) => object,
        };
        let output = get_obj_path(env.target_dir.as_slice(), env.project_dir.as_slice(), object.as_slice());
        let mut options = spec.required_compile_options.all(compiler);
        let profile_options = env.profile.compile_options.all(compiler);
        extend(&mut options, &profile_options);
        let target_options = self.compile_options.all(compiler);
        extend(&mut options, &target_options);
        let ghost before = views(options@);
        options.push(include_option(env.include_dir.as_slice()));
        assert(views(options@) =~= before + seq![spec_include_option(env.include_dir@)]);
        let driver = env.profile.compiler(compiler);
        let command = Command::new(copy_bytes(driver.as_slice())).args(&env.include_dirs).args(&options).arg(
            to_bytes("-c"),
        ).arg(to_bytes("-o")).arg(copy_bytes(output.as_slice())).arg(copy_bytes(unit));
        let post_compile = match &env.project.post_compile {
            Some(hook) => Some(
                Command::new(copy_bytes(hook.as_slice())).arg(copy_bytes(output.as_slice())).arg(
                    copy_bytes(unit),
                ).arg(copy_bytes(driver.as_slice())).args(&env.include_dirs).args(&options),
            ),
            None => None,
        };
        Some(CompileStep { unit: copy_bytes(unit), compiler, output, command, post_compile })
    }

    /// Starts compiling this target: the sources are gone through in their
    /// order, and those that are stale with regard to an artifact of the
    /// time `skip_older` are handed out to be compiled.
    pub fn compile<'a>(
        &'a self,
        env: &'a BuildEnv<'a>,
        files: &'a SourceMap,
        skip_older: Option<Timestamp>,
        spec: &'a TargetSpec,
    ) -> (r: Compilation<'a, K>)
        ensures
            r.target() == self,
            r.env() == env,
            r.spec() == spec@,
            r.target_time() == skip_older,
            r.sources() == files@,
            r.position() == 0,
            r.up_to_date(),
            r.has_cpp() == any_cpp(files@),
    {
        Compilation {
            target: self,
            env,
            spec,
            modified: ModifiedSources::scan(skip_older, files),
            up_to_date: true,
            has_cpp: has_cpp(files),
        }
    }
}

} // verus!
