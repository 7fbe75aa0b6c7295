//! Build planning for C and C++ projects.
//!
//! A project's manifest names binaries, libraries and dependencies. This
//! library holds the rules by which they are built: which translation units
//! belong to a target, which of them are stale, where their objects go, and
//! which command lines compile and link them. It decides and never acts: it
//! runs no compiler and touches no file. Its caller runs the commands that
//! it names and tells it what the compiler and the file system answered.
//!
//! Paths, arguments and names are byte strings in the host's encoding.

pub mod bytes;
pub mod path;
pub mod objs;
pub mod options;
pub mod command;
pub mod project;
pub mod snapshot;
pub mod resolver;
pub mod headers;
pub mod sources;
pub mod scanner;
pub mod closure;
pub mod freshness;
pub mod driver;
pub mod link;
pub mod deps;
pub mod messages;

pub use crate::command::{CmdOperationError, Command, CommandError, Error, ExitStatus, FsError};
pub use crate::deps::{BuildTarget, CopyFile, DependencyPlan};
pub use crate::driver::{BuildEnv, Compilation, CompileOutput, CompileStep};
pub use crate::freshness::ModifiedSources;
pub use crate::headers::HeaderExtractor;
pub use crate::objs::{get_obj_path, unit_to_obj};
pub use crate::options::{BinTarget, CompileOptions, Compiler, LibTarget, LibraryType, OsSpec, TargetKind, TargetSpec};
pub use crate::project::{Binary, CompilerEnv, Dependency, DetachedHeaders, Library, Profile, Project, Target};
pub use crate::resolver::{header_to_unit, Resolution};
pub use crate::scanner::{ScanStep, Scanner};
pub use crate::snapshot::{FileStat, FileSystem, Timestamp};
pub use crate::sources::{Header, SourceEntry, SourceMap};
