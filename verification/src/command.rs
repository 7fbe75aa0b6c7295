//! Command lines, how a command ended, and what can go wrong with a build.

use vstd::prelude::*;
use crate::bytes::{extend, views};

verus! {

/// A command line: the program, its arguments in order, and whether its
/// standard output is to be captured.
#[derive(Debug)]
pub struct Command {
    pub cmd: Vec<u8>,
    pub args: Vec<Vec<u8>>,
    pub piped_stdout: bool,
}

/// A `Command` as sequences of byte strings.
#[verifier::ext_equal]
pub struct CommandView {
    pub cmd: Seq<u8>,
    pub args: Seq<Seq<u8>>,
    pub piped_stdout: bool,
}

impl CommandView {
    /// The command line of `cmd` alone.
    pub open spec fn new(cmd: Seq<u8>) -> CommandView {
        CommandView { cmd, args: Seq::empty(), piped_stdout: false }
    }

    /// This command line with one more argument.
    pub open spec fn arg(self, arg: Seq<u8>) -> CommandView {
        CommandView { args: self.args.push(arg), ..self }
    }

    /// This command line with more arguments.
    pub open spec fn args(self, args: Seq<Seq<u8>>) -> CommandView {
        CommandView { args: self.args + args, ..self }
    }

    /// This command line with its standard output captured.
    pub open spec fn piped(self) -> CommandView {
        CommandView { piped_stdout: true, ..self }
    }
}

impl View for Command {
    type V = CommandView;

    open spec fn view(&self) -> CommandView {
        CommandView { cmd: self.cmd@, args: views(self.args@), piped_stdout: self.piped_stdout }
    }
}

impl Command {
    /// The command line that runs `path` without arguments.
    pub fn new(path: Vec<u8>) -> (r: Command)
        ensures
            r@ == CommandView::new(path@),
    {
        let r = Command { cmd: path, args: Vec::new(), piped_stdout: false };
        assert(r@.args =~= Seq::<Seq<u8>>::empty());
        r
    }

    /// Adds one argument.
    pub fn arg(self, arg: Vec<u8>) -> (r: Command)
        ensures
            r@ == self@.arg(arg@),
    {
        let mut r = self;
        r.args.push(arg);
        assert(r@.args =~= self@.args.push(arg@));
        r
    }

    /// Adds a copy of each argument of `args`, in order.
    pub fn args(self, args: &Vec<Vec<u8>>) -> (r: Command)
        ensures
            r@ == self@.args(views(args@)),
    {
        let mut r = self;
        extend(&mut r.args, args);
        r
    }

    /// Asks for the standard output to be captured.
    pub fn piped_stdout(self) -> (r: Command)
        ensures
            r@ == self@.piped(),
    {
        let mut r = self;
        r.piped_stdout = true;
        r
    }
}

/// How a command that ran to its end ended: with an exit code, or killed by
/// a signal, in which case there is no code.
#[derive(Debug)]
pub struct ExitStatus {
    pub command: Command,
    pub code: Option<i32>,
}

impl ExitStatus {
    /// Whether the command ended with the exit code 0.
    pub open spec fn spec_success(&self) -> bool {
        self.code == Some(0i32)
    }

    /// Whether the command succeeded.
    pub fn success(&self) -> (r: bool)
        ensures
            r == self.spec_success(),
    {
        match self.code {
            Some(code) => code == 0,
            None => false,
        }
    }

    /// Turns the status of a command that did not succeed into the error
    /// that says so.
    pub fn failure_into_error(self) -> (r: Result<(), CommandError>)
        ensures
            self.spec_success() ==> r is Ok,
            !self.spec_success() ==> r == Err::<(), CommandError>(CommandError::Failed(self)),
    {
        if self.success() {
            Ok(())
        } else {
            Err(CommandError::Failed(self))
        }
    }
}

/// An operation on a command that the system refused, with the system's
/// words for it.
#[derive(Debug)]
pub struct CmdOperationError {
    pub command: Command,
    pub error: String,
}

/// What can go wrong with a command: it cannot be started, it cannot be
/// waited for, it ends without success, or its output cannot be read.
#[derive(Debug)]
pub enum CommandError {
    Spawn(CmdOperationError),
    Wait(CmdOperationError),
    Failed(ExitStatus),
    Communication(CmdOperationError),
}

impl CommandError {
    /// The command that the error is about.
    pub open spec fn spec_command(&self) -> Command {
        match self {
            CommandError::Spawn(e) => e.command,
            CommandError::Wait(e) => e.command,
            CommandError::Failed(status) => status.command,
            CommandError::Communication(e) => e.command,
        }
    }

    /// The command that the error is about.
    pub fn command(&self) -> (r: &Command)
        ensures
            *r == self.spec_command(),
    {
        match self {
            CommandError::Spawn(e) => &e.command,
            CommandError::Wait(e) => &e.command,
            CommandError::Failed(status) => &status.command,
            CommandError::Communication(e) => &e.command,
        }
    }
}

/// An operation on a file that the system refused: the path, what was
/// attempted, and the system's words for the refusal.
#[derive(Debug)]
pub struct FsError {
    pub path: Vec<u8>,
    pub error: String,
    pub operation: &'static str,
}

/// What can end a build.
#[derive(Debug)]
pub enum Error {
    Filesystem(FsError),
    InvalidProfileName,
    Command(CommandError),
}

impl From<FsError> for Error {
    fn from(value: FsError) -> (r: Error) {
        Error::Filesystem(value)
    }
}

impl vstd::std_specs::convert::FromSpecImpl<FsError> for Error {
    open spec fn obeys_from_spec() -> bool {
        true
    }

    open spec fn from_spec(value: FsError) -> Error {
        Error::Filesystem(value)
    }
}

impl From<CommandError> for Error {
    fn from(value: CommandError) -> (r: Error) {
        Error::Command(value)
    }
}

impl vstd::std_specs::convert::FromSpecImpl<CommandError> for Error {
    open spec fn obeys_from_spec() -> bool {
        true
    }

    open spec fn from_spec(value: CommandError) -> Error {
        Error::Command(value)
    }
}

} // verus!
