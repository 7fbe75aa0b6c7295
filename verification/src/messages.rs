//! Errors in words.
//!
//! A message is a byte string, because the paths and arguments that it
//! quotes are byte strings. A command line is shown word by word, each word
//! between double quotes, with a backslash before every double quote and
//! every backslash of the word.

use vstd::prelude::*;
use vstd::string::*;
use vstd::utf8::encode_utf8;
use crate::bytes::{append, bytes_of, decimal, decimal_string, to_bytes};
use crate::command::{CmdOperationError, Command, CommandError, CommandView, Error, ExitStatus, FsError};

verus! {

/// The double quote (`"`).
pub const QUOTE: u8 = 34;

/// The backslash (`\`).
pub const BACKSLASH: u8 = 92;

/// The space.
pub const SPACE: u8 = 32;

/// The minus sign (`-`).
pub const MINUS: u8 = 45;

/// A word with a backslash before each of its double quotes and
/// backslashes.
pub open spec fn escaped(word: Seq<u8>) -> Seq<u8>
    decreases word.len(),
{
    if word.len() == 0 {
        Seq::empty()
    } else if word.last() == QUOTE || word.last() == BACKSLASH {
        escaped(word.drop_last()) + seq![BACKSLASH, word.last()]
    } else {
        escaped(word.drop_last()).push(word.last())
    }
}

/// A word as it is shown: escaped, between double quotes.
pub open spec fn quoted(word: Seq<u8>) -> Seq<u8> {
    seq![QUOTE] + escaped(word) + seq![QUOTE]
}

/// Words as they are shown, each after a space.
pub open spec fn quoted_all(words: Seq<Seq<u8>>) -> Seq<u8>
    decreases words.len(),
{
    if words.len() == 0 {
        Seq::empty()
    } else {
        quoted_all(words.drop_last()) + seq![SPACE] + quoted(words.last())
    }
}

/// A command line as it is shown: the program, then the arguments.
pub open spec fn shown_command(command: CommandView) -> Seq<u8> {
    quoted(command.cmd) + quoted_all(command.args)
}

/// A number in decimal, with a minus sign before it where it is negative.
pub open spec fn signed_decimal(n: int) -> Seq<u8> {
    if n < 0 {
        seq![MINUS] + decimal((-n) as nat)
    } else {
        decimal(n as nat)
    }
}

/// What is said of a command that ended: its exit code, or that a signal
/// killed it.
pub open spec fn shown_status(command: CommandView, code: Option<i32>) -> Seq<u8> {
    match code {
        Some(code) => bytes_of("command ") + shown_command(command) + bytes_of(" returned exit code ")
            + signed_decimal(code as int),
        None => bytes_of("command ") + shown_command(command) + bytes_of(" was killed by a signal"),
    }
}

/// What is said of an operation on a command that the system refused.
pub open spec fn shown_refusal(attempt: &str, error: CmdOperationError) -> Seq<u8> {
    bytes_of("failed to ") + bytes_of(attempt) + bytes_of(" command ") + shown_command(error.command@) + bytes_of(
        ": ",
    ) + encode_utf8(error.error@)
}

/// Appends a word as it is shown.
fn push_quoted(message: &mut Vec<u8>, word: &[u8])
    ensures
        final(message)@ == old(message)@ + quoted(word@),
{
    let ghost before = message@;
    message.push(QUOTE);
    let mut i: usize = 0;
    assert(word@.take(0) =~= Seq::<u8>::empty());
    while i < word.len()
        invariant
            i <= word.len(),
            message@ == before + seq![QUOTE] + escaped(word@.take(i as int)),
        decreases word.len() - i,
    {
        let b = word[i];
        assert(word@.take(i + 1).drop_last() =~= word@.take(i as int));
        assert(word@.take(i + 1).last() == b);
        let ghost so_far = message@;
        if b == QUOTE || b == BACKSLASH {
            message.push(BACKSLASH);
        }
        message.push(b);
        i += 1;
        assert(message@ =~= before + seq![QUOTE] + escaped(word@.take(i as int)));
    }
    assert(word@.take(word@.len() as int) =~= word@);
    message.push(QUOTE);
    assert(message@ =~= before + quoted(word@));
}

/// Appends a command line as it is shown.
fn push_command(message: &mut Vec<u8>, command: &Command)
    ensures
        final(message)@ == old(message)@ + shown_command(command@),
{
    let ghost before = message@;
    push_quoted(message, command.cmd.as_slice());
    let ghost args = command@.args;
    let mut i: usize = 0;
    assert(args.take(0) =~= Seq::<Seq<u8>>::empty());
    assert(message@ =~= before + quoted(command@.cmd) + quoted_all(args.take(0)));
    while i < command.args.len()
        invariant
            i <= command.args.len(),
            args == command@.args,
            message@ == before + quoted(command@.cmd) + quoted_all(args.take(i as int)),
        decreases command.args.len() - i,
    {
        assert(args.take(i + 1).drop_last() =~= args.take(i as int));
        assert(args.take(i + 1).last() == command.args@[i as int]@);
        message.push(SPACE);
        push_quoted(message, command.args[i].as_slice());
        i += 1;
        assert(message@ =~= before + quoted(command@.cmd) + quoted_all(args.take(i as int)));
    }
    assert(args.take(command.args@.len() as int) =~= args);
    assert(message@ =~= before + shown_command(command@));
}

/// Renders what is said of a refused operation on a command.
fn refusal(attempt: &str, error: &CmdOperationError) -> (r: Vec<u8>)
    ensures
        r@ == shown_refusal(attempt, *error),
{
    let mut r = to_bytes("failed to ");
    append(&mut r, attempt.as_bytes());
    append(&mut r, " command ".as_bytes());
    push_command(&mut r, &error.command);
    append(&mut r, ": ".as_bytes());
    append(&mut r, error.error.as_str().as_bytes());
    r
}

impl Command {
    /// The command line, word by word.
    pub fn message(&self) -> (r: Vec<u8>)
        ensures
            r@ == shown_command(self@),
    {
        let mut r: Vec<u8> = Vec::new();
        push_command(&mut r, self);
        assert(r@ =~= shown_command(self@));
        r
    }
}

impl ExitStatus {
    /// How the command ended, in words.
    pub fn message(&self) -> (r: Vec<u8>)
        ensures
            r@ == shown_status(self.command@, self.code),
    {
        let mut r = to_bytes("command ");
        push_command(&mut r, &self.command);
        match self.code {
            Some(code) => {
                append(&mut r, " returned exit code ".as_bytes());
                if code < 0 {
                    r.push(MINUS);
                    let magnitude: i64 = -(code as i64);
                    let digits = decimal_string(magnitude as usize);
                    append(&mut r, digits.as_slice());
                } else {
                    let digits = decimal_string(code as usize);
                    append(&mut r, digits.as_slice());
                }
                assert(r@ =~= shown_status(self.command@, self.code));
            },
            None => {
                append(&mut r, " was killed by a signal".as_bytes());
            },
        }
        r
    }
}

impl CommandError {
    /// What went wrong with the command, in words: that it could not be
    /// run, waited for or communicated with, each with the system's reason,
    /// or how it ended.
    pub open spec fn shown(&self) -> Seq<u8> {
        match self {
            CommandError::Spawn(error) => shown_refusal("run", *error),
            CommandError::Wait(error) => shown_refusal("wait for", *error),
            CommandError::Failed(status) => shown_status(status.command@, status.code),
            CommandError::Communication(error) => shown_refusal("communicate with", *error),
        }
    }

    /// What went wrong with the command, in words.
    pub fn message(&self) -> (r: Vec<u8>)
        ensures
            r@ == self.shown(),
    {
        match self {
            CommandError::Spawn(error) => refusal("run", error),
            CommandError::Wait(error) => refusal("wait for", error),
            CommandError::Failed(status) => status.message(),
            CommandError::Communication(error) => refusal("communicate with", error),
        }
    }
}

impl FsError {
    /// What went wrong with the file, in words: what was attempted, on which
    /// path, and the system's reason.
    pub open spec fn shown(&self) -> Seq<u8> {
        bytes_of("failed to ") + bytes_of(self.operation) + seq![SPACE] + self.path@ + bytes_of(": ") + encode_utf8(
            self.error@,
        )
    }

    /// What went wrong with the file, in words.
    pub fn message(&self) -> (r: Vec<u8>)
        ensures
            r@ == self.shown(),
    {
        let mut r = to_bytes("failed to ");
        append(&mut r, self.operation.as_bytes());
        r.push(SPACE);
        append(&mut r, self.path.as_slice());
        append(&mut r, ": ".as_bytes());
        append(&mut r, self.error.as_str().as_bytes());
        r
    }
}

impl Error {
    /// What ended the build, in words.
    pub open spec fn shown(&self) -> Seq<u8> {
        match self {
            Error::Filesystem(error) => error.shown(),
            Error::InvalidProfileName => bytes_of("invalid profile name"),
            Error::Command(error) => error.shown(),
        }
    }

    /// What ended the build, in words.
    pub fn message(&self) -> (r: Vec<u8>)
        ensures
            r@ == self.shown(),
    {
        match self {
            Error::Filesystem(error) => error.message(),
            Error::InvalidProfileName => to_bytes("invalid profile name"),
            Error::Command(error) => error.message(),
        }
    }
}

} // verus!
