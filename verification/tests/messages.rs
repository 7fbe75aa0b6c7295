use gocar::command::{CmdOperationError, Command, CommandError, Error, ExitStatus, FsError};

fn sample() -> Command {
    Command::new(b"cc".to_vec()).arg(b"-c".to_vec()).arg(b"src/a.c".to_vec())
}

#[test]
fn command_line_word_by_word() {
    assert_eq!(sample().message(), b"\"cc\" \"-c\" \"src/a.c\"".to_vec());
    assert_eq!(Command::new(b"/usr/bin/ar".to_vec()).message(), b"\"/usr/bin/ar\"".to_vec());
    assert_eq!(Command::new(Vec::new()).arg(Vec::new()).message(), b"\"\" \"\"".to_vec());
}

#[test]
fn quotes_and_backslashes_are_escaped() {
    let command = Command::new(b"my cc".to_vec()).arg(b"-DNAME=\"x\"".to_vec()).arg(b"a\\b".to_vec());
    assert_eq!(command.message(), b"\"my cc\" \"-DNAME=\\\"x\\\"\" \"a\\\\b\"".to_vec());
}

#[test]
fn exit_code_message() {
    let status = ExitStatus { command: sample(), code: Some(1) };
    assert_eq!(status.message(), b"command \"cc\" \"-c\" \"src/a.c\" returned exit code 1".to_vec());
    let status = ExitStatus { command: sample(), code: Some(0) };
    assert_eq!(status.message(), b"command \"cc\" \"-c\" \"src/a.c\" returned exit code 0".to_vec());
    let status = ExitStatus { command: sample(), code: Some(-11) };
    assert_eq!(status.message(), b"command \"cc\" \"-c\" \"src/a.c\" returned exit code -11".to_vec());
    let status = ExitStatus { command: sample(), code: Some(i32::MIN) };
    assert_eq!(status.message(), b"command \"cc\" \"-c\" \"src/a.c\" returned exit code -2147483648".to_vec());
    let status = ExitStatus { command: sample(), code: Some(i32::MAX) };
    assert_eq!(status.message(), b"command \"cc\" \"-c\" \"src/a.c\" returned exit code 2147483647".to_vec());
}

#[test]
fn signal_message() {
    let status = ExitStatus { command: sample(), code: None };
    assert_eq!(status.message(), b"command \"cc\" \"-c\" \"src/a.c\" was killed by a signal".to_vec());
}

#[test]
fn command_error_messages() {
    let spawn = CommandError::Spawn(CmdOperationError { command: sample(), error: "No such file or directory".to_string() });
    assert_eq!(
        spawn.message(),
        b"failed to run command \"cc\" \"-c\" \"src/a.c\": No such file or directory".to_vec()
    );
    let wait = CommandError::Wait(CmdOperationError { command: sample(), error: "Interrupted".to_string() });
    assert_eq!(wait.message(), b"failed to wait for command \"cc\" \"-c\" \"src/a.c\": Interrupted".to_vec());
    let talk = CommandError::Communication(CmdOperationError { command: sample(), error: "Broken pipe".to_string() });
    assert_eq!(
        talk.message(),
        b"failed to communicate with command \"cc\" \"-c\" \"src/a.c\": Broken pipe".to_vec()
    );
    let failed = CommandError::Failed(ExitStatus { command: sample(), code: Some(2) });
    assert_eq!(failed.message(), b"command \"cc\" \"-c\" \"src/a.c\" returned exit code 2".to_vec());
}

#[test]
fn file_error_message() {
    let error = FsError {
        path: b"/p/Gocar.toml".to_vec(),
        error: "No such file or directory (os error 2)".to_string(),
        operation: "open file",
    };
    assert_eq!(error.message(), b"failed to open file /p/Gocar.toml: No such file or directory (os error 2)".to_vec());
    let odd = FsError { path: vec![b'/', 0xff, b'x'], error: "d\u{e9}ni\u{e9}".to_string(), operation: "canonicalize" };
    let mut expected = b"failed to canonicalize /".to_vec();
    expected.push(0xff);
    expected.extend_from_slice("x: d\u{e9}ni\u{e9}".as_bytes());
    assert_eq!(odd.message(), expected);
}

#[test]
fn error_messages() {
    assert_eq!(Error::InvalidProfileName.message(), b"invalid profile name".to_vec());
    let fs = Error::Filesystem(FsError { path: b"a.h".to_vec(), error: "denied".to_string(), operation: "get metadata of" });
    assert_eq!(fs.message(), b"failed to get metadata of a.h: denied".to_vec());
    let command = Error::Command(CommandError::Failed(ExitStatus { command: sample(), code: None }));
    assert_eq!(command.message(), b"command \"cc\" \"-c\" \"src/a.c\" was killed by a signal".to_vec());
}
