use cmail::error::{ErrorKind, IoError};
use cmail::passthru::{Echo, Gobbled, Passthru, Stream};

#[test]
fn modes() {
    assert_eq!(Passthru::stdout(true), Passthru::Stdout);
    assert_eq!(Passthru::stdout(false), Passthru::No);
    assert_eq!(Passthru::stderr(true), Passthru::Stderr);
    assert_eq!(Passthru::stderr(false), Passthru::No);
}

#[test]
fn writers() {
    assert_eq!(Passthru::No.wtr(), None);
    assert_eq!(Passthru::Stdout.wtr(), Some(Stream::Stdout));
    assert_eq!(Passthru::Stderr.wtr(), Some(Stream::Stderr));
}

#[test]
fn a_line_is_echoed_and_passed_on() {
    assert_eq!(
        Passthru::Stderr.gobble(Ok("oops".to_string())),
        Gobbled {
            echo: Some(Echo { stream: Stream::Stderr, text: "oops\n".to_string() }),
            line: Ok("oops".to_string()),
        }
    );
    assert_eq!(
        Passthru::Stdout.gobble(Ok(String::new())),
        Gobbled {
            echo: Some(Echo { stream: Stream::Stdout, text: "\n".to_string() }),
            line: Ok(String::new()),
        }
    );
}

#[test]
fn a_silent_line_is_only_passed_on() {
    assert_eq!(
        Passthru::No.gobble(Ok("x".to_string())),
        Gobbled { echo: None, line: Ok("x".to_string()) }
    );
}

#[test]
fn a_failed_read_is_passed_on_without_echo() {
    let e = IoError { kind: ErrorKind::Other, message: "bad utf-8".to_string() };
    let same = IoError { kind: ErrorKind::Other, message: "bad utf-8".to_string() };
    assert_eq!(Passthru::Stdout.gobble(Err(e)), Gobbled { echo: None, line: Err(same) });
}
