use cmail::args::{Args, Cmd, Source};
use cmail::error::{ErrorKind, IoError, RunError};
use cmail::message::email_lines;
use cmail::passthru::Passthru;
use cmail::sender::EmailSender;
use cmail::session::{run, Action, Event, Session};

fn strings(lines: &[&str]) -> Vec<String> {
    lines.iter().map(|l| l.to_string()).collect()
}

fn args(words: &[&str], to: Option<&str>) -> Args {
    Args {
        arg_args: strings(words),
        flag_period: 10,
        flag_silent: false,
        flag_send_all: true,
        flag_to: to.map(|t| t.to_string()),
    }
}

fn broken() -> IoError {
    IoError { kind: ErrorKind::Other, message: "broken".to_string() }
}

fn line(text: &str) -> Event {
    Event::Line(Ok(text.to_string()))
}

fn batch(lines: &[&str]) -> Action {
    Action::Send(strings(lines))
}

/// A run that listens.
fn listening(words: &[&str]) -> Session {
    let (mut session, _) = run(args(words, Some("me")));
    let action = session.step(Event::Started(Ok(())));
    assert!(matches!(action, Action::Open { .. }));
    session
}

const GOOD: &str = "Program completed successfully.";
const BAD: &str = "Program interrupted.";

#[test]
fn a_run_begins_with_its_source() {
    let (session, start) = run(args(&["du", "-s"], None));
    assert_eq!(
        start,
        Action::Start(Source::Command(Cmd {
            script: "du -s".to_string(),
            stdout: Passthru::Stdout,
            stderr: Passthru::Stderr,
        }))
    );
    assert!(session.expects(&Event::Started(Ok(()))));
    assert!(!session.expects(&Event::Signal));
    assert!(!session.expects(&Event::Closed));
    let (_, start) = run(args(&[], None));
    assert_eq!(start, Action::Start(Source::Stdin(Passthru::Stdout)));
}

#[test]
fn a_source_that_does_not_start_ends_the_run() {
    let (mut session, _) = run(args(&["du"], Some("me")));
    assert_eq!(
        session.step(Event::Started(Err(broken()))),
        Action::Fail(RunError::Io(broken()))
    );
    assert!(!session.expects(&Event::Tick));
}

#[test]
fn the_address_of_the_command_line_comes_first() {
    let (mut session, _) = run(args(&["du", "-s"], Some("me")));
    assert_eq!(
        session.step(Event::Started(Ok(()))),
        Action::Open {
            cmd: "du -s".to_string(),
            email: "me".to_string(),
            send_all: true,
            period: 10,
        }
    );
    assert!(session.expects(&Event::Tick));
}

#[test]
fn the_address_of_the_environment_comes_second() {
    let (mut session, _) = run(args(&[], None));
    assert_eq!(session.step(Event::Started(Ok(()))), Action::LookUpAddress);
    assert_eq!(
        session.step(Event::Address(Some("you".to_string()))),
        Action::Open {
            cmd: "<stdin>".to_string(),
            email: "you".to_string(),
            send_all: true,
            period: 10,
        }
    );
}

#[test]
fn without_an_address_the_run_fails() {
    let (mut session, _) = run(args(&[], None));
    session.step(Event::Started(Ok(())));
    assert_eq!(session.step(Event::Address(None)), Action::Fail(RunError::NoAddress));

    let (mut session, _) = run(args(&[], None));
    session.step(Event::Started(Ok(())));
    let empty = Event::Address(Some(String::new()));
    assert_eq!(session.step(empty), Action::Fail(RunError::NoAddress));

    let (mut session, _) = run(args(&["du"], Some("")));
    assert_eq!(session.step(Event::Started(Ok(()))), Action::Fail(RunError::NoAddress));
    assert_eq!(
        RunError::NoAddress.message(),
        "Please specify an email address with --to or by setting the EMAIL environment variable."
    );
}

#[test]
fn stdin_is_emailed_at_its_end() {
    let mut session = listening(&[]);
    assert_eq!(session.step(line("This is going to")), Action::Listen);
    assert_eq!(session.step(line("my email")), Action::Listen);
    assert_eq!(
        session.step(Event::Eof),
        batch(&["This is going to", "my email", "", "", GOOD])
    );
    assert_eq!(session.step(Event::Sent(Ok(false))), Action::Close);
    assert_eq!(session.step(Event::Closed), Action::Exit(0));
    assert!(!session.expects(&Event::Closed));
}

#[test]
fn a_command_is_reaped_before_the_last_email() {
    let mut session = listening(&["du"]);
    session.step(line("a"));
    assert_eq!(session.step(Event::Eof), Action::Wait);
    assert_eq!(session.step(Event::Reaped(Ok(true))), batch(&["a", "", "", GOOD]));

    let mut session = listening(&["false"]);
    session.step(Event::Eof);
    assert_eq!(session.step(Event::Reaped(Ok(false))), batch(&["", "", BAD]));
    session.step(Event::Sent(Ok(true)));
    assert_eq!(session.step(Event::Closed), Action::Exit(0));
}

#[test]
fn every_tick_empties_the_batch() {
    let mut session = listening(&["du"]);
    session.step(line("a"));
    session.step(line("b"));
    assert_eq!(session.step(Event::Tick), batch(&["a", "b"]));
    assert!(session.expects(&Event::Sent(Ok(false))));
    assert!(!session.expects(&Event::Tick));
    assert_eq!(session.step(Event::Sent(Ok(false))), Action::Listen);
    assert_eq!(session.step(Event::Tick), batch(&[]));
    session.step(Event::Sent(Ok(false)));
    session.step(line("c"));
    session.step(Event::Eof);
    assert_eq!(session.step(Event::Reaped(Ok(true))), batch(&["c", "", "", GOOD]));
}

#[test]
fn an_interrupt_gives_stdin_up() {
    let mut session = listening(&[]);
    session.step(line("a"));
    assert_eq!(session.step(Event::Signal), batch(&["a", "", "", BAD]));
    session.step(Event::Sent(Ok(false)));
    assert_eq!(session.step(Event::Closed), Action::Exit(1));
}

#[test]
fn an_interrupted_command_is_read_to_its_end() {
    let mut session = listening(&["du"]);
    session.step(line("a"));
    assert_eq!(session.step(Event::Signal), Action::Kill);
    assert_eq!(session.step(Event::Reaped(Ok(false))), Action::Listen);
    assert_eq!(session.step(Event::Tick), Action::Listen);
    session.step(line("b"));
    assert_eq!(session.step(Event::Signal), Action::Kill);
    assert_eq!(session.step(Event::Reaped(Ok(false))), Action::Listen);
    assert_eq!(session.step(Event::Eof), Action::Wait);
    assert_eq!(session.step(Event::Reaped(Ok(true))), batch(&["a", "b", "", "", BAD]));
    assert_eq!(session.step(Event::Sent(Ok(false))), Action::Close);
    assert_eq!(session.step(Event::Closed), Action::Exit(1));
}

#[test]
fn an_interrupted_email_begins_a_shutdown() {
    let mut session = listening(&["du"]);
    session.step(Event::Tick);
    assert_eq!(session.step(Event::Sent(Ok(true))), Action::Kill);
    assert_eq!(session.step(Event::Reaped(Ok(false))), Action::Listen);
    assert_eq!(session.step(Event::Tick), Action::Listen);

    let mut session = listening(&[]);
    session.step(Event::Tick);
    assert_eq!(session.step(Event::Sent(Ok(true))), Action::Listen);
    session.step(line("a"));
    assert_eq!(session.step(Event::Tick), Action::Listen);
    assert_eq!(session.step(Event::Eof), batch(&["a", "", "", BAD]));
    session.step(Event::Sent(Ok(true)));
    assert_eq!(session.step(Event::Closed), Action::Exit(1));
}

#[test]
fn failures_end_the_run() {
    let failed = || Action::Fail(RunError::Io(broken()));

    let mut session = listening(&["du"]);
    assert_eq!(session.step(Event::Line(Err(broken()))), failed());

    let mut session = listening(&["du"]);
    session.step(Event::Tick);
    assert_eq!(session.step(Event::Sent(Err(broken()))), failed());

    let mut session = listening(&["du"]);
    session.step(Event::Signal);
    assert_eq!(session.step(Event::Reaped(Err(broken()))), failed());

    let mut session = listening(&["du"]);
    session.step(Event::Eof);
    assert_eq!(session.step(Event::Reaped(Err(broken()))), failed());

    let mut session = listening(&[]);
    session.step(Event::Eof);
    assert_eq!(session.step(Event::Sent(Err(broken()))), failed());
    assert!(!session.expects(&Event::Closed));
}

#[test]
fn send_all_ends_with_the_entire_output() {
    let mut session = listening(&["du"]);
    let mut sender = EmailSender::run("du".to_string(), "me".to_string(), true);
    let mut emails = Vec::new();
    let events = vec![
        line("a"),
        Event::Tick,
        Event::Sent(Ok(false)),
        line("b"),
        Event::Tick,
        Event::Sent(Ok(false)),
        line("c"),
        Event::Eof,
        Event::Reaped(Ok(true)),
    ];
    for event in events {
        if let Action::Send(lines) = session.step(event) {
            emails.push(sender.send(lines));
            sender.attempted(Ok(()));
        }
    }
    assert_eq!(
        emails,
        vec![
            email_lines("du", "me", &strings(&["a"])),
            email_lines("du", "me", &strings(&["a", "b"])),
            email_lines("du", "me", &strings(&["a", "b", "c", "", "", GOOD])),
        ]
    );
}

#[test]
fn a_period_of_zero_sends_one_email() {
    let mut args = args(&["du"], Some("me"));
    args.flag_period = 0;
    let (mut session, _) = run(args);
    session.step(Event::Started(Ok(())));
    assert!(!session.expects(&Event::Tick));
    assert!(session.expects(&Event::Signal));
    session.step(line("a"));
    session.step(line("b"));
    session.step(Event::Eof);
    assert_eq!(session.step(Event::Reaped(Ok(true))), batch(&["a", "b", "", "", GOOD]));
}
