use cmail::error::{ErrorKind, IoError};
use cmail::message::email_lines;
use cmail::sender::{email_lines_retry, EmailSender, LastEmail, Progress, Retry};

fn strings(lines: &[&str]) -> Vec<String> {
    lines.iter().map(|l| l.to_string()).collect()
}

fn interrupted() -> IoError {
    IoError { kind: ErrorKind::Interrupted, message: "email send interrupted".to_string() }
}

fn broken() -> IoError {
    IoError { kind: ErrorKind::Other, message: "exit status: 1".to_string() }
}

fn sender(send_all: bool) -> EmailSender {
    EmailSender::run("cmd".to_string(), "me".to_string(), send_all)
}

fn email(lines: &[&str]) -> String {
    email_lines("cmd", "me", &strings(lines))
}

#[test]
fn retry_decisions() {
    assert_eq!(email_lines_retry(false, Ok(())), Retry::Done(Ok(false)));
    assert_eq!(email_lines_retry(false, Err(interrupted())), Retry::Again);
    assert_eq!(email_lines_retry(false, Err(broken())), Retry::Done(Err(broken())));
    assert_eq!(email_lines_retry(true, Ok(())), Retry::Done(Ok(true)));
    assert_eq!(email_lines_retry(true, Err(interrupted())), Retry::Done(Err(interrupted())));
    assert_eq!(email_lines_retry(true, Err(broken())), Retry::Done(Err(broken())));
}

#[test]
fn each_email_carries_its_batch() {
    let mut s = sender(false);
    assert!(s.is_idle());
    assert_eq!(s.send(strings(&["a", "b"])), email(&["a", "b"]));
    assert!(!s.is_idle());
    assert_eq!(s.attempted(Ok(())), Progress::Finished(Ok(false)));
    assert!(s.is_idle());
    assert_eq!(s.send(strings(&["c"])), email(&["c"]));
    assert_eq!(s.attempted(Ok(())), Progress::Finished(Ok(false)));
}

#[test]
fn an_empty_batch_says_so() {
    let mut s = sender(false);
    assert_eq!(s.send(strings(&[])), email(&["No output."]));
}

#[test]
fn send_all_carries_every_batch() {
    let mut s = sender(true);
    assert_eq!(s.send(strings(&[])), email(&[]));
    assert_eq!(s.attempted(Ok(())), Progress::Finished(Ok(false)));
    assert_eq!(s.send(strings(&["a", "b"])), email(&["a", "b"]));
    assert_eq!(s.attempted(Err(broken())), Progress::Finished(Err(broken())));
    assert_eq!(s.send(strings(&["c"])), email(&["a", "b", "c"]));
}

#[test]
fn an_interrupted_email_is_sent_once_more() {
    let mut s = sender(false);
    s.send(strings(&["a"]));
    assert_eq!(s.attempted(Err(interrupted())), Progress::Again(email(&["a"])));
    assert!(!s.is_idle());
    assert_eq!(s.attempted(Ok(())), Progress::Finished(Ok(true)));
    assert!(s.is_idle());
}

#[test]
fn a_second_interrupt_gives_up() {
    let mut s = sender(false);
    s.send(strings(&["a"]));
    assert_eq!(s.attempted(Err(interrupted())), Progress::Again(email(&["a"])));
    assert_eq!(s.attempted(Err(interrupted())), Progress::Finished(Err(interrupted())));
    // A failed retry is not remembered.
    s.send(strings(&["b"]));
    assert_eq!(s.attempted(Err(interrupted())), Progress::Again(email(&["b"])));
}

#[test]
fn after_an_interrupt_there_is_a_single_attempt() {
    let mut s = sender(false);
    s.send(strings(&["a"]));
    s.attempted(Err(interrupted()));
    s.attempted(Ok(()));
    s.send(strings(&["b"]));
    assert_eq!(s.attempted(Err(interrupted())), Progress::Finished(Err(interrupted())));
    s.send(strings(&["c"]));
    assert_eq!(s.attempted(Ok(())), Progress::Finished(Ok(true)));
}

#[test]
fn the_last_email_says_how_the_run_ended() {
    let good = strings(&["x", "", "", "Program completed successfully."]);
    let bad = strings(&["x", "", "", "Program interrupted."]);
    let last = |exit: Option<bool>, killed: bool| {
        EmailSender::last_send(exit, strings(&["x"]), killed)
    };
    assert_eq!(last(None, false), LastEmail { lines: good, code: 0 });
    assert_eq!(last(Some(true), false).code, 0);
    assert_eq!(last(Some(true), false).lines[3], "Program completed successfully.");
    assert_eq!(last(Some(false), false).code, 0);
    assert_eq!(last(Some(false), false).lines[3], "Program interrupted.");
    assert_eq!(last(None, true), LastEmail { lines: bad, code: 1 });
    assert_eq!(last(Some(true), true).code, 1);
    assert_eq!(last(Some(true), true).lines[3], "Program interrupted.");
    assert_eq!(last(Some(false), true).code, 1);
}
