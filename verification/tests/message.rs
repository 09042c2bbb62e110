use cmail::error::{ErrorKind, IoError};
use cmail::message::{email_lines, email_status};

fn strings(lines: &[&str]) -> Vec<String> {
    lines.iter().map(|l| l.to_string()).collect()
}

const DASHES: &str =
    "-------------------------------------------------------------------------------";

#[test]
fn an_email_in_full() {
    assert_eq!(DASHES.len(), 79);
    let text = email_lines("du -csh", "me@example.com", &strings(&["one", "", "three"]));
    let expected = format!(
        "Subject: [cmail] du -csh\nFrom: me@example.com\nTo: me@example.com\n\n{}\ndu -csh\n{}\n\
         one\n\nthree\n",
        DASHES, DASHES
    );
    assert_eq!(text, expected);
}

#[test]
fn an_email_without_lines() {
    let text = email_lines("", "", &strings(&[]));
    assert_eq!(text, format!("Subject: [cmail] \nFrom: \nTo: \n\n{}\n\n{}\n", DASHES, DASHES));
}

#[test]
fn the_subject_is_cut_at_fifty_characters() {
    let fifty = "é".repeat(50);
    let text = email_lines(&fifty, "x", &strings(&[]));
    assert!(text.starts_with(&format!("Subject: [cmail] {}\nFrom", fifty)));

    let long = format!("{}z", fifty);
    let text = email_lines(&long, "x", &strings(&[]));
    assert!(text.starts_with(&format!("Subject: [cmail] {}\nFrom", fifty)));
    assert!(text.contains(&format!("{}\n{}\n{}\n", DASHES, long, DASHES)));
}

#[test]
fn more_lines_only_add_to_the_email() {
    let first = email_lines("cmd", "x", &strings(&["a"]));
    let both = email_lines("cmd", "x", &strings(&["a", "b", "c"]));
    assert_eq!(both, format!("{}b\nc\n", first));
}

#[test]
fn statuses_of_sendmail() {
    assert_eq!(email_status(true, Some(0), "exit status: 0".to_string()), Ok(()));
    assert_eq!(
        email_status(false, None, "signal: 2 (SIGINT)".to_string()),
        Err(IoError {
            kind: ErrorKind::Interrupted,
            message: "email send interrupted".to_string(),
        })
    );
    assert_eq!(
        email_status(false, Some(69), "exit status: 69".to_string()),
        Err(IoError { kind: ErrorKind::Other, message: "exit status: 69".to_string() })
    );
}
