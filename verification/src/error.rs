//! Errors as plain values.

use vstd::prelude::*;

verus! {

/// What the logic needs to know about why an operation of the system failed.
#[derive(Clone, Copy, Debug, PartialEq, Eq, Structural)]
pub enum ErrorKind {
    /// The operation was cut short by a signal.
    Interrupted,
    /// Anything else.
    Other,
}

/// A failed operation of the system: its kind and the text to show for it.
#[derive(Debug, PartialEq, Eq)]
pub struct IoError {
    pub kind: ErrorKind,
    pub message: String,
}

/// Why a run ended without an exit code of its own.
#[derive(Debug, PartialEq, Eq)]
pub enum RunError {
    /// There is nobody to send email to.
    NoAddress,
    /// An operation of the system failed.
    Io(IoError),
}

/// What is shown when no address was given.
pub open spec fn no_address_text() -> Seq<char> {
    "Please specify an email address with --to or by setting the EMAIL environment variable."@
}

impl RunError {
    /// The text of the error.
    pub open spec fn text(self) -> Seq<char> {
        match self {
            RunError::NoAddress => no_address_text(),
            RunError::Io(e) => e.message@,
        }
    }

    /// Describes the error to the user.
    pub fn message(&self) -> (text: String)
        ensures
            text@ == self.text(),
            match self {
                RunError::NoAddress => text@
                    == "Please specify an email address with --to or by setting the EMAIL environment variable."@,
                RunError::Io(e) => text@ == e.message@,
            },
    {
        match self {
            RunError::NoAddress => "Please specify an email address with --to or by setting the EMAIL environment variable.".to_owned(),
            RunError::Io(e) => e.message.clone(),
        }
    }
}

/// How the process ends: its exit code and what it says on stderr, if anything.
#[derive(Debug, PartialEq, Eq)]
pub struct Ending {
    pub code: i32,
    pub complaint: Option<String>,
}

/// Turns the result of a run into the end of the process.
///
/// A run that completed decides the exit code and says nothing; any error is
/// reported and makes the exit code 1.
pub fn ending(result: Result<i32, RunError>) -> (end: Ending)
    ensures
        match result {
            Ok(code) => end.code == code && end.complaint is None,
            Err(e) => {
                &&& end.code == 1
                &&& end.complaint is Some
                &&& end.complaint->0@ == "ERROR: "@ + e.text()
                &&& e matches RunError::Io(io) ==> end.complaint->0@ == "ERROR: "@ + io.message@
            },
        },
{
    match result {
        Ok(code) => Ending { code, complaint: None },
        Err(e) => {
            let mut complaint = "ERROR: ".to_owned();
            complaint.append(e.message().as_str());
            Ending { code: 1, complaint: Some(complaint) }
        },
    }
}

/// An error is described by the whole message that came with it, and a missing address by
/// what to do about it.
pub proof fn law_errors_are_described_in_full(e: IoError)
    ensures
        RunError::Io(e).text() == e.message@,
        RunError::NoAddress.text()
            == "Please specify an email address with --to or by setting the EMAIL environment variable."@,
{
}

} // verus!
