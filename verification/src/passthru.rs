//! Showing the output of the watched command on the terminal.

use vstd::prelude::*;

use crate::error::IoError;
use crate::text;

verus! {

/// Describes how the command's output is passed through to the terminal.
#[derive(Clone, Copy, Debug, PartialEq, Eq, Structural)]
pub enum Passthru {
    No,
    Stdout,
    Stderr,
}

/// A stream of the process that output can be passed through to.
#[derive(Clone, Copy, Debug, PartialEq, Eq, Structural)]
pub enum Stream {
    Stdout,
    Stderr,
}

/// Text to write to a stream.
#[derive(Debug, PartialEq, Eq)]
pub struct Echo {
    pub stream: Stream,
    pub text: String,
}

/// What becomes of one read from the command: the text to echo first, if any,
/// and then the line to pass on.
#[derive(Debug, PartialEq, Eq)]
pub struct Gobbled {
    pub echo: Option<Echo>,
    pub line: Result<String, IoError>,
}

impl Passthru {
    /// The stream that output is written to.
    pub open spec fn stream(self) -> Option<Stream> {
        match self {
            Passthru::No => None,
            Passthru::Stdout => Some(Stream::Stdout),
            Passthru::Stderr => Some(Stream::Stderr),
        }
    }

    /// Pass through on stdout if `yes` is true.
    pub fn stdout(yes: bool) -> (mode: Passthru)
        ensures
            mode == (if yes { Passthru::Stdout } else { Passthru::No }),
    {
        if yes { Passthru::Stdout } else { Passthru::No }
    }

    /// Pass through on stderr if `yes` is true.
    pub fn stderr(yes: bool) -> (mode: Passthru)
        ensures
            mode == (if yes { Passthru::Stderr } else { Passthru::No }),
    {
        if yes { Passthru::Stderr } else { Passthru::No }
    }

    /// The stream to write to, or `None` where everything written is discarded.
    pub fn wtr(self) -> (stream: Option<Stream>)
        ensures
            stream == self.stream(),
    {
        match self {
            Passthru::No => None,
            Passthru::Stdout => Some(Stream::Stdout),
            Passthru::Stderr => Some(Stream::Stderr),
        }
    }

    /// Handles one read of a line.
    ///
    /// A line that was read is echoed, with a line feed, where this mode passes
    /// output through.  The result of the read, a failure too, is passed on as it is.
    pub fn gobble(self, line: Result<String, IoError>) -> (gobbled: Gobbled)
        ensures
            gobbled.line == line,
            match (line, self.stream()) {
                (Ok(text), Some(stream)) => {
                    &&& gobbled.echo is Some
                    &&& gobbled.echo->0.stream == stream
                    &&& gobbled.echo->0.text@ == text::terminated(text@)
                    &&& gobbled.echo->0.text@ == text@.push('\n')
                },
                _ => gobbled.echo is None,
            },
    {
        let echo = match (&line, self.wtr()) {
            (Ok(text), Some(stream)) => {
                let mut echoed = String::new();
                text::append_line(&mut echoed, text.as_str());
                assert(echoed@ =~= text::terminated(text@));
                Some(Echo { stream, text: echoed })
            },
            _ => None,
        };
        Gobbled { echo, line }
    }
}

/// Each mode passes output through to the stream of its name.
pub proof fn law_modes_name_their_streams()
    ensures
        Passthru::No.stream() is None,
        Passthru::Stdout.stream() == Some(Stream::Stdout),
        Passthru::Stderr.stream() == Some(Stream::Stderr),
{
}

} // verus!
