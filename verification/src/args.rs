//! What the command line asks for.

use vstd::prelude::*;

use crate::passthru::{Passthru, Stream};
use crate::text;

verus! {

/// The command line interface.
pub const USAGE: &'static str = "
Usage: cmail [options] [<args> ...]

Options:
    -h, --help             Display this help message.
    -p ARG, --period ARG   Data is emailed at this period in seconds.
                           Set to 0 to disable and send only one email
                           when the command completes.
                           [default: 900]
    -s, --silent           Don't pass the command's stdout/stderr to the
                           terminal. Instead, only send stdout/stderr
                           in email.
    -a, --send-all         Send the entire command's output on each email.
                           N.B. This saves all output in memory.
    -t ARG, --to ARG       The email address to send to. By default, this
                           is set to $EMAIL. If neither $EMAIL nor --to
                           are set, then an error is returned.
";

/// The arguments of the command line.
#[derive(Debug, PartialEq, Eq)]
pub struct Args {
    /// The command to run, word by word.  Without one, stdin is read.
    pub arg_args: Vec<String>,
    /// The seconds between two emails, or 0 for a single email at the end.
    pub flag_period: u32,
    /// Whether to keep the output off the terminal.
    pub flag_silent: bool,
    /// Whether each email carries the entire output so far.
    pub flag_send_all: bool,
    /// The address to send to, if it was given.
    pub flag_to: Option<String>,
}

/// The arguments of the command line, over their texts.
#[verifier::ext_equal]
pub struct ArgsView {
    pub words: Seq<Seq<char>>,
    pub period: u32,
    pub silent: bool,
    pub send_all: bool,
    pub to: Option<Seq<char>>,
}

/// The text of an optional string.
pub open spec fn optional(s: Option<String>) -> Option<Seq<char>> {
    match s {
        Some(s) => Some(s@),
        None => None,
    }
}

impl View for Args {
    type V = ArgsView;

    open spec fn view(&self) -> ArgsView {
        ArgsView {
            words: text::texts(self.arg_args@),
            period: self.flag_period,
            silent: self.flag_silent,
            send_all: self.flag_send_all,
            to: optional(self.flag_to),
        }
    }
}

/// How to run the command that is watched: the script for the shell, and how each of
/// its output streams is passed through.
#[derive(Debug, PartialEq, Eq)]
pub struct Cmd {
    pub script: String,
    pub stdout: Passthru,
    pub stderr: Passthru,
}

/// Where the lines to email come from.
#[derive(Debug, PartialEq, Eq)]
pub enum Source {
    /// The stdin of this process, passed through as described.
    Stdin(Passthru),
    /// The output of a command.
    Command(Cmd),
}

/// Where the lines to email come from, over the text of the script.
#[verifier::ext_equal]
pub enum SourceView {
    Stdin(Passthru),
    Command { script: Seq<char>, stdout: Passthru, stderr: Passthru },
}

impl View for Source {
    type V = SourceView;

    open spec fn view(&self) -> SourceView {
        match self {
            Source::Stdin(mode) => SourceView::Stdin(*mode),
            Source::Command(cmd) => SourceView::Command {
                script: cmd.script@,
                stdout: cmd.stdout,
                stderr: cmd.stderr,
            },
        }
    }
}

/// The words of a command as they are written for the shell, quoted where they have to be.
pub open spec fn pieces_of(words: Seq<Seq<char>>) -> Seq<Seq<char>> {
    Seq::new(
        words.len(),
        |i: int|
            if i == 0 {
                text::quoted_first(words[i])
            } else {
                text::quoted(words[i])
            },
    )
}

/// The script that runs a command: its words as they are written for the shell, with
/// single spaces between them.
pub open spec fn script_of(words: Seq<Seq<char>>) -> Seq<char> {
    text::joined(pieces_of(words), " "@)
}

impl ArgsView {
    /// Whether a command was given.
    pub open spec fn has_cmd(self) -> bool {
        self.words.len() != 0
    }

    /// The command for the shell, which reads each of the words as a single argument.
    pub open spec fn script(self) -> Seq<char> {
        script_of(self.words)
    }

    /// What the emails call the command: its words, with single spaces between them.
    pub open spec fn label(self) -> Seq<char> {
        if self.has_cmd() {
            text::joined(self.words, " "@)
        } else {
            "<stdin>"@
        }
    }

    /// Where the lines to email come from.
    pub open spec fn source(self) -> SourceView {
        if self.has_cmd() {
            SourceView::Command {
                script: self.script(),
                stdout: if self.silent { Passthru::No } else { Passthru::Stdout },
                stderr: if self.silent { Passthru::No } else { Passthru::Stderr },
            }
        } else {
            SourceView::Stdin(if self.silent { Passthru::No } else { Passthru::Stdout })
        }
    }
}

impl Cmd {
    /// Describes how to run the given command, where each item is a single argument: it
    /// is quoted in the script where the shell would read it as anything else.
    ///
    /// If `passthru` is true, then the stdout and stderr of the command are printed on
    /// the stdout and stderr of this process.
    pub fn run(cmd: &Vec<String>, passthru: bool) -> (run: Cmd)
        ensures
            run.script@ == script_of(text::texts(cmd@)),
            run.stdout == (if passthru { Passthru::Stdout } else { Passthru::No }),
            run.stderr == (if passthru { Passthru::Stderr } else { Passthru::No }),
    {
        let mut words: Vec<String> = Vec::new();
        let mut i: usize = 0;
        while i < cmd.len()
            invariant
                i <= cmd.len(),
                words.len() == i,
                forall|k: int|
                    0 <= k < i ==> (#[trigger] words@[k])@ == pieces_of(text::texts(cmd@))[k],
            decreases cmd.len() - i,
        {
            if i == 0 {
                words.push(text::quote_first(cmd[i].as_str()));
            } else {
                words.push(text::quote(cmd[i].as_str()));
            }
            i += 1;
        }
        assert(text::texts(words@) =~= pieces_of(text::texts(cmd@)));
        Cmd {
            script: text::join_with_spaces(&words),
            stdout: Passthru::stdout(passthru),
            stderr: Passthru::stderr(passthru),
        }
    }
}

impl Args {
    /// Whether a command was given.
    pub fn has_cmd(&self) -> (yes: bool)
        ensures
            yes == self@.has_cmd(),
    {
        self.arg_args.len() != 0
    }

    /// What the emails call the command.
    pub fn label(&self) -> (label: String)
        ensures
            label@ == self@.label(),
            label@ == (if self.arg_args@.len() == 0 {
                "<stdin>"@
            } else {
                text::joined(text::texts(self.arg_args@), " "@)
            }),
    {
        if self.has_cmd() {
            text::join_with_spaces(&self.arg_args)
        } else {
            "<stdin>".to_owned()
        }
    }

    /// Where the lines to email come from.
    pub fn source(&self) -> (source: Source)
        ensures
            source@ == self@.source(),
            match source {
                Source::Stdin(mode) => {
                    &&& self.arg_args@.len() == 0
                    &&& mode == (if self.flag_silent { Passthru::No } else { Passthru::Stdout })
                },
                Source::Command(cmd) => {
                    &&& self.arg_args@.len() != 0
                    &&& cmd.script@ == script_of(text::texts(self.arg_args@))
                    &&& cmd.stdout == (if self.flag_silent { Passthru::No } else { Passthru::Stdout })
                    &&& cmd.stderr == (if self.flag_silent { Passthru::No } else { Passthru::Stderr })
                },
            },
    {
        if self.has_cmd() {
            Source::Command(Cmd::run(&self.arg_args, !self.flag_silent))
        } else {
            Source::Stdin(Passthru::stdout(!self.flag_silent))
        }
    }
}

/// The length in milliseconds of a period in seconds.
pub fn period_ms(period: u32) -> (ms: u64)
    ensures
        ms == period * 1000,
{
    period as u64 * 1000
}

impl SourceView {
    /// Whether lines are passed through to this stream.
    pub open spec fn shown_on(self, stream: Stream) -> bool {
        match self {
            SourceView::Stdin(mode) => mode.stream() == Some(stream),
            SourceView::Command { stdout, stderr, .. } => {
                ||| stdout.stream() == Some(stream)
                ||| stderr.stream() == Some(stream)
            },
        }
    }
}

/// A command whose words all mean themselves to the shell, each in its place, is run as it
/// is called.
pub proof fn law_plain_words_are_the_script(args: ArgsView)
    requires
        args.has_cmd(),
        text::is_plain_first(args.words[0]),
        forall|i: int| 0 < i < args.words.len() ==> text::is_plain(#[trigger] args.words[i]),
    ensures
        args.script() == args.label(),
{
    assert(pieces_of(args.words) =~= args.words);
}

/// A silent run passes nothing through to the terminal.  Any other run passes stdin
/// through to stdout, and each output stream of a command to the one of the same name.
pub proof fn law_silent_runs_show_nothing(args: ArgsView)
    ensures
        args.silent ==> forall|stream: Stream| !#[trigger] args.source().shown_on(stream),
        !args.silent ==> match args.source() {
            SourceView::Stdin(mode) => mode.stream() == Some(Stream::Stdout),
            SourceView::Command { stdout, stderr, .. } => {
                &&& stdout.stream() == Some(Stream::Stdout)
                &&& stderr.stream() == Some(Stream::Stderr)
            },
        },
{
}

/// The arguments are seen as they were given, each of them whole.
pub proof fn law_arguments_are_seen_as_given(args: Args)
    ensures
        args@.words.len() == args.arg_args@.len(),
        forall|i: int|
            0 <= i < args.arg_args@.len() ==> #[trigger] args@.words[i] == args.arg_args@[i]@,
        args@.period == args.flag_period,
        args@.silent == args.flag_silent,
        args@.send_all == args.flag_send_all,
        match args.flag_to {
            Some(to) => args@.to == Some(to@),
            None => args@.to is None,
        },
{
}

/// The source of lines is seen as it is.
pub proof fn law_source_is_seen_as_it_is(source: Source)
    ensures
        match source {
            Source::Stdin(mode) => source@ == SourceView::Stdin(mode),
            Source::Command(cmd) => source@ == (SourceView::Command {
                script: cmd.script@,
                stdout: cmd.stdout,
                stderr: cmd.stderr,
            }),
        },
{
}

/// The emails call a command by all of its words, with single spaces between them, and
/// stdin by its name, whatever the flags are.
pub proof fn law_label_is_the_whole_command(args: ArgsView)
    ensures
        args.words.len() == 0 ==> args.label() == "<stdin>"@,
        args.words.len() != 0 ==> args.label() == text::joined(args.words, " "@),
        args.has_cmd() <==> args.words.len() != 0,
{
}

/// Each word has its own piece in a script, the first one as the first and the others as
/// others, and the pieces are separated by single spaces.
pub proof fn law_script_is_made_of_all_words(words: Seq<Seq<char>>, word: Seq<char>)
    ensures
        script_of(seq![word]) == text::quoted_first(word),
        words.len() > 0 ==> script_of(words.push(word)) == script_of(words) + " "@ + text::quoted(
            word,
        ),
{
    assert(pieces_of(seq![word]) =~= seq![text::quoted_first(word)]);
    if words.len() > 0 {
        let pieces = pieces_of(words.push(word));
        assert(pieces.drop_last() =~= pieces_of(words));
    }
}

} // verus!
