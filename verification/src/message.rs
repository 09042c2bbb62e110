//! The email that is handed to `sendmail`, and what `sendmail` makes of it.

use vstd::prelude::*;

use crate::error::{ErrorKind, IoError};
use crate::text;

verus! {

/// The most characters of a command that the subject shows.
pub const SUBJECT_CHARS: usize = 50;

/// The width of the line that sets the command apart from its output.
pub const SEPARATOR_WIDTH: usize = 79;

/// What the subject shows of a command: all of it, or as much as fits.
pub open spec fn subject(cmd: Seq<char>) -> Seq<char> {
    if cmd.len() <= SUBJECT_CHARS {
        cmd
    } else {
        cmd.take(SUBJECT_CHARS as int)
    }
}

/// The line that sets the command apart from its output.
pub open spec fn separator() -> Seq<char> {
    Seq::new(SEPARATOR_WIDTH as nat, |i: int| '-')
}

/// The headers, with the empty line that ends them.
pub open spec fn headers(cmd: Seq<char>, email: Seq<char>) -> Seq<char> {
    text::written(
        seq![
            "Subject: [cmail] "@ + subject(cmd),
            "From: "@ + email,
            "To: "@ + email,
            Seq::empty(),
        ],
    )
}

/// What makes it clear which command is being run.
pub open spec fn banner(cmd: Seq<char>) -> Seq<char> {
    text::written(seq![separator(), cmd, separator()])
}

/// The whole text of the email on `cmd` that carries `lines` to `email`.
pub open spec fn message(cmd: Seq<char>, email: Seq<char>, lines: Seq<Seq<char>>) -> Seq<char> {
    headers(cmd, email) + banner(cmd) + text::written(lines)
}

/// The first characters of `cmd`, for the subject.
fn subject_of(cmd: &str) -> (text: &str)
    ensures
        text@ == subject(cmd@),
{
    let len = cmd.unicode_len();
    if len <= SUBJECT_CHARS {
        cmd
    } else {
        let text = cmd.substring_char(0, SUBJECT_CHARS);
        assert(text@ =~= cmd@.take(SUBJECT_CHARS as int));
        text
    }
}

/// The separator line.
fn separator_line() -> (line: String)
    ensures
        line@ == separator(),
{
    let mut line = String::new();
    let mut i: usize = 0;
    while i < SEPARATOR_WIDTH
        invariant
            i <= SEPARATOR_WIDTH,
            line@ == Seq::new(i as nat, |k: int| '-'),
        decreases SEPARATOR_WIDTH - i,
    {
        line.append("-");
        proof {
            reveal_strlit("-");
            assert(line@ =~= Seq::new((i + 1) as nat, |k: int| '-'));
        }
        i += 1;
    }
    line
}

/// Composes the email on the command `cmd` that carries `lines` to `email`.
pub fn email_lines(cmd: &str, email: &str, lines: &Vec<String>) -> (text: String)
    ensures
        text@ == message(cmd@, email@, text::texts(lines@)),
{
    let mut subject_line = "Subject: [cmail] ".to_owned();
    subject_line.append(subject_of(cmd));
    let mut from_line = "From: ".to_owned();
    from_line.append(email);
    let mut to_line = "To: ".to_owned();
    to_line.append(email);
    let sep = separator_line();

    let mut text = String::new();
    text::append_line(&mut text, subject_line.as_str());
    text::append_line(&mut text, from_line.as_str());
    text::append_line(&mut text, to_line.as_str());
    text::append_line(&mut text, "");
    text::append_line(&mut text, sep.as_str());
    text::append_line(&mut text, cmd);
    text::append_line(&mut text, sep.as_str());
    proof {
        reveal_strlit("");
        assert(""@ =~= Seq::<char>::empty());
        lemma_written_head(subject_line@, from_line@, to_line@, Seq::empty());
        lemma_written_three(sep@, cmd@, sep@);
        assert(text@ =~= headers(cmd@, email@) + banner(cmd@));
    }
    let ghost head = text@;
    let mut i: usize = 0;
    assert(text::written(text::texts(lines@).take(0)) =~= Seq::empty());
    while i < lines.len()
        invariant
            i <= lines.len(),
            text@ == head + text::written(text::texts(lines@).take(i as int)),
        decreases lines.len() - i,
    {
        text::append_line(&mut text, lines[i].as_str());
        proof {
            let before = text::texts(lines@).take(i as int);
            let line = lines@[i as int]@;
            text::lemma_written_push(before, line);
            assert(text::texts(lines@).take(i + 1) =~= before.push(line));
            assert(text@ =~= head + text::written(before.push(line)));
        }
        i += 1;
    }
    assert(text::texts(lines@).take(i as int) =~= text::texts(lines@));
    text
}

/// What the end of `sendmail` says about the email: whether it succeeded, the exit
/// code it gave, if it gave one, and the text that describes its exit status.
///
/// Without an exit code the process was killed by a signal.  In typical usage that
/// means that the user pressed ^C, so the failure counts as an interruption.
pub fn email_status(success: bool, code: Option<i32>, status: String) -> (result: Result<(), IoError>)
    ensures
        success <==> result is Ok,
        !success ==> match code {
            None => {
                &&& result->Err_0.kind == ErrorKind::Interrupted
                &&& result->Err_0.message@ == "email send interrupted"@
            },
            Some(_) => {
                &&& result->Err_0.kind == ErrorKind::Other
                &&& result->Err_0.message == status
            },
        },
{
    if success {
        Ok(())
    } else {
        match code {
            None => Err(
                IoError {
                    kind: ErrorKind::Interrupted,
                    message: "email send interrupted".to_owned(),
                },
            ),
            Some(_) => Err(IoError { kind: ErrorKind::Other, message: status }),
        }
    }
}

proof fn lemma_written_three(a: Seq<char>, b: Seq<char>, c: Seq<char>)
    ensures
        text::written(seq![a, b, c]) == text::terminated(a) + text::terminated(b) + text::terminated(c),
{
    assert(text::written(seq![a, b, c]) =~= text::terminated(a) + text::terminated(b) + text::terminated(c)) by {
        text::lemma_written_push(Seq::empty(), a);
        text::lemma_written_push(seq![a], b);
        text::lemma_written_push(seq![a, b], c);
        assert(Seq::<Seq<char>>::empty().push(a) =~= seq![a]);
        assert(seq![a].push(b) =~= seq![a, b]);
        assert(seq![a, b].push(c) =~= seq![a, b, c]);
    }
}

proof fn lemma_written_head(a: Seq<char>, b: Seq<char>, c: Seq<char>, d: Seq<char>)
    ensures
        text::written(seq![a, b, c, d]) == text::terminated(a) + text::terminated(b) + text::terminated(c) + text::terminated(d),
{
    lemma_written_three(a, b, c);
    text::lemma_written_push(seq![a, b, c], d);
    assert(seq![a, b, c].push(d) =~= seq![a, b, c, d]);
}

/// The subject never shows more than its limit, and shows a command that fits whole.
pub proof fn law_subject_is_a_bounded_prefix(cmd: Seq<char>)
    ensures
        subject(cmd).len() <= SUBJECT_CHARS,
        subject(cmd).is_prefix_of(cmd),
        cmd.len() <= SUBJECT_CHARS ==> subject(cmd) == cmd,
        cmd.len() >= SUBJECT_CHARS ==> subject(cmd).len() == SUBJECT_CHARS,
{
}

/// An email on more lines is the email on the first of them, with the rest written
/// after it: every line stands in it, whole and in order.
pub proof fn law_message_carries_every_line(
    cmd: Seq<char>,
    email: Seq<char>,
    first: Seq<Seq<char>>,
    rest: Seq<Seq<char>>,
)
    ensures
        message(cmd, email, first + rest) == message(cmd, email, first) + text::written(rest),
{
    text::lemma_written_add(first, rest);
    assert(message(cmd, email, first + rest) =~= message(cmd, email, first) + text::written(rest));
}

/// Every email is, line by line: the subject, with the first fifty characters of the
/// command; the whole address, twice; an empty line; the whole command between two lines of
/// seventy-nine dashes; and then each of the lines.
pub proof fn law_message_line_by_line(cmd: Seq<char>, email: Seq<char>, lines: Seq<Seq<char>>)
    ensures
        message(cmd, email, lines) == text::written(
            seq![
                "Subject: [cmail] "@ + (if cmd.len() <= 50 {
                    cmd
                } else {
                    cmd.subrange(0, 50)
                }),
                "From: "@ + email,
                "To: "@ + email,
                Seq::empty(),
                Seq::new(79, |i: int| '-'),
                cmd,
                Seq::new(79, |i: int| '-'),
            ] + lines,
        ),
{
    let dashes = Seq::new(79, |i: int| '-');
    let head = seq![
        "Subject: [cmail] "@ + subject(cmd),
        "From: "@ + email,
        "To: "@ + email,
        Seq::empty(),
    ];
    let middle = seq![dashes, cmd, dashes];
    assert(separator() =~= dashes);
    text::lemma_written_add(head, middle);
    text::lemma_written_add(head + middle, lines);
    assert(head + middle =~= seq![
        "Subject: [cmail] "@ + subject(cmd),
        "From: "@ + email,
        "To: "@ + email,
        Seq::empty(),
        dashes,
        cmd,
        dashes,
    ]);
    assert(subject(cmd) =~= (if cmd.len() <= 50 {
        cmd
    } else {
        cmd.subrange(0, 50)
    }));
}

} // verus!
