//! The email sender: what each email carries, and when sending is tried again.

use vstd::prelude::*;

use crate::error::{ErrorKind, IoError};
use crate::message;
use crate::text;

verus! {

/// What follows an attempt to send an email.
#[derive(Debug, PartialEq, Eq)]
pub enum Retry {
    /// Send the same email once more.
    Again,
    /// Sending is over, with this result.
    Done(Result<bool, IoError>),
}

/// What follows an attempt with this outcome, where `retried` says that it was the
/// second one.
pub open spec fn retry(retried: bool, outcome: Result<(), IoError>) -> Retry {
    match outcome {
        Ok(()) => Retry::Done(Ok(retried)),
        Err(e) => if !retried && e.kind == ErrorKind::Interrupted {
            Retry::Again
        } else {
            Retry::Done(Err(e))
        },
    }
}

/// Decides what follows an attempt to send an email.
///
/// If the first attempt was interrupted, then sending is tried exactly once more.
/// This is to permit the use of ^C in the terminal: the intended effect is to stop
/// the running process and email whatever has been accumulated, but if `sendmail`
/// is running when ^C is sent, then it fails and no mail is sent.  If the second
/// attempt fails for any reason, its error is the result, which lets the user slam
/// on ^C twice in a row to really quit.
///
/// If a retry occurred, then `true` is given inside the result.  Otherwise `false`.
pub fn email_lines_retry(retried: bool, outcome: Result<(), IoError>) -> (next: Retry)
    ensures
        next == retry(retried, outcome),
{
    match outcome {
        Ok(()) => Retry::Done(Ok(retried)),
        Err(e) => {
            if !retried && e.kind == ErrorKind::Interrupted {
                Retry::Again
            } else {
                Retry::Done(Err(e))
            }
        },
    }
}

/// Where the sender stands with the email at hand.
#[derive(Clone, Copy, Debug, PartialEq, Eq, Structural)]
pub enum Attempt {
    /// No email is being sent.
    Idle,
    /// The email is being sent for the first time.
    First,
    /// The email is being sent again, after an interruption.
    Second,
    /// The email is being sent, and will not be sent again.
    Only,
}

/// The state of an email sender.
#[verifier::ext_equal]
pub struct SenderView {
    /// The command that the emails are on.
    pub cmd: Seq<char>,
    /// The address that they go to.
    pub email: Seq<char>,
    /// Whether each email carries all lines so far, or those of one batch.
    pub send_all: bool,
    /// The lines of the latest email.
    pub to_send: Seq<Seq<char>>,
    /// Whether sending was ever interrupted.
    pub interrupted: bool,
    /// What is being done about the latest email.
    pub attempt: Attempt,
}

/// What comes of an attempt, over the text of the email.
#[verifier::ext_equal]
pub enum ProgressView {
    Again(Seq<char>),
    Finished(Result<bool, IoError>),
}

/// The single line of an email that has nothing to report.
pub open spec fn no_output() -> Seq<Seq<char>> {
    seq!["No output."@]
}

/// The lines of the email on a batch, where the email before it carried `earlier`.
pub open spec fn body(
    send_all: bool,
    earlier: Seq<Seq<char>>,
    batch: Seq<Seq<char>>,
) -> Seq<Seq<char>> {
    if send_all {
        earlier + batch
    } else if batch.len() == 0 {
        no_output()
    } else {
        batch
    }
}

impl SenderView {
    /// A sender that has not sent anything.
    pub open spec fn fresh(cmd: Seq<char>, email: Seq<char>, send_all: bool) -> SenderView {
        SenderView {
            cmd,
            email,
            send_all,
            to_send: Seq::empty(),
            interrupted: false,
            attempt: Attempt::Idle,
        }
    }

    /// A sender that was interrupted makes a single attempt at each email.
    pub open spec fn inv(self) -> bool {
        match self.attempt {
            Attempt::Idle => true,
            Attempt::First | Attempt::Second => !self.interrupted,
            Attempt::Only => self.interrupted,
        }
    }

    /// The text of the latest email.
    pub open spec fn message(self) -> Seq<char> {
        message::message(self.cmd, self.email, self.to_send)
    }

    /// The sender as it sets out to send a batch.
    pub open spec fn send(self, batch: Seq<Seq<char>>) -> SenderView {
        SenderView {
            to_send: body(self.send_all, self.to_send, batch),
            attempt: if self.interrupted { Attempt::Only } else { Attempt::First },
            ..self
        }
    }

    /// The sender after an attempt, and what comes of it.
    pub open spec fn attempted(self, outcome: Result<(), IoError>) -> (SenderView, ProgressView) {
        let idle = SenderView { attempt: Attempt::Idle, ..self };
        if self.attempt == Attempt::Only {
            let result = match outcome {
                Ok(()) => Ok(true),
                Err(e) => Err(e),
            };
            (idle, ProgressView::Finished(result))
        } else {
            match retry(self.attempt == Attempt::Second, outcome) {
                Retry::Again => (
                    SenderView { attempt: Attempt::Second, ..self },
                    ProgressView::Again(self.message()),
                ),
                Retry::Done(result) => (
                    SenderView { interrupted: result == Ok::<bool, IoError>(true), ..idle },
                    ProgressView::Finished(result),
                ),
            }
        }
    }
}

/// What comes of an attempt to send an email.
#[derive(Debug, PartialEq, Eq)]
pub enum Progress {
    /// Hand this text to `sendmail` once more.
    Again(String),
    /// The batch is dealt with.  On success the result says whether an interrupt
    /// occurred, on this email or an earlier one.
    Finished(Result<bool, IoError>),
}

impl View for Progress {
    type V = ProgressView;

    open spec fn view(&self) -> ProgressView {
        match self {
            Progress::Again(text) => ProgressView::Again(text@),
            Progress::Finished(result) => ProgressView::Finished(*result),
        }
    }
}

/// The last email of a run and the exit code that the run ends with.
#[derive(Debug, PartialEq, Eq)]
pub struct LastEmail {
    pub lines: Vec<String>,
    pub code: i32,
}

/// Whether a run counts as interrupted: something was killed, or the command, where
/// there is one, did not exit successfully.
pub open spec fn was_interrupted(exit: Option<bool>, killed: bool) -> bool {
    killed || exit == Some(false)
}

/// The lines that end the last email of a run.
pub open spec fn footer(interrupted: bool) -> Seq<Seq<char>> {
    seq![
        ""@,
        ""@,
        if interrupted {
            "Program interrupted."@
        } else {
            "Program completed successfully."@
        },
    ]
}

/// The exit code of a run that completed.
pub open spec fn exit_code(killed: bool) -> i32 {
    if killed { 1 } else { 0 }
}

/// An email sender turns batches of lines into emails, one at a time.
#[derive(Debug)]
pub struct EmailSender {
    cmd: String,
    email: String,
    send_all: bool,
    to_send: Vec<String>,
    interrupted: bool,
    attempt: Attempt,
}

impl View for EmailSender {
    type V = SenderView;

    closed spec fn view(&self) -> SenderView {
        SenderView {
            cmd: self.cmd@,
            email: self.email@,
            send_all: self.send_all,
            to_send: text::texts(self.to_send@),
            interrupted: self.interrupted,
            attempt: self.attempt,
        }
    }
}

impl EmailSender {
    /// Creates an email sender for the output of `cmd`, which writes to `email`.
    ///
    /// If `send_all` is true, then each email carries every line so far.
    pub fn run(cmd: String, email: String, send_all: bool) -> (sender: EmailSender)
        ensures
            sender@ == SenderView::fresh(cmd@, email@, send_all),
            sender@.inv(),
    {
        let sender = EmailSender {
            cmd,
            email,
            send_all,
            to_send: Vec::new(),
            interrupted: false,
            attempt: Attempt::Idle,
        };
        assert(sender@.to_send =~= Seq::empty());
        sender
    }

    /// Whether the sender is ready for the next batch.
    pub fn is_idle(&self) -> (idle: bool)
        ensures
            idle == (self@.attempt == Attempt::Idle),
    {
        self.attempt == Attempt::Idle
    }

    /// Takes up a batch of lines and gives the email to hand to `sendmail`.
    pub fn send(&mut self, lines: Vec<String>) -> (email: String)
        requires
            old(self)@.attempt == Attempt::Idle,
        ensures
            final(self)@ == old(self)@.send(text::texts(lines@)),
            email@ == final(self)@.message(),
            email@ == message::message(
                old(self)@.cmd,
                old(self)@.email,
                if old(self)@.send_all {
                    old(self)@.to_send + text::texts(lines@)
                } else if lines@.len() == 0 {
                    seq!["No output."@]
                } else {
                    text::texts(lines@)
                },
            ),
            final(self)@.inv(),
    {
        let ghost batch = text::texts(lines@);
        if self.send_all {
            let mut more = lines;
            self.to_send.append(&mut more);
            assert(text::texts(self.to_send@) =~= text::texts(old(self).to_send@) + batch);
        } else if lines.len() == 0 {
            let mut nothing: Vec<String> = Vec::new();
            nothing.push("No output.".to_owned());
            assert(text::texts(nothing@) =~= no_output());
            self.to_send = nothing;
        } else {
            self.to_send = lines;
        }
        self.attempt = if self.interrupted { Attempt::Only } else { Attempt::First };
        message::email_lines(self.cmd.as_str(), self.email.as_str(), &self.to_send)
    }

    /// Takes the outcome of an attempt to send the email at hand and decides what
    /// comes next.
    ///
    /// Once sending was interrupted, an email gets a single attempt, and every email
    /// that goes out reports the interruption.
    pub fn attempted(&mut self, outcome: Result<(), IoError>) -> (progress: Progress)
        requires
            old(self)@.attempt != Attempt::Idle,
        ensures
            (final(self)@, progress@) == old(self)@.attempted(outcome),
            match progress {
                Progress::Again(same) => {
                    &&& same@ == message::message(
                        old(self)@.cmd,
                        old(self)@.email,
                        old(self)@.to_send,
                    )
                    &&& old(self)@.attempt == Attempt::First
                    &&& outcome is Err && outcome->Err_0.kind == ErrorKind::Interrupted
                },
                Progress::Finished(Ok(interrupted)) => {
                    &&& outcome is Ok
                    &&& interrupted == (old(self)@.attempt != Attempt::First)
                },
                Progress::Finished(Err(e)) => outcome == Err::<(), IoError>(e),
            },
            old(self)@.inv() ==> final(self)@.inv(),
    {
        if self.attempt == Attempt::Only {
            self.attempt = Attempt::Idle;
            match outcome {
                Ok(()) => Progress::Finished(Ok(true)),
                Err(e) => Progress::Finished(Err(e)),
            }
        } else {
            match email_lines_retry(self.attempt == Attempt::Second, outcome) {
                Retry::Again => {
                    self.attempt = Attempt::Second;
                    Progress::Again(
                        message::email_lines(self.cmd.as_str(), self.email.as_str(), &self.to_send),
                    )
                },
                Retry::Done(result) => {
                    self.attempt = Attempt::Idle;
                    self.interrupted = match &result {
                        Ok(b) => *b,
                        Err(_) => false,
                    };
                    Progress::Finished(result)
                },
            }
        }
    }

    /// Completes the last batch of a run and decides the exit code.
    ///
    /// `exit` says whether the command exited successfully; it is `None` where lines
    /// are read from stdin.  `killed` says whether any of the child processes was
    /// killed by a signal.  When `killed` is true, the exit code is non-zero.
    /// Otherwise it is zero.
    pub fn last_send(exit: Option<bool>, lines: Vec<String>, killed: bool) -> (last: LastEmail)
        ensures
            text::texts(last.lines@) == text::texts(lines@) + footer(was_interrupted(exit, killed)),
            last.code == exit_code(killed),
            text::texts(last.lines@) == text::texts(lines@) + seq![
                ""@,
                ""@,
                if killed || exit == Some(false) {
                    "Program interrupted."@
                } else {
                    "Program completed successfully."@
                },
            ],
            last.code == (if killed { 1int } else { 0int }),
    {
        let interrupted: bool = match exit {
            None => killed,
            Some(success) => !success || killed,
        };
        let mut all = lines;
        all.push("".to_owned());
        all.push("".to_owned());
        if interrupted {
            all.push("Program interrupted.".to_owned());
        } else {
            all.push("Program completed successfully.".to_owned());
        }
        assert(text::texts(all@) =~= text::texts(lines@) + footer(interrupted));
        LastEmail { lines: all, code: if killed { 1 } else { 0 } }
    }
}

/// Something that is done to a sender.
pub enum SenderOp {
    /// It is given a batch.
    Send(Seq<Seq<char>>),
    /// It is told the outcome of an attempt.
    Attempted(Result<(), IoError>),
}

impl SenderView {
    /// The sender after all of this was done to it.
    pub open spec fn after(self, ops: Seq<SenderOp>) -> SenderView
        decreases ops.len(),
    {
        if ops.len() == 0 {
            self
        } else {
            let before = self.after(ops.drop_last());
            match ops.last() {
                SenderOp::Send(batch) => before.send(batch),
                SenderOp::Attempted(outcome) => before.attempted(outcome).0,
            }
        }
    }

    /// Whether batches come one at a time, and outcomes only of attempts under way.
    pub open spec fn possible(self, ops: Seq<SenderOp>) -> bool
        decreases ops.len(),
    {
        ops.len() == 0 || {
            &&& self.possible(ops.drop_last())
            &&& ops.last() is Send <==> self.after(ops.drop_last()).attempt == Attempt::Idle
        }
    }
}

/// The batches that a sender is given.
pub open spec fn batches_given(ops: Seq<SenderOp>) -> Seq<Seq<Seq<char>>>
    decreases ops.len(),
{
    if ops.len() == 0 {
        Seq::empty()
    } else {
        match ops.last() {
            SenderOp::Send(batch) => batches_given(ops.drop_last()).push(batch),
            SenderOp::Attempted(_) => batches_given(ops.drop_last()),
        }
    }
}

/// A sender that sends everything carries in each email all lines of all batches so
/// far, in order.
pub proof fn law_send_all_carries_every_batch(cmd: Seq<char>, email: Seq<char>, ops: Seq<SenderOp>)
    ensures
        SenderView::fresh(cmd, email, true).after(ops).to_send == batches_given(ops).flatten(),
        SenderView::fresh(cmd, email, true).after(ops).send_all,
    decreases ops.len(),
{
    let fresh = SenderView::fresh(cmd, email, true);
    if ops.len() == 0 {
        assert(fresh.to_send =~= batches_given(ops).flatten());
    } else {
        law_send_all_carries_every_batch(cmd, email, ops.drop_last());
        if let SenderOp::Send(batch) = ops.last() {
            batches_given(ops.drop_last()).lemma_flatten_push(batch);
        }
    }
}

/// Otherwise each email carries the latest batch alone, or says that there was no
/// output; it is never without a line.
pub proof fn law_an_email_carries_its_batch(cmd: Seq<char>, email: Seq<char>, ops: Seq<SenderOp>)
    requires
        batches_given(ops).len() > 0,
    ensures
        ({
            let sent = SenderView::fresh(cmd, email, false).after(ops).to_send;
            let batch = batches_given(ops).last();
            &&& batch.len() > 0 ==> sent == batch
            &&& batch.len() == 0 ==> sent == no_output()
            &&& sent.len() > 0
        }),
    decreases ops.len(),
{
    law_address_is_kept(SenderView::fresh(cmd, email, false), ops.drop_last());
    if ops.last() is Attempted {
        law_an_email_carries_its_batch(cmd, email, ops.drop_last());
    }
}

/// Whatever is done to a sender, its emails are on the same command and go to the same
/// address.
pub proof fn law_address_is_kept(sender: SenderView, ops: Seq<SenderOp>)
    ensures
        sender.after(ops).cmd == sender.cmd,
        sender.after(ops).email == sender.email,
        sender.after(ops).send_all == sender.send_all,
    decreases ops.len(),
{
    if ops.len() > 0 {
        law_address_is_kept(sender, ops.drop_last());
    }
}

/// An email whose sending is interrupted is sent once more, exactly once, and unchanged;
/// any other outcome ends the matter.  The result is `true` exactly where a retry
/// occurred and went well.
pub proof fn law_retried_exactly_once(
    sender: SenderView,
    batch: Seq<Seq<char>>,
    first: Result<(), IoError>,
    second: Result<(), IoError>,
)
    requires
        !sender.interrupted,
    ensures
        ({
            let sending = sender.send(batch);
            let (then, progress) = sending.attempted(first);
            let (end, result) = then.attempted(second);
            match first {
                Ok(()) => progress == ProgressView::Finished(Ok(false)) && !then.interrupted,
                Err(e) => if e.kind == ErrorKind::Interrupted {
                    &&& progress == ProgressView::Again(sending.message())
                    &&& result == ProgressView::Finished(
                        match second {
                            Ok(()) => Ok(true),
                            Err(e2) => Err(e2),
                        },
                    )
                    &&& end.attempt == Attempt::Idle
                    &&& end.interrupted == second is Ok
                } else {
                    &&& progress == ProgressView::Finished(Err(e))
                    &&& then.attempt == Attempt::Idle
                    &&& !then.interrupted
                },
            }
        }),
{
}

/// Once sending was interrupted, every email gets a single attempt, and each one that
/// goes out reports the interruption.
pub proof fn law_interruption_is_remembered(sender: SenderView, ops: Seq<SenderOp>)
    requires
        sender.interrupted,
        sender.inv(),
        sender.possible(ops),
    ensures
        sender.after(ops).interrupted,
        sender.after(ops).inv(),
        forall|outcome: Result<(), IoError>|
            sender.after(ops).attempt != Attempt::Idle ==> (#[trigger] sender.after(ops).attempted(
                outcome,
            )).1 == ProgressView::Finished(
                match outcome {
                    Ok(()) => Ok(true),
                    Err(e) => Err(e),
                },
            ),
    decreases ops.len(),
{
    if ops.len() > 0 {
        law_interruption_is_remembered(sender, ops.drop_last());
    }
}

/// A result that reports success says whether sending was ever interrupted.
pub proof fn law_result_reports_interruption(sender: SenderView, outcome: Result<(), IoError>)
    requires
        sender.inv(),
        sender.attempt != Attempt::Idle,
    ensures
        forall|interrupted: bool|
            sender.attempted(outcome).1 == ProgressView::Finished(Ok(interrupted)) ==> interrupted
                == sender.attempted(outcome).0.interrupted,
        sender.interrupted ==> sender.attempted(outcome).0.interrupted,
{
}

/// A new sender has its command, its address and its flag, and nothing to send.
pub proof fn law_a_new_sender_is_as_asked_for(cmd: Seq<char>, email: Seq<char>, send_all: bool)
    ensures
        ({
            let sender = SenderView::fresh(cmd, email, send_all);
            &&& sender.cmd == cmd
            &&& sender.email == email
            &&& sender.send_all == send_all
            &&& sender.to_send.len() == 0
            &&& !sender.interrupted
            &&& sender.attempt == Attempt::Idle
        }),
{
}

/// What is handed to `sendmail` is the email on the sender's command, to its address, with
/// every line that it has to send.
pub proof fn law_an_email_carries_every_line_to_send(sender: SenderView)
    ensures
        sender.message() == text::written(
            seq![
                "Subject: [cmail] "@ + (if sender.cmd.len() <= 50 {
                    sender.cmd
                } else {
                    sender.cmd.subrange(0, 50)
                }),
                "From: "@ + sender.email,
                "To: "@ + sender.email,
                Seq::empty(),
                Seq::new(79, |i: int| '-'),
                sender.cmd,
                Seq::new(79, |i: int| '-'),
            ] + sender.to_send,
        ),
{
    message::law_message_line_by_line(sender.cmd, sender.email, sender.to_send);
}

/// Whatever a sender has sent before, a batch makes its next email: behind all earlier
/// lines where everything is sent, alone otherwise.  The rest of the sender stays as it is.
pub proof fn law_every_batch_makes_an_email(sender: SenderView, batch: Seq<Seq<char>>)
    ensures
        ({
            let sending = sender.send(batch);
            &&& sender.send_all ==> sending.to_send == sender.to_send + batch
            &&& !sender.send_all && batch.len() > 0 ==> sending.to_send == batch
            &&& !sender.send_all && batch.len() == 0 ==> sending.to_send == seq!["No output."@]
            &&& sender.interrupted ==> sending.attempt == Attempt::Only
            &&& !sender.interrupted ==> sending.attempt == Attempt::First
            &&& sending.cmd == sender.cmd
            &&& sending.email == sender.email
            &&& sending.send_all == sender.send_all
            &&& sending.interrupted == sender.interrupted
        }),
{
}

/// An attempt changes nothing of the email.  It is followed by another one exactly where it
/// was the first and was interrupted; otherwise its outcome is the result, and success is
/// reported together with whether sending was ever interrupted.
pub proof fn law_every_attempt_has_its_outcome(sender: SenderView, outcome: Result<(), IoError>)
    requires
        sender.attempt != Attempt::Idle,
    ensures
        ({
            let (then, progress) = sender.attempted(outcome);
            &&& then.cmd == sender.cmd
            &&& then.email == sender.email
            &&& then.send_all == sender.send_all
            &&& then.to_send == sender.to_send
            &&& match outcome {
                Ok(()) => {
                    &&& progress == ProgressView::Finished(Ok(sender.attempt != Attempt::First))
                    &&& then.attempt == Attempt::Idle
                    &&& then.interrupted == (sender.attempt == Attempt::Second || (sender.attempt
                        == Attempt::Only && sender.interrupted))
                },
                Err(e) => if sender.attempt == Attempt::First && e.kind == ErrorKind::Interrupted {
                    &&& progress == ProgressView::Again(sender.message())
                    &&& then.attempt == Attempt::Second
                    &&& then.interrupted == sender.interrupted
                } else {
                    &&& progress == ProgressView::Finished(Err(e))
                    &&& then.attempt == Attempt::Idle
                    &&& then.interrupted == (sender.attempt == Attempt::Only && sender.interrupted)
                },
            }
        }),
{
}

/// A first attempt is repeated exactly where it was interrupted; a second one is not.
pub proof fn law_retry(retried: bool, outcome: Result<(), IoError>)
    ensures
        outcome is Ok ==> retry(retried, outcome) == Retry::Done(Ok(retried)),
        outcome is Err && !retried && outcome->Err_0.kind == ErrorKind::Interrupted ==> retry(
            retried,
            outcome,
        ) == Retry::Again,
        outcome is Err && (retried || outcome->Err_0.kind != ErrorKind::Interrupted) ==> retry(
            retried,
            outcome,
        ) == Retry::Done(Err(outcome->Err_0)),
{
}

/// What comes of an attempt is seen as it is.
pub proof fn law_progress_is_seen_as_it_is(progress: Progress)
    ensures
        match progress {
            Progress::Again(text) => progress@ == ProgressView::Again(text@),
            Progress::Finished(result) => progress@ == ProgressView::Finished(result),
        },
{
}

/// The last email says that the program was interrupted where something was killed or the
/// command failed, and that it completed otherwise.  Only a kill makes the exit code
/// non-zero.
pub proof fn law_last_lines_and_exit_code(exit: Option<bool>, killed: bool)
    ensures
        footer(was_interrupted(exit, killed)) == seq![
            ""@,
            ""@,
            if killed || exit == Some(false) {
                "Program interrupted."@
            } else {
                "Program completed successfully."@
            },
        ],
        exit_code(killed) == (if killed { 1int } else { 0int }),
{
}

} // verus!
