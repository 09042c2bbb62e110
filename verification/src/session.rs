//! A run of `cmail`, from its start to its exit code, as a state machine.
//!
//! [`run`] begins a run.  It and [`Session::step`] give the action to perform next;
//! what comes of the action, or what happens while the run listens, is handed to the
//! next call of [`Session::step`].

use vstd::prelude::*;

use crate::args::{Args, ArgsView, Source, SourceView};
use crate::error::{IoError, RunError};
use crate::sender;
use crate::sender::EmailSender;
use crate::text;

verus! {

/// What a run is waiting for.
#[derive(Clone, Copy, Debug, PartialEq, Eq, Structural)]
pub enum Phase {
    /// The source of lines to start.
    Starting,
    /// The address that the environment gives.
    Addressing,
    /// A signal, a tick or a line.
    Listening,
    /// The command to be killed and reaped.
    Killing,
    /// A batch of lines to be emailed.
    Sending,
    /// The command to exit.
    Waiting,
    /// The last batch of lines to be emailed, after which the run exits with `code`.
    LastSending { code: i32 },
    /// The email sender to shut down, after which the run exits with `code`.
    Closing { code: i32 },
    /// Nothing: the run is over.
    Finished,
}

/// Something that happens to a run.
#[derive(Debug, PartialEq, Eq)]
pub enum Event {
    /// The source of lines was started, or could not be.
    Started(Result<(), IoError>),
    /// The environment was asked for an address.
    Address(Option<String>),
    /// A signal of the system asks to quit.
    Signal,
    /// The period is over.
    Tick,
    /// A line was read, or could not be.
    Line(Result<String, IoError>),
    /// There are no more lines.
    Eof,
    /// The command was reaped; on success, whether it exited successfully.
    Reaped(Result<bool, IoError>),
    /// A batch was dealt with; on success, whether an interrupt occurred.
    Sent(Result<bool, IoError>),
    /// The email sender has shut down.
    Closed,
}

/// Something for the program around a run to do.
#[derive(Debug, PartialEq, Eq)]
pub enum Action {
    /// Start reading lines; answered by `Started`.
    Start(Source),
    /// Look up the address that the environment gives; answered by `Address`.
    LookUpAddress,
    /// Start the email sender, start the ticker, then listen.
    Open { cmd: String, email: String, send_all: bool, period: u32 },
    /// Listen for `Signal`, `Tick`, `Line` and `Eof`.
    Listen,
    /// Ask the command to quit and wait until it is reaped; answered by `Reaped`.
    Kill,
    /// Wait until the command is reaped; answered by `Reaped`.
    Wait,
    /// Email these lines; answered by `Sent`.
    Send(Vec<String>),
    /// Shut the email sender down; answered by `Closed`.
    Close,
    /// The run is over, with this exit code.
    Exit(i32),
    /// The run is over, with this error.
    Fail(RunError),
}

/// Something for the program around a run to do, over texts.
#[verifier::ext_equal]
pub enum ActionView {
    Start(SourceView),
    LookUpAddress,
    Open { cmd: Seq<char>, email: Seq<char>, send_all: bool, period: u32 },
    Listen,
    Kill,
    Wait,
    Send(Seq<Seq<char>>),
    Close,
    Exit(i32),
    Fail(RunError),
}

impl View for Action {
    type V = ActionView;

    open spec fn view(&self) -> ActionView {
        match self {
            Action::Start(source) => ActionView::Start(source@),
            Action::LookUpAddress => ActionView::LookUpAddress,
            Action::Open { cmd, email, send_all, period } => ActionView::Open {
                cmd: cmd@,
                email: email@,
                send_all: *send_all,
                period: *period,
            },
            Action::Listen => ActionView::Listen,
            Action::Kill => ActionView::Kill,
            Action::Wait => ActionView::Wait,
            Action::Send(lines) => ActionView::Send(text::texts(lines@)),
            Action::Close => ActionView::Close,
            Action::Exit(code) => ActionView::Exit(*code),
            Action::Fail(e) => ActionView::Fail(*e),
        }
    }
}

/// The state of a run.
#[verifier::ext_equal]
pub struct SessionView {
    /// What the command line asked for.
    pub args: ArgsView,
    /// Whether a graceful shutdown has begun.
    pub killed: bool,
    /// The lines read since the latest email.
    pub outlines: Seq<Seq<char>>,
    /// What the run is waiting for.
    pub phase: Phase,
}

impl SessionView {
    /// The state that a run begins in.
    pub open spec fn fresh(args: ArgsView) -> SessionView {
        SessionView { args, killed: false, outlines: Seq::empty(), phase: Phase::Starting }
    }

    /// A command is only killed and reaped where there is one, and no batch but the
    /// last one is emailed once a shutdown has begun.
    pub open spec fn inv(self) -> bool {
        match self.phase {
            Phase::Starting | Phase::Addressing => !self.killed && self.outlines.len() == 0,
            Phase::Listening | Phase::Finished => true,
            Phase::Killing => self.killed && self.args.has_cmd(),
            Phase::Sending => !self.killed && self.outlines.len() == 0,
            Phase::Waiting => self.args.has_cmd(),
            Phase::LastSending { code } | Phase::Closing { code } => {
                &&& code == sender::exit_code(self.killed)
                &&& self.outlines.len() == 0
            },
        }
    }

    /// Whether the event answers what the run is waiting for.
    pub open spec fn expects(self, event: Event) -> bool {
        match event {
            Event::Started(_) => self.phase == Phase::Starting,
            Event::Address(_) => self.phase == Phase::Addressing,
            Event::Signal | Event::Line(_) | Event::Eof => self.phase == Phase::Listening,
            // A period of zero never ends.
            Event::Tick => self.phase == Phase::Listening && self.args.period != 0,
            Event::Reaped(_) => self.phase == Phase::Killing || self.phase == Phase::Waiting,
            Event::Sent(_) => self.phase == Phase::Sending || self.phase is LastSending,
            Event::Closed => self.phase is Closing,
        }
    }

    /// The same run, waiting for something else.
    pub open spec fn at(self, phase: Phase) -> SessionView {
        SessionView { phase, ..self }
    }

    /// The run ends with an error.
    pub open spec fn fail(self, e: RunError) -> (SessionView, ActionView) {
        (self.at(Phase::Finished), ActionView::Fail(e))
    }

    /// The run opens with this address, unless it is empty.
    pub open spec fn open(self, email: Seq<char>) -> (SessionView, ActionView) {
        if email.len() == 0 {
            self.fail(RunError::NoAddress)
        } else {
            (
                self.at(Phase::Listening),
                ActionView::Open {
                    cmd: self.args.label(),
                    email,
                    send_all: self.args.send_all,
                    period: self.args.period,
                },
            )
        }
    }

    /// The run sends its last email.
    pub open spec fn last_send(self, exit: Option<bool>) -> (SessionView, ActionView) {
        let footer = sender::footer(sender::was_interrupted(exit, self.killed));
        (
            SessionView {
                outlines: Seq::empty(),
                phase: Phase::LastSending { code: sender::exit_code(self.killed) },
                ..self
            },
            ActionView::Send(self.outlines + footer),
        )
    }

    /// The command is asked to quit.
    pub open spec fn kill(self) -> (SessionView, ActionView) {
        (self.at(Phase::Killing), ActionView::Kill)
    }

    /// The run listens.
    pub open spec fn listen(self) -> (SessionView, ActionView) {
        (self.at(Phase::Listening), ActionView::Listen)
    }

    /// The run after an event, and what it wants done next.
    pub open spec fn step(self, event: Event) -> (SessionView, ActionView) {
        match event {
            Event::Started(Err(e)) => self.fail(RunError::Io(e)),
            Event::Started(Ok(())) => match self.args.to {
                Some(email) => self.open(email),
                None => (self.at(Phase::Addressing), ActionView::LookUpAddress),
            },
            Event::Address(Some(email)) => self.open(email@),
            Event::Address(None) => self.fail(RunError::NoAddress),
            // A command is asked to quit, and its output is read until there is no more.
            // Stdin is given up: all that is left is to send what there is.
            Event::Signal => {
                let killed = SessionView { killed: true, ..self };
                if self.args.has_cmd() {
                    killed.kill()
                } else {
                    killed.last_send(None)
                }
            },
            // Ticks do not count during a shutdown.
            Event::Tick => if self.killed {
                self.listen()
            } else {
                (
                    SessionView { outlines: Seq::empty(), phase: Phase::Sending, ..self },
                    ActionView::Send(self.outlines),
                )
            },
            Event::Line(Ok(line)) => SessionView {
                outlines: self.outlines.push(line@),
                ..self
            }.listen(),
            Event::Line(Err(e)) => self.fail(RunError::Io(e)),
            Event::Eof => if self.args.has_cmd() {
                (self.at(Phase::Waiting), ActionView::Wait)
            } else {
                self.last_send(None)
            },
            Event::Reaped(Err(e)) => self.fail(RunError::Io(e)),
            Event::Reaped(Ok(success)) => if self.phase == Phase::Killing {
                self.listen()
            } else {
                self.last_send(Some(success))
            },
            Event::Sent(Err(e)) => self.fail(RunError::Io(e)),
            Event::Sent(Ok(interrupted)) => match self.phase {
                Phase::LastSending { code } => (
                    self.at(Phase::Closing { code }),
                    ActionView::Close,
                ),
                // An interrupt on the way begins a shutdown.
                _ => {
                    let after = SessionView { killed: interrupted, ..self };
                    if interrupted && self.args.has_cmd() {
                        after.kill()
                    } else {
                        after.listen()
                    }
                },
            },
            Event::Closed => (
                self.at(Phase::Finished),
                ActionView::Exit(self.phase->Closing_code),
            ),
        }
    }
}

/// A run of `cmail`.
#[derive(Debug)]
pub struct Session {
    args: Args,
    killed: bool,
    outlines: Vec<String>,
    phase: Phase,
}

impl View for Session {
    type V = SessionView;

    closed spec fn view(&self) -> SessionView {
        SessionView {
            args: self.args@,
            killed: self.killed,
            outlines: text::texts(self.outlines@),
            phase: self.phase,
        }
    }
}

/// Begins a run: first of all, the source of lines is started.
pub fn run(args: Args) -> (begun: (Session, Action))
    ensures
        begun.0@ == SessionView::fresh(args@),
        begun.0@.inv(),
        begun.1@ == ActionView::Start(args@.source()),
        begun.1 is Start,
        begun.1->Start_0 is Stdin <==> args.arg_args@.len() == 0,
{
    let source = args.source();
    let session = Session { args, killed: false, outlines: Vec::new(), phase: Phase::Starting };
    assert(session@.outlines =~= Seq::empty());
    (session, Action::Start(source))
}

impl Session {
    /// Whether the event answers what the run is waiting for.
    pub fn expects(&self, event: &Event) -> (yes: bool)
        ensures
            yes == self@.expects(*event),
    {
        match (event, self.phase) {
            (Event::Started(_), Phase::Starting) => true,
            (Event::Address(_), Phase::Addressing) => true,
            (Event::Signal, Phase::Listening) => true,
            (Event::Tick, Phase::Listening) => self.args.flag_period != 0,
            (Event::Line(_), Phase::Listening) => true,
            (Event::Eof, Phase::Listening) => true,
            (Event::Reaped(_), Phase::Killing) => true,
            (Event::Reaped(_), Phase::Waiting) => true,
            (Event::Sent(_), Phase::Sending) => true,
            (Event::Sent(_), Phase::LastSending { .. }) => true,
            (Event::Closed, Phase::Closing { .. }) => true,
            _ => false,
        }
    }

    /// Takes the lines read since the latest email.
    fn take_lines(&mut self) -> (lines: Vec<String>)
        ensures
            text::texts(lines@) == old(self)@.outlines,
            final(self)@ == (SessionView { outlines: Seq::empty(), ..old(self)@ }),
    {
        let mut lines: Vec<String> = Vec::new();
        std::mem::swap(&mut lines, &mut self.outlines);
        assert(text::texts(self.outlines@) =~= Seq::empty());
        lines
    }

    fn fail(&mut self, e: RunError) -> (action: Action)
        ensures
            (final(self)@, action@) == old(self)@.fail(e),
    {
        self.phase = Phase::Finished;
        Action::Fail(e)
    }

    fn open(&mut self, email: String) -> (action: Action)
        ensures
            (final(self)@, action@) == old(self)@.open(email@),
    {
        if email.as_str().is_empty() {
            self.fail(RunError::NoAddress)
        } else {
            self.phase = Phase::Listening;
            Action::Open {
                cmd: self.args.label(),
                email,
                send_all: self.args.flag_send_all,
                period: self.args.flag_period,
            }
        }
    }

    fn last_send(&mut self, exit: Option<bool>) -> (action: Action)
        ensures
            (final(self)@, action@) == old(self)@.last_send(exit),
    {
        let lines = self.take_lines();
        let last = EmailSender::last_send(exit, lines, self.killed);
        self.phase = Phase::LastSending { code: last.code };
        Action::Send(last.lines)
    }

    fn kill(&mut self) -> (action: Action)
        ensures
            (final(self)@, action@) == old(self)@.kill(),
    {
        self.phase = Phase::Killing;
        Action::Kill
    }

    fn listen(&mut self) -> (action: Action)
        ensures
            (final(self)@, action@) == old(self)@.listen(),
    {
        self.phase = Phase::Listening;
        Action::Listen
    }

    /// Takes in an event and decides what to do next.
    pub fn step(&mut self, event: Event) -> (action: Action)
        requires
            old(self)@.expects(event),
        ensures
            (final(self)@, action@) == old(self)@.step(event),
            old(self)@.inv() ==> final(self)@.inv(),
    {
        match event {
            Event::Started(Err(e)) => self.fail(RunError::Io(e)),
            Event::Started(Ok(())) => match &self.args.flag_to {
                Some(email) => {
                    let email = email.clone();
                    self.open(email)
                },
                None => {
                    self.phase = Phase::Addressing;
                    Action::LookUpAddress
                },
            },
            Event::Address(Some(email)) => self.open(email),
            Event::Address(None) => self.fail(RunError::NoAddress),
            Event::Signal => {
                self.killed = true;
                if self.args.has_cmd() {
                    self.kill()
                } else {
                    self.last_send(None)
                }
            },
            Event::Tick => {
                if self.killed {
                    self.listen()
                } else {
                    let lines = self.take_lines();
                    self.phase = Phase::Sending;
                    Action::Send(lines)
                }
            },
            Event::Line(Ok(line)) => {
                self.outlines.push(line);
                assert(text::texts(self.outlines@) =~= old(self)@.outlines.push(line@));
                self.listen()
            },
            Event::Line(Err(e)) => self.fail(RunError::Io(e)),
            Event::Eof => {
                if self.args.has_cmd() {
                    self.phase = Phase::Waiting;
                    Action::Wait
                } else {
                    self.last_send(None)
                }
            },
            Event::Reaped(Err(e)) => self.fail(RunError::Io(e)),
            Event::Reaped(Ok(success)) => {
                if self.phase == Phase::Killing {
                    self.listen()
                } else {
                    self.last_send(Some(success))
                }
            },
            Event::Sent(Err(e)) => self.fail(RunError::Io(e)),
            Event::Sent(Ok(interrupted)) => match self.phase {
                Phase::LastSending { code } => {
                    self.phase = Phase::Closing { code };
                    Action::Close
                },
                _ => {
                    self.killed = interrupted;
                    if interrupted && self.args.has_cmd() {
                        self.kill()
                    } else {
                        self.listen()
                    }
                },
            },
            Event::Closed => {
                let code: i32 = match self.phase {
                    Phase::Closing { code } => code,
                    _ => 0,
                };
                self.phase = Phase::Finished;
                Action::Exit(code)
            },
        }
    }
}

} // verus!
