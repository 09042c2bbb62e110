//! What each event does to a run, whatever its flags are.

use vstd::prelude::*;

use crate::args::ArgsView;
use crate::error::RunError;
use crate::sender;
use crate::session::{Action, ActionView, Event, Phase, SessionView};
use crate::text;

verus! {

/// A run begins with its arguments, without lines, not shut down, and waits for its source.
pub proof fn law_a_run_begins_empty(args: ArgsView)
    ensures
        ({
            let run = SessionView::fresh(args);
            &&& run.args == args
            &&& !run.killed
            &&& run.outlines.len() == 0
            &&& run.phase == Phase::Starting
        }),
{
}

/// What a run wants done is seen as it is, with every line whole.
pub proof fn law_actions_are_seen_as_they_are(action: Action)
    ensures
        match action {
            Action::Start(source) => action@ == ActionView::Start(source@),
            Action::LookUpAddress => action@ == ActionView::LookUpAddress,
            Action::Open { cmd, email, send_all, period } => action@ == (ActionView::Open {
                cmd: cmd@,
                email: email@,
                send_all,
                period,
            }),
            Action::Listen => action@ == ActionView::Listen,
            Action::Kill => action@ == ActionView::Kill,
            Action::Wait => action@ == ActionView::Wait,
            Action::Send(lines) => {
                &&& action@ is Send
                &&& action@->Send_0.len() == lines@.len()
                &&& forall|i: int|
                    0 <= i < lines@.len() ==> #[trigger] action@->Send_0[i] == lines@[i]@
            },
            Action::Close => action@ == ActionView::Close,
            Action::Exit(code) => action@ == ActionView::Exit(code),
            Action::Fail(e) => action@ == ActionView::Fail(e),
        },
{
}

/// A run takes signals, lines and their end whenever it listens, ticks too unless its period
/// is zero, and otherwise exactly the answer to what it wants done.
pub proof fn law_what_a_run_waits_for(run: SessionView, event: Event)
    ensures
        run.expects(event) <==> match run.phase {
            Phase::Starting => event is Started,
            Phase::Addressing => event is Address,
            Phase::Listening => event is Signal || event is Line || event is Eof || (event is Tick
                && run.args.period > 0),
            Phase::Killing => event is Reaped,
            Phase::Sending => event is Sent,
            Phase::Waiting => event is Reaped,
            Phase::LastSending { .. } => event is Sent,
            Phase::Closing { .. } => event is Closed,
            Phase::Finished => false,
        },
{
}

/// With a source that started, a run opens at once with the address of `--to`, or looks the
/// address up.
pub proof fn law_a_started_run_opens(run: SessionView)
    requires
        run.phase == Phase::Starting,
    ensures
        ({
            let (then, action) = run.step(Event::Started(Ok(())));
            match run.args.to {
                None => {
                    &&& action == ActionView::LookUpAddress
                    &&& then == (SessionView { phase: Phase::Addressing, ..run })
                },
                Some(to) => if to.len() == 0 {
                    &&& action == ActionView::Fail(RunError::NoAddress)
                    &&& then == (SessionView { phase: Phase::Finished, ..run })
                } else {
                    &&& action == (ActionView::Open {
                        cmd: if run.args.words.len() == 0 {
                            "<stdin>"@
                        } else {
                            text::joined(run.args.words, " "@)
                        },
                        email: to,
                        send_all: run.args.send_all,
                        period: run.args.period,
                    })
                    &&& then == (SessionView { phase: Phase::Listening, ..run })
                },
            }
        }),
{
}

/// A run opens with the address that was looked up, and fails without one.
pub proof fn law_a_run_opens_with_the_address_looked_up(
    run: SessionView,
    address: Option<String>,
)
    requires
        run.phase == Phase::Addressing,
    ensures
        ({
            let (then, action) = run.step(Event::Address(address));
            if address is None || address->0@.len() == 0 {
                &&& action == ActionView::Fail(RunError::NoAddress)
                &&& then == (SessionView { phase: Phase::Finished, ..run })
            } else {
                &&& action == (ActionView::Open {
                    cmd: if run.args.words.len() == 0 {
                        "<stdin>"@
                    } else {
                        text::joined(run.args.words, " "@)
                    },
                    email: address->0@,
                    send_all: run.args.send_all,
                    period: run.args.period,
                })
                &&& then == (SessionView { phase: Phase::Listening, ..run })
            }
        }),
{
}

/// Every line that is read is held, whole, behind those held already, and the run goes on
/// listening.
pub proof fn law_a_line_is_held(run: SessionView, line: String)
    requires
        run.phase == Phase::Listening,
    ensures
        ({
            let (then, action) = run.step(Event::Line(Ok(line)));
            &&& action == ActionView::Listen
            &&& then == (SessionView { outlines: run.outlines + seq![line@], ..run })
        }),
{
    assert(run.outlines.push(line@) =~= run.outlines + seq![line@]);
}

/// Every tick sends exactly the lines that are held, none of them too, and starts over; only
/// during a shutdown it is passed over.
pub proof fn law_a_tick_sends_the_lines_held(run: SessionView)
    requires
        run.phase == Phase::Listening,
    ensures
        ({
            let (then, action) = run.step(Event::Tick);
            if run.killed {
                action == ActionView::Listen && then == run
            } else {
                &&& action == ActionView::Send(run.outlines)
                &&& then.outlines.len() == 0
                &&& then.phase == Phase::Sending
                &&& then.args == run.args
                &&& !then.killed
            }
        }),
{
}

/// The outcome of a periodic email: without an interrupt the run listens on as before; with
/// one a shutdown begins, for which a command is killed.
pub proof fn law_an_email_on_the_way_is_followed_up(run: SessionView, interrupted: bool)
    requires
        run.phase == Phase::Sending,
    ensures
        ({
            let (then, action) = run.step(Event::Sent(Ok(interrupted)));
            &&& then.killed == interrupted
            &&& then.outlines == run.outlines
            &&& then.args == run.args
            &&& if interrupted && run.args.words.len() != 0 {
                action == ActionView::Kill && then.phase == Phase::Killing
            } else {
                action == ActionView::Listen && then.phase == Phase::Listening
            }
        }),
{
}

/// A signal begins a shutdown: a command is killed, and stdin is given up.
pub proof fn law_a_signal_begins_a_shutdown(run: SessionView)
    requires
        run.phase == Phase::Listening,
    ensures
        ({
            let (then, action) = run.step(Event::Signal);
            &&& then.killed
            &&& then.args == run.args
            &&& if run.args.words.len() != 0 {
                &&& action == ActionView::Kill
                &&& then.phase == Phase::Killing
                &&& then.outlines == run.outlines
            } else {
                &&& action == ActionView::Send(
                    run.outlines + seq![""@, ""@, "Program interrupted."@],
                )
                &&& then.phase == (Phase::LastSending { code: 1 })
                &&& then.outlines.len() == 0
            }
        }),
{
    assert(sender::footer(true) =~= seq![""@, ""@, "Program interrupted."@]);
}

/// A command that was killed is read on, whether it exited well or not, with the lines held.
pub proof fn law_a_killed_command_is_read_on(run: SessionView, success: bool)
    requires
        run.phase == Phase::Killing,
    ensures
        run.step(Event::Reaped(Ok(success))) == (
            SessionView { phase: Phase::Listening, ..run },
            ActionView::Listen,
        ),
{
}

/// The end of the lines always ends the run, killed or not.  Without a command the last email
/// goes out at once; with one, when it was reaped.  It carries the lines held, and then says
/// how the run ended.
pub proof fn law_the_end_of_the_lines_ends_the_run(run: SessionView, success: bool)
    requires
        run.phase == Phase::Listening,
    ensures
        ({
            let (ended, action) = run.step(Event::Eof);
            let (reaped, last) = ended.step(Event::Reaped(Ok(success)));
            let code = if run.killed { 1i32 } else { 0i32 };
            if run.args.words.len() == 0 {
                &&& action == ActionView::Send(
                    run.outlines + seq![
                        ""@,
                        ""@,
                        if run.killed {
                            "Program interrupted."@
                        } else {
                            "Program completed successfully."@
                        },
                    ],
                )
                &&& ended == (SessionView {
                    outlines: Seq::empty(),
                    phase: Phase::LastSending { code },
                    ..run
                })
            } else {
                &&& action == ActionView::Wait
                &&& ended == (SessionView { phase: Phase::Waiting, ..run })
                &&& last == ActionView::Send(
                    run.outlines + seq![
                        ""@,
                        ""@,
                        if run.killed || !success {
                            "Program interrupted."@
                        } else {
                            "Program completed successfully."@
                        },
                    ],
                )
                &&& reaped == (SessionView {
                    outlines: Seq::empty(),
                    phase: Phase::LastSending { code },
                    ..run
                })
            }
        }),
{
}

/// A command that exits, however the run came to wait for it, makes the run send its last
/// email.
pub proof fn law_a_reaped_command_makes_the_last_email(run: SessionView, success: bool)
    requires
        run.phase == Phase::Waiting,
    ensures
        ({
            let (then, action) = run.step(Event::Reaped(Ok(success)));
            &&& action == ActionView::Send(
                run.outlines + seq![
                    ""@,
                    ""@,
                    if run.killed || !success {
                        "Program interrupted."@
                    } else {
                        "Program completed successfully."@
                    },
                ],
            )
            &&& then.phase == (Phase::LastSending { code: if run.killed { 1 } else { 0 } })
            &&& then.outlines.len() == 0
            &&& then.killed == run.killed
            &&& then.args == run.args
        }),
{
}

/// When the last email is sent, interrupted on the way or not, the email sender is shut down,
/// and then the run exits with the code that it had settled on.
pub proof fn law_the_last_email_is_followed_by_the_exit(
    run: SessionView,
    code: i32,
    interrupted: bool,
)
    requires
        run.phase == (Phase::LastSending { code }),
    ensures
        ({
            let (closing, close) = run.step(Event::Sent(Ok(interrupted)));
            let (over, exit) = closing.step(Event::Closed);
            &&& close == ActionView::Close
            &&& closing == (SessionView { phase: Phase::Closing { code }, ..run })
            &&& exit == ActionView::Exit(code)
            &&& over == (SessionView { phase: Phase::Finished, ..run })
        }),
{
}

/// A run that closes exits with the code that it had settled on.
pub proof fn law_a_closed_run_exits(run: SessionView, code: i32)
    requires
        run.phase == (Phase::Closing { code }),
    ensures
        run.step(Event::Closed) == (
            SessionView { phase: Phase::Finished, ..run },
            ActionView::Exit(code),
        ),
{
}

/// Whatever fails, the run fails with that error, and is over.
pub proof fn law_a_failure_ends_the_run(run: SessionView, event: Event)
    requires
        run.expects(event),
    ensures
        ({
            let failed = (SessionView { phase: Phase::Finished, ..run });
            let (then, action) = run.step(event);
            match event {
                Event::Started(Err(e)) => {
                    then == failed && action == ActionView::Fail(RunError::Io(e))
                },
                Event::Line(Err(e)) => {
                    then == failed && action == ActionView::Fail(RunError::Io(e))
                },
                Event::Reaped(Err(e)) => {
                    then == failed && action == ActionView::Fail(RunError::Io(e))
                },
                Event::Sent(Err(e)) => {
                    then == failed && action == ActionView::Fail(RunError::Io(e))
                },
                _ => true,
            }
        }),
{
}

} // verus!
