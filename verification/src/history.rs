//! What holds of whole runs.

use vstd::prelude::*;

use crate::args::ArgsView;
use crate::error::RunError;
use crate::sender;
use crate::sender::{SenderOp, SenderView};
use crate::session::{ActionView, Event, Phase, SessionView};

verus! {

impl SessionView {
    /// The run after all of these events.
    pub open spec fn after(self, events: Seq<Event>) -> SessionView
        decreases events.len(),
    {
        if events.len() == 0 {
            self
        } else {
            self.after(events.drop_last()).step(events.last()).0
        }
    }

    /// Whether each of the events is one that the run is waiting for at the time.
    pub open spec fn possible(self, events: Seq<Event>) -> bool
        decreases events.len(),
    {
        events.len() == 0 || {
            &&& self.possible(events.drop_last())
            &&& self.after(events.drop_last()).expects(events.last())
        }
    }

    /// What the run wants done after each of the events.
    pub open spec fn actions(self, events: Seq<Event>) -> Seq<ActionView>
        decreases events.len(),
    {
        if events.len() == 0 {
            Seq::empty()
        } else {
            self.actions(events.drop_last()).push(
                self.after(events.drop_last()).step(events.last()).1,
            )
        }
    }

    /// Whether the last email of the run has been handed over.
    pub open spec fn is_ending(self) -> bool {
        self.phase is LastSending || self.phase is Closing
    }

    /// What the last email of the run says, once there is one: whether the program was
    /// interrupted.
    pub open spec fn verdict(self, events: Seq<Event>) -> Option<bool>
        decreases events.len(),
    {
        if events.len() == 0 {
            None
        } else {
            let before = self.after(events.drop_last());
            let now = self.after(events);
            if now.is_ending() && !before.is_ending() {
                let exit = match events.last() {
                    Event::Reaped(Ok(success)) => Some(success),
                    _ => None,
                };
                Some(sender::was_interrupted(exit, now.killed))
            } else {
                self.verdict(events.drop_last())
            }
        }
    }
}

/// The lines that are read in the course of the events.
pub open spec fn lines_read(events: Seq<Event>) -> Seq<Seq<char>>
    decreases events.len(),
{
    if events.len() == 0 {
        Seq::empty()
    } else {
        match events.last() {
            Event::Line(Ok(line)) => lines_read(events.drop_last()).push(line@),
            _ => lines_read(events.drop_last()),
        }
    }
}

/// The batches of lines that are emailed.
pub open spec fn batches(actions: Seq<ActionView>) -> Seq<Seq<Seq<char>>>
    decreases actions.len(),
{
    if actions.len() == 0 {
        Seq::empty()
    } else {
        match actions.last() {
            ActionView::Send(lines) => batches(actions.drop_last()).push(lines),
            _ => batches(actions.drop_last()),
        }
    }
}

/// A run keeps its invariant.
pub proof fn law_invariant_is_kept(run: SessionView, events: Seq<Event>)
    requires
        run.inv(),
        run.possible(events),
    ensures
        run.after(events).inv(),
        run.after(events).args == run.args,
    decreases events.len(),
{
    if events.len() > 0 {
        law_invariant_is_kept(run, events.drop_last());
    }
}

/// Every line that is read is emailed once, in order.  As long as there is no last
/// email, the lines not yet emailed are those that the run holds.  The last email
/// completes them, and ends with the lines that say how the run ended.
pub proof fn law_every_line_is_emailed_once(args: ArgsView, events: Seq<Event>)
    requires
        SessionView::fresh(args).possible(events),
    ensures
        ({
            let run = SessionView::fresh(args);
            let emailed = batches(run.actions(events)).flatten();
            match run.verdict(events) {
                None => {
                    &&& emailed + run.after(events).outlines == lines_read(events)
                    &&& !run.after(events).is_ending()
                },
                Some(interrupted) => {
                    &&& emailed == lines_read(events) + sender::footer(interrupted)
                    &&& batches(run.actions(events)).len() > 0
                    &&& sender::footer(interrupted).is_suffix_of(
                        batches(run.actions(events)).last(),
                    )
                    &&& run.after(events).is_ending() || run.after(events).phase == Phase::Finished
                },
            }
        }),
    decreases events.len(),
{
    let run = SessionView::fresh(args);
    if events.len() == 0 {
        assert(batches(run.actions(events)).flatten() + run.outlines =~= lines_read(events));
    } else {
        let init = events.drop_last();
        let before = run.after(init);
        let now = run.after(events);
        let sent = batches(run.actions(init));
        let action = run.actions(events).last();
        law_every_line_is_emailed_once(args, init);
        law_invariant_is_kept(run, init);
        assert(run.actions(events).drop_last() =~= run.actions(init));
        if let ActionView::Send(lines) = action {
            sent.lemma_flatten_push(lines);
            if now.is_ending() {
                let i = run.verdict(events)->0;
                assert(lines =~= before.outlines + sender::footer(i));
                assert(sent.flatten() + lines =~= lines_read(init) + sender::footer(i));
            } else {
                assert(sent.flatten() + lines + now.outlines =~= lines_read(events));
            }
        } else if let Event::Line(Ok(line)) = events.last() {
            assert(sent.flatten() + now.outlines =~= lines_read(events));
        }
    }
}

/// Whether an event interrupts a run: a signal does, and so does an interrupt while one
/// of the periodic emails is sent.
pub open spec fn interrupts(run: SessionView, event: Event) -> bool {
    ||| event is Signal
    ||| run.phase == Phase::Sending && event == Event::Sent(Ok(true))
}

/// Whether one of the events interrupts the run.
pub open spec fn was_interrupted_by(run: SessionView, events: Seq<Event>) -> bool
    decreases events.len(),
{
    events.len() > 0 && (was_interrupted_by(run, events.drop_last()) || interrupts(
        run.after(events.drop_last()),
        events.last(),
    ))
}

/// A shutdown has begun exactly when the run was interrupted, and there is no way back.
pub proof fn law_shutdown_begins_with_an_interrupt(run: SessionView, events: Seq<Event>)
    requires
        run.inv(),
        run.possible(events),
    ensures
        run.after(events).killed <==> run.killed || was_interrupted_by(run, events),
    decreases events.len(),
{
    if events.len() > 0 {
        law_shutdown_begins_with_an_interrupt(run, events.drop_last());
        law_invariant_is_kept(run, events.drop_last());
    }
}

/// Once a shutdown has begun, one email is sent at the most.
pub proof fn law_shutdown_sends_one_last_email(run: SessionView, events: Seq<Event>)
    requires
        run.inv(),
        run.killed,
        run.possible(events),
    ensures
        batches(run.actions(events)).len() <= 1,
        batches(run.actions(events)).len() == 1 ==> run.after(events).is_ending() || run.after(
            events,
        ).phase == Phase::Finished,
        run.after(events).killed,
    decreases events.len(),
{
    if events.len() > 0 {
        let init = events.drop_last();
        law_shutdown_sends_one_last_email(run, init);
        law_invariant_is_kept(run, init);
        assert(run.actions(events).drop_last() =~= run.actions(init));
    }
}

/// A run that completes has sent its last email, exits with a non-zero code exactly when
/// it was interrupted, and in that case says so in that email.
pub proof fn law_exit_code_tells_of_an_interrupt(args: ArgsView, events: Seq<Event>, code: i32)
    requires
        SessionView::fresh(args).possible(events),
        events.len() > 0,
        SessionView::fresh(args).actions(events).last() == ActionView::Exit(code),
    ensures
        ({
            let run = SessionView::fresh(args);
            let interrupted = was_interrupted_by(run, events);
            &&& code == (if interrupted { 1int } else { 0int })
            &&& run.verdict(events) is Some
            &&& interrupted ==> run.verdict(events) == Some(true)
            &&& batches(run.actions(events)).flatten() == lines_read(events) + sender::footer(
                run.verdict(events)->0,
            )
        }),
{
    let run = SessionView::fresh(args);
    law_every_line_is_emailed_once(args, events);
    law_every_line_is_emailed_once(args, events.drop_last());
    law_invariant_is_kept(run, events.drop_last());
    law_shutdown_begins_with_an_interrupt(run, events);
    lemma_verdict_admits_an_interrupt(run, events);
}

proof fn lemma_verdict_admits_an_interrupt(run: SessionView, events: Seq<Event>)
    requires
        run.inv(),
        !run.is_ending(),
        run.phase != Phase::Finished,
        run.possible(events),
    ensures
        run.verdict(events) is Some && run.after(events).killed ==> run.verdict(events)
            == Some(true),
        run.verdict(events) is Some ==> run.after(events).is_ending() || run.after(events).phase
            == Phase::Finished,
    decreases events.len(),
{
    if events.len() > 0 {
        lemma_verdict_admits_an_interrupt(run, events.drop_last());
        law_invariant_is_kept(run, events.drop_last());
    }
}

/// Whether the period is ever over in the course of the events.
pub open spec fn ticks(events: Seq<Event>) -> bool {
    exists|k: int| 0 <= k < events.len() && #[trigger] events[k] is Tick
}

/// Without ticks a single email is sent, when the run completes, and it carries every
/// line.
pub proof fn law_without_ticks_one_email(args: ArgsView, events: Seq<Event>)
    requires
        SessionView::fresh(args).possible(events),
        !ticks(events),
    ensures
        ({
            let run = SessionView::fresh(args);
            match run.verdict(events) {
                None => batches(run.actions(events)).len() == 0,
                Some(interrupted) => batches(run.actions(events)) == seq![
                    lines_read(events) + sender::footer(interrupted),
                ],
            }
        }),
{
    let run = SessionView::fresh(args);
    lemma_without_ticks(args, events);
    law_every_line_is_emailed_once(args, events);
    let sent = batches(run.actions(events));
    if sent.len() == 1 {
        sent.lemma_flatten_singleton();
        assert(sent =~= seq![sent[0]]);
    }
}

/// With a period of zero a single email is sent, when the run completes, and it carries
/// every line.
pub proof fn law_period_zero_sends_one_email(args: ArgsView, events: Seq<Event>)
    requires
        SessionView::fresh(args).possible(events),
        args.period == 0,
    ensures
        ({
            let run = SessionView::fresh(args);
            match run.verdict(events) {
                None => batches(run.actions(events)).len() == 0,
                Some(interrupted) => batches(run.actions(events)) == seq![
                    lines_read(events) + sender::footer(interrupted),
                ],
            }
        }),
{
    lemma_period_zero_never_ticks(args, events);
    law_without_ticks_one_email(args, events);
}

proof fn lemma_period_zero_never_ticks(args: ArgsView, events: Seq<Event>)
    requires
        SessionView::fresh(args).possible(events),
        args.period == 0,
    ensures
        !ticks(events),
    decreases events.len(),
{
    if events.len() > 0 {
        let init = events.drop_last();
        lemma_period_zero_never_ticks(args, init);
        law_invariant_is_kept(SessionView::fresh(args), init);
        assert forall|k: int| 0 <= k < events.len() implies !(#[trigger] events[k] is Tick) by {
            if k < init.len() {
                assert(!(init[k] is Tick));
            } else {
                assert(events[k] == events.last());
            }
        }
    }
}

proof fn lemma_without_ticks(args: ArgsView, events: Seq<Event>)
    requires
        SessionView::fresh(args).possible(events),
        !ticks(events),
    ensures
        ({
            let run = SessionView::fresh(args);
            &&& batches(run.actions(events)).len() == (if run.verdict(events) is Some {
                1nat
            } else {
                0nat
            })
            &&& run.after(events).phase != Phase::Sending
        }),
    decreases events.len(),
{
    if events.len() > 0 {
        let run = SessionView::fresh(args);
        let init = events.drop_last();
        assert(!ticks(init)) by {
            if ticks(init) {
                let k = choose|k: int| 0 <= k < init.len() && #[trigger] init[k] is Tick;
                assert(events[k] is Tick);
            }
        }
        assert(!(events.last() is Tick)) by {
            if events.last() is Tick {
                assert(events[events.len() - 1] is Tick);
            }
        }
        lemma_without_ticks(args, init);
        law_invariant_is_kept(run, init);
        law_every_line_is_emailed_once(args, init);
        law_every_line_is_emailed_once(args, events);
        assert(run.actions(events).drop_last() =~= run.actions(init));
    }
}

/// An interrupt while lines are read from stdin ends the run: what there is is sent at
/// once.
pub proof fn law_interrupt_gives_stdin_up(run: SessionView)
    requires
        run.phase == Phase::Listening,
        !run.args.has_cmd(),
    ensures
        run.step(Event::Signal).1 == ActionView::Send(run.outlines + sender::footer(true)),
        run.step(Event::Signal).0.phase == (Phase::LastSending { code: 1 }),
{
}

/// An interrupt while a command runs makes the run kill the command and then read on,
/// with all lines that it holds, until there are no more; only then it ends.
pub proof fn law_interrupt_reads_a_command_on(run: SessionView, success: bool)
    requires
        run.phase == Phase::Listening,
        run.args.has_cmd(),
    ensures
        ({
            let (killing, kill) = run.step(Event::Signal);
            let (reading, listen) = killing.step(Event::Reaped(Ok(success)));
            &&& kill == ActionView::Kill
            &&& listen == ActionView::Listen
            &&& reading == (SessionView { killed: true, ..run })
            &&& reading.step(Event::Tick) == (reading, ActionView::Listen)
            &&& reading.step(Event::Eof).1 == ActionView::Wait
            &&& reading.step(Event::Eof).0.step(Event::Reaped(Ok(success))).1 == ActionView::Send(
                run.outlines + sender::footer(true),
            )
        }),
{
}

/// A command is reaped before the last email of a run is handed over.
pub proof fn law_command_is_reaped_before_the_last_email(args: ArgsView, events: Seq<Event>)
    requires
        SessionView::fresh(args).possible(events),
        args.has_cmd(),
        events.len() > 0,
        SessionView::fresh(args).after(events).is_ending(),
        !SessionView::fresh(args).after(events.drop_last()).is_ending(),
    ensures
        SessionView::fresh(args).after(events.drop_last()).phase == Phase::Waiting,
        events.last() matches Event::Reaped(Ok(_)),
{
    law_invariant_is_kept(SessionView::fresh(args), events.drop_last());
}

/// The address of `--to` comes first, then that of the environment.  Where neither is
/// set, or the one that counts is empty, the run fails.
pub proof fn law_address(args: ArgsView, environment: Option<String>)
    ensures
        ({
            let (started, first) = SessionView::fresh(args).step(Event::Started(Ok(())));
            let (_, second) = started.step(Event::Address(environment));
            let opening = |email: Seq<char>|
                ActionView::Open {
                    cmd: args.label(),
                    email,
                    send_all: args.send_all,
                    period: args.period,
                };
            match args.to {
                Some(to) => first == (if to.len() > 0 {
                    opening(to)
                } else {
                    ActionView::Fail(RunError::NoAddress)
                }),
                None => {
                    &&& first == ActionView::LookUpAddress
                    &&& second == (match environment {
                        Some(email) => if email@.len() > 0 {
                            opening(email@)
                        } else {
                            ActionView::Fail(RunError::NoAddress)
                        },
                        None => ActionView::Fail(RunError::NoAddress),
                    })
                },
            }
        }),
{
}

/// A run waits for something until it is over, and it is over exactly when it has given
/// an exit code or an error.
pub proof fn law_run_is_over_with_its_result(args: ArgsView, events: Seq<Event>)
    requires
        SessionView::fresh(args).possible(events),
        events.len() > 0,
    ensures
        ({
            let run = SessionView::fresh(args);
            let last = run.actions(events).last();
            let over = run.after(events).phase == Phase::Finished;
            &&& over <==> last is Exit || last is Fail
            &&& over <==> forall|event: Event| !#[trigger] run.after(events).expects(event)
        }),
{
    let now = SessionView::fresh(args).after(events);
    law_invariant_is_kept(SessionView::fresh(args), events);
    law_invariant_is_kept(SessionView::fresh(args), events.drop_last());
    assert(now.expects(Event::Started(Ok(()))) || now.expects(Event::Address(None)) || now.expects(
        Event::Signal,
    ) || now.expects(Event::Reaped(Ok(true))) || now.expects(Event::Sent(Ok(true)))
        || now.expects(Event::Closed) || now.phase == Phase::Finished);
}

/// Where everything is to be sent, the last email of a run that completes carries the
/// entire output, and then says how the run ended.
pub proof fn law_send_all_ends_with_the_entire_output(
    args: ArgsView,
    events: Seq<Event>,
    email: Seq<char>,
    ops: Seq<SenderOp>,
)
    requires
        SessionView::fresh(args).possible(events),
        SessionView::fresh(args).verdict(events) is Some,
        sender::batches_given(ops) == batches(SessionView::fresh(args).actions(events)),
    ensures
        SenderView::fresh(args.label(), email, true).after(ops).to_send == lines_read(events)
            + sender::footer(SessionView::fresh(args).verdict(events)->0),
{
    law_every_line_is_emailed_once(args, events);
    sender::law_send_all_carries_every_batch(args.label(), email, ops);
}

/// Whether everything is to be sent or not, the last email of a run that completes ends
/// with the lines that say how the run ended.
pub proof fn law_last_email_says_how_the_run_ended(
    args: ArgsView,
    events: Seq<Event>,
    email: Seq<char>,
    ops: Seq<SenderOp>,
)
    requires
        SessionView::fresh(args).possible(events),
        SessionView::fresh(args).verdict(events) is Some,
        sender::batches_given(ops) == batches(SessionView::fresh(args).actions(events)),
    ensures
        sender::footer(SessionView::fresh(args).verdict(events)->0).is_suffix_of(
            SenderView::fresh(args.label(), email, args.send_all).after(ops).to_send,
        ),
{
    law_every_line_is_emailed_once(args, events);
    if args.send_all {
        law_send_all_ends_with_the_entire_output(args, events, email, ops);
    } else {
        sender::law_an_email_carries_its_batch(args.label(), email, ops);
    }
}

} // verus!
