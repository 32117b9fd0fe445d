//! The decisions of the supervisor's event loop.
//!
//! The caller waits for whichever comes first of a tick, a line from either
//! reader, the child's end and a request to stop, and hands that event to
//! [`Elapsing::event_loop`]. The answer says what to erase, write and print,
//! in which order, and whether the run goes on.

use crate::outcome::{outcome_of_exit, IoFailure, RunOutcome};
use vstd::prelude::*;

verus! {

/// What the supervisor waits for.
#[derive(Clone, Debug, PartialEq, Eq)]
pub enum Event {
    /// A second has passed.
    Tick,
    /// The primary reader has a line.
    PrimaryLine(Vec<u8>),
    /// Reading from the primary source failed.
    PrimaryFailed,
    /// The secondary reader has a line.
    SecondaryLine(Vec<u8>),
    /// Reading from the secondary source failed.
    SecondaryFailed,
    /// The child has ended: with `Some` exit code, or by a signal.
    ChildExited(Option<i32>),
    /// Waiting for the child failed.
    WaitFailed,
    /// The user asked for the run to stop.
    Cancelled,
    /// Listening for such a request failed.
    CancelFailed,
}

/// One thing for the caller to do.
#[derive(Clone, Debug, PartialEq, Eq)]
pub enum Action {
    /// Erase the status line.
    ClearStatus,
    /// Print the status line.
    PrintStatus,
    /// Print the status line and end the line after it.
    PrintTotal,
    /// Write these bytes to the primary destination, as they are.
    WriteStdout(Vec<u8>),
    /// Write these bytes to the secondary destination, as they are.
    WriteStderr(Vec<u8>),
}

/// Whether the run goes on.
#[derive(Clone, Copy, Debug, PartialEq, Eq, Structural)]
pub enum Flow {
    /// Wait for the next event.
    Continue,
    /// The run is over.
    Finish(RunOutcome),
}

/// The answer to one event: what to do, in this order, and what then.
#[derive(Clone, Debug, PartialEq, Eq)]
pub struct Step {
    pub actions: Vec<Action>,
    pub flow: Flow,
}

/// What is done for an event.
///
/// Around a line for the primary destination the status line is erased and
/// printed again only where that destination is a terminal, with which it
/// then shares the screen. The secondary destination always shares it. An
/// event that ends the run erases the status line and does not print it
/// again. A failed read is noticed only after the status line was erased for
/// the line that did not come.
pub open spec fn actions_for(stdout_is_tty: bool, event: Event) -> Seq<Action> {
    match event {
        Event::Tick => seq![Action::ClearStatus, Action::PrintStatus],
        Event::PrimaryLine(line) => if stdout_is_tty {
            seq![Action::ClearStatus, Action::WriteStdout(line), Action::PrintStatus]
        } else {
            seq![Action::WriteStdout(line)]
        },
        Event::PrimaryFailed => if stdout_is_tty {
            seq![Action::ClearStatus]
        } else {
            Seq::empty()
        },
        Event::SecondaryLine(line) => seq![
            Action::ClearStatus,
            Action::WriteStderr(line),
            Action::PrintStatus,
        ],
        Event::SecondaryFailed => seq![Action::ClearStatus],
        Event::ChildExited(_) => seq![Action::ClearStatus],
        Event::WaitFailed => seq![Action::ClearStatus],
        Event::Cancelled => seq![Action::ClearStatus],
        Event::CancelFailed => Seq::empty(),
    }
}

/// Whether the run goes on after an event, and how it ended if not.
pub open spec fn flow_for(event: Event) -> Flow {
    match event {
        Event::PrimaryFailed => Flow::Finish(RunOutcome::IoError(IoFailure::ReadStdout)),
        Event::SecondaryFailed => Flow::Finish(RunOutcome::IoError(IoFailure::ReadStderr)),
        Event::ChildExited(code) => Flow::Finish(outcome_of_exit(code)),
        Event::WaitFailed => Flow::Finish(RunOutcome::IoError(IoFailure::Wait)),
        Event::Cancelled => Flow::Finish(RunOutcome::CancelledByUser),
        _ => Flow::Continue,
    }
}

/// What goes to the terminal of the status line: everything but a write to a
/// primary destination that is no terminal.
pub open spec fn on_status_terminal(stdout_is_tty: bool, a: Action) -> bool {
    match a {
        Action::WriteStdout(_) => stdout_is_tty,
        _ => true,
    }
}

/// The action writes output of the child.
pub open spec fn is_write(a: Action) -> bool {
    a is WriteStdout || a is WriteStderr
}

/// Every write that goes to the terminal of the status line stands between
/// an erasure just before it and a print just after it.
pub proof fn lemma_writes_are_bracketed(stdout_is_tty: bool, event: Event, i: int)
    requires
        0 <= i < actions_for(stdout_is_tty, event).len(),
        is_write(actions_for(stdout_is_tty, event)[i]),
        on_status_terminal(stdout_is_tty, actions_for(stdout_is_tty, event)[i]),
    ensures
        1 <= i,
        i + 1 < actions_for(stdout_is_tty, event).len(),
        actions_for(stdout_is_tty, event)[i - 1] == Action::ClearStatus,
        actions_for(stdout_is_tty, event)[i + 1] == Action::PrintStatus,
{
}

/// While the run goes on, whatever touched the terminal of the status line
/// ends by printing it, so that it is the last thing visible there. An event
/// that ends the run prints no status line any more.
pub proof fn lemma_status_line_stays_last(stdout_is_tty: bool, event: Event)
    ensures
        ({
            let actions = actions_for(stdout_is_tty, event);
            match flow_for(event) {
                Flow::Continue => (exists|i: int|
                    0 <= i < actions.len() && #[trigger] on_status_terminal(
                        stdout_is_tty,
                        actions[i],
                    )) ==> actions.last() == Action::PrintStatus,
                Flow::Finish(_) => forall|i: int|
                    0 <= i < actions.len() ==> #[trigger] actions[i] == Action::ClearStatus,
            }
        }),
{
}

/// The run ends on the child's end, on a request to stop and on a failure to
/// read or wait, and on nothing else.
pub proof fn lemma_what_ends_a_run(event: Event)
    ensures
        flow_for(event) is Continue <==> (event is Tick || event is PrimaryLine
            || event is SecondaryLine || event is CancelFailed),
{
}

/// What a failed write makes of a step: the run ends there, whatever the
/// step said. `broken_pipe` tells whether the reader of the supervisor's
/// output had gone away.
pub open spec fn flow_after(flow: Flow, failed_write: Option<bool>) -> Flow {
    match failed_write {
        Some(broken_pipe) => Flow::Finish(RunOutcome::IoError(IoFailure::Write { broken_pipe })),
        None => flow,
    }
}

/// The parts of a run's setup that the event loop goes by.
#[derive(Clone, Copy, Debug, PartialEq, Eq, Structural)]
pub struct Elapsing {
    /// The primary destination is a terminal.
    pub stdout_is_tty: bool,
    /// The elapsed time is to stay visible after the run.
    pub total: bool,
}

impl Elapsing {
    /// What is done before the first event: the status line is printed.
    pub fn start(&self) -> (actions: Vec<Action>)
        ensures
            actions@ == seq![Action::PrintStatus],
    {
        let mut actions: Vec<Action> = Vec::new();
        actions.push(Action::PrintStatus);
        assert(actions@ =~= seq![Action::PrintStatus]);
        actions
    }

    /// Answers one event.
    pub fn event_loop(&self, event: Event) -> (step: Step)
        ensures
            step.actions@ == actions_for(self.stdout_is_tty, event),
            step.flow == flow_for(event),
    {
        let mut actions: Vec<Action> = Vec::new();
        let flow = match event {
            Event::Tick => {
                actions.push(Action::ClearStatus);
                actions.push(Action::PrintStatus);
                Flow::Continue
            },
            Event::PrimaryLine(line) => {
                if self.stdout_is_tty {
                    actions.push(Action::ClearStatus);
                }
                actions.push(Action::WriteStdout(line));
                if self.stdout_is_tty {
                    actions.push(Action::PrintStatus);
                }
                Flow::Continue
            },
            Event::PrimaryFailed => {
                if self.stdout_is_tty {
                    actions.push(Action::ClearStatus);
                }
                Flow::Finish(RunOutcome::IoError(IoFailure::ReadStdout))
            },
            Event::SecondaryLine(line) => {
                actions.push(Action::ClearStatus);
                actions.push(Action::WriteStderr(line));
                actions.push(Action::PrintStatus);
                Flow::Continue
            },
            Event::SecondaryFailed => {
                actions.push(Action::ClearStatus);
                Flow::Finish(RunOutcome::IoError(IoFailure::ReadStderr))
            },
            Event::ChildExited(code) => {
                actions.push(Action::ClearStatus);
                Flow::Finish(RunOutcome::from_exit(code))
            },
            Event::WaitFailed => {
                actions.push(Action::ClearStatus);
                Flow::Finish(RunOutcome::IoError(IoFailure::Wait))
            },
            Event::Cancelled => {
                actions.push(Action::ClearStatus);
                Flow::Finish(RunOutcome::CancelledByUser)
            },
            Event::CancelFailed => Flow::Continue,
        };
        assert(actions@ =~= actions_for(self.stdout_is_tty, event));
        Step { actions, flow }
    }

    /// What a step comes to once its actions were tried: where a write
    /// failed the run ends with that failure, else the step's own flow
    /// stands.
    pub fn after_actions(&self, flow: Flow, failed_write: Option<bool>) -> (next: Flow)
        ensures
            next == flow_after(flow, failed_write),
    {
        match failed_write {
            Some(broken_pipe) => Flow::Finish(
                RunOutcome::IoError(IoFailure::Write { broken_pipe }),
            ),
            None => flow,
        }
    }

    /// What is done after the last event: where the total was asked for, the
    /// elapsed time is printed once more and its line ended.
    pub fn finish(&self) -> (actions: Vec<Action>)
        ensures
            actions@ == if self.total {
                seq![Action::PrintTotal]
            } else {
                Seq::<Action>::empty()
            },
    {
        let mut actions: Vec<Action> = Vec::new();
        if self.total {
            actions.push(Action::PrintTotal);
            assert(actions@ =~= seq![Action::PrintTotal]);
        }
        actions
    }
}

} // verus!
