//! How the child is to be started and where its output is read from.

use crate::outcome::SpawnFailure;
use crate::source::ChildOutput;
use vstd::prelude::*;

verus! {

/// What to run and how.
#[derive(Clone, Debug, PartialEq, Eq)]
pub struct Elapsed {
    /// The command, as the bytes of the argument that named it.
    pub cmd: Vec<u8>,
    /// Its arguments, in order.
    pub args: Vec<Vec<u8>>,
    /// Leave the elapsed time visible after the run.
    pub total: bool,
    /// Run the command on a pseudo-terminal.
    pub tty: bool,
    /// On a pseudo-terminal, still read the child's standard error from a
    /// pipe of its own.
    pub split_stderr: bool,
}

/// The size of a terminal.
#[derive(Clone, Copy, Debug, PartialEq, Eq, Structural)]
pub struct PtySize {
    pub rows: u16,
    pub cols: u16,
}

/// How the child is connected to the supervisor.
#[derive(Clone, Copy, Debug, PartialEq, Eq, Structural)]
pub enum Transport {
    /// Through pipes.
    Plain,
    /// Through a pseudo-terminal, which is given this size before the child
    /// starts where one is known, and keeps its own where none is.
    Pty { resize: Option<PtySize> },
}

/// Everything the caller has to do to start the child.
#[derive(Clone, Copy, Debug, PartialEq, Eq, Structural)]
pub struct SpawnPlan {
    pub transport: Transport,
    /// The child reads from the supervisor's own standard input.
    pub inherit_stdin: bool,
    /// The child's standard output goes to a pipe of its own.
    pub pipe_stdout: bool,
    /// The child's standard error goes to a pipe of its own.
    pub pipe_stderr: bool,
    /// The child is killed when the supervisor lets go of it.
    pub kill_on_drop: bool,
    /// Where the primary reader reads.
    pub primary: ChildOutput,
    /// Where the secondary reader reads.
    pub secondary: ChildOutput,
}

/// A step of starting the child.
#[derive(Clone, Copy, Debug, PartialEq, Eq, Structural)]
pub enum SpawnStage {
    /// Opening the pseudo-terminal.
    OpenPty,
    /// Giving it its size.
    ResizePty,
    /// Starting the command.
    Spawn,
}

/// The plan for a child on pipes: one for each of its two output streams.
pub open spec fn plain_plan() -> SpawnPlan {
    SpawnPlan {
        transport: Transport::Plain,
        inherit_stdin: true,
        pipe_stdout: true,
        pipe_stderr: true,
        kill_on_drop: true,
        primary: ChildOutput::Stdout,
        secondary: ChildOutput::Stderr,
    }
}

/// The plan for a child on a pseudo-terminal.
///
/// `terminal` is the width and height of the supervisor's own terminal, if
/// it has one: the pseudo-terminal gets as many columns and rows. The
/// pseudo-terminal carries everything the child writes, unless its standard
/// error is split off into a pipe; where it is not, the secondary reader has
/// nothing to read. What the child reads still comes from the supervisor's
/// own standard input.
pub open spec fn tty_plan(split_stderr: bool, terminal: Option<(u16, u16)>) -> SpawnPlan {
    SpawnPlan {
        transport: Transport::Pty {
            resize: match terminal {
                Some((width, height)) => Some(PtySize { rows: height, cols: width }),
                None => None,
            },
        },
        inherit_stdin: true,
        pipe_stdout: false,
        pipe_stderr: split_stderr,
        kill_on_drop: true,
        primary: ChildOutput::Pty,
        secondary: if split_stderr {
            ChildOutput::Stderr
        } else {
            ChildOutput::Null
        },
    }
}

/// The failure that a stage of starting the child is reported as. On a
/// pseudo-terminal each stage has a failure of its own; on pipes there is
/// only the one stage.
pub open spec fn failure_for(transport: Transport, stage: SpawnStage) -> SpawnFailure {
    match transport {
        Transport::Plain => SpawnFailure::Spawn,
        Transport::Pty { .. } => match stage {
            SpawnStage::OpenPty => SpawnFailure::OpenPty,
            SpawnStage::ResizePty => SpawnFailure::ResizePty,
            SpawnStage::Spawn => SpawnFailure::SpawnPty,
        },
    }
}

impl Elapsed {
    /// How to start the child: on a pseudo-terminal where that was asked
    /// for, else on pipes.
    pub fn spawn(&self, terminal: Option<(u16, u16)>) -> (plan: SpawnPlan)
        ensures
            plan == if self.tty {
                tty_plan(self.split_stderr, terminal)
            } else {
                plain_plan()
            },
    {
        if self.tty {
            self.spawn_tty(terminal)
        } else {
            self.spawn_plain()
        }
    }

    /// How to start the child on pipes.
    pub fn spawn_plain(&self) -> (plan: SpawnPlan)
        ensures
            plan == plain_plan(),
    {
        SpawnPlan {
            transport: Transport::Plain,
            inherit_stdin: true,
            pipe_stdout: true,
            pipe_stderr: true,
            kill_on_drop: true,
            primary: ChildOutput::Stdout,
            secondary: ChildOutput::Stderr,
        }
    }

    /// How to start the child on a pseudo-terminal.
    pub fn spawn_tty(&self, terminal: Option<(u16, u16)>) -> (plan: SpawnPlan)
        ensures
            plan == tty_plan(self.split_stderr, terminal),
    {
        let resize = match terminal {
            Some((width, height)) => Some(PtySize { rows: height, cols: width }),
            None => None,
        };
        let secondary = if self.split_stderr {
            ChildOutput::Stderr
        } else {
            ChildOutput::Null
        };
        SpawnPlan {
            transport: Transport::Pty { resize },
            inherit_stdin: true,
            pipe_stdout: false,
            pipe_stderr: self.split_stderr,
            kill_on_drop: true,
            primary: ChildOutput::Pty,
            secondary,
        }
    }
}

impl SpawnPlan {
    /// The failure to report where `stage` went wrong.
    pub fn failure(&self, stage: SpawnStage) -> (f: SpawnFailure)
        ensures
            f == failure_for(self.transport, stage),
    {
        match self.transport {
            Transport::Plain => SpawnFailure::Spawn,
            Transport::Pty { .. } => match stage {
                SpawnStage::OpenPty => SpawnFailure::OpenPty,
                SpawnStage::ResizePty => SpawnFailure::ResizePty,
                SpawnStage::Spawn => SpawnFailure::SpawnPty,
            },
        }
    }
}

/// Whatever the plan, the child does not outlive the supervisor, and each
/// reader has a source of its own.
pub proof fn lemma_plans(tty: bool, split_stderr: bool, terminal: Option<(u16, u16)>)
    ensures
        ({
            let plan = if tty {
                tty_plan(split_stderr, terminal)
            } else {
                plain_plan()
            };
            &&& plan.kill_on_drop
            &&& plan.inherit_stdin
            &&& plan.primary != plan.secondary
            &&& plan.primary != ChildOutput::Null
            &&& (plan.secondary == ChildOutput::Stderr <==> plan.pipe_stderr)
            &&& (plan.primary == ChildOutput::Stdout <==> plan.pipe_stdout)
        }),
{
}

} // verus!
