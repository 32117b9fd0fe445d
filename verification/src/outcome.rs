//! How a run ends, and what the supervisor's own exit status is then.

use vstd::prelude::*;

verus! {

/// The exit status of a supervisor whose run went well.
pub const SUCCESS: u8 = 0;

/// The exit status of a supervisor whose run did not.
pub const FAILURE: u8 = 1;

/// An input or output operation of the supervisor that failed.
#[derive(Clone, Copy, Debug, PartialEq, Eq, Structural)]
pub enum IoFailure {
    /// Writing the supervisor's own output; `broken_pipe` where whoever read
    /// that output has gone away.
    Write { broken_pipe: bool },
    /// Reading what the child wrote to its standard output.
    ReadStdout,
    /// Reading what the child wrote to its standard error.
    ReadStderr,
    /// Waiting for the child to end.
    Wait,
}

/// Why no child came to run.
#[derive(Clone, Copy, Debug, PartialEq, Eq, Structural)]
pub enum SpawnFailure {
    /// The command could not be started.
    Spawn,
    /// No pseudo-terminal could be opened.
    OpenPty,
    /// The pseudo-terminal could not be given its size.
    ResizePty,
    /// The command could not be started on the pseudo-terminal.
    SpawnPty,
}

/// How a run ended.
#[derive(Clone, Copy, Debug, PartialEq, Eq, Structural)]
pub enum RunOutcome {
    /// The child ran to its end and returned this code.
    ExitedWithCode(u8),
    /// A signal ended the child.
    KilledBySignal,
    /// The user asked for the run to stop.
    CancelledByUser,
    /// The command line named no command, or asked for what this platform
    /// does not offer.
    UsageError,
    /// The child could not be started.
    SpawnError(SpawnFailure),
    /// The supervisor could not read, write or wait.
    IoError(IoFailure),
}

/// The low eight bits of a child's exit code.
pub open spec fn low_byte(code: i32) -> u8 {
    (code & 255) as u8
}

/// The outcome for a child that has ended: with `Some` code where it ran to
/// its end, with `None` where a signal ended it.
pub open spec fn outcome_of_exit(code: Option<i32>) -> RunOutcome {
    match code {
        Some(c) => RunOutcome::ExitedWithCode(low_byte(c)),
        None => RunOutcome::KilledBySignal,
    }
}

/// The low eight bits of a number lie between 0 and 255, and a number in
/// that range is its own low eight bits.
pub proof fn lemma_low_byte(code: i32)
    ensures
        0 <= code & 255 <= 255,
        0 <= code <= 255 ==> low_byte(code) == code,
{
    assert(0 <= code & 255 <= 255) by (bit_vector);
    assert(0 <= code <= 255 ==> code & 255 == code) by (bit_vector);
}

impl RunOutcome {
    /// The supervisor failed to write its own output because nobody reads it
    /// any more.
    pub open spec fn epipe_write(&self) -> bool {
        *self == RunOutcome::IoError(IoFailure::Write { broken_pipe: true })
    }

    /// The exit status that the supervisor ends with: the child's own code
    /// where it ran to its end, success where only the supervisor's reader
    /// went away, failure otherwise.
    pub open spec fn status(&self) -> u8 {
        match self {
            RunOutcome::ExitedWithCode(c) => *c,
            _ => if self.epipe_write() {
                SUCCESS
            } else {
                FAILURE
            },
        }
    }

    /// The outcome is an error that the supervisor tells the user about.
    pub open spec fn reported(&self) -> bool {
        match self {
            RunOutcome::ExitedWithCode(_) => false,
            RunOutcome::CancelledByUser => false,
            _ => !self.epipe_write(),
        }
    }

    /// The outcome for a child that has ended.
    pub fn from_exit(code: Option<i32>) -> (outcome: RunOutcome)
        ensures
            outcome == outcome_of_exit(code),
    {
        match code {
            Some(c) => {
                proof {
                    lemma_low_byte(c);
                }
                RunOutcome::ExitedWithCode((c & 255) as u8)
            },
            None => RunOutcome::KilledBySignal,
        }
    }

    /// Whether the supervisor failed to write its own output because nobody
    /// reads it any more.
    pub fn is_epipe_write(&self) -> (r: bool)
        ensures
            r == self.epipe_write(),
    {
        match self {
            RunOutcome::IoError(IoFailure::Write { broken_pipe }) => *broken_pipe,
            _ => false,
        }
    }

    /// The exit status that the supervisor ends with.
    pub fn exit_status(&self) -> (code: u8)
        ensures
            code == self.status(),
    {
        match self {
            RunOutcome::ExitedWithCode(c) => *c,
            _ => if self.is_epipe_write() {
                SUCCESS
            } else {
                FAILURE
            },
        }
    }

    /// Whether the supervisor tells the user about this outcome.
    pub fn is_reported(&self) -> (r: bool)
        ensures
            r == self.reported(),
    {
        match self {
            RunOutcome::ExitedWithCode(_) => false,
            RunOutcome::CancelledByUser => false,
            _ => !self.is_epipe_write(),
        }
    }
}

/// A child that a signal ended is never taken for one that returned a code,
/// whatever the code, and the supervisor does not end in success then.
pub proof fn lemma_signal_is_no_exit_code(code: u8)
    ensures
        outcome_of_exit(None) != RunOutcome::ExitedWithCode(code),
        outcome_of_exit(None).status() != SUCCESS,
        outcome_of_exit(None).reported(),
{
}

/// Cancellation, usage errors and failures to start the child all end the
/// supervisor in failure.
pub proof fn lemma_failures_fail(outcome: RunOutcome)
    requires
        !(outcome is ExitedWithCode),
        !outcome.epipe_write(),
    ensures
        outcome.status() == FAILURE,
{
}

} // verus!
