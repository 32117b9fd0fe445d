//! The places a reader gets the child's output from, and what each makes of
//! the result of a read.

use vstd::prelude::*;

verus! {

/// The error number with which a read from the controlling side of a
/// pseudo-terminal fails once the other side has been closed.
pub const EIO: i32 = 5;

/// Where a reader's bytes come from.
#[derive(Clone, Copy, Debug, PartialEq, Eq, Structural)]
pub enum ChildOutput {
    /// The pipe from the child's standard output.
    Stdout,
    /// The pipe from the child's standard error.
    Stderr,
    /// The controlling side of the child's pseudo-terminal.
    Pty,
    /// Nothing: stands in for a stream that is not captured. It never
    /// produces data and never reports an end.
    Null,
}

/// What the operating system answered to a read.
#[derive(Clone, Debug, PartialEq, Eq)]
pub enum ReadOutcome {
    /// It went well and gave these bytes; none at the end of the stream.
    Data(Vec<u8>),
    /// It failed, with this error number where there is one.
    Failed(Option<i32>),
}

/// What a reader is told of a read.
#[derive(Clone, Debug, PartialEq, Eq)]
pub enum Delivery {
    /// These bytes came; none means that the stream has ended.
    Chunk(Vec<u8>),
    /// The read failed.
    Failure,
    /// Nothing came and nothing ever will: the read never completes, and
    /// the reader goes on waiting.
    Nothing,
}

/// What a [`Delivery`] stands for.
pub enum DeliveryView {
    Chunk(Seq<u8>),
    Failure,
    Nothing,
}

impl View for Delivery {
    type V = DeliveryView;

    open spec fn view(&self) -> DeliveryView {
        match self {
            Delivery::Chunk(bytes) => DeliveryView::Chunk(bytes@),
            Delivery::Failure => DeliveryView::Failure,
            Delivery::Nothing => DeliveryView::Nothing,
        }
    }
}

/// What a source makes of a read's outcome.
///
/// The null source never produces anything and never completes, whatever it
/// is given: not even the end of a stream comes from it. Of the others,
/// bytes are passed on as they are, and a failure stays a failure, but for
/// one case: on a pseudo-terminal, `EIO` only says that the child has closed
/// its side, which is the end of the stream and no failure.
pub open spec fn delivery_for(source: ChildOutput, outcome: ReadOutcome) -> DeliveryView {
    if source is Null {
        DeliveryView::Nothing
    } else {
        match outcome {
            ReadOutcome::Data(bytes) => DeliveryView::Chunk(bytes@),
            ReadOutcome::Failed(errno) => if source is Pty && errno == Some(EIO) {
                DeliveryView::Chunk(Seq::empty())
            } else {
                DeliveryView::Failure
            },
        }
    }
}

/// Only the null source leaves a reader waiting for good, and it always
/// does: every other source answers each read with bytes, the end of the
/// stream or a failure.
pub proof fn lemma_only_null_never_completes(source: ChildOutput, outcome: ReadOutcome)
    ensures
        delivery_for(source, outcome) is Nothing <==> source is Null,
{
}

impl ChildOutput {
    /// Whether there is anything to read from: true of all but the null
    /// source.
    pub fn is_read(&self) -> (r: bool)
        ensures
            r == !(self is Null),
    {
        match self {
            ChildOutput::Null => false,
            _ => true,
        }
    }

    /// Turns the outcome of a read into what the reader is told.
    pub fn poll_read(&self, outcome: ReadOutcome) -> (delivery: Delivery)
        ensures
            delivery@ == delivery_for(*self, outcome),
    {
        match self {
            ChildOutput::Null => Delivery::Nothing,
            ChildOutput::Pty => match outcome {
                ReadOutcome::Data(bytes) => Delivery::Chunk(bytes),
                ReadOutcome::Failed(Some(errno)) => if errno == EIO {
                    Delivery::Chunk(Vec::new())
                } else {
                    Delivery::Failure
                },
                ReadOutcome::Failed(None) => Delivery::Failure,
            },
            _ => match outcome {
                ReadOutcome::Data(bytes) => Delivery::Chunk(bytes),
                ReadOutcome::Failed(_) => Delivery::Failure,
            },
        }
    }
}

} // verus!
