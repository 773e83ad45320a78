//! What passes between a connection and whoever does its input and output.
//!
//! The connection never reads or writes by itself. It asks for one operation at a
//! time with an [`Action`] and is told the outcome with an [`Event`].

use vstd::prelude::*;

verus! {

/// Whether a value is there yet.
#[derive(Debug, PartialEq, Eq)]
pub enum Async<T> {
    /// The value is there.
    Ready(T),
    /// The value is not there yet, but may be so later.
    NotReady,
}

/// Why a connection ended.
#[derive(Debug, PartialEq, Eq)]
pub enum ConnectionError<E> {
    /// The peer sent no more bytes.
    UnexpectedEof,
    /// An operation failed.
    Io(E),
}

/// The outcome of a non-blocking operation.
pub type Poll<T, E> = Result<Async<T>, ConnectionError<E>>;

/// The failure of one read or write.
#[derive(Debug, PartialEq, Eq)]
pub struct IoFailure<E> {
    /// Set when the operation did not go through because it would have blocked.
    pub would_block: bool,
    /// The error itself.
    pub error: E,
}

/// What a failed operation means for a call: one that would have blocked is not
/// ready, any other failure is an error.
pub open spec fn blocked_or_failed<T, E>(failure: IoFailure<E>) -> Poll<T, E> {
    if failure.would_block {
        Ok(Async::NotReady)
    } else {
        Err(ConnectionError::Io(failure.error))
    }
}

/// Turns the outcome of one operation into that of a non-blocking call.
pub fn try_nb<T, E>(result: Result<T, IoFailure<E>>) -> (r: Poll<T, E>)
    ensures
        r == (match result {
            Ok(value) => Ok(Async::Ready(value)),
            Err(failure) => blocked_or_failed::<T, E>(failure),
        }),
        r matches Ok(Async::Ready(_)) <==> result is Ok,
        r matches Ok(Async::NotReady) <==> (result matches Err(failure) && failure.would_block),
{
    match result {
        Ok(value) => Ok(Async::Ready(value)),
        Err(failure) => if failure.would_block {
            Ok(Async::NotReady)
        } else {
            Err(ConnectionError::Io(failure.error))
        },
    }
}

/// An operation that would have blocked is not ready, whatever the error; any other failure
/// is an error, and that very one.
pub proof fn law_failure<T, E>(failure: IoFailure<E>)
    ensures
        failure.would_block ==> blocked_or_failed::<T, E>(failure) == Poll::<T, E>::Ok(
            Async::NotReady,
        ),
        !failure.would_block ==> blocked_or_failed::<T, E>(failure) == Poll::<T, E>::Err(
            ConnectionError::Io(failure.error),
        ),
{
}

/// What a connection is told.
#[derive(Debug)]
pub enum Event<E> {
    /// A new call begins.
    Start,
    /// The outcome of the read that was asked for: the bytes that came, where no
    /// bytes mean the end of the input.
    Read(Result<Vec<u8>, IoFailure<E>>),
    /// The outcome of the write that was asked for: how many bytes were taken.
    Written(Result<usize, IoFailure<E>>),
}

/// The mathematical content of an [`Event`].
pub enum EventView<E> {
    Start,
    Read(Result<Seq<u8>, IoFailure<E>>),
    Written(Result<usize, IoFailure<E>>),
}

impl<E> View for Event<E> {
    type V = EventView<E>;

    open spec fn view(&self) -> EventView<E> {
        match *self {
            Event::Start => EventView::Start,
            Event::Read(Ok(bytes)) => EventView::Read(Ok(bytes@)),
            Event::Read(Err(failure)) => EventView::Read(Err(failure)),
            Event::Written(result) => EventView::Written(result),
        }
    }
}

/// What a connection asks for.
#[derive(Debug)]
pub enum Action<E> {
    /// Read from the network stream.
    ReadStream,
    /// Write these bytes to the terminal.
    WritePty(Vec<u8>),
    /// Read from the terminal.
    ReadPty,
    /// Write these bytes to the network stream.
    WriteStream(Vec<u8>),
    /// The call is over.
    Return(Poll<(), E>),
}

/// The mathematical content of an [`Action`].
#[verifier::ext_equal]
pub enum ActionView<E> {
    ReadStream,
    WritePty(Seq<u8>),
    ReadPty,
    WriteStream(Seq<u8>),
    Return(Poll<(), E>),
}

impl<E> View for Action<E> {
    type V = ActionView<E>;

    open spec fn view(&self) -> ActionView<E> {
        match *self {
            Action::ReadStream => ActionView::ReadStream,
            Action::WritePty(bytes) => ActionView::WritePty(bytes@),
            Action::ReadPty => ActionView::ReadPty,
            Action::WriteStream(bytes) => ActionView::WriteStream(bytes@),
            Action::Return(outcome) => ActionView::Return(outcome),
        }
    }
}

/// An event is nothing but what it says: the bytes that were read, all of them, the number
/// that was written, the failure.
pub proof fn law_event_content<E>(event: Event<E>)
    ensures
        event is Start <==> event@ is Start,
        event is Read <==> event@ is Read,
        event is Written <==> event@ is Written,
        event matches Event::Read(Ok(bytes)) ==> event@ == EventView::<E>::Read(Ok(bytes@)),
        event matches Event::Read(Err(failure)) ==> event@ == EventView::<E>::Read(Err(failure)),
        event matches Event::Written(result) ==> event@ == EventView::<E>::Written(result),
{
}

/// An action is nothing but what it says: an end to read from, or an end and the bytes to
/// write to it, all of them, or the outcome of the call.
pub proof fn law_action_content<E>(action: Action<E>)
    ensures
        action is ReadStream <==> action@ is ReadStream,
        action is ReadPty <==> action@ is ReadPty,
        action is WritePty <==> action@ is WritePty,
        action is WriteStream <==> action@ is WriteStream,
        action is Return <==> action@ is Return,
        action matches Action::WritePty(bytes) ==> action@ == ActionView::<E>::WritePty(bytes@),
        action matches Action::WriteStream(bytes) ==> action@ == ActionView::<E>::WriteStream(
            bytes@,
        ),
        action matches Action::Return(outcome) ==> action@ == ActionView::<E>::Return(outcome),
{
}

} // verus!
