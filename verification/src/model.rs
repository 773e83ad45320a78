//! The connection as a state machine, as mathematics.
//!
//! A call on a connection runs until it needs a read or a write, and takes up again
//! with the outcome. The functions here say for every state and event which state
//! comes next and what is asked for.

use vstd::prelude::*;

use crate::codec::TelnetInputState;
use crate::io::{ActionView, Async, ConnectionError, EventView};
use crate::protocol::{IAC, TelnetRequest};
use crate::reader::READ_BUF_LEN;

verus! {

/// How far the output is into an escaped escape.
#[derive(Debug, Clone, Copy, PartialEq, Eq, Structural)]
pub enum TelnetOutputState {
    /// Outside any escape sequence.
    Normal,
    /// One escape is sent; the second is still to come.
    Escape,
}

/// Where a call takes up when the outcome of an operation is there.
#[derive(Debug, Clone, Copy, PartialEq, Eq, Structural)]
pub enum ResumePoint {
    /// No call is under way.
    Idle,
    /// Input from the network.
    Rx,
    /// Output to the network.
    Tx,
}

/// The state of a connection.
#[verifier::ext_equal]
pub struct ConnectionView {
    /// What was read from the network and not used yet.
    pub stream_ready: Seq<u8>,
    /// How far the input is into an escape sequence.
    pub input: TelnetInputState,
    /// What is still to be sent of the pending answer, where there is one.
    pub reply: Option<Seq<u8>>,
    /// What was read from the terminal and not used yet.
    pub pty_ready: Seq<u8>,
    /// How far the output is into an escaped escape.
    pub output: TelnetOutputState,
    /// Where the call under way takes up.
    pub point: ResumePoint,
}

/// The answer to every request: the option in question will not be used.
pub open spec fn refusal(option: u8) -> Seq<u8> {
    seq![IAC, TelnetRequest::Wont.spec_code(), option]
}

/// What may come after an action of a call: a read brings no more than the buffer holds, a
/// write takes no more than it is given, and behind the end of a call comes the next one.
pub open spec fn follows<E>(event: EventView<E>, action: ActionView<E>) -> bool {
    match action {
        ActionView::ReadStream | ActionView::ReadPty => {
            &&& event matches EventView::Read(result)
            &&& result matches Ok(bytes) ==> bytes.len() <= READ_BUF_LEN
        },
        ActionView::WritePty(bytes) | ActionView::WriteStream(bytes) => {
            &&& event matches EventView::Written(result)
            &&& result matches Ok(n) ==> n <= bytes.len()
        },
        ActionView::Return(_) => event is Start,
    }
}

impl ConnectionView {
    /// The state of a new connection.
    pub open spec fn initial() -> Self {
        ConnectionView {
            stream_ready: seq![],
            input: TelnetInputState::Normal,
            reply: None,
            pty_ready: seq![],
            output: TelnetOutputState::Normal,
            point: ResumePoint::Idle,
        }
    }

    // Input from the network.

    /// A request whose argument is next has to wait until the answer before it is sent.
    pub open spec fn rx_stalled(self) -> bool {
        self.input is Request && self.reply is Some
    }

    /// The next byte can be taken in without reading or writing.
    pub open spec fn rx_silent(self) -> bool {
        &&& self.stream_ready.len() > 0
        &&& !self.rx_stalled()
        &&& crate::codec::decode_byte(self.input, self.stream_ready[0]).data.len() == 0
    }

    /// Takes in the next byte. The argument of a request makes the answer to it pending.
    pub open spec fn rx_take(self) -> Self {
        let meaning = crate::codec::decode_byte(self.input, self.stream_ready[0]);
        ConnectionView {
            stream_ready: self.stream_ready.skip(1),
            input: meaning.state,
            reply: if meaning.options.len() > 0 {
                Some(refusal(meaning.options[0]))
            } else {
                self.reply
            },
            ..self
        }
    }

    /// Takes in bytes as long as that needs no reading or writing.
    pub open spec fn rx_settle(self) -> Self
        decreases self.stream_ready.len(),
    {
        if self.rx_silent() {
            self.rx_take().rx_settle()
        } else {
            self
        }
    }

    /// What a settled state calls for.
    pub open spec fn rx_action<E>(self) -> ActionView<E> {
        if self.rx_stalled() {
            ActionView::Return(Ok(Async::NotReady))
        } else if self.stream_ready.len() == 0 {
            ActionView::ReadStream
        } else if self.input is Escape {
            ActionView::WritePty(seq![IAC])
        } else {
            ActionView::WritePty(
                self.stream_ready.take(crate::codec::data_len(self.stream_ready) as int),
            )
        }
    }

    /// The state behind a write to the terminal that took `n` bytes: as much of the data is
    /// used up, and an escape only when it is passed on as data.
    pub open spec fn rx_written(self, n: usize) -> Self {
        if self.input is Escape {
            ConnectionView {
                stream_ready: self.stream_ready.skip(1),
                input: TelnetInputState::Normal,
                ..self
            }
        } else {
            ConnectionView { stream_ready: self.stream_ready.skip(n as int), ..self }
        }
    }

    /// The call under way goes on from here.
    pub open spec fn rx_go_on<E>(self) -> (Self, ActionView<E>) {
        let settled = self.rx_settle();
        if settled.rx_stalled() {
            (settled.at(ResumePoint::Idle), settled.rx_action())
        } else {
            (settled, settled.rx_action())
        }
    }

    /// The event is the outcome of what the input asked for, and uses up no more bytes
    /// than there are.
    pub open spec fn rx_fits<E>(self, event: EventView<E>) -> bool {
        match event {
            EventView::Start => true,
            EventView::Read(result) => {
                &&& self.point is Rx
                &&& self.rx_action::<E>() is ReadStream
                &&& result matches Ok(bytes) ==> bytes.len() <= READ_BUF_LEN
            },
            EventView::Written(result) => {
                &&& self.point is Rx
                &&& !self.rx_silent()
                &&& self.rx_action::<E>() is WritePty
                &&& result matches Ok(n) ==> self.input is Escape || n
                    <= self.stream_ready.len()
            },
        }
    }

    /// The step from the network to the terminal.
    pub open spec fn rx_resume<E>(self, event: EventView<E>) -> (Self, ActionView<E>) {
        match event {
            EventView::Start => self.at(ResumePoint::Rx).rx_go_on(),
            EventView::Read(Ok(bytes)) => {
                let filled = ConnectionView { stream_ready: bytes, ..self };
                if bytes.len() == 0 {
                    (
                        filled.at(ResumePoint::Idle),
                        ActionView::Return(Err(ConnectionError::UnexpectedEof)),
                    )
                } else {
                    filled.rx_go_on()
                }
            },
            EventView::Written(Ok(n)) => self.rx_written(n).rx_go_on(),
            EventView::Read(Err(failure)) | EventView::Written(Err(failure)) => (
                self.at(ResumePoint::Idle),
                ActionView::Return(crate::io::blocked_or_failed(failure)),
            ),
        }
    }

    // Output to the network.

    /// What the state calls for. An escape that was begun is completed first; then a
    /// pending answer comes before any data.
    pub open spec fn tx_action<E>(self) -> ActionView<E> {
        if self.output is Escape {
            ActionView::WriteStream(seq![IAC])
        } else if let Some(rest) = self.reply {
            ActionView::WriteStream(seq![rest[0]])
        } else if self.pty_ready.len() == 0 {
            ActionView::ReadPty
        } else if self.pty_ready[0] == IAC {
            ActionView::WriteStream(seq![IAC])
        } else {
            ActionView::WriteStream(
                self.pty_ready.take(crate::codec::data_len(self.pty_ready) as int),
            )
        }
    }

    /// The write that is asked for is one of data.
    pub open spec fn tx_writes_data(self) -> bool {
        &&& self.output is Normal
        &&& self.reply is None
        &&& self.pty_ready.len() > 0
        &&& self.pty_ready[0] != IAC
    }

    /// The state behind a write to the network that took `n` bytes: of data, as much is
    /// used up; of anything else, the one byte.
    pub open spec fn tx_written(self, n: usize) -> Self {
        if self.output is Escape {
            ConnectionView { output: TelnetOutputState::Normal, ..self }
        } else if let Some(rest) = self.reply {
            ConnectionView {
                reply: if rest.len() == 1 {
                    None
                } else {
                    Some(rest.skip(1))
                },
                ..self
            }
        } else if self.pty_ready[0] == IAC {
            ConnectionView {
                pty_ready: self.pty_ready.skip(1),
                output: TelnetOutputState::Escape,
                ..self
            }
        } else {
            ConnectionView { pty_ready: self.pty_ready.skip(n as int), ..self }
        }
    }

    /// The event is the outcome of what the output asked for, and uses up no more bytes
    /// than there are.
    pub open spec fn tx_fits<E>(self, event: EventView<E>) -> bool {
        match event {
            EventView::Start => true,
            EventView::Read(result) => {
                &&& self.point is Tx
                &&& self.tx_action::<E>() is ReadPty
                &&& result matches Ok(bytes) ==> bytes.len() <= READ_BUF_LEN
            },
            EventView::Written(result) => {
                &&& self.point is Tx
                &&& self.tx_action::<E>() is WriteStream
                &&& result matches Ok(n) ==> (self.tx_writes_data() ==> n
                    <= self.pty_ready.len())
            },
        }
    }

    /// The step from the terminal to the network.
    pub open spec fn tx_resume<E>(self, event: EventView<E>) -> (Self, ActionView<E>) {
        match event {
            EventView::Start => {
                let next = self.at(ResumePoint::Tx);
                (next, next.tx_action())
            },
            EventView::Read(Ok(bytes)) => {
                let filled = ConnectionView { pty_ready: bytes, ..self };
                if bytes.len() == 0 {
                    (
                        filled.at(ResumePoint::Idle),
                        ActionView::Return(Err(ConnectionError::UnexpectedEof)),
                    )
                } else {
                    (filled, filled.tx_action())
                }
            },
            EventView::Written(Ok(n)) => {
                let next = self.tx_written(n);
                (next, next.tx_action())
            },
            EventView::Read(Err(failure)) | EventView::Written(Err(failure)) => (
                self.at(ResumePoint::Idle),
                ActionView::Return(crate::io::blocked_or_failed(failure)),
            ),
        }
    }

    // Both directions.

    /// The same state at another point of a call.
    pub open spec fn at(self, point: ResumePoint) -> Self {
        ConnectionView { point, ..self }
    }

    /// What was asked for and is awaited, if anything.
    pub open spec fn awaited<E>(self) -> Option<ActionView<E>> {
        match self.point {
            ResumePoint::Idle => None,
            ResumePoint::Rx => Some(self.rx_action()),
            ResumePoint::Tx => Some(self.tx_action()),
        }
    }

    /// The event is the start of a call or the outcome of what was asked for, and uses up
    /// no more bytes than there are.
    pub open spec fn poll_fits<E>(self, event: EventView<E>) -> bool {
        match self.point {
            ResumePoint::Idle => event is Start,
            ResumePoint::Rx => self.rx_fits(event),
            ResumePoint::Tx => self.tx_fits(event),
        }
    }

    /// A call handles the input first. Unless that ends in an error it goes on with the
    /// output, and ends as the output does.
    pub open spec fn poll_resume<E>(self, event: EventView<E>) -> (Self, ActionView<E>) {
        if event is Start || self.point is Rx {
            let (next, action) = self.rx_resume(event);
            match action {
                ActionView::Return(Ok(_)) => next.tx_resume(EventView::Start),
                _ => (next, action),
            }
        } else {
            self.tx_resume(event)
        }
    }
}

} // verus!
