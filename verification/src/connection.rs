//! The connection between a network stream and a terminal.

use vstd::prelude::*;

use crate::codec::{TelnetInputState, split_at_escape};
use crate::io::{Action, Async, Event, Poll, try_nb};
use crate::model::{ConnectionView, ResumePoint, TelnetOutputState};
use crate::protocol::{IAC, TelnetRequest};
use crate::reader::{AsyncBufferedReader, READ_BUF_LEN};
use crate::reply::{SendStep, TelnetReply};

verus! {

/// A telnet connection between the terminal `pty` and the network stream `stream`.
///
/// The two ends are only kept here; see [`TelnetConnection::poll`] for how bytes get
/// from one to the other.
pub struct TelnetConnection<P, S> {
    pty: P,
    stream: S,
    stream_reader: AsyncBufferedReader,
    input_state: TelnetInputState,
    pending_reply: Option<TelnetReply>,
    pty_reader: AsyncBufferedReader,
    output_state: TelnetOutputState,
    point: ResumePoint,
}

impl<P, S> View for TelnetConnection<P, S> {
    type V = ConnectionView;

    closed spec fn view(&self) -> ConnectionView {
        ConnectionView {
            stream_ready: self.stream_reader@,
            input: self.input_state,
            reply: match self.pending_reply {
                Some(reply) => Some(reply@),
                None => None,
            },
            pty_ready: self.pty_reader@,
            output: self.output_state,
            point: self.point,
        }
    }
}

impl<P, S> TelnetConnection<P, S> {
    /// The terminal and the network stream.
    pub closed spec fn ends(&self) -> (P, S) {
        (self.pty, self.stream)
    }

    /// The terminal, to read from and write to.
    pub fn pty(&mut self) -> (r: &mut P)
        ensures
            *r == old(self).ends().0,
            final(self).ends() == (*final(r), old(self).ends().1),
            final(self)@ == old(self)@,
    {
        &mut self.pty
    }

    /// The network stream, to read from and write to.
    pub fn stream(&mut self) -> (r: &mut S)
        ensures
            *r == old(self).ends().1,
            final(self).ends() == (old(self).ends().0, *final(r)),
            final(self)@ == old(self)@,
    {
        &mut self.stream
    }

    /// A connection on which nothing has happened yet.
    pub fn new(m: P, s: S) -> (r: Self)
        ensures
            r@ == ConnectionView::initial(),
            r.ends() == (m, s),
    {
        TelnetConnection {
            pty: m,
            stream: s,
            stream_reader: AsyncBufferedReader::new(),
            input_state: TelnetInputState::Normal,
            pending_reply: None,
            pty_reader: AsyncBufferedReader::new(),
            output_state: TelnetOutputState::Normal,
            point: ResumePoint::Idle,
        }
    }

    /// Ends the call that is under way.
    fn finish<E>(&mut self, outcome: Poll<(), E>) -> (r: Action<E>)
        ensures
            final(self)@ == old(self)@.at(ResumePoint::Idle),
            r == Action::Return(outcome),
            final(self).ends() == old(self).ends(),
    {
        self.point = ResumePoint::Idle;
        Action::Return(outcome)
    }

    /// Uses up what a write to the terminal took.
    fn rx_written(&mut self, n: usize)
        requires
            old(self)@.stream_ready.len() > 0,
            old(self)@.input is Escape || n <= old(self)@.stream_ready.len(),
        ensures
            final(self)@ == old(self)@.rx_written(n),
            final(self).ends() == old(self).ends(),
    {
        if self.input_state == TelnetInputState::Escape {
            self.input_state = TelnetInputState::Normal;
            self.stream_reader.consume(1);
        } else {
            self.stream_reader.consume(n);
        }
    }

    /// Handles input from the network, up to the next operation that has to be done.
    ///
    /// Data is written to the terminal; what a write did not take is written again before
    /// anything that comes after it. An escape is left out, together with the command behind
    /// it; an escaped escape is a byte of data. Every request is refused. While an answer is
    /// pending no other request is taken.
    pub fn handle_stream_rx<E>(&mut self, event: Event<E>) -> (r: Action<E>)
        requires
            old(self)@.rx_fits(event@),
        ensures
            (final(self)@, r@) == old(self)@.rx_resume(event@),
            final(self).ends() == old(self).ends(),
    {
        match event {
            Event::Start => {
                self.point = ResumePoint::Rx;
            },
            Event::Read(result) => {
                match self.stream_reader.borrow_bytes(result) {
                    Ok(Async::Ready(_)) => {},
                    Ok(Async::NotReady) => return self.finish(Ok(Async::NotReady)),
                    Err(error) => return self.finish(Err(error)),
                }
            },
            Event::Written(result) => {
                match try_nb(result) {
                    Ok(Async::Ready(n)) => self.rx_written(n),
                    Ok(Async::NotReady) => return self.finish(Ok(Async::NotReady)),
                    Err(error) => return self.finish(Err(error)),
                }
            },
        }
        self.rx_go_on()
    }

    /// Takes in input until an operation has to be done.
    fn rx_go_on<E>(&mut self) -> (r: Action<E>)
        ensures
            (final(self)@, r@) == old(self)@.rx_go_on::<E>(),
            final(self).ends() == old(self).ends(),
    {
        loop
            invariant
                self@.rx_settle() == old(self)@.rx_settle(),
                self.ends() == old(self).ends(),
            decreases self@.stream_ready.len(),
        {
            let ghost before = self@;
            match self.input_state {
                TelnetInputState::Normal => {
                    let ready = self.stream_reader.ready();
                    if ready.len() == 0 {
                        return Action::ReadStream;
                    }
                    // Split the bytes at the first escape
                    let n: usize = split_at_escape(ready);
                    if n > 0 {
                        // Write any data before the escape
                        let data = vstd::slice::slice_to_vec(
                            vstd::slice::slice_subrange(ready, 0, n),
                        );
                        return Action::WritePty(data);
                    }
                    self.input_state = TelnetInputState::Escape;
                    self.stream_reader.consume(1);
                },
                TelnetInputState::Escape => {
                    let cmd = match self.stream_reader.peek_byte() {
                        Some(cmd) => cmd,
                        None => return Action::ReadStream,
                    };
                    if let Some(req) = TelnetRequest::from_u8(cmd) {
                        // If a request, read the argument
                        self.input_state = TelnetInputState::Request(req);
                    } else if cmd == IAC {
                        // If an escaped escape, pass it through
                        return Action::WritePty(vec![cmd]);
                    } else {
                        self.input_state = TelnetInputState::Normal;
                    }
                    self.stream_reader.consume(1);
                },
                TelnetInputState::Request(_) => {
                    if self.pending_reply.is_some() {
                        // Still need to send the last reply, so we can't queue another
                        return self.finish(Ok(Async::NotReady));
                    }
                    let reqval = match self.stream_reader.get_byte() {
                        Some(reqval) => reqval,
                        None => return Action::ReadStream,
                    };
                    self.pending_reply = Some(TelnetReply::new(TelnetRequest::Wont, reqval));
                    self.input_state = TelnetInputState::Normal;
                },
            }
            assert(before.rx_silent() && self@ == before.rx_take());
        }
    }

    /// Uses up what a write to the network took, where that was not a byte of an answer.
    fn tx_written(&mut self, n: usize)
        requires
            old(self)@.output is Escape || (old(self)@.reply is None
                && old(self)@.pty_ready.len() > 0),
            old(self)@.tx_writes_data() ==> n <= old(self)@.pty_ready.len(),
        ensures
            final(self)@ == old(self)@.tx_written(n),
            final(self).ends() == old(self).ends(),
    {
        match self.output_state {
            TelnetOutputState::Normal => {
                if self.pty_reader.peek_byte() == Some(IAC) {
                    self.pty_reader.consume(1);
                    self.output_state = TelnetOutputState::Escape;
                } else {
                    self.pty_reader.consume(n);
                }
            },
            TelnetOutputState::Escape => {
                self.output_state = TelnetOutputState::Normal;
            },
        }
    }

    /// Handles output to the network, up to the next operation that has to be done.
    ///
    /// A pending answer is sent before any data, but for the second byte of an escape whose
    /// first byte is sent already. Data from the terminal is sent as it is, but for an
    /// escape, which is sent twice; what a write did not take is sent again before anything
    /// that comes after it.
    pub fn handle_stream_tx<E>(&mut self, event: Event<E>) -> (r: Action<E>)
        requires
            old(self)@.tx_fits(event@),
        ensures
            (final(self)@, r@) == old(self)@.tx_resume(event@),
            final(self).ends() == old(self).ends(),
    {
        match event {
            Event::Start => {
                self.point = ResumePoint::Tx;
            },
            Event::Read(result) => {
                match self.pty_reader.borrow_bytes(result) {
                    Ok(Async::Ready(_)) => {},
                    Ok(Async::NotReady) => return self.finish(Ok(Async::NotReady)),
                    Err(error) => return self.finish(Err(error)),
                }
            },
            Event::Written(result) => {
                if self.output_state == TelnetOutputState::Normal {
                    if let Some(reply) = &mut self.pending_reply {
                        proof {
                            crate::reply::lemma_reply_not_empty(*reply);
                        }
                        match reply.send(Some(result)) {
                            SendStep::Return(Ok(Async::Ready(_))) => {},
                            SendStep::Write(byte) => return Action::WriteStream(vec![byte]),
                            SendStep::Return(outcome) => return self.finish(outcome),
                        }
                        self.pending_reply = None;
                        return self.tx_go_on();
                    }
                }
                match try_nb(result) {
                    Ok(Async::Ready(n)) => self.tx_written(n),
                    Ok(Async::NotReady) => return self.finish(Ok(Async::NotReady)),
                    Err(error) => return self.finish(Err(error)),
                }
            },
        }
        self.tx_go_on()
    }

    /// The next operation that the output needs.
    fn tx_go_on<E>(&mut self) -> (r: Action<E>)
        ensures
            final(self)@ == old(self)@,
            r@ == old(self)@.tx_action::<E>(),
            final(self).ends() == old(self).ends(),
    {
        if self.output_state == TelnetOutputState::Escape {
            return Action::WriteStream(vec![IAC]);
        }
        // Send replies before normal data
        if let Some(reply) = &mut self.pending_reply {
            return match reply.send(None) {
                SendStep::Write(byte) => Action::WriteStream(vec![byte]),
                SendStep::Return(outcome) => Action::Return(outcome),
            };
        }
        let ready = self.pty_reader.ready();
        if ready.len() == 0 {
            return Action::ReadPty;
        }
        // Split the bytes at the first escape
        let n: usize = split_at_escape(ready);
        if n > 0 {
            // Write any data before the escape
            Action::WriteStream(
                vstd::slice::slice_to_vec(vstd::slice::slice_subrange(ready, 0, n)),
            )
        } else {
            Action::WriteStream(vec![IAC])
        }
    }

    /// Whether an event can be handed to [`TelnetConnection::handle_stream_rx`].
    pub fn rx_accepts<E>(&self, event: &Event<E>) -> (r: bool)
        ensures
            r == self@.rx_fits(event@),
    {
        let at_rx = self.point == ResumePoint::Rx;
        let stalled = match self.input_state {
            TelnetInputState::Request(_) => self.pending_reply.is_some(),
            _ => false,
        };
        let ready = self.stream_reader.ready();
        match event {
            Event::Start => true,
            Event::Read(result) => at_rx && !stalled && ready.len() == 0 && match result {
                Ok(bytes) => bytes.len() <= READ_BUF_LEN,
                Err(_) => true,
            },
            Event::Written(result) => {
                if !at_rx || stalled || ready.len() == 0 {
                    return false;
                }
                match self.input_state {
                    TelnetInputState::Normal => ready[0] != IAC && match result {
                        Ok(n) => *n <= ready.len(),
                        Err(_) => true,
                    },
                    TelnetInputState::Escape => ready[0] == IAC,
                    TelnetInputState::Request(_) => false,
                }
            },
        }
    }

    /// Whether an event can be handed to [`TelnetConnection::handle_stream_tx`].
    pub fn tx_accepts<E>(&self, event: &Event<E>) -> (r: bool)
        ensures
            r == self@.tx_fits(event@),
    {
        let at_tx = self.point == ResumePoint::Tx;
        let in_escape = self.output_state == TelnetOutputState::Escape;
        let ready = self.pty_reader.ready();
        let reads = !in_escape && self.pending_reply.is_none() && ready.len() == 0;
        match event {
            Event::Start => true,
            Event::Read(result) => at_tx && reads && match result {
                Ok(bytes) => bytes.len() <= READ_BUF_LEN,
                Err(_) => true,
            },
            Event::Written(result) => at_tx && !reads && match result {
                // Only a write of data uses up as many bytes as it took
                Ok(n) => in_escape || self.pending_reply.is_some() || ready[0] == IAC || *n
                    <= ready.len(),
                Err(_) => true,
            },
        }
    }

    /// Whether an event can be handed to [`TelnetConnection::poll`].
    pub fn accepts<E>(&self, event: &Event<E>) -> (r: bool)
        ensures
            r == self@.poll_fits(event@),
    {
        match self.point {
            ResumePoint::Idle => matches!(event, Event::Start),
            ResumePoint::Rx => self.rx_accepts(event),
            ResumePoint::Tx => self.tx_accepts(event),
        }
    }

    /// Moves bytes both ways, up to the next operation that has to be done.
    ///
    /// A call begins with [`Event::Start`]. As long as it asks for a read or a write, that
    /// has to be done and the outcome handed to this function, which takes the call up
    /// again. The call is over with [`Action::Return`]. It never returns
    /// [`Async::Ready`]: a connection goes on until an operation fails or an end has no
    /// more input, and that is an error.
    pub fn poll<E>(&mut self, event: Event<E>) -> (r: Action<E>)
        requires
            old(self)@.poll_fits(event@),
        ensures
            (final(self)@, r@) == old(self)@.poll_resume(event@),
            final(self).ends() == old(self).ends(),
            !(r matches Action::Return(Ok(Async::Ready(_)))),
    {
        if matches!(event, Event::Start) || self.point == ResumePoint::Rx {
            match self.handle_stream_rx(event) {
                Action::Return(Ok(_)) => self.handle_stream_tx(Event::Start),
                action => action,
            }
        } else {
            self.handle_stream_tx(event)
        }
    }
}

} // verus!
