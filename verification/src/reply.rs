//! The answer to a request, sent one byte at a time.

use vstd::prelude::*;

use crate::io::{Async, IoFailure, Poll, try_nb};
use crate::protocol::{IAC, TelnetRequest};

verus! {

/// An answer that is on its way. Its view is the sequence of bytes that are still to
/// be sent, which is never empty.
pub struct TelnetReply {
    escape_needed: bool,
    rsp: Option<TelnetRequest>,
    val: u8,
}

/// What [`TelnetReply::send`] asks for.
#[derive(Debug, PartialEq, Eq)]
pub enum SendStep<E> {
    /// Write this byte.
    Write(u8),
    /// The call is over.
    Return(Poll<(), E>),
}

impl View for TelnetReply {
    type V = Seq<u8>;

    closed spec fn view(&self) -> Seq<u8> {
        let escape = if self.escape_needed {
            seq![IAC]
        } else {
            seq![]
        };
        let rsp = match self.rsp {
            Some(rsp) => seq![rsp.spec_code()],
            None => seq![],
        };
        escape + rsp + seq![self.val]
    }
}

impl TelnetReply {
    /// An answer of which nothing is sent yet.
    pub fn new(rsp: TelnetRequest, val: u8) -> (r: Self)
        ensures
            r@ == seq![IAC, rsp.spec_code(), val],
    {
        let reply = TelnetReply { escape_needed: true, rsp: Some(rsp), val };
        assert(reply@ =~= seq![IAC, rsp.spec_code(), val]);
        reply
    }

    /// Sends the answer. A call begins with `None`; after that, `written` is the
    /// outcome of the write of one byte that was asked for last. A call that ends
    /// before everything is sent leaves what is still to be sent for the next one.
    ///
    /// Of a write that went through, the byte counts as sent whatever the number
    /// that was reported.
    pub fn send<E>(&mut self, written: Option<Result<usize, IoFailure<E>>>) -> (r: SendStep<E>)
        ensures
            final(self)@.len() > 0,
            match written {
                None => {
                    &&& final(self)@ == old(self)@
                    &&& r == SendStep::<E>::Write(old(self)@[0])
                },
                Some(Ok(_)) => if old(self)@.len() == 1 {
                    &&& final(self)@ == old(self)@
                    &&& r == SendStep::<E>::Return(Ok(Async::Ready(())))
                } else {
                    &&& final(self)@ == old(self)@.skip(1)
                    &&& r == SendStep::<E>::Write(old(self)@[1])
                },
                Some(Err(failure)) => {
                    &&& final(self)@ == old(self)@
                    &&& r == SendStep::<E>::Return(
                        crate::io::blocked_or_failed::<(), E>(failure),
                    )
                },
            },
    {
        if let Some(result) = written {
            match try_nb(result) {
                Ok(Async::Ready(_)) => {
                    if self.escape_needed {
                        self.escape_needed = false;
                    } else if self.rsp.is_some() {
                        self.rsp = None;
                    } else {
                        return SendStep::Return(Ok(Async::Ready(())));
                    }
                    assert(self@ =~= old(self)@.skip(1));
                },
                Ok(Async::NotReady) => return SendStep::Return(Ok(Async::NotReady)),
                Err(error) => return SendStep::Return(Err(error)),
            }
        }
        if self.escape_needed {
            return SendStep::Write(IAC);
        }
        if let Some(rsp) = self.rsp {
            return SendStep::Write(rsp.code());
        }
        SendStep::Write(self.val)
    }
}

/// There is always something left of an answer.
pub(crate) proof fn lemma_reply_not_empty(reply: TelnetReply)
    ensures
        reply@.len() > 0,
{
}

} // verus!
