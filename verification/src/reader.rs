//! A read buffer that is filled by one read at a time.

use vstd::prelude::*;

use crate::io::{Async, ConnectionError, IoFailure, Poll, try_nb};

verus! {

/// How many bytes one read brings at most.
pub const READ_BUF_LEN: usize = 128;

/// Bytes that were read and not yet used. Its view is the sequence of those bytes.
pub struct AsyncBufferedReader {
    read_buf: [u8; 128],
    read_pos: usize,
    read_len: usize,
}

/// The buffer of a reader and the two positions in it.
#[verifier::ext_equal]
pub struct ReaderState {
    /// The whole buffer, with bytes that were used up or never read.
    pub buffer: Seq<u8>,
    /// Where the next byte stands.
    pub position: int,
    /// How many bytes the last read brought.
    pub length: int,
}

impl ReaderState {
    /// The state of a new reader.
    pub open spec fn initial() -> Self {
        ReaderState {
            buffer: Seq::new(READ_BUF_LEN as nat, |i: int| 0u8),
            position: 0,
            length: 0,
        }
    }

    /// The bytes that were read and not yet used.
    pub open spec fn unread(self) -> Seq<u8> {
        if self.position < self.length {
            self.buffer.subrange(self.position, self.length)
        } else {
            Seq::empty()
        }
    }

    /// Both positions are inside the buffer. This holds of every reader.
    pub open spec fn bounded(self) -> bool {
        &&& self.buffer.len() == READ_BUF_LEN
        &&& 0 <= self.position <= READ_BUF_LEN
        &&& 0 <= self.length <= READ_BUF_LEN
    }

    /// The next byte stands inside what was read, or right behind it. This holds of every
    /// reader whose last read was not the end of the input.
    pub open spec fn ordered(self) -> bool {
        self.bounded() && self.position <= self.length
    }

    /// After a read that brought these bytes: they are at the front of the buffer, and the
    /// first of them is next. A read that brought nothing leaves the position where it was.
    pub open spec fn refilled(self, bytes: Seq<u8>) -> Self {
        ReaderState {
            buffer: bytes + self.buffer.skip(bytes.len() as int),
            position: if bytes.len() == 0 {
                self.position
            } else {
                0
            },
            length: bytes.len() as int,
        }
    }

    /// After so many of the bytes were used up.
    pub open spec fn consumed(self, bytes: int) -> Self {
        ReaderState { position: self.position + bytes, ..self }
    }
}

impl View for AsyncBufferedReader {
    type V = Seq<u8>;

    open spec fn view(&self) -> Seq<u8> {
        self.state().unread()
    }
}

impl AsyncBufferedReader {
    #[verifier::type_invariant]
    spec fn inv(self) -> bool {
        &&& self.read_pos <= READ_BUF_LEN
        &&& self.read_len <= READ_BUF_LEN
    }

    /// The buffer and the positions in it.
    pub closed spec fn state(&self) -> ReaderState {
        ReaderState {
            buffer: self.read_buf@,
            position: self.read_pos as int,
            length: self.read_len as int,
        }
    }

    /// A reader with nothing in it.
    pub fn new() -> (r: Self)
        ensures
            r.state() == ReaderState::initial(),
            r.state().ordered(),
            r@ == Seq::<u8>::empty(),
    {
        let reader = AsyncBufferedReader { read_buf: [0; 128], read_pos: 0, read_len: 0 };
        assert(reader.state() =~= ReaderState::initial());
        reader
    }

    /// The bytes that are ready, which may be none.
    pub fn ready(&self) -> (r: &[u8])
        ensures
            r@ == self@,
            r@.len() <= READ_BUF_LEN,
            self.state().bounded(),
    {
        proof {
            use_type_invariant(self);
        }
        if self.read_len > self.read_pos {
            vstd::slice::slice_subrange(self.read_buf.as_slice(), self.read_pos, self.read_len)
        } else {
            vstd::slice::slice_subrange(self.read_buf.as_slice(), 0, 0)
        }
    }

    /// The bytes that are ready, at least one. Where there are none, `read` is the
    /// outcome of a read that was made for more; otherwise it is not looked at.
    ///
    /// A read that brings nothing is the end of the input, which is an error. Only that one
    /// can leave the position behind the end of what was read. A read that fails changes
    /// nothing.
    pub fn borrow_bytes<E>(&mut self, read: Result<Vec<u8>, IoFailure<E>>) -> (r: Poll<&[u8], E>)
        requires
            old(self)@.len() == 0 ==> (read matches Ok(bytes) ==> bytes@.len() <= READ_BUF_LEN),
        ensures
            final(self).state() == (if old(self)@.len() == 0 && read is Ok {
                old(self).state().refilled(read->Ok_0@)
            } else {
                old(self).state()
            }),
            final(self).state().bounded(),
            old(self).state().ordered() && r != Poll::<&[u8], E>::Err(
                ConnectionError::UnexpectedEof,
            ) ==> final(self).state().ordered(),
            old(self)@.len() > 0 ==> {
                &&& final(self)@ == old(self)@
                &&& r matches Ok(Async::Ready(bytes)) && bytes@ == old(self)@
            },
            old(self)@.len() == 0 ==> match read {
                Ok(bytes) => {
                    &&& final(self)@ == bytes@
                    &&& bytes@.len() == 0 ==> r == Poll::<&[u8], E>::Err(
                        ConnectionError::UnexpectedEof,
                    )
                    &&& bytes@.len() > 0 ==> (r matches Ok(Async::Ready(ready)) && ready@
                        == bytes@)
                },
                Err(failure) => {
                    &&& final(self)@ == old(self)@
                    &&& r == crate::io::blocked_or_failed::<&[u8], E>(failure)
                },
            },
    {
        proof {
            use_type_invariant(&*self);
        }
        if self.read_len > self.read_pos {
            return Ok(Async::Ready(self.ready()));
        }
        let bytes = match try_nb(read) {
            Ok(Async::Ready(bytes)) => bytes,
            Ok(Async::NotReady) => return Ok(Async::NotReady),
            Err(error) => return Err(error),
        };
        self.fill(&bytes);
        if self.read_len == 0 {
            return Err(ConnectionError::UnexpectedEof);
        }
        Ok(Async::Ready(self.ready()))
    }

    /// Puts the bytes of one read in place of what was there.
    fn fill(&mut self, bytes: &Vec<u8>)
        requires
            bytes@.len() <= READ_BUF_LEN,
            old(self)@.len() == 0,
        ensures
            final(self)@ == bytes@,
            final(self).state() == old(self).state().refilled(bytes@),
    {
        proof {
            use_type_invariant(&*self);
        }
        let mut buf: [u8; 128] = self.read_buf;
        let mut i: usize = 0;
        while i < bytes.len()
            invariant
                i <= bytes@.len() <= READ_BUF_LEN,
                forall|j: int| 0 <= j < i ==> buf@[j] == bytes@[j],
                forall|j: int| i <= j < READ_BUF_LEN ==> buf@[j] == self.read_buf@[j],
            decreases bytes@.len() - i,
        {
            buf[i] = bytes[i];
            i += 1;
        }
        self.read_buf = buf;
        self.read_len = bytes.len();
        if self.read_len > 0 {
            self.read_pos = 0;
        }
        assert(self.state() =~= old(self).state().refilled(bytes@));
        assert(self@ =~= bytes@);
    }

    /// The next byte, left where it is. There is none when a read has to come first.
    pub fn peek_byte(&self) -> (r: Option<u8>)
        ensures
            r == (if self@.len() > 0 {
                Some(self@[0])
            } else {
                None
            }),
    {
        let ready = self.ready();
        if ready.len() > 0 {
            Some(ready[0])
        } else {
            None
        }
    }

    /// The next byte, taken out. There is none when a read has to come first.
    pub fn get_byte(&mut self) -> (r: Option<u8>)
        ensures
            r == (if old(self)@.len() > 0 {
                Some(old(self)@[0])
            } else {
                None
            }),
            final(self).state() == (if old(self)@.len() > 0 {
                old(self).state().consumed(1)
            } else {
                old(self).state()
            }),
            final(self).state().bounded(),
            old(self).state().ordered() ==> final(self).state().ordered(),
            final(self)@ == (if old(self)@.len() > 0 {
                old(self)@.skip(1)
            } else {
                old(self)@
            }),
    {
        proof {
            use_type_invariant(&*self);
        }
        let next = self.peek_byte();
        if next.is_some() {
            self.consume(1);
        }
        next
    }

    /// Takes out as many of the ready bytes. Meant to be used with
    /// [`AsyncBufferedReader::ready`]. Only the position moves; the buffer and the number of
    /// bytes that were read stay as they were.
    pub fn consume(&mut self, bytes: usize)
        requires
            bytes <= old(self)@.len(),
        ensures
            final(self).state() == old(self).state().consumed(bytes as int),
            final(self).state().bounded(),
            old(self).state().ordered() ==> final(self).state().ordered(),
            final(self)@ == old(self)@.skip(bytes as int),
    {
        proof {
            use_type_invariant(&*self);
        }
        self.read_pos += bytes;
        assert(self@ =~= old(self)@.skip(bytes as int));
    }
}

/// A new reader has a buffer of 128 zeros, stands at its front, and has read nothing.
pub proof fn law_new_reader(i: int)
    ensures
        ({
            let state = ReaderState::initial();
            &&& state.buffer.len() == 128
            &&& 0 <= i < 128 ==> state.buffer[i] == 0
            &&& state.position == 0
            &&& state.length == 0
        }),
{
}

/// Both positions are at most 128, and they are in order when the next byte stands no further
/// than what was read.
pub proof fn law_reader_bounds(state: ReaderState)
    ensures
        state.bounded() <==> {
            &&& state.buffer.len() == 128
            &&& 0 <= state.position <= 128
            &&& 0 <= state.length <= 128
        },
        state.ordered() <==> state.bounded() && state.position <= state.length,
{
}

/// The unread bytes are those of the buffer from the position up to the number of bytes that
/// were read, in order; there are none where the position is not before it.
pub proof fn law_unread(state: ReaderState, i: int)
    requires
        state.bounded(),
    ensures
        state.unread().len() == (if state.position < state.length {
            state.length - state.position
        } else {
            0
        }),
        0 <= i < state.unread().len() ==> state.unread()[i] == state.buffer[state.position + i],
{
}

/// Of a reader whose next byte stands inside what was read, the same holds after a read that
/// brought something, and after using up any of the unread bytes.
pub proof fn law_reader_stays_ordered(state: ReaderState, bytes: Seq<u8>, n: int)
    requires
        state.ordered(),
        0 < bytes.len() <= READ_BUF_LEN,
        0 <= n <= state.unread().len(),
    ensures
        state.refilled(bytes).ordered(),
        state.consumed(n).ordered(),
{
}

/// Using up bytes leaves the buffer and the number of bytes that were read as they were, and
/// of the unread bytes those behind the used ones.
pub proof fn law_consume(state: ReaderState, n: int)
    requires
        state.bounded(),
        0 <= n <= state.unread().len(),
    ensures
        state.consumed(n).buffer == state.buffer,
        state.consumed(n).length == state.length,
        state.consumed(n).position == state.position + n,
        state.consumed(n).unread() == state.unread().skip(n),
{
    assert(state.consumed(n).unread() =~= state.unread().skip(n));
}

/// Using up bytes in two parts is using them up at once, and using up none changes nothing.
pub proof fn law_consume_in_parts(state: ReaderState, a: int, b: int)
    ensures
        state.consumed(a).consumed(b) == state.consumed(a + b),
        state.consumed(0) == state,
{
}

/// What a read brought is what is unread afterwards. It is at the front of the buffer, and the
/// bytes behind it are left as they were. A read that brought nothing does not move the
/// position.
pub proof fn law_refill(state: ReaderState, bytes: Seq<u8>)
    requires
        state.bounded(),
        bytes.len() <= READ_BUF_LEN,
    ensures
        state.refilled(bytes).bounded(),
        state.refilled(bytes).unread() == bytes,
        state.refilled(bytes).length == bytes.len(),
        state.refilled(bytes).position == (if bytes.len() > 0 {
            0
        } else {
            state.position
        }),
        forall|i: int|
            0 <= i < 128 ==> #[trigger] state.refilled(bytes).buffer[i] == (if i < bytes.len() {
                bytes[i]
            } else {
                state.buffer[i]
            }),
{
    assert(state.refilled(bytes).unread() =~= bytes);
}

} // verus!
