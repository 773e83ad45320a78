//! What holds of everything that goes through a connection.

use vstd::prelude::*;

use crate::codec::TelnetInputState;
use crate::io::{ActionView, Async, EventView};
use crate::model::{ConnectionView, ResumePoint};
use crate::protocol::IAC;
use crate::reader::READ_BUF_LEN;

verus! {

/// A connection together with all bytes that were read and written on it so far.
#[verifier::ext_equal]
pub struct Traffic {
    /// The state that the connection is in.
    pub state: ConnectionView,
    /// Everything that was read from the network.
    pub stream_in: Seq<u8>,
    /// Everything that was written to the network.
    pub stream_out: Seq<u8>,
    /// Everything that was read from the terminal.
    pub pty_in: Seq<u8>,
    /// Everything that was written to the terminal.
    pub pty_out: Seq<u8>,
}

impl Traffic {
    /// Before anything has happened.
    pub open spec fn initial() -> Self {
        Traffic {
            state: ConnectionView::initial(),
            stream_in: seq![],
            stream_out: seq![],
            pty_in: seq![],
            pty_out: seq![],
        }
    }

    /// After one more event. A read brings its bytes in; a write puts out as many of its
    /// bytes as it took.
    pub open spec fn after<E>(self, event: EventView<E>) -> Self {
        let state = self.state.poll_resume(event).0;
        match (self.state.awaited::<E>(), event) {
            (Some(ActionView::ReadStream), EventView::Read(Ok(bytes))) => Traffic {
                state,
                stream_in: self.stream_in + bytes,
                ..self
            },
            (Some(ActionView::ReadPty), EventView::Read(Ok(bytes))) => Traffic {
                state,
                pty_in: self.pty_in + bytes,
                ..self
            },
            (Some(ActionView::WritePty(bytes)), EventView::Written(Ok(n))) => Traffic {
                state,
                pty_out: self.pty_out + bytes.take(n as int),
                ..self
            },
            (Some(ActionView::WriteStream(bytes)), EventView::Written(Ok(n))) => Traffic {
                state,
                stream_out: self.stream_out + bytes.take(n as int),
                ..self
            },
            _ => Traffic { state, ..self },
        }
    }

    /// The write that is awaited may be cut short and gone on with later: it is one of data,
    /// and not the one byte of an escape or an answer.
    pub open spec fn may_be_short(self) -> bool {
        if self.state.point is Rx {
            self.state.input is Normal
        } else {
            self.state.tx_writes_data()
        }
    }

    /// The write of `bytes` took `n` of them without harm: all, or some of the data.
    pub open spec fn whole(self, bytes: Seq<u8>, n: usize) -> bool {
        n == bytes.len() || (n < bytes.len() && self.may_be_short())
    }

    /// The event fits, and a write to the terminal does not report that it took nothing
    /// where it was given one byte for an escape.
    pub open spec fn sound_in<E>(self, event: EventView<E>) -> bool {
        &&& self.state.poll_fits(event)
        &&& event matches EventView::Written(Ok(n)) ==> (self.state.awaited::<E>() matches Some(
            ActionView::WritePty(bytes),
        ) ==> self.whole(bytes, n))
    }

    /// The event fits, and a write to the network does not report that it took nothing
    /// where it was given one byte for an escape or of an answer.
    pub open spec fn sound_out<E>(self, event: EventView<E>) -> bool {
        &&& self.state.poll_fits(event)
        &&& event matches EventView::Written(Ok(n)) ==> (self.state.awaited::<E>() matches Some(
            ActionView::WriteStream(bytes),
        ) ==> self.whole(bytes, n))
    }

    /// What is on its way to the network but for data that was not looked at yet: the
    /// second byte of an escaped escape, and the pending answer.
    pub open spec fn owed(self) -> Seq<u8> {
        let escape = if self.state.output is Escape {
            seq![IAC]
        } else {
            seq![]
        };
        match self.state.reply {
            Some(rest) => escape + rest,
            None => escape,
        }
    }

    /// Nothing is left in the connection.
    pub open spec fn at_rest(self) -> bool {
        &&& self.state.stream_ready.len() == 0
        &&& self.state.pty_ready.len() == 0
        &&& self.owed().len() == 0
    }

    /// The event is the write of the last byte of an answer.
    pub open spec fn completes_answer<E>(self, event: EventView<E>) -> bool {
        &&& self.state.point is Tx
        &&& self.state.output is Normal
        &&& self.state.reply matches Some(left) && left.len() == 1
        &&& event matches EventView::Written(Ok(_))
    }
}

/// What the events bring about on a new connection.
pub open spec fn traffic<E>(events: Seq<EventView<E>>) -> Traffic
    decreases events.len(),
{
    if events.len() == 0 {
        Traffic::initial()
    } else {
        traffic(events.drop_last()).after(events.last())
    }
}

/// Each event fits where it comes.
pub open spec fn all_fit<E>(events: Seq<EventView<E>>) -> bool
    decreases events.len(),
{
    events.len() > 0 ==> {
        &&& all_fit(events.drop_last())
        &&& traffic(events.drop_last()).state.poll_fits(events.last())
    }
}

/// Each event is sound for the input where it comes.
pub open spec fn all_sound_in<E>(events: Seq<EventView<E>>) -> bool
    decreases events.len(),
{
    events.len() > 0 ==> {
        &&& all_sound_in(events.drop_last())
        &&& traffic(events.drop_last()).sound_in(events.last())
    }
}

/// Each event is sound for the output where it comes.
pub open spec fn all_sound_out<E>(events: Seq<EventView<E>>) -> bool
    decreases events.len(),
{
    events.len() > 0 ==> {
        &&& all_sound_out(events.drop_last())
        &&& traffic(events.drop_last()).sound_out(events.last())
    }
}

/// No answer is pending at any time.
pub open spec fn never_answers<E>(events: Seq<EventView<E>>) -> bool
    decreases events.len(),
{
    &&& traffic(events).state.reply is None
    &&& events.len() > 0 ==> never_answers(events.drop_last())
}

/// How many answers were sent to the last byte.
pub open spec fn answers_sent<E>(events: Seq<EventView<E>>) -> nat
    decreases events.len(),
{
    if events.len() == 0 {
        0
    } else {
        let before = events.drop_last();
        answers_sent(before) + if traffic(before).completes_answer(events.last()) {
            1nat
        } else {
            0nat
        }
    }
}

// What the client is sent.

/// Something that is sent to the client.
pub enum Sent {
    /// A byte of data.
    Data(u8),
    /// The refusal of an option.
    Answer(u8),
}

/// The bytes that stand for one thing that is sent.
pub open spec fn wire_of(item: Sent) -> Seq<u8> {
    match item {
        Sent::Data(byte) => crate::codec::encode(seq![byte]),
        Sent::Answer(option) => crate::model::refusal(option),
    }
}

/// The bytes that stand for all that is sent.
pub open spec fn wire(items: Seq<Sent>) -> Seq<u8>
    decreases items.len(),
{
    if items.len() == 0 {
        seq![]
    } else {
        wire(items.drop_last()) + wire_of(items.last())
    }
}

/// The data in what is sent.
pub open spec fn data_of(items: Seq<Sent>) -> Seq<u8>
    decreases items.len(),
{
    if items.len() == 0 {
        seq![]
    } else {
        match items.last() {
            Sent::Data(byte) => data_of(items.drop_last()).push(byte),
            Sent::Answer(_) => data_of(items.drop_last()),
        }
    }
}

/// The options that are refused in what is sent.
pub open spec fn answers_of(items: Seq<Sent>) -> Seq<u8>
    decreases items.len(),
{
    if items.len() == 0 {
        seq![]
    } else {
        match items.last() {
            Sent::Data(_) => answers_of(items.drop_last()),
            Sent::Answer(option) => answers_of(items.drop_last()).push(option),
        }
    }
}

/// The refusals of some options, one after the other.
pub open spec fn refusals(options: Seq<u8>) -> Seq<u8>
    decreases options.len(),
{
    if options.len() == 0 {
        seq![]
    } else {
        refusals(options.drop_last()) + crate::model::refusal(options.last())
    }
}

/// What was written to the network and is owed to it stands for exactly these items, and
/// their data is what was read from the terminal but for the bytes still in the buffer.
pub open spec fn sent_as(t: Traffic, items: Seq<Sent>) -> bool {
    &&& t.stream_out + t.owed() == wire(items)
    &&& t.pty_in == data_of(items) + t.state.pty_ready
}

/// The options that these items refuse are those that what was read from the network asks
/// about, but for those still in the buffer.
pub open spec fn asked_as(t: Traffic, items: Seq<Sent>) -> bool {
    crate::codec::decode(TelnetInputState::Normal, t.stream_in).options == answers_of(items)
        + crate::codec::decode(t.state.input, t.state.stream_ready).options
}

// What the proofs go by.

/// Everything that was read from the network means what was written to the terminal, and
/// behind it what the bytes still in the buffer mean.
spec fn input_kept(t: Traffic) -> bool {
    let received = crate::codec::decode(TelnetInputState::Normal, t.stream_in);
    let rest = crate::codec::decode(t.state.input, t.state.stream_ready);
    &&& received.state == rest.state
    &&& received.data == t.pty_out + rest.data
}

/// Without a request in the input there is no answer to one.
spec fn unasked(t: Traffic) -> bool {
    crate::codec::decode(TelnetInputState::Normal, t.stream_in).options.len() == 0 ==> {
        &&& t.state.reply is None
        &&& crate::codec::decode(t.state.input, t.state.stream_ready).options.len() == 0
    }
}

spec fn output_kept(t: Traffic, items: Seq<Sent>) -> bool {
    &&& sent_as(t, items)
    &&& t.state.reply matches Some(left) ==> left.len() > 0
}

/// How many of the answers are not pending.
spec fn done(t: Traffic, items: Seq<Sent>) -> int {
    answers_of(items).len() - if t.state.reply is Some {
        1int
    } else {
        0int
    }
}

/// Puts one item behind the others.
proof fn lemma_push(items: Seq<Sent>, item: Sent)
    ensures
        wire(items.push(item)) == wire(items) + wire_of(item),
        data_of(items.push(item)) == (match item {
            Sent::Data(byte) => data_of(items).push(byte),
            Sent::Answer(_) => data_of(items),
        }),
        answers_of(items.push(item)) == (match item {
            Sent::Data(_) => answers_of(items),
            Sent::Answer(option) => answers_of(items).push(option),
        }),
{
    assert(items.push(item).drop_last() =~= items);
}

/// Puts data behind the other items.
proof fn lemma_push_data(items: Seq<Sent>, data: Seq<u8>) -> (next: Seq<Sent>)
    ensures
        wire(next) == wire(items) + crate::codec::encode(data),
        data_of(next) == data_of(items) + data,
        answers_of(next) == answers_of(items),
    decreases data.len(),
{
    if data.len() == 0 {
        assert(wire(items) + crate::codec::encode(data) =~= wire(items));
        assert(data_of(items) + data =~= data_of(items));
        items
    } else {
        let most = data.drop_last();
        let before = lemma_push_data(items, most);
        lemma_push(before, Sent::Data(data.last()));
        assert(data =~= most + seq![data.last()]);
        crate::codec::law_encode_in_pieces(most, seq![data.last()]);
        let next = before.push(Sent::Data(data.last()));
        assert(wire(next) =~= wire(items) + crate::codec::encode(data));
        assert(data_of(next) =~= data_of(items) + data);
        next
    }
}

proof fn lemma_decode_refusal(option: u8)
    ensures
        crate::codec::decode(TelnetInputState::Normal, crate::model::refusal(option)) == (
        crate::codec::Decoded {
            state: TelnetInputState::Normal,
            data: seq![],
            options: seq![option],
        }),
{
    let bytes = crate::model::refusal(option);
    reveal_with_fuel(crate::codec::decode, 4);
    assert(bytes.skip(1).skip(1).skip(1).len() == 0);
    assert(bytes.skip(1)[0] == bytes[1]);
    assert(bytes.skip(1).skip(1)[0] == option);
    let d = crate::codec::decode(TelnetInputState::Normal, bytes);
    assert(d.data =~= seq![]);
    assert(d.options =~= seq![option]);
}

/// What stands for one thing that is sent: a byte of data is sent as it is, but for 255, which
/// is sent twice, and the refusal of an option is 255, 252 and the option.
pub proof fn law_wire_bytes(item: Sent)
    ensures
        wire_of(item) == (match item {
            Sent::Data(byte) => if byte == 255 {
                seq![255u8, 255u8]
            } else {
                seq![byte]
            },
            Sent::Answer(option) => seq![255u8, 252u8, option],
        }),
{
    if let Sent::Data(byte) = item {
        crate::codec::law_encode_byte(byte);
    }
}

/// A client that decodes what it is sent has the data, and the answers as requests.
pub proof fn law_wire_decodes(items: Seq<Sent>)
    ensures
        crate::codec::decode(TelnetInputState::Normal, wire(items)) == (crate::codec::Decoded {
            state: TelnetInputState::Normal,
            data: data_of(items),
            options: answers_of(items),
        }),
    decreases items.len(),
{
    if items.len() > 0 {
        let most = items.drop_last();
        law_wire_decodes(most);
        crate::codec::law_decode_in_pieces(
            TelnetInputState::Normal,
            wire(most),
            wire_of(items.last()),
        );
        match items.last() {
            Sent::Data(byte) => {
                crate::codec::law_encode_decode(seq![byte]);
                assert(data_of(most) + seq![byte] =~= data_of(items));
                assert(answers_of(most) + seq![] =~= answers_of(items));
            },
            Sent::Answer(option) => {
                lemma_decode_refusal(option);
                assert(data_of(most) + seq![] =~= data_of(items));
                assert(answers_of(most) + seq![option] =~= answers_of(items));
            },
        }
    }
}

/// Taking in a byte keeps what holds; the argument of a request brings the answer to it.
proof fn lemma_rx_take(t: Traffic, items: Seq<Sent>) -> (sent: Seq<Sent>)
    requires
        t.state.rx_silent(),
    ensures
        ({
            let next = Traffic { state: t.state.rx_take(), ..t };
            &&& input_kept(t) ==> input_kept(next)
            &&& unasked(t) ==> unasked(next)
            &&& output_kept(t, items) ==> output_kept(next, sent)
            &&& asked_as(t, items) ==> asked_as(next, sent)
            &&& done(next, sent) == done(t, items)
        }),
{
    let next = Traffic { state: t.state.rx_take(), ..t };
    let meaning = crate::codec::decode_byte(t.state.input, t.state.stream_ready[0]);
    let rest = crate::codec::decode(meaning.state, t.state.stream_ready.skip(1));
    assert(meaning.data + rest.data =~= rest.data);
    if meaning.options.len() > 0 {
        let option = t.state.stream_ready[0];
        lemma_push(items, Sent::Answer(option));
        assert(t.stream_out + next.owed() =~= (t.stream_out + t.owed()) + crate::model::refusal(
            option,
        ));
        assert(answers_of(items) + (meaning.options + rest.options) =~= answers_of(items).push(
            option,
        ) + rest.options);
        assert((meaning.options + rest.options).len() > 0);
        items.push(Sent::Answer(option))
    } else {
        assert(meaning.options + rest.options =~= rest.options);
        items
    }
}

/// Taking in bytes until an operation is needed keeps what holds.
proof fn lemma_rx_settle(t: Traffic, items: Seq<Sent>) -> (sent: Seq<Sent>)
    ensures
        ({
            let next = Traffic { state: t.state.rx_settle(), ..t };
            &&& next.state.point == t.state.point
            &&& next.state.pty_ready == t.state.pty_ready
            &&& next.state.output == t.state.output
            &&& next.state.stream_ready.len() <= t.state.stream_ready.len()
            &&& input_kept(t) ==> input_kept(next)
            &&& unasked(t) ==> unasked(next)
            &&& output_kept(t, items) ==> output_kept(next, sent)
            &&& asked_as(t, items) ==> asked_as(next, sent)
            &&& done(next, sent) == done(t, items)
        }),
    decreases t.state.stream_ready.len(),
{
    if t.state.rx_silent() {
        let mid = lemma_rx_take(t, items);
        lemma_rx_settle(Traffic { state: t.state.rx_take(), ..t }, mid)
    } else {
        items
    }
}

/// Bytes from the network keep what holds.
proof fn lemma_rx_read(t: Traffic, items: Seq<Sent>, bytes: Seq<u8>)
    requires
        t.state.stream_ready.len() == 0,
        input_kept(t),
    ensures
        ({
            let next = Traffic {
                state: ConnectionView { stream_ready: bytes, ..t.state },
                stream_in: t.stream_in + bytes,
                ..t
            };
            &&& input_kept(next)
            &&& unasked(t) ==> unasked(next)
            &&& asked_as(t, items) ==> asked_as(next, items)
        }),
{
    crate::codec::law_decode_in_pieces(TelnetInputState::Normal, t.stream_in, bytes);
    let received = crate::codec::decode(TelnetInputState::Normal, t.stream_in);
    assert(received.data =~= t.pty_out);
    assert(asked_as(t, items) ==> received.options =~= answers_of(items));
}

/// A write to the terminal keeps what holds of the input.
proof fn lemma_rx_written(t: Traffic, items: Seq<Sent>, bytes: Seq<u8>, n: usize)
    requires
        input_kept(t),
        t.state.point is Rx,
        !t.state.rx_silent(),
        t.state.rx_action::<()>() == ActionView::<()>::WritePty(bytes),
        t.whole(bytes, n),
    ensures
        ({
            let next = Traffic {
                state: t.state.rx_written(n),
                pty_out: t.pty_out + bytes.take(n as int),
                ..t
            };
            &&& input_kept(next)
            &&& unasked(t) ==> unasked(next)
            &&& asked_as(t, items) ==> asked_as(next, items)
        }),
{
    let ready = t.state.stream_ready;
    let rest = crate::codec::decode(t.state.input, ready);
    let next = t.state.rx_written(n);
    let after = crate::codec::decode(next.input, next.stream_ready);
    crate::codec::lemma_data_len(ready);
    if t.state.input is Escape {
        assert(bytes.take(n as int) =~= seq![IAC]);
    } else {
        let data = ready.take(n as int);
        assert(bytes.take(n as int) =~= data);
        assert(ready =~= data + ready.skip(n as int));
        crate::codec::lemma_decode_plain(data);
        crate::codec::law_decode_in_pieces(TelnetInputState::Normal, data, ready.skip(n as int));
    }
    assert(rest.data =~= bytes.take(n as int) + after.data);
    assert(rest.options =~= after.options);
    assert(t.pty_out + (bytes.take(n as int) + after.data) =~= (t.pty_out + bytes.take(n as int))
        + after.data);
}

/// A write to the network keeps what holds of the output.
proof fn lemma_tx_written(t: Traffic, items: Seq<Sent>, bytes: Seq<u8>, n: usize) -> (sent: Seq<
    Sent,
>)
    requires
        output_kept(t, items),
        t.state.point is Tx,
        t.state.tx_action::<()>() == ActionView::<()>::WriteStream(bytes),
        t.whole(bytes, n),
    ensures
        output_kept(
            Traffic {
                state: t.state.tx_written(n),
                stream_out: t.stream_out + bytes.take(n as int),
                ..t
            },
            sent,
        ),
        answers_of(sent) == answers_of(items),
{
    let ready = t.state.pty_ready;
    let out = bytes.take(n as int);
    let next = Traffic { state: t.state.tx_written(n), stream_out: t.stream_out + out, ..t };
    crate::codec::lemma_data_len(ready);
    if t.state.output is Escape || t.state.reply is Some {
        assert(next.stream_out + next.owed() =~= t.stream_out + t.owed());
        items
    } else if ready[0] == IAC {
        crate::codec::lemma_decode_escaped();
        let sent = lemma_push_data(items, seq![IAC]);
        assert(next.stream_out + next.owed() =~= (t.stream_out + t.owed()) + seq![IAC, IAC]);
        assert(data_of(items) + ready =~= (data_of(items) + seq![IAC]) + ready.skip(1));
        sent
    } else {
        assert(out =~= ready.take(n as int));
        crate::codec::lemma_encode_plain(out);
        let sent = lemma_push_data(items, out);
        assert(next.stream_out + next.owed() =~= (t.stream_out + t.owed()) + out);
        assert(data_of(items) + ready =~= (data_of(items) + out) + ready.skip(n as int));
        sent
    }
}

/// The state before settling, with the bytes that the event brings or takes along.
spec fn unsettled<E>(t: Traffic, event: EventView<E>) -> Traffic {
    match event {
        EventView::Read(Ok(bytes)) => Traffic {
            state: ConnectionView { stream_ready: bytes, ..t.state },
            stream_in: t.stream_in + bytes,
            ..t
        },
        EventView::Written(Ok(n)) => Traffic {
            state: t.state.rx_written(n),
            pty_out: t.pty_out + t.state.rx_action::<E>()->WritePty_0.take(n as int),
            ..t
        },
        _ => Traffic { state: t.state.at(ResumePoint::Rx), ..t },
    }
}

/// An event on the input keeps what holds.
proof fn lemma_after_rx<E>(t: Traffic, items: Seq<Sent>, event: EventView<E>) -> (sent: Seq<Sent>)
    requires
        t.state.poll_fits(event),
        event is Start || t.state.point is Rx,
    ensures
        ({
            let next = t.after(event);
            &&& next.state.pty_ready == t.state.pty_ready
            &&& next.state.output == t.state.output
            &&& next.stream_out == t.stream_out
            &&& next.pty_in == t.pty_in
            &&& output_kept(t, items) ==> output_kept(next, sent)
            &&& done(next, sent) == done(t, items)
            &&& input_kept(t) && t.sound_in(event) ==> {
                &&& input_kept(next)
                &&& unasked(t) ==> unasked(next)
                &&& asked_as(t, items) ==> asked_as(next, sent)
            }
        }),
{
    let before = unsettled(t, event);
    let next = t.after(event);
    if input_kept(t) && t.sound_in(event) {
        match event {
            EventView::Read(Ok(bytes)) => lemma_rx_read(t, items, bytes),
            EventView::Written(Ok(n)) => lemma_rx_written(
                t,
                items,
                t.state.rx_action::<E>()->WritePty_0,
                n,
            ),
            _ => {},
        }
    }
    assert(before.owed() == t.owed());
    let sent = lemma_rx_settle(before, items);
    let settled = Traffic { state: before.state.rx_settle(), ..before };
    assert(settled.owed() == Traffic {
        state: settled.state.at(next.state.point),
        ..settled
    }.owed());
    if next == (Traffic { state: settled.state.at(next.state.point), ..settled }) {
        sent
    } else {
        assert(next == Traffic { state: before.state.at(next.state.point), ..before });
        assert(next.owed() == before.owed());
        items
    }
}

/// An event on the output keeps what holds.
proof fn lemma_after_tx<E>(t: Traffic, items: Seq<Sent>, event: EventView<E>) -> (sent: Seq<Sent>)
    requires
        t.sound_out(event),
        !(event is Start),
        t.state.point is Tx,
        output_kept(t, items),
    ensures
        output_kept(t.after(event), sent),
        answers_of(sent) == answers_of(items),
        t.after(event).stream_in == t.stream_in,
        t.after(event).pty_out == t.pty_out,
        t.after(event).state.input == t.state.input,
        t.after(event).state.stream_ready == t.state.stream_ready,
{
    match event {
        EventView::Written(Ok(n)) => {
            lemma_tx_written(t, items, t.state.tx_action::<E>()->WriteStream_0, n)
        },
        EventView::Read(Ok(bytes)) => {
            assert(t.pty_in =~= data_of(items));
            assert(t.after(event).owed() == t.owed());
            items
        },
        _ => {
            assert(t.after(event).owed() == t.owed());
            items
        },
    }
}

proof fn lemma_input<E>(events: Seq<EventView<E>>)
    requires
        all_sound_in(events),
    ensures
        input_kept(traffic(events)),
        unasked(traffic(events)),
    decreases events.len(),
{
    if events.len() > 0 {
        let t = traffic(events.drop_last());
        let event = events.last();
        lemma_input(events.drop_last());
        if event is Start || t.state.point is Rx {
            let sent = lemma_after_rx(t, seq![], event);
        }
    }
}

/// What was sent, and how it came to be.
proof fn lemma_output<E>(events: Seq<EventView<E>>) -> (items: Seq<Sent>)
    requires
        all_sound_out(events),
    ensures
        output_kept(traffic(events), items),
        done(traffic(events), items) == answers_sent(events),
        all_sound_in(events) ==> asked_as(traffic(events), items),
    decreases events.len(),
{
    if events.len() > 0 {
        let before = events.drop_last();
        let t = traffic(before);
        let event = events.last();
        let items = lemma_output(before);
        if all_sound_in(events) {
            lemma_input(before);
        }
        if event is Start || t.state.point is Rx {
            lemma_after_rx(t, items, event)
        } else {
            lemma_after_tx(t, items, event)
        }
    } else {
        let t = traffic(events);
        let items = Seq::<Sent>::empty();
        assert(t.stream_out + t.owed() =~= wire(items));
        assert(t.pty_in =~= data_of(items) + t.state.pty_ready);
        items
    }
}

// The laws.

/// What the client sends arrives: at any time, the data in everything that came from the
/// network is what was written to the terminal, and behind it the data still in the buffer.
pub proof fn law_input_arrives<E>(events: Seq<EventView<E>>)
    requires
        all_sound_in(events),
    ensures
        ({
            let t = traffic(events);
            crate::codec::decode(TelnetInputState::Normal, t.stream_in).data == t.pty_out
                + crate::codec::decode(t.state.input, t.state.stream_ready).data
        }),
{
    lemma_input(events);
}

/// What the terminal puts out arrives: at any time, the client that decodes what was sent
/// to it, and what is owed to it, has everything that was read from the terminal but for
/// the bytes still in the buffer, and is outside any escape sequence. The bytes are those of
/// whole encoded data and whole refusals and nothing else.
pub proof fn law_output_arrives<E>(events: Seq<EventView<E>>)
    requires
        all_sound_out(events),
    ensures
        ({
            let t = traffic(events);
            let sent = crate::codec::decode(TelnetInputState::Normal, t.stream_out + t.owed());
            &&& sent.state is Normal
            &&& t.pty_in == sent.data + t.state.pty_ready
            &&& exists|items: Seq<Sent>| #[trigger] sent_as(t, items)
        }),
{
    let items = lemma_output(events);
    law_wire_decodes(items);
    assert(sent_as(traffic(events), items));
}

/// The client is sent encoded data and refusals and nothing else, none of them inside
/// another: at any time, what was sent and is owed is made up of whole encoded bytes of what
/// the terminal put out, in order, and of whole refusals, one for each request that was taken
/// in, in order of arrival. How many of the refusals were sent to the last byte is how many
/// there are but for the pending one.
pub proof fn law_requests_answered<E>(events: Seq<EventView<E>>)
    requires
        all_sound_in(events),
        all_sound_out(events),
    ensures
        exists|items: Seq<Sent>|
            {
                &&& #[trigger] sent_as(traffic(events), items)
                &&& asked_as(traffic(events), items)
                &&& answers_sent(events) == answers_of(items).len() - if traffic(
                    events,
                ).state.reply is Some {
                    1int
                } else {
                    0int
                }
            },
{
    let items = lemma_output(events);
    assert(sent_as(traffic(events), items));
}

/// When nothing is left in the connection, the terminal has had exactly the data that the
/// client sent; and the client was sent exactly the encoded data that the terminal put out,
/// and between it the refusals of exactly the options that the client asked about.
pub proof fn law_at_rest<E>(events: Seq<EventView<E>>)
    requires
        all_sound_in(events),
        all_sound_out(events),
        traffic(events).at_rest(),
    ensures
        ({
            let t = traffic(events);
            let received = crate::codec::decode(TelnetInputState::Normal, t.stream_in);
            &&& t.pty_out == received.data
            &&& exists|items: Seq<Sent>|
                {
                    &&& t.stream_out == #[trigger] wire(items)
                    &&& t.pty_in == data_of(items)
                    &&& received.options == answers_of(items)
                }
        }),
{
    let t = traffic(events);
    lemma_input(events);
    let items = lemma_output(events);
    let received = crate::codec::decode(TelnetInputState::Normal, t.stream_in);
    assert(t.stream_out + t.owed() =~= t.stream_out);
    assert(received.data =~= t.pty_out);
    assert(t.pty_in =~= data_of(items));
    assert(received.options =~= answers_of(items));
    assert(t.stream_out == wire(items));
}

/// Nobody is answered who has not asked: as long as there is no request in what came from
/// the network, no answer is pending.
pub proof fn law_unasked_unanswered<E>(events: Seq<EventView<E>>)
    requires
        all_sound_in(events),
        crate::codec::decode(
            TelnetInputState::Normal,
            traffic(events).stream_in,
        ).options.len() == 0,
    ensures
        traffic(events).state.reply is None,
{
    lemma_input(events);
}

/// Items without an answer are the encoding of their data.
proof fn lemma_wire_data(items: Seq<Sent>)
    requires
        answers_of(items).len() == 0,
    ensures
        wire(items) == crate::codec::encode(data_of(items)),
    decreases items.len(),
{
    if items.len() > 0 {
        lemma_wire_data(items.drop_last());
        let byte = items.last()->Data_0;
        let data = data_of(items.drop_last());
        crate::codec::law_encode_in_pieces(data, seq![byte]);
        assert(data + seq![byte] =~= data_of(items));
    }
}

/// Items without data are the refusals of their options.
proof fn lemma_wire_answers(items: Seq<Sent>)
    requires
        data_of(items).len() == 0,
    ensures
        wire(items) == refusals(answers_of(items)),
    decreases items.len(),
{
    if items.len() > 0 {
        lemma_wire_answers(items.drop_last());
        assert(answers_of(items).drop_last() =~= answers_of(items.drop_last()));
    }
}

/// As long as no answer is pending none is sent.
proof fn lemma_never_answers<E>(events: Seq<EventView<E>>)
    requires
        never_answers(events),
    ensures
        answers_sent(events) == 0,
    decreases events.len(),
{
    if events.len() > 0 {
        reveal_with_fuel(never_answers, 2);
        lemma_never_answers(events.drop_last());
    }
}

/// As long as no answer is pending, the client is sent the encoded output of the terminal
/// and nothing else: what was sent, the rest of an escape that was begun, and the encoded
/// bytes still in the buffer make up the encoding of everything that was read from the
/// terminal.
pub proof fn law_output_encoded<E>(events: Seq<EventView<E>>)
    requires
        all_sound_out(events),
        never_answers(events),
    ensures
        ({
            let t = traffic(events);
            t.stream_out + t.owed() + crate::codec::encode(t.state.pty_ready)
                == crate::codec::encode(t.pty_in)
        }),
{
    let items = lemma_output(events);
    lemma_never_answers(events);
    lemma_wire_data(items);
    crate::codec::law_encode_in_pieces(data_of(items), traffic(events).state.pty_ready);
}

/// A connection holds at most one read's worth of bytes in each direction, whatever happens.
pub proof fn law_buffers_bounded<E>(events: Seq<EventView<E>>)
    requires
        all_fit(events),
    ensures
        traffic(events).state.stream_ready.len() <= READ_BUF_LEN,
        traffic(events).state.pty_ready.len() <= READ_BUF_LEN,
    decreases events.len(),
{
    if events.len() > 0 {
        law_buffers_bounded(events.drop_last());
        let t = traffic(events.drop_last());
        let sent = lemma_rx_settle(unsettled(t, events.last()), seq![]);
    }
}

/// The events of one call: it starts with the first, and with no other.
pub open spec fn one_call<E>(call: Seq<EventView<E>>) -> bool {
    &&& call.len() > 0
    &&& call[0] is Start
    &&& forall|i: int| 0 < i < call.len() ==> !(#[trigger] call[i] is Start)
}

/// One call sends at most one answer to the last byte, whatever came before.
pub proof fn law_one_answer_per_call<E>(before: Seq<EventView<E>>, call: Seq<EventView<E>>)
    requires
        all_fit(before + call),
        one_call(call),
    ensures
        answers_sent(before + call) <= answers_sent(before) + 1,
{
    lemma_one_answer(before, call);
}

proof fn lemma_one_answer<E>(before: Seq<EventView<E>>, call: Seq<EventView<E>>)
    requires
        all_fit(before + call),
        one_call(call),
    ensures
        answers_sent(before + call) == answers_sent(before) || {
            let state = traffic(before + call).state;
            &&& answers_sent(before + call) == answers_sent(before) + 1
            &&& state.reply is None
            &&& !(state.point is Rx)
        },
    decreases call.len(),
{
    let all = before + call;
    let most = call.drop_last();
    assert(all.drop_last() =~= before + most);
    assert(all.last() == call.last());
    if call.len() == 1 {
        assert(before + most =~= before);
    } else {
        assert forall|i: int| 0 < i < most.len() implies !(#[trigger] most[i] is Start) by {
            assert(most[i] == call[i]);
        }
        lemma_one_answer(before, most);
        assert(!(call[call.len() - 1] is Start));
    }
}

// A client that asks, and a terminal that is silent.

/// The event is one of a network that hands out `network`, blocks only when all of it is
/// handed out, and takes what it is sent or blocks; of a terminal that takes what it is
/// given or blocks, and puts out nothing; and a call starts only when the one before is over.
pub open spec fn hands_out<E>(network: Seq<u8>, t: Traffic, event: EventView<E>) -> bool {
    &&& t.state.poll_fits(event)
    &&& match event {
        EventView::Start => t.state.point is Idle,
        EventView::Read(Ok(bytes)) => {
            &&& t.state.point is Rx
            &&& bytes.len() > 0
            &&& (t.stream_in + bytes).len() <= network.len()
            &&& t.stream_in + bytes == network.take((t.stream_in + bytes).len() as int)
        },
        EventView::Read(Err(failure)) => {
            &&& failure.would_block
            &&& t.state.point is Rx ==> t.stream_in == network
        },
        EventView::Written(Ok(n)) => match t.state.awaited::<E>() {
            Some(ActionView::WritePty(bytes)) | Some(ActionView::WriteStream(bytes)) => n
                == bytes.len(),
            _ => false,
        },
        EventView::Written(Err(failure)) => failure.would_block,
    }
}

/// Each event is one of such a network and terminal where it comes.
pub open spec fn all_hand_out<E>(network: Seq<u8>, events: Seq<EventView<E>>) -> bool
    decreases events.len(),
{
    events.len() > 0 ==> {
        &&& all_hand_out(network, events.drop_last())
        &&& hands_out(network, traffic(events.drop_last()), events.last())
    }
}

/// No write has blocked since the last call started.
pub open spec fn unblocked<E>(events: Seq<EventView<E>>) -> bool
    decreases events.len(),
{
    events.len() > 0 && match events.last() {
        EventView::Start => true,
        EventView::Written(Err(_)) => false,
        _ => unblocked(events.drop_last()),
    }
}

/// How many calls are over in which no write has blocked.
pub open spec fn unblocked_calls<E>(events: Seq<EventView<E>>) -> nat
    decreases events.len(),
{
    if events.len() == 0 {
        0
    } else {
        unblocked_calls(events.drop_last()) + if traffic(events).state.point is Idle && unblocked(
            events,
        ) {
            1nat
        } else {
            0nat
        }
    }
}

/// With such a network and terminal every call that is over is not ready, and none fails.
pub proof fn law_handing_out_not_ready<E>(network: Seq<u8>, t: Traffic, event: EventView<E>)
    requires
        hands_out(network, t, event),
    ensures
        t.state.poll_resume(event).1 is Return ==> t.state.poll_resume(event).1
            == ActionView::<E>::Return(Ok(Async::NotReady)),
{
}

proof fn lemma_handing_out_sound<E>(network: Seq<u8>, events: Seq<EventView<E>>)
    requires
        all_hand_out(network, events),
    ensures
        all_sound_in(events),
        all_sound_out(events),
    decreases events.len(),
{
    if events.len() > 0 {
        lemma_handing_out_sound(network, events.drop_last());
    }
}

/// What holds while such a network hands out its bytes. Each call that is over and in which no
/// write has blocked has sent an answer, unless all of them are sent.
spec fn handing_out<E>(network: Seq<u8>, events: Seq<EventView<E>>) -> bool {
    let t = traffic(events);
    let all = crate::codec::decode(TelnetInputState::Normal, network).options.len();
    let calls = unblocked_calls(events);
    let sent = answers_sent(events);
    &&& t.pty_in.len() == 0
    &&& t.state.pty_ready.len() == 0
    &&& t.state.output is Normal
    &&& t.stream_in.len() <= network.len()
    &&& t.stream_in == network.take(t.stream_in.len() as int)
    &&& sent >= calls || sent == all
    &&& t.state.point is Tx && unblocked(events) ==> {
        ||| t.state.reply is Some && sent >= calls
        ||| t.state.reply is None && (sent >= calls + 1 || sent == all)
    }
}

/// The answers sent, the pending one, and the requests still in the buffer and in the
/// network are all the requests.
proof fn lemma_all_requests<E>(network: Seq<u8>, events: Seq<EventView<E>>) -> (items: Seq<Sent>)
    requires
        all_sound_in(events),
        all_sound_out(events),
        traffic(events).stream_in.len() <= network.len(),
        traffic(events).stream_in == network.take(traffic(events).stream_in.len() as int),
    ensures
        output_kept(traffic(events), items),
        done(traffic(events), items) == answers_sent(events),
        ({
            let t = traffic(events);
            let unread = network.skip(t.stream_in.len() as int);
            let rest = crate::codec::decode(t.state.input, t.state.stream_ready);
            crate::codec::decode(TelnetInputState::Normal, network).options == answers_of(items)
                + (rest.options + crate::codec::decode(rest.state, unread).options)
        }),
{
    let t = traffic(events);
    let items = lemma_output(events);
    lemma_input(events);
    let unread = network.skip(t.stream_in.len() as int);
    let rest = crate::codec::decode(t.state.input, t.state.stream_ready);
    assert(network =~= t.stream_in + unread);
    crate::codec::law_decode_in_pieces(TelnetInputState::Normal, t.stream_in, unread);
    let late = crate::codec::decode(rest.state, unread).options;
    assert((answers_of(items) + rest.options) + late =~= answers_of(items) + (rest.options + late));
    items
}

proof fn lemma_handing_out<E>(network: Seq<u8>, events: Seq<EventView<E>>)
    requires
        all_hand_out(network, events),
    ensures
        handing_out(network, events),
    decreases events.len(),
{
    lemma_handing_out_sound(network, events);
    let next = traffic(events);
    if events.len() > 0 {
        let before = events.drop_last();
        let t = traffic(before);
        let event = events.last();
        lemma_handing_out(network, before);
        lemma_handing_out_sound(network, before);
        if event is Start || t.state.point is Rx {
            let sent = lemma_after_rx(t, seq![], event);
            let settled = lemma_rx_settle(unsettled(t, event), seq![]);
        }
        assert(next.stream_in == network.take(next.stream_in.len() as int));
        let items = lemma_all_requests(network, events);
        if event is Start || t.state.point is Rx {
            if next.state.point is Tx && unblocked(events) && !(next.state.reply is Some) {
                // The network has nothing left, so no request is
                assert(next.state.stream_ready.len() == 0);
                assert(next.stream_in == network);
            }
        }
    } else {
        assert(next.stream_in =~= network.take(0));
    }
}

/// The refusals of some options are three bytes for each: 255, 252 and the option.
proof fn lemma_refusals(options: Seq<u8>, i: int)
    requires
        0 <= i < options.len(),
    ensures
        refusals(options).len() == 3 * options.len(),
        refusals(options).subrange(3 * i, 3 * i + 3) == seq![255u8, 252u8, options[i]],
    decreases options.len(),
{
    let most = options.drop_last();
    let last = crate::model::refusal(options.last());
    let all = refusals(options);
    if most.len() > 0 {
        lemma_refusals(most, if i < most.len() {
            i
        } else {
            0
        });
    }
    assert(all == refusals(most) + last);
    assert(refusals(most).len() == 3 * most.len());
    if i < most.len() {
        assert(all.subrange(3 * i, 3 * i + 3) =~= refusals(most).subrange(3 * i, 3 * i + 3));
    } else {
        assert(all.subrange(3 * i, 3 * i + 3) =~= last);
    }
}

/// Every request is refused in the end: of a network that hands out `network` and a terminal
/// that is silent, when as many calls are over without a blocked write as there are requests
/// in `network`, the client was sent the refusal of each of their options, in order of
/// arrival, and not a byte else. A refusal is the bytes 255 and 252 and the option.
pub proof fn law_every_request_refused<E>(network: Seq<u8>, events: Seq<EventView<E>>)
    requires
        all_hand_out(network, events),
        unblocked_calls(events) >= crate::codec::decode(
            TelnetInputState::Normal,
            network,
        ).options.len(),
    ensures
        traffic(events).stream_out == refusals(
            crate::codec::decode(TelnetInputState::Normal, network).options,
        ),
        ({
            let options = crate::codec::decode(TelnetInputState::Normal, network).options;
            let sent = traffic(events).stream_out;
            &&& sent.len() == 3 * options.len()
            &&& forall|i: int|
                0 <= i < options.len() ==> sent.subrange(3 * i, 3 * i + 3) == seq![
                    255u8,
                    252u8,
                    #[trigger] options[i],
                ]
        }),
{
    let t = traffic(events);
    lemma_handing_out_sound(network, events);
    lemma_handing_out(network, events);
    let items = lemma_all_requests(network, events);
    let all = crate::codec::decode(TelnetInputState::Normal, network).options;
    assert(answers_of(items).len() <= all.len());
    assert(t.state.reply is None);
    assert(answers_of(items) =~= all);
    assert(data_of(items).len() == 0);
    lemma_wire_answers(items);
    assert forall|i: int| 0 <= i < all.len() implies refusals(all).subrange(3 * i, 3 * i + 3)
        == seq![255u8, 252u8, #[trigger] all[i]] by {
        lemma_refusals(all, i);
    }
    if all.len() > 0 {
        lemma_refusals(all, 0);
    }
    assert(t.stream_out + t.owed() =~= t.stream_out);
}

// One call, with a client and a terminal that both have something to say.

/// The operation that was asked for would have blocked.
pub open spec fn blocked<E>(event: EventView<E>) -> bool {
    match event {
        EventView::Read(Err(failure)) | EventView::Written(Err(failure)) => failure.would_block,
        _ => false,
    }
}

/// With this event a call comes from the input to the output: an operation of the input would
/// have blocked, or a request has to wait.
pub open spec fn gives_way<E>(t: Traffic, event: EventView<E>) -> bool {
    let next = t.after(event).state;
    &&& event is Start || t.state.point is Rx
    &&& next.point is Tx
    &&& blocked(event) || (next.input is Request && next.reply is Some)
}

/// A call serves both directions: when it has come to an end and is not ready, the input was
/// handled until an operation of it would have blocked or a request had to wait, and then the
/// output until an operation of it would have blocked. No other event of the call was a
/// failure.
#[verifier::spinoff_prover]
pub proof fn law_call_serves_both<E>(before: Seq<EventView<E>>, call: Seq<EventView<E>>)
    requires
        all_fit(before + call),
        one_call(call),
        traffic(before + call.drop_last()).state.poll_resume(call.last()).1 == ActionView::<
            E,
        >::Return(Ok(Async::NotReady)),
    ensures
        blocked(call.last()),
        traffic(before + call.drop_last()).state.point is Tx,
        exists|i: int|
            {
                &&& 0 <= i < call.len() - 1
                &&& gives_way(traffic(before + call.take(i)), #[trigger] call[i])
                &&& forall|j: int|
                    0 <= j < call.len() - 1 && j != i ==> !blocked(#[trigger] call[j])
            },
{
    let most = call.drop_last();
    let all = before + call;
    assert(all.drop_last() =~= before + most);
    assert(all.last() == call.last());
    let t = traffic(before + most);
    crate::laws::law_not_ready_when_blocked(t.state, call.last());
    assert(t.state.point is Tx && blocked(call.last()));
    assert(call.len() > 1) by {
        assert(!(call.last() is Start));
    }
    assert(one_call(most)) by {
        assert forall|i: int| 0 < i < most.len() implies !(#[trigger] most[i] is Start) by {
            assert(most[i] == call[i]);
        }
    }
    let i = lemma_came_to_output(before, most);
    assert(call.take(i) =~= most.take(i));
    assert(gives_way(traffic(before + call.take(i)), call[i]));
    assert forall|j: int| 0 <= j < call.len() - 1 && j != i implies !blocked(
        #[trigger] call[j],
    ) by {
        assert(most[j] == call[j]);
    }
}

/// How a call that is not over has come to where it is.
#[verifier::spinoff_prover]
proof fn lemma_came_to_output<E>(before: Seq<EventView<E>>, call: Seq<EventView<E>>) -> (i: int)
    requires
        all_fit(before + call),
        one_call(call),
        !(traffic(before + call).state.point is Idle),
    ensures
        ({
            let state = traffic(before + call).state;
            &&& state.point is Rx ==> i == -1
            &&& state.point is Tx ==> {
                &&& 0 <= i < call.len()
                &&& gives_way(traffic(before + call.take(i)), call[i])
            }
            &&& forall|j: int| 0 <= j < call.len() && j != i ==> !blocked(#[trigger] call[j])
        }),
    decreases call.len(),
{
    let all = before + call;
    let most = call.drop_last();
    let last = call.len() - 1;
    assert(all.drop_last() =~= before + most);
    assert(all.last() == call.last());
    assert(call.take(last) =~= most);
    let t = traffic(before + most);
    crate::laws::law_action_awaited(t.state, call.last());
    if call.len() == 1 {
        assert(before + most =~= before);
        if traffic(all).state.point is Tx {
            0
        } else {
            -1
        }
    } else {
        assert forall|i: int| 0 < i < most.len() implies !(#[trigger] most[i] is Start) by {
            assert(most[i] == call[i]);
        }
        assert(!(call[last] is Start));
        let i = lemma_came_to_output(before, most);
        assert forall|j: int| 0 <= j < last && j != i implies !blocked(#[trigger] call[j]) by {
            assert(most[j] == call[j]);
        }
        assert(0 <= i ==> call.take(i) =~= most.take(i));
        if t.state.point is Rx && traffic(all).state.point is Tx {
            last
        } else {
            i
        }
    }
}

/// The event is one of a network that hands out `network` and of a terminal that puts out
/// `terminal`: a read brings what comes next, and blocks only when all of it was read; a write
/// takes bytes without harm or blocks; and a call starts only when the one before is over.
pub open spec fn exchanges<E>(
    network: Seq<u8>,
    terminal: Seq<u8>,
    t: Traffic,
    event: EventView<E>,
) -> bool {
    &&& t.state.poll_fits(event)
    &&& match event {
        EventView::Start => t.state.point is Idle,
        EventView::Read(Ok(bytes)) => {
            &&& bytes.len() > 0
            &&& t.state.point is Rx ==> (t.stream_in + bytes).is_prefix_of(network)
            &&& t.state.point is Tx ==> (t.pty_in + bytes).is_prefix_of(terminal)
        },
        EventView::Read(Err(failure)) => {
            &&& failure.would_block
            &&& t.state.point is Rx ==> t.stream_in == network
            &&& t.state.point is Tx ==> t.pty_in == terminal
        },
        EventView::Written(Ok(n)) => match t.state.awaited::<E>() {
            Some(ActionView::WritePty(bytes)) | Some(ActionView::WriteStream(bytes)) => t.whole(
                bytes,
                n,
            ),
            _ => false,
        },
        EventView::Written(Err(failure)) => failure.would_block,
    }
}

/// Each event is one of such a network and terminal where it comes.
pub open spec fn all_exchange<E>(
    network: Seq<u8>,
    terminal: Seq<u8>,
    events: Seq<EventView<E>>,
) -> bool
    decreases events.len(),
{
    events.len() > 0 ==> {
        &&& all_exchange(network, terminal, events.drop_last())
        &&& exchanges(network, terminal, traffic(events.drop_last()), events.last())
    }
}

proof fn lemma_exchange_sound<E>(network: Seq<u8>, terminal: Seq<u8>, events: Seq<EventView<E>>)
    requires
        all_exchange(network, terminal, events),
    ensures
        all_sound_in(events),
        all_sound_out(events),
    decreases events.len(),
{
    if events.len() > 0 {
        lemma_exchange_sound(network, terminal, events.drop_last());
    }
}

/// In a call in which no write has blocked, the output comes when all of the network is used
/// up or a request has to wait, and the call is over when all of the terminal is sent.
proof fn lemma_exchange<E>(network: Seq<u8>, terminal: Seq<u8>, events: Seq<EventView<E>>)
    requires
        all_exchange(network, terminal, events),
        unblocked(events),
    ensures
        ({
            let t = traffic(events);
            &&& !(t.state.point is Rx) ==> {
                ||| t.stream_in == network && t.state.stream_ready.len() == 0
                ||| t.state.input is Request
            }
            &&& t.state.point is Idle ==> {
                &&& t.pty_in == terminal
                &&& t.state.pty_ready.len() == 0
                &&& t.state.reply is None
                &&& t.state.output is Normal
            }
        }),
    decreases events.len(),
{
    let event = events.last();
    let t = traffic(events.drop_last());
    crate::laws::law_action_awaited(t.state, event);
    if !(event is Start) {
        lemma_exchange(network, terminal, events.drop_last());
    }
}

/// A call moves everything both ways. With a network that hands out `network` and a terminal
/// that puts out `terminal`, when a call is over in which no write has blocked, the client that
/// decodes what it was sent has all of `terminal`, and the terminal was given all data of
/// `network`, unless a request in it has to wait for the next call.
pub proof fn law_call_moves_everything<E>(
    network: Seq<u8>,
    terminal: Seq<u8>,
    events: Seq<EventView<E>>,
)
    requires
        all_exchange(network, terminal, events),
        unblocked(events),
        traffic(events).state.point is Idle,
    ensures
        ({
            let t = traffic(events);
            let sent = crate::codec::decode(TelnetInputState::Normal, t.stream_out);
            &&& sent.data == terminal
            &&& sent.state is Normal
            &&& t.state.input is Request || t.pty_out == crate::codec::decode(
                TelnetInputState::Normal,
                network,
            ).data
        }),
{
    let t = traffic(events);
    lemma_exchange_sound(network, terminal, events);
    lemma_exchange(network, terminal, events);
    law_input_arrives(events);
    law_output_arrives(events);
    assert(t.stream_out + t.owed() =~= t.stream_out);
    let sent = crate::codec::decode(TelnetInputState::Normal, t.stream_out);
    assert(sent.data + t.state.pty_ready =~= sent.data);
    let rest = crate::codec::decode(t.state.input, t.state.stream_ready);
    assert(t.state.stream_ready.len() == 0 ==> t.pty_out + rest.data =~= t.pty_out);
}

/// What holds of the answers while such a network hands out its bytes. Each call that is over
/// and in which no write has blocked has sent an answer, unless all of them are sent.
spec fn answering<E>(network: Seq<u8>, events: Seq<EventView<E>>) -> bool {
    let t = traffic(events);
    let all = crate::codec::decode(TelnetInputState::Normal, network).options.len();
    let calls = unblocked_calls(events);
    let sent = answers_sent(events);
    &&& t.stream_in.len() <= network.len()
    &&& t.stream_in == network.take(t.stream_in.len() as int)
    &&& sent >= calls || sent == all
    &&& t.state.point is Tx && unblocked(events) ==> {
        ||| t.state.reply is Some && sent >= calls
        ||| t.state.reply is None && (sent >= calls + 1 || sent == all)
    }
}

proof fn lemma_answering<E>(network: Seq<u8>, terminal: Seq<u8>, events: Seq<EventView<E>>)
    requires
        all_exchange(network, terminal, events),
    ensures
        answering(network, events),
    decreases events.len(),
{
    lemma_exchange_sound(network, terminal, events);
    let next = traffic(events);
    if events.len() > 0 {
        let before = events.drop_last();
        let t = traffic(before);
        let event = events.last();
        lemma_answering(network, terminal, before);
        lemma_exchange_sound(network, terminal, before);
        if event is Start || t.state.point is Rx {
            let sent = lemma_after_rx(t, seq![], event);
            let settled = lemma_rx_settle(unsettled(t, event), seq![]);
        }
        assert(next.stream_in =~= network.take(next.stream_in.len() as int));
        let items = lemma_all_requests(network, events);
        if event is Start || t.state.point is Rx {
            if next.state.point is Tx && unblocked(events) && !(next.state.reply is Some) {
                // The network has nothing left, so no request is
                assert(next.state.stream_ready.len() == 0);
                assert(next.stream_in == network);
            }
        }
    } else {
        assert(next.stream_in =~= network.take(0));
    }
}

/// Everything arrives in the end, and nothing else. With a network that hands out `network` and
/// a terminal that puts out `terminal`, when as many calls are over without a blocked write as
/// there are requests in `network`, and the last of them is, the terminal was given exactly the
/// data in `network`; and the client that decodes what it was sent has exactly `terminal` as
/// data, and an answer about each option that it asked about, in order of arrival. The bytes
/// are those of the encoded data and of refusals and nothing else.
pub proof fn law_everything_arrives<E>(
    network: Seq<u8>,
    terminal: Seq<u8>,
    events: Seq<EventView<E>>,
)
    requires
        all_exchange(network, terminal, events),
        unblocked(events),
        traffic(events).state.point is Idle,
        unblocked_calls(events) >= crate::codec::decode(
            TelnetInputState::Normal,
            network,
        ).options.len(),
    ensures
        ({
            let t = traffic(events);
            let received = crate::codec::decode(TelnetInputState::Normal, network);
            &&& t.pty_out == received.data
            &&& crate::codec::decode(TelnetInputState::Normal, t.stream_out) == (
            crate::codec::Decoded {
                state: TelnetInputState::Normal,
                data: terminal,
                options: received.options,
            })
            &&& exists|items: Seq<Sent>|
                {
                    &&& t.stream_out == #[trigger] wire(items)
                    &&& data_of(items) == terminal
                    &&& answers_of(items) == received.options
                }
        }),
{
    let t = traffic(events);
    let received = crate::codec::decode(TelnetInputState::Normal, network);
    lemma_exchange_sound(network, terminal, events);
    lemma_exchange(network, terminal, events);
    lemma_answering(network, terminal, events);
    let items = lemma_all_requests(network, events);
    law_wire_decodes(items);
    law_input_arrives(events);
    assert(t.stream_out + t.owed() =~= t.stream_out);
    assert(answers_of(items).len() == received.options.len());
    assert(answers_of(items) =~= received.options);
    assert(data_of(items) + t.state.pty_ready =~= data_of(items));
    assert(t.stream_out == wire(items));
    let rest = crate::codec::decode(t.state.input, t.state.stream_ready);
    let unread = network.skip(t.stream_in.len() as int);
    assert(rest.options.len() == 0 && crate::codec::decode(rest.state, unread).options.len() == 0);
    if t.state.input is Request && t.state.stream_ready.len() > 0 {
        let first = crate::codec::decode_byte(t.state.input, t.state.stream_ready[0]);
        assert(first.options.len() == 1);
        assert(rest.options.len() > 0);
    }
    if t.state.input is Request && unread.len() > 0 {
        let first = crate::codec::decode_byte(rest.state, unread[0]);
        assert(first.options.len() == 1);
    }
    assert(t.state.stream_ready.len() == 0);
    assert(unread.len() == 0);
    assert(t.stream_in =~= network);
    assert(t.pty_out + rest.data =~= t.pty_out);
}

} // verus!
