//! What holds of every step of a connection.

use vstd::prelude::*;

use crate::codec::TelnetInputState;
use crate::io::{ActionView, Async, ConnectionError, EventView, IoFailure};
use crate::model::{ConnectionView, ResumePoint};
use crate::protocol::{IAC, TelnetRequest};

verus! {

/// What a call asks for is what the connection awaits afterwards, and it awaits nothing
/// when the call is over.
pub proof fn law_action_awaited<E>(state: ConnectionView, event: EventView<E>)
    requires
        state.poll_fits(event),
    ensures
        ({
            let (next, action) = state.poll_resume(event);
            next.awaited::<E>() == (if action is Return {
                None
            } else {
                Some(action)
            })
        }),
{
    lemma_rx_settled(state, event);
}

/// With reads and writes that keep to their bounds, a connection can always go on: whatever
/// comes of what it asked for can be handed to it.
pub proof fn law_outcome_fits<E>(state: ConnectionView, event: EventView<E>, outcome: EventView<E>)
    requires
        state.poll_fits(event),
        !(event is Start) ==> (state.awaited::<E>() matches Some(action)
            && crate::model::follows(event, action)),
        crate::model::follows(outcome, state.poll_resume(event).1),
    ensures
        state.poll_resume(event).0.poll_fits(outcome),
{
    let (next, action) = state.poll_resume(event);
    lemma_rx_settled(state, event);
    crate::codec::lemma_data_len(next.stream_ready);
    crate::codec::lemma_data_len(next.pty_ready);
}

/// A call that goes on with the input leaves a settled state.
proof fn lemma_rx_settled<E>(state: ConnectionView, event: EventView<E>)
    ensures
        ({
            let (next, action) = state.rx_resume(event);
            !(action is Return) ==> {
                &&& !next.rx_silent()
                &&& event is Start || state.point is Rx ==> next.point is Rx
            }
        }),
{
    match event {
        EventView::Start => lemma_settle_settles(state.at(ResumePoint::Rx)),
        EventView::Read(Ok(bytes)) => lemma_settle_settles(
            ConnectionView { stream_ready: bytes, ..state },
        ),
        EventView::Written(Ok(n)) => lemma_settle_settles(state.rx_written(n)),
        _ => {},
    }
}

proof fn lemma_settle_settles(state: ConnectionView)
    ensures
        !state.rx_settle().rx_silent(),
        state.rx_settle().point == state.point,
    decreases state.stream_ready.len(),
{
    if state.rx_silent() {
        lemma_settle_settles(state.rx_take());
    }
}

/// A connection ends only when an operation fails or an end has no more input: a call
/// returns an error exactly then, and the error is that one. It never returns anything
/// else than an error or that it is not ready.
pub proof fn law_ends_on_error<E>(
    state: ConnectionView,
    event: EventView<E>,
    error: ConnectionError<E>,
)
    ensures
        ({
            let action = state.poll_resume(event).1;
            &&& action == ActionView::<E>::Return(Err(error)) <==> {
                ||| event matches EventView::Read(Ok(bytes)) && bytes.len() == 0 && error
                    == ConnectionError::<E>::UnexpectedEof
                ||| event matches EventView::Read(Err(failure)) && !failure.would_block && error
                    == ConnectionError::Io(failure.error)
                ||| event matches EventView::Written(Err(failure)) && !failure.would_block
                    && error == ConnectionError::Io(failure.error)
            }
            &&& action != ActionView::<E>::Return(Ok(Async::Ready(())))
        }),
{
}

/// Input that would have blocked loses nothing: the call is not ready, and the next one
/// begins with the same operation in the same state.
pub proof fn law_blocked_input_retried<E>(
    state: ConnectionView,
    event: EventView<E>,
    failure: IoFailure<E>,
)
    requires
        state.rx_fits(event),
        failure.would_block,
        event == EventView::<E>::Read(Err(failure)) || event == EventView::<E>::Written(
            Err(failure),
        ),
    ensures
        state.rx_resume(event).1 == ActionView::<E>::Return(Ok(Async::NotReady)),
        state.rx_resume(event).0.rx_resume::<E>(EventView::Start) == (
            state,
            state.rx_action::<E>(),
        ),
{
    assert(state.at(ResumePoint::Idle).at(ResumePoint::Rx) == state);
}

/// Output that would have blocked loses nothing: the call is not ready, and the next one
/// begins with the same operation in the same state.
pub proof fn law_blocked_output_retried<E>(
    state: ConnectionView,
    event: EventView<E>,
    failure: IoFailure<E>,
)
    requires
        state.tx_fits(event),
        failure.would_block,
        event == EventView::<E>::Read(Err(failure)) || event == EventView::<E>::Written(
            Err(failure),
        ),
    ensures
        state.tx_resume(event).1 == ActionView::<E>::Return(Ok(Async::NotReady)),
        state.tx_resume(event).0.tx_resume::<E>(EventView::Start) == (
            state,
            state.tx_action::<E>(),
        ),
{
    assert(state.at(ResumePoint::Idle).at(ResumePoint::Tx) == state);
}

/// At most one answer is pending: as long as there is one, input does not touch it.
pub proof fn law_pending_answer_kept<E>(state: ConnectionView, event: EventView<E>)
    requires
        state.reply is Some,
    ensures
        state.rx_resume(event).0.reply == state.reply,
{
    match event {
        EventView::Start => lemma_settle_keeps_answer(state.at(ResumePoint::Rx)),
        EventView::Read(Ok(bytes)) => lemma_settle_keeps_answer(
            ConnectionView { stream_ready: bytes, ..state },
        ),
        EventView::Written(Ok(n)) => lemma_settle_keeps_answer(state.rx_written(n)),
        _ => {},
    }
}

proof fn lemma_settle_keeps_answer(state: ConnectionView)
    requires
        state.reply is Some,
    ensures
        state.rx_settle().reply == state.reply,
    decreases state.stream_ready.len(),
{
    if state.rx_silent() {
        lemma_settle_keeps_answer(state.rx_take());
    }
}

/// A request whose argument is next waits as long as an answer is pending: the call leaves
/// everything as it is and is not ready.
pub proof fn law_request_waits<E>(state: ConnectionView)
    requires
        state.input is Request,
        state.reply is Some,
    ensures
        state.rx_resume::<E>(EventView::Start) == (
            state.at(ResumePoint::Idle),
            ActionView::<E>::Return(Ok(Async::NotReady)),
        ),
{
    assert(state.at(ResumePoint::Rx).rx_settle() == state.at(ResumePoint::Rx));
}

/// Every request is refused, whichever of the four it is and whatever option it is about:
/// it is taken in whole, and the refusal of its option is pending.
pub proof fn law_request_refused(
    state: ConnectionView,
    req: TelnetRequest,
    option: u8,
    rest: Seq<u8>,
)
    requires
        state.input is Normal,
        state.reply is None,
        state.stream_ready == seq![IAC, req.spec_code(), option] + rest,
    ensures
        state.rx_settle() == (ConnectionView {
            stream_ready: rest,
            reply: Some(crate::model::refusal(option)),
            ..state
        }).rx_settle(),
{
    crate::protocol::law_request_code(req, req.spec_code());
    let ready = state.stream_ready;
    let one = state.rx_take();
    let two = one.rx_take();
    let three = two.rx_take();
    assert(ready[0] == IAC && ready[1] == req.spec_code() && ready[2] == option);
    assert(one.input is Escape && one.stream_ready[0] == req.spec_code());
    assert(two.input == TelnetInputState::Request(req) && two.stream_ready[0] == option);
    assert(ready.skip(1).skip(1).skip(1) =~= rest);
    assert(three == ConnectionView {
        stream_ready: rest,
        reply: Some(crate::model::refusal(option)),
        ..state
    });
    assert(state.rx_silent() && one.rx_silent() && two.rx_silent());
    assert(two.rx_settle() == three.rx_settle());
    assert(one.rx_settle() == two.rx_settle());
}

/// A command that is neither a request nor an escape is left out.
pub proof fn law_command_ignored(state: ConnectionView, command: u8, rest: Seq<u8>)
    requires
        state.input is Normal,
        command != IAC,
        TelnetRequest::of_code(command) is None,
        state.stream_ready == seq![IAC, command] + rest,
    ensures
        state.rx_settle() == (ConnectionView { stream_ready: rest, ..state }).rx_settle(),
{
    let ready = state.stream_ready;
    let one = state.rx_take();
    let two = one.rx_take();
    assert(ready[0] == IAC && ready[1] == command);
    assert(one.input is Escape && one.stream_ready[0] == command);
    assert(ready.skip(1).skip(1) =~= rest);
    assert(two == ConnectionView { stream_ready: rest, ..state });
    assert(state.rx_silent() && one.rx_silent());
    assert(one.rx_settle() == two.rx_settle());
}

/// An escaped escape is passed on as one byte of data.
pub proof fn law_escaped_escape_passed<E>(state: ConnectionView, rest: Seq<u8>)
    requires
        state.input is Normal,
        state.stream_ready == seq![IAC, IAC] + rest,
    ensures
        state.rx_go_on::<E>().1 == ActionView::<E>::WritePty(seq![IAC]),
        state.rx_go_on::<E>().0.rx_written(1) == (ConnectionView { stream_ready: rest, ..state }),
{
    let ready = state.stream_ready;
    let one = state.rx_take();
    assert(ready[0] == IAC && ready[1] == IAC);
    assert(one.input is Escape && one.stream_ready[0] == IAC);
    assert(state.rx_silent() && !one.rx_silent());
    assert(one.rx_settle() == one);
    assert(ready.skip(1).skip(1) =~= rest);
}

/// A pending answer goes out before any data: outside an escape that was begun, an output
/// call that starts sends its next byte first, and each byte that is written moves on to the
/// next until it is sent.
pub proof fn law_answer_first<E>(state: ConnectionView, left: Seq<u8>, n: usize)
    requires
        state.reply == Some(left),
        left.len() > 0,
        state.output is Normal,
    ensures
        ({
            let (started, action) = state.tx_resume::<E>(EventView::Start);
            &&& action == ActionView::<E>::WriteStream(seq![left[0]])
            &&& started.tx_resume::<E>(EventView::Written(Ok(n))).0 == (ConnectionView {
                reply: if left.len() == 1 {
                    None
                } else {
                    Some(left.skip(1))
                },
                ..started
            })
        }),
{
}

/// An escape that was begun is completed before anything else is sent, and the answer that
/// is pending meanwhile is left as it is.
pub proof fn law_escape_completed<E>(state: ConnectionView, n: usize)
    requires
        state.output is Escape,
    ensures
        ({
            let (started, action) = state.tx_resume::<E>(EventView::Start);
            &&& action == ActionView::<E>::WriteStream(seq![IAC])
            &&& started.tx_resume::<E>(EventView::Written(Ok(n))).0 == (ConnectionView {
                output: crate::model::TelnetOutputState::Normal,
                ..started
            })
        }),
{
}

/// A write of data that took only part of it goes on with the rest, to the terminal and to
/// the network, whether or not an escape comes after the data.
pub proof fn law_short_write_goes_on<E>(state: ConnectionView, n: usize)
    ensures
        state.point is Rx && state.input is Normal && n < crate::codec::data_len(
            state.stream_ready,
        ) ==> state.rx_resume::<E>(EventView::Written(Ok(n))).1 == ActionView::<E>::WritePty(
            state.stream_ready.subrange(
                n as int,
                crate::codec::data_len(state.stream_ready) as int,
            ),
        ),
        state.tx_writes_data() && n < crate::codec::data_len(state.pty_ready)
            ==> state.tx_resume::<E>(EventView::Written(Ok(n))).1 == ActionView::<E>::WriteStream(
            state.pty_ready.subrange(n as int, crate::codec::data_len(state.pty_ready) as int),
        ),
{
    if state.point is Rx && state.input is Normal && n < crate::codec::data_len(
        state.stream_ready,
    ) {
        let next = state.rx_written(n);
        crate::codec::lemma_data_len(state.stream_ready);
        crate::codec::lemma_data_len_skip(state.stream_ready, n as nat);
        assert(next.stream_ready[0] == state.stream_ready[n as int]);
        assert(next.rx_settle() == next);
        assert(next.stream_ready.take(crate::codec::data_len(next.stream_ready) as int)
            =~= state.stream_ready.subrange(
            n as int,
            crate::codec::data_len(state.stream_ready) as int,
        ));
    }
    if state.tx_writes_data() && n < crate::codec::data_len(state.pty_ready) {
        let next = state.tx_written(n);
        crate::codec::lemma_data_len(state.pty_ready);
        crate::codec::lemma_data_len_skip(state.pty_ready, n as nat);
        assert(next.pty_ready[0] == state.pty_ready[n as int]);
        assert(next.pty_ready.take(crate::codec::data_len(next.pty_ready) as int)
            =~= state.pty_ready.subrange(
            n as int,
            crate::codec::data_len(state.pty_ready) as int,
        ));
    }
}

// What a connection does next, for every state that it can be in.

/// On a new connection nothing was read, nothing is to be sent, and no call is under way.
pub proof fn law_new_connection()
    ensures
        ({
            let state = ConnectionView::initial();
            &&& state.stream_ready.len() == 0
            &&& state.input is Normal
            &&& state.reply is None
            &&& state.pty_ready.len() == 0
            &&& state.output is Normal
            &&& state.point is Idle
        }),
{
}

/// The answer to a request is the same three bytes for every option: the escape 255, WONT,
/// which is 252, and the option.
pub proof fn law_refusal_bytes(option: u8)
    ensures
        crate::model::refusal(option) == seq![255u8, 252u8, option],
{
}

/// Settling takes in bytes that are no data until the next thing to do is a read or a write,
/// or a request has to wait.
proof fn lemma_settle_takes(state: ConnectionView)
    ensures
        ({
            let next = state.rx_settle();
            let taken = state.stream_ready.len() - next.stream_ready.len();
            let meaning = crate::codec::decode(state.input, state.stream_ready.take(taken));
            &&& 0 <= taken
            &&& next.stream_ready == state.stream_ready.skip(taken)
            &&& meaning.state == next.input
            &&& meaning.data.len() == 0
            &&& meaning.options.len() <= if state.reply is Some {
                0int
            } else {
                1int
            }
            &&& next.reply == if meaning.options.len() == 0 {
                state.reply
            } else {
                Some(seq![255u8, 252u8, meaning.options[0]])
            }
            &&& next.pty_ready == state.pty_ready
            &&& next.output == state.output
            &&& next.point == state.point
        }),
    decreases state.stream_ready.len(),
{
    let ready = state.stream_ready;
    let next = state.rx_settle();
    if state.rx_silent() {
        lemma_settle_takes(state.rx_take());
        let taken = ready.len() - next.stream_ready.len();
        let rest = crate::codec::decode(state.rx_take().input, ready.skip(1).take(taken - 1));
        let first = crate::codec::decode_byte(state.input, ready[0]);
        assert(ready.take(taken).skip(1) =~= ready.skip(1).take(taken - 1));
        assert(ready.skip(1).skip(taken - 1) =~= ready.skip(taken));
        assert(first.options + rest.options =~= if first.options.len() == 0 {
            rest.options
        } else {
            first.options
        });
    } else {
        assert(ready.skip(0) =~= ready);
    }
}

/// What the input does with an event that is no failure and not the end of the input. It goes
/// on with the bytes `from`: those in the buffer, those that were just read, or those that the
/// write did not take, where an escape that was passed on is used up whatever the write took.
///
/// Of these it takes in as many as are no data, and they mean at most one request, and none
/// while an answer is pending; the answer to it is 255, 252 and the option. It stops in front
/// of a request whose argument is next while an answer is pending: only there it is not ready.
/// Otherwise it stops at the end of the bytes, and asks for another read, or in front of data,
/// and asks to write all of it up to the next escape, or the one byte of an escaped escape.
/// The output is not touched.
pub proof fn law_input_goes_on<E>(
    state: ConnectionView,
    event: EventView<E>,
    from: Seq<u8>,
    input: TelnetInputState,
)
    requires
        match event {
            EventView::Start => from == state.stream_ready && input == state.input,
            EventView::Read(Ok(bytes)) => {
                &&& state.point is Rx
                &&& bytes.len() > 0
                &&& from == bytes
                &&& input == state.input
            },
            EventView::Written(Ok(n)) => {
                &&& state.point is Rx
                &&& state.stream_ready.len() > 0
                &&& if state.input is Escape {
                    from == state.stream_ready.skip(1) && input is Normal
                } else {
                    &&& n <= state.stream_ready.len()
                    &&& from == state.stream_ready.skip(n as int)
                    &&& input == state.input
                }
            },
            _ => false,
        },
    ensures
        ({
            let (next, action) = state.rx_resume(event);
            let taken = from.len() - next.stream_ready.len();
            let meaning = crate::codec::decode(input, from.take(taken));
            &&& 0 <= taken
            &&& next.stream_ready == from.skip(taken)
            &&& meaning.state == next.input
            &&& meaning.data.len() == 0
            &&& meaning.options.len() <= if state.reply is Some {
                0int
            } else {
                1int
            }
            &&& next.reply == if meaning.options.len() == 0 {
                state.reply
            } else {
                Some(seq![255u8, 252u8, meaning.options[0]])
            }
            &&& next.pty_ready == state.pty_ready
            &&& next.output == state.output
            &&& if next.input is Request && next.reply is Some {
                &&& action == ActionView::<E>::Return(Ok(Async::NotReady))
                &&& next.point is Idle
            } else {
                &&& next.point is Rx
                &&& if next.stream_ready.len() == 0 {
                    action is ReadStream
                } else {
                    &&& action matches ActionView::WritePty(bytes)
                    &&& 0 < bytes.len() <= next.stream_ready.len()
                    &&& bytes == next.stream_ready.take(bytes.len() as int)
                    &&& if next.input is Escape {
                        bytes == seq![255u8]
                    } else {
                        &&& next.input is Normal
                        &&& forall|i: int| 0 <= i < bytes.len() ==> bytes[i] != 255
                        &&& bytes.len() < next.stream_ready.len()
                            ==> next.stream_ready[bytes.len() as int] == 255
                    }
                }
            }
        }),
{
    let before = match event {
        EventView::Start => state.at(ResumePoint::Rx),
        EventView::Read(Ok(bytes)) => ConnectionView { stream_ready: bytes, ..state },
        EventView::Written(Ok(n)) => state.rx_written(n),
        _ => state,
    };
    assert(before.stream_ready == from && before.input == input);
    lemma_settle_takes(before);
    lemma_settle_settles(before);
    let next = state.rx_resume(event).0;
    crate::codec::lemma_data_len(next.stream_ready);
    if next.stream_ready.len() > 0 {
        assert(next.stream_ready.take(1) =~= seq![next.stream_ready[0]]);
    }
}

/// The input is not ready only when the operation that it asked for would have blocked, or
/// when it has come to a request whose argument is next while an answer is pending: never
/// because of what was read, and never because an answer has become pending.
pub proof fn law_input_not_ready<E>(state: ConnectionView, event: EventView<E>)
    requires
        event is Start || state.point is Rx,
    ensures
        ({
            let (next, action) = state.rx_resume(event);
            &&& action == ActionView::<E>::Return(Ok(Async::NotReady)) <==> match event {
                EventView::Read(Err(failure)) | EventView::Written(Err(failure)) => {
                    failure.would_block
                },
                EventView::Read(Ok(bytes)) => {
                    bytes.len() > 0 && next.input is Request && next.reply is Some
                },
                _ => next.input is Request && next.reply is Some,
            }
            &&& action != ActionView::<E>::Return(Ok(Async::Ready(())))
            &&& action is Return <==> next.point is Idle
        }),
{
    lemma_rx_settled(state, event);
}

/// Input that fails or has come to its end changes nothing but that: what is in the buffers
/// and what is to be sent is as it was. A failure that would have blocked is not ready, any
/// other is the error itself, and the end of the input is an error of its own.
pub proof fn law_input_fails<E>(state: ConnectionView, failure: IoFailure<E>)
    requires
        state.point is Rx,
    ensures
        ({
            let outcome = ActionView::<E>::Return(
                if failure.would_block {
                    Ok(Async::NotReady)
                } else {
                    Err(ConnectionError::Io(failure.error))
                },
            );
            let idle = ConnectionView { point: ResumePoint::Idle, ..state };
            &&& state.rx_resume(EventView::Read(Err(failure))) == (idle, outcome)
            &&& state.rx_resume(EventView::Written(Err(failure))) == (idle, outcome)
            &&& state.rx_resume(EventView::<E>::Read(Ok(seq![]))) == (
                ConnectionView { stream_ready: seq![], ..idle },
                ActionView::<E>::Return(Err(ConnectionError::UnexpectedEof)),
            )
        }),
{
}

/// What the output asks for, whether it was told of a call, of a read or of a write, and
/// whether by itself or as part of a call that began with the input. An escape that was begun
/// is completed first; then comes the next byte of a pending answer; then the data in the
/// buffer, up to the next escape, or one byte of an escape; and with nothing left to send it
/// asks for a read.
pub proof fn law_output_asks<E>(
    state: ConnectionView,
    event: EventView<E>,
    next: ConnectionView,
    action: ActionView<E>,
)
    requires
        (next, action) == state.tx_resume(event) || (next, action) == state.poll_resume(event),
        event is Start || !(state.point is Idle),
        next.point is Tx,
    ensures
        if next.output is Escape {
            action == ActionView::<E>::WriteStream(seq![255u8])
        } else if next.reply is Some {
            action == ActionView::<E>::WriteStream(seq![next.reply->0[0]])
        } else if next.pty_ready.len() == 0 {
            action is ReadPty
        } else {
            &&& action matches ActionView::WriteStream(bytes)
            &&& 0 < bytes.len() <= next.pty_ready.len()
            &&& bytes == next.pty_ready.take(bytes.len() as int)
            &&& if next.pty_ready[0] == 255 {
                bytes.len() == 1
            } else {
                &&& forall|i: int| 0 <= i < bytes.len() ==> bytes[i] != 255
                &&& bytes.len() < next.pty_ready.len() ==> next.pty_ready[bytes.len() as int]
                    == 255
            }
        },
{
    lemma_rx_settled(state, event);
    crate::codec::lemma_data_len(next.pty_ready);
    if next.pty_ready.len() > 0 {
        assert(next.pty_ready.take(1) =~= seq![next.pty_ready[0]]);
    }
}

/// What an event does to the output, by itself or as part of a call, and that it does nothing
/// to the input. Bytes that were read are what there is to send. A write completes the escape
/// that was begun, or it sends the next byte of the answer, which is gone with its last byte,
/// or it begins an escape, or it sends as many bytes of data as it took. A failure changes
/// nothing.
pub proof fn law_output_step<E>(
    state: ConnectionView,
    event: EventView<E>,
    next: ConnectionView,
    action: ActionView<E>,
)
    requires
        state.point is Tx,
        !(event is Start),
        (next, action) == state.tx_resume(event) || (next, action) == state.poll_resume(event),
    ensures
        next.stream_ready == state.stream_ready,
        next.input == state.input,
        match event {
            EventView::Start => true,
            EventView::Read(Ok(bytes)) => {
                &&& next.pty_ready == bytes
                &&& next.reply == state.reply
                &&& next.output == state.output
            },
            EventView::Written(Ok(n)) => {
                if state.output is Escape {
                    &&& next.output is Normal
                    &&& next.reply == state.reply
                    &&& next.pty_ready == state.pty_ready
                } else if state.reply is Some {
                    &&& next.output is Normal
                    &&& next.reply is None <==> state.reply->0.len() == 1
                    &&& next.reply is Some ==> next.reply->0 == state.reply->0.skip(1)
                    &&& next.pty_ready == state.pty_ready
                } else if state.pty_ready[0] == 255 {
                    &&& next.output is Escape
                    &&& next.reply is None
                    &&& next.pty_ready == state.pty_ready.skip(1)
                } else {
                    &&& next.output is Normal
                    &&& next.reply is None
                    &&& next.pty_ready == state.pty_ready.skip(n as int)
                }
            },
            _ => next == (ConnectionView { point: ResumePoint::Idle, ..state }),
        },
{
}

/// Output that is told of a new call changes nothing: it only asks for what is next.
pub proof fn law_output_starts<E>(state: ConnectionView)
    ensures
        state.tx_resume(EventView::<E>::Start).0 == (ConnectionView {
            point: ResumePoint::Tx,
            ..state
        }),
{
}

/// The output is over only with the event that it was just given: it is not ready when the
/// operation would have blocked, and it fails when the operation failed or the terminal has
/// come to its end. After any read that brought something and any write that went through it
/// goes on.
pub proof fn law_output_goes_on<E>(state: ConnectionView, event: EventView<E>)
    requires
        event is Start || state.point is Tx,
    ensures
        ({
            let (next, action) = state.tx_resume(event);
            &&& action is Return <==> match event {
                EventView::Start => false,
                EventView::Read(Ok(bytes)) => bytes.len() == 0,
                EventView::Written(Ok(_)) => false,
                _ => true,
            }
            &&& action == ActionView::<E>::Return(Ok(Async::NotReady)) <==> match event {
                EventView::Read(Err(failure)) | EventView::Written(Err(failure)) => {
                    failure.would_block
                },
                _ => false,
            }
            &&& action == ActionView::<E>::Return(Err(ConnectionError::UnexpectedEof)) <==> (
            event matches EventView::Read(Ok(bytes)) && bytes.len() == 0)
            &&& event matches EventView::Read(Err(failure)) ==> failure.would_block || action
                == ActionView::<E>::Return(Err(ConnectionError::Io(failure.error)))
            &&& event matches EventView::Written(Err(failure)) ==> failure.would_block || action
                == ActionView::<E>::Return(Err(ConnectionError::Io(failure.error)))
            &&& next.point is Tx <==> !(action is Return)
            &&& next.point is Idle <==> action is Return
        }),
{
}

/// Every call handles the input first, whatever output is in the buffer or on its way: unless
/// the input has come to a request that has to wait, the first thing that a call asks for is a
/// read from the network or a write to the terminal. With nothing in the buffer it is the read.
pub proof fn law_input_first<E>(state: ConnectionView)
    ensures
        ({
            let (next, action) = state.poll_resume(EventView::<E>::Start);
            &&& action is ReadStream || action is WritePty <==> !(next.input is Request
                && next.reply is Some)
            &&& next.point is Rx <==> !(next.input is Request && next.reply is Some)
            &&& state.stream_ready.len() == 0 && !(state.input is Request && state.reply is Some)
                ==> action is ReadStream
            &&& next.pty_ready == state.pty_ready
            &&& next.output == state.output
        }),
{
    law_input_goes_on(state, EventView::<E>::Start, state.stream_ready, state.input);
}

/// As long as the input asks for something, or has failed, a call does what the input does.
/// Whenever the input is not ready, for whatever reason and whatever is in the buffers, the
/// call goes on with the output: nothing is changed by that, and the call is not over.
pub proof fn law_output_follows<E>(state: ConnectionView, event: EventView<E>)
    requires
        event is Start || state.point is Rx,
    ensures
        ({
            let (input_next, input_action) = state.rx_resume(event);
            let (next, action) = state.poll_resume(event);
            if input_action == ActionView::<E>::Return(Ok(Async::NotReady)) {
                &&& next == (ConnectionView { point: ResumePoint::Tx, ..input_next })
                &&& action is WriteStream || action is ReadPty
            } else {
                (next, action) == (input_next, input_action)
            }
        }),
{
    lemma_rx_settled(state, event);
}

/// Input that would have blocked does not hold up the output: the call goes on with it in the
/// same state, whatever is left in the buffer of the input, and asks for a write to the network
/// or a read from the terminal.
pub proof fn law_blocked_input_gives_way<E>(
    state: ConnectionView,
    event: EventView<E>,
    failure: IoFailure<E>,
)
    requires
        state.point is Rx,
        failure.would_block,
        event == EventView::<E>::Read(Err(failure)) || event == EventView::<E>::Written(
            Err(failure),
        ),
    ensures
        ({
            let (next, action) = state.poll_resume(event);
            &&& next == (ConnectionView { point: ResumePoint::Tx, ..state })
            &&& state.output is Normal && state.reply is None && state.pty_ready.len() == 0
                ==> action is ReadPty
            &&& !(action is ReadPty) ==> action is WriteStream
        }),
{
}

/// A call is not ready only when an operation of the output would have blocked: it never ends
/// with the event that starts it, with a read that brought something or with a write that went
/// through, and never with the input alone.
pub proof fn law_not_ready_when_blocked<E>(state: ConnectionView, event: EventView<E>)
    requires
        event is Start || !(state.point is Idle),
    ensures
        state.poll_resume(event).1 == ActionView::<E>::Return(Ok(Async::NotReady)) <==> {
            &&& state.point is Tx
            &&& match event {
                EventView::Read(Err(failure)) | EventView::Written(Err(failure)) => {
                    failure.would_block
                },
                _ => false,
            }
        },
        state.poll_resume(event).0.point is Idle <==> state.poll_resume(event).1 is Return,
{
    lemma_rx_settled(state, event);
}

/// A call that has come to the output stays with it: the network is not read and the terminal
/// is not written to before the next call.
pub proof fn law_output_stays<E>(state: ConnectionView, event: EventView<E>)
    requires
        state.point is Tx,
        !(event is Start),
    ensures
        state.poll_resume(event) == state.tx_resume(event),
        !(state.poll_resume(event).1 is ReadStream),
        !(state.poll_resume(event).1 is WritePty),
{
}

/// Which events the input can be handed: a call at any time; the outcome of a read when all
/// bytes are used up and no request has to wait, with at most 128 bytes; the outcome of a write
/// when the next byte is data, with no more bytes than there are, or an escaped escape.
pub proof fn law_input_accepts<E>(state: ConnectionView, event: EventView<E>)
    ensures
        state.rx_fits(event) <==> match event {
            EventView::Start => true,
            EventView::Read(result) => {
                &&& state.point is Rx
                &&& state.stream_ready.len() == 0
                &&& !(state.input is Request && state.reply is Some)
                &&& result matches Ok(bytes) ==> bytes.len() <= 128
            },
            EventView::Written(result) => {
                &&& state.point is Rx
                &&& state.stream_ready.len() > 0
                &&& match state.input {
                    TelnetInputState::Normal => {
                        &&& state.stream_ready[0] != 255
                        &&& result matches Ok(n) ==> n <= state.stream_ready.len()
                    },
                    TelnetInputState::Escape => state.stream_ready[0] == 255,
                    TelnetInputState::Request(_) => false,
                }
            },
        },
{
}

/// Which events the output can be handed: a call at any time; the outcome of a read when there
/// is nothing left to send, with at most 128 bytes; the outcome of a write when there is, and
/// where that is data, with no more bytes than there are.
pub proof fn law_output_accepts<E>(state: ConnectionView, event: EventView<E>)
    ensures
        ({
            let special = state.output is Escape || state.reply is Some;
            state.tx_fits(event) <==> match event {
                EventView::Start => true,
                EventView::Read(result) => {
                    &&& state.point is Tx
                    &&& !special
                    &&& state.pty_ready.len() == 0
                    &&& result matches Ok(bytes) ==> bytes.len() <= 128
                },
                EventView::Written(result) => {
                    &&& state.point is Tx
                    &&& special || state.pty_ready.len() > 0
                    &&& result matches Ok(n) ==> special || state.pty_ready[0] == 255 || n
                        <= state.pty_ready.len()
                },
            }
        }),
{
}

/// Which events a call can be handed: its start when none is under way, and otherwise what
/// the input or the output can be handed, whichever the call has come to.
pub proof fn law_call_accepts<E>(state: ConnectionView, event: EventView<E>)
    ensures
        state.point is Idle ==> (state.poll_fits(event) <==> event is Start),
        state.point is Rx ==> (state.poll_fits(event) <==> state.rx_fits(event)),
        state.point is Tx ==> (state.poll_fits(event) <==> state.tx_fits(event)),
{
}

} // verus!
