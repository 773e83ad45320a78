use telnet_server::{Action, Async, ConnectionError, Event, IoFailure, TelnetConnection};

const BLOCKED: IoFailure<u8> = IoFailure { would_block: true, error: 1 };
const BROKEN: IoFailure<u8> = IoFailure { would_block: false, error: 2 };

type Connection = TelnetConnection<(), ()>;

/// Reads and writes of one call, done from and to memory.
struct Ends {
    /// What the reads from the network bring; without any left they would block.
    stream_in: Vec<Vec<u8>>,
    /// What the reads from the terminal bring; without any left they would block.
    pty_in: Vec<Vec<u8>>,
    stream_out: Vec<u8>,
    pty_out: Vec<u8>,
    /// How many writes to the network go through before they would block.
    stream_room: usize,
    /// How many bytes a write takes at most.
    chunk: usize,
}

impl Ends {
    fn new(stream_in: &[&[u8]], pty_in: &[&[u8]]) -> Self {
        Ends {
            stream_in: stream_in.iter().map(|bytes| bytes.to_vec()).collect(),
            pty_in: pty_in.iter().map(|bytes| bytes.to_vec()).collect(),
            stream_out: vec![],
            pty_out: vec![],
            stream_room: usize::MAX,
            chunk: usize::MAX,
        }
    }
}

fn next_read(input: &mut Vec<Vec<u8>>) -> Event<u8> {
    if input.is_empty() {
        Event::Read(Err(BLOCKED))
    } else {
        Event::Read(Ok(input.remove(0)))
    }
}

fn call(conn: &mut Connection, ends: &mut Ends) -> Result<Async<()>, ConnectionError<u8>> {
    let mut event = Event::Start;
    loop {
        assert!(conn.accepts(&event));
        event = match conn.poll(event) {
            Action::ReadStream => next_read(&mut ends.stream_in),
            Action::ReadPty => next_read(&mut ends.pty_in),
            Action::WritePty(bytes) => {
                let n = bytes.len().min(ends.chunk);
                ends.pty_out.extend(&bytes[..n]);
                Event::Written(Ok(n))
            }
            Action::WriteStream(bytes) => {
                if ends.stream_room == 0 {
                    Event::Written(Err(BLOCKED))
                } else {
                    ends.stream_room -= 1;
                    let n = bytes.len().min(ends.chunk);
                    ends.stream_out.extend(&bytes[..n]);
                    Event::Written(Ok(n))
                }
            }
            Action::Return(outcome) => return outcome,
        };
    }
}

/// One call on a new connection that ends because everything would block.
fn run(stream_in: &[&[u8]], pty_in: &[&[u8]]) -> Ends {
    let mut conn: Connection = TelnetConnection::new((), ());
    let mut ends = Ends::new(stream_in, pty_in);
    assert_eq!(call(&mut conn, &mut ends), Ok(Async::NotReady));
    ends
}

fn to_stream(action: Action<u8>) -> Vec<u8> {
    match action {
        Action::WriteStream(bytes) => bytes,
        other => panic!("{:?}", other),
    }
}

fn to_pty(action: Action<u8>) -> Vec<u8> {
    match action {
        Action::WritePty(bytes) => bytes,
        other => panic!("{:?}", other),
    }
}

#[test]
fn the_two_ends_are_kept() {
    let mut conn = TelnetConnection::new(3u8, 4u16);
    assert_eq!((*conn.pty(), *conn.stream()), (3, 4));
    *conn.pty() = 5;
    *conn.stream() = 6;
    assert_eq!((*conn.pty(), *conn.stream()), (5, 6));
}

#[test]
fn data_goes_to_the_terminal() {
    let ends = run(&[b"ls -l\r\n"], &[]);
    assert_eq!(ends.pty_out, b"ls -l\r\n");
    assert!(ends.stream_out.is_empty());
}

#[test]
fn output_goes_to_the_network() {
    let ends = run(&[], &[b"hello", b" world"]);
    assert_eq!(ends.stream_out, b"hello world");
    assert!(ends.pty_out.is_empty());
}

#[test]
fn an_escaped_escape_is_data() {
    let ends = run(&[&[97, 255, 255, 98]], &[]);
    assert_eq!(ends.pty_out, [97, 255, 98]);
}

#[test]
fn an_escape_in_the_output_is_doubled() {
    let ends = run(&[], &[&[97, 255, 98, 255, 255]]);
    assert_eq!(ends.stream_out, [97, 255, 255, 98, 255, 255, 255, 255]);
}

#[test]
fn encoded_output_is_decoded_by_another_connection() {
    let data: Vec<u8> = (0..=255).chain(vec![255, 255, 1, 255]).collect();
    let chunks: Vec<&[u8]> = data.chunks(100).collect();
    let sent = run(&[], &chunks).stream_out;
    let wire: Vec<&[u8]> = sent.chunks(7).collect();
    let ends = run(&wire, &[]);
    assert_eq!(ends.pty_out, data);
}

#[test]
fn every_request_is_refused() {
    for request in [251, 252, 253, 254] {
        let ends = run(&[&[97, 255, request, 24, 98]], &[]);
        assert_eq!(ends.pty_out, [97, 98]);
        assert_eq!(ends.stream_out, [255, 252, 24]);
    }
}

#[test]
fn other_commands_are_left_out() {
    for command in 236..=250 {
        let ends = run(&[&[97, 255, command, 98]], &[]);
        assert_eq!(ends.pty_out, [97, 98]);
        assert!(ends.stream_out.is_empty());
    }
}

#[test]
fn the_payload_of_a_subnegotiation_is_data() {
    let ends = run(&[&[255, 250, 24, 1, 255, 240, 97]], &[]);
    assert_eq!(ends.pty_out, [24, 1, 97]);
}

#[test]
fn the_argument_of_a_request_may_be_an_escape() {
    let ends = run(&[&[255, 253, 255, 97]], &[]);
    assert_eq!(ends.pty_out, [97]);
    assert_eq!(ends.stream_out, [255, 252, 255]);
}

#[test]
fn sequences_may_come_in_pieces() {
    let ends = run(&[&[97, 255], &[255], &[98, 255], &[253], &[1], &[99]], &[]);
    assert_eq!(ends.pty_out, [97, 255, 98, 99]);
    assert_eq!(ends.stream_out, [255, 252, 1]);
}

#[test]
fn the_reply_comes_before_the_data() {
    let ends = run(&[&[255, 253, 1]], &[b"hello"]);
    assert_eq!(ends.stream_out, [255, 252, 1, 104, 101, 108, 108, 111]);
}

#[test]
fn requests_are_answered_one_call_at_a_time() {
    let mut conn: Connection = TelnetConnection::new((), ());
    let mut ends = Ends::new(&[&[97, 255, 253, 1, 98, 255, 251, 3, 99]], &[]);
    assert_eq!(call(&mut conn, &mut ends), Ok(Async::NotReady));
    assert_eq!(ends.pty_out, [97, 98]);
    assert_eq!(ends.stream_out, [255, 252, 1]);
    assert_eq!(call(&mut conn, &mut ends), Ok(Async::NotReady));
    assert_eq!(ends.pty_out, [97, 98, 99]);
    assert_eq!(ends.stream_out, [255, 252, 1, 255, 252, 3]);
}

#[test]
fn a_request_waits_while_a_reply_is_pending() {
    let mut conn: Connection = TelnetConnection::new((), ());
    let mut ends = Ends::new(&[&[255, 253, 1, 255, 251, 3]], &[]);
    ends.stream_room = 2;
    assert_eq!(call(&mut conn, &mut ends), Ok(Async::NotReady));
    assert_eq!(ends.stream_out, [255, 252]);
    ends.stream_room = 0;
    assert_eq!(call(&mut conn, &mut ends), Ok(Async::NotReady));
    assert_eq!(ends.stream_out, [255, 252]);
    ends.stream_room = usize::MAX;
    assert_eq!(call(&mut conn, &mut ends), Ok(Async::NotReady));
    assert_eq!(ends.stream_out, [255, 252, 1]);
    assert_eq!(call(&mut conn, &mut ends), Ok(Async::NotReady));
    assert_eq!(ends.stream_out, [255, 252, 1, 255, 252, 3]);
}

#[test]
fn a_blocked_write_to_the_terminal_is_tried_again() {
    let mut conn: Connection = TelnetConnection::new((), ());
    assert!(matches!(conn.poll::<u8>(Event::Start), Action::ReadStream));
    let first = conn.poll::<u8>(Event::Read(Ok(vec![97, 98, 255, 240])));
    assert_eq!(to_pty(first), [97, 98]);
    assert!(matches!(conn.poll(Event::Written(Err(BLOCKED))), Action::ReadPty));
    assert!(matches!(
        conn.poll(Event::Read(Err(BLOCKED))),
        Action::Return(Ok(Async::NotReady))
    ));
    let again = conn.poll::<u8>(Event::Start);
    assert_eq!(to_pty(again), [97, 98]);
}

#[test]
fn a_blocked_write_to_the_network_is_tried_again() {
    let mut conn: Connection = TelnetConnection::new((), ());
    let mut ends = Ends::new(&[], &[&[97, 255, 98]]);
    for room in 0..4 {
        assert_eq!(ends.stream_out, &[97, 255, 255, 98][..room]);
        ends.stream_room = 0;
        assert_eq!(call(&mut conn, &mut ends), Ok(Async::NotReady));
        ends.stream_room = 1;
        assert_eq!(call(&mut conn, &mut ends), Ok(Async::NotReady));
    }
    assert_eq!(ends.stream_out, [97, 255, 255, 98]);
}

#[test]
fn a_short_write_of_data_goes_on_with_the_rest() {
    let mut conn: Connection = TelnetConnection::new((), ());
    assert!(matches!(conn.poll::<u8>(Event::Start), Action::ReadStream));
    assert_eq!(to_pty(conn.poll::<u8>(Event::Read(Ok(vec![97, 98, 99])))), [97, 98, 99]);
    assert_eq!(to_pty(conn.poll::<u8>(Event::Written(Ok(1)))), [98, 99]);
    assert_eq!(to_pty(conn.poll::<u8>(Event::Written(Ok(0)))), [98, 99]);
    assert!(matches!(conn.poll::<u8>(Event::Written(Ok(2))), Action::ReadStream));
}

#[test]
fn a_short_write_before_an_escape_goes_on_with_the_rest() {
    let mut conn: Connection = TelnetConnection::new((), ());
    assert!(matches!(conn.poll::<u8>(Event::Start), Action::ReadStream));
    let bytes = vec![97, 98, 99, 255, 255];
    assert_eq!(to_pty(conn.poll::<u8>(Event::Read(Ok(bytes)))), [97, 98, 99]);
    assert_eq!(to_pty(conn.poll::<u8>(Event::Written(Ok(1)))), [98, 99]);
    assert_eq!(to_pty(conn.poll::<u8>(Event::Written(Ok(2)))), [255]);
    assert!(matches!(conn.poll::<u8>(Event::Written(Ok(1))), Action::ReadStream));
}

#[test]
fn a_short_write_to_the_network_before_an_escape_goes_on_with_the_rest() {
    let mut conn: Connection = TelnetConnection::new((), ());
    assert!(matches!(conn.poll::<u8>(Event::Start), Action::ReadStream));
    assert!(matches!(conn.poll(Event::Read(Err(BLOCKED))), Action::ReadPty));
    let bytes = vec![97, 98, 99, 255];
    assert_eq!(to_stream(conn.poll::<u8>(Event::Read(Ok(bytes)))), [97, 98, 99]);
    assert_eq!(to_stream(conn.poll::<u8>(Event::Written(Ok(1)))), [98, 99]);
    assert_eq!(to_stream(conn.poll::<u8>(Event::Written(Ok(2)))), [255]);
    assert_eq!(to_stream(conn.poll::<u8>(Event::Written(Ok(1)))), [255]);
    assert!(matches!(conn.poll::<u8>(Event::Written(Ok(1))), Action::ReadPty));
}

#[test]
fn one_byte_at_a_time_loses_nothing() {
    let mut conn: Connection = TelnetConnection::new((), ());
    let mut ends = Ends::new(&[&[65, 66, 255, 255]], &[&[65, 66, 255]]);
    ends.chunk = 1;
    assert_eq!(call(&mut conn, &mut ends), Ok(Async::NotReady));
    assert_eq!(ends.pty_out, [65, 66, 255]);
    assert_eq!(ends.stream_out, [65, 66, 255, 255]);
}

#[test]
fn any_size_of_write_gives_the_same_bytes() {
    let input = [1, 2, 255, 255, 3, 255, 241, 4, 5, 255, 253, 9, 6, 255];
    let output = [255, 1, 2, 255, 255, 3, 4];
    for chunk in 1..8 {
        let mut conn: Connection = TelnetConnection::new((), ());
        let mut ends = Ends::new(&[&input], &[&output]);
        ends.chunk = chunk;
        assert_eq!(call(&mut conn, &mut ends), Ok(Async::NotReady));
        assert_eq!(ends.pty_out, [1, 2, 255, 3, 4, 5, 6]);
        assert_eq!(
            ends.stream_out,
            [255, 252, 9, 255, 255, 1, 2, 255, 255, 255, 255, 3, 4]
        );
    }
}

#[test]
fn an_escape_is_completed_before_a_reply() {
    let mut conn: Connection = TelnetConnection::new((), ());
    let mut ends = Ends::new(&[], &[&[255, 97]]);
    ends.stream_room = 1;
    assert_eq!(call(&mut conn, &mut ends), Ok(Async::NotReady));
    ends.stream_in.push(vec![255, 253, 1]);
    ends.stream_room = usize::MAX;
    assert_eq!(call(&mut conn, &mut ends), Ok(Async::NotReady));
    assert_eq!(ends.stream_out, [255, 255, 255, 252, 1, 97]);
}

#[test]
fn every_request_gets_its_refusal_in_order() {
    let mut conn: Connection = TelnetConnection::new((), ());
    let network = [&[255, 253, 1, 97, 255, 251][..], &[3, 255, 254, 255, 255, 252, 5]];
    let mut ends = Ends::new(&network, &[]);
    // A call in which a write blocks loses no answer
    ends.stream_room = 1;
    assert_eq!(call(&mut conn, &mut ends), Ok(Async::NotReady));
    assert_eq!(ends.stream_out, [255]);
    ends.stream_room = usize::MAX;
    let all = [255, 252, 1, 255, 252, 3, 255, 252, 255, 255, 252, 5];
    for answers in 1..=4 {
        assert_eq!(call(&mut conn, &mut ends), Ok(Async::NotReady));
        assert_eq!(ends.stream_out, &all[..3 * answers]);
    }
    assert_eq!(call(&mut conn, &mut ends), Ok(Async::NotReady));
    assert_eq!(ends.stream_out, all);
    assert_eq!(ends.pty_out, [97]);
}

#[test]
fn the_end_of_the_network_input_ends_the_connection() {
    let mut conn: Connection = TelnetConnection::new((), ());
    let mut ends = Ends::new(&[b"x", b""], &[b"never sent"]);
    assert_eq!(call(&mut conn, &mut ends), Err(ConnectionError::UnexpectedEof));
    assert_eq!(ends.pty_out, b"x");
    assert!(ends.stream_out.is_empty());
}

#[test]
fn the_end_of_the_terminal_output_ends_the_connection() {
    let mut conn: Connection = TelnetConnection::new((), ());
    let mut ends = Ends::new(&[], &[b"bye", b""]);
    assert_eq!(call(&mut conn, &mut ends), Err(ConnectionError::UnexpectedEof));
    assert_eq!(ends.stream_out, b"bye");
}

#[test]
fn failures_end_the_connection() {
    let failed = Action::Return(Err(ConnectionError::Io(2)));
    let is_failure = |action: Action<u8>| format!("{:?}", action) == format!("{:?}", failed);

    let mut conn: Connection = TelnetConnection::new((), ());
    conn.poll::<u8>(Event::Start);
    assert!(is_failure(conn.poll(Event::Read(Err(BROKEN)))));

    let mut conn: Connection = TelnetConnection::new((), ());
    conn.poll::<u8>(Event::Start);
    conn.poll::<u8>(Event::Read(Ok(vec![97])));
    assert!(is_failure(conn.poll(Event::Written(Err(BROKEN)))));

    let mut conn: Connection = TelnetConnection::new((), ());
    conn.poll::<u8>(Event::Start);
    conn.poll(Event::Read(Err(BLOCKED)));
    assert!(is_failure(conn.poll(Event::Read(Err(BROKEN)))));

    let mut conn: Connection = TelnetConnection::new((), ());
    conn.poll::<u8>(Event::Start);
    conn.poll(Event::Read(Err(BLOCKED)));
    conn.poll::<u8>(Event::Read(Ok(vec![97])));
    assert!(is_failure(conn.poll(Event::Written(Err(BROKEN)))));
}

#[test]
fn input_and_output_can_be_handled_apart() {
    let mut conn: Connection = TelnetConnection::new((), ());
    assert!(matches!(conn.handle_stream_rx::<u8>(Event::Start), Action::ReadStream));
    let bytes = vec![255, 254, 9, 97];
    assert_eq!(to_pty(conn.handle_stream_rx::<u8>(Event::Read(Ok(bytes)))), [97]);
    assert!(matches!(
        conn.handle_stream_rx::<u8>(Event::Written(Ok(1))),
        Action::ReadStream
    ));
    assert!(matches!(
        conn.handle_stream_rx(Event::Read(Err(BLOCKED))),
        Action::Return(Ok(Async::NotReady))
    ));
    assert_eq!(to_stream(conn.handle_stream_tx::<u8>(Event::Start)), [255]);
    assert_eq!(to_stream(conn.handle_stream_tx::<u8>(Event::Written(Ok(1)))), [252]);
    assert_eq!(to_stream(conn.handle_stream_tx::<u8>(Event::Written(Ok(1)))), [9]);
    assert!(matches!(
        conn.handle_stream_tx::<u8>(Event::Written(Ok(1))),
        Action::ReadPty
    ));
}

#[test]
fn only_outcomes_of_what_was_asked_for_are_accepted() {
    let mut conn: Connection = TelnetConnection::new((), ());
    assert!(conn.accepts::<u8>(&Event::Start));
    assert!(!conn.accepts::<u8>(&Event::Read(Ok(vec![1]))));
    assert!(!conn.accepts::<u8>(&Event::Written(Ok(1))));
    assert!(matches!(conn.poll::<u8>(Event::Start), Action::ReadStream));
    assert!(!conn.accepts::<u8>(&Event::Written(Ok(1))));
    assert!(conn.accepts::<u8>(&Event::Read(Ok(vec![0; 128]))));
    assert!(!conn.accepts::<u8>(&Event::Read(Ok(vec![0; 129]))));
    assert_eq!(to_pty(conn.poll::<u8>(Event::Read(Ok(vec![97, 98])))), [97, 98]);
    assert!(!conn.accepts::<u8>(&Event::Read(Ok(vec![1]))));
    assert!(conn.accepts::<u8>(&Event::Written(Ok(2))));
    assert!(!conn.accepts::<u8>(&Event::Written(Ok(3))));
    assert!(conn.rx_accepts::<u8>(&Event::Written(Ok(2))));
    assert!(!conn.tx_accepts::<u8>(&Event::Written(Ok(2))));
}

#[test]
fn a_connection_holds_one_full_buffer_each_way() {
    let mut conn: Connection = TelnetConnection::new((), ());
    let full = vec![97; 128];
    let mut ends = Ends::new(&[&full], &[&full]);
    assert_eq!(call(&mut conn, &mut ends), Ok(Async::NotReady));
    assert_eq!(ends.pty_out, full);
    assert_eq!(ends.stream_out, full);
}
