use telnet_server::{Async, AsyncBufferedReader, ConnectionError, IoFailure};

const BLOCKED: IoFailure<u8> = IoFailure { would_block: true, error: 1 };
const BROKEN: IoFailure<u8> = IoFailure { would_block: false, error: 2 };

#[test]
fn new_reader_is_empty() {
    let mut reader = AsyncBufferedReader::new();
    assert!(reader.ready().is_empty());
    assert_eq!(reader.peek_byte(), None);
    assert_eq!(reader.get_byte(), None);
}

#[test]
fn bytes_are_borrowed_after_a_read() {
    let mut reader = AsyncBufferedReader::new();
    assert_eq!(
        reader.borrow_bytes::<u8>(Ok(vec![1, 2, 3])),
        Ok(Async::Ready(&[1u8, 2, 3][..]))
    );
    assert_eq!(reader.ready(), &[1, 2, 3]);
}

#[test]
fn ready_bytes_come_before_a_read() {
    let mut reader = AsyncBufferedReader::new();
    assert!(reader.borrow_bytes::<u8>(Ok(vec![1, 2, 3])).is_ok());
    reader.consume(1);
    assert_eq!(
        reader.borrow_bytes::<u8>(Ok(vec![9])),
        Ok(Async::Ready(&[2u8, 3][..]))
    );
    assert_eq!(reader.borrow_bytes(Err(BROKEN)), Ok(Async::Ready(&[2u8, 3][..])));
}

#[test]
fn no_bytes_are_the_end_of_the_input() {
    let mut reader = AsyncBufferedReader::new();
    assert_eq!(
        reader.borrow_bytes::<u8>(Ok(vec![])),
        Err(ConnectionError::UnexpectedEof)
    );
}

#[test]
fn a_read_after_the_end_fills_the_reader_again() {
    let mut reader = AsyncBufferedReader::new();
    assert!(reader.borrow_bytes::<u8>(Ok(vec![1, 2, 3])).is_ok());
    reader.consume(3);
    assert!(reader.borrow_bytes::<u8>(Ok(vec![])).is_err());
    assert!(reader.ready().is_empty());
    assert_eq!(
        reader.borrow_bytes::<u8>(Ok(vec![4, 5])),
        Ok(Async::Ready(&[4u8, 5][..]))
    );
}

#[test]
fn a_blocked_read_is_not_ready() {
    let mut reader = AsyncBufferedReader::new();
    assert_eq!(reader.borrow_bytes(Err(BLOCKED)), Ok(Async::NotReady));
    assert!(reader.ready().is_empty());
}

#[test]
fn a_failed_read_is_an_error() {
    let mut reader = AsyncBufferedReader::new();
    assert_eq!(reader.borrow_bytes(Err(BROKEN)), Err(ConnectionError::Io(2)));
}

#[test]
fn bytes_are_peeked_and_taken() {
    let mut reader = AsyncBufferedReader::new();
    assert!(reader.borrow_bytes::<u8>(Ok(vec![7, 8])).is_ok());
    assert_eq!(reader.peek_byte(), Some(7));
    assert_eq!(reader.peek_byte(), Some(7));
    assert_eq!(reader.get_byte(), Some(7));
    assert_eq!(reader.get_byte(), Some(8));
    assert_eq!(reader.get_byte(), None);
}

#[test]
fn a_full_buffer_is_used_up_piece_by_piece() {
    let mut reader = AsyncBufferedReader::new();
    let bytes: Vec<u8> = (0..128).collect();
    assert!(reader.borrow_bytes::<u8>(Ok(bytes)).is_ok());
    assert_eq!(reader.ready().len(), 128);
    reader.consume(100);
    assert_eq!(reader.ready().len(), 28);
    assert_eq!(reader.peek_byte(), Some(100));
    reader.consume(28);
    assert!(reader.ready().is_empty());
}

#[test]
fn bytes_may_be_used_up_in_parts() {
    let mut parts = AsyncBufferedReader::new();
    assert!(parts.borrow_bytes::<u8>(Ok(vec![1, 2, 3, 4])).is_ok());
    parts.consume(1);
    parts.consume(0);
    parts.consume(2);
    let mut whole = AsyncBufferedReader::new();
    assert!(whole.borrow_bytes::<u8>(Ok(vec![1, 2, 3, 4])).is_ok());
    whole.consume(3);
    assert_eq!(parts.ready(), whole.ready());
    assert_eq!(parts.ready(), &[4]);
}

#[test]
fn a_refill_starts_at_the_front() {
    let mut reader = AsyncBufferedReader::new();
    assert!(reader.borrow_bytes::<u8>(Ok(vec![1, 2])).is_ok());
    assert_eq!(reader.get_byte(), Some(1));
    assert_eq!(reader.get_byte(), Some(2));
    assert_eq!(reader.borrow_bytes(Err(BLOCKED)), Ok(Async::NotReady));
    assert_eq!(reader.borrow_bytes::<u8>(Ok(vec![9])), Ok(Async::Ready(&[9u8][..])));
    assert_eq!(reader.get_byte(), Some(9));
    assert_eq!(reader.get_byte(), None);
}
