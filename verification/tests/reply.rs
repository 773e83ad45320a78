use telnet_server::{Async, ConnectionError, IoFailure, SendStep, TelnetReply, TelnetRequest};

const BLOCKED: IoFailure<u8> = IoFailure { would_block: true, error: 1 };
const BROKEN: IoFailure<u8> = IoFailure { would_block: false, error: 2 };

#[test]
fn a_reply_is_sent_byte_by_byte() {
    let mut reply = TelnetReply::new(TelnetRequest::Wont, 24);
    assert_eq!(reply.send::<u8>(None), SendStep::Write(255));
    assert_eq!(reply.send::<u8>(Some(Ok(1))), SendStep::Write(252));
    assert_eq!(reply.send::<u8>(Some(Ok(1))), SendStep::Write(24));
    assert_eq!(
        reply.send::<u8>(Some(Ok(1))),
        SendStep::Return(Ok(Async::Ready(())))
    );
}

#[test]
fn a_reply_names_its_request() {
    let mut reply = TelnetReply::new(TelnetRequest::Will, 1);
    assert_eq!(reply.send::<u8>(None), SendStep::Write(255));
    assert_eq!(reply.send::<u8>(Some(Ok(1))), SendStep::Write(251));
    assert_eq!(reply.send::<u8>(Some(Ok(1))), SendStep::Write(1));
}

#[test]
fn a_blocked_reply_goes_on_where_it_was() {
    let mut reply = TelnetReply::new(TelnetRequest::Wont, 24);
    assert_eq!(reply.send::<u8>(None), SendStep::Write(255));
    assert_eq!(reply.send(Some(Err(BLOCKED))), SendStep::Return(Ok(Async::NotReady)));
    assert_eq!(reply.send::<u8>(None), SendStep::Write(255));
    assert_eq!(reply.send::<u8>(Some(Ok(1))), SendStep::Write(252));
    assert_eq!(reply.send(Some(Err(BLOCKED))), SendStep::Return(Ok(Async::NotReady)));
    assert_eq!(reply.send::<u8>(None), SendStep::Write(252));
    assert_eq!(reply.send::<u8>(Some(Ok(1))), SendStep::Write(24));
    assert_eq!(reply.send(Some(Err(BLOCKED))), SendStep::Return(Ok(Async::NotReady)));
    assert_eq!(reply.send::<u8>(None), SendStep::Write(24));
}

#[test]
fn a_failed_write_is_an_error_of_the_reply() {
    let mut reply = TelnetReply::new(TelnetRequest::Wont, 24);
    assert_eq!(reply.send::<u8>(None), SendStep::Write(255));
    assert_eq!(
        reply.send(Some(Err(BROKEN))),
        SendStep::Return(Err(ConnectionError::Io(2)))
    );
}

#[test]
fn a_byte_counts_as_sent_whatever_is_reported() {
    let mut reply = TelnetReply::new(TelnetRequest::Wont, 24);
    assert_eq!(reply.send::<u8>(None), SendStep::Write(255));
    assert_eq!(reply.send::<u8>(Some(Ok(0))), SendStep::Write(252));
}
