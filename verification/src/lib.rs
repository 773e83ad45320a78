//! The protocol side of a small telnet server: escape sequence framing between a network
//! stream and a terminal, without any input or output of its own.

pub mod codec;
pub mod connection;
pub mod flags;
pub mod io;
pub mod laws;
pub mod model;
pub mod protocol;
pub mod reader;
pub mod reply;
pub mod traffic;

pub use codec::TelnetInputState;
pub use connection::TelnetConnection;
pub use flags::nonblocking_flags;
pub use io::{Action, Async, ConnectionError, Event, IoFailure, Poll};
pub use model::{ResumePoint, TelnetOutputState};
pub use protocol::{TelnetCommand, TelnetOpt, TelnetRequest};
pub use reader::AsyncBufferedReader;
pub use reply::{SendStep, TelnetReply};
