//! The byte codes of the telnet protocol.

use vstd::prelude::*;

verus! {

/// A telnet command: the byte that follows an escape.
#[allow(non_camel_case_types)]
#[derive(Debug, Clone, Copy, PartialEq, Eq, Structural)]
pub enum TelnetCommand {
    /// interpret as command:
    IAC,
    /// you are not to use option
    DONT,
    /// please, you use option
    DO,
    /// I won't use option
    WONT,
    /// I will use option
    WILL,
    /// interpret as subnegotiation
    SB,
    /// you may reverse the line
    GA,
    /// erase the current line
    EL,
    /// erase the current character
    EC,
    /// are you there
    AYT,
    /// abort output--but let prog finish
    AO,
    /// interrupt process--permanently
    IP,
    /// break
    BREAK,
    /// data mark--for connect. cleaning
    DM,
    /// nop
    NOP,
    /// end sub negotiation
    SE,
    /// end of record (transparent mode)
    EOR,
    /// Abort process
    ABORT,
    /// Suspend process
    SUSP,
    /// End of file: EOF is already used...
    xEOF,
}

/// The first byte of every escape sequence, the code of [`TelnetCommand::IAC`].
pub const IAC: u8 = 255;

impl TelnetCommand {
    /// The code of a command. The commands are numbered downwards from 255.
    pub open spec fn spec_code(self) -> u8 {
        match self {
            TelnetCommand::IAC => 255,
            TelnetCommand::DONT => 254,
            TelnetCommand::DO => 253,
            TelnetCommand::WONT => 252,
            TelnetCommand::WILL => 251,
            TelnetCommand::SB => 250,
            TelnetCommand::GA => 249,
            TelnetCommand::EL => 248,
            TelnetCommand::EC => 247,
            TelnetCommand::AYT => 246,
            TelnetCommand::AO => 245,
            TelnetCommand::IP => 244,
            TelnetCommand::BREAK => 243,
            TelnetCommand::DM => 242,
            TelnetCommand::NOP => 241,
            TelnetCommand::SE => 240,
            TelnetCommand::EOR => 239,
            TelnetCommand::ABORT => 238,
            TelnetCommand::SUSP => 237,
            TelnetCommand::xEOF => 236,
        }
    }

    /// The byte that stands for this command on the wire.
    #[verifier::when_used_as_spec(spec_code)]
    pub fn code(self) -> (r: u8)
        ensures
            r == self.spec_code(),
    {
        match self {
            TelnetCommand::IAC => 255,
            TelnetCommand::DONT => 254,
            TelnetCommand::DO => 253,
            TelnetCommand::WONT => 252,
            TelnetCommand::WILL => 251,
            TelnetCommand::SB => 250,
            TelnetCommand::GA => 249,
            TelnetCommand::EL => 248,
            TelnetCommand::EC => 247,
            TelnetCommand::AYT => 246,
            TelnetCommand::AO => 245,
            TelnetCommand::IP => 244,
            TelnetCommand::BREAK => 243,
            TelnetCommand::DM => 242,
            TelnetCommand::NOP => 241,
            TelnetCommand::SE => 240,
            TelnetCommand::EOR => 239,
            TelnetCommand::ABORT => 238,
            TelnetCommand::SUSP => 237,
            TelnetCommand::xEOF => 236,
        }
    }
}

/// A telnet option: what a request is about.
#[allow(non_camel_case_types)]
#[derive(Debug, Clone, Copy, PartialEq, Eq, Structural)]
pub enum TelnetOpt {
    /// 8-bit data path
    BINARY,
    /// echo
    ECHO,
    /// prepare to reconnect
    RCP,
    /// suppress go ahead
    SGA,
    /// approximate message size
    NAMS,
    /// give status
    STATUS,
    /// timing mark
    TM,
    /// remote controlled transmission and echo
    RCTE,
    /// negotiate about output line width
    NAOL,
    /// negotiate about output page size
    NAOP,
    /// negotiate about CR disposition
    NAOCRD,
    /// negotiate about horizontal tabstops
    NAOHTS,
    /// negotiate about horizontal tab disposition
    NAOHTD,
    /// negotiate about formfeed disposition
    NAOFFD,
    /// negotiate about vertical tab stops
    NAOVTS,
    /// negotiate about vertical tab disposition
    NAOVTD,
    /// negotiate about output LF disposition
    NAOLFD,
    /// extended ascii character set
    XASCII,
    /// force logout
    LOGOUT,
    /// byte macro
    BM,
    /// data entry terminal
    DET,
    /// supdup protocol
    SUPDUP,
    /// supdup output
    SUPDUPOUTPUT,
    /// send location
    SNDLOC,
    /// terminal type
    TTYPE,
    /// end or record
    EOR,
    /// TACACS user identification
    TUID,
    /// output marking
    OUTMRK,
    /// terminal location number
    TTYLOC,
    /// 3270 regime
    REGIME3270,
    /// X.3 PAD
    X3PAD,
    /// window size
    NAWS,
    /// terminal speed
    TSPEED,
    /// remote flow control
    LFLOW,
    /// Linemode option
    LINEMODE,
    /// X Display Location
    XDISPLOC,
    /// Old - Environment variables
    OLD_ENVIRON,
    /// Authenticate
    AUTHENTICATION,
    /// Encryption option
    ENCRYPT,
    /// New - Environment variables
    NEW_ENVIRON,
    /// extended-options-list
    EXOPL,
}

impl TelnetOpt {
    /// The code of an option.
    pub open spec fn spec_code(self) -> u8 {
        match self {
            TelnetOpt::BINARY => 0,
            TelnetOpt::ECHO => 1,
            TelnetOpt::RCP => 2,
            TelnetOpt::SGA => 3,
            TelnetOpt::NAMS => 4,
            TelnetOpt::STATUS => 5,
            TelnetOpt::TM => 6,
            TelnetOpt::RCTE => 7,
            TelnetOpt::NAOL => 8,
            TelnetOpt::NAOP => 9,
            TelnetOpt::NAOCRD => 10,
            TelnetOpt::NAOHTS => 11,
            TelnetOpt::NAOHTD => 12,
            TelnetOpt::NAOFFD => 13,
            TelnetOpt::NAOVTS => 14,
            TelnetOpt::NAOVTD => 15,
            TelnetOpt::NAOLFD => 16,
            TelnetOpt::XASCII => 17,
            TelnetOpt::LOGOUT => 18,
            TelnetOpt::BM => 19,
            TelnetOpt::DET => 20,
            TelnetOpt::SUPDUP => 21,
            TelnetOpt::SUPDUPOUTPUT => 22,
            TelnetOpt::SNDLOC => 23,
            TelnetOpt::TTYPE => 24,
            TelnetOpt::EOR => 25,
            TelnetOpt::TUID => 26,
            TelnetOpt::OUTMRK => 27,
            TelnetOpt::TTYLOC => 28,
            TelnetOpt::REGIME3270 => 29,
            TelnetOpt::X3PAD => 30,
            TelnetOpt::NAWS => 31,
            TelnetOpt::TSPEED => 32,
            TelnetOpt::LFLOW => 33,
            TelnetOpt::LINEMODE => 34,
            TelnetOpt::XDISPLOC => 35,
            TelnetOpt::OLD_ENVIRON => 36,
            TelnetOpt::AUTHENTICATION => 37,
            TelnetOpt::ENCRYPT => 38,
            TelnetOpt::NEW_ENVIRON => 39,
            TelnetOpt::EXOPL => 255,
        }
    }

    /// The byte that stands for this option on the wire.
    #[verifier::when_used_as_spec(spec_code)]
    pub fn code(self) -> (r: u8)
        ensures
            r == self.spec_code(),
    {
        match self {
            TelnetOpt::BINARY => 0,
            TelnetOpt::ECHO => 1,
            TelnetOpt::RCP => 2,
            TelnetOpt::SGA => 3,
            TelnetOpt::NAMS => 4,
            TelnetOpt::STATUS => 5,
            TelnetOpt::TM => 6,
            TelnetOpt::RCTE => 7,
            TelnetOpt::NAOL => 8,
            TelnetOpt::NAOP => 9,
            TelnetOpt::NAOCRD => 10,
            TelnetOpt::NAOHTS => 11,
            TelnetOpt::NAOHTD => 12,
            TelnetOpt::NAOFFD => 13,
            TelnetOpt::NAOVTS => 14,
            TelnetOpt::NAOVTD => 15,
            TelnetOpt::NAOLFD => 16,
            TelnetOpt::XASCII => 17,
            TelnetOpt::LOGOUT => 18,
            TelnetOpt::BM => 19,
            TelnetOpt::DET => 20,
            TelnetOpt::SUPDUP => 21,
            TelnetOpt::SUPDUPOUTPUT => 22,
            TelnetOpt::SNDLOC => 23,
            TelnetOpt::TTYPE => 24,
            TelnetOpt::EOR => 25,
            TelnetOpt::TUID => 26,
            TelnetOpt::OUTMRK => 27,
            TelnetOpt::TTYLOC => 28,
            TelnetOpt::REGIME3270 => 29,
            TelnetOpt::X3PAD => 30,
            TelnetOpt::NAWS => 31,
            TelnetOpt::TSPEED => 32,
            TelnetOpt::LFLOW => 33,
            TelnetOpt::LINEMODE => 34,
            TelnetOpt::XDISPLOC => 35,
            TelnetOpt::OLD_ENVIRON => 36,
            TelnetOpt::AUTHENTICATION => 37,
            TelnetOpt::ENCRYPT => 38,
            TelnetOpt::NEW_ENVIRON => 39,
            TelnetOpt::EXOPL => 255,
        }
    }
}

/// A request to negotiate an option: one of the four commands that take an option.
#[derive(Debug, Clone, Copy, PartialEq, Eq, Structural)]
pub enum TelnetRequest {
    /// please, you use option
    Do,
    /// you are not to use option
    Dont,
    /// I won't use option
    Wont,
    /// I will use option
    Will,
}

impl TelnetRequest {
    /// The code of a request.
    pub open spec fn spec_code(self) -> u8 {
        match self {
            TelnetRequest::Do => 253,
            TelnetRequest::Dont => 254,
            TelnetRequest::Wont => 252,
            TelnetRequest::Will => 251,
        }
    }

    /// The byte that stands for this request on the wire.
    #[verifier::when_used_as_spec(spec_code)]
    pub fn code(self) -> (r: u8)
        ensures
            r == self.spec_code(),
    {
        match self {
            TelnetRequest::Do => 253,
            TelnetRequest::Dont => 254,
            TelnetRequest::Wont => 252,
            TelnetRequest::Will => 251,
        }
    }

    /// The request that a byte stands for, where it stands for one.
    pub open spec fn of_code(val: u8) -> Option<TelnetRequest> {
        match val {
            253 => Some(TelnetRequest::Do),
            254 => Some(TelnetRequest::Dont),
            252 => Some(TelnetRequest::Wont),
            251 => Some(TelnetRequest::Will),
            _ => None,
        }
    }

    /// Reads a request from its code: `Some` exactly for the codes of the four
    /// requests.
    pub fn from_u8(val: u8) -> (r: Option<Self>)
        ensures
            r == TelnetRequest::of_code(val),
            r is Some <==> 251 <= val <= 254,
            r matches Some(req) ==> req.spec_code() == val,
    {
        if val == TelnetRequest::Do.code() {
            Some(TelnetRequest::Do)
        } else if val == TelnetRequest::Dont.code() {
            Some(TelnetRequest::Dont)
        } else if val == TelnetRequest::Will.code() {
            Some(TelnetRequest::Will)
        } else if val == TelnetRequest::Wont.code() {
            Some(TelnetRequest::Wont)
        } else {
            None
        }
    }
}

/// No two commands share a code, nor do two options or two requests.
pub proof fn law_codes_distinct()
    ensures
        forall|a: TelnetCommand, b: TelnetCommand|
            #[trigger] a.spec_code() == #[trigger] b.spec_code() ==> a == b,
        forall|a: TelnetOpt, b: TelnetOpt|
            #[trigger] a.spec_code() == #[trigger] b.spec_code() ==> a == b,
        forall|a: TelnetRequest, b: TelnetRequest|
            #[trigger] a.spec_code() == #[trigger] b.spec_code() ==> a == b,
{
}

/// The commands are among the bytes from 236 up, and the escape is the last of them. The
/// requests are WILL, WONT, DO and DONT, in this order from 251 up.
pub proof fn law_codes_written_out(command: TelnetCommand, req: TelnetRequest)
    ensures
        236 <= command.spec_code(),
        command.spec_code() == 255 <==> command is IAC,
        command.spec_code() == IAC <==> command is IAC,
        req.spec_code() == 251 <==> req is Will,
        req.spec_code() == 252 <==> req is Wont,
        req.spec_code() == 253 <==> req is Do,
        req.spec_code() == 254 <==> req is Dont,
{
}

/// A request is read back from its code, and from no other byte.
pub proof fn law_request_code(req: TelnetRequest, val: u8)
    ensures
        TelnetRequest::of_code(val) == Some(req) <==> val == req.spec_code(),
{
}

/// Each request has the code of the command that it is named after, and the bytes that are
/// requests are exactly those four commands.
pub proof fn law_requests_negotiate(val: u8)
    ensures
        TelnetRequest::Do.spec_code() == TelnetCommand::DO.spec_code(),
        TelnetRequest::Dont.spec_code() == TelnetCommand::DONT.spec_code(),
        TelnetRequest::Wont.spec_code() == TelnetCommand::WONT.spec_code(),
        TelnetRequest::Will.spec_code() == TelnetCommand::WILL.spec_code(),
        TelnetRequest::of_code(val) is Some <==> {
            ||| val == TelnetCommand::DONT.spec_code()
            ||| val == TelnetCommand::DO.spec_code()
            ||| val == TelnetCommand::WONT.spec_code()
            ||| val == TelnetCommand::WILL.spec_code()
        },
{
}

} // verus!
