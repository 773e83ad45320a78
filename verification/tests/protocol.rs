use telnet_server::protocol::IAC;
use telnet_server::{TelnetCommand, TelnetOpt, TelnetRequest};

#[test]
fn requests_are_read_from_their_codes() {
    assert_eq!(TelnetRequest::from_u8(253), Some(TelnetRequest::Do));
    assert_eq!(TelnetRequest::from_u8(254), Some(TelnetRequest::Dont));
    assert_eq!(TelnetRequest::from_u8(252), Some(TelnetRequest::Wont));
    assert_eq!(TelnetRequest::from_u8(251), Some(TelnetRequest::Will));
}

#[test]
fn other_bytes_are_no_requests() {
    for val in 0..=250u8 {
        assert_eq!(TelnetRequest::from_u8(val), None);
    }
    assert_eq!(TelnetRequest::from_u8(255), None);
}

#[test]
fn request_codes_are_read_back() {
    for val in 0..=255u8 {
        if let Some(req) = TelnetRequest::from_u8(val) {
            assert_eq!(req.code(), val);
        }
    }
}

#[test]
fn requests_are_the_negotiation_commands() {
    let negotiation = [
        TelnetCommand::DONT,
        TelnetCommand::DO,
        TelnetCommand::WONT,
        TelnetCommand::WILL,
    ];
    for val in 0..=255u8 {
        let negotiates = negotiation.iter().any(|cmd| cmd.code() == val);
        assert_eq!(TelnetRequest::from_u8(val).is_some(), negotiates);
    }
}

#[test]
fn requests_have_the_codes_of_their_commands() {
    assert_eq!(TelnetRequest::Do.code(), TelnetCommand::DO.code());
    assert_eq!(TelnetRequest::Dont.code(), TelnetCommand::DONT.code());
    assert_eq!(TelnetRequest::Wont.code(), TelnetCommand::WONT.code());
    assert_eq!(TelnetRequest::Will.code(), TelnetCommand::WILL.code());
}

#[test]
fn command_codes() {
    assert_eq!(TelnetCommand::IAC.code(), IAC);
    assert_eq!(TelnetCommand::DONT.code(), 254);
    assert_eq!(TelnetCommand::DO.code(), 253);
    assert_eq!(TelnetCommand::WONT.code(), 252);
    assert_eq!(TelnetCommand::WILL.code(), 251);
    assert_eq!(TelnetCommand::SB.code(), 250);
    assert_eq!(TelnetCommand::GA.code(), 249);
    assert_eq!(TelnetCommand::EL.code(), 248);
    assert_eq!(TelnetCommand::EC.code(), 247);
    assert_eq!(TelnetCommand::AYT.code(), 246);
    assert_eq!(TelnetCommand::AO.code(), 245);
    assert_eq!(TelnetCommand::IP.code(), 244);
    assert_eq!(TelnetCommand::BREAK.code(), 243);
    assert_eq!(TelnetCommand::DM.code(), 242);
    assert_eq!(TelnetCommand::NOP.code(), 241);
    assert_eq!(TelnetCommand::SE.code(), 240);
    assert_eq!(TelnetCommand::EOR.code(), 239);
    assert_eq!(TelnetCommand::ABORT.code(), 238);
    assert_eq!(TelnetCommand::SUSP.code(), 237);
    assert_eq!(TelnetCommand::xEOF.code(), 236);
}

#[test]
fn option_codes() {
    assert_eq!(TelnetOpt::BINARY.code(), 0);
    assert_eq!(TelnetOpt::ECHO.code(), 1);
    assert_eq!(TelnetOpt::RCP.code(), 2);
    assert_eq!(TelnetOpt::SGA.code(), 3);
    assert_eq!(TelnetOpt::NAMS.code(), 4);
    assert_eq!(TelnetOpt::STATUS.code(), 5);
    assert_eq!(TelnetOpt::TM.code(), 6);
    assert_eq!(TelnetOpt::RCTE.code(), 7);
    assert_eq!(TelnetOpt::NAOL.code(), 8);
    assert_eq!(TelnetOpt::NAOP.code(), 9);
    assert_eq!(TelnetOpt::NAOCRD.code(), 10);
    assert_eq!(TelnetOpt::NAOHTS.code(), 11);
    assert_eq!(TelnetOpt::NAOHTD.code(), 12);
    assert_eq!(TelnetOpt::NAOFFD.code(), 13);
    assert_eq!(TelnetOpt::NAOVTS.code(), 14);
    assert_eq!(TelnetOpt::NAOVTD.code(), 15);
    assert_eq!(TelnetOpt::NAOLFD.code(), 16);
    assert_eq!(TelnetOpt::XASCII.code(), 17);
    assert_eq!(TelnetOpt::LOGOUT.code(), 18);
    assert_eq!(TelnetOpt::BM.code(), 19);
    assert_eq!(TelnetOpt::DET.code(), 20);
    assert_eq!(TelnetOpt::SUPDUP.code(), 21);
    assert_eq!(TelnetOpt::SUPDUPOUTPUT.code(), 22);
    assert_eq!(TelnetOpt::SNDLOC.code(), 23);
    assert_eq!(TelnetOpt::TTYPE.code(), 24);
    assert_eq!(TelnetOpt::EOR.code(), 25);
    assert_eq!(TelnetOpt::TUID.code(), 26);
    assert_eq!(TelnetOpt::OUTMRK.code(), 27);
    assert_eq!(TelnetOpt::TTYLOC.code(), 28);
    assert_eq!(TelnetOpt::REGIME3270.code(), 29);
    assert_eq!(TelnetOpt::X3PAD.code(), 30);
    assert_eq!(TelnetOpt::NAWS.code(), 31);
    assert_eq!(TelnetOpt::TSPEED.code(), 32);
    assert_eq!(TelnetOpt::LFLOW.code(), 33);
    assert_eq!(TelnetOpt::LINEMODE.code(), 34);
    assert_eq!(TelnetOpt::XDISPLOC.code(), 35);
    assert_eq!(TelnetOpt::OLD_ENVIRON.code(), 36);
    assert_eq!(TelnetOpt::AUTHENTICATION.code(), 37);
    assert_eq!(TelnetOpt::ENCRYPT.code(), 38);
    assert_eq!(TelnetOpt::NEW_ENVIRON.code(), 39);
    assert_eq!(TelnetOpt::EXOPL.code(), 255);
}
