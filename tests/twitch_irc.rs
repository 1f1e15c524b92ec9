use trirk::error::{TrirkError, TrirkErrorKind, UnparsableError};
use trirk::twitch::CommandType;
use trirk::twitch_irc::{TwitchConfig, TwitchIrc};

fn opened() -> TwitchIrc<trirk::twitch_irc::OpenedConnection> {
    let config = TwitchConfig::new("bot", "oauth:SECRET-REDACTED", "chan");
    let mut irc = TwitchIrc::new(config).open_connection();
    irc.take_outgoing();
    irc
}

#[test]
fn handshake_is_queued_on_open() {
    let config = TwitchConfig::new("bot", "oauth:tok", "chan");
    let mut irc = TwitchIrc::new(config).open_connection();
    let expected = "PASS oauth:tok\r\nNICK bot\r\nJOIN #chan\r\nCAP REQ :twitch.tv/commands\r\nCAP REQ :twitch.tv/membership\r\nCAP REQ :twitch.tv/tags\r\n";
    assert_eq!(expected.as_bytes().to_vec(), irc.take_outgoing());
    assert!(irc.take_outgoing().is_empty());
}

#[test]
fn privmsg_and_pong_are_framed() {
    let mut irc = opened();
    irc.privmsg("olá mundo");
    irc.pong();
    irc.send_bytes(b"raw\r\n");
    let expected = "PRIVMSG #chan :olá mundo\r\nPONG\r\nraw\r\n";
    assert_eq!(expected.as_bytes().to_vec(), irc.take_outgoing());
}

#[test]
fn reads_a_line_split_across_reads() {
    let mut irc = opened();
    assert!(irc.read_next().is_none());
    irc.receive(b"PRIVMSG #c :he").unwrap();
    assert!(irc.read_next().is_none());
    irc.receive(b"llo\r\nPING\r\n").unwrap();
    let first = irc.read_next().unwrap();
    assert_eq!(
        "could not parse message 'PRIVMSG #c :hello' starting with 'P'",
        first.unwrap_err().message()
    );
    let second = irc.read_next().unwrap().unwrap();
    assert_eq!(&CommandType::Ping, second.command().command());
    assert!(irc.read_next().is_none());
}

#[test]
fn utf8_text_is_decoded() {
    let mut irc = opened();
    irc.receive(":a!a@a PRIVMSG #c :ça va\r\n".as_bytes()).unwrap();
    let m = irc.read_next().unwrap().unwrap();
    assert_eq!(&Some("ça va".to_string()), m.parameters());
}

#[test]
fn invalid_utf8_is_a_decoding_error() {
    let mut irc = opened();
    irc.receive(b":a!a@a PRIVMSG #c :\xff\xfe\r\n").unwrap();
    let err = irc.read_next().unwrap().unwrap_err();
    assert_eq!(TrirkErrorKind::Utf8, err.kind());
}

#[test]
fn closed_peer_is_reported() {
    let mut irc = opened();
    let err = irc.receive(b"").unwrap_err();
    assert_eq!(TrirkErrorKind::Parse, err.kind());
    assert_eq!("Parse - empty irc message", err.to_string());
    irc.receive(b"PRIV").unwrap();
    let err = irc.receive(b"").unwrap_err();
    assert_eq!("connection closed in the middle of a line", err.message());
}

#[test]
fn errors_convert_and_print() {
    let e = TrirkError::from(UnparsableError::new("bad"));
    assert_eq!(TrirkErrorKind::Parse, e.kind());
    assert_eq!("Parse - bad", e.to_string());
    let io = TrirkError::new(TrirkErrorKind::Io, "reset".to_string());
    assert_eq!("Io - reset", io.to_string());
    assert_eq!("Utf8", TrirkErrorKind::Utf8.name());
}

#[test]
fn configuration_is_kept() {
    let irc = opened();
    assert_eq!("chan", irc.configuration().channel());
    assert_eq!("bot", irc.configuration().nickname());
}
