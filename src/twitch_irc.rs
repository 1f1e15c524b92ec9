//! The connection: its configuration, the handshake, the commands it sends,
//! and the messages it reads. A connection is `Closed` until it is opened, and
//! only an opened one sends or reads. The socket itself belongs to the caller,
//! which writes what `take_outgoing` hands it and passes each read to `receive`.
use vstd::prelude::*;
use vstd::string::*;
use vstd::utf8::{decode_utf8, encode_utf8, valid_utf8};

use crate::error::{TrirkError, TrirkErrorKind, TrirkErrorView};
use crate::frame::{append_bytes, first_crlf, FrameReader};
use crate::trirk_parser::{outcome, parse_line, TrirkParser};
use crate::twitch::TwitchMessage;

verus! {

/// Who connects, with which token, to which channel.
#[derive(Clone)]
pub struct TwitchConfig {
    channel: String,
    oauth: String,
    nickname: String,
}

pub struct ConfigView {
    pub channel: Seq<char>,
    pub oauth: Seq<char>,
    pub nickname: Seq<char>,
}

impl View for TwitchConfig {
    type V = ConfigView;

    closed spec fn view(&self) -> ConfigView {
        ConfigView { channel: self.channel@, oauth: self.oauth@, nickname: self.nickname@ }
    }
}

impl TwitchConfig {
    pub fn new(nickname: &str, oauth: &str, channel: &str) -> (r: Self)
        ensures
            r@ == (ConfigView { channel: channel@, oauth: oauth@, nickname: nickname@ }),
    {
        TwitchConfig {
            nickname: String::from_str(nickname),
            oauth: String::from_str(oauth),
            channel: String::from_str(channel),
        }
    }

    pub fn channel(&self) -> (r: &String)
        ensures
            r@ == self@.channel,
    {
        &self.channel
    }

    pub fn oauth(&self) -> (r: &String)
        ensures
            r@ == self@.oauth,
    {
        &self.oauth
    }

    pub fn nickname(&self) -> (r: &String)
        ensures
            r@ == self@.nickname,
    {
        &self.nickname
    }
}

/// The text of the handshake: the token, the nick, the channel to join, and
/// the three capabilities, each requested without waiting for an answer.
pub open spec fn handshake(c: ConfigView) -> Seq<char> {
    "PASS "@ + c.oauth + "\r\nNICK "@ + c.nickname + "\r\nJOIN #"@ + c.channel
        + "\r\nCAP REQ :twitch.tv/commands\r\nCAP REQ :twitch.tv/membership\r\nCAP REQ :twitch.tv/tags\r\n"@
}

/// The text of a chat message to `channel`.
pub open spec fn privmsg_text(channel: Seq<char>, message: Seq<char>) -> Seq<char> {
    "PRIVMSG #"@ + channel + " :"@ + message + "\r\n"@
}

/// The state of a connection that is not open.
#[derive(Clone)]
pub struct ClosedConnection;

/// The state of an open connection: the bytes received and not yet read as
/// lines, and the bytes queued for the socket.
pub struct OpenedConnection {
    reader: FrameReader,
    outgoing: Vec<u8>,
}

pub struct TwitchIrc<T> {
    configuration: TwitchConfig,
    connection: T,
}

/// Relies on `String::from_utf8`: it accepts exactly the byte sequences that
/// are valid UTF-8, and the string it returns holds the characters they encode.
#[verifier::external_body]
fn string_from_utf8(bytes: Vec<u8>) -> (r: Result<String, String>)
    ensures
        match r {
            Ok(s) => valid_utf8(bytes@) && s@ == decode_utf8(bytes@),
            Err(_) => !valid_utf8(bytes@),
        },
{
    match String::from_utf8(bytes) {
        Ok(s) => Ok(s),
        Err(e) => Err(e.to_string()),
    }
}

/// Whether `res` is what reading the complete line `line` gives: the bytes
/// decoded as UTF-8, then parsed.
pub open spec fn read_result(line: Seq<u8>, res: Result<TwitchMessage, TrirkError>) -> bool {
    if valid_utf8(line) {
        match res {
            Ok(m) => parse_line(decode_utf8(line)) == Ok::<_, Seq<char>>(m@),
            Err(e) => e@.kind == TrirkErrorKind::Parse && parse_line(decode_utf8(line)) == Err::<
                crate::twitch::MessageView,
                _,
            >(e@.message),
        }
    } else {
        match res {
            Ok(_) => false,
            Err(e) => e@.kind == TrirkErrorKind::Utf8,
        }
    }
}

impl<T> TwitchIrc<T> {
    pub closed spec fn config(&self) -> ConfigView {
        self.configuration@
    }

    pub fn configuration(&self) -> (r: &TwitchConfig)
        ensures
            r@ == self.config(),
    {
        &self.configuration
    }
}

impl TwitchIrc<ClosedConnection> {
    pub fn new(config: TwitchConfig) -> (r: Self)
        ensures
            r.config() == config@,
    {
        TwitchIrc { configuration: config, connection: ClosedConnection }
    }

    /// Opens the connection once the caller holds a socket to the server: the
    /// handshake is queued, nothing is received yet.
    pub fn open_connection(self) -> (r: TwitchIrc<OpenedConnection>)
        ensures
            r.config() == self.config(),
            r.outgoing() == encode_utf8(handshake(self.config())),
            r.buffered() == Seq::<u8>::empty(),
    {
        let c = &self.configuration;
        let mut text = String::from_str("PASS ");
        text.append(c.oauth.as_str());
        text.append("\r\nNICK ");
        text.append(c.nickname.as_str());
        text.append("\r\nJOIN #");
        text.append(c.channel.as_str());
        text.append(
            "\r\nCAP REQ :twitch.tv/commands\r\nCAP REQ :twitch.tv/membership\r\nCAP REQ :twitch.tv/tags\r\n",
        );
        let mut outgoing: Vec<u8> = Vec::new();
        append_bytes(&mut outgoing, text.as_str().as_bytes());
        proof {
            assert(text@ =~= handshake(self.config()));
            assert(outgoing@ =~= encode_utf8(handshake(self.config())));
        }
        TwitchIrc {
            configuration: self.configuration,
            connection: OpenedConnection { reader: FrameReader::new(), outgoing },
        }
    }
}

impl TwitchIrc<OpenedConnection> {
    /// The bytes queued for the socket.
    pub closed spec fn outgoing(&self) -> Seq<u8> {
        self.connection.outgoing@
    }

    /// The bytes received and not yet read as lines.
    pub closed spec fn buffered(&self) -> Seq<u8> {
        self.connection.reader@
    }

    /// Queues raw bytes for the socket.
    pub fn send_bytes(&mut self, message: &[u8])
        ensures
            final(self).outgoing() == old(self).outgoing() + message@,
            final(self).buffered() == old(self).buffered(),
            final(self).config() == old(self).config(),
    {
        append_bytes(&mut self.connection.outgoing, message);
    }

    /// Queues a chat message to the configured channel.
    pub fn privmsg(&mut self, message: &str)
        ensures
            final(self).outgoing() == old(self).outgoing() + encode_utf8(
                privmsg_text(old(self).config().channel, message@),
            ),
            final(self).buffered() == old(self).buffered(),
            final(self).config() == old(self).config(),
    {
        let mut text = String::from_str("PRIVMSG #");
        text.append(self.configuration.channel.as_str());
        text.append(" :");
        text.append(message);
        text.append("\r\n");
        proof {
            assert(text@ =~= privmsg_text(old(self).config().channel, message@));
        }
        self.send_bytes(text.as_str().as_bytes());
    }

    /// Queues the reply to a keep-alive probe.
    pub fn pong(&mut self)
        ensures
            final(self).outgoing() == old(self).outgoing() + encode_utf8("PONG\r\n"@),
            final(self).buffered() == old(self).buffered(),
            final(self).config() == old(self).config(),
    {
        self.send_bytes("PONG\r\n".as_bytes());
    }

    /// Hands out the bytes queued for the socket, which the caller writes in
    /// full, and empties the queue.
    pub fn take_outgoing(&mut self) -> (r: Vec<u8>)
        ensures
            r@ == old(self).outgoing(),
            final(self).outgoing() == Seq::<u8>::empty(),
            final(self).buffered() == old(self).buffered(),
            final(self).config() == old(self).config(),
    {
        let mut r: Vec<u8> = Vec::new();
        core::mem::swap(&mut r, &mut self.connection.outgoing);
        r
    }

    /// Takes in the bytes of one read of the socket. A read of no bytes means
    /// that the peer closed: with nothing held that is the end of the stream,
    /// reported as an empty line; with part of a line held it is a line cut
    /// short.
    pub fn receive(&mut self, chunk: &[u8]) -> (r: Result<(), TrirkError>)
        ensures
            chunk@.len() > 0 ==> r is Ok && final(self).buffered() == old(self).buffered() + chunk@,
            chunk@.len() == 0 ==> final(self).buffered() == old(self).buffered() && match r {
                Ok(_) => false,
                Err(e) => e@ == (TrirkErrorView {
                    kind: TrirkErrorKind::Parse,
                    message: if old(self).buffered().len() == 0 {
                        "empty irc message"@
                    } else {
                        "connection closed in the middle of a line"@
                    },
                }),
            },
            final(self).outgoing() == old(self).outgoing(),
            final(self).config() == old(self).config(),
    {
        if chunk.len() == 0 {
            if self.connection.reader.is_empty() {
                return Err(TrirkError::new(TrirkErrorKind::Parse, String::from_str("empty irc message")));
            }
            return Err(
                TrirkError::new(
                    TrirkErrorKind::Parse,
                    String::from_str("connection closed in the middle of a line"),
                ),
            );
        }
        self.connection.reader.push(chunk);
        Ok(())
    }

    /// Reads the next complete line held and parses it. `None` when no
    /// complete line is held: the caller then reads the socket.
    pub fn read_next(&mut self) -> (r: Option<Result<TwitchMessage, TrirkError>>)
        ensures
            match r {
                None => first_crlf(old(self).buffered()).is_none() && final(self).buffered() == old(
                    self,
                ).buffered(),
                Some(res) => {
                    let k = first_crlf(old(self).buffered()).unwrap();
                    &&& first_crlf(old(self).buffered()).is_some()
                    &&& final(self).buffered() == old(self).buffered().skip(k + 2)
                    &&& read_result(old(self).buffered().take(k), res)
                },
            },
            final(self).outgoing() == old(self).outgoing(),
            final(self).config() == old(self).config(),
    {
        let line = match self.connection.reader.next_line() {
            Some(line) => line,
            None => return None,
        };
        let text = match string_from_utf8(line) {
            Ok(text) => text,
            Err(message) => return Some(Err(TrirkError::new(TrirkErrorKind::Utf8, message))),
        };
        let parser = TrirkParser::new();
        let parsed = parser.parse(text.as_str());
        match parsed {
            Ok(m) => Some(Ok(m)),
            Err(e) => {
                assert(outcome(Err(e)) == parse_line(text@));
                Some(Err(TrirkError::from_unparsable(e)))
            },
        }
    }
}

} // verus!
