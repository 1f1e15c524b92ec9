//! A client library for the tagged IRC dialect spoken by a live-streaming
//! platform's chat: framing of the byte stream into lines, parsing of lines into
//! messages, and the connection's handshake and outgoing commands.
//!
//! - `text`: searching, comparing and reading numbers in a line's characters.
//! - `twitch`: the message types and their views.
//! - `trirk_parser`: the line parser; `parse_line` states what a line yields.
//! - `frame`: the carry-over buffer that cuts the byte stream into lines.
//! - `twitch_irc`: the connection, closed or opened, and what it sends and reads.
//! - `error`: the errors.
pub mod text;
pub mod twitch;
pub mod error;
pub mod trirk_parser;
pub mod frame;
pub mod twitch_irc;
