use trirk::frame::FrameReader;
use trirk::trirk_parser::TrirkParser;
use trirk::twitch::{CommandType, Emote};

#[test]
fn scenario_ping_line() {
    let m = TrirkParser::new().parse("PING").unwrap();
    assert_eq!(&CommandType::Ping, m.command().command());
    assert!(m.source().is_none());
    assert!(m.tags().is_none());
    assert!(m.parameters().is_none());
}

#[test]
fn scenario_prefixed_private_message() {
    let m = TrirkParser::new()
        .parse(":nick!nick@nick.example PRIVMSG #chan :hello")
        .unwrap();
    let source = m.source().clone().unwrap();
    assert_eq!("nick", source.nick());
    assert_eq!("nick.example", source.host());
    assert_eq!(&CommandType::PrivMSG, m.command().command());
    assert_eq!(&Some("hello".to_string()), m.parameters());
}

#[test]
fn scenario_badges_color_and_id() {
    let m = TrirkParser::new()
        .parse("@badges=staff/1,turbo/1;color=#FF0000;id=abc :a!a@a.example PRIVMSG #c :hi")
        .unwrap();
    let tags = m.tags().clone().unwrap();
    assert_eq!(&Some("1".to_string()), tags.badges().staff());
    assert_eq!(&Some("1".to_string()), tags.badges().turbo());
    assert_eq!(&None, tags.badges().admin());
    assert_eq!("#FF0000", tags.color());
    assert_eq!("abc", tags.id());
    assert!(tags.extra_tags().is_empty());
}

#[test]
fn scenario_unknown_tag_kept_raw() {
    let m = TrirkParser::new()
        .parse("@flags=0-7:A.6;mod=0 :x!x@x.example PRIVMSG #c :yo")
        .unwrap();
    let tags = m.tags().clone().unwrap();
    assert_eq!(Some(&"0-7:A.6".to_string()), tags.extra_tag("flags"));
    assert!(!tags.r());
}

#[test]
fn scenario_empty_line_fails() {
    assert!(TrirkParser::new().parse("").is_err());
}

#[test]
fn scenario_line_across_two_reads() {
    let mut reader = FrameReader::new();
    assert!(reader.feed(b"PRIVMSG #c :he").is_empty());
    let lines = reader.feed(b"llo\r\n");
    assert_eq!(vec![b"PRIVMSG #c :hello".to_vec()], lines);
    assert!(reader.is_empty());
}

#[test]
fn chunking_does_not_change_lines() {
    let stream: &[u8] = b"@id=1 :a!a@a PRIVMSG #c :one\r\nPING\r\n:b!b@b PART #c\r\npartial";
    let mut whole = FrameReader::new();
    let expected = whole.feed(stream);
    assert_eq!(3, expected.len());
    for cut in 0..=stream.len() {
        let mut reader = FrameReader::new();
        let mut lines = reader.feed(&stream[..cut]);
        lines.extend(reader.feed(&stream[cut..]));
        assert_eq!(expected, lines, "cut at {}", cut);
    }
    for size in 1..=4 {
        let mut reader = FrameReader::new();
        let mut lines = Vec::new();
        for chunk in stream.chunks(size) {
            lines.extend(reader.feed(chunk));
        }
        assert_eq!(expected, lines, "reads of {} bytes", size);
    }
}

#[test]
fn tag_values_round_trip() {
    let line = "@mod=1;vip=0;slow=120;tmi-sent-ts=1642715756806;login=ronni;room-id=42;emote-sets=0,7;x-new=a/b:c :tmi.twitch.tv ROOMSTATE #c";
    let tags = TrirkParser::new().parse(line).unwrap().tags().clone().unwrap();
    assert!(tags.r());
    assert!(!tags.vip());
    assert_eq!(120, tags.slow());
    assert_eq!(1642715756806usize, tags.tmi_sent_ts());
    assert_eq!("ronni", tags.login());
    assert_eq!("42", tags.room_id());
    assert_eq!(&vec![0usize, 7], tags.emote_sets());
    assert_eq!(Some(&"a/b:c".to_string()), tags.extra_tag("x-new"));
}

#[test]
fn missing_separators_fail() {
    let parser = TrirkParser::new();
    assert_eq!(
        "tag block is not followed by a space",
        parser.parse("@id=1;mod=0").unwrap_err().to_string()
    );
    assert_eq!(
        "source is not followed by a space",
        parser.parse(":nick!nick@host").unwrap_err().to_string()
    );
    assert_eq!(
        "source is not followed by a space",
        parser.parse("@id=1 :nick!nick@host").unwrap_err().to_string()
    );
}

#[test]
fn parsing_twice_gives_equal_messages() {
    let parser = TrirkParser::new();
    let line = "@badges=moderator/1;emotes=25:0-4 :a!a@a PRIVMSG #c :Kappa hi";
    assert_eq!(parser.parse(line), parser.parse(line));
    assert_eq!(parser.parse("nonsense"), parser.parse("nonsense"));
}

#[test]
fn malformed_sub_fields_are_skipped() {
    let line = "@emotes=25:0-4,bad,7:x-3,9:1-2;tmi-sent-ts=abc;ban-duration=99999999999999999999999;badges=admin,moderator/2/x,unknown/1;noequals :s.example NOTICE #c :t";
    let tags = TrirkParser::new().parse(line).unwrap().tags().clone().unwrap();
    assert_eq!(&vec![Emote::new("25", 0, 4), Emote::new("9", 1, 2)], tags.emotes());
    assert_eq!(0, tags.tmi_sent_ts());
    assert_eq!(0, tags.ban_duration());
    assert_eq!(&None, tags.badges().admin());
    assert_eq!(&Some("2".to_string()), tags.badges().moderator());
    assert!(tags.extra_tags().is_empty());
}

#[test]
fn plus_sign_and_repeated_keys() {
    let line = "@slow=+5;a=1;b=2;a=3;color=x=y :s NOTICE #c";
    let tags = TrirkParser::new().parse(line).unwrap().tags().clone().unwrap();
    assert_eq!(5, tags.slow());
    assert_eq!(
        &vec![("a".to_string(), "3".to_string()), ("b".to_string(), "2".to_string())],
        tags.extra_tags()
    );
    assert_eq!("x=y", tags.color());
}

#[test]
fn numeric_and_unknown_verbs() {
    let parser = TrirkParser::new();
    let m = parser.parse(":tmi.twitch.tv 001 bot :Welcome, GLHF!").unwrap();
    assert_eq!(&CommandType::Numeric(1), m.command().command());
    assert_eq!(&Some("Welcome, GLHF!".to_string()), m.parameters());
    let m = parser.parse(":tmi.twitch.tv 70000 bot").unwrap();
    assert_eq!(&CommandType::Unknown("70000".to_string()), m.command().command());
    let m = parser.parse(":a!a@a HOSTTARGET #c :b 3").unwrap();
    assert_eq!(&CommandType::HostTarget, m.command().command());
    let m = parser.parse(":a!a@a USERNOTICE #c").unwrap();
    assert_eq!(&CommandType::Unknown("USERNOTICE".to_string()), m.command().command());
    assert_eq!(CommandType::Cap, CommandType::from("CAP"));
}

#[test]
fn trailing_parameter_keeps_spaces_and_colons() {
    let m = TrirkParser::new()
        .parse(":a!a@a.example PRIVMSG #c :see: this : here")
        .unwrap();
    assert_eq!(&Some("see: this : here".to_string()), m.parameters());
    assert_eq!("a", m.command().channel());
}

#[test]
fn bare_host_source() {
    let m = TrirkParser::new().parse(":tmi.twitch.tv RECONNECT").unwrap();
    let source = m.source().clone().unwrap();
    assert_eq!("", source.nick());
    assert_eq!("tmi.twitch.tv", source.host());
    assert_eq!(&CommandType::Reconnect, m.command().command());
    assert!(m.parameters().is_none());
}

#[test]
fn join_line_without_channel_fails() {
    assert_eq!(
        "join line without a channel",
        TrirkParser::new().parse("a!a@a.example JOIN").unwrap_err().to_string()
    );
    assert_eq!(
        "join line without a nick",
        TrirkParser::new().parse("JOIN #c").unwrap_err().to_string()
    );
}
