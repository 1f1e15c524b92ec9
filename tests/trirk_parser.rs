use trirk::error::UnparsableError;
use trirk::trirk_parser::TrirkParser;
use trirk::twitch::{Badge, Command, CommandType, Emote, Source, Tags, TwitchMessage};

fn extra(pairs: &[(&str, &str)]) -> Vec<(String, String)> {
    pairs.iter().map(|(k, v)| (k.to_string(), v.to_string())).collect()
}

#[test]
fn should_parse_part() {
    let msg: String = ":kyoqz!kyoqz@kyoqz.tmi.twitch.tv PART #evazord".into();
    let parser: TrirkParser = TrirkParser::new();
    let twitch_message = parser.parse(&msg);

    let source = Source::new("kyoqz", "kyoqz.tmi.twitch.tv");
    let command = Command::new(CommandType::Part, "kyoqz");

    let expected_message = TwitchMessage::new(None, command, Some(source), None);

    assert_eq!(Ok(expected_message), twitch_message);
}

#[test]
fn should_parse_join() {
    let msg: String = "renildson!renildson@renildson.tmi.twitch.tv JOIN #evazord".into();
    let parser: TrirkParser = TrirkParser::new();
    let twitch_message = parser.parse(&msg);

    let source = Source::new("renildson", "renildson.tmi.twitch.tv");
    let command = Command::new(CommandType::Join, "evazord");

    let expected_message = TwitchMessage::new(None, command, Some(source), None);
    assert_eq!(Ok(expected_message), twitch_message);
}

#[test]
fn should_parse_message_with_tags() {
    let msg: String = "@badges=staff/1,broadcaster/1,turbo/1;color=#FF0000;display-name=PetsgomOO;emote-only=1;emotes=33:0-7;flags=0-7:A.6/P.6,25-36:A.1/I.2;id=c285c9ed-8b1b-4702-ae1c-c64d76cc74ef;mod=0;room-id=81046256;subscriber=0;turbo=0;tmi-sent-ts=1550868292494;user-id=81046256;user-type=staff :petsgomoo!petsgomoo@petsgomoo.tmi.twitch.tv PRIVMSG #petsgomoo :DansGame".into();
    let parser: TrirkParser = TrirkParser::new();
    let twitch_message = parser.parse(&msg);
    let source = Source::new("petsgomoo", "petsgomoo.tmi.twitch.tv");
    let command = Command::new(CommandType::PrivMSG, "petsgomoo");
    let mut badges = Badge::default();
    badges.set_staff("1".into());
    badges.set_broadcaster("1".into());
    badges.set_turbo("1".into());
    let extra_tags = extra(&[("flags", "0-7:A.6/P.6,25-36:A.1/I.2")]);
    let tags = Tags::builder()
        .badges(badges)
        .color("#FF0000")
        .display_name("PetsgomOO")
        .emote_only(true)
        .emotes(vec![Emote::new("33", 0, 7)])
        .id("c285c9ed-8b1b-4702-ae1c-c64d76cc74ef")
        .is_mod(false)
        .room_id("81046256")
        .subscriber(false)
        .turbo(false)
        .tmi_sent_ts(1550868292494usize)
        .user_id("81046256")
        .user_type("staff")
        .vip(false)
        .reply_parent_msg_id("")
        .extra_tags(extra_tags)
        .build();
    let parameters = "DansGame";
    let expected_message = TwitchMessage::new(Some(parameters), command, Some(source), Some(tags));
    assert_eq!(Ok(expected_message), twitch_message);
}

#[test]
fn should_parse_message_without_tags() {
    let msg: String =
        ":lovingt3s!lovingt3s@lovingt3s.tmi.twitch.tv PRIVMSG #lovingt3s :!dilly".into();
    let parser: TrirkParser = TrirkParser::new();
    let twitch_message = parser.parse(&msg);
    let source = Source::new("lovingt3s", "lovingt3s.tmi.twitch.tv");
    let command = Command::new(CommandType::PrivMSG, "lovingt3s");
    let parameters = "!dilly";
    let expected_message = TwitchMessage::new(Some(parameters), command, Some(source), None);
    assert_eq!(Ok(expected_message), twitch_message);
}

#[test]
fn should_parse_ping() {
    let msg: String = "PING".into();
    let parser: TrirkParser = TrirkParser::new();
    let twitch_message = parser.parse(&msg);
    assert_eq!(
        &CommandType::Ping,
        twitch_message.unwrap().command().command()
    )
}

#[test]
fn should_parse_notice() {
    let msg: String = "@msg-id=delete_message_success :tmi.twitch.tv NOTICE #bar :The message from foo is now deleted.".into();
    let parser: TrirkParser = TrirkParser::new();
    let twitch_message = parser.parse(&msg);
    let command = Command::new(CommandType::Notice, "");
    let source = Source::new("", "tmi.twitch.tv");
    let tags = Tags::builder().message_id("delete_message_success").build();
    let expected_message = TwitchMessage::new(
        Some("The message from foo is now deleted."),
        command,
        Some(source),
        Some(tags),
    );
    assert_eq!(Ok(expected_message), twitch_message);
}

#[test]
fn should_parse_notice_with_two_tags() {
    let msg: String = "@msg-id=whisper_restricted;target-user-id=12345678 :tmi.twitch.tv NOTICE #bar :Your settings prevent you from sending this whisper.".into();
    let parser: TrirkParser = TrirkParser::new();
    let twitch_message = parser.parse(&msg);
    let command = Command::new(CommandType::Notice, "");
    let source = Source::new("", "tmi.twitch.tv");
    let tags = Tags::builder()
        .message_id("whisper_restricted")
        .target_user_id("12345678")
        .build();
    let expected_message = TwitchMessage::new(
        Some("Your settings prevent you from sending this whisper."),
        command,
        Some(source),
        Some(tags),
    );
    assert_eq!(Ok(expected_message), twitch_message);
}

#[test]
fn should_parse_clearchat() {
    let msg: String = "@room-id=12345678;target-user-id=87654321;tmi-sent-ts=1642715756806 :tmi.twitch.tv CLEARCHAT #dallas :ronni".into();
    let parser: TrirkParser = TrirkParser::new();
    let twitch_message = parser.parse(&msg);
    let command = Command::new(CommandType::ClearChat, "");
    let source = Source::new("", "tmi.twitch.tv");
    let tags = Tags::builder()
        .room_id("12345678")
        .tmi_sent_ts(1642715756806usize)
        .target_user_id("87654321")
        .build();
    let expected_message = TwitchMessage::new(Some("ronni"), command, Some(source), Some(tags));
    assert_eq!(Ok(expected_message), twitch_message);
}

#[test]
fn should_parse_clearchat_with_ban_tag() {
    let msg: String = "@ban-duration=350;room-id=12345678;target-user-id=87654321;tmi-sent-ts=1642719320727 :tmi.twitch.tv CLEARCHAT #dallas :ronni".into();
    let parser: TrirkParser = TrirkParser::new();
    let twitch_message = parser.parse(&msg);
    let command = Command::new(CommandType::ClearChat, "");
    let source = Source::new("", "tmi.twitch.tv");
    let tags = Tags::builder()
        .room_id("12345678")
        .tmi_sent_ts(1642719320727usize)
        .target_user_id("87654321")
        .ban_duration(350usize)
        .build();
    let expected_message = TwitchMessage::new(Some("ronni"), command, Some(source), Some(tags));
    assert_eq!(Ok(expected_message), twitch_message);
}

#[test]
fn should_parse_clearmessage() {
    let msg: String = "@login=ronni;room-id=;target-msg-id=abc-123-def;tmi-sent-ts=1642720582342 :tmi.twitch.tv CLEARMSG #dallas :HeyGuys".into();
    let parser: TrirkParser = TrirkParser::new();
    let twitch_message = parser.parse(&msg);
    let command = Command::new(CommandType::ClearMessage, "");
    let source = Source::new("", "tmi.twitch.tv");
    let tags = Tags::builder()
        .room_id("")
        .tmi_sent_ts(1642720582342usize)
        .target_message_id("abc-123-def")
        .login("ronni")
        .build();
    let expected_message = TwitchMessage::new(Some("HeyGuys"), command, Some(source), Some(tags));
    assert_eq!(Ok(expected_message), twitch_message);
}

#[test]
fn should_parse_globaluserstate() {
    let msg: String = "@badge-info=subscriber/8;badges=subscriber/6;color=#0D4200;display-name=dallas;emote-sets=0,33,50,237,793,2126,3517,4578,5569,9400,10337,12239;turbo=0;user-id=12345678;user-type=admin :tmi.twitch.tv GLOBALUSERSTATE".into();
    let parser: TrirkParser = TrirkParser::new();
    let twitch_message = parser.parse(&msg);
    let source = Source::new("", "tmi.twitch.tv");
    let command = Command::new(CommandType::GlobalUserState, "");
    let mut badges = Badge::default();
    // The tag block is read without its leading `@`, so the first key is `badge-info`.
    let extra_tags = extra(&[("badge-info", "subscriber/8")]);
    badges.set_subscriber("6".into());
    let tags = Tags::builder()
        .badges(badges)
        .color("#0D4200")
        .display_name("dallas")
        .user_id("12345678")
        .emote_sets(vec![
            0, 33, 50, 237, 793, 2126, 3517, 4578, 5569, 9400, 10337, 12239,
        ])
        .user_type("admin")
        .user_id("12345678")
        .extra_tags(extra_tags)
        .build();
    let expected_message = TwitchMessage::new(None, command, Some(source), Some(tags));
    assert_eq!(Ok(expected_message), twitch_message);
}

#[test]
fn should_parse_roomstate() {
    let msg: String = "@emote-only=0;followers-only=0;r9k=0;slow=0;subs-only=0 :tmi.twitch.tv ROOMSTATE #dallas".into();
    let parser: TrirkParser = TrirkParser::new();
    let twitch_message = parser.parse(&msg);
    let command = Command::new(CommandType::RoomState, "");
    let source = Source::new("", "tmi.twitch.tv");
    let tags = Tags::builder()
        .emote_only(false)
        .followers_only(false)
        .r9k(false)
        .slow(0usize)
        .subs_only(false)
        .build();
    let expected_message = TwitchMessage::new(None, command, Some(source), Some(tags));
    assert_eq!(Ok(expected_message), twitch_message);
}

#[test]
fn should_parse_roomstate_slow() {
    let msg: String = "@slow=10 :tmi.twitch.tv ROOMSTATE #dallas".into();
    let parser: TrirkParser = TrirkParser::new();
    let twitch_message = parser.parse(&msg);
    let command = Command::new(CommandType::RoomState, "");
    let source = Source::new("", "tmi.twitch.tv");
    let tags = Tags::builder().slow(10usize).build();
    let expected_message = TwitchMessage::new(None, command, Some(source), Some(tags));
    assert_eq!(Ok(expected_message), twitch_message);
}

#[test]
#[should_panic]
fn should_panic_with_empty_message() {
    let parser: TrirkParser = TrirkParser::new();
    parser.parse("").unwrap();
}

#[test]
#[should_panic]
fn should_panic_with_invalid_message() {
    let parser: TrirkParser = TrirkParser::new();
    parser.parse("xablau").unwrap();
}

#[test]
fn mod_should_parse_message_with_tags() {
    let msg: String = "@badges=staff/1,broadcaster/1,turbo/1;color=#FF0000;display-name=PetsgomOO;emote-only=1;emotes=33:0-7;flags=0-7:A.6/P.6,25-36:A.1/I.2;id=c285c9ed-8b1b-4702-ae1c-c64d76cc74ef;mod=0;room-id=81046256;subscriber=0;turbo=0;tmi-sent-ts=1550868292494;user-id=81046256;user-type=staff :petsgomoo!petsgomoo@petsgomoo.tmi.twitch.tv PRIVMSG #petsgomoo :DansGame".into();
    let parser: TrirkParser = TrirkParser::new();
    let twitch_message = parser.parse(&msg);
    let mut badges = Badge::default();
    badges.set_staff("1".into());
    badges.set_broadcaster("1".into());
    badges.set_turbo("1".into());
    let tags = twitch_message.unwrap().tags().clone().unwrap();
    assert_eq!(&badges, tags.badges());
    assert_eq!("#FF0000", tags.color());
    assert_eq!("PetsgomOO", tags.display_name());
    assert_eq!(&vec![Emote::new("33", 0, 7)], tags.emotes());
    assert_eq!(1550868292494usize, tags.tmi_sent_ts());
    assert_eq!("staff", tags.user_type());
}

#[test]
fn mod_should_parse_message_without_tags() {
    let msg: String =
        ":lovingt3s!lovingt3s@lovingt3s.tmi.twitch.tv PRIVMSG #lovingt3s :!dilly".into();
    let parser: TrirkParser = TrirkParser::new();
    let twitch_message = parser.parse(&msg);
    let source = Source::new("lovingt3s", "lovingt3s.tmi.twitch.tv");
    let command = Command::new(CommandType::PrivMSG, "lovingt3s");
    let parameters = "!dilly";
    let expected_message = TwitchMessage::new(Some(parameters), command, Some(source), None);
    assert_eq!(Ok(expected_message), twitch_message);
}

#[test]
fn mod_should_parse_ping() {
    let msg: String = "PING".into();
    let parser: TrirkParser = TrirkParser::new();
    let twitch_message = parser.parse(&msg);
    assert_eq!(&CommandType::Ping, twitch_message.unwrap().command().command())
}

#[test]
fn mod_should_parse_notice() {
    let msg: String = "@msg-id=delete_message_success :tmi.twitch.tv NOTICE #bar :The message from foo is now deleted.".into();
    let parser: TrirkParser = TrirkParser::new();
    let twitch_message = parser.parse(&msg);
    let command = Command::new(CommandType::Notice, "");
    let source = Source::new("", "tmi.twitch.tv");
    let tags = Tags::builder().message_id("delete_message_success").build();
    let expected_message = TwitchMessage::new(
        Some("The message from foo is now deleted."),
        command,
        Some(source),
        Some(tags),
    );
    assert_eq!(Ok(expected_message), twitch_message);
}

#[test]
fn mod_should_parse_notice_with_two_tags() {
    let msg: String = "@msg-id=whisper_restricted;target-user-id=12345678 :tmi.twitch.tv NOTICE #bar :Your settings prevent you from sending this whisper.".into();
    let parser: TrirkParser = TrirkParser::new();
    let twitch_message = parser.parse(&msg);
    let command = Command::new(CommandType::Notice, "");
    let source = Source::new("", "tmi.twitch.tv");
    let tags = Tags::builder()
        .message_id("whisper_restricted")
        .target_user_id("12345678")
        .build();
    let expected_message = TwitchMessage::new(
        Some("Your settings prevent you from sending this whisper."),
        command,
        Some(source),
        Some(tags),
    );
    assert_eq!(Ok(expected_message), twitch_message);
}

#[test]
fn empty_line_is_refused() {
    let parser = TrirkParser::new();
    assert_eq!(Err(UnparsableError::new("empty irc message")), parser.parse(""));
}

#[test]
fn unrecognized_line_names_its_first_character() {
    let parser = TrirkParser::new();
    let err = parser.parse("xablau").unwrap_err();
    assert_eq!("could not parse message 'xablau' starting with 'x'", err.to_string());
}
