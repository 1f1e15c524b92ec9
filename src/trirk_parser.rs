//! The line parser: one protocol line, without its CR LF, into a
//! `TwitchMessage`. `parse_line` states what a line yields.
use vstd::prelude::*;
use vstd::string::*;

use crate::error::UnparsableError;
use crate::text::{
    after, before, fold_pieces, find_char, find_text, index_of, is_first_occurrence, is_first_index, lemma_index_of_found, all_digits, decimal_value, digit_value, is_digit, lemma_fold_step, occurrence_of,
    parse_decimal, parse_unsigned, text_is, text_of, to_chars,
};
use crate::twitch::{
    command_kind_of, with_extra, extra_lookup, is_first_key, lemma_first_key, lemma_first_key_exists, Badge, BadgeView, Command, CommandKind, CommandType, CommandView,
    Emote, EmoteView, MessageView, Source, SourceView, Tags, TagsBuilder, TagsView, TwitchMessage,
};

verus! {

/// A tag value read as a boolean: `"1"` is true, anything else false.
pub open spec fn is_flag_set(value: Seq<char>) -> bool {
    value == "1"@
}

/// A tag value read as a number; a value that is not one reads as 0.
pub open spec fn number_of(value: Seq<char>) -> usize {
    match parse_unsigned(value, usize::MAX as int) {
        Some(n) => n as usize,
        None => 0,
    }
}

/// One `name/version` entry of a `badges` value; an entry without `/` or with
/// an unknown name changes nothing.
pub open spec fn apply_badge(b: BadgeView, entry: Seq<char>) -> BadgeView {
    match index_of(entry, '/') {
        None => b,
        Some(i) => {
            let key = entry.take(i);
            let v = Some(before(entry.skip(i + 1), '/'));
            if key == "admin"@ {
                BadgeView { admin: v, ..b }
            } else if key == "bits"@ {
                BadgeView { bits: v, ..b }
            } else if key == "broadcaster"@ {
                BadgeView { broadcaster: v, ..b }
            } else if key == "moderator"@ {
                BadgeView { moderator: v, ..b }
            } else if key == "subscriber"@ {
                BadgeView { subscriber: v, ..b }
            } else if key == "staff"@ {
                BadgeView { staff: v, ..b }
            } else if key == "turbo"@ {
                BadgeView { turbo: v, ..b }
            } else {
                b
            }
        },
    }
}

pub open spec fn badge_step() -> spec_fn(BadgeView, Seq<char>) -> BadgeView {
    |b: BadgeView, e: Seq<char>| apply_badge(b, e)
}

/// The badges of a comma-separated `badges` value.
pub open spec fn decode_badges(value: Seq<char>) -> BadgeView {
    fold_pieces(BadgeView::none(), value, ',', badge_step())
}

/// One `code:start-end` entry of an `emotes` value, when both positions are numbers.
pub open spec fn emote_of(entry: Seq<char>) -> Option<EmoteView> {
    match index_of(entry, ':') {
        None => None,
        Some(i) => {
            let pos = before(entry.skip(i + 1), ':');
            match index_of(pos, '-') {
                None => None,
                Some(j) => {
                    let start = parse_unsigned(pos.take(j), usize::MAX as int);
                    let end = parse_unsigned(before(pos.skip(j + 1), '-'), usize::MAX as int);
                    if start.is_some() && end.is_some() {
                        Some(
                            EmoteView {
                                code: entry.take(i),
                                start: start.unwrap() as usize,
                                end: end.unwrap() as usize,
                            },
                        )
                    } else {
                        None
                    }
                },
            }
        },
    }
}

pub open spec fn emote_step() -> spec_fn(Seq<EmoteView>, Seq<char>) -> Seq<EmoteView> {
    |acc: Seq<EmoteView>, e: Seq<char>|
        match emote_of(e) {
            Some(x) => acc.push(x),
            None => acc,
        }
}

/// The emotes of a comma-separated `emotes` value; malformed entries are skipped.
pub open spec fn decode_emotes(value: Seq<char>) -> Seq<EmoteView> {
    fold_pieces(Seq::empty(), value, ',', emote_step())
}

pub open spec fn emote_set_step() -> spec_fn(Seq<usize>, Seq<char>) -> Seq<usize> {
    |acc: Seq<usize>, e: Seq<char>| acc.push(number_of(e))
}

/// The numbers of a comma-separated `emote-sets` value.
pub open spec fn decode_emote_sets(value: Seq<char>) -> Seq<usize> {
    fold_pieces(Seq::empty(), value, ',', emote_set_step())
}

/// Whether `key` is one of the tags with a field of their own.
pub open spec fn is_known_tag(key: Seq<char>) -> bool {
    key == "badges"@
        || key == "color"@
        || key == "display-name"@
        || key == "emote-only"@
        || key == "emotes"@
        || key == "id"@
        || key == "mod"@
        || key == "room-id"@
        || key == "subscriber"@
        || key == "turbo"@
        || key == "tmi-sent-ts"@
        || key == "user-id"@
        || key == "user-type"@
        || key == "vip"@
        || key == "reply-parent-msg-id"@
        || key == "msg-id"@
        || key == "target-user-id"@
        || key == "ban-duration"@
        || key == "login"@
        || key == "target-msg-id"@
        || key == "emote-sets"@
        || key == "followers-only"@
        || key == "r9k"@
        || key == "slow"@
        || key == "subs-only"@
}

/// The tag `key` with value `value` set on `t`; a key without a field of its
/// own goes to the extra tags with its raw value.
pub open spec fn apply_tag(t: TagsView, key: Seq<char>, value: Seq<char>) -> TagsView {
    if key == "badges"@ {
        TagsView { badges: decode_badges(value), ..t }
    } else if key == "color"@ {
        TagsView { color: value, ..t }
    } else if key == "display-name"@ {
        TagsView { display_name: value, ..t }
    } else if key == "emote-only"@ {
        TagsView { emote_only: is_flag_set(value), ..t }
    } else if key == "emotes"@ {
        TagsView { emotes: decode_emotes(value), ..t }
    } else if key == "id"@ {
        TagsView { id: value, ..t }
    } else if key == "mod"@ {
        TagsView { is_mod: is_flag_set(value), ..t }
    } else if key == "room-id"@ {
        TagsView { room_id: value, ..t }
    } else if key == "subscriber"@ {
        TagsView { subscriber: is_flag_set(value), ..t }
    } else if key == "turbo"@ {
        TagsView { turbo: is_flag_set(value), ..t }
    } else if key == "tmi-sent-ts"@ {
        TagsView { tmi_sent_ts: number_of(value), ..t }
    } else if key == "user-id"@ {
        TagsView { user_id: value, ..t }
    } else if key == "user-type"@ {
        TagsView { user_type: value, ..t }
    } else if key == "vip"@ {
        TagsView { vip: is_flag_set(value), ..t }
    } else if key == "reply-parent-msg-id"@ {
        TagsView { reply_parent_msg_id: value, ..t }
    } else if key == "msg-id"@ {
        TagsView { message_id: value, ..t }
    } else if key == "target-user-id"@ {
        TagsView { target_user_id: value, ..t }
    } else if key == "ban-duration"@ {
        TagsView { ban_duration: number_of(value), ..t }
    } else if key == "login"@ {
        TagsView { login: value, ..t }
    } else if key == "target-msg-id"@ {
        TagsView { target_message_id: value, ..t }
    } else if key == "emote-sets"@ {
        TagsView { emote_sets: decode_emote_sets(value), ..t }
    } else if key == "followers-only"@ {
        TagsView { followers_only: is_flag_set(value), ..t }
    } else if key == "r9k"@ {
        TagsView { r9k: is_flag_set(value), ..t }
    } else if key == "slow"@ {
        TagsView { slow: number_of(value), ..t }
    } else if key == "subs-only"@ {
        TagsView { subs_only: is_flag_set(value), ..t }
    } else {
        TagsView { extra_tags: with_extra(t.extra_tags, key, value), ..t }
    }
}

/// One `key=value` entry of a tag block; the value is all that follows the
/// first `=`. An entry without `=` changes nothing.
pub open spec fn decode_entry(t: TagsView, entry: Seq<char>) -> TagsView {
    match index_of(entry, '=') {
        None => t,
        Some(i) => apply_tag(t, entry.take(i), entry.skip(i + 1)),
    }
}

pub open spec fn tag_step() -> spec_fn(TagsView, Seq<char>) -> TagsView {
    |t: TagsView, e: Seq<char>| decode_entry(t, e)
}

/// The tags of a tag block without its leading `@`: entries separated by `;`.
pub open spec fn decode_tags(block: Seq<char>) -> TagsView {
    fold_pieces(TagsView::empty(), block, ';', tag_step())
}

/// The source of a `nick!user@host` token; a token without both `!` and `@` is
/// a bare host.
pub open spec fn source_of(token: Seq<char>) -> SourceView {
    match (index_of(token, '!'), index_of(token, '@')) {
        (Some(b), Some(a)) => SourceView { nick: token.take(b), host: token.skip(a + 1) },
        _ => SourceView { nick: Seq::empty(), host: token },
    }
}

/// Text without one leading `#`.
pub open spec fn without_hash(s: Seq<char>) -> Seq<char> {
    if s.len() > 0 && s[0] == '#' {
        s.skip(1)
    } else {
        s
    }
}

/// The rest of a line after the `:` of its source: the source token, a space,
/// the command verb, and after a space the arguments, whose text after the
/// first `:` is the parameter.
pub open spec fn parse_prefixed(rest: Seq<char>, tags: Option<TagsView>) -> Result<MessageView, Seq<char>> {
    match index_of(rest, ' ') {
        None => Err("source is not followed by a space"@),
        Some(s) => {
            let source = source_of(rest.take(s));
            let tail = rest.skip(s + 1);
            Ok(
                MessageView {
                    parameters: match after(tail, ' ') {
                        Some(args) => after(args, ':'),
                        None => None,
                    },
                    command: CommandView { kind: command_kind_of(before(tail, ' ')), channel: source.nick },
                    source: Some(source),
                    tags,
                },
            )
        },
    }
}

/// A membership line without the `:` prefix, such as
/// `nick!nick@host JOIN #channel`: the nick before the first `!`, the host
/// after the next `@` up to a space, the channel after the first `JOIN `.
pub open spec fn parse_join(m: Seq<char>) -> Result<MessageView, Seq<char>> {
    match index_of(m, '!') {
        None => Err("join line without a nick"@),
        Some(b) => match after(m.skip(b + 1), '@') {
            None => Err("join line without a host"@),
            Some(h) => match occurrence_of(m, "JOIN "@) {
                None => Err("join line without a channel"@),
                Some(j) => Ok(
                    MessageView {
                        parameters: None,
                        command: CommandView { kind: CommandKind::Join, channel: without_hash(m.skip(j + 5)) },
                        source: Some(SourceView { nick: m.take(b), host: before(h, ' ') }),
                        tags: None,
                    },
                ),
            },
        },
    }
}

/// The message of a line whose shape is not recognised, with the character
/// where the parser stopped.
pub open spec fn unrecognized(m: Seq<char>, idx: int) -> Seq<char> {
    if idx < m.len() {
        "could not parse message '"@ + m + "' starting with '"@ + m.subrange(idx, idx + 1) + "'"@
    } else {
        "could not parse message '"@ + m + "'"@
    }
}

/// A line once its tag block, if any, is read; `idx` is where the rest starts.
pub open spec fn parse_after_tags(m: Seq<char>, tags: Option<TagsView>, idx: int) -> Result<MessageView, Seq<char>> {
    if idx < m.len() && m[idx] == ':' {
        parse_prefixed(m.skip(idx + 1), tags)
    } else if m == "PING"@ {
        Ok(
            MessageView {
                parameters: None,
                command: CommandView { kind: CommandKind::Ping, channel: Seq::empty() },
                source: None,
                tags: None,
            },
        )
    } else if occurrence_of(m, "JOIN"@).is_some() {
        parse_join(m)
    } else {
        Err(unrecognized(m, idx))
    }
}

/// What parsing the line `m` gives: the message, or the error's text.
pub open spec fn parse_line(m: Seq<char>) -> Result<MessageView, Seq<char>> {
    if m.len() == 0 {
        Err("empty irc message"@)
    } else if m[0] == '@' {
        match index_of(m, ' ') {
            None => Err("tag block is not followed by a space"@),
            Some(sp) => parse_after_tags(m, Some(decode_tags(m.subrange(1, sp))), sp + 1),
        }
    } else {
        parse_after_tags(m, None, 0)
    }
}

/// The view of a parse result.
pub open spec fn outcome(r: Result<TwitchMessage, UnparsableError>) -> Result<MessageView, Seq<char>> {
    match r {
        Ok(m) => Ok(m@),
        Err(e) => Err(e@),
    }
}

/// Where the piece of `chars` that starts at `lo` and runs to the first `c`
/// before `hi` ends.
fn end_of_piece(chars: &Vec<char>, lo: usize, hi: usize, c: char) -> (r: usize)
    requires
        lo <= hi <= chars@.len(),
    ensures
        lo <= r <= hi,
        before(chars@.subrange(lo as int, hi as int), c) == chars@.subrange(lo as int, r as int),
        r < hi ==> after(chars@.subrange(lo as int, hi as int), c) == Some(
            chars@.subrange(r + 1, hi as int),
        ),
        r == hi ==> after(chars@.subrange(lo as int, hi as int), c).is_none(),
{
    let ghost s = chars@.subrange(lo as int, hi as int);
    match find_char(chars, lo, hi, c) {
        Some(j) => {
            assert(s.take(j - lo) =~= chars@.subrange(lo as int, j as int));
            assert(s.skip(j - lo + 1) =~= chars@.subrange(j + 1, hi as int));
            j
        },
        None => hi,
    }
}

/// The number between `lo` and `hi`, or 0.
fn number_in(chars: &Vec<char>, lo: usize, hi: usize) -> (r: usize)
    requires
        lo <= hi <= chars@.len(),
    ensures
        r == number_of(chars@.subrange(lo as int, hi as int)),
{
    match parse_decimal(chars, lo, hi, usize::MAX) {
        Some(v) => v,
        None => 0,
    }
}

/// Parses protocol lines. It holds no state between lines.
#[derive(Default)]
pub struct TrirkParser;

impl TrirkParser {
    pub fn new() -> (r: Self) {
        TrirkParser
    }

    /// Parses one line (without its CR LF).
    pub fn parse(&self, msg: &str) -> (r: Result<TwitchMessage, UnparsableError>)
        ensures
            outcome(r) == parse_line(msg@),
    {
        let chars = to_chars(msg);
        let n = chars.len();
        if n == 0 {
            return Err(UnparsableError::new("empty irc message"));
        }
        let mut idx: usize = 0;
        let mut tags: Option<Tags> = None;
        if chars[0] == '@' {
            match find_char(&chars, 0, n, ' ') {
                None => {
                    proof {
                        assert(chars@.subrange(0, n as int) =~= msg@);
                    }
                    return Err(UnparsableError::new("tag block is not followed by a space"));
                },
                Some(sp) => {
                    proof {
                        assert(chars@.subrange(0, n as int) =~= msg@);
                    }
                    tags = Some(self.parse_tags(msg, &chars, 1, sp));
                    idx = sp + 1;
                },
            }
        }
        assert(match tags {
            Some(t) => parse_line(msg@) == parse_after_tags(msg@, Some(t@), idx as int),
            None => parse_line(msg@) == parse_after_tags(msg@, None, idx as int),
        });
        if idx < n && chars[idx] == ':' {
            proof {
                assert(msg@.skip(idx + 1) =~= chars@.subrange(idx + 1, n as int));
            }
            return self.parse_prefixed(msg, &chars, idx + 1, tags);
        }
        if text_is(&chars, 0, n, "PING") {
            proof {
                reveal_strlit("PING");
                reveal_strlit("");
                assert(""@ =~= Seq::<char>::empty());
                assert(chars@.subrange(0, n as int) =~= msg@);
            }
            return Ok(TwitchMessage::new(None, Command::new(CommandType::Ping, ""), None, None));
        }
        proof {
            assert(chars@.subrange(0, n as int) =~= msg@);
        }
        let join = to_chars("JOIN");
        if find_text(&chars, &join).is_some() {
            return self.parse_join(msg, &chars);
        }
        let mut text = String::from_str("could not parse message '");
        text.append(msg);
        if idx < n {
            text.append("' starting with '");
            text.append(msg.substring_char(idx, idx + 1));
            text.append("'");
        } else {
            text.append("'");
        }
        proof {
            if idx < n {
                assert(text@ =~= unrecognized(msg@, idx as int));
            } else {
                assert(text@ =~= unrecognized(msg@, idx as int));
            }
        }
        Err(UnparsableError::new(text.as_str()))
    }

    /// The tags of the block between `lo` and `hi` (its `@` left out).
    fn parse_tags(&self, line: &str, chars: &Vec<char>, lo: usize, hi: usize) -> (r: Tags)
        requires
            chars@ == line@,
            lo <= hi <= chars@.len(),
        ensures
            r@ == decode_tags(chars@.subrange(lo as int, hi as int)),
    {
        let mut b = Tags::builder();
        let mut p = lo;
        loop
            invariant
                chars@ == line@,
                lo <= p <= hi <= chars@.len(),
                decode_tags(chars@.subrange(lo as int, hi as int)) == fold_pieces(
                    b@,
                    chars@.subrange(p as int, hi as int),
                    ';',
                    tag_step(),
                ),
            decreases hi - p,
        {
            match find_char(chars, p, hi, ';') {
                Some(j) => {
                    proof {
                        lemma_fold_step(b@, chars@, p as int, j as int, hi as int, ';', tag_step());
                    }
                    b = self.parse_tag_entry(b, line, chars, p, j);
                    p = j + 1;
                },
                None => {
                    b = self.parse_tag_entry(b, line, chars, p, hi);
                    return b.build();
                },
            }
        }
    }

    /// One `key=value` entry of a tag block, between `lo` and `hi`.
    fn parse_tag_entry(&self, b: TagsBuilder, line: &str, chars: &Vec<char>, lo: usize, hi: usize) -> (r: TagsBuilder)
        requires
            chars@ == line@,
            lo <= hi <= chars@.len(),
        ensures
            r@ == decode_entry(b@, chars@.subrange(lo as int, hi as int)),
    {
        let ghost entry = chars@.subrange(lo as int, hi as int);
        match find_char(chars, lo, hi, '=') {
            None => b,
            Some(i) => {
                proof {
                    assert(entry.take(i - lo) =~= chars@.subrange(lo as int, i as int));
                    assert(entry.skip(i - lo + 1) =~= chars@.subrange(i + 1, hi as int));
                }
                self.apply_tag(b, line, chars, lo, i, hi)
            },
        }
    }

    /// Sets the tag whose key lies between `lo` and `i` and whose value lies
    /// between `i + 1` and `hi`.
    #[verifier::rlimit(80)]
    fn apply_tag(&self, b: TagsBuilder, line: &str, chars: &Vec<char>, lo: usize, i: usize, hi: usize) -> (r: TagsBuilder)
        requires
            chars@ == line@,
            lo <= i < hi <= chars@.len(),
        ensures
            r@ == apply_tag(b@, chars@.subrange(lo as int, i as int), chars@.subrange(i + 1, hi as int)),
    {
        if text_is(chars, lo, i, "badges") {
            b.badges(self.parse_badges(line, chars, i + 1, hi))
        } else if text_is(chars, lo, i, "color") {
            b.color(line.substring_char(i + 1, hi))
        } else if text_is(chars, lo, i, "display-name") {
            b.display_name(line.substring_char(i + 1, hi))
        } else if text_is(chars, lo, i, "emote-only") {
            b.emote_only(text_is(chars, i + 1, hi, "1"))
        } else if text_is(chars, lo, i, "emotes") {
            b.emotes(self.parse_emotes(line, chars, i + 1, hi))
        } else if text_is(chars, lo, i, "id") {
            b.id(line.substring_char(i + 1, hi))
        } else if text_is(chars, lo, i, "mod") {
            b.is_mod(text_is(chars, i + 1, hi, "1"))
        } else if text_is(chars, lo, i, "room-id") {
            b.room_id(line.substring_char(i + 1, hi))
        } else if text_is(chars, lo, i, "subscriber") {
            b.subscriber(text_is(chars, i + 1, hi, "1"))
        } else if text_is(chars, lo, i, "turbo") {
            b.turbo(text_is(chars, i + 1, hi, "1"))
        } else if text_is(chars, lo, i, "tmi-sent-ts") {
            b.tmi_sent_ts(number_in(chars, i + 1, hi))
        } else if text_is(chars, lo, i, "user-id") {
            b.user_id(line.substring_char(i + 1, hi))
        } else if text_is(chars, lo, i, "user-type") {
            b.user_type(line.substring_char(i + 1, hi))
        } else if text_is(chars, lo, i, "vip") {
            b.vip(text_is(chars, i + 1, hi, "1"))
        } else if text_is(chars, lo, i, "reply-parent-msg-id") {
            b.reply_parent_msg_id(line.substring_char(i + 1, hi))
        } else if text_is(chars, lo, i, "msg-id") {
            b.message_id(line.substring_char(i + 1, hi))
        } else if text_is(chars, lo, i, "target-user-id") {
            b.target_user_id(line.substring_char(i + 1, hi))
        } else if text_is(chars, lo, i, "ban-duration") {
            b.ban_duration(number_in(chars, i + 1, hi))
        } else if text_is(chars, lo, i, "login") {
            b.login(line.substring_char(i + 1, hi))
        } else if text_is(chars, lo, i, "target-msg-id") {
            b.target_message_id(line.substring_char(i + 1, hi))
        } else if text_is(chars, lo, i, "emote-sets") {
            b.emote_sets(self.parse_emote_sets(chars, i + 1, hi))
        } else if text_is(chars, lo, i, "followers-only") {
            b.followers_only(text_is(chars, i + 1, hi, "1"))
        } else if text_is(chars, lo, i, "r9k") {
            b.r9k(text_is(chars, i + 1, hi, "1"))
        } else if text_is(chars, lo, i, "slow") {
            b.slow(number_in(chars, i + 1, hi))
        } else if text_is(chars, lo, i, "subs-only") {
            b.subs_only(text_is(chars, i + 1, hi, "1"))
        } else {
            b.extra_tag(line.substring_char(lo, i), line.substring_char(i + 1, hi))
        }
    }

    /// The badges of the `badges` value between `lo` and `hi`.
    fn parse_badges(&self, line: &str, chars: &Vec<char>, lo: usize, hi: usize) -> (r: Badge)
        requires
            chars@ == line@,
            lo <= hi <= chars@.len(),
        ensures
            r@ == decode_badges(chars@.subrange(lo as int, hi as int)),
    {
        let mut badge = Badge::default();
        let mut p = lo;
        loop
            invariant
                chars@ == line@,
                lo <= p <= hi <= chars@.len(),
                decode_badges(chars@.subrange(lo as int, hi as int)) == fold_pieces(
                    badge@,
                    chars@.subrange(p as int, hi as int),
                    ',',
                    badge_step(),
                ),
            decreases hi - p,
        {
            match find_char(chars, p, hi, ',') {
                Some(j) => {
                    proof {
                        lemma_fold_step(badge@, chars@, p as int, j as int, hi as int, ',', badge_step());
                    }
                    self.parse_badge(&mut badge, line, chars, p, j);
                    p = j + 1;
                },
                None => {
                    self.parse_badge(&mut badge, line, chars, p, hi);
                    return badge;
                },
            }
        }
    }

    /// One `name/version` entry of a `badges` value, between `lo` and `hi`.
    fn parse_badge(&self, badge: &mut Badge, line: &str, chars: &Vec<char>, lo: usize, hi: usize)
        requires
            chars@ == line@,
            lo <= hi <= chars@.len(),
        ensures
            final(badge)@ == apply_badge(old(badge)@, chars@.subrange(lo as int, hi as int)),
    {
        let ghost entry = chars@.subrange(lo as int, hi as int);
        match find_char(chars, lo, hi, '/') {
            None => {},
            Some(i) => {
                let e = end_of_piece(chars, i + 1, hi, '/');
                proof {
                    assert(entry.take(i - lo) =~= chars@.subrange(lo as int, i as int));
                    assert(entry.skip(i - lo + 1) =~= chars@.subrange(i + 1, hi as int));
                }
                let version = text_of(line, i + 1, e);
                if text_is(chars, lo, i, "admin") {
                    badge.set_admin(version);
                } else if text_is(chars, lo, i, "bits") {
                    badge.set_bits(version);
                } else if text_is(chars, lo, i, "broadcaster") {
                    badge.set_broadcaster(version);
                } else if text_is(chars, lo, i, "moderator") {
                    badge.set_moderator(version);
                } else if text_is(chars, lo, i, "subscriber") {
                    badge.set_subscriber(version);
                } else if text_is(chars, lo, i, "staff") {
                    badge.set_staff(version);
                } else if text_is(chars, lo, i, "turbo") {
                    badge.set_turbo(version);
                }
            },
        }
    }

    /// The emotes of the `emotes` value between `lo` and `hi`.
    fn parse_emotes(&self, line: &str, chars: &Vec<char>, lo: usize, hi: usize) -> (r: Vec<Emote>)
        requires
            chars@ == line@,
            lo <= hi <= chars@.len(),
        ensures
            r@.map_values(|e: Emote| e@) == decode_emotes(chars@.subrange(lo as int, hi as int)),
    {
        let mut emotes: Vec<Emote> = Vec::new();
        let mut p = lo;
        proof {
            assert(emotes@.map_values(|e: Emote| e@) =~= Seq::<EmoteView>::empty());
        }
        loop
            invariant
                chars@ == line@,
                lo <= p <= hi <= chars@.len(),
                decode_emotes(chars@.subrange(lo as int, hi as int)) == fold_pieces(
                    emotes@.map_values(|e: Emote| e@),
                    chars@.subrange(p as int, hi as int),
                    ',',
                    emote_step(),
                ),
            decreases hi - p,
        {
            let ghost before_step = emotes@.map_values(|e: Emote| e@);
            let e = match find_char(chars, p, hi, ',') {
                Some(j) => j,
                None => hi,
            };
            if e < hi {
                proof {
                    lemma_fold_step(before_step, chars@, p as int, e as int, hi as int, ',', emote_step());
                }
            }
            match self.parse_emote(line, chars, p, e) {
                Some(x) => {
                    emotes.push(x);
                },
                None => {},
            }
            proof {
                assert(emotes@.map_values(|e: Emote| e@) =~= (emote_step())(
                    before_step,
                    chars@.subrange(p as int, e as int),
                ));
            }
            if e == hi {
                return emotes;
            }
            p = e + 1;
        }
    }

    /// One `code:start-end` entry of an `emotes` value, between `lo` and `hi`.
    fn parse_emote(&self, line: &str, chars: &Vec<char>, lo: usize, hi: usize) -> (r: Option<Emote>)
        requires
            chars@ == line@,
            lo <= hi <= chars@.len(),
        ensures
            match r {
                Some(x) => emote_of(chars@.subrange(lo as int, hi as int)) == Some(x@),
                None => emote_of(chars@.subrange(lo as int, hi as int)).is_none(),
            },
    {
        let ghost entry = chars@.subrange(lo as int, hi as int);
        let i = match find_char(chars, lo, hi, ':') {
            Some(i) => i,
            None => return None,
        };
        proof {
            assert(entry.take(i - lo) =~= chars@.subrange(lo as int, i as int));
            assert(entry.skip(i - lo + 1) =~= chars@.subrange(i + 1, hi as int));
        }
        let pe = end_of_piece(chars, i + 1, hi, ':');
        let ghost pos = chars@.subrange(i + 1, pe as int);
        let j = match find_char(chars, i + 1, pe, '-') {
            Some(j) => j,
            None => return None,
        };
        let ee = end_of_piece(chars, j + 1, pe, '-');
        proof {
            assert(pos.take(j - (i + 1)) =~= chars@.subrange(i + 1, j as int));
            assert(pos.skip(j - (i + 1) + 1) =~= chars@.subrange(j + 1, pe as int));
        }
        let start = parse_decimal(chars, i + 1, j, usize::MAX);
        let end = parse_decimal(chars, j + 1, ee, usize::MAX);
        match (start, end) {
            (Some(a), Some(z)) => Some(Emote::new(line.substring_char(lo, i), a, z)),
            _ => None,
        }
    }

    /// The numbers of the `emote-sets` value between `lo` and `hi`.
    fn parse_emote_sets(&self, chars: &Vec<char>, lo: usize, hi: usize) -> (r: Vec<usize>)
        requires
            lo <= hi <= chars@.len(),
        ensures
            r@ == decode_emote_sets(chars@.subrange(lo as int, hi as int)),
    {
        let mut sets: Vec<usize> = Vec::new();
        let mut p = lo;
        loop
            invariant
                lo <= p <= hi <= chars@.len(),
                decode_emote_sets(chars@.subrange(lo as int, hi as int)) == fold_pieces(
                    sets@,
                    chars@.subrange(p as int, hi as int),
                    ',',
                    emote_set_step(),
                ),
            decreases hi - p,
        {
            match find_char(chars, p, hi, ',') {
                Some(j) => {
                    proof {
                        lemma_fold_step(sets@, chars@, p as int, j as int, hi as int, ',', emote_set_step());
                    }
                    sets.push(number_in(chars, p, j));
                    p = j + 1;
                },
                None => {
                    sets.push(number_in(chars, p, hi));
                    return sets;
                },
            }
        }
    }

    /// The source token between `lo` and `hi`.
    fn parse_source(&self, line: &str, chars: &Vec<char>, lo: usize, hi: usize) -> (r: Source)
        requires
            chars@ == line@,
            lo <= hi <= chars@.len(),
        ensures
            r@ == source_of(chars@.subrange(lo as int, hi as int)),
    {
        let ghost token = chars@.subrange(lo as int, hi as int);
        match (find_char(chars, lo, hi, '!'), find_char(chars, lo, hi, '@')) {
            (Some(b), Some(a)) => {
                proof {
                    assert(token.take(b - lo) =~= chars@.subrange(lo as int, b as int));
                    assert(token.skip(a - lo + 1) =~= chars@.subrange(a + 1, hi as int));
                }
                Source::new(line.substring_char(lo, b), line.substring_char(a + 1, hi))
            },
            _ => {
                proof {
                    reveal_strlit("");
                    assert(Seq::<char>::empty() =~= ""@);
                }
                Source::new("", line.substring_char(lo, hi))
            },
        }
    }

    /// The command whose verb starts at `lo` and runs to the next space or to
    /// `hi`, with `nick` as its field; also where the verb ends.
    fn parse_command(&self, line: &str, chars: &Vec<char>, lo: usize, hi: usize, nick: &str) -> (r: (Command, usize))
        requires
            chars@ == line@,
            lo <= hi <= chars@.len(),
        ensures
            lo <= r.1 <= hi,
            r.0@ == (CommandView {
                kind: command_kind_of(before(chars@.subrange(lo as int, hi as int), ' ')),
                channel: nick@,
            }),
            before(chars@.subrange(lo as int, hi as int), ' ') == chars@.subrange(lo as int, r.1 as int),
            r.1 < hi ==> after(chars@.subrange(lo as int, hi as int), ' ') == Some(
                chars@.subrange(r.1 + 1, hi as int),
            ),
            r.1 == hi ==> after(chars@.subrange(lo as int, hi as int), ' ').is_none(),
    {
        let e = end_of_piece(chars, lo, hi, ' ');
        let kind = CommandType::from(line.substring_char(lo, e));
        (Command::new(kind, nick), e)
    }

    /// The text after the first `:` between `lo` and `hi`, if there is one.
    fn parse_parameter(&self, line: &str, chars: &Vec<char>, lo: usize, hi: usize) -> (r: Option<String>)
        requires
            chars@ == line@,
            lo <= hi <= chars@.len(),
        ensures
            match r {
                Some(p) => after(chars@.subrange(lo as int, hi as int), ':') == Some(p@),
                None => after(chars@.subrange(lo as int, hi as int), ':').is_none(),
            },
    {
        let e = end_of_piece(chars, lo, hi, ':');
        if e < hi {
            Some(text_of(line, e + 1, hi))
        } else {
            None
        }
    }

    /// A line with a source, whose token starts at `lo`.
    fn parse_prefixed(&self, line: &str, chars: &Vec<char>, lo: usize, tags: Option<Tags>) -> (r: Result<TwitchMessage, UnparsableError>)
        requires
            chars@ == line@,
            lo <= chars@.len(),
        ensures
            outcome(r) == parse_prefixed(
                chars@.subrange(lo as int, chars@.len() as int),
                match tags {
                    Some(t) => Some(t@),
                    None => None,
                },
            ),
    {
        let n = chars.len();
        let ghost rest = chars@.subrange(lo as int, n as int);
        let sp = match find_char(chars, lo, n, ' ') {
            Some(sp) => sp,
            None => return Err(UnparsableError::new("source is not followed by a space")),
        };
        proof {
            assert(rest.take(sp - lo) =~= chars@.subrange(lo as int, sp as int));
            assert(rest.skip(sp - lo + 1) =~= chars@.subrange(sp + 1, n as int));
        }
        let source = self.parse_source(line, chars, lo, sp);
        let nick = source.nick();
        let (command, e) = self.parse_command(line, chars, sp + 1, n, nick.as_str());
        let parameters = if e < n {
            self.parse_parameter(line, chars, e + 1, n)
        } else {
            None
        };
        match parameters {
            Some(p) => Ok(TwitchMessage::new(Some(p.as_str()), command, Some(source), tags)),
            None => Ok(TwitchMessage::new(None, command, Some(source), tags)),
        }
    }

    /// A membership line without a `:` prefix.
    fn parse_join(&self, line: &str, chars: &Vec<char>) -> (r: Result<TwitchMessage, UnparsableError>)
        requires
            chars@ == line@,
        ensures
            outcome(r) == parse_join(line@),
    {
        let n = chars.len();
        proof {
            assert(chars@.subrange(0, n as int) =~= chars@);
        }
        let b = match find_char(chars, 0, n, '!') {
            Some(b) => b,
            None => return Err(UnparsableError::new("join line without a nick")),
        };
        proof {
            assert(chars@.skip(b + 1) =~= chars@.subrange(b + 1, n as int));
        }
        let a = match find_char(chars, b + 1, n, '@') {
            Some(a) => a,
            None => return Err(UnparsableError::new("join line without a host")),
        };
        proof {
            assert(chars@.subrange(b + 1, n as int).skip(a - (b + 1) + 1) =~= chars@.subrange(a + 1, n as int));
        }
        let he = end_of_piece(chars, a + 1, n, ' ');
        let pattern = to_chars("JOIN ");
        let j = match find_text(chars, &pattern) {
            Some(j) => j,
            None => return Err(UnparsableError::new("join line without a channel")),
        };
        proof {
            reveal_strlit("JOIN ");
            assert(pattern@.len() == 5);
            assert(is_first_occurrence(chars@, pattern@, j as int));
        }
        let start = if j + 5 < n && chars[j + 5] == '#' {
            j + 6
        } else {
            j + 5
        };
        proof {
            assert(chars@.take(b as int) =~= chars@.subrange(0, b as int));
            assert(without_hash(chars@.skip(j + 5)) =~= chars@.subrange(start as int, n as int));
        }
        let source = Source::new(line.substring_char(0, b), line.substring_char(a + 1, he));
        let command = Command::new(CommandType::Join, line.substring_char(start, n));
        Ok(TwitchMessage::new(None, command, Some(source), None))
    }
}

/// The decimal digit `d` as a character.
pub open spec fn digit_char(d: nat) -> char {
    seq!['0', '1', '2', '3', '4', '5', '6', '7', '8', '9'][d as int]
}

/// `n` written in decimal, without leading zeros.
pub open spec fn decimal_text(n: nat) -> Seq<char>
    decreases n,
{
    if n < 10 {
        seq![digit_char(n)]
    } else {
        decimal_text(n / 10).push(digit_char(n % 10))
    }
}

/// A boolean written as a tag value.
pub open spec fn flag_text(b: bool) -> Seq<char> {
    if b {
        "1"@
    } else {
        "0"@
    }
}

/// Entries written as a tag block: `key=value`, separated by `;`.
pub open spec fn encode_entries(es: Seq<(Seq<char>, Seq<char>)>) -> Seq<char>
    decreases es.len(),
{
    if es.len() <= 1 {
        if es.len() == 0 {
            Seq::empty()
        } else {
            es[0].0 + "="@ + es[0].1
        }
    } else {
        es[0].0 + "="@ + es[0].1 + ";"@ + encode_entries(es.drop_first())
    }
}

/// The entries set on `t` one after another.
pub open spec fn apply_entries(t: TagsView, es: Seq<(Seq<char>, Seq<char>)>) -> TagsView
    decreases es.len(),
{
    if es.len() == 0 {
        t
    } else {
        apply_entries(apply_tag(t, es[0].0, es[0].1), es.drop_first())
    }
}

/// A key that can be written in a tag block: no `=`, `;` or space in it.
pub open spec fn writable_key(k: Seq<char>) -> bool {
    forall|j: int| 0 <= j < k.len() ==> k[j] != '=' && k[j] != ';' && k[j] != ' '
}

/// A value that can be written in a tag block: no `;` or space in it.
pub open spec fn writable_value(v: Seq<char>) -> bool {
    forall|j: int| 0 <= j < v.len() ==> v[j] != ';' && v[j] != ' '
}

/// Entries that can be written as a tag block and read back.
pub open spec fn writable_entries(es: Seq<(Seq<char>, Seq<char>)>) -> bool {
    forall|i: int| 0 <= i < es.len() ==> writable_key(#[trigger] es[i].0) && writable_value(es[i].1)
}

proof fn lemma_no_char(s: Seq<char>, c: char)
    requires
        forall|j: int| 0 <= j < s.len() ==> s[j] != c,
    ensures
        index_of(s, c).is_none(),
{
}

proof fn lemma_fold_entries(t: TagsView, es: Seq<(Seq<char>, Seq<char>)>)
    requires
        es.len() > 0,
        writable_entries(es),
    ensures
        fold_pieces(t, encode_entries(es), ';', tag_step()) == apply_entries(t, es),
        forall|j: int| 0 <= j < encode_entries(es).len() ==> encode_entries(es)[j] != ' ',
    decreases es.len(),
{
    reveal_strlit("=");
    reveal_strlit(";");
    let k = es[0].0;
    let v = es[0].1;
    let entry = k + "="@ + v;
    assert(writable_key(k) && writable_value(v));
    assert(is_first_index(entry, '=', k.len() as int));
    lemma_index_of_found(entry, '=', k.len() as int);
    assert(entry.take(k.len() as int) =~= k);
    assert(entry.skip(k.len() as int + 1) =~= v);
    assert(decode_entry(t, entry) == apply_tag(t, k, v));
    assert forall|j: int| 0 <= j < entry.len() implies entry[j] != ';' && entry[j] != ' ' by {
        if j < k.len() {
        } else if j > k.len() {
            assert(entry[j] == v[j - k.len() - 1]);
        }
    }
    if es.len() == 1 {
        lemma_no_char(entry, ';');
        assert(apply_entries(apply_tag(t, k, v), es.drop_first()) == apply_tag(t, k, v));
    } else {
        let rest = es.drop_first();
        assert(writable_entries(rest)) by {
            assert forall|i: int| 0 <= i < rest.len() implies writable_key(#[trigger] rest[i].0)
                && writable_value(rest[i].1) by {
                assert(rest[i] == es[i + 1]);
            }
        }
        lemma_fold_entries(apply_tag(t, k, v), rest);
        let block = entry + ";"@ + encode_entries(rest);
        assert(block =~= encode_entries(es));
        assert(is_first_index(block, ';', entry.len() as int));
        lemma_index_of_found(block, ';', entry.len() as int);
        assert(block.take(entry.len() as int) =~= entry);
        assert(block.skip(entry.len() as int + 1) =~= encode_entries(rest));
        assert forall|j: int| 0 <= j < block.len() implies block[j] != ' ' by {
            if j < entry.len() {
            } else if j > entry.len() {
                assert(block[j] == encode_entries(rest)[j - entry.len() - 1]);
            }
        }
    }
}

/// A line whose tag block writes the entries `es` carries, once parsed, the
/// tags that setting those entries one after another gives: each known tag
/// holds the value written for it, decoded, and every other key stands in the
/// extra tags with its value unchanged.
pub proof fn lemma_tag_block_round_trip(
    es: Seq<(Seq<char>, Seq<char>)>,
    token: Seq<char>,
    rest: Seq<char>,
)
    requires
        es.len() > 0,
        writable_entries(es),
        forall|j: int| 0 <= j < token.len() ==> token[j] != ' ',
    ensures
        parse_line("@"@ + encode_entries(es) + " :"@ + token + " "@ + rest) matches Ok(m) && m.tags
            == Some(apply_entries(TagsView::empty(), es)),
{
    reveal_strlit("@");
    reveal_strlit(" :");
    reveal_strlit(" ");
    let block = encode_entries(es);
    lemma_fold_entries(TagsView::empty(), es);
    let m = "@"@ + block + " :"@ + token + " "@ + rest;
    let sp = block.len() as int + 1;
    assert forall|j: int| 0 <= j < sp implies m[j] != ' ' by {
        if j > 0 {
            assert(m[j] == block[j - 1]);
        }
    }
    assert(is_first_index(m, ' ', sp));
    lemma_index_of_found(m, ' ', sp);
    assert(m.subrange(1, sp) =~= block);
    let after_colon = m.skip(sp + 2);
    assert(after_colon =~= token + " "@ + rest);
    assert forall|j: int| 0 <= j < token.len() implies after_colon[j] != ' ' by {
        assert(after_colon[j] == token[j]);
    }
    assert(is_first_index(after_colon, ' ', token.len() as int));
    lemma_index_of_found(after_colon, ' ', token.len() as int);
}

/// A boolean tag written as `1` or `0` reads back as itself.
pub proof fn lemma_flag_round_trip(b: bool)
    ensures
        is_flag_set(flag_text(b)) == b,
{
    reveal_strlit("1");
    reveal_strlit("0");
    assert("0"@[0] != "1"@[0]);
}

proof fn lemma_digit_char(d: nat)
    requires
        d < 10,
    ensures
        is_digit(digit_char(d)),
        digit_value(digit_char(d)) == d,
{
    let t = seq!['0', '1', '2', '3', '4', '5', '6', '7', '8', '9'];
    assert(t[0] == '0' && t[1] == '1' && t[2] == '2' && t[3] == '3' && t[4] == '4');
    assert(t[5] == '5' && t[6] == '6' && t[7] == '7' && t[8] == '8' && t[9] == '9');
    if d == 0 {
    } else if d == 1 {
    } else if d == 2 {
    } else if d == 3 {
    } else if d == 4 {
    } else if d == 5 {
    } else if d == 6 {
    } else if d == 7 {
    } else if d == 8 {
    } else {
    }
}

proof fn lemma_decimal_text(n: nat)
    ensures
        decimal_text(n).len() > 0,
        all_digits(decimal_text(n)),
        decimal_value(decimal_text(n)) == n,
        decimal_text(n)[0] != '+',
    decreases n,
{
    if n < 10 {
        lemma_digit_char(n);
        assert(decimal_text(n).drop_last() =~= Seq::<char>::empty());
        assert(decimal_value(Seq::<char>::empty()) == 0);
    } else {
        lemma_decimal_text(n / 10);
        lemma_digit_char(n % 10);
        let s = decimal_text(n);
        assert(s.drop_last() =~= decimal_text(n / 10));
        assert(s.last() == digit_char(n % 10));
        assert(n == (n / 10) * 10 + n % 10) by (nonlinear_arith);
        assert(all_digits(s)) by {
            assert forall|i: int| 0 <= i < s.len() implies is_digit(#[trigger] s[i]) by {
                if i < s.len() - 1 {
                    assert(s[i] == decimal_text(n / 10)[i]);
                }
            }
        }
    }
}

/// A number tag written in decimal reads back as itself.
pub proof fn lemma_number_round_trip(n: usize)
    ensures
        number_of(decimal_text(n as nat)) == n,
{
    lemma_decimal_text(n as nat);
}

/// A tag without a field of its own stands in the extra tags with its raw
/// value, and no field changes.
pub proof fn lemma_unknown_tag_kept(t: TagsView, key: Seq<char>, value: Seq<char>)
    requires
        !is_known_tag(key),
    ensures
        apply_tag(t, key, value) == (TagsView { extra_tags: with_extra(t.extra_tags, key, value), ..t }),
        extra_lookup(apply_tag(t, key, value).extra_tags, key) == Some(value),
{
    let m = t.extra_tags;
    let r = with_extra(m, key, value);
    if exists|i: int| is_first_key(m, key, i) {
        let i = choose|i: int| is_first_key(m, key, i);
        assert(is_first_key(r, key, i));
        lemma_first_key(r, key, i);
    } else {
        assert forall|j: int| 0 <= j < m.len() implies m[j].0 != key by {
            if m[j].0 == key {
                lemma_first_key_exists(m, key, j);
            }
        }
        assert(is_first_key(r, key, m.len() as int));
        lemma_first_key(r, key, m.len() as int);
    }
}

/// A line whose tag block runs to the end of the line, with no space after
/// it, is refused.
pub proof fn lemma_tag_block_without_space(m: Seq<char>)
    requires
        m.len() > 0,
        m[0] == '@',
        forall|j: int| 0 <= j < m.len() ==> m[j] != ' ',
    ensures
        parse_line(m) == Err::<MessageView, Seq<char>>("tag block is not followed by a space"@),
{
}

/// A line whose source token runs to the end of the line, with no space after
/// it, is refused, with or without a tag block before it.
pub proof fn lemma_source_without_space(block: Option<Seq<char>>, token: Seq<char>)
    requires
        forall|j: int| 0 <= j < token.len() ==> token[j] != ' ',
        block matches Some(b) ==> forall|j: int| 0 <= j < b.len() ==> b[j] != ' ',
    ensures
        parse_line(
            match block {
                Some(b) => "@"@ + b + " :"@ + token,
                None => ":"@ + token,
            },
        ) == Err::<MessageView, Seq<char>>("source is not followed by a space"@),
{
    reveal_strlit("@");
    reveal_strlit(" :");
    reveal_strlit(":");
    match block {
        Some(b) => {
            let m = "@"@ + b + " :"@ + token;
            let sp = b.len() as int + 1;
            assert forall|j: int| 0 <= j < sp implies m[j] != ' ' by {
                if j > 0 {
                    assert(m[j] == b[j - 1]);
                }
            }
            assert(is_first_index(m, ' ', sp));
            lemma_index_of_found(m, ' ', sp);
            assert(m.skip(sp + 2) =~= token);
        },
        None => {
            let m = ":"@ + token;
            assert(m.skip(1) =~= token);
        },
    }
}

/// Parsing is a function of the line: two parses of one line give equal
/// messages, or equal errors.
pub proof fn lemma_parse_idempotent(
    line: Seq<char>,
    first: Result<TwitchMessage, UnparsableError>,
    second: Result<TwitchMessage, UnparsableError>,
)
    requires
        outcome(first) == parse_line(line),
        outcome(second) == parse_line(line),
    ensures
        outcome(first) == outcome(second),
{
}

} // verus!
