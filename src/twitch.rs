//! The messages of the chat protocol: a line's tags, source, command and
//! trailing parameter, with their mathematical views.
use vstd::prelude::*;
use vstd::string::*;

use crate::text::{parse_decimal, parse_unsigned, same_text, text_is, to_chars};

verus! {

/// The text of an optional `String`.
pub open spec fn opt_text(o: Option<String>) -> Option<Seq<char>> {
    match o {
        Some(s) => Some(s@),
        None => None,
    }
}

/// One parsed protocol line.
#[derive(PartialEq, Eq, Debug, Clone)]
pub struct TwitchMessage {
    parameters: Option<String>,
    command: Command,
    source: Option<Source>,
    tags: Option<Tags>,
}

pub struct MessageView {
    pub parameters: Option<Seq<char>>,
    pub command: CommandView,
    pub source: Option<SourceView>,
    pub tags: Option<TagsView>,
}

impl View for TwitchMessage {
    type V = MessageView;

    closed spec fn view(&self) -> MessageView {
        MessageView {
            parameters: opt_text(self.parameters),
            command: self.command@,
            source: match self.source {
                Some(s) => Some(s@),
                None => None,
            },
            tags: match self.tags {
                Some(t) => Some(t@),
                None => None,
            },
        }
    }
}

impl TwitchMessage {
    pub fn new(
        parameters: Option<&str>,
        command: Command,
        source: Option<Source>,
        tags: Option<Tags>,
    ) -> (r: Self)
        ensures
            r@ == (MessageView {
                parameters: match parameters {
                    Some(p) => Some(p@),
                    None => None,
                },
                command: command@,
                source: match source {
                    Some(s) => Some(s@),
                    None => None,
                },
                tags: match tags {
                    Some(t) => Some(t@),
                    None => None,
                },
            }),
    {
        let parameters = match parameters {
            Some(p) => Some(String::from_str(p)),
            None => None,
        };
        TwitchMessage { parameters, command, source, tags }
    }

    /// The trailing parameter: the text after the first `:` that follows the command.
    pub fn parameters(&self) -> (r: &Option<String>)
        ensures
            opt_text(*r) == self@.parameters,
    {
        &self.parameters
    }

    pub fn command(&self) -> (r: &Command)
        ensures
            r@ == self@.command,
    {
        &self.command
    }

    pub fn source(&self) -> (r: &Option<Source>)
        ensures
            match *r {
                Some(s) => self@.source == Some(s@),
                None => self@.source.is_none(),
            },
    {
        &self.source
    }

    pub fn tags(&self) -> (r: &Option<Tags>)
        ensures
            match *r {
                Some(t) => self@.tags == Some(t@),
                None => self@.tags.is_none(),
            },
    {
        &self.tags
    }
}

/// The metadata of a line's tag block. Tags that the line does not carry keep
/// their empty value (`""`, `false`, `0`, no entries).
#[derive(Clone, PartialEq, Eq, Debug)]
pub struct Tags {
    badges: Badge,
    color: String,
    display_name: String,
    emote_only: bool,
    emotes: Vec<Emote>,
    id: String,
    is_mod: bool,
    room_id: String,
    subscriber: bool,
    turbo: bool,
    tmi_sent_ts: usize,
    user_id: String,
    user_type: String,
    vip: bool,
    reply_parent_msg_id: String,
    target_user_id: String,
    message_id: String,
    ban_duration: usize,
    login: String,
    target_message_id: String,
    emote_sets: Vec<usize>,
    followers_only: bool,
    r9k: bool,
    slow: usize,
    subs_only: bool,
    extra_tags: Vec<(String, String)>,
}

pub struct TagsView {
    pub badges: BadgeView,
    pub color: Seq<char>,
    pub display_name: Seq<char>,
    pub emote_only: bool,
    pub emotes: Seq<EmoteView>,
    pub id: Seq<char>,
    pub is_mod: bool,
    pub room_id: Seq<char>,
    pub subscriber: bool,
    pub turbo: bool,
    pub tmi_sent_ts: usize,
    pub user_id: Seq<char>,
    pub user_type: Seq<char>,
    pub vip: bool,
    pub reply_parent_msg_id: Seq<char>,
    pub target_user_id: Seq<char>,
    pub message_id: Seq<char>,
    pub ban_duration: usize,
    pub login: Seq<char>,
    pub target_message_id: Seq<char>,
    pub emote_sets: Seq<usize>,
    pub followers_only: bool,
    pub r9k: bool,
    pub slow: usize,
    pub subs_only: bool,
    /// Tags with no field of their own, with their raw values, in the order in
    /// which their keys first came; each key once.
    pub extra_tags: Seq<(Seq<char>, Seq<char>)>,
}

impl TagsView {
    /// The tags of a block that carries none.
    pub open spec fn empty() -> TagsView {
        TagsView {
            badges: BadgeView::none(),
            color: Seq::empty(),
            display_name: Seq::empty(),
            emote_only: false,
            emotes: Seq::empty(),
            id: Seq::empty(),
            is_mod: false,
            room_id: Seq::empty(),
            subscriber: false,
            turbo: false,
            tmi_sent_ts: 0,
            user_id: Seq::empty(),
            user_type: Seq::empty(),
            vip: false,
            reply_parent_msg_id: Seq::empty(),
            target_user_id: Seq::empty(),
            message_id: Seq::empty(),
            ban_duration: 0,
            login: Seq::empty(),
            target_message_id: Seq::empty(),
            emote_sets: Seq::empty(),
            followers_only: false,
            r9k: false,
            slow: 0,
            subs_only: false,
            extra_tags: Seq::empty(),
        }
    }
}

/// The view of a list of extra tags.
pub open spec fn extra_view(v: Seq<(String, String)>) -> Seq<(Seq<char>, Seq<char>)> {
    v.map_values(|p: (String, String)| (p.0@, p.1@))
}

/// `i` is the first position of `key` among the keys of `m`.
pub open spec fn is_first_key(m: Seq<(Seq<char>, Seq<char>)>, key: Seq<char>, i: int) -> bool {
    &&& 0 <= i < m.len()
    &&& m[i].0 == key
    &&& forall|j: int| 0 <= j < i ==> m[j].0 != key
}

/// `m` with `key` set to `value`: the value of an existing key is replaced in
/// place, a new key goes last.
pub open spec fn with_extra(
    m: Seq<(Seq<char>, Seq<char>)>,
    key: Seq<char>,
    value: Seq<char>,
) -> Seq<(Seq<char>, Seq<char>)> {
    if exists|i: int| is_first_key(m, key, i) {
        m.update(choose|i: int| is_first_key(m, key, i), (key, value))
    } else {
        m.push((key, value))
    }
}

/// The value that `m` holds for `key`.
pub open spec fn extra_lookup(m: Seq<(Seq<char>, Seq<char>)>, key: Seq<char>) -> Option<Seq<char>> {
    if exists|i: int| is_first_key(m, key, i) {
        Some(m[choose|i: int| is_first_key(m, key, i)].1)
    } else {
        None
    }
}

pub proof fn lemma_first_key(m: Seq<(Seq<char>, Seq<char>)>, key: Seq<char>, i: int)
    requires
        is_first_key(m, key, i),
    ensures
        (choose|k: int| is_first_key(m, key, k)) == i,
{
    let k = choose|k: int| is_first_key(m, key, k);
    assert(is_first_key(m, key, k));
    if k < i {
        assert(m[k].0 != key);
    } else if i < k {
        assert(m[i].0 != key);
    }
}

pub proof fn lemma_first_key_exists(m: Seq<(Seq<char>, Seq<char>)>, key: Seq<char>, j: int)
    requires
        0 <= j < m.len(),
        m[j].0 == key,
    ensures
        exists|i: int| is_first_key(m, key, i),
    decreases j,
{
    if exists|k: int| 0 <= k < j && m[k].0 == key {
        let k = choose|k: int| 0 <= k < j && m[k].0 == key;
        lemma_first_key_exists(m, key, k);
    } else {
        assert(is_first_key(m, key, j));
    }
}

/// The first position of `key` among the keys of `v`.
fn find_key(v: &Vec<(String, String)>, key: &str) -> (r: Option<usize>)
    ensures
        match r {
            Some(i) => is_first_key(extra_view(v@), key@, i as int) && (choose|k: int|
                is_first_key(extra_view(v@), key@, k)) == i,
            None => !exists|i: int| is_first_key(extra_view(v@), key@, i),
        },
{
    let ghost m = extra_view(v@);
    let mut i: usize = 0;
    while i < v.len()
        invariant
            m == extra_view(v@),
            i <= v@.len(),
            forall|j: int| 0 <= j < i ==> m[j].0 != key@,
        decreases v@.len() - i,
    {
        if same_text(v[i].0.as_str(), key) {
            proof {
                assert(is_first_key(m, key@, i as int));
                lemma_first_key(m, key@, i as int);
            }
            return Some(i);
        }
        i = i + 1;
    }
    proof {
        assert forall|k: int| !is_first_key(m, key@, k) by {
            if 0 <= k < m.len() {
                assert(m[k].0 != key@);
            }
        }
    }
    None
}

impl View for Tags {
    type V = TagsView;

    closed spec fn view(&self) -> TagsView {
        TagsView {
            badges: self.badges@,
            color: self.color@,
            display_name: self.display_name@,
            emote_only: self.emote_only,
            emotes: self.emotes@.map_values(|e: Emote| e@),
            id: self.id@,
            is_mod: self.is_mod,
            room_id: self.room_id@,
            subscriber: self.subscriber,
            turbo: self.turbo,
            tmi_sent_ts: self.tmi_sent_ts,
            user_id: self.user_id@,
            user_type: self.user_type@,
            vip: self.vip,
            reply_parent_msg_id: self.reply_parent_msg_id@,
            target_user_id: self.target_user_id@,
            message_id: self.message_id@,
            ban_duration: self.ban_duration,
            login: self.login@,
            target_message_id: self.target_message_id@,
            emote_sets: self.emote_sets@,
            followers_only: self.followers_only,
            r9k: self.r9k,
            slow: self.slow,
            subs_only: self.subs_only,
            extra_tags: extra_view(self.extra_tags@),
        }
    }
}

impl Tags {
    /// A builder whose every tag holds its empty value.
    pub fn builder() -> (r: TagsBuilder)
        ensures
            r@ == TagsView::empty(),
    {
        let r = TagsBuilder {
            tags: Tags {
                badges: Badge::default(),
                color: String::new(),
                display_name: String::new(),
                emote_only: false,
                emotes: Vec::new(),
                id: String::new(),
                is_mod: false,
                room_id: String::new(),
                subscriber: false,
                turbo: false,
                tmi_sent_ts: 0,
                user_id: String::new(),
                user_type: String::new(),
                vip: false,
                reply_parent_msg_id: String::new(),
                target_user_id: String::new(),
                message_id: String::new(),
                ban_duration: 0,
                login: String::new(),
                target_message_id: String::new(),
                emote_sets: Vec::new(),
                followers_only: false,
                r9k: false,
                slow: 0,
                subs_only: false,
                extra_tags: Vec::new(),
            },
        };
        proof {
            assert(r@.emotes =~= Seq::<EmoteView>::empty());
            assert(r@.emote_sets =~= Seq::<usize>::empty());
            assert(r@.extra_tags =~= Seq::<(Seq<char>, Seq<char>)>::empty());
        }
        r
    }

    /// The badges the sender holds.
    pub fn badges(&self) -> (r: &Badge)
        ensures
            r@ == self@.badges,
    {
        &self.badges
    }

    /// The colour of the sender's name, as `#RRGGBB`.
    pub fn color(&self) -> (r: &String)
        ensures
            r@ == self@.color,
    {
        &self.color
    }

    /// The sender's name as it is displayed.
    pub fn display_name(&self) -> (r: &String)
        ensures
            r@ == self@.display_name,
    {
        &self.display_name
    }

    /// Whether the room only accepts emotes.
    pub fn emote_only(&self) -> (r: bool)
        ensures
            r == self@.emote_only,
    {
        self.emote_only
    }

    /// The emotes referenced by the message text.
    pub fn emotes(&self) -> (r: &Vec<Emote>)
        ensures
            r@.map_values(|e: Emote| e@) == self@.emotes,
    {
        &self.emotes
    }

    /// The message's identifier.
    pub fn id(&self) -> (r: &String)
        ensures
            r@ == self@.id,
    {
        &self.id
    }

    /// Whether the sender moderates the channel.
    pub fn r(&self) -> (r: bool)
        ensures
            r == self@.is_mod,
    {
        self.is_mod
    }

    /// The identifier of the room.
    pub fn room_id(&self) -> (r: &String)
        ensures
            r@ == self@.room_id,
    {
        &self.room_id
    }

    /// Whether the sender subscribes to the channel.
    pub fn subscriber(&self) -> (r: bool)
        ensures
            r == self@.subscriber,
    {
        self.subscriber
    }

    /// Whether the sender has a turbo account.
    pub fn turbo(&self) -> (r: bool)
        ensures
            r == self@.turbo,
    {
        self.turbo
    }

    /// When the server sent the message, in milliseconds since the epoch.
    pub fn tmi_sent_ts(&self) -> (r: usize)
        ensures
            r == self@.tmi_sent_ts,
    {
        self.tmi_sent_ts
    }

    /// The sender's user identifier.
    pub fn user_id(&self) -> (r: &String)
        ensures
            r@ == self@.user_id,
    {
        &self.user_id
    }

    /// The sender's kind of account.
    pub fn user_type(&self) -> (r: &String)
        ensures
            r@ == self@.user_type,
    {
        &self.user_type
    }

    /// Whether the sender is a VIP of the channel.
    pub fn vip(&self) -> (r: bool)
        ensures
            r == self@.vip,
    {
        self.vip
    }

    /// The identifier of the message this one replies to.
    pub fn reply_parent_msg_id(&self) -> (r: &String)
        ensures
            r@ == self@.reply_parent_msg_id,
    {
        &self.reply_parent_msg_id
    }

    /// The user a moderation action targets.
    pub fn target_user_id(&self) -> (r: &String)
        ensures
            r@ == self@.target_user_id,
    {
        &self.target_user_id
    }

    /// The kind of notice.
    pub fn message_id(&self) -> (r: &String)
        ensures
            r@ == self@.message_id,
    {
        &self.message_id
    }

    /// How many seconds a ban lasts.
    pub fn ban_duration(&self) -> (r: usize)
        ensures
            r == self@.ban_duration,
    {
        self.ban_duration
    }

    /// The login of the user whose message was removed.
    pub fn login(&self) -> (r: &String)
        ensures
            r@ == self@.login,
    {
        &self.login
    }

    /// The message a removal targets.
    pub fn target_message_id(&self) -> (r: &String)
        ensures
            r@ == self@.target_message_id,
    {
        &self.target_message_id
    }

    /// The emote sets the user may use.
    pub fn emote_sets(&self) -> (r: &Vec<usize>)
        ensures
            r@ == self@.emote_sets,
    {
        &self.emote_sets
    }

    /// Whether only followers may chat.
    pub fn followers_only(&self) -> (r: bool)
        ensures
            r == self@.followers_only,
    {
        self.followers_only
    }

    /// Whether messages must be unique.
    pub fn r9k(&self) -> (r: bool)
        ensures
            r == self@.r9k,
    {
        self.r9k
    }

    /// How many seconds a user must wait between messages.
    pub fn slow(&self) -> (r: usize)
        ensures
            r == self@.slow,
    {
        self.slow
    }

    /// Whether only subscribers may chat.
    pub fn subs_only(&self) -> (r: bool)
        ensures
            r == self@.subs_only,
    {
        self.subs_only
    }

    /// Tags with no field of their own, with their raw values.
    pub fn extra_tags(&self) -> (r: &Vec<(String, String)>)
        ensures
            extra_view(r@) == self@.extra_tags,
    {
        &self.extra_tags
    }

    /// The raw value of the tag `key` that has no field of its own.
    pub fn extra_tag(&self, key: &str) -> (r: Option<&String>)
        ensures
            match r {
                Some(v) => extra_lookup(self@.extra_tags, key@) == Some(v@),
                None => extra_lookup(self@.extra_tags, key@).is_none(),
            },
    {
        match find_key(&self.extra_tags, key) {
            Some(i) => Some(&self.extra_tags[i].1),
            None => None,
        }
    }
}

/// Builds `Tags` one field at a time; fields that are not set keep their empty value.
pub struct TagsBuilder {
    tags: Tags,
}

impl View for TagsBuilder {
    type V = TagsView;

    closed spec fn view(&self) -> TagsView {
        self.tags@
    }
}

impl TagsBuilder {
    pub fn badges(self, value: Badge) -> (r: Self)
        ensures
            r@ == (TagsView { badges: value@, ..self@ }),
    {
        let mut b = self;
        b.tags.badges = value;
        proof {
            assert(b@.emotes =~= (TagsView { badges: value@, ..self@ }).emotes);
            assert(b@.extra_tags =~= (TagsView { badges: value@, ..self@ }).extra_tags);
        }
        b
    }

    pub fn color(self, value: &str) -> (r: Self)
        ensures
            r@ == (TagsView { color: value@, ..self@ }),
    {
        let mut b = self;
        b.tags.color = String::from_str(value);
        proof {
            assert(b@.emotes =~= (TagsView { color: value@, ..self@ }).emotes);
            assert(b@.extra_tags =~= (TagsView { color: value@, ..self@ }).extra_tags);
        }
        b
    }

    pub fn display_name(self, value: &str) -> (r: Self)
        ensures
            r@ == (TagsView { display_name: value@, ..self@ }),
    {
        let mut b = self;
        b.tags.display_name = String::from_str(value);
        proof {
            assert(b@.emotes =~= (TagsView { display_name: value@, ..self@ }).emotes);
            assert(b@.extra_tags =~= (TagsView { display_name: value@, ..self@ }).extra_tags);
        }
        b
    }

    pub fn emote_only(self, value: bool) -> (r: Self)
        ensures
            r@ == (TagsView { emote_only: value, ..self@ }),
    {
        let mut b = self;
        b.tags.emote_only = value;
        proof {
            assert(b@.emotes =~= (TagsView { emote_only: value, ..self@ }).emotes);
            assert(b@.extra_tags =~= (TagsView { emote_only: value, ..self@ }).extra_tags);
        }
        b
    }

    pub fn emotes(self, value: Vec<Emote>) -> (r: Self)
        ensures
            r@ == (TagsView { emotes: value@.map_values(|e: Emote| e@), ..self@ }),
    {
        let mut b = self;
        b.tags.emotes = value;
        proof {
            assert(b@.emotes =~= (TagsView { emotes: value@.map_values(|e: Emote| e@), ..self@ }).emotes);
            assert(b@.extra_tags =~= (TagsView { emotes: value@.map_values(|e: Emote| e@), ..self@ }).extra_tags);
        }
        b
    }

    pub fn id(self, value: &str) -> (r: Self)
        ensures
            r@ == (TagsView { id: value@, ..self@ }),
    {
        let mut b = self;
        b.tags.id = String::from_str(value);
        proof {
            assert(b@.emotes =~= (TagsView { id: value@, ..self@ }).emotes);
            assert(b@.extra_tags =~= (TagsView { id: value@, ..self@ }).extra_tags);
        }
        b
    }

    pub fn is_mod(self, value: bool) -> (r: Self)
        ensures
            r@ == (TagsView { is_mod: value, ..self@ }),
    {
        let mut b = self;
        b.tags.is_mod = value;
        proof {
            assert(b@.emotes =~= (TagsView { is_mod: value, ..self@ }).emotes);
            assert(b@.extra_tags =~= (TagsView { is_mod: value, ..self@ }).extra_tags);
        }
        b
    }

    pub fn room_id(self, value: &str) -> (r: Self)
        ensures
            r@ == (TagsView { room_id: value@, ..self@ }),
    {
        let mut b = self;
        b.tags.room_id = String::from_str(value);
        proof {
            assert(b@.emotes =~= (TagsView { room_id: value@, ..self@ }).emotes);
            assert(b@.extra_tags =~= (TagsView { room_id: value@, ..self@ }).extra_tags);
        }
        b
    }

    pub fn subscriber(self, value: bool) -> (r: Self)
        ensures
            r@ == (TagsView { subscriber: value, ..self@ }),
    {
        let mut b = self;
        b.tags.subscriber = value;
        proof {
            assert(b@.emotes =~= (TagsView { subscriber: value, ..self@ }).emotes);
            assert(b@.extra_tags =~= (TagsView { subscriber: value, ..self@ }).extra_tags);
        }
        b
    }

    pub fn turbo(self, value: bool) -> (r: Self)
        ensures
            r@ == (TagsView { turbo: value, ..self@ }),
    {
        let mut b = self;
        b.tags.turbo = value;
        proof {
            assert(b@.emotes =~= (TagsView { turbo: value, ..self@ }).emotes);
            assert(b@.extra_tags =~= (TagsView { turbo: value, ..self@ }).extra_tags);
        }
        b
    }

    pub fn tmi_sent_ts(self, value: usize) -> (r: Self)
        ensures
            r@ == (TagsView { tmi_sent_ts: value, ..self@ }),
    {
        let mut b = self;
        b.tags.tmi_sent_ts = value;
        proof {
            assert(b@.emotes =~= (TagsView { tmi_sent_ts: value, ..self@ }).emotes);
            assert(b@.extra_tags =~= (TagsView { tmi_sent_ts: value, ..self@ }).extra_tags);
        }
        b
    }

    pub fn user_id(self, value: &str) -> (r: Self)
        ensures
            r@ == (TagsView { user_id: value@, ..self@ }),
    {
        let mut b = self;
        b.tags.user_id = String::from_str(value);
        proof {
            assert(b@.emotes =~= (TagsView { user_id: value@, ..self@ }).emotes);
            assert(b@.extra_tags =~= (TagsView { user_id: value@, ..self@ }).extra_tags);
        }
        b
    }

    pub fn user_type(self, value: &str) -> (r: Self)
        ensures
            r@ == (TagsView { user_type: value@, ..self@ }),
    {
        let mut b = self;
        b.tags.user_type = String::from_str(value);
        proof {
            assert(b@.emotes =~= (TagsView { user_type: value@, ..self@ }).emotes);
            assert(b@.extra_tags =~= (TagsView { user_type: value@, ..self@ }).extra_tags);
        }
        b
    }

    pub fn vip(self, value: bool) -> (r: Self)
        ensures
            r@ == (TagsView { vip: value, ..self@ }),
    {
        let mut b = self;
        b.tags.vip = value;
        proof {
            assert(b@.emotes =~= (TagsView { vip: value, ..self@ }).emotes);
            assert(b@.extra_tags =~= (TagsView { vip: value, ..self@ }).extra_tags);
        }
        b
    }

    pub fn reply_parent_msg_id(self, value: &str) -> (r: Self)
        ensures
            r@ == (TagsView { reply_parent_msg_id: value@, ..self@ }),
    {
        let mut b = self;
        b.tags.reply_parent_msg_id = String::from_str(value);
        proof {
            assert(b@.emotes =~= (TagsView { reply_parent_msg_id: value@, ..self@ }).emotes);
            assert(b@.extra_tags =~= (TagsView { reply_parent_msg_id: value@, ..self@ }).extra_tags);
        }
        b
    }

    pub fn target_user_id(self, value: &str) -> (r: Self)
        ensures
            r@ == (TagsView { target_user_id: value@, ..self@ }),
    {
        let mut b = self;
        b.tags.target_user_id = String::from_str(value);
        proof {
            assert(b@.emotes =~= (TagsView { target_user_id: value@, ..self@ }).emotes);
            assert(b@.extra_tags =~= (TagsView { target_user_id: value@, ..self@ }).extra_tags);
        }
        b
    }

    pub fn message_id(self, value: &str) -> (r: Self)
        ensures
            r@ == (TagsView { message_id: value@, ..self@ }),
    {
        let mut b = self;
        b.tags.message_id = String::from_str(value);
        proof {
            assert(b@.emotes =~= (TagsView { message_id: value@, ..self@ }).emotes);
            assert(b@.extra_tags =~= (TagsView { message_id: value@, ..self@ }).extra_tags);
        }
        b
    }

    pub fn ban_duration(self, value: usize) -> (r: Self)
        ensures
            r@ == (TagsView { ban_duration: value, ..self@ }),
    {
        let mut b = self;
        b.tags.ban_duration = value;
        proof {
            assert(b@.emotes =~= (TagsView { ban_duration: value, ..self@ }).emotes);
            assert(b@.extra_tags =~= (TagsView { ban_duration: value, ..self@ }).extra_tags);
        }
        b
    }

    pub fn login(self, value: &str) -> (r: Self)
        ensures
            r@ == (TagsView { login: value@, ..self@ }),
    {
        let mut b = self;
        b.tags.login = String::from_str(value);
        proof {
            assert(b@.emotes =~= (TagsView { login: value@, ..self@ }).emotes);
            assert(b@.extra_tags =~= (TagsView { login: value@, ..self@ }).extra_tags);
        }
        b
    }

    pub fn target_message_id(self, value: &str) -> (r: Self)
        ensures
            r@ == (TagsView { target_message_id: value@, ..self@ }),
    {
        let mut b = self;
        b.tags.target_message_id = String::from_str(value);
        proof {
            assert(b@.emotes =~= (TagsView { target_message_id: value@, ..self@ }).emotes);
            assert(b@.extra_tags =~= (TagsView { target_message_id: value@, ..self@ }).extra_tags);
        }
        b
    }

    pub fn emote_sets(self, value: Vec<usize>) -> (r: Self)
        ensures
            r@ == (TagsView { emote_sets: value@, ..self@ }),
    {
        let mut b = self;
        b.tags.emote_sets = value;
        proof {
            assert(b@.emotes =~= (TagsView { emote_sets: value@, ..self@ }).emotes);
            assert(b@.extra_tags =~= (TagsView { emote_sets: value@, ..self@ }).extra_tags);
        }
        b
    }

    pub fn followers_only(self, value: bool) -> (r: Self)
        ensures
            r@ == (TagsView { followers_only: value, ..self@ }),
    {
        let mut b = self;
        b.tags.followers_only = value;
        proof {
            assert(b@.emotes =~= (TagsView { followers_only: value, ..self@ }).emotes);
            assert(b@.extra_tags =~= (TagsView { followers_only: value, ..self@ }).extra_tags);
        }
        b
    }

    pub fn r9k(self, value: bool) -> (r: Self)
        ensures
            r@ == (TagsView { r9k: value, ..self@ }),
    {
        let mut b = self;
        b.tags.r9k = value;
        proof {
            assert(b@.emotes =~= (TagsView { r9k: value, ..self@ }).emotes);
            assert(b@.extra_tags =~= (TagsView { r9k: value, ..self@ }).extra_tags);
        }
        b
    }

    pub fn slow(self, value: usize) -> (r: Self)
        ensures
            r@ == (TagsView { slow: value, ..self@ }),
    {
        let mut b = self;
        b.tags.slow = value;
        proof {
            assert(b@.emotes =~= (TagsView { slow: value, ..self@ }).emotes);
            assert(b@.extra_tags =~= (TagsView { slow: value, ..self@ }).extra_tags);
        }
        b
    }

    pub fn subs_only(self, value: bool) -> (r: Self)
        ensures
            r@ == (TagsView { subs_only: value, ..self@ }),
    {
        let mut b = self;
        b.tags.subs_only = value;
        proof {
            assert(b@.emotes =~= (TagsView { subs_only: value, ..self@ }).emotes);
            assert(b@.extra_tags =~= (TagsView { subs_only: value, ..self@ }).extra_tags);
        }
        b
    }

    /// Replaces every extra tag by `value`.
    pub fn extra_tags(self, value: Vec<(String, String)>) -> (r: Self)
        ensures
            r@ == (TagsView { extra_tags: extra_view(value@), ..self@ }),
    {
        let mut b = self;
        b.tags.extra_tags = value;
        proof {
            assert(b@.emotes =~= self@.emotes);
        }
        b
    }

    /// Sets the extra tag `key` to `value`, in place when the key is already there.
    pub fn extra_tag(self, key: &str, value: &str) -> (r: Self)
        ensures
            r@ == (TagsView { extra_tags: with_extra(self@.extra_tags, key@, value@), ..self@ }),
    {
        let mut b = self;
        let entry = (String::from_str(key), String::from_str(value));
        match find_key(&b.tags.extra_tags, key) {
            Some(i) => {
                b.tags.extra_tags.set(i, entry);
            },
            None => {
                b.tags.extra_tags.push(entry);
            },
        }
        proof {
            assert(b@.emotes =~= self@.emotes);
            assert(b@.extra_tags =~= with_extra(self@.extra_tags, key@, value@));
        }
        b
    }

    pub fn build(self) -> (r: Tags)
        ensures
            r@ == self@,
    {
        self.tags
    }
}

/// An emote: its code, and the first and last character positions it covers
/// in the message text. The positions are not checked against the text.
#[derive(Clone, Eq, PartialEq, Debug)]
pub struct Emote {
    emote_code: String,
    start_position: usize,
    end_position: usize,
}

pub struct EmoteView {
    pub code: Seq<char>,
    pub start: usize,
    pub end: usize,
}

impl View for Emote {
    type V = EmoteView;

    closed spec fn view(&self) -> EmoteView {
        EmoteView { code: self.emote_code@, start: self.start_position, end: self.end_position }
    }
}

impl Emote {
    pub fn new(emote_code: &str, start_position: usize, end_position: usize) -> (r: Self)
        ensures
            r@ == (EmoteView { code: emote_code@, start: start_position, end: end_position }),
    {
        Emote { emote_code: String::from_str(emote_code), start_position, end_position }
    }

    pub fn emote_code(&self) -> (r: &String)
        ensures
            r@ == self@.code,
    {
        &self.emote_code
    }

    pub fn start_position(&self) -> (r: usize)
        ensures
            r == self@.start,
    {
        self.start_position
    }

    pub fn end_position(&self) -> (r: usize)
        ensures
            r == self@.end,
    {
        self.end_position
    }
}

/// A line's command: its kind, and the field that follows it. For a line with
/// a source the field holds the source's nick, whatever the command.
#[derive(PartialEq, Eq, Debug, Clone)]
pub struct Command {
    command: CommandType,
    channel: String,
}

pub struct CommandView {
    pub kind: CommandKind,
    pub channel: Seq<char>,
}

impl View for Command {
    type V = CommandView;

    closed spec fn view(&self) -> CommandView {
        CommandView { kind: self.command@, channel: self.channel@ }
    }
}

impl Command {
    pub fn new(command: CommandType, channel: &str) -> (r: Self)
        ensures
            r@ == (CommandView { kind: command@, channel: channel@ }),
    {
        Command { command, channel: String::from_str(channel) }
    }

    pub fn command(&self) -> (r: &CommandType)
        ensures
            r@ == self@.kind,
    {
        &self.command
    }

    pub fn channel(&self) -> (r: &String)
        ensures
            r@ == self@.channel,
    {
        &self.channel
    }
}

/// The kinds of command; a verb outside the table is kept as `Numeric` when it
/// reads as a 16-bit number, else as `Unknown` with its text.
#[derive(PartialEq, Eq, Debug, Clone)]
pub enum CommandType {
    PrivMSG,
    Part,
    Join,
    Notice,
    ClearChat,
    HostTarget,
    ClearMessage,
    Ping,
    Cap,
    GlobalUserState,
    UserState,
    RoomState,
    Reconnect,
    Numeric(u16),
    Unknown(String),
}

pub enum CommandKind {
    PrivMSG,
    Part,
    Join,
    Notice,
    ClearChat,
    HostTarget,
    ClearMessage,
    Ping,
    Cap,
    GlobalUserState,
    UserState,
    RoomState,
    Reconnect,
    Numeric(u16),
    Unknown(Seq<char>),
}

impl View for CommandType {
    type V = CommandKind;

    open spec fn view(&self) -> CommandKind {
        match self {
            CommandType::PrivMSG => CommandKind::PrivMSG,
            CommandType::Part => CommandKind::Part,
            CommandType::Join => CommandKind::Join,
            CommandType::Notice => CommandKind::Notice,
            CommandType::ClearChat => CommandKind::ClearChat,
            CommandType::HostTarget => CommandKind::HostTarget,
            CommandType::ClearMessage => CommandKind::ClearMessage,
            CommandType::Ping => CommandKind::Ping,
            CommandType::Cap => CommandKind::Cap,
            CommandType::GlobalUserState => CommandKind::GlobalUserState,
            CommandType::UserState => CommandKind::UserState,
            CommandType::RoomState => CommandKind::RoomState,
            CommandType::Reconnect => CommandKind::Reconnect,
            CommandType::Numeric(n) => CommandKind::Numeric(*n),
            CommandType::Unknown(s) => CommandKind::Unknown(s@),
        }
    }
}

/// The kind of command that a verb names.
pub open spec fn command_kind_of(verb: Seq<char>) -> CommandKind {
    if verb == "PRIVMSG"@ {
        CommandKind::PrivMSG
    } else if verb == "PART"@ {
        CommandKind::Part
    } else if verb == "NOTICE"@ {
        CommandKind::Notice
    } else if verb == "CLEARCHAT"@ {
        CommandKind::ClearChat
    } else if verb == "HOSTTARGET"@ {
        CommandKind::HostTarget
    } else if verb == "PING"@ {
        CommandKind::Ping
    } else if verb == "CAP"@ {
        CommandKind::Cap
    } else if verb == "GLOBALUSERSTATE"@ {
        CommandKind::GlobalUserState
    } else if verb == "USERSTATE"@ {
        CommandKind::UserState
    } else if verb == "ROOMSTATE"@ {
        CommandKind::RoomState
    } else if verb == "RECONNECT"@ {
        CommandKind::Reconnect
    } else if verb == "CLEARMSG"@ {
        CommandKind::ClearMessage
    } else if verb == "JOIN"@ {
        CommandKind::Join
    } else {
        match parse_unsigned(verb, 65535) {
            Some(n) => CommandKind::Numeric(n as u16),
            None => CommandKind::Unknown(verb),
        }
    }
}

impl CommandType {
    /// The kind of command that `value` names.
    pub fn from(value: &str) -> (r: CommandType)
        ensures
            r@ == command_kind_of(value@),
    {
        let chars = to_chars(value);
        let n = chars.len();
        proof {
            assert(chars@.subrange(0, n as int) =~= value@);
        }
        if text_is(&chars, 0, n, "PRIVMSG") {
            CommandType::PrivMSG
        } else if text_is(&chars, 0, n, "PART") {
            CommandType::Part
        } else if text_is(&chars, 0, n, "NOTICE") {
            CommandType::Notice
        } else if text_is(&chars, 0, n, "CLEARCHAT") {
            CommandType::ClearChat
        } else if text_is(&chars, 0, n, "HOSTTARGET") {
            CommandType::HostTarget
        } else if text_is(&chars, 0, n, "PING") {
            CommandType::Ping
        } else if text_is(&chars, 0, n, "CAP") {
            CommandType::Cap
        } else if text_is(&chars, 0, n, "GLOBALUSERSTATE") {
            CommandType::GlobalUserState
        } else if text_is(&chars, 0, n, "USERSTATE") {
            CommandType::UserState
        } else if text_is(&chars, 0, n, "ROOMSTATE") {
            CommandType::RoomState
        } else if text_is(&chars, 0, n, "RECONNECT") {
            CommandType::Reconnect
        } else if text_is(&chars, 0, n, "CLEARMSG") {
            CommandType::ClearMessage
        } else if text_is(&chars, 0, n, "JOIN") {
            CommandType::Join
        } else {
            match parse_decimal(&chars, 0, n, 65535) {
                Some(v) => CommandType::Numeric(v as u16),
                None => CommandType::Unknown(String::from_str(value)),
            }
        }
    }
}

/// The badges a user holds, each with its version; an absent badge is not held.
#[derive(Clone, PartialEq, Eq, Debug)]
pub struct Badge {
    admin: Option<String>,
    bits: Option<String>,
    broadcaster: Option<String>,
    moderator: Option<String>,
    subscriber: Option<String>,
    staff: Option<String>,
    turbo: Option<String>,
}

pub struct BadgeView {
    pub admin: Option<Seq<char>>,
    pub bits: Option<Seq<char>>,
    pub broadcaster: Option<Seq<char>>,
    pub moderator: Option<Seq<char>>,
    pub subscriber: Option<Seq<char>>,
    pub staff: Option<Seq<char>>,
    pub turbo: Option<Seq<char>>,
}

impl BadgeView {
    /// No badge held.
    pub open spec fn none() -> BadgeView {
        BadgeView {
            admin: None,
            bits: None,
            broadcaster: None,
            moderator: None,
            subscriber: None,
            staff: None,
            turbo: None,
        }
    }
}

impl View for Badge {
    type V = BadgeView;

    closed spec fn view(&self) -> BadgeView {
        BadgeView {
            admin: opt_text(self.admin),
            bits: opt_text(self.bits),
            broadcaster: opt_text(self.broadcaster),
            moderator: opt_text(self.moderator),
            subscriber: opt_text(self.subscriber),
            staff: opt_text(self.staff),
            turbo: opt_text(self.turbo),
        }
    }
}

impl Default for Badge {
    fn default() -> (r: Self)
        ensures
            r@ == BadgeView::none(),
    {
        Badge {
            admin: None,
            bits: None,
            broadcaster: None,
            moderator: None,
            subscriber: None,
            staff: None,
            turbo: None,
        }
    }
}

impl Badge {
    pub fn admin(&self) -> (r: &Option<String>)
        ensures
            opt_text(*r) == self@.admin,
    {
        &self.admin
    }

    pub fn set_admin(&mut self, admin: String)
        ensures
            final(self)@ == (BadgeView { admin: Some(admin@), ..old(self)@ }),
    {
        self.admin = Some(admin);
    }

    pub fn bits(&self) -> (r: &Option<String>)
        ensures
            opt_text(*r) == self@.bits,
    {
        &self.bits
    }

    pub fn set_bits(&mut self, bits: String)
        ensures
            final(self)@ == (BadgeView { bits: Some(bits@), ..old(self)@ }),
    {
        self.bits = Some(bits);
    }

    pub fn broadcaster(&self) -> (r: &Option<String>)
        ensures
            opt_text(*r) == self@.broadcaster,
    {
        &self.broadcaster
    }

    pub fn set_broadcaster(&mut self, broadcaster: String)
        ensures
            final(self)@ == (BadgeView { broadcaster: Some(broadcaster@), ..old(self)@ }),
    {
        self.broadcaster = Some(broadcaster);
    }

    pub fn moderator(&self) -> (r: &Option<String>)
        ensures
            opt_text(*r) == self@.moderator,
    {
        &self.moderator
    }

    pub fn set_moderator(&mut self, moderator: String)
        ensures
            final(self)@ == (BadgeView { moderator: Some(moderator@), ..old(self)@ }),
    {
        self.moderator = Some(moderator);
    }

    pub fn subscriber(&self) -> (r: &Option<String>)
        ensures
            opt_text(*r) == self@.subscriber,
    {
        &self.subscriber
    }

    pub fn set_subscriber(&mut self, subscriber: String)
        ensures
            final(self)@ == (BadgeView { subscriber: Some(subscriber@), ..old(self)@ }),
    {
        self.subscriber = Some(subscriber);
    }

    pub fn staff(&self) -> (r: &Option<String>)
        ensures
            opt_text(*r) == self@.staff,
    {
        &self.staff
    }

    pub fn set_staff(&mut self, staff: String)
        ensures
            final(self)@ == (BadgeView { staff: Some(staff@), ..old(self)@ }),
    {
        self.staff = Some(staff);
    }

    pub fn turbo(&self) -> (r: &Option<String>)
        ensures
            opt_text(*r) == self@.turbo,
    {
        &self.turbo
    }

    pub fn set_turbo(&mut self, turbo: String)
        ensures
            final(self)@ == (BadgeView { turbo: Some(turbo@), ..old(self)@ }),
    {
        self.turbo = Some(turbo);
    }

}

/// Who sent a line: the nick and host of `nick!user@host`, or a bare server
/// host with an empty nick.
#[derive(PartialEq, Eq, Debug, Clone)]
pub struct Source {
    nick: String,
    host: String,
}

pub struct SourceView {
    pub nick: Seq<char>,
    pub host: Seq<char>,
}

impl View for Source {
    type V = SourceView;

    closed spec fn view(&self) -> SourceView {
        SourceView { nick: self.nick@, host: self.host@ }
    }
}

impl Source {
    pub fn new(nick: &str, host: &str) -> (r: Self)
        ensures
            r@ == (SourceView { nick: nick@, host: host@ }),
    {
        Source { nick: String::from_str(nick), host: String::from_str(host) }
    }

    pub fn nick(&self) -> (r: String)
        ensures
            r@ == self@.nick,
    {
        self.nick.clone()
    }

    pub fn host(&self) -> (r: String)
        ensures
            r@ == self@.host,
    {
        self.host.clone()
    }
}

} // verus!
