//! The chat channels: where events come from and where replies go.
use vstd::prelude::*;
use vstd::string::*;

use crate::channels::whatsapp::WhatsAppReplyTarget;
use crate::numbers::{
    decimal_i64, decimal_int, is_digit, lemma_decimal_int_chars, lemma_decimal_int_injective,
};
use crate::text::opt_view;

pub mod delivery;
pub mod whatsapp;

verus! {

/// A kind of channel.
#[derive(Debug, Clone, Copy, PartialEq, Eq, Structural)]
pub enum ChannelKind {
    Telegram,
    WhatsApp,
    Mattermost,
    RocketChat,
}

/// The name of a kind of channel in session keys.
pub open spec fn channel_name(kind: ChannelKind) -> Seq<char> {
    match kind {
        ChannelKind::Telegram => "telegram"@,
        ChannelKind::WhatsApp => "whatsapp"@,
        ChannelKind::Mattermost => "mattermost"@,
        ChannelKind::RocketChat => "rocketchat"@,
    }
}

impl ChannelKind {
    /// The name of the channel in session keys.
    pub fn as_str(self) -> (name: &'static str)
        ensures
            name@ == channel_name(self),
    {
        match self {
            ChannelKind::Telegram => "telegram",
            ChannelKind::WhatsApp => "whatsapp",
            ChannelKind::Mattermost => "mattermost",
            ChannelKind::RocketChat => "rocketchat",
        }
    }
}

/// A Telegram chat, and a thread in it.
#[derive(Debug, Clone, Copy, PartialEq, Eq)]
pub struct TelegramReplyTarget {
    pub chat_id: i64,
    pub thread_id: Option<i64>,
}

/// Where a reply goes.
#[derive(Debug, Clone, PartialEq, Eq)]
pub enum ReplyTarget {
    Telegram(TelegramReplyTarget),
    WhatsApp(WhatsAppReplyTarget),
    Mattermost { account_id: String, conversation_id: String },
    RocketChat { account_id: String, conversation_id: String },
}

impl ReplyTarget {
    /// The thread `thread_id` of the Telegram chat `chat_id`.
    pub fn telegram(chat_id: i64, thread_id: Option<i64>) -> (target: Self)
        ensures
            target == ReplyTarget::Telegram(TelegramReplyTarget { chat_id, thread_id }),
    {
        ReplyTarget::Telegram(TelegramReplyTarget { chat_id, thread_id })
    }
}

/// Where an event came from.
#[derive(Debug, Clone, PartialEq, Eq)]
pub struct EventRoute {
    pub channel: ChannelKind,
    pub account_id: String,
    pub conversation_id: String,
    pub thread_id: Option<String>,
}

/// The session key of a route: its parts with colons between them.
pub open spec fn route_key(
    channel: ChannelKind,
    account_id: Seq<char>,
    conversation_id: Seq<char>,
    thread_id: Option<Seq<char>>,
) -> Seq<char> {
    let root = channel_name(channel) + ":"@ + account_id + ":"@ + conversation_id;
    match thread_id {
        Some(thread) => root + ":"@ + thread,
        None => root,
    }
}

impl EventRoute {
    /// The key of the session that the route belongs to.
    pub fn session_key(&self) -> (key: String)
        ensures
            key@ == route_key(
                self.channel,
                self.account_id@,
                self.conversation_id@,
                opt_view(self.thread_id),
            ),
    {
        let mut key = self.channel.as_str().to_string();
        key.append(":");
        key.append(self.account_id.as_str());
        key.append(":");
        key.append(self.conversation_id.as_str());
        if let Some(thread) = &self.thread_id {
            key.append(":");
            key.append(thread.as_str());
        }
        key
    }
}

/// The session key of a thread of a Telegram chat.
pub open spec fn telegram_key(chat_id: int, thread_id: Option<i64>) -> Seq<char> {
    route_key(
        ChannelKind::Telegram,
        "default"@,
        decimal_int(chat_id),
        match thread_id {
            Some(thread) => Some(decimal_int(thread as int)),
            None => None,
        },
    )
}

/// The session key of a thread of a Telegram chat.
pub fn telegram_session_key(chat_id: i64, thread_id: Option<i64>) -> (key: String)
    ensures
        key@ == telegram_key(chat_id as int, thread_id),
{
    let thread = match thread_id {
        Some(value) => Some(decimal_i64(value)),
        None => None,
    };
    let route = EventRoute {
        channel: ChannelKind::Telegram,
        account_id: "default".to_string(),
        conversation_id: decimal_i64(chat_id),
        thread_id: thread,
    };
    route.session_key()
}

/// Where the first part holds no colon, a text of two parts with a colon between
/// them tells them apart.
proof fn lemma_parts_apart(a: Seq<char>, x: Seq<char>, b: Seq<char>, y: Seq<char>)
    requires
        !a.contains(':'),
        !b.contains(':'),
        a + ":"@ + x == b + ":"@ + y,
    ensures
        a == b,
        x == y,
{
    reveal_strlit(":");
    let s = a + ":"@ + x;
    assert(s[a.len() as int] == ':');
    assert((b + ":"@ + y)[b.len() as int] == ':');
    if a.len() < b.len() {
        assert(b[a.len() as int] == s[a.len() as int]);
        assert(b.contains(b[a.len() as int]));
    } else if b.len() < a.len() {
        assert(a[b.len() as int] == s[b.len() as int]);
        assert(a.contains(a[b.len() as int]));
    }
    assert(a =~= s.take(a.len() as int));
    assert(b =~= s.take(a.len() as int));
    assert(x =~= s.skip(a.len() as int + 1));
    assert(y =~= s.skip(a.len() as int + 1));
}

/// The names of channels hold no colon, and no two are the same.
proof fn lemma_channel_names(a: ChannelKind, b: ChannelKind)
    ensures
        !channel_name(a).contains(':'),
        channel_name(a) == channel_name(b) ==> a == b,
{
    reveal_strlit("telegram");
    reveal_strlit("whatsapp");
    reveal_strlit("mattermost");
    reveal_strlit("rocketchat");
    assert(channel_name(a)[0] == channel_name(b)[0] ==> a == b);
}

/// What follows the account in a session key.
spec fn key_tail(conversation_id: Seq<char>, thread_id: Option<Seq<char>>) -> Seq<char> {
    match thread_id {
        Some(thread) => conversation_id + ":"@ + thread,
        None => conversation_id,
    }
}

proof fn lemma_key_parts(
    channel: ChannelKind,
    account_id: Seq<char>,
    conversation_id: Seq<char>,
    thread_id: Option<Seq<char>>,
)
    ensures
        route_key(channel, account_id, conversation_id, thread_id) == channel_name(channel) + ":"@
            + (account_id + ":"@ + key_tail(conversation_id, thread_id)),
{
    assert(route_key(channel, account_id, conversation_id, thread_id) =~= channel_name(channel)
        + ":"@ + (account_id + ":"@ + key_tail(conversation_id, thread_id)));
}

/// Routes whose account and conversation hold no colon share a session exactly
/// where channel, account, conversation and thread agree.
pub proof fn law_routes_share_no_session(
    channel_a: ChannelKind,
    account_a: Seq<char>,
    conversation_a: Seq<char>,
    thread_a: Option<Seq<char>>,
    channel_b: ChannelKind,
    account_b: Seq<char>,
    conversation_b: Seq<char>,
    thread_b: Option<Seq<char>>,
)
    requires
        !account_a.contains(':'),
        !account_b.contains(':'),
        !conversation_a.contains(':'),
        !conversation_b.contains(':'),
    ensures
        route_key(channel_a, account_a, conversation_a, thread_a) == route_key(
            channel_b,
            account_b,
            conversation_b,
            thread_b,
        ) <==> channel_a == channel_b && account_a == account_b && conversation_a
            == conversation_b && thread_a == thread_b,
{
    if route_key(channel_a, account_a, conversation_a, thread_a) == route_key(
        channel_b,
        account_b,
        conversation_b,
        thread_b,
    ) {
        lemma_key_parts(channel_a, account_a, conversation_a, thread_a);
        lemma_key_parts(channel_b, account_b, conversation_b, thread_b);
        lemma_channel_names(channel_a, channel_b);
        lemma_channel_names(channel_b, channel_a);
        let a = key_tail(conversation_a, thread_a);
        let b = key_tail(conversation_b, thread_b);
        lemma_parts_apart(
            channel_name(channel_a),
            account_a + ":"@ + a,
            channel_name(channel_b),
            account_b + ":"@ + b,
        );
        lemma_parts_apart(account_a, a, account_b, b);
        reveal_strlit(":");
        match (thread_a, thread_b) {
            (Some(s), Some(t)) => {
                lemma_parts_apart(conversation_a, s, conversation_b, t);
            },
            (Some(_), None) => {
                assert(a[conversation_a.len() as int] == ':');
                assert(b.contains(b[conversation_a.len() as int]));
            },
            (None, Some(_)) => {
                assert(b[conversation_b.len() as int] == ':');
                assert(a.contains(a[conversation_b.len() as int]));
            },
            (None, None) => {},
        }
    }
}

proof fn lemma_decimal_has_no_colon(n: int)
    ensures
        !decimal_int(n).contains(':'),
{
    lemma_decimal_int_chars(n);
    assert forall|i: int| 0 <= i < decimal_int(n).len() implies #[trigger] decimal_int(n)[i]
        != ':' by {
        assert(is_digit(decimal_int(n)[i]) || decimal_int(n)[i] == '-');
    }
}

/// Two Telegram messages share a session exactly where they were sent in the
/// same thread of the same chat.
pub proof fn law_telegram_sessions(
    chat_a: int,
    thread_a: Option<i64>,
    chat_b: int,
    thread_b: Option<i64>,
)
    ensures
        telegram_key(chat_a, thread_a) == telegram_key(chat_b, thread_b) <==> chat_a == chat_b
            && thread_a == thread_b,
{
    reveal_strlit("default");
    lemma_decimal_has_no_colon(chat_a);
    lemma_decimal_has_no_colon(chat_b);
    let a = match thread_a {
        Some(thread) => Some(decimal_int(thread as int)),
        None => None,
    };
    let b = match thread_b {
        Some(thread) => Some(decimal_int(thread as int)),
        None => None,
    };
    law_routes_share_no_session(
        ChannelKind::Telegram,
        "default"@,
        decimal_int(chat_a),
        a,
        ChannelKind::Telegram,
        "default"@,
        decimal_int(chat_b),
        b,
    );
    if telegram_key(chat_a, thread_a) == telegram_key(chat_b, thread_b) {
        lemma_decimal_int_injective(chat_a, chat_b);
        if let (Some(s), Some(t)) = (thread_a, thread_b) {
            lemma_decimal_int_injective(s as int, t as int);
        }
    }
}

/// A kind of media.
#[derive(Debug, Clone, Copy, PartialEq, Eq, Structural)]
pub enum MediaKind {
    Photo,
    Document,
    Audio,
    Voice,
}

/// What a turn says to the chat.
#[derive(Debug, Clone, PartialEq, Eq)]
pub enum TurnOutput {
    Markdown { text: String, disable_notification: bool },
    Media {
        kind: MediaKind,
        path: String,
        caption_markdown: Option<String>,
        file_name: Option<String>,
        mime_type: Option<String>,
        disable_notification: bool,
    },
}

/// What a turn says to the chat, as a mathematical value.
#[verifier::ext_equal]
pub enum TurnOutputView {
    Markdown { text: Seq<char>, disable_notification: bool },
    Media {
        kind: MediaKind,
        path: Seq<char>,
        caption_markdown: Option<Seq<char>>,
        file_name: Option<Seq<char>>,
        mime_type: Option<Seq<char>>,
        disable_notification: bool,
    },
}

impl View for TurnOutput {
    type V = TurnOutputView;

    open spec fn view(&self) -> TurnOutputView {
        match *self {
            TurnOutput::Markdown { text, disable_notification } => TurnOutputView::Markdown {
                text: text@,
                disable_notification,
            },
            TurnOutput::Media {
                kind,
                path,
                caption_markdown,
                file_name,
                mime_type,
                disable_notification,
            } => TurnOutputView::Media {
                kind,
                path: path@,
                caption_markdown: opt_view(caption_markdown),
                file_name: opt_view(file_name),
                mime_type: opt_view(mime_type),
                disable_notification,
            },
        }
    }
}

/// The view of a list of outputs.
pub open spec fn outputs_view(outputs: Seq<TurnOutput>) -> Seq<TurnOutputView> {
    Seq::new(outputs.len(), |i: int| outputs[i]@)
}

} // verus!
