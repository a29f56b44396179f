//! The names and small rules that the other parts share.
use vstd::prelude::*;

use crate::channels::{channel_name, ChannelKind, MediaKind};
use crate::codex::items::{agent_key, phase_of, AgentMessagePhase};
use crate::codex::notifications::{is_kept, ServerNotification};
use crate::codex::tools::{kind_label, name_or_path};
use crate::json::{object_entries, text_at};
use crate::paths::path_name;
use crate::service::{meets_plan, steps_view, ServiceStep, ServiceStepView};
use crate::telegram::inbound::{chat_message_of, is_allowed};
use crate::telegram::types::TelegramUpdate;

verus! {

/// Every channel has a name of its own.
pub proof fn law_channel_names(kind: ChannelKind, other: ChannelKind)
    ensures
        kind is Telegram ==> channel_name(kind) == "telegram"@,
        kind is WhatsApp ==> channel_name(kind) == "whatsapp"@,
        kind is Mattermost ==> channel_name(kind) == "mattermost"@,
        kind is RocketChat ==> channel_name(kind) == "rocketchat"@,
        channel_name(kind) == channel_name(other) ==> kind == other,
{
    reveal_strlit("telegram");
    reveal_strlit("whatsapp");
    reveal_strlit("mattermost");
    reveal_strlit("rocketchat");
    if channel_name(kind) == channel_name(other) {
        assert(channel_name(kind)[0] == channel_name(other)[0]);
    }
}

/// The phase of a message goes by its name alone, and only two names are known.
pub proof fn law_phases(name: Seq<char>)
    ensures
        phase_of(name) == AgentMessagePhase::Commentary <==> name == "commentary"@,
        phase_of(name) == AgentMessagePhase::FinalAnswer <==> name == "final_answer"@,
        name != "commentary"@ && name != "final_answer"@ ==> phase_of(name)
            == AgentMessagePhase::Unknown,
{
    reveal_strlit("commentary");
    reveal_strlit("final_answer");
    assert("commentary"@[0] != "final_answer"@[0]);
}

/// Messages of agents are told apart by their ids.
pub proof fn law_agent_keys(id: Seq<char>, other: Seq<char>)
    ensures
        agent_key(id) == "agent:"@ + id,
        agent_key(id) == agent_key(other) ==> id == other,
{
    if agent_key(id) == agent_key(other) {
        let n = "agent:"@.len() as int;
        assert(agent_key(id).skip(n) =~= id);
        assert(agent_key(other).skip(n) =~= other);
    }
}

/// Before the turn is known, the notifications that matter are kept where they
/// speak of the thread: that a turn started or completed, that an item
/// completed, and errors. Nothing else is kept.
pub proof fn law_kept_notifications(notification: ServerNotification, thread: Seq<char>)
    ensures
        match notification {
            ServerNotification::TurnStarted(payload) => is_kept(notification, thread) <==> text_at(
                object_entries(payload.turn.extra),
                "threadId"@,
            ) == Some(thread),
            ServerNotification::TurnCompleted(payload) => is_kept(notification, thread)
                <==> text_at(object_entries(payload.turn.extra), "threadId"@) == Some(thread),
            ServerNotification::ItemCompleted(payload) => is_kept(notification, thread)
                <==> text_at(object_entries(payload.extra), "threadId"@) == Some(thread),
            ServerNotification::Error(payload) => is_kept(notification, thread) <==> text_at(
                object_entries(payload.extra),
                "threadId"@,
            ) == Some(thread),
            _ => !is_kept(notification, thread),
        },
{
}

/// A file is called by its own name, whatever directories lead to it, and by its
/// path where it has none. What kind of file it is has a name, too.
pub proof fn law_file_labels(kind: MediaKind, path: Seq<char>)
    ensures
        kind is Photo ==> kind_label(kind) == "photo"@,
        kind is Document ==> kind_label(kind) == "document"@,
        kind is Audio ==> kind_label(kind) == "audio"@,
        kind is Voice ==> kind_label(kind) == "voice note"@,
        path_name(path) matches Some(name) ==> name_or_path(path) == name,
        path_name(path) is None ==> name_or_path(path) == path,
{
}

/// An update carries its message, or else its edited message.
pub proof fn law_messages_of_updates(update: TelegramUpdate)
    ensures
        update.message is Some ==> chat_message_of(update) == update.message,
        update.message is None ==> chat_message_of(update) == update.edited_message,
{
}

/// Where no users are listed everyone is allowed, else those on the list.
pub proof fn law_allowed_users(allowed: Seq<i64>, id: i64, i: int)
    ensures
        allowed.len() == 0 ==> is_allowed(allowed, id),
        0 <= i < allowed.len() ==> is_allowed(allowed, allowed[i]),
        allowed.len() > 0 && is_allowed(allowed, id) ==> exists|k: int|
            0 <= k < allowed.len() && #[trigger] allowed[k] == id,
{
}

/// A plan is met by the very steps it holds, and a fault by its own message.
pub proof fn law_plans_are_met(
    steps: Vec<ServiceStep>,
    message: String,
    planned: Seq<ServiceStepView>,
    fault: Seq<char>,
)
    ensures
        meets_plan(Ok(steps), Ok(planned)) <==> steps_view(steps@) == planned,
        meets_plan(Err(message), Err(fault)) <==> message@ == fault,
        !meets_plan(Ok(steps), Err(fault)),
        !meets_plan(Err(message), Ok(planned)),
{
}

} // verus!
