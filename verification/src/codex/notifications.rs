//! Notifications of the Codex server, and which turn they belong to.
use vstd::prelude::*;

use crate::codex::items::{
    agent_key, agent_message_key, live_text_item_key_from_value, value_text_key,
};
use crate::json::{object_entries, object_text, text_at, value_view, JsonView};
use crate::text::{opt_view, same_text};

verus! {

/// An item started or completed.
#[derive(Debug)]
pub struct ItemLifecycleNotification {
    pub item: serde_json::Value,
    pub extra: serde_json::Map<String, serde_json::Value>,
}

/// An item grew.
#[derive(Debug)]
pub struct DeltaNotification {
    pub item_id: Option<String>,
}

/// Why a turn failed.
#[derive(Debug)]
pub struct TurnError {
    pub message: String,
}

/// A turn, as the server reports it.
#[derive(Debug)]
pub struct Turn {
    pub id: String,
    pub status: Option<String>,
    pub error: Option<TurnError>,
    pub extra: serde_json::Map<String, serde_json::Value>,
}

/// A turn started or completed.
#[derive(Debug)]
pub struct TurnNotification {
    pub turn: Turn,
}

/// The server reports an error.
#[derive(Debug)]
pub struct ErrorNotification {
    pub error: TurnError,
    pub extra: serde_json::Map<String, serde_json::Value>,
}

/// A notification of the server. `Other` stands for the kinds that tell
/// nothing about turns.
#[derive(Debug)]
pub enum ServerNotification {
    Error(ErrorNotification),
    ThreadTokenUsageUpdated,
    TurnStarted(TurnNotification),
    TurnCompleted(TurnNotification),
    TurnDiffUpdated,
    TurnPlanUpdated,
    ItemStarted(ItemLifecycleNotification),
    ItemCompleted(ItemLifecycleNotification),
    RawResponseItemCompleted,
    ItemAgentMessageDelta(DeltaNotification),
    ItemPlanDelta(DeltaNotification),
    ItemCommandExecutionOutputDelta(DeltaNotification),
    ItemCommandExecutionTerminalInteraction(DeltaNotification),
    ItemFileChangeOutputDelta(DeltaNotification),
    ItemMcpToolCallProgress(DeltaNotification),
    ItemReasoningSummaryTextDelta(DeltaNotification),
    ItemReasoningSummaryPartAdded(DeltaNotification),
    ItemReasoningTextDelta(DeltaNotification),
    ServerRequestResolved,
    Unknown,
    Other,
}

// ---------------------------------------------------------------------------
// Threads and turns
// ---------------------------------------------------------------------------
/// Whether a notification with the entries `extra` names the thread `thread`.
pub open spec fn on_thread(extra: Map<Seq<char>, JsonView>, thread: Seq<char>) -> bool {
    text_at(extra, "threadId"@) == Some(thread)
}

/// Whether a notification with the entries `extra` names the turn `turn` of
/// the thread `thread`.
pub open spec fn on_turn(
    extra: Map<Seq<char>, JsonView>,
    thread: Seq<char>,
    turn: Seq<char>,
) -> bool {
    on_thread(extra, thread) && text_at(extra, "turnId"@) == Some(turn)
}

/// Whether `extra` names the thread.
pub fn matches_thread_strict(
    extra: &serde_json::Map<String, serde_json::Value>,
    thread_id: &str,
) -> (yes: bool)
    ensures
        yes == on_thread(object_entries(*extra), thread_id@),
{
    match object_text(extra, "threadId") {
        Some(incoming) => same_text(incoming, thread_id),
        None => false,
    }
}

/// Whether `extra` names both the thread and the turn.
pub fn matches_target_from_extra_strict(
    extra: &serde_json::Map<String, serde_json::Value>,
    thread_id: &str,
    turn_id: &str,
) -> (yes: bool)
    ensures
        yes == on_turn(object_entries(*extra), thread_id@, turn_id@),
{
    if !matches_thread_strict(extra, thread_id) {
        return false;
    }
    match object_text(extra, "turnId") {
        Some(incoming) => same_text(incoming, turn_id),
        None => false,
    }
}

/// What becomes of a notification that arrives before the turn is known.
#[derive(Debug, Clone, Copy, PartialEq, Eq, Structural)]
pub enum NotificationMatch {
    CurrentThreadBuffered,
    Ignore,
}

/// Whether a notification that arrives before the turn is known is kept: it
/// tells of a turn, a completed item or an error of the thread.
pub open spec fn is_kept(notification: ServerNotification, thread: Seq<char>) -> bool {
    match notification {
        ServerNotification::TurnStarted(payload) => on_thread(
            object_entries(payload.turn.extra),
            thread,
        ),
        ServerNotification::TurnCompleted(payload) => on_thread(
            object_entries(payload.turn.extra),
            thread,
        ),
        ServerNotification::ItemCompleted(payload) => on_thread(
            object_entries(payload.extra),
            thread,
        ),
        ServerNotification::Error(payload) => on_thread(object_entries(payload.extra), thread),
        _ => false,
    }
}

fn thread_buffer_match(
    extra: &serde_json::Map<String, serde_json::Value>,
    thread_id: &str,
) -> (found: NotificationMatch)
    ensures
        (found is CurrentThreadBuffered) == on_thread(object_entries(*extra), thread_id@),
{
    if matches_thread_strict(extra, thread_id) {
        NotificationMatch::CurrentThreadBuffered
    } else {
        NotificationMatch::Ignore
    }
}

/// Decides on a notification that arrives before the turn is known.
pub fn classify_notification(notification: &ServerNotification, thread_id: &str) -> (found:
    NotificationMatch)
    ensures
        (found is CurrentThreadBuffered) == is_kept(*notification, thread_id@),
{
    match notification {
        ServerNotification::TurnStarted(payload) => thread_buffer_match(
            &payload.turn.extra,
            thread_id,
        ),
        ServerNotification::TurnCompleted(payload) => thread_buffer_match(
            &payload.turn.extra,
            thread_id,
        ),
        ServerNotification::ItemCompleted(payload) => thread_buffer_match(
            &payload.extra,
            thread_id,
        ),
        ServerNotification::Error(payload) => thread_buffer_match(&payload.extra, thread_id),
        _ => NotificationMatch::Ignore,
    }
}

// ---------------------------------------------------------------------------
// Successors
// ---------------------------------------------------------------------------
/// The key of the item that a growing item is taken for.
pub open spec fn delta_key(delta: DeltaNotification) -> Option<Seq<char>> {
    match delta.item_id {
        Some(id) => Some(agent_key(id@)),
        None => None,
    }
}

/// The key of the item that a notification is about. Notifications of no
/// particular item have a key that no item has.
pub open spec fn successor_key(notification: ServerNotification) -> Option<Seq<char>> {
    match notification {
        ServerNotification::ItemStarted(payload) => value_text_key(value_view(payload.item)),
        ServerNotification::ItemCompleted(payload) => value_text_key(value_view(payload.item)),
        ServerNotification::ItemCommandExecutionOutputDelta(payload) => delta_key(payload),
        ServerNotification::ItemCommandExecutionTerminalInteraction(payload) => delta_key(payload),
        ServerNotification::ItemFileChangeOutputDelta(payload) => delta_key(payload),
        ServerNotification::ItemMcpToolCallProgress(payload) => delta_key(payload),
        ServerNotification::ItemReasoningSummaryTextDelta(payload) => delta_key(payload),
        ServerNotification::ItemReasoningSummaryPartAdded(payload) => delta_key(payload),
        ServerNotification::ItemReasoningTextDelta(payload) => delta_key(payload),
        ServerNotification::Other => None,
        _ => Some("__different-successor__"@),
    }
}

fn delta_item_key(delta: &DeltaNotification) -> (key: Option<String>)
    ensures
        opt_view(key) == delta_key(*delta),
{
    match &delta.item_id {
        Some(id) => Some(agent_message_key(id.as_str())),
        None => None,
    }
}

/// The key of the item that a notification is about.
pub fn notification_successor_key(notification: &ServerNotification) -> (key: Option<String>)
    ensures
        opt_view(key) == successor_key(*notification),
{
    match notification {
        ServerNotification::ItemStarted(payload) => live_text_item_key_from_value(&payload.item),
        ServerNotification::ItemCompleted(payload) => live_text_item_key_from_value(&payload.item),
        ServerNotification::ItemCommandExecutionOutputDelta(payload) => delta_item_key(payload),
        ServerNotification::ItemCommandExecutionTerminalInteraction(payload) => delta_item_key(
            payload,
        ),
        ServerNotification::ItemFileChangeOutputDelta(payload) => delta_item_key(payload),
        ServerNotification::ItemMcpToolCallProgress(payload) => delta_item_key(payload),
        ServerNotification::ItemReasoningSummaryTextDelta(payload) => delta_item_key(payload),
        ServerNotification::ItemReasoningSummaryPartAdded(payload) => delta_item_key(payload),
        ServerNotification::ItemReasoningTextDelta(payload) => delta_item_key(payload),
        ServerNotification::Other => None,
        _ => Some("__different-successor__".to_string()),
    }
}

} // verus!
