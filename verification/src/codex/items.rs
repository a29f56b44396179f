//! Items of a Codex thread.
use vstd::prelude::*;
use vstd::slice::slice_subrange;
use vstd::string::*;

use crate::collections::TextMap;
use crate::json::{object_entries, object_text, text_at, value_as_object, value_view, JsonView};
use crate::patterns::text_starts_with;
use crate::text::{chars_of, has_ink, is_blank, opt_view, same_text, string_of};

verus! {

/// The part that an agent message plays in a turn.
#[derive(Debug, Clone, Copy, PartialEq, Eq, Structural)]
pub enum AgentMessagePhase {
    Commentary,
    FinalAnswer,
    Unknown,
}

/// A message of the agent.
#[derive(Debug, Clone, PartialEq, Eq)]
pub struct AgentMessageItem {
    pub id: String,
    pub text: String,
    pub phase: Option<AgentMessagePhase>,
}

/// A plan of the agent.
#[derive(Debug, Clone, PartialEq, Eq)]
pub struct PlanItem {
    pub id: String,
    pub text: String,
}

/// An item of a thread. `Other` stands for the kinds that the gateway does not
/// look into.
#[derive(Debug, Clone, PartialEq, Eq)]
pub enum ThreadItem {
    AgentMessage(AgentMessageItem),
    Plan(PlanItem),
    Other,
}

/// An item of a thread, as a mathematical value.
#[verifier::ext_equal]
pub enum ThreadItemView {
    AgentMessage { id: Seq<char>, text: Seq<char>, phase: Option<AgentMessagePhase> },
    Plan { id: Seq<char>, text: Seq<char> },
    Other,
}

impl View for ThreadItem {
    type V = ThreadItemView;

    open spec fn view(&self) -> ThreadItemView {
        match *self {
            ThreadItem::AgentMessage(message) => ThreadItemView::AgentMessage {
                id: message.id@,
                text: message.text@,
                phase: message.phase,
            },
            ThreadItem::Plan(plan) => ThreadItemView::Plan { id: plan.id@, text: plan.text@ },
            ThreadItem::Other => ThreadItemView::Other,
        }
    }
}

// ---------------------------------------------------------------------------
// Reading items
// ---------------------------------------------------------------------------
/// The phase that the server calls `name`.
pub open spec fn phase_of(name: Seq<char>) -> AgentMessagePhase {
    if name == "commentary"@ {
        AgentMessagePhase::Commentary
    } else if name == "final_answer"@ {
        AgentMessagePhase::FinalAnswer
    } else {
        AgentMessagePhase::Unknown
    }
}

/// The phase that the server calls `value`.
pub fn parse_agent_message_phase_local(value: &str) -> (phase: AgentMessagePhase)
    ensures
        phase == phase_of(value@),
{
    if same_text(value, "commentary") {
        AgentMessagePhase::Commentary
    } else if same_text(value, "final_answer") {
        AgentMessagePhase::FinalAnswer
    } else {
        AgentMessagePhase::Unknown
    }
}

/// The text under `key`, empty where there is none.
pub open spec fn text_or_empty(entries: Map<Seq<char>, JsonView>, key: Seq<char>) -> Seq<char> {
    match text_at(entries, key) {
        Some(text) => text,
        None => seq![],
    }
}

/// The item that a JSON value describes: an agent message or a plan.
pub open spec fn item_of(item: JsonView) -> Option<ThreadItemView> {
    match item {
        JsonView::Object(entries) => {
            let id = text_or_empty(entries, "id"@);
            let text = text_or_empty(entries, "text"@);
            if text_at(entries, "type"@) == Some("agentMessage"@) {
                Some(
                    ThreadItemView::AgentMessage {
                        id,
                        text,
                        phase: match text_at(entries, "phase"@) {
                            Some(name) => Some(phase_of(name)),
                            None => None,
                        },
                    },
                )
            } else if text_at(entries, "type"@) == Some("plan"@) {
                Some(ThreadItemView::Plan { id, text })
            } else {
                None
            }
        },
        _ => None,
    }
}

/// The text under `key`, empty where there is none.
fn text_or_default(object: &serde_json::Map<String, serde_json::Value>, key: &str) -> (text: String)
    ensures
        text@ == text_or_empty(object_entries(*object), key@),
{
    match object_text(object, key) {
        Some(found) => found.to_string(),
        None => String::new(),
    }
}

/// The item that a JSON value describes.
pub fn parse_live_item(item: &serde_json::Value) -> (parsed: Option<ThreadItem>)
    ensures
        match parsed {
            Some(found) => item_of(value_view(*item)) == Some(found@),
            None => item_of(value_view(*item)) is None,
        },
{
    let object = match value_as_object(item) {
        Some(object) => object,
        None => return None,
    };
    let kind = match object_text(object, "type") {
        Some(kind) => kind,
        None => return None,
    };
    if same_text(kind, "agentMessage") {
        let phase = match object_text(object, "phase") {
            Some(name) => Some(parse_agent_message_phase_local(name)),
            None => None,
        };
        Some(
            ThreadItem::AgentMessage(
                AgentMessageItem {
                    id: text_or_default(object, "id"),
                    text: text_or_default(object, "text"),
                    phase,
                },
            ),
        )
    } else if same_text(kind, "plan") {
        Some(
            ThreadItem::Plan(
                PlanItem {
                    id: text_or_default(object, "id"),
                    text: text_or_default(object, "text"),
                },
            ),
        )
    } else {
        None
    }
}

// ---------------------------------------------------------------------------
// What is worth forwarding
// ---------------------------------------------------------------------------
/// Whether an agent message is forwarded: in every phase, unless it is blank.
pub fn should_forward_message(message: &AgentMessageItem) -> (yes: bool)
    ensures
        yes == has_ink(message.text@),
{
    !is_blank(message.text.as_str())
}

/// The key under which an agent message is remembered.
pub open spec fn agent_key(id: Seq<char>) -> Seq<char> {
    "agent:"@ + id
}

/// The key under which an agent message is remembered.
pub fn agent_message_key(id: &str) -> (key: String)
    ensures
        key@ == agent_key(id@),
{
    let mut key = "agent:".to_string();
    key.append(id);
    key
}

/// The key of a completed item that is forwarded.
pub open spec fn text_key(item: ThreadItemView) -> Option<Seq<char>> {
    match item {
        ThreadItemView::AgentMessage { id, text, .. } => if has_ink(text) {
            Some(agent_key(id))
        } else {
            None
        },
        _ => None,
    }
}

/// The key of a completed item that is forwarded.
pub fn live_text_item_key(item: &ThreadItem) -> (key: Option<String>)
    ensures
        opt_view(key) == text_key(item@),
{
    match item {
        ThreadItem::AgentMessage(message) => if should_forward_message(message) {
            Some(agent_message_key(message.id.as_str()))
        } else {
            None
        },
        _ => None,
    }
}

/// The text of a completed item that is forwarded.
pub open spec fn completed_text(item: ThreadItemView) -> Option<Seq<char>> {
    match item {
        ThreadItemView::AgentMessage { text, .. } => if has_ink(text) {
            Some(text)
        } else {
            None
        },
        _ => None,
    }
}

/// The text of a completed item that is forwarded.
pub fn completed_text_from_item(item: &ThreadItem) -> (text: Option<String>)
    ensures
        opt_view(text) == completed_text(item@),
{
    match item {
        ThreadItem::AgentMessage(message) => if should_forward_message(message) {
            Some(message.text.clone())
        } else {
            None
        },
        _ => None,
    }
}

/// Commentary is what the agent says on its way to the answer.
pub open spec fn is_commentary(item: ThreadItemView) -> bool {
    match item {
        ThreadItemView::AgentMessage { phase, .. } => phase == Some(AgentMessagePhase::Commentary),
        _ => false,
    }
}

/// Whether `item` is commentary.
pub fn matches_agent_commentary(item: &ThreadItem) -> (yes: bool)
    ensures
        yes == is_commentary(item@),
{
    match item {
        ThreadItem::AgentMessage(message) => match message.phase {
            Some(AgentMessagePhase::Commentary) => true,
            _ => false,
        },
        _ => false,
    }
}

/// The key of an agent message that a JSON value describes.
pub open spec fn value_text_key(item: JsonView) -> Option<Seq<char>> {
    match item {
        JsonView::Object(entries) => match text_at(entries, "id"@) {
            Some(id) => if text_at(entries, "type"@) == Some("agentMessage"@) {
                Some(agent_key(id))
            } else {
                None
            },
            None => None,
        },
        _ => None,
    }
}

/// The key of an agent message that a JSON value describes.
pub fn live_text_item_key_from_value(item: &serde_json::Value) -> (key: Option<String>)
    ensures
        opt_view(key) == value_text_key(value_view(*item)),
{
    let object = match value_as_object(item) {
        Some(object) => object,
        None => return None,
    };
    let id = match object_text(object, "id") {
        Some(id) => id,
        None => return None,
    };
    let kind = match object_text(object, "type") {
        Some(kind) => kind,
        None => return None,
    };
    if same_text(kind, "agentMessage") {
        Some(agent_message_key(id))
    } else {
        None
    }
}

// ---------------------------------------------------------------------------
// Growing text
// ---------------------------------------------------------------------------
/// What has been sent so far of each item.
pub open spec fn sent_view(sent: Map<Seq<char>, String>) -> Map<Seq<char>, Seq<char>> {
    Map::new(|key: Seq<char>| sent.contains_key(key), |key: Seq<char>| sent[key]@)
}

/// What was sent before under `key`.
pub open spec fn sent_before(sent: Map<Seq<char>, Seq<char>>, key: Seq<char>) -> Seq<char> {
    if sent.contains_key(key) {
        sent[key]
    } else {
        seq![]
    }
}

/// What is new in `text` after `previous`: what follows it where `text`
/// continues it, else the whole text; nothing where that is blank.
pub open spec fn fresh_part(previous: Seq<char>, text: Seq<char>) -> Option<Seq<char>> {
    let part = if previous.len() > 0 && previous.is_prefix_of(text) {
        text.skip(previous.len() as int)
    } else {
        text
    };
    if previous == text || !has_ink(part) {
        None
    } else {
        Some(part)
    }
}

/// The new part of `text`, which is then remembered as sent under `key`.
pub fn next_delta_chunk(
    key: String,
    text: &str,
    should_forward: bool,
    sent_text: &mut TextMap<String>,
) -> (chunk: Option<String>)
    ensures
        should_forward ==> {
            &&& opt_view(chunk) == fresh_part(sent_before(sent_view(old(sent_text)@), key@), text@)
            &&& sent_view(final(sent_text)@) == sent_view(old(sent_text)@).insert(key@, text@)
        },
        !should_forward ==> chunk is None && final(sent_text)@ == old(sent_text)@,
{
    if !should_forward {
        return None;
    }
    let previous = match sent_text.get(key.as_str()) {
        Some(found) => found.clone(),
        None => String::new(),
    };
    let ghost before = sent_text@;
    let ghost name = key@;
    assert(previous@ == sent_before(sent_view(before), name));
    let record = text.to_string();
    sent_text.insert(key, record);
    assert(sent_view(sent_text@) =~= sent_view(before).insert(name, text@));
    if same_text(previous.as_str(), text) {
        return None;
    }
    let old_chars = chars_of(previous.as_str());
    let chars = chars_of(text);
    let part = if old_chars.len() > 0 && text_starts_with(text, previous.as_str()) {
        let rest = slice_subrange(chars.as_slice(), old_chars.len(), chars.len());
        assert(rest@ =~= text@.skip(previous@.len() as int));
        string_of(rest)
    } else {
        text.to_string()
    };
    if is_blank(part.as_str()) {
        None
    } else {
        Some(part)
    }
}

/// The key under which the text of `item` is remembered, and its text, where
/// the item has text to show.
pub open spec fn shown_text(item: ThreadItemView) -> Option<(Seq<char>, Seq<char>)> {
    match item {
        ThreadItemView::AgentMessage { id, text, .. } => if has_ink(text) {
            Some((agent_key(id), text))
        } else {
            None
        },
        ThreadItemView::Plan { id, text } => if has_ink(text) {
            Some(("plan:"@ + id, text))
        } else {
            None
        },
        ThreadItemView::Other => None,
    }
}

/// The new part of the text of `item`.
pub fn next_text_chunk(item: &ThreadItem, sent_text: &mut TextMap<String>) -> (chunk: Option<
    String,
>)
    ensures
        match shown_text(item@) {
            Some((key, text)) => {
                &&& opt_view(chunk) == fresh_part(
                    sent_before(sent_view(old(sent_text)@), key),
                    text,
                )
                &&& sent_view(final(sent_text)@) == sent_view(old(sent_text)@).insert(key, text)
            },
            None => chunk is None && final(sent_text)@ == old(sent_text)@,
        },
{
    match item {
        ThreadItem::AgentMessage(message) => next_delta_chunk(
            agent_message_key(message.id.as_str()),
            message.text.as_str(),
            should_forward_message(message),
            sent_text,
        ),
        ThreadItem::Plan(plan) => {
            let mut key = "plan:".to_string();
            key.append(plan.id.as_str());
            next_delta_chunk(key, plan.text.as_str(), !is_blank(plan.text.as_str()), sent_text)
        },
        ThreadItem::Other => None,
    }
}

} // verus!
