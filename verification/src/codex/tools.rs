//! Calls of the tools that Codex is offered.
use vstd::prelude::*;
use vstd::string::*;

use crate::approval::{ApprovalOutcome, OperatorTarget, OutcomeView};
use crate::channels::{MediaKind, TurnOutput, TurnOutputView};
use crate::collections::TextMap;
use crate::json::{
    array_value, bool_value, null_value, object_entries, object_get, object_insert, object_new,
    object_text, object_value, text_at, text_value, value_as_object, value_clone, value_view,
    values_view, JsonView,
};
use crate::paths::{file_name, is_absolute, is_absolute_path, join_path, path_join, path_name};
use crate::text::{opt_view, same_text};

verus! {

/// Why a tool call is refused.
#[derive(Debug, Clone, PartialEq, Eq)]
pub enum ToolCallError {
    InvalidMessage(String),
    PathResolution(String),
    TransportClosed,
}

/// Why a tool call is refused, as a mathematical value.
#[verifier::ext_equal]
pub enum ToolCallErrorView {
    InvalidMessage(Seq<char>),
    PathResolution(Seq<char>),
    TransportClosed,
}

impl View for ToolCallError {
    type V = ToolCallErrorView;

    open spec fn view(&self) -> ToolCallErrorView {
        match *self {
            ToolCallError::InvalidMessage(message) => ToolCallErrorView::InvalidMessage(message@),
            ToolCallError::PathResolution(message) => ToolCallErrorView::PathResolution(message@),
            ToolCallError::TransportClosed => ToolCallErrorView::TransportClosed,
        }
    }
}

// ---------------------------------------------------------------------------
// Envelopes
// ---------------------------------------------------------------------------
/// A tool call: the tool, the turn that calls it, and the arguments.
#[derive(Debug)]
pub struct DynamicToolCallEnvelope {
    pub tool: String,
    pub turn_id: String,
    pub arguments: serde_json::Value,
}

/// `DynamicToolCallEnvelope` as a mathematical value.
#[verifier::ext_equal]
pub struct EnvelopeView {
    pub tool: Seq<char>,
    pub turn_id: Seq<char>,
    pub arguments: JsonView,
}

impl View for DynamicToolCallEnvelope {
    type V = EnvelopeView;

    open spec fn view(&self) -> EnvelopeView {
        EnvelopeView {
            tool: self.tool@,
            turn_id: self.turn_id@,
            arguments: value_view(self.arguments),
        }
    }
}

/// The entries that name the thread and the turn of a call: those under
/// `extra` where that is an object, else the call's own.
pub open spec fn call_scope(entries: Map<Seq<char>, JsonView>) -> Map<Seq<char>, JsonView> {
    if entries.contains_key("extra"@) {
        match entries["extra"@] {
            JsonView::Object(inner) => inner,
            _ => entries,
        }
    } else {
        entries
    }
}

/// The call that the entries describe, or the message of what is missing.
pub open spec fn envelope_of(entries: Map<Seq<char>, JsonView>) -> Result<EnvelopeView, Seq<char>> {
    let scope = call_scope(entries);
    match (text_at(entries, "tool"@), text_at(scope, "threadId"@), text_at(scope, "turnId"@)) {
        (None, _, _) => Err("dynamic tool call missing `tool`"@),
        (_, None, _) => Err("dynamic tool call missing `threadId`"@),
        (_, _, None) => Err("dynamic tool call missing `turnId`"@),
        (Some(tool), Some(_), Some(turn_id)) => Ok(
            EnvelopeView {
                tool,
                turn_id,
                arguments: if entries.contains_key("arguments"@) {
                    entries["arguments"@]
                } else {
                    JsonView::Null
                },
            },
        ),
    }
}

/// Reads a tool call.
pub fn parse_dynamic_tool_call_envelope(
    extra: &serde_json::Map<String, serde_json::Value>,
) -> (envelope: Result<DynamicToolCallEnvelope, ToolCallError>)
    ensures
        match envelope {
            Ok(found) => envelope_of(object_entries(*extra)) == Ok::<EnvelopeView, Seq<char>>(
                found@,
            ),
            Err(error) => error@ matches ToolCallErrorView::InvalidMessage(message) && envelope_of(
                object_entries(*extra),
            ) == Err::<EnvelopeView, Seq<char>>(message),
        },
{
    let tool = match object_text(extra, "tool") {
        Some(tool) => tool.to_string(),
        None => {
            return Err(
                ToolCallError::InvalidMessage("dynamic tool call missing `tool`".to_string()),
            );
        },
    };
    let arguments = match object_get(extra, "arguments") {
        Some(arguments) => value_clone(arguments),
        None => null_value(),
    };
    let scope = match object_get(extra, "extra") {
        Some(value) => match value_as_object(value) {
            Some(inner) => inner,
            None => extra,
        },
        None => extra,
    };
    if object_text(scope, "threadId").is_none() {
        return Err(
            ToolCallError::InvalidMessage("dynamic tool call missing `threadId`".to_string()),
        );
    }
    match object_text(scope, "turnId") {
        Some(turn_id) => Ok(
            DynamicToolCallEnvelope { tool, turn_id: turn_id.to_string(), arguments },
        ),
        None => Err(
            ToolCallError::InvalidMessage("dynamic tool call missing `turnId`".to_string()),
        ),
    }
}

/// A call of a tool that the gateway has.
#[derive(Debug)]
pub enum ToolCall {
    SendMedia(DynamicToolCallEnvelope),
    RequestApproval(DynamicToolCallEnvelope),
}

/// A call of a tool that the gateway has, as a mathematical value.
#[verifier::ext_equal]
pub enum ToolCallView {
    SendMedia(EnvelopeView),
    RequestApproval(EnvelopeView),
}

impl View for ToolCall {
    type V = ToolCallView;

    open spec fn view(&self) -> ToolCallView {
        match *self {
            ToolCall::SendMedia(envelope) => ToolCallView::SendMedia(envelope@),
            ToolCall::RequestApproval(envelope) => ToolCallView::RequestApproval(envelope@),
        }
    }
}

/// The tool that a call is for, or the message of why it is refused.
pub open spec fn routed(entries: Map<Seq<char>, JsonView>) -> Result<ToolCallView, Seq<char>> {
    match envelope_of(entries) {
        Err(message) => Err(message),
        Ok(envelope) => if envelope.tool == "telegram_send_media"@ {
            Ok(ToolCallView::SendMedia(envelope))
        } else if envelope.tool == "telegram_request_approval"@ {
            Ok(ToolCallView::RequestApproval(envelope))
        } else {
            Err("unsupported dynamic tool `"@ + envelope.tool + "`"@)
        },
    }
}

/// Reads a tool call and finds the tool that it is for.
pub fn route_tool_call(extra: &serde_json::Map<String, serde_json::Value>) -> (call: Result<
    ToolCall,
    ToolCallError,
>)
    ensures
        match call {
            Ok(found) => routed(object_entries(*extra)) == Ok::<ToolCallView, Seq<char>>(found@),
            Err(error) => error@ matches ToolCallErrorView::InvalidMessage(message) && routed(
                object_entries(*extra),
            ) == Err::<ToolCallView, Seq<char>>(message),
        },
{
    let envelope = match parse_dynamic_tool_call_envelope(extra) {
        Ok(envelope) => envelope,
        Err(error) => return Err(error),
    };
    if same_text(envelope.tool.as_str(), "telegram_send_media") {
        Ok(ToolCall::SendMedia(envelope))
    } else if same_text(envelope.tool.as_str(), "telegram_request_approval") {
        Ok(ToolCall::RequestApproval(envelope))
    } else {
        let mut message = "unsupported dynamic tool `".to_string();
        message.append(envelope.tool.as_str());
        message.append("`");
        Err(ToolCallError::InvalidMessage(message))
    }
}

// ---------------------------------------------------------------------------
// Turns that may call tools
// ---------------------------------------------------------------------------
/// Where the output of a turn goes, and who is asked for its approvals.
pub struct ActiveTurnContext<S> {
    pub output_sender: S,
    pub operator_target: OperatorTarget,
}

/// The turns that may call tools.
pub struct DynamicToolRouter<S> {
    turn_contexts: TextMap<ActiveTurnContext<S>>,
}

impl<S> View for DynamicToolRouter<S> {
    type V = Map<Seq<char>, ActiveTurnContext<S>>;

    closed spec fn view(&self) -> Map<Seq<char>, ActiveTurnContext<S>> {
        self.turn_contexts@
    }
}

impl<S> DynamicToolRouter<S> {
    /// No turn may call tools.
    pub fn new() -> (router: Self)
        ensures
            router@ == Map::<Seq<char>, ActiveTurnContext<S>>::empty(),
    {
        DynamicToolRouter { turn_contexts: TextMap::new() }
    }

    /// The turn `turn_id` may call tools.
    pub fn register_turn(&mut self, turn_id: &str, sender: S, operator_target: OperatorTarget)
        ensures
            final(self)@ == old(self)@.insert(
                turn_id@,
                (ActiveTurnContext { output_sender: sender, operator_target }),
            ),
    {
        self.turn_contexts.insert(
            turn_id.to_string(),
            ActiveTurnContext { output_sender: sender, operator_target },
        );
    }

    /// The turn `turn_id` may no longer call tools.
    pub fn unregister_turn(&mut self, turn_id: &str)
        ensures
            final(self)@ == old(self)@.remove(turn_id@),
    {
        self.turn_contexts.remove(turn_id);
    }

    /// Where the output of the turn `turn_id` goes.
    pub fn output_sender(&self, turn_id: &str) -> (sender: Result<&S, ToolCallError>)
        ensures
            match sender {
                Ok(found) => self@.contains_key(turn_id@) && *found
                    == self@[turn_id@].output_sender,
                Err(error) => !self@.contains_key(turn_id@) && error@
                    == ToolCallErrorView::InvalidMessage(
                    "no active Telegram sink for turn "@ + turn_id@,
                ),
            },
    {
        match self.turn_contexts.get(turn_id) {
            Some(context) => Ok(&context.output_sender),
            None => {
                let mut message = "no active Telegram sink for turn ".to_string();
                message.append(turn_id);
                Err(ToolCallError::InvalidMessage(message))
            },
        }
    }

    /// Who is asked for an approval of the turn `turn_id`: the operator of the
    /// turn, unless the call names another chat or thread.
    pub fn approval_target(&self, turn_id: &str, arguments: &TelegramRequestApprovalArgs) -> (target:
        Result<OperatorTarget, ToolCallError>)
        ensures
            match target {
                Ok(found) => self@.contains_key(turn_id@) && found == overridden_target(
                    self@[turn_id@].operator_target,
                    *arguments,
                ),
                Err(error) => !self@.contains_key(turn_id@) && error@
                    == ToolCallErrorView::InvalidMessage("no operator target for turn "@ + turn_id@),
            },
    {
        match self.turn_contexts.get(turn_id) {
            Some(context) => {
                let chat_id = match arguments.operator_chat_id {
                    Some(chat_id) => chat_id,
                    None => context.operator_target.chat_id,
                };
                let thread_id = match arguments.operator_thread_id {
                    Some(thread_id) => Some(thread_id),
                    None => context.operator_target.thread_id,
                };
                Ok(OperatorTarget { chat_id, thread_id })
            },
            None => {
                let mut message = "no operator target for turn ".to_string();
                message.append(turn_id);
                Err(ToolCallError::InvalidMessage(message))
            },
        }
    }
}

// ---------------------------------------------------------------------------
// Replies
// ---------------------------------------------------------------------------
/// The text that a call gives back to the agent.
pub open spec fn reply_content(text: Seq<char>) -> JsonView {
    JsonView::Array(
        seq![
            JsonView::Object(
                map!["type"@ => JsonView::Text("inputText"@), "text"@ => JsonView::Text(text)],
            ),
        ],
    )
}

fn content_value(text: &str) -> (value: serde_json::Value)
    ensures
        value_view(value) == reply_content(text@),
{
    let mut item = object_new();
    object_insert(&mut item, "type", text_value("inputText"));
    object_insert(&mut item, "text", text_value(text));
    let item_value = object_value(item);
    let mut items: Vec<serde_json::Value> = Vec::new();
    items.push(item_value);
    assert(values_view(items@) =~= seq![value_view(item_value)]);
    array_value(items)
}

/// The name of a kind of media in sentences.
pub open spec fn kind_label(kind: MediaKind) -> Seq<char> {
    match kind {
        MediaKind::Photo => "photo"@,
        MediaKind::Document => "document"@,
        MediaKind::Audio => "audio"@,
        MediaKind::Voice => "voice note"@,
    }
}

/// The name of a kind of media in sentences.
pub fn media_kind_label(kind: MediaKind) -> (label: &'static str)
    ensures
        label@ == kind_label(kind),
{
    match kind {
        MediaKind::Photo => "photo",
        MediaKind::Document => "document",
        MediaKind::Audio => "audio",
        MediaKind::Voice => "voice note",
    }
}

/// The name of a file, or its path where that has none.
pub open spec fn name_or_path(path: Seq<char>) -> Seq<char> {
    match path_name(path) {
        Some(name) => name,
        None => path,
    }
}

/// The name of a file, or its path where that has none.
pub fn file_name_or_path(path: &str) -> (name: String)
    ensures
        name@ == name_or_path(path@),
{
    match file_name(path) {
        Some(name) => name,
        None => path.to_string(),
    }
}

// ---------------------------------------------------------------------------
// Sending media
// ---------------------------------------------------------------------------
/// The arguments of the tool that sends media.
#[derive(Debug, Clone, PartialEq, Eq)]
pub struct TelegramSendMediaArgs {
    pub path: String,
    pub kind: MediaKind,
    pub caption_markdown: Option<String>,
    pub file_name: Option<String>,
    pub mime_type: Option<String>,
    pub disable_notification: Option<bool>,
}

/// What is done after a file was looked up at the path that a call gives.
#[derive(Debug, Clone, PartialEq, Eq)]
pub enum ResolveStep {
    /// The file is there: this is its real path.
    Found(String),
    /// The file is looked up here instead, and that answer counts.
    LookUp(String),
    /// There is no such file.
    Fail(String),
}

/// `ResolveStep` as a mathematical value.
#[verifier::ext_equal]
pub enum ResolveStepView {
    Found(Seq<char>),
    LookUp(Seq<char>),
    Fail(Seq<char>),
}

impl View for ResolveStep {
    type V = ResolveStepView;

    open spec fn view(&self) -> ResolveStepView {
        match *self {
            ResolveStep::Found(path) => ResolveStepView::Found(path@),
            ResolveStep::LookUp(path) => ResolveStepView::LookUp(path@),
            ResolveStep::Fail(message) => ResolveStepView::Fail(message@),
        }
    }
}

/// What is done after the file at `raw_path` was looked up, with the real path
/// or the error `first`. A relative path is looked up in the working directory
/// next, an absolute one nowhere else.
pub open spec fn resolve_step_of(
    working_directory: Seq<char>,
    raw_path: Seq<char>,
    first: Result<String, String>,
) -> ResolveStepView {
    match first {
        Ok(path) => ResolveStepView::Found(path@),
        Err(message) => if is_absolute_path(raw_path) {
            ResolveStepView::Fail(message@)
        } else {
            ResolveStepView::LookUp(path_join(working_directory, raw_path))
        },
    }
}

/// What is done after the file at `raw_path` was looked up.
pub fn resolve_step(
    working_directory: &str,
    raw_path: &str,
    first: Result<String, String>,
) -> (step: ResolveStep)
    ensures
        step@ == resolve_step_of(working_directory@, raw_path@, first),
{
    match first {
        Ok(path) => ResolveStep::Found(path),
        Err(message) => if is_absolute(raw_path) {
            ResolveStep::Fail(message)
        } else {
            ResolveStep::LookUp(join_path(working_directory, raw_path))
        },
    }
}

/// The output that a call asks for, with the file at `path`.
pub open spec fn media_output_of(arguments: TelegramSendMediaArgs, path: Seq<char>) -> TurnOutputView {
    TurnOutputView::Media {
        kind: arguments.kind,
        path,
        caption_markdown: opt_view(arguments.caption_markdown),
        file_name: opt_view(arguments.file_name),
        mime_type: opt_view(arguments.mime_type),
        disable_notification: arguments.disable_notification == Some(true),
    }
}

/// The name under which a call's file is spoken of.
pub open spec fn display_name_of(arguments: TelegramSendMediaArgs) -> Seq<char> {
    match arguments.file_name {
        Some(name) => name@,
        None => name_or_path(arguments.path@),
    }
}

/// The reply to a call whose output was queued.
pub open spec fn media_reply_of(arguments: TelegramSendMediaArgs) -> Map<Seq<char>, JsonView> {
    map![
        "success"@ => JsonView::Bool(true),
        "contentItems"@ => reply_content(
            "Queued Telegram "@ + kind_label(arguments.kind) + " upload for "@ + display_name_of(
                arguments,
            ) + "."@,
        ),
    ]
}

/// The output that a call asks for, and where it goes, once its file was
/// looked for. A file that was not found is reported before a turn that is not
/// active.
pub fn media_delivery<'a, S>(
    router: &'a DynamicToolRouter<S>,
    turn_id: &str,
    arguments: &TelegramSendMediaArgs,
    resolved: Result<String, String>,
) -> (delivery: Result<(&'a S, TurnOutput), ToolCallError>)
    ensures
        match (resolved, delivery) {
            (Err(message), Err(error)) => error@ == ToolCallErrorView::PathResolution(message@),
            (Ok(_), Err(error)) => !router@.contains_key(turn_id@) && error@
                == ToolCallErrorView::InvalidMessage(
                "no active Telegram sink for turn "@ + turn_id@,
            ),
            (Ok(path), Ok((sender, output))) => {
                &&& router@.contains_key(turn_id@)
                &&& *sender == router@[turn_id@].output_sender
                &&& output@ == media_output_of(*arguments, path@)
            },
            (Err(_), Ok(_)) => false,
        },
{
    let path = match resolved {
        Ok(path) => path,
        Err(message) => return Err(ToolCallError::PathResolution(message)),
    };
    let caption_markdown = match &arguments.caption_markdown {
        Some(caption) => Some(caption.clone()),
        None => None,
    };
    let name = match &arguments.file_name {
        Some(name) => Some(name.clone()),
        None => None,
    };
    let mime_type = match &arguments.mime_type {
        Some(mime) => Some(mime.clone()),
        None => None,
    };
    let disable_notification = match arguments.disable_notification {
        Some(value) => value,
        None => false,
    };
    let output = TurnOutput::Media {
        kind: arguments.kind,
        path,
        caption_markdown,
        file_name: name,
        mime_type,
        disable_notification,
    };
    match router.output_sender(turn_id) {
        Ok(sender) => Ok((sender, output)),
        Err(error) => Err(error),
    }
}

/// The reply to a call, once its output was handed over or could not be.
pub fn media_reply(arguments: &TelegramSendMediaArgs, queued: bool) -> (reply: Result<
    serde_json::Map<String, serde_json::Value>,
    ToolCallError,
>)
    ensures
        match reply {
            Ok(found) => queued && object_entries(found) == media_reply_of(*arguments),
            Err(error) => !queued && error@ == ToolCallErrorView::TransportClosed,
        },
{
    if !queued {
        return Err(ToolCallError::TransportClosed);
    }
    let name = match &arguments.file_name {
        Some(name) => name.clone(),
        None => file_name_or_path(arguments.path.as_str()),
    };
    let mut text = "Queued Telegram ".to_string();
    text.append(media_kind_label(arguments.kind));
    text.append(" upload for ");
    text.append(name.as_str());
    text.append(".");
    let mut reply = object_new();
    object_insert(&mut reply, "success", bool_value(true));
    object_insert(&mut reply, "contentItems", content_value(text.as_str()));
    Ok(reply)
}

// ---------------------------------------------------------------------------
// Asking for approval
// ---------------------------------------------------------------------------
/// The arguments of the tool that asks for approval.
#[derive(Debug, Clone, PartialEq, Eq)]
pub struct TelegramRequestApprovalArgs {
    pub summary_markdown: String,
    pub proposed_reply: String,
    pub operator_chat_id: Option<i64>,
    pub operator_thread_id: Option<i64>,
}

/// The operator `default`, with what the call names in its place.
pub open spec fn overridden_target(
    default: OperatorTarget,
    arguments: TelegramRequestApprovalArgs,
) -> OperatorTarget {
    OperatorTarget {
        chat_id: match arguments.operator_chat_id {
            Some(chat_id) => chat_id,
            None => default.chat_id,
        },
        thread_id: match arguments.operator_thread_id {
            Some(thread_id) => Some(thread_id),
            None => default.thread_id,
        },
    }
}

/// The name of a decision.
pub open spec fn decision_name(outcome: OutcomeView) -> Seq<char> {
    match outcome {
        OutcomeView::Approved => "approve"@,
        OutcomeView::Denied => "deny"@,
        OutcomeView::Steer(_) => "steer"@,
    }
}

/// What the agent is told of a decision.
pub open spec fn decision_text(outcome: OutcomeView) -> Seq<char> {
    match outcome {
        OutcomeView::Approved => "Operator approved the proposed action."@,
        OutcomeView::Denied =>
            "Operator denied the proposed action. Do not perform it unless they later change their mind."@,
        OutcomeView::Steer(message) =>
            "Operator requested changes before approval. Do not send the previous draft. Revise it with these instructions:\n"@
            + message,
    }
}

/// The reply to a call that asked for approval.
pub open spec fn approval_reply_of(outcome: OutcomeView) -> Map<Seq<char>, JsonView> {
    map![
        "success"@ => JsonView::Bool(true),
        "decision"@ => JsonView::Text(decision_name(outcome)),
        "contentItems"@ => reply_content(decision_text(outcome)),
    ]
}

/// The reply to a call that asked for approval.
pub fn approval_reply(outcome: &ApprovalOutcome) -> (reply: serde_json::Map<
    String,
    serde_json::Value,
>)
    ensures
        object_entries(reply) == approval_reply_of(outcome@),
{
    let (decision, text) = match outcome {
        ApprovalOutcome::Approved => (
            "approve",
            "Operator approved the proposed action.".to_string(),
        ),
        ApprovalOutcome::Denied => (
            "deny",
            "Operator denied the proposed action. Do not perform it unless they later change their mind.".to_string(),
        ),
        ApprovalOutcome::Steer(message) => {
            let mut text = "Operator requested changes before approval. Do not send the previous draft. Revise it with these instructions:\n".to_string();
            text.append(message.as_str());
            ("steer", text)
        },
    };
    let mut reply = object_new();
    object_insert(&mut reply, "success", bool_value(true));
    object_insert(&mut reply, "decision", text_value(decision));
    object_insert(&mut reply, "contentItems", content_value(text.as_str()));
    reply
}

} // verus!
