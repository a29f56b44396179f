//! What the gateway does with an update.
use vstd::prelude::*;
use vstd::string::*;

use crate::approval::{
    actions_view, after_update, law_strangers_decide_nothing, ActionView, ApprovalAction,
    ApprovalManager, ApprovalsView, OperatorTarget,
};
use crate::config::AppConfig;
use crate::json::{bool_value, object_insert, object_new, object_value, value_view, JsonView};
use crate::telegram::inbound::{
    is_allowed, is_new_chat_command, message_of, normalize_update, normalized, sender_of,
};
use crate::telegram::types::{
    attachment_view, AttachmentView, DownloadedAttachment, InboundMessage, InboundView,
    TelegramUpdate,
};
use crate::text::same_text;

verus! {

/// What the health check answers.
pub fn health_body() -> (body: serde_json::Value)
    ensures
        value_view(body) == JsonView::Object(map!["ok"@ => JsonView::Bool(true)]),
{
    let mut body = object_new();
    object_insert(&mut body, "ok", bool_value(true));
    object_value(body)
}

// ---------------------------------------------------------------------------
// Webhooks
// ---------------------------------------------------------------------------
/// Whether a webhook was called with the secret.
pub fn knows_secret(config: &AppConfig, secret: &str) -> (yes: bool)
    ensures
        yes == (secret@ == config.telegram.webhook_secret@),
{
    same_text(secret, config.telegram.webhook_secret.as_str())
}

/// What a call of the webhook leads to.
#[derive(Debug)]
pub enum WebhookDecision {
    /// The secret is wrong: there is no such page.
    NotFound,
    /// The call is acknowledged. The update concerns approvals, about which this
    /// is done.
    Approval(Vec<ApprovalAction>),
    /// There is nothing to handle: the call is acknowledged.
    Ignore,
    /// The call is acknowledged, and the message handled.
    Process(InboundMessage),
}

/// `WebhookDecision` as a mathematical value.
#[verifier::ext_equal]
pub enum WebhookView {
    NotFound,
    Approval(Seq<ActionView>),
    Ignore,
    Process(InboundView),
}

impl View for WebhookDecision {
    type V = WebhookView;

    open spec fn view(&self) -> WebhookView {
        match *self {
            WebhookDecision::NotFound => WebhookView::NotFound,
            WebhookDecision::Approval(actions) => WebhookView::Approval(actions_view(actions@)),
            WebhookDecision::Ignore => WebhookView::Ignore,
            WebhookDecision::Process(inbound) => WebhookView::Process(inbound@),
        }
    }
}

/// What a call of the webhook with `secret` and `update` leads to, and the
/// approvals after it. Without the secret nothing happens; an update that
/// concerns approvals is no message for a session.
pub open spec fn webhook_step(
    config: AppConfig,
    approvals: ApprovalsView,
    secret: Seq<char>,
    update: TelegramUpdate,
) -> (ApprovalsView, WebhookView) {
    if secret != config.telegram.webhook_secret@ {
        (approvals, WebhookView::NotFound)
    } else {
        let step = after_update(approvals, update, config.telegram.allowed_user_ids@);
        if step.handled {
            (step.next, WebhookView::Approval(step.actions))
        } else {
            (
                step.next,
                match normalized(update, config.telegram.allowed_user_ids@) {
                    Some(inbound) => WebhookView::Process(inbound),
                    None => WebhookView::Ignore,
                },
            )
        }
    }
}

/// What a call of the webhook leads to.
pub fn telegram_webhook(
    config: &AppConfig,
    approvals: &mut ApprovalManager,
    secret: &str,
    update: &TelegramUpdate,
) -> (decision: WebhookDecision)
    ensures
        (final(approvals)@, decision@) == webhook_step(
            *config,
            old(approvals)@,
            secret@,
            *update,
        ),
{
    if !knows_secret(config, secret) {
        return WebhookDecision::NotFound;
    }
    let allowed = config.telegram.allowed_user_ids.as_slice();
    let reply = approvals.handle_update(update, allowed);
    if reply.handled {
        return WebhookDecision::Approval(reply.actions);
    }
    match normalize_update(update, allowed) {
        Some(inbound) => WebhookDecision::Process(inbound),
        None => WebhookDecision::Ignore,
    }
}

/// A call without the secret changes nothing and leads to nothing.
pub proof fn law_secret_is_needed(
    config: AppConfig,
    approvals: ApprovalsView,
    secret: Seq<char>,
    update: TelegramUpdate,
)
    requires
        secret != config.telegram.webhook_secret@,
    ensures
        webhook_step(config, approvals, secret, update) == (approvals, WebhookView::NotFound),
{
}

/// An update of senders who may not use the bot starts no turn and decides no
/// approval: at most, the button is answered.
pub proof fn law_strangers_start_nothing(
    config: AppConfig,
    approvals: ApprovalsView,
    secret: Seq<char>,
    update: TelegramUpdate,
)
    requires
        update.callback_query matches Some(callback) ==> !is_allowed(
            config.telegram.allowed_user_ids@,
            callback.from.id,
        ),
        message_of(update) matches Some(message) ==> (sender_of(message) matches Some(sender)
            ==> !is_allowed(config.telegram.allowed_user_ids@, sender.0)),
    ensures
        webhook_step(config, approvals, secret, update).0 == approvals,
        webhook_step(config, approvals, secret, update).1 !is Process,
        webhook_step(config, approvals, secret, update).1 matches WebhookView::Approval(actions)
            ==> forall|i: int| 0 <= i < actions.len() ==> #[trigger] actions[i] is Answer,
{
    law_strangers_decide_nothing(approvals, update, config.telegram.allowed_user_ids@);
}

/// Who is asked for approvals of the turns of a message: the configured
/// operator, or else the chat that the message came from.
pub fn operator_target(config: &AppConfig, inbound: &InboundMessage) -> (target: OperatorTarget)
    ensures
        target == match config.operator.telegram {
            Some(operator) => (OperatorTarget {
                chat_id: operator.chat_id,
                thread_id: operator.thread_id,
            }),
            None => (OperatorTarget { chat_id: inbound.chat_id, thread_id: inbound.thread_id }),
        },
{
    match config.operator.telegram {
        Some(operator) => OperatorTarget {
            chat_id: operator.chat_id,
            thread_id: operator.thread_id,
        },
        None => OperatorTarget { chat_id: inbound.chat_id, thread_id: inbound.thread_id },
    }
}

// ---------------------------------------------------------------------------
// Messages
// ---------------------------------------------------------------------------
/// What is done next about a message.
#[derive(Debug)]
pub enum UpdateAction {
    /// The session starts over.
    ResetChat,
    /// The attachment is downloaded, where there is one.
    DownloadAttachment,
    /// The voice message at `path` is transcribed.
    Transcribe { path: String, duration_seconds: Option<u32> },
    /// A turn is run.
    RunTurn(Option<DownloadedAttachment>),
    /// This is said in the chat. Where it cannot be, that is an error.
    Say(String),
    /// This is said in the chat, if it can be.
    TrySay(String),
    /// Nothing more is done.
    Done,
    /// Nothing more is done, and this is reported as an error.
    Fail(String),
}

/// `UpdateAction` as a mathematical value.
#[verifier::ext_equal]
pub enum UpdateActionView {
    ResetChat,
    DownloadAttachment,
    Transcribe { path: Seq<char>, duration_seconds: Option<u32> },
    RunTurn(Option<AttachmentView>),
    Say(Seq<char>),
    TrySay(Seq<char>),
    Done,
    Fail(Seq<char>),
}

impl View for UpdateAction {
    type V = UpdateActionView;

    open spec fn view(&self) -> UpdateActionView {
        match *self {
            UpdateAction::ResetChat => UpdateActionView::ResetChat,
            UpdateAction::DownloadAttachment => UpdateActionView::DownloadAttachment,
            UpdateAction::Transcribe { path, duration_seconds } => UpdateActionView::Transcribe {
                path: path@,
                duration_seconds,
            },
            UpdateAction::RunTurn(attachment) => UpdateActionView::RunTurn(
                attachment_view(attachment),
            ),
            UpdateAction::Say(text) => UpdateActionView::Say(text@),
            UpdateAction::TrySay(text) => UpdateActionView::TrySay(text@),
            UpdateAction::Done => UpdateActionView::Done,
            UpdateAction::Fail(message) => UpdateActionView::Fail(message@),
        }
    }
}

/// An error as it is shown in the chat, under a heading.
pub open spec fn shown_error(heading: Seq<char>, message: Seq<char>) -> Seq<char> {
    heading + ":\n\n```text\n"@ + message + "\n```"@
}

/// An error as it is shown in the chat, under a heading.
fn show_error(heading: &str, message: &str) -> (text: String)
    ensures
        text@ == shown_error(heading@, message@),
{
    let mut text = heading.to_string();
    text.append(":\n\n```text\n");
    text.append(message);
    text.append("\n```");
    text
}

/// What is done with an attachment: a voice message without a transcript is
/// transcribed, unless that is switched off.
pub open spec fn with_attachment(voice_enabled: bool, attachment: Option<AttachmentView>) -> UpdateActionView {
    match attachment {
        Some(AttachmentView::Voice { path, duration_seconds, transcript: None }) =>
            if voice_enabled {
            UpdateActionView::Transcribe { path, duration_seconds }
        } else {
            UpdateActionView::RunTurn(attachment)
        },
        _ => UpdateActionView::RunTurn(attachment),
    }
}

/// What is done with an attachment.
pub fn maybe_transcribe_voice_attachment(
    voice_enabled: bool,
    attachment: Option<DownloadedAttachment>,
) -> (action: UpdateAction)
    ensures
        action@ == with_attachment(voice_enabled, attachment_view(attachment)),
{
    match attachment {
        Some(DownloadedAttachment::Voice { path, duration_seconds, transcript }) => {
            match transcript {
                None => if voice_enabled {
                    UpdateAction::Transcribe { path, duration_seconds }
                } else {
                    UpdateAction::RunTurn(
                        Some(
                            DownloadedAttachment::Voice {
                                path,
                                duration_seconds,
                                transcript: None,
                            },
                        ),
                    )
                },
                Some(text) => UpdateAction::RunTurn(
                    Some(
                        DownloadedAttachment::Voice {
                            path,
                            duration_seconds,
                            transcript: Some(text),
                        },
                    ),
                ),
            }
        },
        other => UpdateAction::RunTurn(other),
    }
}

/// What has happened about a message.
pub enum UpdateEvent {
    /// The message came in.
    Received,
    /// The session was reset, or could not be.
    ChatReset(Result<(), String>),
    /// The attachment was downloaded, or could not be.
    Downloaded(Result<Option<DownloadedAttachment>, String>),
    /// The voice message at `path` was transcribed, or could not be.
    Transcribed { path: String, duration_seconds: Option<u32>, result: Result<String, String> },
    /// The turn is over.
    TurnRun(Result<(), String>),
}

/// What is done about a message after an event.
pub open spec fn update_step(inbound: InboundView, voice_enabled: bool, event: UpdateEvent) -> UpdateActionView {
    match event {
        UpdateEvent::Received => if is_new_chat_command(inbound.text) {
            UpdateActionView::ResetChat
        } else {
            UpdateActionView::DownloadAttachment
        },
        UpdateEvent::ChatReset(Ok(())) => UpdateActionView::Say(
            "Started a fresh chat. History cleared for this Telegram chat."@,
        ),
        UpdateEvent::ChatReset(Err(message)) => UpdateActionView::Fail(message@),
        UpdateEvent::Downloaded(Ok(attachment)) => with_attachment(
            voice_enabled,
            attachment_view(attachment),
        ),
        UpdateEvent::Downloaded(Err(message)) => UpdateActionView::TrySay(
            shown_error("Attachment download failed"@, message@),
        ),
        UpdateEvent::Transcribed { path, duration_seconds, result: Ok(transcript) } =>
            UpdateActionView::RunTurn(
            Some(
                AttachmentView::Voice {
                    path: path@,
                    duration_seconds,
                    transcript: Some(transcript@),
                },
            ),
        ),
        UpdateEvent::Transcribed { result: Err(message), .. } => UpdateActionView::TrySay(
            shown_error("Voice transcription failed"@, message@),
        ),
        UpdateEvent::TurnRun(Ok(())) => UpdateActionView::Done,
        UpdateEvent::TurnRun(Err(message)) => UpdateActionView::TrySay(
            shown_error("Turn failed"@, message@),
        ),
    }
}

/// What is done about a message after an event.
pub fn process_telegram_update(inbound: &InboundMessage, voice_enabled: bool, event: UpdateEvent) -> (action:
    UpdateAction)
    ensures
        action@ == update_step(inbound@, voice_enabled, event),
{
    match event {
        UpdateEvent::Received => {
            if inbound.requests_new_chat() {
                UpdateAction::ResetChat
            } else {
                UpdateAction::DownloadAttachment
            }
        },
        UpdateEvent::ChatReset(Ok(())) => UpdateAction::Say(
            "Started a fresh chat. History cleared for this Telegram chat.".to_string(),
        ),
        UpdateEvent::ChatReset(Err(message)) => UpdateAction::Fail(message),
        UpdateEvent::Downloaded(Ok(attachment)) => maybe_transcribe_voice_attachment(
            voice_enabled,
            attachment,
        ),
        UpdateEvent::Downloaded(Err(message)) => UpdateAction::TrySay(
            show_error("Attachment download failed", message.as_str()),
        ),
        UpdateEvent::Transcribed { path, duration_seconds, result } => match result {
            Ok(transcript) => UpdateAction::RunTurn(
                Some(
                    DownloadedAttachment::Voice {
                        path,
                        duration_seconds,
                        transcript: Some(transcript),
                    },
                ),
            ),
            Err(message) => UpdateAction::TrySay(
                show_error("Voice transcription failed", message.as_str()),
            ),
        },
        UpdateEvent::TurnRun(Ok(())) => UpdateAction::Done,
        UpdateEvent::TurnRun(Err(message)) => UpdateAction::TrySay(
            show_error("Turn failed", message.as_str()),
        ),
    }
}

/// How far a message has come with an action that is done about it.
pub open spec fn action_stage(action: UpdateActionView) -> nat {
    match action {
        UpdateActionView::ResetChat => 1,
        UpdateActionView::DownloadAttachment => 1,
        UpdateActionView::Transcribe { .. } => 2,
        UpdateActionView::RunTurn(_) => 3,
        _ => 4,
    }
}

/// How far a message has come when an event happens.
pub open spec fn event_stage(event: UpdateEvent) -> nat {
    match event {
        UpdateEvent::Received => 0,
        UpdateEvent::ChatReset(_) => 1,
        UpdateEvent::Downloaded(_) => 1,
        UpdateEvent::Transcribed { .. } => 2,
        UpdateEvent::TurnRun(_) => 3,
    }
}

/// Every event brings a message further, so it is done with after a few steps,
/// and no step is taken twice: there is one turn at most.
pub proof fn law_messages_get_done(inbound: InboundView, voice_enabled: bool, event: UpdateEvent)
    ensures
        event_stage(event) < action_stage(update_step(inbound, voice_enabled, event)) <= 4,
{
}

/// A command to start over resets the session, and nothing else does.
pub proof fn law_only_commands_reset(inbound: InboundView, voice_enabled: bool, event: UpdateEvent)
    ensures
        update_step(inbound, voice_enabled, event) is ResetChat <==> event is Received
            && is_new_chat_command(inbound.text),
{
}

/// Where voice messages are transcribed, a turn is run for one only with a
/// transcript.
pub proof fn law_voice_is_transcribed_first(inbound: InboundView, event: UpdateEvent)
    ensures
        update_step(inbound, true, event) matches UpdateActionView::RunTurn(
            Some(AttachmentView::Voice { transcript, .. }),
        ) ==> transcript is Some,
{
}

} // verus!
