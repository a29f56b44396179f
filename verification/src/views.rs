//! What the mathematical values stand for.
use vstd::prelude::*;

use crate::approval::{
    actions_view, ActionView, ApprovalAction, ApprovalOutcome, OutcomeView, SteerKey,
};
use crate::channels::delivery::{Delivery, DeliveryView};
use crate::channels::whatsapp::{
    WhatsAppCall, WhatsAppCallView, WhatsAppEventView, WhatsAppInboundEvent,
};
use crate::channels::{outputs_view, TurnOutput, TurnOutputView};
use crate::codex::context::{
    input_items_view, turn_items_view, ChatRequest, ChatRequestView, Input, InputItemView,
    InputView, TurnInputItem, UserInput,
};
use crate::codex::items::{ThreadItem, ThreadItemView};
use crate::codex::sessions::{
    OrchestratorEvent, OrchestratorEventView, OrchestratorStep, OrchestratorStepView, SteerStep,
    SteerStepView, TurnStartState, TurnStartView,
};
use crate::codex::tools::{
    DynamicToolCallEnvelope, EnvelopeView, ResolveStep, ResolveStepView, ToolCall, ToolCallError,
    ToolCallErrorView, ToolCallView,
};
use crate::codex::turn::{LiveTurnProgress, LiveTurnProgressView};
use crate::config::{AppPaths, AppPathsView};
use crate::gateway::{UpdateAction, UpdateActionView, WebhookDecision, WebhookView};
use crate::json::value_view;
use crate::service::{steps_view, ServiceStep, ServiceStepView};
use crate::telegram::media::{fields_view, MediaUpload, MediaUploadView};
use crate::telegram::requests::{calls_view, ApiCall, ApiCallView};
use crate::telegram::types::{
    attachment_view, AttachmentView, DownloadedAttachment, InboundMessage, InboundView,
    OutboundMediaView, OutboundTelegramMedia,
};
use crate::text::{chars_view, opt_view, texts_view};

verus! {

/// Text that may be missing stands for itself.
pub proof fn law_optional_text(text: Option<String>)
    ensures
        text is None <==> opt_view(text) is None,
        text matches Some(words) ==> opt_view(text) == Some(words@),
{
}

/// A list stands for its elements, each in its place.
pub proof fn law_lists(
    texts: Seq<String>,
    chars: Seq<Vec<char>>,
    outputs: Seq<TurnOutput>,
    calls: Seq<ApiCall>,
    fields: Seq<(String, String)>,
    actions: Seq<ApprovalAction>,
    steps: Seq<ServiceStep>,
    parts: Seq<UserInput>,
    items: Seq<TurnInputItem>,
    i: int,
)
    ensures
        texts_view(texts).len() == texts.len(),
        chars_view(chars).len() == chars.len(),
        outputs_view(outputs).len() == outputs.len(),
        calls_view(calls).len() == calls.len(),
        fields_view(fields).len() == fields.len(),
        actions_view(actions).len() == actions.len(),
        steps_view(steps).len() == steps.len(),
        input_items_view(parts).len() == parts.len(),
        turn_items_view(items).len() == items.len(),
        0 <= i < texts.len() ==> texts_view(texts)[i] == texts[i]@,
        0 <= i < chars.len() ==> chars_view(chars)[i] == chars[i]@,
        0 <= i < outputs.len() ==> outputs_view(outputs)[i] == outputs[i]@,
        0 <= i < calls.len() ==> calls_view(calls)[i] == calls[i]@,
        0 <= i < fields.len() ==> fields_view(fields)[i] == (fields[i].0@, fields[i].1@),
        0 <= i < actions.len() ==> actions_view(actions)[i] == actions[i]@,
        0 <= i < steps.len() ==> steps_view(steps)[i] == steps[i]@,
        0 <= i < parts.len() ==> input_items_view(parts)[i] == parts[i]@,
        0 <= i < items.len() ==> turn_items_view(items)[i] == items[i]@,
{
}

/// A message stands for itself, field by field.
pub proof fn law_messages(message: InboundMessage, request: ChatRequest)
    ensures
        message@ == (InboundView {
            chat_id: message.chat_id,
            sender_id: message.sender_id,
            sender_name: message.sender_name@,
            message_id: message.message_id,
            thread_id: message.thread_id,
            text: opt_view(message.text),
            reply_to_text: opt_view(message.reply_to_text),
            quoted_text: opt_view(message.quoted_text),
            image_file_id: opt_view(message.image_file_id),
            document_file_id: opt_view(message.document_file_id),
            document_name: opt_view(message.document_name),
            voice_file_id: opt_view(message.voice_file_id),
            voice_duration: message.voice_duration,
        }),
        request@ == (ChatRequestView {
            session_key: request.session_key@,
            sender_name: request.sender_name@,
            text: opt_view(request.text),
            reply_to_text: opt_view(request.reply_to_text),
            quoted_text: opt_view(request.quoted_text),
            operator_target: request.operator_target,
        }),
{
}

/// An attachment stands for its kind, its path, and what is known of it.
pub proof fn law_attachments(attachment: DownloadedAttachment)
    ensures
        attachment_view(Some(attachment)) == Some(attachment@),
        attachment_view(None) is None,
        attachment matches DownloadedAttachment::Image(path) ==> attachment@
            == AttachmentView::Image(path@),
        attachment matches DownloadedAttachment::File(path) ==> attachment@
            == AttachmentView::File(path@),
        attachment matches DownloadedAttachment::Voice { path, duration_seconds, transcript }
            ==> attachment@ == (AttachmentView::Voice {
            path: path@,
            duration_seconds,
            transcript: opt_view(transcript),
        }),
{
}

/// What a turn puts out stands for itself, field by field.
pub proof fn law_outputs(output: TurnOutput)
    ensures
        output matches TurnOutput::Markdown { text, disable_notification } ==> output@ == (
        TurnOutputView::Markdown { text: text@, disable_notification }),
        output matches TurnOutput::Media {
            kind,
            path,
            caption_markdown,
            file_name,
            mime_type,
            disable_notification,
        } ==> output@ == (TurnOutputView::Media {
            kind,
            path: path@,
            caption_markdown: opt_view(caption_markdown),
            file_name: opt_view(file_name),
            mime_type: opt_view(mime_type),
            disable_notification,
        }),
{
}

/// A file on its way stands for itself, field by field.
pub proof fn law_files(media: OutboundTelegramMedia, upload: MediaUpload)
    ensures
        media@ == (OutboundMediaView {
            chat_id: media.chat_id,
            thread_id: media.thread_id,
            path: media.path@,
            disable_notification: media.disable_notification,
            caption_html: opt_view(media.caption_html),
            file_name_override: opt_view(media.file_name_override),
            mime_type_override: opt_view(media.mime_type_override),
        }),
        upload@ == (MediaUploadView {
            url: upload.url@,
            part_name: upload.part_name@,
            path: upload.path@,
            file_name: upload.file_name@,
            mime_type: opt_view(upload.mime_type),
            fields: fields_view(upload.fields@),
        }),
{
}

/// A call stands for its address and its body.
pub proof fn law_calls(
    call: ApiCall,
    whatsapp: WhatsAppCall,
    event: WhatsAppInboundEvent,
    delivery: Delivery,
)
    ensures
        call@ == (ApiCallView { url: call.url@, body: value_view(call.body) }),
        whatsapp@ == (WhatsAppCallView {
            url: whatsapp.url@,
            bearer_token: whatsapp.bearer_token@,
            body: value_view(whatsapp.body),
        }),
        event@ == (WhatsAppEventView {
            account_id: event.account_id@,
            chat_id: event.chat_id@,
            sender_id: event.sender_id@,
            sender_name: event.sender_name@,
            message_id: event.message_id@,
            text: event.text@,
        }),
        delivery matches Delivery::TelegramMessages(calls) ==> delivery@
            == DeliveryView::TelegramMessages(calls_view(calls@)),
        delivery matches Delivery::TelegramUpload(upload) ==> delivery@
            == DeliveryView::TelegramUpload(upload@),
        delivery matches Delivery::WhatsAppMessage(sent) ==> delivery@
            == DeliveryView::WhatsAppMessage(sent@),
{
}

/// What is decided, and done about an approval, stands for itself.
pub proof fn law_decisions(outcome: ApprovalOutcome, action: ApprovalAction, place: SteerKey)
    ensures
        outcome is Approved <==> outcome@ is Approved,
        outcome is Denied <==> outcome@ is Denied,
        outcome matches ApprovalOutcome::Steer(words) ==> outcome@ == OutcomeView::Steer(words@),
        action matches ApprovalAction::RemoveKeyboard { chat_id, message_id } ==> action@ == (
        ActionView::RemoveKeyboard { chat_id, message_id }),
        action matches ApprovalAction::Resolve { approval_id, outcome } ==> action@ == (
        ActionView::Resolve { approval_id: approval_id@, outcome: outcome@ }),
        action matches ApprovalAction::Answer { callback_id, text } ==> action@ == (
        ActionView::Answer { callback_id: callback_id@, text: text@ }),
        action matches ApprovalAction::Say { chat_id, thread_id, markdown } ==> action@ == (
        ActionView::Say { chat_id, thread_id, markdown: markdown@ }),
        place@ == place,
{
}

/// What a webhook call, or a message, leads to stands for itself.
pub proof fn law_steps(decision: WebhookDecision, action: UpdateAction)
    ensures
        decision is NotFound <==> decision@ is NotFound,
        decision is Ignore <==> decision@ is Ignore,
        decision matches WebhookDecision::Approval(actions) ==> decision@ == WebhookView::Approval(
            actions_view(actions@),
        ),
        decision matches WebhookDecision::Process(inbound) ==> decision@ == WebhookView::Process(
            inbound@,
        ),
        action is ResetChat <==> action@ is ResetChat,
        action is DownloadAttachment <==> action@ is DownloadAttachment,
        action is Done <==> action@ is Done,
        action matches UpdateAction::Transcribe { path, duration_seconds } ==> action@ == (
        UpdateActionView::Transcribe { path: path@, duration_seconds }),
        action matches UpdateAction::RunTurn(attachment) ==> action@ == UpdateActionView::RunTurn(
            attachment_view(attachment),
        ),
        action matches UpdateAction::Say(text) ==> action@ == UpdateActionView::Say(text@),
        action matches UpdateAction::TrySay(text) ==> action@ == UpdateActionView::TrySay(text@),
        action matches UpdateAction::Fail(message) ==> action@ == UpdateActionView::Fail(message@),
{
}

/// Input, items and the progress of a turn stand for themselves.
pub proof fn law_turns(
    part: UserInput,
    item: TurnInputItem,
    input: Input,
    thread_item: ThreadItem,
    progress: LiveTurnProgress,
)
    ensures
        part matches UserInput::Text { text } ==> part@ == InputItemView::Text(text@),
        part matches UserInput::LocalImage { path } ==> part@ == InputItemView::LocalImage(path@),
        item matches TurnInputItem::Text { text } ==> item@ == InputItemView::Text(text@),
        item matches TurnInputItem::LocalImage { path } ==> item@ == InputItemView::LocalImage(
            path@,
        ),
        input matches Input::Text(text) ==> input@ == InputView::Text(text@),
        input matches Input::Items(parts) ==> input@ == InputView::Items(input_items_view(parts@)),
        thread_item matches ThreadItem::AgentMessage(message) ==> thread_item@ == (
        ThreadItemView::AgentMessage {
            id: message.id@,
            text: message.text@,
            phase: message.phase,
        }),
        thread_item matches ThreadItem::Plan(plan) ==> thread_item@ == (ThreadItemView::Plan {
            id: plan.id@,
            text: plan.text@,
        }),
        thread_item is Other <==> thread_item@ is Other,
        progress is Running <==> progress@ is Running,
        progress is Finished <==> progress@ is Finished,
        progress matches LiveTurnProgress::Failed(message) ==> progress@
            == LiveTurnProgressView::Failed(message@),
{
}

/// Sessions and their orchestrator stand for themselves.
pub proof fn law_sessions(
    start: TurnStartState,
    steer: SteerStep,
    event: OrchestratorEvent,
    step: OrchestratorStep,
)
    ensures
        start is Pending <==> start@ is Pending,
        start matches TurnStartState::Ready(id) ==> start@ == TurnStartView::Ready(id@),
        start matches TurnStartState::Failed(message) ==> start@ == TurnStartView::Failed(message@),
        steer is Skip <==> steer@ is Skip,
        steer is Wait <==> steer@ is Wait,
        steer matches SteerStep::Send { thread_id, turn_id } ==> steer@ == (SteerStepView::Send {
            thread_id: thread_id@,
            turn_id: turn_id@,
        }),
        steer matches SteerStep::Fail(message) ==> steer@ == SteerStepView::Fail(message@),
        event is Asked <==> event@ is Asked,
        event is Resumed <==> event@ is Resumed,
        event is Saved <==> event@ is Saved,
        event is RuntimeReplaced <==> event@ is RuntimeReplaced,
        event matches OrchestratorEvent::Briefed(id) ==> event@ == OrchestratorEventView::Briefed(
            opt_view(id),
        ),
        step is Done <==> step@ is Done,
        step matches OrchestratorStep::Resume(id) ==> step@ == OrchestratorStepView::Resume(id@),
        step matches OrchestratorStep::Start(brief) ==> step@ == OrchestratorStepView::Start(
            brief@,
        ),
        step matches OrchestratorStep::Save(id) ==> step@ == OrchestratorStepView::Save(id@),
{
}

/// Tool calls, and why one is refused, stand for themselves.
pub proof fn law_tools(
    envelope: DynamicToolCallEnvelope,
    call: ToolCall,
    error: ToolCallError,
    step: ResolveStep,
)
    ensures
        envelope@ == (EnvelopeView {
            tool: envelope.tool@,
            turn_id: envelope.turn_id@,
            arguments: value_view(envelope.arguments),
        }),
        call matches ToolCall::SendMedia(inner) ==> call@ == ToolCallView::SendMedia(inner@),
        call matches ToolCall::RequestApproval(inner) ==> call@ == ToolCallView::RequestApproval(
            inner@,
        ),
        error matches ToolCallError::InvalidMessage(message) ==> error@
            == ToolCallErrorView::InvalidMessage(message@),
        error matches ToolCallError::PathResolution(message) ==> error@
            == ToolCallErrorView::PathResolution(message@),
        error is TransportClosed <==> error@ is TransportClosed,
        step matches ResolveStep::Found(path) ==> step@ == ResolveStepView::Found(path@),
        step matches ResolveStep::LookUp(path) ==> step@ == ResolveStepView::LookUp(path@),
        step matches ResolveStep::Fail(message) ==> step@ == ResolveStepView::Fail(message@),
{
}

/// Places, and the steps of a plan, stand for themselves.
pub proof fn law_plans(paths: AppPaths, step: ServiceStep)
    ensures
        paths@ == (AppPathsView {
            config_path: paths.config_path@,
            state_dir: paths.state_dir@,
            cache_dir: paths.cache_dir@,
        }),
        step matches ServiceStep::CreateDirectory(path) ==> step@
            == ServiceStepView::CreateDirectory(path@),
        step matches ServiceStep::WriteFile { path, content } ==> step@ == (
        ServiceStepView::WriteFile { path: path@, content: content@ }),
        step matches ServiceStep::RemoveIfPresent(path) ==> step@
            == ServiceStepView::RemoveIfPresent(path@),
        step matches ServiceStep::Run { program, args } ==> step@ == (ServiceStepView::Run {
            program: program@,
            args: texts_view(args@),
        }),
        step matches ServiceStep::TryRun { program, args } ==> step@ == (ServiceStepView::TryRun {
            program: program@,
            args: texts_view(args@),
        }),
        step matches ServiceStep::Print(text) ==> step@ == ServiceStepView::Print(text@),
{
}

} // verus!
