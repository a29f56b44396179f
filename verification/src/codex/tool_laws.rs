//! What holds of the tools that Codex calls.
use vstd::prelude::*;

use crate::approval::{OperatorTarget, OutcomeView};
use crate::basics::law_path_join;
use crate::channels::delivery::{delivery_of, telegram_media, DeliveryView};
use crate::channels::{ReplyTarget, TelegramReplyTarget, TurnOutputView};
use crate::codex::tool_specs::{is_approval_tool, is_media_tool, DynamicToolSpec};
use crate::codex::tools::{
    approval_reply_of, envelope_of, media_output_of, media_reply_of, overridden_target,
    resolve_step_of, routed, EnvelopeView, ResolveStepView, TelegramRequestApprovalArgs,
    TelegramSendMediaArgs, ToolCallView,
};
use crate::config::AppConfig;
use crate::json::{value_view, JsonView};
use crate::markdown::blocks::markdown_html;
use crate::markdown::visible::law_markdown_is_seen;
use crate::numbers::decimal_int;
use crate::paths::{path_join, path_name};
use crate::telegram::laws::{
    law_upload_carries_its_caption, law_upload_goes_to_its_chat, law_upload_keeps_the_file,
    law_upload_methods,
};
use crate::telegram::requests::method_url;
use crate::text::{has_ink, opt_view};

verus! {

// ---------------------------------------------------------------------------
// Reading calls
// ---------------------------------------------------------------------------
/// A call that names a tool, a thread and a turn is read as what it says: the
/// thread and the turn stand beside the tool, or together under `extra`.
pub proof fn law_tool_calls_are_read(
    entries: Map<Seq<char>, JsonView>,
    inner: Map<Seq<char>, JsonView>,
    tool: Seq<char>,
    thread_id: Seq<char>,
    turn_id: Seq<char>,
)
    requires
        entries.contains_key("tool"@),
        entries["tool"@] == JsonView::Text(tool),
        entries.contains_key("extra"@) && entries["extra"@] == JsonView::Object(inner) || inner
            == entries && !(entries.contains_key("extra"@) && entries["extra"@] is Object),
        inner.contains_key("threadId"@),
        inner["threadId"@] == JsonView::Text(thread_id),
        inner.contains_key("turnId"@),
        inner["turnId"@] == JsonView::Text(turn_id),
    ensures
        envelope_of(entries) matches Ok(envelope) && {
            &&& envelope.tool == tool
            &&& envelope.turn_id == turn_id
            &&& entries.contains_key("arguments"@) ==> envelope.arguments
                == entries["arguments"@]
            &&& !entries.contains_key("arguments"@) ==> envelope.arguments is Null
        },
{
}

/// A call without a tool, a thread or a turn is refused, and what is missing is
/// told: the tool before the thread, and the thread before the turn.
pub proof fn law_incomplete_calls_are_refused(
    entries: Map<Seq<char>, JsonView>,
    inner: Map<Seq<char>, JsonView>,
)
    requires
        entries.contains_key("extra"@) && entries["extra"@] == JsonView::Object(inner) || inner
            == entries && !(entries.contains_key("extra"@) && entries["extra"@] is Object),
    ensures
        !(entries.contains_key("tool"@) && entries["tool"@] is Text) ==> envelope_of(entries)
            == Err::<EnvelopeView, Seq<char>>("dynamic tool call missing `tool`"@),
        entries.contains_key("tool"@) && entries["tool"@] is Text && !(inner.contains_key(
            "threadId"@,
        ) && inner["threadId"@] is Text) ==> envelope_of(entries) == Err::<EnvelopeView, Seq<char>>(
            "dynamic tool call missing `threadId`"@,
        ),
        entries.contains_key("tool"@) && entries["tool"@] is Text && inner.contains_key(
            "threadId"@,
        ) && inner["threadId"@] is Text && !(inner.contains_key("turnId"@) && inner["turnId"@]
            is Text) ==> envelope_of(entries) == Err::<EnvelopeView, Seq<char>>(
            "dynamic tool call missing `turnId`"@,
        ),
        envelope_of(entries) matches Err(message) ==> routed(entries) == Err::<ToolCallView, Seq<char>>(
            message,
        ),
{
}

/// The tools that Codex is offered are the ones whose calls are taken; a call of
/// any other is refused by its name.
pub proof fn law_offered_tools_are_taken(
    entries: Map<Seq<char>, JsonView>,
    media: DynamicToolSpec,
    approval: DynamicToolSpec,
)
    requires
        is_media_tool(media),
        is_approval_tool(approval),
        envelope_of(entries) is Ok,
    ensures
        ({
            let envelope = envelope_of(entries)->Ok_0;
            &&& envelope.tool == media.name@ ==> routed(entries) == Ok::<ToolCallView, Seq<char>>(
                ToolCallView::SendMedia(envelope),
            )
            &&& envelope.tool == approval.name@ ==> routed(entries) == Ok::<ToolCallView, Seq<char>>(
                ToolCallView::RequestApproval(envelope),
            )
            &&& envelope.tool != media.name@ && envelope.tool != approval.name@ ==> routed(entries)
                == Err::<ToolCallView, Seq<char>>("unsupported dynamic tool `"@ + envelope.tool + "`"@)
        }),
{
    reveal_strlit("telegram_send_media");
    reveal_strlit("telegram_request_approval");
    assert("telegram_send_media"@.len() == 19);
    assert("telegram_request_approval"@.len() == 25);
}

/// What a schema says of a parameter under `key`.
pub open spec fn said_of(schema: JsonView, name: Seq<char>, key: Seq<char>) -> Option<JsonView> {
    match schema {
        JsonView::Object(entries) => match entries["properties"@] {
            JsonView::Object(properties) => if properties.contains_key(name) {
                match properties[name] {
                    JsonView::Object(said) => if said.contains_key(key) {
                        Some(said[key])
                    } else {
                        None
                    },
                    _ => None,
                }
            } else {
                None
            },
            _ => None,
        },
        _ => None,
    }
}

proof fn lemma_schema_keys()
    ensures
        "type"@.len() == 4,
        "additionalProperties"@.len() == 20,
        "required"@.len() == 8,
        "properties"@.len() == 10,
        "enum"@.len() == 4,
        "description"@.len() == 11,
        "type"@ != "enum"@,
        "path"@.len() == 4,
        "kind"@.len() == 4,
        "path"@ != "kind"@,
        "caption_markdown"@.len() == 16,
        "file_name"@.len() == 9,
        "mime_type"@.len() == 9,
        "file_name"@ != "mime_type"@,
        "disable_notification"@.len() == 20,
        "summary_markdown"@.len() == 16,
        "proposed_reply"@.len() == 14,
        "operator_chat_id"@.len() == 16,
        "operator_thread_id"@.len() == 18,
        "summary_markdown"@ != "operator_chat_id"@,
{
    reveal_strlit("type");
    reveal_strlit("additionalProperties");
    reveal_strlit("required");
    reveal_strlit("properties");
    reveal_strlit("enum");
    reveal_strlit("description");
    reveal_strlit("path");
    reveal_strlit("kind");
    reveal_strlit("caption_markdown");
    reveal_strlit("file_name");
    reveal_strlit("mime_type");
    reveal_strlit("disable_notification");
    reveal_strlit("summary_markdown");
    reveal_strlit("proposed_reply");
    reveal_strlit("operator_chat_id");
    reveal_strlit("operator_thread_id");
    assert("type"@[0] != "enum"@[0]);
    assert("path"@[0] != "kind"@[0]);
    assert("file_name"@[0] != "mime_type"@[0]);
    assert("summary_markdown"@[0] != "operator_chat_id"@[0]);
}

/// The tool that sends media takes a path and a kind, and may take a caption, a
/// file name, a type, and whether the message is silent, and nothing else.
pub proof fn law_media_tool_parameters(tool: DynamicToolSpec)
    requires
        is_media_tool(tool),
    ensures
        ({
            let schema = value_view(tool.input_schema);
            &&& schema matches JsonView::Object(entries) && entries["required"@]
                == JsonView::Array(seq![JsonView::Text("path"@), JsonView::Text("kind"@)])
                && entries["additionalProperties"@] == JsonView::Bool(false) && entries["type"@]
                == JsonView::Text("object"@)
            &&& said_of(schema, "path"@, "type"@) == Some(JsonView::Text("string"@))
            &&& said_of(schema, "kind"@, "type"@) == Some(JsonView::Text("string"@))
            &&& said_of(schema, "kind"@, "enum"@) == Some(
                JsonView::Array(
                    seq![
                        JsonView::Text("photo"@),
                        JsonView::Text("document"@),
                        JsonView::Text("audio"@),
                        JsonView::Text("voice"@),
                    ],
                ),
            )
            &&& said_of(schema, "caption_markdown"@, "type"@) == Some(JsonView::Text("string"@))
            &&& said_of(schema, "file_name"@, "type"@) == Some(JsonView::Text("string"@))
            &&& said_of(schema, "mime_type"@, "type"@) == Some(JsonView::Text("string"@))
            &&& said_of(schema, "disable_notification"@, "type"@) == Some(
                JsonView::Text("boolean"@),
            )
            &&& forall|name: Seq<char>|
                #![trigger said_of(schema, name, "type"@)]
                said_of(schema, name, "type"@) is Some ==> name == "path"@ || name == "kind"@
                    || name == "caption_markdown"@ || name == "file_name"@ || name
                    == "mime_type"@ || name == "disable_notification"@
        }),
{
    lemma_schema_keys();
    let schema = value_view(tool.input_schema);
    if let JsonView::Object(entries) = schema {
        if let JsonView::Array(items) = entries["required"@] {
            assert(items =~= seq![JsonView::Text("path"@), JsonView::Text("kind"@)]);
        }
    }
    if let Some(JsonView::Array(items)) = said_of(schema, "kind"@, "enum"@) {
        assert(items =~= seq![
            JsonView::Text("photo"@),
            JsonView::Text("document"@),
            JsonView::Text("audio"@),
            JsonView::Text("voice"@),
        ]);
    }
}

/// The tool that asks for approval takes a summary and the proposed reply, and
/// may take a chat and a thread, and nothing else.
pub proof fn law_approval_tool_parameters(tool: DynamicToolSpec)
    requires
        is_approval_tool(tool),
    ensures
        ({
            let schema = value_view(tool.input_schema);
            &&& schema matches JsonView::Object(entries) && entries["required"@]
                == JsonView::Array(
                seq![JsonView::Text("summary_markdown"@), JsonView::Text("proposed_reply"@)],
            ) && entries["additionalProperties"@] == JsonView::Bool(false) && entries["type"@]
                == JsonView::Text("object"@)
            &&& said_of(schema, "summary_markdown"@, "type"@) == Some(JsonView::Text("string"@))
            &&& said_of(schema, "proposed_reply"@, "type"@) == Some(JsonView::Text("string"@))
            &&& said_of(schema, "operator_chat_id"@, "type"@) == Some(JsonView::Text("integer"@))
            &&& said_of(schema, "operator_thread_id"@, "type"@) == Some(
                JsonView::Text("integer"@),
            )
            &&& forall|name: Seq<char>|
                #![trigger said_of(schema, name, "type"@)]
                said_of(schema, name, "type"@) is Some ==> name == "summary_markdown"@ || name
                    == "proposed_reply"@ || name == "operator_chat_id"@ || name
                    == "operator_thread_id"@
        }),
{
    lemma_schema_keys();
    if let JsonView::Object(entries) = value_view(tool.input_schema) {
        if let JsonView::Array(items) = entries["required"@] {
            assert(items =~= seq![
                JsonView::Text("summary_markdown"@),
                JsonView::Text("proposed_reply"@),
            ]);
        }
    }
}

/// Each tool, and each of its parameters, says what it is for.
pub proof fn law_tools_say_what_they_are_for(media: DynamicToolSpec, approval: DynamicToolSpec)
    requires
        is_media_tool(media),
        is_approval_tool(approval),
    ensures
        media.name@ == "telegram_send_media"@,
        approval.name@ == "telegram_request_approval"@,
        media.description@ == "Send a local file to the current Telegram chat as a photo, document, audio file, or voice note. Use this whenever the user should receive the actual file rather than only a text description. This is the default way to deliver screenshots, generated images, videos or screen recordings as files, audio outputs, and documents. If the artifact is a video and no dedicated video mode is available, send it as a document instead of skipping the upload."@,
        approval.description@ == "Ask the configured Telegram operator to approve, deny, or steer a proposed action. Use this when a draft reply or sensitive action needs human approval before continuing. This tool blocks until the operator chooses Approve, Deny, or Steer and sends steering text."@,
        ({
            let schema = value_view(media.input_schema);
            &&& said_of(schema, "path"@, "description"@) == Some(
                JsonView::Text(
                    "Absolute or repository-relative path to an existing local file that should be delivered to the Telegram user."@,
                ),
            )
            &&& said_of(schema, "kind"@, "description"@) == Some(
                JsonView::Text(
                    "Use `photo` for images and screenshots, `document` for generic files including PDFs and videos when no dedicated video send mode exists, `audio` for audio files, and `voice` for voice-note style audio."@,
                ),
            )
            &&& said_of(schema, "caption_markdown"@, "description"@) == Some(
                JsonView::Text(
                    "Optional Markdown caption to send with the media. Keep it short and user-facing."@,
                ),
            )
            &&& said_of(schema, "file_name"@, "description"@) == Some(
                JsonView::Text(
                    "Optional Telegram-side file name override for the uploaded file."@,
                ),
            )
            &&& said_of(schema, "mime_type"@, "description"@) == Some(
                JsonView::Text(
                    "Optional MIME type override for multipart upload when the default detection is not suitable."@,
                ),
            )
            &&& said_of(schema, "disable_notification"@, "description"@) == Some(
                JsonView::Text(
                    "If true, send silently."@,
                ),
            )
        }),
        ({
            let schema = value_view(approval.input_schema);
            &&& said_of(schema, "summary_markdown"@, "description"@) == Some(
                JsonView::Text(
                    "Short Markdown summary explaining what needs approval."@,
                ),
            )
            &&& said_of(schema, "proposed_reply"@, "description"@) == Some(
                JsonView::Text(
                    "Proposed outbound message text to show the operator."@,
                ),
            )
            &&& said_of(schema, "operator_chat_id"@, "description"@) == Some(
                JsonView::Text(
                    "Optional Telegram chat id override for where to send the approval request."@,
                ),
            )
            &&& said_of(schema, "operator_thread_id"@, "description"@) == Some(
                JsonView::Text(
                    "Optional Telegram message_thread_id override for where to send the approval request."@,
                ),
            )
        }),
{
    lemma_schema_keys();
}

// ---------------------------------------------------------------------------
// Sending media
// ---------------------------------------------------------------------------
/// What a call asks to be sent is what the turn sends: the kind, the caption,
/// the name and the type are those of the call, and the file is the one that
/// was found. A call that does not ask for silence is not silent.
pub proof fn law_media_calls_are_kept(arguments: TelegramSendMediaArgs, found: Seq<char>)
    ensures
        media_output_of(arguments, found) matches TurnOutputView::Media {
            kind,
            path,
            caption_markdown,
            file_name,
            mime_type,
            disable_notification,
        } && {
            &&& kind == arguments.kind
            &&& path == found
            &&& arguments.caption_markdown matches Some(caption) ==> caption_markdown == Some(
                caption@,
            )
            &&& arguments.caption_markdown is None ==> caption_markdown is None
            &&& arguments.file_name matches Some(name) ==> file_name == Some(name@)
            &&& arguments.file_name is None ==> file_name is None
            &&& arguments.mime_type matches Some(mime) ==> mime_type == Some(mime@)
            &&& arguments.mime_type is None ==> mime_type is None
            &&& arguments.disable_notification matches Some(silent) ==> disable_notification
                == silent
            &&& arguments.disable_notification is None ==> !disable_notification
        },
{
}

/// A caption that can be seen is sent with the file, rendered, to the chat that
/// the turn answers to, and the file goes out under the name and the type of
/// the call.
pub proof fn law_captions_reach_the_chat(
    config: AppConfig,
    chat: TelegramReplyTarget,
    arguments: TelegramSendMediaArgs,
    found: Seq<char>,
    caption: Seq<char>,
)
    requires
        opt_view(arguments.caption_markdown) == Some(caption),
        has_ink(caption),
    ensures
        delivery_of(
            config,
            ReplyTarget::Telegram(chat),
            media_output_of(arguments, found),
        ) matches Ok(DeliveryView::TelegramUpload(upload)) && {
            &&& upload.fields.contains(("caption"@, markdown_html(caption)))
            &&& upload.fields.contains(("parse_mode"@, "HTML"@))
        },
{
    law_markdown_is_seen(caption);
    if let Ok(DeliveryView::TelegramUpload(upload)) = delivery_of(
        config,
        ReplyTarget::Telegram(chat),
        media_output_of(arguments, found),
    ) {
        let media = telegram_media(
            chat.chat_id,
            chat.thread_id,
            found,
            Some(caption),
            opt_view(arguments.file_name),
            opt_view(arguments.mime_type),
            arguments.disable_notification == Some(true),
        );
        law_upload_carries_its_caption(config.telegram, arguments.kind, media, caption);
    }
}

/// The file of a call goes to the chat that the turn answers to: the file that
/// was found, by the method for its kind, under the name and the type that the
/// call gives.
pub proof fn law_media_reaches_the_chat(
    config: AppConfig,
    chat: TelegramReplyTarget,
    arguments: TelegramSendMediaArgs,
    found: Seq<char>,
)
    ensures
        delivery_of(
            config,
            ReplyTarget::Telegram(chat),
            media_output_of(arguments, found),
        ) matches Ok(DeliveryView::TelegramUpload(upload)) && {
            &&& upload.path == found
            &&& arguments.file_name matches Some(name) ==> upload.file_name == name@
            &&& arguments.file_name is None ==> (path_name(found) matches Some(name)
                ==> upload.file_name == name)
            &&& arguments.mime_type matches Some(mime) ==> upload.mime_type == Some(mime@)
            &&& upload.fields.contains(
                ("chat_id"@, decimal_int(chat.chat_id as int)),
            )
            &&& chat.thread_id matches Some(thread) ==> upload.fields.contains(
                ("message_thread_id"@, decimal_int(thread as int)),
            )
            &&& arguments.disable_notification == Some(true) ==> upload.fields.contains(
                ("disable_notification"@, "true"@),
            )
            &&& arguments.disable_notification != Some(true) ==> upload.fields.contains(
                ("disable_notification"@, "false"@),
            )
            &&& arguments.caption_markdown is None ==> forall|i: int|
                0 <= i < upload.fields.len() ==> (#[trigger] upload.fields[i]).0 != "caption"@
            &&& arguments.kind is Photo ==> upload.url == method_url(
                config.telegram,
                "sendPhoto"@,
            )
            &&& arguments.kind is Document ==> upload.url == method_url(
                config.telegram,
                "sendDocument"@,
            )
            &&& arguments.kind is Audio ==> upload.url == method_url(
                config.telegram,
                "sendAudio"@,
            )
            &&& arguments.kind is Voice ==> upload.url == method_url(
                config.telegram,
                "sendVoice"@,
            )
        },
{
    let media = telegram_media(
        chat.chat_id,
        chat.thread_id,
        found,
        opt_view(arguments.caption_markdown),
        opt_view(arguments.file_name),
        opt_view(arguments.mime_type),
        arguments.disable_notification == Some(true),
    );
    law_upload_goes_to_its_chat(config.telegram, arguments.kind, media);
    law_upload_keeps_the_file(config.telegram, arguments.kind, media);
    law_upload_methods(config.telegram, arguments.kind, media);
    law_upload_carries_its_caption(config.telegram, arguments.kind, media, Seq::empty());
}

/// A file is looked for where the call says; if it is not there and the path is
/// relative, once more in the working directory. What was found counts, and
/// where nothing was, that is told.
pub proof fn law_files_are_looked_for(
    working_directory: Seq<char>,
    raw_path: Seq<char>,
    first: Result<String, String>,
)
    ensures
        first matches Ok(path) ==> resolve_step_of(working_directory, raw_path, first)
            == ResolveStepView::Found(path@),
        first matches Err(message) ==> (raw_path.len() > 0 && raw_path[0] == '/'
            ==> resolve_step_of(working_directory, raw_path, first) == ResolveStepView::Fail(
            message@,
        )),
        first is Err && !(raw_path.len() > 0 && raw_path[0] == '/') ==> resolve_step_of(
            working_directory,
            raw_path,
            first,
        ) == ResolveStepView::LookUp(path_join(working_directory, raw_path)),
{
    law_path_join(working_directory, raw_path);
}

/// The texts of a reply: a list of one, which is `text`.
pub open spec fn says(reply: Map<Seq<char>, JsonView>, text: Seq<char>) -> bool {
    &&& reply.contains_key("success"@)
    &&& reply["success"@] == JsonView::Bool(true)
    &&& reply.contains_key("contentItems"@)
    &&& reply["contentItems"@] matches JsonView::Array(items) && items.len() == 1 && (
    items[0] matches JsonView::Object(item) && item.contains_key("type"@) && item["type"@]
        == JsonView::Text("inputText"@) && item.contains_key("text"@) && item["text"@]
        == JsonView::Text(text))
}

proof fn lemma_reply_keys()
    ensures
        "success"@.len() == 7,
        "contentItems"@.len() == 12,
        "decision"@.len() == 8,
        "type"@.len() == 4,
        "text"@.len() == 4,
        "type"@ != "text"@,
{
    reveal_strlit("success");
    reveal_strlit("contentItems");
    reveal_strlit("decision");
    reveal_strlit("type");
    reveal_strlit("text");
    assert("type"@[1] != "text"@[1]);
}

/// The reply to a call that sends media tells what was queued, and under which
/// name: that of the call, or else that of the file at its path.
pub proof fn law_media_replies(arguments: TelegramSendMediaArgs, name: Seq<char>)
    requires
        match arguments.file_name {
            Some(given) => name == given@,
            None => match path_name(arguments.path@) {
                Some(last) => name == last,
                None => name == arguments.path@,
            },
        },
    ensures
        arguments.kind is Photo ==> says(
            media_reply_of(arguments),
            "Queued Telegram "@ + "photo"@ + " upload for "@ + name + "."@,
        ),
        arguments.kind is Document ==> says(
            media_reply_of(arguments),
            "Queued Telegram "@ + "document"@ + " upload for "@ + name + "."@,
        ),
        arguments.kind is Audio ==> says(
            media_reply_of(arguments),
            "Queued Telegram "@ + "audio"@ + " upload for "@ + name + "."@,
        ),
        arguments.kind is Voice ==> says(
            media_reply_of(arguments),
            "Queued Telegram "@ + "voice note"@ + " upload for "@ + name + "."@,
        ),
{
    lemma_reply_keys();
}

// ---------------------------------------------------------------------------
// Asking for approval
// ---------------------------------------------------------------------------
/// An operator is asked in the chat and the thread that the call names, and in
/// the usual ones as far as it names none.
pub proof fn law_calls_may_name_the_operator(
    usual: OperatorTarget,
    arguments: TelegramRequestApprovalArgs,
)
    ensures
        ({
            let target = overridden_target(usual, arguments);
            &&& arguments.operator_chat_id matches Some(chat_id) ==> target.chat_id == chat_id
            &&& arguments.operator_chat_id is None ==> target.chat_id == usual.chat_id
            &&& arguments.operator_thread_id matches Some(thread) ==> target.thread_id == Some(
                thread,
            )
            &&& arguments.operator_thread_id is None ==> target.thread_id == usual.thread_id
        }),
{
}

/// The reply to a call that asked for approval tells what was decided, and the
/// operator's own words where there are any.
pub proof fn law_decisions_are_told(words: Seq<char>)
    ensures
        ({
            let reply = approval_reply_of(OutcomeView::Approved);
            &&& reply.contains_key("decision"@)
            &&& reply["decision"@] == JsonView::Text("approve"@)
            &&& says(reply, "Operator approved the proposed action."@)
        }),
        ({
            let reply = approval_reply_of(OutcomeView::Denied);
            &&& reply.contains_key("decision"@)
            &&& reply["decision"@] == JsonView::Text("deny"@)
            &&& says(
                reply,
                "Operator denied the proposed action. Do not perform it unless they later change their mind."@,
            )
        }),
        ({
            let reply = approval_reply_of(OutcomeView::Steer(words));
            &&& reply.contains_key("decision"@)
            &&& reply["decision"@] == JsonView::Text("steer"@)
            &&& says(
                reply,
                "Operator requested changes before approval. Do not send the previous draft. Revise it with these instructions:\n"@
                    + words,
            )
        }),
{
    lemma_reply_keys();
}

} // verus!
