//! The tools that Codex is offered.
use vstd::prelude::*;

use crate::json::{
    bool_value, object_entries, object_insert, object_new, object_value, text_array, text_value,
    texts_value, value_view, JsonView,
};
use crate::text::texts_view;

verus! {

/// A tool that the server may call.
#[derive(Debug)]
pub struct DynamicToolSpec {
    pub name: String,
    pub description: String,
    pub input_schema: serde_json::Value,
}

/// A parameter of a tool.
pub open spec fn parameter(kind: Seq<char>, description: Seq<char>) -> JsonView {
    JsonView::Object(
        map!["type"@ => JsonView::Text(kind), "description"@ => JsonView::Text(description)],
    )
}

/// A parameter of a tool with a closed list of values.
pub open spec fn choice(values: Seq<Seq<char>>, description: Seq<char>) -> JsonView {
    JsonView::Object(
        map![
            "type"@ => JsonView::Text("string"@),
            "enum"@ => text_array(values),
            "description"@ => JsonView::Text(description),
        ],
    )
}

/// The schema of a tool that takes `parameters`, of which `required` cannot be
/// left out, and no others.
pub open spec fn tool_schema(required: Seq<Seq<char>>, parameters: Map<Seq<char>, JsonView>) -> JsonView {
    JsonView::Object(
        map![
            "type"@ => JsonView::Text("object"@),
            "additionalProperties"@ => JsonView::Bool(false),
            "required"@ => text_array(required),
            "properties"@ => JsonView::Object(parameters),
        ],
    )
}

fn parameter_value(kind: &str, description: &str) -> (value: serde_json::Value)
    ensures
        value_view(value) == parameter(kind@, description@),
{
    let mut object = object_new();
    object_insert(&mut object, "type", text_value(kind));
    object_insert(&mut object, "description", text_value(description));
    object_value(object)
}

fn choice_value(values: &Vec<String>, description: &str) -> (value: serde_json::Value)
    ensures
        value_view(value) == choice(texts_view(values@), description@),
{
    let mut object = object_new();
    object_insert(&mut object, "type", text_value("string"));
    object_insert(&mut object, "enum", texts_value(values));
    object_insert(&mut object, "description", text_value(description));
    object_value(object)
}

fn schema_value(
    required: &Vec<String>,
    parameters: serde_json::Map<String, serde_json::Value>,
) -> (value: serde_json::Value)
    ensures
        value_view(value) == tool_schema(
            texts_view(required@),
            object_entries(parameters),
        ),
{
    let mut object = object_new();
    object_insert(&mut object, "type", text_value("object"));
    object_insert(&mut object, "additionalProperties", bool_value(false));
    object_insert(&mut object, "required", texts_value(required));
    object_insert(&mut object, "properties", object_value(parameters));
    object_value(object)
}

// ---------------------------------------------------------------------------
// Sending media
// ---------------------------------------------------------------------------
/// The kinds of media that the tool sends.
pub open spec fn media_kinds() -> Seq<Seq<char>> {
    seq!["photo"@, "document"@, "audio"@, "voice"@]
}

/// The parameters of the tool that sends media.
pub open spec fn media_parameters() -> Map<Seq<char>, JsonView> {
    map![
        "path"@ => parameter("string"@, "Absolute or repository-relative path to an existing local file that should be delivered to the Telegram user."@),
        "kind"@ => choice(media_kinds(), "Use `photo` for images and screenshots, `document` for generic files including PDFs and videos when no dedicated video send mode exists, `audio` for audio files, and `voice` for voice-note style audio."@),
        "caption_markdown"@ => parameter("string"@, "Optional Markdown caption to send with the media. Keep it short and user-facing."@),
        "file_name"@ => parameter("string"@, "Optional Telegram-side file name override for the uploaded file."@),
        "mime_type"@ => parameter("string"@, "Optional MIME type override for multipart upload when the default detection is not suitable."@),
        "disable_notification"@ => parameter("boolean"@, "If true, send silently."@),
    ]
}

/// The tool that sends media.
pub open spec fn is_media_tool(tool: DynamicToolSpec) -> bool {
    &&& tool.name@ == "telegram_send_media"@
    &&& tool.description@ == "Send a local file to the current Telegram chat as a photo, document, audio file, or voice note. Use this whenever the user should receive the actual file rather than only a text description. This is the default way to deliver screenshots, generated images, videos or screen recordings as files, audio outputs, and documents. If the artifact is a video and no dedicated video mode is available, send it as a document instead of skipping the upload."@
    &&& value_view(tool.input_schema) == tool_schema(
        seq!["path"@, "kind"@],
        media_parameters(),
    )
}

/// The tool that sends media.
pub fn telegram_send_media_tool_spec() -> (tool: DynamicToolSpec)
    ensures
        is_media_tool(tool),
{
    let mut kinds: Vec<String> = Vec::new();
    kinds.push("photo".to_string());
    kinds.push("document".to_string());
    kinds.push("audio".to_string());
    kinds.push("voice".to_string());
    assert(texts_view(kinds@) =~= media_kinds());
    let mut parameters = object_new();
    object_insert(
        &mut parameters,
        "path",
        parameter_value(
            "string",
            "Absolute or repository-relative path to an existing local file that should be delivered to the Telegram user.",
        ),
    );
    object_insert(
        &mut parameters,
        "kind",
        choice_value(
            &kinds,
            "Use `photo` for images and screenshots, `document` for generic files including PDFs and videos when no dedicated video send mode exists, `audio` for audio files, and `voice` for voice-note style audio.",
        ),
    );
    object_insert(
        &mut parameters,
        "caption_markdown",
        parameter_value(
            "string",
            "Optional Markdown caption to send with the media. Keep it short and user-facing.",
        ),
    );
    object_insert(
        &mut parameters,
        "file_name",
        parameter_value(
            "string",
            "Optional Telegram-side file name override for the uploaded file.",
        ),
    );
    object_insert(
        &mut parameters,
        "mime_type",
        parameter_value(
            "string",
            "Optional MIME type override for multipart upload when the default detection is not suitable.",
        ),
    );
    object_insert(
        &mut parameters,
        "disable_notification",
        parameter_value("boolean", "If true, send silently."),
    );
    let mut required: Vec<String> = Vec::new();
    required.push("path".to_string());
    required.push("kind".to_string());
    assert(texts_view(required@) =~= seq!["path"@, "kind"@]);
    assert(object_entries(parameters) =~= media_parameters());
    DynamicToolSpec {
        name: "telegram_send_media".to_string(),
        description: "Send a local file to the current Telegram chat as a photo, document, audio file, or voice note. Use this whenever the user should receive the actual file rather than only a text description. This is the default way to deliver screenshots, generated images, videos or screen recordings as files, audio outputs, and documents. If the artifact is a video and no dedicated video mode is available, send it as a document instead of skipping the upload.".to_string(),
        input_schema: schema_value(&required, parameters),
    }
}

// ---------------------------------------------------------------------------
// Asking for approval
// ---------------------------------------------------------------------------
/// The parameters of the tool that asks for approval.
pub open spec fn approval_parameters() -> Map<Seq<char>, JsonView> {
    map![
        "summary_markdown"@ => parameter("string"@, "Short Markdown summary explaining what needs approval."@),
        "proposed_reply"@ => parameter("string"@, "Proposed outbound message text to show the operator."@),
        "operator_chat_id"@ => parameter("integer"@, "Optional Telegram chat id override for where to send the approval request."@),
        "operator_thread_id"@ => parameter("integer"@, "Optional Telegram message_thread_id override for where to send the approval request."@),
    ]
}

/// The tool that asks for approval.
pub open spec fn is_approval_tool(tool: DynamicToolSpec) -> bool {
    &&& tool.name@ == "telegram_request_approval"@
    &&& tool.description@ == "Ask the configured Telegram operator to approve, deny, or steer a proposed action. Use this when a draft reply or sensitive action needs human approval before continuing. This tool blocks until the operator chooses Approve, Deny, or Steer and sends steering text."@
    &&& value_view(tool.input_schema) == tool_schema(
        seq!["summary_markdown"@, "proposed_reply"@],
        approval_parameters(),
    )
}

/// The tool that asks for approval.
pub fn telegram_request_approval_tool_spec() -> (tool: DynamicToolSpec)
    ensures
        is_approval_tool(tool),
{
    let mut parameters = object_new();
    object_insert(
        &mut parameters,
        "summary_markdown",
        parameter_value("string", "Short Markdown summary explaining what needs approval."),
    );
    object_insert(
        &mut parameters,
        "proposed_reply",
        parameter_value("string", "Proposed outbound message text to show the operator."),
    );
    object_insert(
        &mut parameters,
        "operator_chat_id",
        parameter_value(
            "integer",
            "Optional Telegram chat id override for where to send the approval request.",
        ),
    );
    object_insert(
        &mut parameters,
        "operator_thread_id",
        parameter_value(
            "integer",
            "Optional Telegram message_thread_id override for where to send the approval request.",
        ),
    );
    let mut required: Vec<String> = Vec::new();
    required.push("summary_markdown".to_string());
    required.push("proposed_reply".to_string());
    assert(texts_view(required@) =~= seq!["summary_markdown"@, "proposed_reply"@]);
    assert(object_entries(parameters) =~= approval_parameters());
    DynamicToolSpec {
        name: "telegram_request_approval".to_string(),
        description: "Ask the configured Telegram operator to approve, deny, or steer a proposed action. Use this when a draft reply or sensitive action needs human approval before continuing. This tool blocks until the operator chooses Approve, Deny, or Steer and sends steering text.".to_string(),
        input_schema: schema_value(&required, parameters),
    }
}

} // verus!
