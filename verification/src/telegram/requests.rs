//! Calls of the Telegram Bot API.
use vstd::prelude::*;
use vstd::string::*;

use crate::config::{AppConfig, TelegramConfig};
use crate::json::{
    array_value, bool_value, integer_value, no_entries, object_entries, object_get, object_insert,
    object_new, object_value, text_value, value_as_bool, value_as_i64, value_as_object,
    value_as_str, value_clone, value_view, values_view, JsonView,
};
use crate::markdown::blocks::markdown_html;
use crate::markdown::message::{message_chunks, sanitized};
use crate::markdown::{markdown_to_telegram_html, sanitize_telegram_html, split_telegram_message};
use crate::text::{cut_run, cut_trailing, only, opt_view, texts_view};

verus! {

// ---------------------------------------------------------------------------
// Addresses
// ---------------------------------------------------------------------------
/// The address of a method of the Bot API.
pub open spec fn method_url(telegram: TelegramConfig, method: Seq<char>) -> Seq<char> {
    cut_run(telegram.api_base_url@, only('/')) + "/bot"@ + telegram.bot_token@ + "/"@ + method
}

/// The address of a method of the Bot API.
pub fn api_url(telegram: &TelegramConfig, method: &str) -> (url: String)
    ensures
        url@ == method_url(*telegram, method@),
{
    let mut url = cut_trailing(telegram.api_base_url.as_str(), '/');
    url.append("/bot");
    url.append(telegram.bot_token.as_str());
    url.append("/");
    url.append(method);
    url
}

/// The address from which a file of the bot is downloaded.
pub open spec fn file_url(telegram: TelegramConfig, file_path: Seq<char>) -> Seq<char> {
    cut_run(telegram.api_base_url@, only('/')) + "/file/bot"@ + telegram.bot_token@ + "/"@
        + file_path
}

/// The address from which a file of the bot is downloaded.
pub fn download_url(telegram: &TelegramConfig, file_path: &str) -> (url: String)
    ensures
        url@ == file_url(*telegram, file_path@),
{
    let mut url = cut_trailing(telegram.api_base_url.as_str(), '/');
    url.append("/file/bot");
    url.append(telegram.bot_token.as_str());
    url.append("/");
    url.append(file_path);
    url
}

/// A call of a method with a JSON body.
#[derive(Debug)]
pub struct ApiCall {
    pub url: String,
    pub body: serde_json::Value,
}

/// `ApiCall` as a mathematical value.
#[verifier::ext_equal]
pub struct ApiCallView {
    pub url: Seq<char>,
    pub body: JsonView,
}

impl View for ApiCall {
    type V = ApiCallView;

    open spec fn view(&self) -> ApiCallView {
        ApiCallView { url: self.url@, body: value_view(self.body) }
    }
}

/// The view of a list of calls.
pub open spec fn calls_view(calls: Seq<ApiCall>) -> Seq<ApiCallView> {
    Seq::new(calls.len(), |i: int| calls[i]@)
}

// ---------------------------------------------------------------------------
// The webhook
// ---------------------------------------------------------------------------
/// Registers the webhook, and keeps the updates that wait.
pub fn set_webhook_call(config: &AppConfig) -> (call: ApiCall)
    ensures
        call@.url == method_url(config.telegram, "setWebhook"@),
        call@.body == JsonView::Object(
            map![
                "url"@ => JsonView::Text(
                    cut_run(config.telegram.public_base_url@, only('/')) + ("/telegram/"@
                        + config.telegram.webhook_secret@),
                ),
                "drop_pending_updates"@ => JsonView::Bool(false),
            ],
        ),
{
    let target = config.webhook_url();
    let mut body = object_new();
    object_insert(&mut body, "url", text_value(target.as_str()));
    object_insert(&mut body, "drop_pending_updates", bool_value(false));
    ApiCall { url: api_url(&config.telegram, "setWebhook"), body: object_value(body) }
}

/// Removes the webhook.
pub fn delete_webhook_call(config: &AppConfig) -> (call: ApiCall)
    ensures
        call@.url == method_url(config.telegram, "deleteWebhook"@),
        call@.body == JsonView::Object(no_entries()),
{
    ApiCall {
        url: api_url(&config.telegram, "deleteWebhook"),
        body: object_value(object_new()),
    }
}

/// The entry of an object under `key`.
pub open spec fn entry_of(value: JsonView, key: Seq<char>) -> Option<JsonView> {
    match value {
        JsonView::Object(entries) => if entries.contains_key(key) {
            Some(entries[key])
        } else {
            None
        },
        _ => None,
    }
}

/// The entry of an object under `key`.
fn value_entry<'a>(value: &'a serde_json::Value, key: &str) -> (entry: Option<
    &'a serde_json::Value,
>)
    ensures
        match entry {
            Some(found) => entry_of(value_view(*value), key@) == Some(value_view(*found)),
            None => entry_of(value_view(*value), key@) is None,
        },
{
    match value_as_object(value) {
        Some(object) => object_get(object, key),
        None => None,
    }
}

/// Whether Telegram says that it did what was asked.
pub fn response_accepted(response: &serde_json::Value) -> (yes: bool)
    ensures
        yes == (entry_of(value_view(*response), "ok"@) == Some(JsonView::Bool(true))),
{
    match value_entry(response, "ok") {
        Some(value) => match value_as_bool(value) {
            Some(truth) => truth,
            None => false,
        },
        None => false,
    }
}

/// What Telegram says under `key` of its result.
pub open spec fn result_entry(response: JsonView, key: Seq<char>) -> Option<JsonView> {
    match entry_of(response, "result"@) {
        Some(result) => entry_of(result, key),
        None => None,
    }
}

/// The path of the file that a call of `getFile` found.
pub fn response_file_path(response: &serde_json::Value) -> (path: Option<String>)
    ensures
        match path {
            Some(found) => result_entry(value_view(*response), "file_path"@) == Some(
                JsonView::Text(found@),
            ),
            None => !(result_entry(value_view(*response), "file_path"@) matches Some(
                JsonView::Text(_),
            )),
        },
{
    match value_entry(response, "result") {
        Some(result) => match value_entry(result, "file_path") {
            Some(value) => match value_as_str(value) {
                Some(text) => Some(text.to_string()),
                None => None,
            },
            None => None,
        },
        None => None,
    }
}

/// The id of the message that a call sent.
pub fn response_message_id(response: &serde_json::Value) -> (id: Option<i64>)
    ensures
        match id {
            Some(found) => result_entry(value_view(*response), "message_id"@) == Some(
                JsonView::Integer(found as int),
            ),
            None => !(result_entry(value_view(*response), "message_id"@) matches Some(
                JsonView::Integer(n),
            ) && i64::MIN <= n <= i64::MAX),
        },
{
    match value_entry(response, "result") {
        Some(result) => match value_entry(result, "message_id") {
            Some(value) => value_as_i64(value),
            None => None,
        },
        None => None,
    }
}

// ---------------------------------------------------------------------------
// Messages
// ---------------------------------------------------------------------------
/// The longest message that Telegram takes, in characters.
pub const MESSAGE_LIMIT: usize = 4096;

/// `entries`, and the thread where there is one.
pub open spec fn with_thread(entries: Map<Seq<char>, JsonView>, thread_id: Option<i64>) -> Map<
    Seq<char>,
    JsonView,
> {
    match thread_id {
        Some(thread) => entries.insert("message_thread_id"@, JsonView::Integer(thread as int)),
        None => entries,
    }
}

/// The body of a message in HTML.
pub open spec fn message_entries(
    chat_id: i64,
    thread_id: Option<i64>,
    disable_notification: bool,
    html: Seq<char>,
) -> Map<Seq<char>, JsonView> {
    with_thread(
        map![
            "chat_id"@ => JsonView::Integer(chat_id as int),
            "text"@ => JsonView::Text(html),
            "parse_mode"@ => JsonView::Text("HTML"@),
            "disable_notification"@ => JsonView::Bool(disable_notification),
        ],
        thread_id,
    )
}

/// The texts of the messages that carry `markdown`: rendered, sanitized and
/// split at the limit.
pub open spec fn markdown_messages(markdown: Seq<char>) -> Seq<Seq<char>> {
    message_chunks(sanitized(markdown_html(markdown)), MESSAGE_LIMIT as int)
}

/// The calls that send `markdown` to a thread of a chat.
pub open spec fn markdown_calls(
    telegram: TelegramConfig,
    chat_id: i64,
    thread_id: Option<i64>,
    disable_notification: bool,
    markdown: Seq<char>,
) -> Seq<ApiCallView> {
    let texts = markdown_messages(markdown);
    Seq::new(
        texts.len(),
        |i: int|
            ApiCallView {
                url: method_url(telegram, "sendMessage"@),
                body: JsonView::Object(
                    message_entries(chat_id, thread_id, disable_notification, texts[i]),
                ),
            },
    )
}

/// The texts of the messages that carry `markdown`.
fn render_messages(markdown: &str) -> (texts: Vec<String>)
    ensures
        texts_view(texts@) == markdown_messages(markdown@),
{
    let rendered = markdown_to_telegram_html(markdown);
    let html = sanitize_telegram_html(rendered.as_str());
    split_telegram_message(html.as_str(), MESSAGE_LIMIT)
}

/// The body of a message in HTML.
fn message_object(
    chat_id: i64,
    thread_id: Option<i64>,
    disable_notification: bool,
    html: &str,
) -> (object: serde_json::Map<String, serde_json::Value>)
    ensures
        object_entries(object) == message_entries(chat_id, thread_id, disable_notification, html@),
{
    let mut body = object_new();
    object_insert(&mut body, "chat_id", integer_value(chat_id));
    object_insert(&mut body, "text", text_value(html));
    object_insert(&mut body, "parse_mode", text_value("HTML"));
    object_insert(&mut body, "disable_notification", bool_value(disable_notification));
    if let Some(thread) = thread_id {
        object_insert(&mut body, "message_thread_id", integer_value(thread));
    }
    body
}

/// The calls that send `markdown` to a thread of a chat, in order.
pub fn send_markdown_calls(
    telegram: &TelegramConfig,
    chat_id: i64,
    thread_id: Option<i64>,
    disable_notification: bool,
    markdown: &str,
) -> (calls: Vec<ApiCall>)
    ensures
        calls_view(calls@) == markdown_calls(
            *telegram,
            chat_id,
            thread_id,
            disable_notification,
            markdown@,
        ),
{
    let texts = render_messages(markdown);
    let mut calls: Vec<ApiCall> = Vec::new();
    let mut i: usize = 0;
    while i < texts.len()
        invariant
            i <= texts.len(),
            calls@.len() == i,
            forall|k: int|
                0 <= k < i ==> (#[trigger] calls@[k])@ == (ApiCallView {
                    url: method_url(*telegram, "sendMessage"@),
                    body: JsonView::Object(
                        message_entries(chat_id, thread_id, disable_notification, texts@[k]@),
                    ),
                }),
        decreases texts.len() - i,
    {
        let body = message_object(chat_id, thread_id, disable_notification, texts[i].as_str());
        calls.push(
            ApiCall { url: api_url(telegram, "sendMessage"), body: object_value(body) },
        );
        i += 1;
    }
    assert(calls_view(calls@) =~= markdown_calls(
        *telegram,
        chat_id,
        thread_id,
        disable_notification,
        markdown@,
    ));
    calls
}

/// Every message of a text goes to the same chat, and into the same thread of
/// it, or into none where none is named.
pub proof fn law_messages_stay_in_their_thread(
    telegram: TelegramConfig,
    chat_id: i64,
    thread_id: Option<i64>,
    disable_notification: bool,
    markdown: Seq<char>,
    i: int,
)
    requires
        0 <= i < markdown_messages(markdown).len(),
    ensures
        ({
            let call = markdown_calls(
                telegram,
                chat_id,
                thread_id,
                disable_notification,
                markdown,
            )[i];
            &&& entry_of(call.body, "chat_id"@) == Some(JsonView::Integer(chat_id as int))
            &&& entry_of(call.body, "message_thread_id"@) == match thread_id {
                Some(thread) => Some(JsonView::Integer(thread as int)),
                None => None,
            }
            &&& entry_of(call.body, "text"@) == Some(JsonView::Text(markdown_messages(markdown)[i]))
            &&& entry_of(call.body, "disable_notification"@) == Some(
                JsonView::Bool(disable_notification),
            )
        }),
{
    reveal_strlit("chat_id");
    reveal_strlit("text");
    reveal_strlit("parse_mode");
    reveal_strlit("disable_notification");
    reveal_strlit("message_thread_id");
    assert("chat_id"@.len() == 7);
    assert("text"@.len() == 4);
    assert("parse_mode"@.len() == 10);
    assert("disable_notification"@.len() == 20);
    assert("message_thread_id"@.len() == 17);
}

/// The calls that send `markdown` with a keyboard under its last message.
pub open spec fn keyboard_calls(plain: Seq<ApiCallView>, keyboard: JsonView) -> Seq<ApiCallView> {
    if plain.len() == 0 {
        plain
    } else {
        plain.drop_last().push(
            ApiCallView {
                url: plain.last().url,
                body: match plain.last().body {
                    JsonView::Object(entries) => JsonView::Object(
                        entries.insert("reply_markup"@, keyboard),
                    ),
                    other => other,
                },
            },
        )
    }
}

/// The calls that send `markdown` with a keyboard under its last message.
pub fn send_markdown_with_keyboard_calls(
    telegram: &TelegramConfig,
    chat_id: i64,
    thread_id: Option<i64>,
    disable_notification: bool,
    markdown: &str,
    keyboard: &serde_json::Value,
) -> (calls: Vec<ApiCall>)
    ensures
        calls_view(calls@) == keyboard_calls(
            markdown_calls(*telegram, chat_id, thread_id, disable_notification, markdown@),
            value_view(*keyboard),
        ),
{
    let texts = render_messages(markdown);
    let mut calls: Vec<ApiCall> = Vec::new();
    let mut i: usize = 0;
    while i < texts.len()
        invariant
            i <= texts.len(),
            calls@.len() == i,
            forall|k: int|
                0 <= k < i ==> (#[trigger] calls@[k])@ == (ApiCallView {
                    url: method_url(*telegram, "sendMessage"@),
                    body: JsonView::Object(
                        if k == texts@.len() - 1 {
                            message_entries(
                                chat_id,
                                thread_id,
                                disable_notification,
                                texts@[k]@,
                            ).insert("reply_markup"@, value_view(*keyboard))
                        } else {
                            message_entries(chat_id, thread_id, disable_notification, texts@[k]@)
                        },
                    ),
                }),
        decreases texts.len() - i,
    {
        let mut body = message_object(chat_id, thread_id, disable_notification, texts[i].as_str());
        if i == texts.len() - 1 {
            object_insert(&mut body, "reply_markup", value_clone(keyboard));
        }
        calls.push(
            ApiCall { url: api_url(telegram, "sendMessage"), body: object_value(body) },
        );
        i += 1;
    }
    assert(calls_view(calls@) =~= keyboard_calls(
        markdown_calls(*telegram, chat_id, thread_id, disable_notification, markdown@),
        value_view(*keyboard),
    ));
    calls
}

// ---------------------------------------------------------------------------
// Buttons
// ---------------------------------------------------------------------------
/// The body of an answer to a button.
pub open spec fn answer_entries(
    callback_id: Seq<char>,
    text: Option<Seq<char>>,
    show_alert: bool,
) -> Map<Seq<char>, JsonView> {
    let plain = map![
        "callback_query_id"@ => JsonView::Text(callback_id),
        "show_alert"@ => JsonView::Bool(show_alert),
    ];
    match text {
        Some(words) => plain.insert("text"@, JsonView::Text(words)),
        None => plain,
    }
}

/// Answers a button that was pressed.
pub fn answer_callback_call(
    telegram: &TelegramConfig,
    callback_id: &str,
    text: &Option<String>,
    show_alert: bool,
) -> (call: ApiCall)
    ensures
        call@.url == method_url(*telegram, "answerCallbackQuery"@),
        call@.body == JsonView::Object(answer_entries(callback_id@, opt_view(*text), show_alert)),
{
    let mut body = object_new();
    object_insert(&mut body, "callback_query_id", text_value(callback_id));
    object_insert(&mut body, "show_alert", bool_value(show_alert));
    if let Some(words) = text {
        object_insert(&mut body, "text", text_value(words.as_str()));
    }
    ApiCall { url: api_url(telegram, "answerCallbackQuery"), body: object_value(body) }
}

/// The body of a call that takes the keyboard of a message away.
pub open spec fn remove_keyboard_entries(chat_id: i64, message_id: i64) -> Map<
    Seq<char>,
    JsonView,
> {
    map![
        "chat_id"@ => JsonView::Integer(chat_id as int),
        "message_id"@ => JsonView::Integer(message_id as int),
        "reply_markup"@ => JsonView::Object(
            map!["inline_keyboard"@ => JsonView::Array(Seq::empty())],
        ),
    ]
}

/// Takes the keyboard of a message away.
pub fn remove_keyboard_call(telegram: &TelegramConfig, chat_id: i64, message_id: i64) -> (call:
    ApiCall)
    ensures
        call@.url == method_url(*telegram, "editMessageReplyMarkup"@),
        call@.body == JsonView::Object(remove_keyboard_entries(chat_id, message_id)),
{
    let mut markup = object_new();
    let rows: Vec<serde_json::Value> = Vec::new();
    assert(values_view(rows@) =~= Seq::<JsonView>::empty());
    object_insert(&mut markup, "inline_keyboard", array_value(rows));
    let mut body = object_new();
    object_insert(&mut body, "chat_id", integer_value(chat_id));
    object_insert(&mut body, "message_id", integer_value(message_id));
    object_insert(&mut body, "reply_markup", object_value(markup));
    ApiCall { url: api_url(telegram, "editMessageReplyMarkup"), body: object_value(body) }
}

} // verus!
