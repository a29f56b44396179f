//! What holds of messages, files and calls as a whole.
use vstd::prelude::*;

use crate::basics::{law_case, law_cut};
use crate::channels::MediaKind;
use crate::config::TelegramConfig;
use crate::json::JsonView;
use crate::markdown::blocks::markdown_html;
use crate::markdown::message::{
    ink, inks, law_messages_fit, law_splitting_keeps_ink, message_chunks, sanitized,
};
use crate::markdown::tags::law_rendered_is_sanitized;
use crate::numbers::decimal_int;
use crate::paths::{path_extension, path_join, path_name};
use crate::patterns::{lines, replace_char};
use crate::telegram::inbound::{is_new_chat_command, normalized};
use crate::telegram::media::{
    attachment_of, attachment_place, image_type, upload_of, wanted_file,
};
use crate::telegram::requests::{
    answer_entries, entry_of, file_url, keyboard_calls, markdown_calls, markdown_messages,
    message_entries, method_url, remove_keyboard_entries, result_entry,
};
use crate::telegram::types::{
    AttachmentView, InboundView, OutboundMediaView, TelegramMessage, TelegramUpdate,
};
use crate::text::{has_ink, trim};

verus! {

// ---------------------------------------------------------------------------
// Messages
// ---------------------------------------------------------------------------
/// The words of a message reach the gateway, whatever is attached to it: its
/// text, or its caption where it has no text.
pub proof fn law_words_of_a_message(
    update: TelegramUpdate,
    message: TelegramMessage,
    allowed: Seq<i64>,
)
    requires
        update.message == Some(message) || update.message is None && update.edited_message == Some(
            message,
        ),
        normalized(update, allowed) is Some,
    ensures
        message.text matches Some(text) ==> (normalized(update, allowed)->0).text == Some(text@),
        message.text is None ==> (message.caption matches Some(caption) ==> (normalized(
            update,
            allowed,
        )->0).text == Some(caption@)),
        message.text is None && message.caption is None ==> (normalized(update, allowed)->0).text
            is None,
{
}

/// What a message answers to is told in its words: those of the message replied
/// to, its text or else its caption, and the part that is quoted.
pub proof fn law_answered_message(
    update: TelegramUpdate,
    message: TelegramMessage,
    allowed: Seq<i64>,
)
    requires
        update.message == Some(message) || update.message is None && update.edited_message == Some(
            message,
        ),
        normalized(update, allowed) is Some,
    ensures
        ({
            let inbound = normalized(update, allowed)->0;
            &&& message.reply_to_message matches Some(replied) ==> {
                &&& replied.text matches Some(text) ==> inbound.reply_to_text == Some(text@)
                &&& replied.text is None ==> (replied.caption matches Some(caption)
                    ==> inbound.reply_to_text == Some(caption@))
                &&& replied.text is None && replied.caption is None ==> inbound.reply_to_text
                    is None
            }
            &&& message.reply_to_message is None ==> inbound.reply_to_text is None
            &&& message.quote matches Some(quote) ==> inbound.quoted_text == Some(quote.text@)
            &&& message.quote is None ==> inbound.quoted_text is None
        }),
{
}

/// What a message carries reaches the gateway: the last size of its photo, its
/// document with its name, and its voice recording with its length.
pub proof fn law_carried_files(
    update: TelegramUpdate,
    message: TelegramMessage,
    allowed: Seq<i64>,
)
    requires
        update.message == Some(message) || update.message is None && update.edited_message == Some(
            message,
        ),
        normalized(update, allowed) is Some,
    ensures
        ({
            let inbound = normalized(update, allowed)->0;
            &&& message.photo matches Some(sizes) ==> (sizes@.len() > 0 ==> inbound.image_file_id
                == Some(sizes@[sizes@.len() - 1].file_id@))
            &&& message.photo matches Some(sizes) ==> (sizes@.len() == 0 ==> inbound.image_file_id
                is None)
            &&& message.photo is None ==> inbound.image_file_id is None
            &&& message.document matches Some(document) ==> {
                &&& inbound.document_file_id == Some(document.file_id@)
                &&& document.file_name matches Some(name) ==> inbound.document_name == Some(name@)
                &&& document.file_name is None ==> inbound.document_name is None
            }
            &&& message.document is None ==> inbound.document_file_id is None
                && inbound.document_name is None
            &&& message.voice matches Some(voice) ==> inbound.voice_file_id == Some(voice.file_id@)
                && inbound.voice_duration == voice.duration
            &&& message.voice is None ==> inbound.voice_file_id is None && inbound.voice_duration
                is None
        }),
{
}

/// A message is placed where it was sent, and told to be from who sent it: a
/// user by first and last name, or else a chat by its title.
pub proof fn law_place_and_sender(
    update: TelegramUpdate,
    message: TelegramMessage,
    allowed: Seq<i64>,
)
    requires
        update.message == Some(message) || update.message is None && update.edited_message == Some(
            message,
        ),
        normalized(update, allowed) is Some,
    ensures
        ({
            let inbound = normalized(update, allowed)->0;
            &&& inbound.chat_id == message.chat.id
            &&& inbound.message_id == message.message_id
            &&& inbound.thread_id == message.message_thread_id
            &&& message.from matches Some(user) ==> {
                &&& inbound.sender_id == user.id
                &&& user.first_name matches Some(first) ==> (user.last_name matches Some(last)
                    ==> (last@.len() > 0 ==> inbound.sender_name == first@ + " "@ + last@))
                &&& user.first_name matches Some(first) ==> (user.last_name is None
                    ==> inbound.sender_name == first@)
                &&& user.first_name matches Some(first) ==> (user.last_name matches Some(last)
                    ==> (last@.len() == 0 ==> inbound.sender_name == first@))
                &&& user.first_name is None ==> (user.last_name matches Some(last) ==> (last@.len()
                    > 0 ==> inbound.sender_name == "Unknown"@ + " "@ + last@))
                &&& user.first_name is None && user.last_name is None ==> inbound.sender_name
                    == "Unknown"@
                &&& user.first_name is None ==> (user.last_name matches Some(last) ==> (last@.len()
                    == 0 ==> inbound.sender_name == "Unknown"@))
            }
            &&& message.from is None ==> (message.sender_chat matches Some(chat) && {
                &&& inbound.sender_id == chat.id
                &&& chat.title matches Some(title) ==> inbound.sender_name == title@
                &&& chat.title is None ==> inbound.sender_name == "Unknown"@
            })
        }),
{
}

/// A message reaches the gateway exactly where its sender is known and may use
/// the bot, and where it holds text, a photo, a document or a recording.
pub proof fn law_who_gets_through(
    update: TelegramUpdate,
    message: TelegramMessage,
    allowed: Seq<i64>,
)
    requires
        update.message == Some(message) || update.message is None && update.edited_message == Some(
            message,
        ),
    ensures
        normalized(update, allowed) is Some <==> {
            &&& message.from is Some || message.sender_chat is Some
            &&& {
                ||| allowed.len() == 0
                ||| message.from matches Some(user) && allowed.contains(user.id)
                ||| message.from is None && (message.sender_chat matches Some(chat)
                    && allowed.contains(chat.id))
            }
            &&& {
                ||| message.text is Some
                ||| message.photo matches Some(sizes) && sizes@.len() > 0
                ||| message.document is Some
                ||| message.voice is Some
            }
        },
{
}

/// Nothing but a message or an edited message gets through: what is said in
/// business chats, and buttons, are none of the gateway's messages.
pub proof fn law_other_updates(update: TelegramUpdate, allowed: Seq<i64>)
    ensures
        update.message is None && update.edited_message is None ==> normalized(update, allowed)
            is None,
{
}

/// A chat starts anew at `/new`, in small or capital letters, and at the same
/// in Russian; white space around either does not matter.
pub proof fn law_new_chat_commands(text: Seq<char>)
    ensures
        is_new_chat_command(Some(text)) <==> {
            let words = trim(text);
            ||| words == "новый тред"@
            ||| words.len() == 4 && words[0] == '/' && (words[1] == 'n' || words[1] == 'N') && (
            words[2] == 'e' || words[2] == 'E') && (words[3] == 'w' || words[3] == 'W')
        },
        !is_new_chat_command(None),
{
    reveal_strlit("/new");
    reveal_strlit("новый тред");
    let words = trim(text);
    law_case(words, "/new"@);
    law_case(words, "новый тред"@);
    let ru = "новый тред"@;
    if words.len() == ru.len() && forall|i: int|
        0 <= i < words.len() ==> {
            ||| #[trigger] words[i] == ru[i]
            ||| 'A' <= words[i] <= 'Z' && ru[i] as int == words[i] as int + 32
            ||| 'A' <= ru[i] <= 'Z' && words[i] as int == ru[i] as int + 32
        } {
        assert(words =~= ru);
    }
    if words.len() == 4 {
        assert(words[0] == words[0] && words[1] == words[1] && words[2] == words[2] && words[3]
            == words[3]);
    }
}

// ---------------------------------------------------------------------------
// Files
// ---------------------------------------------------------------------------
/// The form of an upload names the chat, and the thread where there is one, and
/// says whether the message is silent.
pub proof fn law_upload_goes_to_its_chat(
    telegram: TelegramConfig,
    kind: MediaKind,
    media: OutboundMediaView,
)
    ensures
        ({
            let fields = upload_of(telegram, kind, media).fields;
            &&& fields.contains(("chat_id"@, decimal_int(media.chat_id as int)))
            &&& media.thread_id matches Some(thread) ==> fields.contains(
                ("message_thread_id"@, decimal_int(thread as int)),
            )
            &&& media.thread_id is None ==> forall|i: int|
                0 <= i < fields.len() ==> (#[trigger] fields[i]).0 != "message_thread_id"@
            &&& media.disable_notification ==> fields.contains(
                ("disable_notification"@, "true"@),
            )
            &&& !media.disable_notification ==> fields.contains(
                ("disable_notification"@, "false"@),
            )
        }),
{
    lemma_field_names();
    let fields = upload_of(telegram, kind, media).fields;
    let n: int = if media.thread_id is Some {
        2
    } else {
        1
    };
    assert(fields[0] == ("chat_id"@, decimal_int(media.chat_id as int)));
    if let Some(thread) = media.thread_id {
        assert(fields[1] == ("message_thread_id"@, decimal_int(thread as int)));
    }
    assert(fields[n].0 == "disable_notification"@);
    assert(fields[n].1 == if media.disable_notification {
        "true"@
    } else {
        "false"@
    });
}

proof fn lemma_field_names()
    ensures
        "chat_id"@.len() == 7,
        "message_thread_id"@.len() == 17,
        "disable_notification"@.len() == 20,
        "caption"@.len() == 7,
        "parse_mode"@.len() == 10,
        "chat_id"@ != "caption"@,
{
    reveal_strlit("chat_id");
    reveal_strlit("message_thread_id");
    reveal_strlit("disable_notification");
    reveal_strlit("caption");
    reveal_strlit("parse_mode");
    assert("chat_id"@[1] != "caption"@[1]);
}

/// A rendered caption is sent with its file, as HTML; a blank one is not sent.
pub proof fn law_upload_carries_its_caption(
    telegram: TelegramConfig,
    kind: MediaKind,
    media: OutboundMediaView,
    markdown: Seq<char>,
)
    ensures
        media.caption_html == Some(markdown_html(markdown)) && has_ink(markdown_html(markdown)) ==> {
            let fields = upload_of(telegram, kind, media).fields;
            &&& fields.contains(("caption"@, markdown_html(markdown)))
            &&& fields.contains(("parse_mode"@, "HTML"@))
        },
        media.caption_html matches Some(html) ==> (has_ink(html) ==> {
            let fields = upload_of(telegram, kind, media).fields;
            &&& fields.contains(("caption"@, sanitized(html)))
            &&& fields.contains(("parse_mode"@, "HTML"@))
        }),
        upload_of(telegram, kind, media).fields.len() == 2 + (if media.thread_id is Some {
            1int
        } else {
            0
        }) + (if media.caption_html matches Some(html) && has_ink(html) {
            2int
        } else {
            0
        }),
        media.caption_html is None || (media.caption_html matches Some(html) && !has_ink(html)) ==> {
            let fields = upload_of(telegram, kind, media).fields;
            forall|i: int|
                0 <= i < fields.len() ==> (#[trigger] fields[i]).0 != "caption"@ && fields[i].0
                    != "parse_mode"@
        },
{
    lemma_field_names();
    let fields = upload_of(telegram, kind, media).fields;
    let n: int = if media.thread_id is Some {
        3
    } else {
        2
    };
    if media.caption_html == Some(markdown_html(markdown)) && has_ink(markdown_html(markdown)) {
        law_rendered_is_sanitized(markdown);
        assert(fields[n] == ("caption"@, markdown_html(markdown)));
        assert(fields[n + 1] == ("parse_mode"@, "HTML"@));
    }
    if let Some(html) = media.caption_html {
        if has_ink(html) {
            assert(fields[n] == ("caption"@, sanitized(html)));
            assert(fields[n + 1] == ("parse_mode"@, "HTML"@));
        }
    }
}

/// A file is sent from its path, under the name and the type that are given for
/// it; else under the name that its path has, and a photo under the type that
/// goes with its extension.
pub proof fn law_upload_keeps_the_file(
    telegram: TelegramConfig,
    kind: MediaKind,
    media: OutboundMediaView,
)
    ensures
        ({
            let upload = upload_of(telegram, kind, media);
            &&& upload.path == media.path
            &&& media.file_name_override matches Some(name) ==> upload.file_name == name
            &&& media.file_name_override is None ==> (path_name(media.path) matches Some(name)
                ==> upload.file_name == name)
            &&& media.file_name_override is None && path_name(media.path) is None
                ==> upload.file_name == if kind is Photo {
                "image.png"@
            } else {
                "file"@
            }
            &&& media.mime_type_override matches Some(mime) ==> upload.mime_type == Some(mime)
            &&& media.mime_type_override is None && !(kind is Photo) ==> upload.mime_type is None
            &&& media.mime_type_override is None && kind is Photo ==> {
                &&& path_extension(media.path) == Some("png"@) ==> upload.mime_type == Some(
                    "image/png"@,
                )
                &&& path_extension(media.path) == Some("jpg"@) || path_extension(media.path)
                    == Some("jpeg"@) ==> upload.mime_type == Some("image/jpeg"@)
                &&& path_extension(media.path) == Some("webp"@) ==> upload.mime_type == Some(
                    "image/webp"@,
                )
                &&& path_extension(media.path) is None ==> upload.mime_type is None
            }
        }),
        image_type(media.path) is Some ==> path_extension(media.path) == Some("png"@)
            || path_extension(media.path) == Some("jpg"@) || path_extension(media.path) == Some(
            "jpeg"@,
        ) || path_extension(media.path) == Some("webp"@),
{
    reveal_strlit("png");
    reveal_strlit("jpg");
    reveal_strlit("jpeg");
    reveal_strlit("webp");
    assert("png"@[0] == 'p' && "jpg"@[0] == 'j' && "jpeg"@[0] == 'j' && "webp"@[0] == 'w');
}

/// Each kind of file is sent by its own method, in the part that the method
/// reads.
pub proof fn law_upload_methods(
    telegram: TelegramConfig,
    kind: MediaKind,
    media: OutboundMediaView,
)
    ensures
        ({
            let upload = upload_of(telegram, kind, media);
            &&& kind is Photo ==> upload.url == method_url(telegram, "sendPhoto"@)
                && upload.part_name == "photo"@
            &&& kind is Document ==> upload.url == method_url(telegram, "sendDocument"@)
                && upload.part_name == "document"@
            &&& kind is Audio ==> upload.url == method_url(telegram, "sendAudio"@)
                && upload.part_name == "audio"@
            &&& kind is Voice ==> upload.url == method_url(telegram, "sendVoice"@)
                && upload.part_name == "voice"@
        }),
{
}

/// The file of a message is downloaded, and kept as what it is: the photo where
/// there is one, else the recording, else the document.
pub proof fn law_downloads(inbound: InboundView, path: Seq<char>)
    ensures
        inbound.image_file_id matches Some(id) ==> wanted_file(inbound) matches Some(wanted)
            && wanted.0 == id && wanted.1 == "image"@ && attachment_of(inbound, path)
            == AttachmentView::Image(path),
        inbound.image_file_id is None ==> (inbound.voice_file_id matches Some(id) ==> wanted_file(
            inbound,
        ) matches Some(wanted) && wanted.0 == id && wanted.1 == "voice"@ && attachment_of(
            inbound,
            path,
        ) == (AttachmentView::Voice {
            path,
            duration_seconds: inbound.voice_duration,
            transcript: None,
        })),
        inbound.image_file_id is None && inbound.voice_file_id is None ==> (
        inbound.document_file_id matches Some(id) ==> wanted_file(inbound) matches Some(wanted)
            && wanted.0 == id && attachment_of(inbound, path) == AttachmentView::File(path) && (
        inbound.document_name is None ==> wanted.1 == "file"@) && (inbound.document_name matches Some(
            name,
        ) ==> wanted.1 == replace_char(name, '/', "_"@))),
        wanted_file(inbound) is None <==> inbound.image_file_id is None && inbound.voice_file_id
            is None && inbound.document_file_id is None,
{
}

/// A downloaded file is kept with the files of its chat, under a name made of
/// its label, the id, and the extension that it has on the server.
pub proof fn law_download_place(
    root: Seq<char>,
    chat_id: i64,
    label: Seq<char>,
    id: Seq<char>,
    file_path: Seq<char>,
)
    ensures
        path_extension(file_path) matches Some(ext) ==> attachment_place(
            root,
            chat_id,
            label,
            id,
            file_path,
        ) == path_join(
            path_join(root, decimal_int(chat_id as int)),
            label + "-"@ + id + "."@ + ext,
        ),
        path_extension(file_path) is None ==> attachment_place(
            root,
            chat_id,
            label,
            id,
            file_path,
        ) == path_join(
            path_join(root, decimal_int(chat_id as int)),
            label + "-"@ + id + "."@ + "bin"@,
        ),
{
}

// ---------------------------------------------------------------------------
// Calls
// ---------------------------------------------------------------------------
/// The address of a method is made of the server, the token and the method, and
/// that of a file of the server, the token and the path; slashes at the end of
/// the server's address do not matter.
pub proof fn law_addresses(a: TelegramConfig, b: TelegramConfig, method: Seq<char>)
    ensures
        a.api_base_url@.len() == 0 || a.api_base_url@.last() != '/' ==> method_url(a, method)
            == a.api_base_url@ + "/bot"@ + a.bot_token@ + "/"@ + method && file_url(a, method)
            == a.api_base_url@ + "/file/bot"@ + a.bot_token@ + "/"@ + method,
        b.api_base_url@ == a.api_base_url@.push('/') && b.bot_token@ == a.bot_token@ ==> method_url(
            a,
            method,
        ) == method_url(b, method) && file_url(a, method) == file_url(b, method),
{
    law_cut(a.api_base_url@, '/');
}

/// A message is sent as HTML, with a call of `sendMessage`.
pub proof fn law_message_calls(
    telegram: TelegramConfig,
    chat_id: i64,
    thread_id: Option<i64>,
    silent: bool,
    markdown: Seq<char>,
    i: int,
)
    requires
        0 <= i < markdown_messages(markdown).len(),
    ensures
        ({
            let calls = markdown_calls(telegram, chat_id, thread_id, silent, markdown);
            &&& calls.len() == markdown_messages(markdown).len()
            &&& calls[i].url == method_url(telegram, "sendMessage"@)
            &&& calls[i].body matches JsonView::Object(entries) && {
                &&& entries.contains_key("text"@) && entries["text"@] == JsonView::Text(
                    markdown_messages(markdown)[i],
                )
                &&& entries.contains_key("parse_mode"@) && entries["parse_mode"@]
                    == JsonView::Text("HTML"@)
                &&& entries.contains_key("chat_id"@) && entries["chat_id"@] == JsonView::Integer(
                    chat_id as int,
                )
                &&& entries.contains_key("disable_notification"@)
                    && entries["disable_notification"@] == JsonView::Bool(silent)
                &&& thread_id matches Some(thread) ==> entries.contains_key("message_thread_id"@)
                    && entries["message_thread_id"@] == JsonView::Integer(thread as int)
                &&& thread_id is None ==> !entries.contains_key("message_thread_id"@)
                &&& forall|key: Seq<char>| #[trigger]
                    entries.contains_key(key) ==> key == "text"@ || key == "parse_mode"@ || key
                        == "chat_id"@ || key == "disable_notification"@ || key
                        == "message_thread_id"@
                &&& !entries.contains_key("reply_markup"@)
            }
        }),
{
    lemma_field_names();
    reveal_strlit("text");
    reveal_strlit("reply_markup");
    assert("text"@.len() == 4);
    assert("reply_markup"@.len() == 12);
    assert(message_entries(chat_id, thread_id, silent, markdown_messages(markdown)[i]).contains_key(
        "text"@,
    ));
}

/// Markdown that renders to at most 4096 characters goes out as it is rendered,
/// in one message; longer text is parted between lines into messages of at most
/// 4096 characters, as far as its lines are no longer, and nothing but white
/// space is lost.
pub proof fn law_messages_of_markdown(markdown: Seq<char>)
    ensures
        markdown_messages(markdown) == message_chunks(markdown_html(markdown), 4096),
        (forall|k: int|
            0 <= k < lines(markdown_html(markdown)).len() ==> (#[trigger] lines(
                markdown_html(markdown),
            )[k]).len() <= 4096) ==> forall|k: int|
            0 <= k < markdown_messages(markdown).len() ==> (#[trigger] markdown_messages(
                markdown,
            )[k]).len() <= 4096,
        markdown_html(markdown).len() <= 4096 ==> markdown_messages(markdown) == seq![
            markdown_html(markdown),
        ],
        inks(markdown_messages(markdown)) == ink(markdown_html(markdown)),
{
    law_rendered_is_sanitized(markdown);
    law_splitting_keeps_ink(markdown_html(markdown), 4096);
    if forall|k: int|
        0 <= k < lines(markdown_html(markdown)).len() ==> (#[trigger] lines(
            markdown_html(markdown),
        )[k]).len() <= 4096 {
        law_messages_fit(markdown_html(markdown), 4096);
    }
}

/// A keyboard stands under the last message, and nothing else is changed.
pub proof fn law_keyboard_under_the_last_message(
    telegram: TelegramConfig,
    chat_id: i64,
    thread_id: Option<i64>,
    silent: bool,
    markdown: Seq<char>,
    keyboard: JsonView,
    key: Seq<char>,
    i: int,
)
    requires
        0 <= i < markdown_messages(markdown).len(),
    ensures
        ({
            let plain = markdown_calls(telegram, chat_id, thread_id, silent, markdown);
            let calls = keyboard_calls(plain, keyboard);
            &&& calls.len() == plain.len()
            &&& i < plain.len() - 1 ==> calls[i] == plain[i]
            &&& calls[i].url == plain[i].url
            &&& key != "reply_markup"@ ==> entry_of(calls[i].body, key) == entry_of(
                plain[i].body,
                key,
            )
            &&& i == plain.len() - 1 ==> entry_of(calls[i].body, "reply_markup"@) == Some(keyboard)
        }),
{
}

/// The answer to a button names the button, and says what is to be shown, and
/// whether as an alert.
pub proof fn law_button_answers(callback_id: Seq<char>, text: Option<Seq<char>>, show_alert: bool)
    ensures
        ({
            let entries = answer_entries(callback_id, text, show_alert);
            &&& entries.contains_key("callback_query_id"@) && entries["callback_query_id"@]
                == JsonView::Text(callback_id)
            &&& entries.contains_key("show_alert"@) && entries["show_alert"@] == JsonView::Bool(
                show_alert,
            )
            &&& text matches Some(words) ==> entries.contains_key("text"@) && entries["text"@]
                == JsonView::Text(words)
            &&& text is None ==> !entries.contains_key("text"@)
            &&& forall|key: Seq<char>| #[trigger]
                entries.contains_key(key) ==> key == "callback_query_id"@ || key == "show_alert"@
                    || key == "text"@
        }),
{
    reveal_strlit("callback_query_id");
    reveal_strlit("show_alert");
    reveal_strlit("text");
    assert("callback_query_id"@.len() == 17);
    assert("show_alert"@.len() == 10);
    assert("text"@.len() == 4);
}

/// The keyboard of a message is taken away by giving it one without buttons.
pub proof fn law_keyboard_removal(chat_id: i64, message_id: i64)
    ensures
        ({
            let body = JsonView::Object(remove_keyboard_entries(chat_id, message_id));
            &&& entry_of(body, "chat_id"@) == Some(JsonView::Integer(chat_id as int))
            &&& entry_of(body, "message_id"@) == Some(JsonView::Integer(message_id as int))
            &&& entry_of(body, "reply_markup"@) matches Some(markup) && entry_of(
                markup,
                "inline_keyboard"@,
            ) == Some(JsonView::Array(Seq::empty()))
            &&& forall|key: Seq<char>| #[trigger]
                remove_keyboard_entries(chat_id, message_id).contains_key(key) ==> key
                    == "chat_id"@ || key == "message_id"@ || key == "reply_markup"@
        }),
{
    reveal_strlit("chat_id");
    reveal_strlit("message_id");
    reveal_strlit("reply_markup");
    assert("chat_id"@.len() == 7);
    assert("message_id"@.len() == 10);
    assert("reply_markup"@.len() == 12);
}

/// What is read of a reply is what stands there.
pub proof fn law_entries(entries: Map<Seq<char>, JsonView>, key: Seq<char>, value: JsonView)
    ensures
        entry_of(JsonView::Object(entries), key) == Some(value) <==> entries.contains_key(key)
            && entries[key] == value,
        entry_of(JsonView::Object(entries), key) is None <==> !entries.contains_key(key),
        !(value is Object) ==> entry_of(value, key) is None,
        result_entry(
            JsonView::Object(entries.insert("result"@, JsonView::Object(entries))),
            key,
        ) == entry_of(JsonView::Object(entries), key),
        !entries.contains_key("result"@) ==> result_entry(JsonView::Object(entries), key) is None,
{
}

} // verus!
