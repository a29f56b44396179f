//! Files sent to and received from Telegram.
use vstd::prelude::*;
use vstd::string::*;

use crate::channels::MediaKind;
use crate::config::TelegramConfig;
use crate::ids::{is_hyphenated_id, lemma_id_has_no_slash, new_hyphenated_id};
use crate::json::{object_insert, object_new, object_value, text_value, JsonView};
use crate::markdown::message::sanitized;
use crate::markdown::sanitize_telegram_html;
use crate::numbers::{decimal_i64, decimal_int};
use crate::paths::{
    extension, file_name, is_entry_name, join_path, lemma_path_name_has_no_slash, path_extension,
    path_join, path_name, stands_in,
};
use crate::patterns::{lemma_replaced_char_is_gone, replace_char, replaced_char};
use crate::telegram::requests::{api_url, method_url, ApiCall};
use crate::telegram::types::{
    AttachmentView, DownloadedAttachment, InboundMessage, InboundView, OutboundMediaView,
    OutboundTelegramMedia,
};
use crate::text::{
    chars_of, cut_run, has_ink, is_blank, is_text, lemma_cut_run, opt_view, other_than, string_of,
};

verus! {

// ---------------------------------------------------------------------------
// Uploads
// ---------------------------------------------------------------------------
/// The type of an image, by the extension of its path.
pub open spec fn image_type(path: Seq<char>) -> Option<Seq<char>> {
    match path_extension(path) {
        Some(ext) => if ext == "png"@ {
            Some("image/png"@)
        } else if ext == "jpg"@ || ext == "jpeg"@ {
            Some("image/jpeg"@)
        } else if ext == "webp"@ {
            Some("image/webp"@)
        } else {
            None
        },
        None => None,
    }
}

/// The type of an image, by the extension of its path.
pub fn image_mime_type(path: &str) -> (mime: Option<&'static str>)
    ensures
        match mime {
            Some(found) => image_type(path@) == Some(found@),
            None => image_type(path@) is None,
        },
{
    let ext = extension(path);
    if is_text(&ext, "png") {
        Some("image/png")
    } else if is_text(&ext, "jpg") || is_text(&ext, "jpeg") {
        Some("image/jpeg")
    } else if is_text(&ext, "webp") {
        Some("image/webp")
    } else {
        None
    }
}

/// The method that sends media of a kind.
pub open spec fn upload_method(kind: MediaKind) -> Seq<char> {
    match kind {
        MediaKind::Photo => "sendPhoto"@,
        MediaKind::Document => "sendDocument"@,
        MediaKind::Audio => "sendAudio"@,
        MediaKind::Voice => "sendVoice"@,
    }
}

/// The name of the part of the form that holds the file.
pub open spec fn upload_part(kind: MediaKind) -> Seq<char> {
    match kind {
        MediaKind::Photo => "photo"@,
        MediaKind::Document => "document"@,
        MediaKind::Audio => "audio"@,
        MediaKind::Voice => "voice"@,
    }
}

/// The name of a file whose path has none.
pub open spec fn unnamed_file(kind: MediaKind) -> Seq<char> {
    match kind {
        MediaKind::Photo => "image.png"@,
        _ => "file"@,
    }
}

/// The name under which a file is sent.
pub open spec fn upload_name(kind: MediaKind, media: OutboundMediaView) -> Seq<char> {
    match media.file_name_override {
        Some(name) => name,
        None => match path_name(media.path) {
            Some(name) => name,
            None => unnamed_file(kind),
        },
    }
}

/// The type under which a file is sent, where one is given.
pub open spec fn upload_type(kind: MediaKind, media: OutboundMediaView) -> Option<Seq<char>> {
    match media.mime_type_override {
        Some(mime) => Some(mime),
        None => match kind {
            MediaKind::Photo => image_type(media.path),
            _ => None,
        },
    }
}

/// `true` or `false`.
pub open spec fn truth_text(value: bool) -> Seq<char> {
    if value {
        "true"@
    } else {
        "false"@
    }
}

/// The text fields of the form, in order. A blank caption is left out.
pub open spec fn upload_fields(media: OutboundMediaView) -> Seq<(Seq<char>, Seq<char>)> {
    let chat = seq![("chat_id"@, decimal_int(media.chat_id as int))];
    let thread = match media.thread_id {
        Some(thread) => seq![("message_thread_id"@, decimal_int(thread as int))],
        None => seq![],
    };
    let silent = seq![("disable_notification"@, truth_text(media.disable_notification))];
    let caption = match media.caption_html {
        Some(caption) => if has_ink(caption) {
            seq![("caption"@, sanitized(caption)), ("parse_mode"@, "HTML"@)]
        } else {
            seq![]
        },
        None => seq![],
    };
    chat + thread + silent + caption
}

/// A form that sends a file.
#[derive(Debug)]
pub struct MediaUpload {
    pub url: String,
    pub part_name: String,
    pub path: String,
    pub file_name: String,
    pub mime_type: Option<String>,
    pub fields: Vec<(String, String)>,
}

/// The view of a list of fields.
pub open spec fn fields_view(fields: Seq<(String, String)>) -> Seq<(Seq<char>, Seq<char>)> {
    Seq::new(fields.len(), |i: int| (fields[i].0@, fields[i].1@))
}

/// `MediaUpload` as a mathematical value.
#[verifier::ext_equal]
pub struct MediaUploadView {
    pub url: Seq<char>,
    pub part_name: Seq<char>,
    pub path: Seq<char>,
    pub file_name: Seq<char>,
    pub mime_type: Option<Seq<char>>,
    pub fields: Seq<(Seq<char>, Seq<char>)>,
}

impl View for MediaUpload {
    type V = MediaUploadView;

    open spec fn view(&self) -> MediaUploadView {
        MediaUploadView {
            url: self.url@,
            part_name: self.part_name@,
            path: self.path@,
            file_name: self.file_name@,
            mime_type: opt_view(self.mime_type),
            fields: fields_view(self.fields@),
        }
    }
}

/// The form that sends `media` as a file of the kind `kind`.
pub open spec fn upload_of(
    telegram: TelegramConfig,
    kind: MediaKind,
    media: OutboundMediaView,
) -> MediaUploadView {
    MediaUploadView {
        url: method_url(telegram, upload_method(kind)),
        part_name: upload_part(kind),
        path: media.path,
        file_name: upload_name(kind, media),
        mime_type: upload_type(kind, media),
        fields: upload_fields(media),
    }
}

fn push_field(fields: &mut Vec<(String, String)>, name: &str, value: &str)
    ensures
        fields_view(final(fields)@) == fields_view(old(fields)@).push((name@, value@)),
{
    let ghost before = fields_view(fields@);
    fields.push((name.to_string(), value.to_string()));
    assert(fields_view(fields@) =~= before.push((name@, value@)));
}

/// The text fields of the form.
fn form_fields(media: &OutboundTelegramMedia) -> (fields: Vec<(String, String)>)
    ensures
        fields_view(fields@) == upload_fields(media@),
{
    let mut fields: Vec<(String, String)> = Vec::new();
    let chat = decimal_i64(media.chat_id);
    push_field(&mut fields, "chat_id", chat.as_str());
    if let Some(thread_id) = media.thread_id {
        let thread = decimal_i64(thread_id);
        push_field(&mut fields, "message_thread_id", thread.as_str());
    }
    let silent = if media.disable_notification {
        "true"
    } else {
        "false"
    };
    push_field(&mut fields, "disable_notification", silent);
    if let Some(caption) = &media.caption_html {
        if !is_blank(caption.as_str()) {
            let html = sanitize_telegram_html(caption.as_str());
            push_field(&mut fields, "caption", html.as_str());
            push_field(&mut fields, "parse_mode", "HTML");
        }
    }
    assert(fields_view(fields@) =~= upload_fields(media@));
    fields
}

/// The form that sends `media` as a file of the kind `kind`.
pub fn media_upload(telegram: &TelegramConfig, kind: MediaKind, media: &OutboundTelegramMedia) -> (upload:
    MediaUpload)
    ensures
        upload@ == upload_of(*telegram, kind, media@),
{
    let (method, part) = match kind {
        MediaKind::Photo => ("sendPhoto", "photo"),
        MediaKind::Document => ("sendDocument", "document"),
        MediaKind::Audio => ("sendAudio", "audio"),
        MediaKind::Voice => ("sendVoice", "voice"),
    };
    let name = match &media.file_name_override {
        Some(name) => name.clone(),
        None => match file_name(media.path.as_str()) {
            Some(name) => name,
            None => match kind {
                MediaKind::Photo => "image.png".to_string(),
                _ => "file".to_string(),
            },
        },
    };
    let mime_type = match &media.mime_type_override {
        Some(mime) => Some(mime.clone()),
        None => match kind {
            MediaKind::Photo => match image_mime_type(media.path.as_str()) {
                Some(mime) => Some(mime.to_string()),
                None => None,
            },
            _ => None,
        },
    };
    MediaUpload {
        url: api_url(telegram, method),
        part_name: part.to_string(),
        path: media.path.clone(),
        file_name: name,
        mime_type,
        fields: form_fields(media),
    }
}

// ---------------------------------------------------------------------------
// Downloads
// ---------------------------------------------------------------------------
/// A file that a message carries, and the word that its copy is named after.
#[derive(Debug)]
pub struct AttachmentRequest {
    pub file_id: String,
    pub label: String,
}

/// What the copy of a document is named after: the name that the sender gave
/// it, as a single name, whatever path it was meant to be.
pub open spec fn document_label(name: Option<Seq<char>>) -> Seq<char> {
    match name {
        Some(given) => replace_char(given, '/', "_"@),
        None => "file"@,
    }
}

/// The file of a message that is downloaded, and its label: a photo before a
/// voice message before a document.
pub open spec fn wanted_file(inbound: InboundView) -> Option<(Seq<char>, Seq<char>)> {
    if inbound.image_file_id is Some {
        Some((inbound.image_file_id->0, "image"@))
    } else if inbound.voice_file_id is Some {
        Some((inbound.voice_file_id->0, "voice"@))
    } else if inbound.document_file_id is Some {
        Some((inbound.document_file_id->0, document_label(inbound.document_name)))
    } else {
        None
    }
}

/// The label of a file is a single name.
proof fn lemma_wanted_label(inbound: InboundView)
    ensures
        wanted_file(inbound) matches Some(wanted) ==> !wanted.1.contains('/'),
{
    reveal_strlit("_");
    reveal_strlit("image");
    reveal_strlit("voice");
    reveal_strlit("file");
    if let Some(name) = inbound.document_name {
        lemma_replaced_char_is_gone(name, '/', "_"@);
    }
}

/// The file of a message that is downloaded.
pub fn attachment_request(inbound: &InboundMessage) -> (request: Option<AttachmentRequest>)
    ensures
        match request {
            Some(found) => wanted_file(inbound@) == Some((found.file_id@, found.label@))
                && !found.label@.contains('/'),
            None => wanted_file(inbound@) is None,
        },
{
    proof {
        lemma_wanted_label(inbound@);
    }
    if let Some(file_id) = &inbound.image_file_id {
        return Some(
            AttachmentRequest { file_id: file_id.clone(), label: "image".to_string() },
        );
    }
    if let Some(file_id) = &inbound.voice_file_id {
        return Some(
            AttachmentRequest { file_id: file_id.clone(), label: "voice".to_string() },
        );
    }
    match &inbound.document_file_id {
        Some(file_id) => {
            let label = match &inbound.document_name {
                Some(name) => {
                    let chars = chars_of(name.as_str());
                    string_of(replaced_char(chars.as_slice(), '/', "_").as_slice())
                },
                None => "file".to_string(),
            };
            Some(AttachmentRequest { file_id: file_id.clone(), label })
        },
        None => None,
    }
}

/// The attachment of a message whose file was downloaded to `path`.
pub open spec fn attachment_of(inbound: InboundView, path: Seq<char>) -> AttachmentView {
    if inbound.image_file_id is Some {
        AttachmentView::Image(path)
    } else if inbound.voice_file_id is Some {
        AttachmentView::Voice {
            path,
            duration_seconds: inbound.voice_duration,
            transcript: None,
        }
    } else {
        AttachmentView::File(path)
    }
}

/// The attachment of a message whose file was downloaded to `path`.
pub fn downloaded_attachment(inbound: &InboundMessage, path: String) -> (attachment:
    DownloadedAttachment)
    ensures
        attachment@ == attachment_of(inbound@, path@),
{
    if inbound.image_file_id.is_some() {
        DownloadedAttachment::Image(path)
    } else if inbound.voice_file_id.is_some() {
        DownloadedAttachment::Voice {
            path,
            duration_seconds: inbound.voice_duration,
            transcript: None,
        }
    } else {
        DownloadedAttachment::File(path)
    }
}

/// Asks where a file can be downloaded.
pub fn get_file_call(telegram: &TelegramConfig, file_id: &str) -> (call: ApiCall)
    ensures
        call@.url == method_url(*telegram, "getFile"@),
        call@.body == JsonView::Object(map!["file_id"@ => JsonView::Text(file_id@)]),
{
    let mut body = object_new();
    object_insert(&mut body, "file_id", text_value(file_id));
    ApiCall { url: api_url(telegram, "getFile"), body: object_value(body) }
}

/// The directory for the files of a chat.
pub open spec fn chat_directory(root: Seq<char>, chat_id: i64) -> Seq<char> {
    path_join(root, decimal_int(chat_id as int))
}

/// The directory for the files of a chat.
pub fn chat_attachment_dir(attachment_root: &str, chat_id: i64) -> (dir: String)
    ensures
        dir@ == chat_directory(attachment_root@, chat_id),
{
    let chat = decimal_i64(chat_id);
    join_path(attachment_root, chat.as_str())
}

/// The name of the copy of the file with the path `file_path` on the server.
pub open spec fn attachment_name(label: Seq<char>, id: Seq<char>, file_path: Seq<char>) -> Seq<
    char,
> {
    let ext = match path_extension(file_path) {
        Some(ext) => ext,
        None => "bin"@,
    };
    label + "-"@ + id + "."@ + ext
}

/// Where the file with the path `file_path` on the server is kept, under the
/// name that `label` and `id` make.
pub open spec fn attachment_place(
    root: Seq<char>,
    chat_id: i64,
    label: Seq<char>,
    id: Seq<char>,
    file_path: Seq<char>,
) -> Seq<char> {
    path_join(chat_directory(root, chat_id), attachment_name(label, id, file_path))
}

/// Where a downloaded file is kept.
pub fn attachment_path(
    attachment_root: &str,
    chat_id: i64,
    label: &str,
    id: &str,
    file_path: &str,
) -> (path: String)
    ensures
        path@ == attachment_place(attachment_root@, chat_id, label@, id@, file_path@),
{
    let dir = chat_attachment_dir(attachment_root, chat_id);
    let mut name = label.to_string();
    name.append("-");
    name.append(id);
    name.append(".");
    match extension(file_path) {
        Some(ext) => {
            name.append(ext.as_str());
        },
        None => {
            name.append("bin");
        },
    }
    join_path(dir.as_str(), name.as_str())
}

/// A label and an id without slashes make a name of one file.
proof fn lemma_attachment_name(label: Seq<char>, id: Seq<char>, file_path: Seq<char>)
    requires
        !label.contains('/'),
        !id.contains('/'),
    ensures
        is_entry_name(attachment_name(label, id, file_path)),
{
    reveal_strlit("-");
    reveal_strlit(".");
    reveal_strlit("bin");
    lemma_path_name_has_no_slash(file_path);
    let ext = match path_extension(file_path) {
        Some(ext) => ext,
        None => "bin"@,
    };
    assert forall|i: int| 0 <= i < ext.len() implies #[trigger] ext[i] != '/' by {
        if let Some(name) = path_name(file_path) {
            lemma_cut_run(name, other_than('.'));
            let head = cut_run(name, other_than('.')).len() as int;
            if head > 1 {
                assert(name.contains(name[head + i]));
            }
        }
    }
    let name = attachment_name(label, id, file_path);
    assert forall|i: int| 0 <= i < name.len() implies #[trigger] name[i] != '/' by {
        let at = i - label.len() - 1;
        if i < label.len() {
            assert(label.contains(label[i]));
        } else if 0 <= at < id.len() {
            assert(id.contains(id[at]));
        } else if at > id.len() {
            assert(name[i] == ext[at - id.len() - 1]);
        }
    }
    assert(name[label.len() as int] == '-');
    if name == seq!['.'] {
        assert(seq!['.'][label.len() as int] == '.');
    }
    if name == seq!['.', '.'] {
        assert(seq!['.', '.'][label.len() as int] == '.');
    }
}

/// Whatever a sender calls a document, its copy is put into the directory for
/// the files of the chat, and so are photos and voice messages.
pub proof fn law_attachments_stay_in_the_cache(
    root: Seq<char>,
    chat_id: i64,
    inbound: InboundView,
    id: Seq<char>,
    file_path: Seq<char>,
)
    requires
        wanted_file(inbound) is Some,
        !id.contains('/'),
    ensures
        stands_in(
            chat_directory(root, chat_id),
            attachment_place(root, chat_id, (wanted_file(inbound)->0).1, id, file_path),
        ),
{
    lemma_wanted_label(inbound);
    lemma_attachment_name((wanted_file(inbound)->0).1, id, file_path);
}

/// A place for a downloaded file, under a name with a fresh id in it. With a
/// label without slashes it is in the directory for the files of the chat.
pub fn new_attachment_path(
    attachment_root: &str,
    chat_id: i64,
    label: &str,
    file_path: &str,
) -> (path: String)
    ensures
        exists|id: Seq<char>|
            is_hyphenated_id(id) && path@ == #[trigger] attachment_place(
                attachment_root@,
                chat_id,
                label@,
                id,
                file_path@,
            ),
        !label@.contains('/') ==> stands_in(
            chat_directory(attachment_root@, chat_id),
            path@,
        ),
{
    let id = new_hyphenated_id();
    proof {
        lemma_id_has_no_slash(id@);
        if !label@.contains('/') {
            lemma_attachment_name(label@, id@, file_path@);
        }
    }
    attachment_path(attachment_root, chat_id, label, id.as_str(), file_path)
}

} // verus!
