use codexclaw::channels::MediaKind;
use codexclaw::config::TelegramConfig;
use codexclaw::telegram::media::{
    attachment_path, attachment_request, chat_attachment_dir, downloaded_attachment, get_file_call,
    image_mime_type, media_upload, new_attachment_path,
};
use codexclaw::telegram::requests::{
    answer_callback_call, api_url, download_url, remove_keyboard_call, response_accepted,
    response_file_path, response_message_id, send_markdown_calls,
    send_markdown_with_keyboard_calls,
};
use codexclaw::telegram::{
    normalize_update, DownloadedAttachment, InboundMessage, OutboundTelegramMedia, TelegramChat,
    TelegramDocument, TelegramMessage, TelegramPhotoSize, TelegramQuote, TelegramSenderChat,
    TelegramUpdate, TelegramUser, TelegramVoice,
};
use serde_json::Value;

fn sample_message() -> TelegramMessage {
    TelegramMessage {
        message_id: 10,
        chat: TelegramChat {
            id: 100,
            kind: "private".to_string(),
        },
        from: Some(TelegramUser {
            id: 42,
            first_name: Some("Test".to_string()),
            last_name: None,
        }),
        sender_chat: None,
        business_connection_id: None,
        text: Some("hello".to_string()),
        caption: None,
        photo: None,
        document: None,
        voice: None,
        message_thread_id: None,
        reply_to_message: None,
        quote: None,
    }
}

fn update_with(message: TelegramMessage) -> TelegramUpdate {
    TelegramUpdate {
        update_id: 1,
        message: Some(message),
        edited_message: None,
        business_message: None,
        edited_business_message: None,
        callback_query: None,
    }
}

fn telegram_config() -> TelegramConfig {
    TelegramConfig {
        bot_token: "token".to_string(),
        allowed_user_ids: vec![42],
        public_base_url: "https://example.com".to_string(),
        webhook_secret: "secret".to_string(),
        api_base_url: "https://api.telegram.org/".to_string(),
    }
}

fn json(text: &str) -> Value {
    serde_json::from_str(text).expect("json")
}

#[test]
fn normalize_update_filters_unlisted_user() {
    let update = update_with(sample_message());
    assert!(normalize_update(&update, &[999]).is_none());
}

#[test]
fn normalize_update_accepts_document() {
    let mut message = sample_message();
    message.text = None;
    message.document = Some(TelegramDocument {
        file_id: "doc-1".to_string(),
        file_name: Some("note.txt".to_string()),
    });
    let update = update_with(message);
    let inbound = normalize_update(&update, &[42]).expect("inbound");
    assert_eq!(inbound.document_file_id.as_deref(), Some("doc-1"));
    assert_eq!(inbound.document_name.as_deref(), Some("note.txt"));
}

#[test]
fn detects_common_image_mime_types() {
    assert_eq!(image_mime_type("/tmp/file.png"), Some("image/png"));
    assert_eq!(image_mime_type("/tmp/file.jpeg"), Some("image/jpeg"));
    assert_eq!(image_mime_type("/tmp/file.bin"), None);
}

#[test]
fn detects_new_chat_command() {
    let inbound = normalize_update(&update_with(sample_message()), &[42]).expect("inbound");
    assert!(!inbound.requests_new_chat());

    let mut command_message = sample_message();
    command_message.text = Some("/new".to_string());
    let mut update = update_with(command_message);
    update.update_id = 2;
    let command_inbound = normalize_update(&update, &[42]).expect("command inbound");
    assert!(command_inbound.requests_new_chat());
}

#[test]
fn new_chat_commands_ignore_case_and_space() {
    for (text, expected) in [
        (" /NEW\n", true),
        ("новый тред", true),
        ("/new chat", false),
        ("new", false),
        ("", false),
    ] {
        let mut message = sample_message();
        message.text = Some(text.to_string());
        let inbound = normalize_update(&update_with(message), &[]).expect("inbound");
        assert_eq!(inbound.requests_new_chat(), expected, "{text:?}");
    }
}

#[test]
fn normalize_update_reads_every_field() {
    let mut replied = sample_message();
    replied.text = None;
    replied.caption = Some("caption of the first".to_string());
    let mut message = sample_message();
    message.message_thread_id = Some(777);
    message.photo = Some(vec![
        TelegramPhotoSize { file_id: "small".to_string() },
        TelegramPhotoSize { file_id: "large".to_string() },
    ]);
    message.text = None;
    message.caption = Some("look".to_string());
    message.voice = Some(TelegramVoice { file_id: "voice-1".to_string(), duration: Some(7) });
    message.reply_to_message = Some(Box::new(replied));
    message.quote = Some(TelegramQuote { text: "of the".to_string() });
    message.from = Some(TelegramUser {
        id: 42,
        first_name: None,
        last_name: Some("Person".to_string()),
    });
    let inbound = normalize_update(&update_with(message), &[7, 42]).expect("inbound");
    assert_eq!(inbound.chat_id, 100);
    assert_eq!(inbound.sender_id, 42);
    assert_eq!(inbound.sender_name, "Unknown Person");
    assert_eq!(inbound.message_id, 10);
    assert_eq!(inbound.thread_id, Some(777));
    assert_eq!(inbound.text.as_deref(), Some("look"));
    assert_eq!(inbound.reply_to_text.as_deref(), Some("caption of the first"));
    assert_eq!(inbound.quoted_text.as_deref(), Some("of the"));
    assert_eq!(inbound.image_file_id.as_deref(), Some("large"));
    assert_eq!(inbound.voice_file_id.as_deref(), Some("voice-1"));
    assert_eq!(inbound.voice_duration, Some(7));
    assert_eq!(inbound.document_file_id, None);
}

#[test]
fn normalize_update_needs_a_sender_and_content() {
    let mut message = sample_message();
    message.from = None;
    assert!(normalize_update(&update_with(message), &[]).is_none());

    let mut message = sample_message();
    message.text = None;
    message.caption = Some("caption alone".to_string());
    message.photo = Some(Vec::new());
    assert!(normalize_update(&update_with(message), &[]).is_none());

    let mut message = sample_message();
    message.from = None;
    message.sender_chat = Some(TelegramSenderChat { id: -5, title: Some("Channel".to_string()) });
    let inbound = normalize_update(&update_with(message), &[-5]).expect("inbound");
    assert_eq!(inbound.sender_name, "Channel");
}

#[test]
fn new_messages_come_before_edited_and_business_ones() {
    let mut update = update_with(sample_message());
    let mut other = sample_message();
    other.message_id = 11;
    update.edited_message = update.message.take();
    update.business_message = Some(other);
    assert_eq!(update.any_message().map(|message| message.message_id), Some(10));
    assert_eq!(update.chat_message().map(|message| message.message_id), Some(10));
    update.edited_message = None;
    assert!(update.chat_message().is_none());
    assert_eq!(update.any_message().map(|message| message.message_id), Some(11));
    update.edited_business_message = update.business_message.take();
    assert_eq!(update.any_message().map(|message| message.message_id), Some(11));
    update.edited_business_message = None;
    assert!(update.any_message().is_none());
    assert!(normalize_update(&update, &[]).is_none());
}

#[test]
fn business_chats_start_nothing() {
    let mut update = update_with(sample_message());
    update.business_message = update.message.take();
    assert!(normalize_update(&update, &[]).is_none());
    update.edited_business_message = update.business_message.take();
    assert!(normalize_update(&update, &[]).is_none());
    update.edited_message = update.edited_business_message.take();
    assert!(normalize_update(&update, &[]).is_some());
}

#[test]
fn urls_have_one_slash_between_their_parts() {
    let config = telegram_config();
    assert_eq!(
        api_url(&config, "sendMessage"),
        "https://api.telegram.org/bottoken/sendMessage"
    );
    assert_eq!(
        download_url(&config, "voice/file.ogg"),
        "https://api.telegram.org/file/bottoken/voice/file.ogg"
    );
}

#[test]
fn messages_are_sent_in_html_into_their_thread() {
    let calls = send_markdown_calls(&telegram_config(), 100, Some(777), true, "**Threaded** reply");
    assert_eq!(calls.len(), 1);
    assert_eq!(calls[0].url, "https://api.telegram.org/bottoken/sendMessage");
    assert_eq!(
        calls[0].body,
        json(
            r#"{"chat_id":100,"text":"<b>Threaded</b> reply","parse_mode":"HTML",
                "disable_notification":true,"message_thread_id":777}"#
        )
    );
    let calls = send_markdown_calls(&telegram_config(), -3, None, false, "<name>");
    assert_eq!(
        calls[0].body,
        json(
            r#"{"chat_id":-3,"text":"&lt;name&gt;","parse_mode":"HTML",
                "disable_notification":false}"#
        )
    );
}

#[test]
fn long_texts_become_several_messages_in_order() {
    let text = format!("{}\n{}\nend", "a".repeat(3000), "b".repeat(3000));
    let calls = send_markdown_calls(&telegram_config(), 1, Some(2), false, &text);
    let texts: Vec<&str> = calls
        .iter()
        .map(|call| call.body["text"].as_str().expect("text"))
        .collect();
    assert_eq!(texts, vec!["a".repeat(3000), format!("{}\nend", "b".repeat(3000))]);
    assert!(calls.iter().all(|call| call.body["message_thread_id"] == 2));
}

#[test]
fn the_keyboard_goes_under_the_last_message() {
    let keyboard = json(r#"{"inline_keyboard":[]}"#);
    let text = format!("{}\n{}", "a".repeat(3000), "b".repeat(3000));
    let calls =
        send_markdown_with_keyboard_calls(&telegram_config(), 1, None, false, &text, &keyboard);
    assert_eq!(calls.len(), 2);
    assert!(calls[0].body.get("reply_markup").is_none());
    assert_eq!(calls[1].body["reply_markup"], keyboard);
}

#[test]
fn buttons_are_answered_and_removed() {
    let call = answer_callback_call(&telegram_config(), "cb-1", &Some("Done.".to_string()), false);
    assert_eq!(call.url, "https://api.telegram.org/bottoken/answerCallbackQuery");
    assert_eq!(
        call.body,
        json(r#"{"callback_query_id":"cb-1","text":"Done.","show_alert":false}"#)
    );
    let call = remove_keyboard_call(&telegram_config(), 100, 55);
    assert_eq!(
        call.body,
        json(r#"{"chat_id":100,"message_id":55,"reply_markup":{"inline_keyboard":[]}}"#)
    );
}

#[test]
fn responses_are_read() {
    assert!(response_accepted(&json(r#"{"ok":true}"#)));
    assert!(!response_accepted(&json(r#"{"ok":false}"#)));
    assert!(!response_accepted(&json(r#"{"ok":"true"}"#)));
    assert!(!response_accepted(&json("[]")));
    let found = json(r#"{"ok":true,"result":{"file_path":"voice/file.ogg","message_id":55}}"#);
    assert_eq!(response_file_path(&found).as_deref(), Some("voice/file.ogg"));
    assert_eq!(response_message_id(&found), Some(55));
    let empty = json(r#"{"ok":true,"result":{}}"#);
    assert_eq!(response_file_path(&empty), None);
    assert_eq!(response_message_id(&empty), None);
    let large = json(r#"{"result":{"message_id":18446744073709551615,"file_path":1}}"#);
    assert_eq!(response_message_id(&large), None);
    assert_eq!(response_file_path(&large), None);
}

#[test]
fn documents_are_uploaded_under_their_name() {
    let media = OutboundTelegramMedia {
        chat_id: 100,
        thread_id: Some(777),
        path: "/tmp/report.txt".to_string(),
        disable_notification: true,
        caption_html: Some("Attached <name>".to_string()),
        file_name_override: Some("final-report.txt".to_string()),
        mime_type_override: Some("text/plain".to_string()),
    };
    let upload = media_upload(&telegram_config(), MediaKind::Document, &media);
    assert_eq!(upload.url, "https://api.telegram.org/bottoken/sendDocument");
    assert_eq!(upload.part_name, "document");
    assert_eq!(upload.path, "/tmp/report.txt");
    assert_eq!(upload.file_name, "final-report.txt");
    assert_eq!(upload.mime_type.as_deref(), Some("text/plain"));
    let fields: Vec<(&str, &str)> = upload
        .fields
        .iter()
        .map(|(name, value)| (name.as_str(), value.as_str()))
        .collect();
    assert_eq!(
        fields,
        vec![
            ("chat_id", "100"),
            ("message_thread_id", "777"),
            ("disable_notification", "true"),
            ("caption", "Attached &lt;name&gt;"),
            ("parse_mode", "HTML"),
        ]
    );
}

#[test]
fn photos_get_their_type_from_their_path() {
    let mut media = OutboundTelegramMedia {
        chat_id: 1,
        thread_id: None,
        path: "/tmp/a.webp".to_string(),
        disable_notification: false,
        caption_html: Some("  ".to_string()),
        file_name_override: None,
        mime_type_override: None,
    };
    let upload = media_upload(&telegram_config(), MediaKind::Photo, &media);
    assert_eq!(upload.file_name, "a.webp");
    assert_eq!(upload.mime_type.as_deref(), Some("image/webp"));
    assert_eq!(upload.fields.len(), 2);
    let upload = media_upload(&telegram_config(), MediaKind::Voice, &media);
    assert_eq!((upload.part_name.as_str(), upload.mime_type), ("voice", None));
    media.path = "/".to_string();
    let upload = media_upload(&telegram_config(), MediaKind::Photo, &media);
    assert_eq!(upload.file_name, "image.png");
    let upload = media_upload(&telegram_config(), MediaKind::Audio, &media);
    assert_eq!(upload.url, "https://api.telegram.org/bottoken/sendAudio");
}

fn inbound() -> InboundMessage {
    normalize_update(&update_with(sample_message()), &[]).expect("inbound")
}

#[test]
fn photos_are_downloaded_before_voice_before_documents() {
    let mut message = inbound();
    assert!(attachment_request(&message).is_none());
    message.document_file_id = Some("d".to_string());
    let request = attachment_request(&message).expect("request");
    assert_eq!((request.file_id.as_str(), request.label.as_str()), ("d", "file"));
    message.document_name = Some("note.txt".to_string());
    assert_eq!(attachment_request(&message).expect("request").label, "note.txt");
    assert_eq!(
        downloaded_attachment(&message, "/p".to_string()),
        DownloadedAttachment::File("/p".to_string())
    );
    message.voice_file_id = Some("v".to_string());
    message.voice_duration = Some(7);
    assert_eq!(attachment_request(&message).expect("request").label, "voice");
    assert_eq!(
        downloaded_attachment(&message, "/p".to_string()),
        DownloadedAttachment::Voice {
            path: "/p".to_string(),
            duration_seconds: Some(7),
            transcript: None
        }
    );
    message.image_file_id = Some("i".to_string());
    assert_eq!(attachment_request(&message).expect("request").label, "image");
    assert_eq!(
        downloaded_attachment(&message, "/p".to_string()),
        DownloadedAttachment::Image("/p".to_string())
    );
}

#[test]
fn downloads_are_kept_by_chat() {
    let call = get_file_call(&telegram_config(), "voice-1");
    assert_eq!(call.body, json(r#"{"file_id":"voice-1"}"#));
    assert_eq!(chat_attachment_dir("/cache/attachments", -7), "/cache/attachments/-7");
    assert_eq!(
        attachment_path("/cache/attachments", 100, "voice", "id", "voice/file.ogg"),
        "/cache/attachments/100/voice-id.ogg"
    );
    assert_eq!(attachment_path("/c", 1, "image", "id", "photos/file"), "/c/1/image-id.bin");
}

#[test]
fn documents_stay_in_the_cache_whatever_they_are_called() {
    let mut message = inbound();
    message.document_file_id = Some("d".to_string());
    for (name, label) in [
        ("/tmp/x", "_tmp_x"),
        ("../../x", ".._.._x"),
        ("a/b.txt", "a_b.txt"),
        ("..", ".."),
        (".", "."),
        ("/", "_"),
        ("", ""),
        ("note.txt", "note.txt"),
    ] {
        message.document_name = Some(name.to_string());
        let request = attachment_request(&message).expect("request");
        assert_eq!(request.label, label);
        assert_eq!(
            attachment_path("/cache", 100, &request.label, "id", "documents/file.pdf"),
            format!("/cache/100/{label}-id.pdf")
        );
        let path = new_attachment_path("/cache", 100, &request.label, "a/../b");
        let kept = path.strip_prefix("/cache/100/").expect("in the directory");
        assert!(!kept.contains('/'));
        assert!(kept.ends_with(".bin"));
    }
}

#[test]
fn download_names_hold_a_fresh_id() {
    let first = new_attachment_path("/c", 1, "image", "a.png");
    let second = new_attachment_path("/c", 1, "image", "a.png");
    assert_ne!(first, second);
    let id = first
        .strip_prefix("/c/1/image-")
        .and_then(|rest| rest.strip_suffix(".png"))
        .expect("shape");
    let parsed = uuid::Uuid::parse_str(id).expect("uuid");
    assert_eq!(parsed.get_version_num(), 4);
    assert_eq!(parsed.to_string(), id);
}
