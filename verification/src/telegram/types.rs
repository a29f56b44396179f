//! Values of the Telegram Bot API.
use vstd::prelude::*;

use crate::text::opt_view;

verus! {

/// Something that happened in a chat of the bot.
#[derive(Debug)]
pub struct TelegramUpdate {
    pub update_id: i64,
    pub message: Option<TelegramMessage>,
    pub edited_message: Option<TelegramMessage>,
    pub business_message: Option<TelegramMessage>,
    pub edited_business_message: Option<TelegramMessage>,
    pub callback_query: Option<TelegramCallbackQuery>,
}

/// A message.
#[derive(Debug)]
pub struct TelegramMessage {
    pub message_id: i64,
    pub chat: TelegramChat,
    pub from: Option<TelegramUser>,
    pub sender_chat: Option<TelegramSenderChat>,
    pub business_connection_id: Option<String>,
    pub text: Option<String>,
    pub caption: Option<String>,
    pub photo: Option<Vec<TelegramPhotoSize>>,
    pub document: Option<TelegramDocument>,
    pub voice: Option<TelegramVoice>,
    pub message_thread_id: Option<i64>,
    pub reply_to_message: Option<Box<TelegramMessage>>,
    pub quote: Option<TelegramQuote>,
}

/// A chat.
#[derive(Debug, Clone)]
pub struct TelegramChat {
    pub id: i64,
    pub kind: String,
}

/// A user.
#[derive(Debug, Clone)]
pub struct TelegramUser {
    pub id: i64,
    pub first_name: Option<String>,
    pub last_name: Option<String>,
}

/// A chat that sends messages in its own name.
#[derive(Debug, Clone)]
pub struct TelegramSenderChat {
    pub id: i64,
    pub title: Option<String>,
}

/// One size of a photo.
#[derive(Debug, Clone)]
pub struct TelegramPhotoSize {
    pub file_id: String,
}

/// A voice message.
#[derive(Debug, Clone)]
pub struct TelegramVoice {
    pub file_id: String,
    pub duration: Option<u32>,
}

/// A file.
#[derive(Debug, Clone)]
pub struct TelegramDocument {
    pub file_id: String,
    pub file_name: Option<String>,
}

/// The part of a message that a reply quotes.
#[derive(Debug, Clone)]
pub struct TelegramQuote {
    pub text: String,
}

/// A button that was pressed.
#[derive(Debug)]
pub struct TelegramCallbackQuery {
    pub id: String,
    pub from: TelegramUser,
    pub message: Option<TelegramMessage>,
    pub data: Option<String>,
}

/// A message as the gateway handles it.
#[derive(Debug, Clone)]
pub struct InboundMessage {
    pub chat_id: i64,
    pub sender_id: i64,
    pub sender_name: String,
    pub message_id: i64,
    pub thread_id: Option<i64>,
    pub text: Option<String>,
    pub reply_to_text: Option<String>,
    pub quoted_text: Option<String>,
    pub image_file_id: Option<String>,
    pub document_file_id: Option<String>,
    pub document_name: Option<String>,
    pub voice_file_id: Option<String>,
    pub voice_duration: Option<u32>,
}

/// `InboundMessage` as a mathematical value.
#[verifier::ext_equal]
pub struct InboundView {
    pub chat_id: i64,
    pub sender_id: i64,
    pub sender_name: Seq<char>,
    pub message_id: i64,
    pub thread_id: Option<i64>,
    pub text: Option<Seq<char>>,
    pub reply_to_text: Option<Seq<char>>,
    pub quoted_text: Option<Seq<char>>,
    pub image_file_id: Option<Seq<char>>,
    pub document_file_id: Option<Seq<char>>,
    pub document_name: Option<Seq<char>>,
    pub voice_file_id: Option<Seq<char>>,
    pub voice_duration: Option<u32>,
}

impl View for InboundMessage {
    type V = InboundView;

    open spec fn view(&self) -> InboundView {
        InboundView {
            chat_id: self.chat_id,
            sender_id: self.sender_id,
            sender_name: self.sender_name@,
            message_id: self.message_id,
            thread_id: self.thread_id,
            text: opt_view(self.text),
            reply_to_text: opt_view(self.reply_to_text),
            quoted_text: opt_view(self.quoted_text),
            image_file_id: opt_view(self.image_file_id),
            document_file_id: opt_view(self.document_file_id),
            document_name: opt_view(self.document_name),
            voice_file_id: opt_view(self.voice_file_id),
            voice_duration: self.voice_duration,
        }
    }
}

/// An attachment that was downloaded.
#[derive(Debug, Clone, PartialEq, Eq)]
pub enum DownloadedAttachment {
    Image(String),
    File(String),
    Voice { path: String, duration_seconds: Option<u32>, transcript: Option<String> },
}

/// `DownloadedAttachment` as a mathematical value.
#[verifier::ext_equal]
pub enum AttachmentView {
    Image(Seq<char>),
    File(Seq<char>),
    Voice { path: Seq<char>, duration_seconds: Option<u32>, transcript: Option<Seq<char>> },
}

impl View for DownloadedAttachment {
    type V = AttachmentView;

    open spec fn view(&self) -> AttachmentView {
        match *self {
            DownloadedAttachment::Image(path) => AttachmentView::Image(path@),
            DownloadedAttachment::File(path) => AttachmentView::File(path@),
            DownloadedAttachment::Voice { path, duration_seconds, transcript } =>
                AttachmentView::Voice {
                path: path@,
                duration_seconds,
                transcript: opt_view(transcript),
            },
        }
    }
}

/// The view of an attachment that may be missing.
pub open spec fn attachment_view(attachment: Option<DownloadedAttachment>) -> Option<AttachmentView> {
    match attachment {
        Some(found) => Some(found@),
        None => None,
    }
}

/// A file that is sent to a chat.
#[derive(Debug, Clone)]
pub struct OutboundTelegramMedia {
    pub chat_id: i64,
    pub thread_id: Option<i64>,
    pub path: String,
    pub disable_notification: bool,
    pub caption_html: Option<String>,
    pub file_name_override: Option<String>,
    pub mime_type_override: Option<String>,
}

/// `OutboundTelegramMedia` as a mathematical value.
#[verifier::ext_equal]
pub struct OutboundMediaView {
    pub chat_id: i64,
    pub thread_id: Option<i64>,
    pub path: Seq<char>,
    pub disable_notification: bool,
    pub caption_html: Option<Seq<char>>,
    pub file_name_override: Option<Seq<char>>,
    pub mime_type_override: Option<Seq<char>>,
}

impl View for OutboundTelegramMedia {
    type V = OutboundMediaView;

    open spec fn view(&self) -> OutboundMediaView {
        OutboundMediaView {
            chat_id: self.chat_id,
            thread_id: self.thread_id,
            path: self.path@,
            disable_notification: self.disable_notification,
            caption_html: opt_view(self.caption_html),
            file_name_override: opt_view(self.file_name_override),
            mime_type_override: opt_view(self.mime_type_override),
        }
    }
}

} // verus!
