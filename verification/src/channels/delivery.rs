//! Replies on their way to a channel.
use vstd::prelude::*;

use crate::channels::whatsapp::{text_call_of, whatsapp_text_call, WhatsAppCall, WhatsAppCallView};
use crate::channels::{ReplyTarget, TurnOutput, TurnOutputView};
use crate::config::AppConfig;
use crate::markdown::blocks::markdown_html;
use crate::markdown::markdown_to_telegram_html;
use crate::telegram::media::{media_upload, upload_of, MediaUpload, MediaUploadView};
use crate::telegram::requests::{
    calls_view, markdown_calls, send_markdown_calls, ApiCall, ApiCallView,
};
use crate::telegram::types::{OutboundMediaView, OutboundTelegramMedia};

verus! {

/// The calls that deliver a reply.
#[derive(Debug)]
pub enum Delivery {
    TelegramMessages(Vec<ApiCall>),
    TelegramUpload(MediaUpload),
    WhatsAppMessage(WhatsAppCall),
}

/// `Delivery` as a mathematical value.
#[verifier::ext_equal]
pub enum DeliveryView {
    TelegramMessages(Seq<ApiCallView>),
    TelegramUpload(MediaUploadView),
    WhatsAppMessage(WhatsAppCallView),
}

impl View for Delivery {
    type V = DeliveryView;

    open spec fn view(&self) -> DeliveryView {
        match *self {
            Delivery::TelegramMessages(calls) => DeliveryView::TelegramMessages(calls_view(calls@)),
            Delivery::TelegramUpload(upload) => DeliveryView::TelegramUpload(upload@),
            Delivery::WhatsAppMessage(call) => DeliveryView::WhatsAppMessage(call@),
        }
    }
}

/// The file of an output on its way to a thread of a Telegram chat, its caption
/// rendered.
pub open spec fn telegram_media(
    chat_id: i64,
    thread_id: Option<i64>,
    path: Seq<char>,
    caption_markdown: Option<Seq<char>>,
    file_name: Option<Seq<char>>,
    mime_type: Option<Seq<char>>,
    disable_notification: bool,
) -> OutboundMediaView {
    OutboundMediaView {
        chat_id,
        thread_id,
        path,
        disable_notification,
        caption_html: match caption_markdown {
            Some(caption) => Some(markdown_html(caption)),
            None => None,
        },
        file_name_override: file_name,
        mime_type_override: mime_type,
    }
}

/// The calls that deliver an output, or the message of why it cannot be
/// delivered there.
pub open spec fn delivery_of(config: AppConfig, target: ReplyTarget, output: TurnOutputView) -> Result<
    DeliveryView,
    Seq<char>,
> {
    match target {
        ReplyTarget::Telegram(chat) => match output {
            TurnOutputView::Markdown { text, disable_notification } => Ok(
                DeliveryView::TelegramMessages(
                    markdown_calls(
                        config.telegram,
                        chat.chat_id,
                        chat.thread_id,
                        disable_notification,
                        text,
                    ),
                ),
            ),
            TurnOutputView::Media {
                kind,
                path,
                caption_markdown,
                file_name,
                mime_type,
                disable_notification,
            } => Ok(
                DeliveryView::TelegramUpload(
                    upload_of(
                        config.telegram,
                        kind,
                        telegram_media(
                            chat.chat_id,
                            chat.thread_id,
                            path,
                            caption_markdown,
                            file_name,
                            mime_type,
                            disable_notification,
                        ),
                    ),
                ),
            ),
        },
        ReplyTarget::WhatsApp(conversation) => match output {
            TurnOutputView::Markdown { text, .. } => match config.whatsapp {
                Some(whatsapp) => Ok(
                    DeliveryView::WhatsAppMessage(
                        text_call_of(whatsapp, conversation.chat_id@, text),
                    ),
                ),
                None => Err("whatsapp is not configured"@),
            },
            TurnOutputView::Media { .. } => Err("WhatsApp media delivery is not implemented yet"@),
        },
        ReplyTarget::Mattermost { .. } => Err("Mattermost reply delivery is not wired yet"@),
        ReplyTarget::RocketChat { .. } => Err("Rocket.Chat reply delivery is not wired yet"@),
    }
}

/// The calls that deliver an output to a target.
pub fn turn_output_delivery(config: &AppConfig, target: &ReplyTarget, output: TurnOutput) -> (delivery:
    Result<Delivery, String>)
    ensures
        match delivery {
            Ok(found) => delivery_of(*config, *target, output@) == Ok::<DeliveryView, Seq<char>>(
                found@,
            ),
            Err(message) => delivery_of(*config, *target, output@) == Err::<
                DeliveryView,
                Seq<char>,
            >(message@),
        },
{
    match target {
        ReplyTarget::Telegram(chat) => match output {
            TurnOutput::Markdown { text, disable_notification } => Ok(
                Delivery::TelegramMessages(
                    send_markdown_calls(
                        &config.telegram,
                        chat.chat_id,
                        chat.thread_id,
                        disable_notification,
                        text.as_str(),
                    ),
                ),
            ),
            TurnOutput::Media {
                kind,
                path,
                caption_markdown,
                file_name,
                mime_type,
                disable_notification,
            } => {
                let caption_html = match &caption_markdown {
                    Some(caption) => Some(markdown_to_telegram_html(caption.as_str())),
                    None => None,
                };
                let media = OutboundTelegramMedia {
                    chat_id: chat.chat_id,
                    thread_id: chat.thread_id,
                    path,
                    disable_notification,
                    caption_html,
                    file_name_override: file_name,
                    mime_type_override: mime_type,
                };
                Ok(Delivery::TelegramUpload(media_upload(&config.telegram, kind, &media)))
            },
        },
        ReplyTarget::WhatsApp(conversation) => match output {
            TurnOutput::Markdown { text, .. } => match whatsapp_text_call(
                config,
                conversation,
                text.as_str(),
            ) {
                Ok(call) => Ok(Delivery::WhatsAppMessage(call)),
                Err(message) => Err(message),
            },
            TurnOutput::Media { .. } => Err(
                "WhatsApp media delivery is not implemented yet".to_string(),
            ),
        },
        ReplyTarget::Mattermost { .. } => Err(
            "Mattermost reply delivery is not wired yet".to_string(),
        ),
        ReplyTarget::RocketChat { .. } => Err(
            "Rocket.Chat reply delivery is not wired yet".to_string(),
        ),
    }
}

} // verus!
