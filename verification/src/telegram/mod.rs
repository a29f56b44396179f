//! The Telegram Bot API: what it sends and what it is sent.
pub mod inbound;
pub mod laws;
pub mod media;
pub mod requests;
pub mod types;

pub use inbound::normalize_update;
pub use types::{
    DownloadedAttachment, InboundMessage, OutboundTelegramMedia, TelegramCallbackQuery,
    TelegramChat, TelegramDocument, TelegramMessage, TelegramPhotoSize, TelegramQuote,
    TelegramSenderChat, TelegramUpdate, TelegramUser, TelegramVoice,
};
