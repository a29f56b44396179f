//! Markdown to the HTML subset that Telegram accepts.
pub mod block_laws;
pub mod blocks;
pub mod chunk_laws;
pub mod inline;
pub mod laws;
pub mod message;
pub mod neighbours;
pub mod parting;
pub mod repeated;
pub mod shown;
pub mod spacing;
pub mod styles;
pub mod tags;
pub mod visible;

pub use blocks::markdown_to_telegram_html;
pub use message::{sanitize_telegram_html, split_telegram_message};
