//! From updates to messages.
use vstd::prelude::*;
use vstd::string::*;

use crate::numbers::{eq_ignore_ascii_case, same_ignoring_case};
use crate::telegram::types::{
    InboundMessage, InboundView, TelegramMessage, TelegramUpdate, TelegramUser,
};
use crate::text::{opt_view, trim, trimmed_text};

verus! {

/// The message of an update in one of the bot's own chats: a new one before an
/// edited one.
pub open spec fn chat_message_of(update: TelegramUpdate) -> Option<TelegramMessage> {
    if update.message is Some {
        update.message
    } else {
        update.edited_message
    }
}

/// The message of an update: one of the bot's own chats before one of a business
/// chat, and a new one before an edited one.
pub open spec fn message_of(update: TelegramUpdate) -> Option<TelegramMessage> {
    if chat_message_of(update) is Some {
        chat_message_of(update)
    } else if update.business_message is Some {
        update.business_message
    } else {
        update.edited_business_message
    }
}

impl TelegramUpdate {
    /// The message of the update in one of the bot's own chats.
    pub fn chat_message(&self) -> (message: Option<&TelegramMessage>)
        ensures
            match message {
                Some(found) => chat_message_of(*self) == Some(*found),
                None => chat_message_of(*self) is None,
            },
    {
        if let Some(message) = &self.message {
            return Some(message);
        }
        match &self.edited_message {
            Some(message) => Some(message),
            None => None,
        }
    }

    /// The message of the update.
    pub fn any_message(&self) -> (message: Option<&TelegramMessage>)
        ensures
            match message {
                Some(found) => message_of(*self) == Some(*found),
                None => message_of(*self) is None,
            },
    {
        if let Some(message) = self.chat_message() {
            return Some(message);
        }
        if let Some(message) = &self.business_message {
            return Some(message);
        }
        match &self.edited_business_message {
            Some(message) => Some(message),
            None => None,
        }
    }
}

/// The text, or `fallback` where there is none.
pub open spec fn text_or(text: Option<String>, fallback: Seq<char>) -> Seq<char> {
    match text {
        Some(found) => found@,
        None => fallback,
    }
}

/// The name of a user.
pub open spec fn user_name(user: TelegramUser) -> Seq<char> {
    let first = text_or(user.first_name, "Unknown"@);
    let last = text_or(user.last_name, seq![]);
    if last.len() == 0 {
        first
    } else {
        first + " "@ + last
    }
}

/// Who sent a message: a user, or a chat in its own name.
pub open spec fn sender_of(message: TelegramMessage) -> Option<(i64, Seq<char>)> {
    match message.from {
        Some(user) => Some((user.id, user_name(user))),
        None => match message.sender_chat {
            Some(chat) => Some((chat.id, text_or(chat.title, "Unknown"@))),
            None => None,
        },
    }
}

/// Whether the user `id` may use the bot. An empty list admits everyone.
pub open spec fn is_allowed(allowed: Seq<i64>, id: i64) -> bool {
    allowed.len() == 0 || allowed.contains(id)
}

/// The file of the last, which is the largest, size of the photo.
pub open spec fn image_of(message: TelegramMessage) -> Option<Seq<char>> {
    match message.photo {
        Some(sizes) => if sizes@.len() > 0 {
            Some(sizes@.last().file_id@)
        } else {
            None
        },
        None => None,
    }
}

/// What a message says in words.
pub open spec fn words_of(message: TelegramMessage) -> Option<Seq<char>> {
    match message.text {
        Some(text) => Some(text@),
        None => opt_view(message.caption),
    }
}

/// Whether a message holds anything to handle: text, a photo, a document or a
/// voice message. A caption alone does not count.
pub open spec fn has_content(message: TelegramMessage) -> bool {
    message.text is Some || image_of(message) is Some || message.document is Some
        || message.voice is Some
}

/// The message as the gateway handles it, sent by `sender`.
pub open spec fn inbound_of(message: TelegramMessage, sender: (i64, Seq<char>)) -> InboundView {
    InboundView {
        chat_id: message.chat.id,
        sender_id: sender.0,
        sender_name: sender.1,
        message_id: message.message_id,
        thread_id: message.message_thread_id,
        text: words_of(message),
        reply_to_text: match message.reply_to_message {
            Some(replied) => words_of(*replied),
            None => None,
        },
        quoted_text: match message.quote {
            Some(quote) => Some(quote.text@),
            None => None,
        },
        image_file_id: image_of(message),
        document_file_id: match message.document {
            Some(document) => Some(document.file_id@),
            None => None,
        },
        document_name: match message.document {
            Some(document) => opt_view(document.file_name),
            None => None,
        },
        voice_file_id: match message.voice {
            Some(voice) => Some(voice.file_id@),
            None => None,
        },
        voice_duration: match message.voice {
            Some(voice) => voice.duration,
            None => None,
        },
    }
}

/// The message of an update as the gateway handles it, where there is one in a
/// chat of the bot's own, from an allowed sender, with something to handle in
/// it.
pub open spec fn normalized(update: TelegramUpdate, allowed: Seq<i64>) -> Option<InboundView> {
    match chat_message_of(update) {
        Some(message) => match sender_of(message) {
            Some(sender) => if is_allowed(allowed, sender.0) && has_content(message) {
                Some(inbound_of(message, sender))
            } else {
                None
            },
            None => None,
        },
        None => None,
    }
}

/// Whether the user `id` may use the bot.
pub fn user_allowed(allowed: &[i64], id: i64) -> (yes: bool)
    ensures
        yes == is_allowed(allowed@, id),
{
    if allowed.len() == 0 {
        return true;
    }
    let mut i: usize = 0;
    while i < allowed.len()
        invariant
            i <= allowed.len(),
            forall|k: int| 0 <= k < i ==> allowed@[k] != id,
        decreases allowed.len() - i,
    {
        if allowed[i] == id {
            assert(allowed@[i as int] == id);
            return true;
        }
        i += 1;
    }
    false
}

/// The text, or `fallback` where there is none.
fn text_or_else(text: &Option<String>, fallback: &str) -> (out: String)
    ensures
        out@ == text_or(*text, fallback@),
{
    match text {
        Some(found) => found.clone(),
        None => fallback.to_string(),
    }
}

/// The name of a user.
fn display_name(user: &TelegramUser) -> (name: String)
    ensures
        name@ == user_name(*user),
{
    let mut name = text_or_else(&user.first_name, "Unknown");
    if let Some(last) = &user.last_name {
        if !last.as_str().is_empty() {
            name.append(" ");
            name.append(last.as_str());
        }
    }
    name
}

/// What a message says in words.
fn message_words(message: &TelegramMessage) -> (words: Option<String>)
    ensures
        opt_view(words) == words_of(*message),
{
    match &message.text {
        Some(text) => Some(text.clone()),
        None => copied(&message.caption),
    }
}

/// A copy of optional text.
fn copied(text: &Option<String>) -> (copy: Option<String>)
    ensures
        opt_view(copy) == opt_view(*text),
{
    match text {
        Some(found) => Some(found.clone()),
        None => None,
    }
}

/// Who sent a message.
fn message_sender(message: &TelegramMessage) -> (sender: Option<(i64, String)>)
    ensures
        match sender {
            Some((id, name)) => sender_of(*message) == Some((id, name@)),
            None => sender_of(*message) is None,
        },
{
    if let Some(user) = &message.from {
        return Some((user.id, display_name(user)));
    }
    match &message.sender_chat {
        Some(chat) => Some((chat.id, text_or_else(&chat.title, "Unknown"))),
        None => None,
    }
}

/// The message of an update as the gateway handles it.
pub fn normalize_update(update: &TelegramUpdate, allowed_users: &[i64]) -> (inbound: Option<
    InboundMessage,
>)
    ensures
        match inbound {
            Some(found) => normalized(*update, allowed_users@) == Some(found@),
            None => normalized(*update, allowed_users@) is None,
        },
{
    let message = match update.chat_message() {
        Some(message) => message,
        None => return None,
    };
    let (sender_id, sender_name) = match message_sender(message) {
        Some(sender) => sender,
        None => return None,
    };
    if !user_allowed(allowed_users, sender_id) {
        return None;
    }
    let image_file_id = match &message.photo {
        Some(sizes) => if sizes.len() > 0 {
            Some(sizes[sizes.len() - 1].file_id.clone())
        } else {
            None
        },
        None => None,
    };
    if message.text.is_none() && image_file_id.is_none() && message.document.is_none()
        && message.voice.is_none() {
        return None;
    }
    let reply_to_text = match &message.reply_to_message {
        Some(replied) => message_words(replied),
        None => None,
    };
    let quoted_text = match &message.quote {
        Some(quote) => Some(quote.text.clone()),
        None => None,
    };
    let (document_file_id, document_name) = match &message.document {
        Some(document) => (Some(document.file_id.clone()), copied(&document.file_name)),
        None => (None, None),
    };
    let (voice_file_id, voice_duration) = match &message.voice {
        Some(voice) => (Some(voice.file_id.clone()), voice.duration),
        None => (None, None),
    };
    Some(
        InboundMessage {
            chat_id: message.chat.id,
            sender_id,
            sender_name,
            message_id: message.message_id,
            thread_id: message.message_thread_id,
            text: message_words(message),
            reply_to_text,
            quoted_text,
            image_file_id,
            document_file_id,
            document_name,
            voice_file_id,
            voice_duration,
        },
    )
}

/// Whether `text` is a command to start a new chat.
pub open spec fn is_new_chat_command(text: Option<Seq<char>>) -> bool {
    match text {
        Some(words) => same_ignoring_case(trim(words), "/new"@) || same_ignoring_case(
            trim(words),
            "новый тред"@,
        ),
        None => false,
    }
}

impl InboundMessage {
    /// Whether the message asks for a new chat.
    pub fn requests_new_chat(&self) -> (yes: bool)
        ensures
            yes == is_new_chat_command(opt_view(self.text)),
    {
        match &self.text {
            Some(text) => {
                let words = trimmed_text(text.as_str());
                eq_ignore_ascii_case(words.as_str(), "/new") || eq_ignore_ascii_case(
                    words.as_str(),
                    "новый тред",
                )
            },
            None => false,
        }
    }
}

// ---------------------------------------------------------------------------
// What normalization keeps out
// ---------------------------------------------------------------------------
/// Where users are listed, a message reaches the gateway only from one of them.
pub proof fn law_only_listed_senders(update: TelegramUpdate, allowed: Seq<i64>)
    requires
        allowed.len() > 0,
    ensures
        normalized(update, allowed) matches Some(inbound) ==> allowed.contains(inbound.sender_id),
{
}

/// A message of a business chat never reaches the gateway.
pub proof fn law_business_chats_are_left_alone(update: TelegramUpdate, allowed: Seq<i64>)
    requires
        update.message is None,
        update.edited_message is None,
    ensures
        normalized(update, allowed) is None,
{
}

/// Every message that reaches the gateway has words or an attachment.
pub proof fn law_nothing_empty(update: TelegramUpdate, allowed: Seq<i64>)
    ensures
        normalized(update, allowed) matches Some(inbound) ==> inbound.text is Some
            || inbound.image_file_id is Some || inbound.document_file_id is Some
            || inbound.voice_file_id is Some,
{
}

} // verus!
