//! The WhatsApp Cloud API.
use vstd::prelude::*;
use vstd::string::*;

use crate::channels::{route_key, ChannelKind};
use crate::config::{AppConfig, WhatsAppConfig};
use crate::json::{object_insert, object_new, object_value, text_value, value_view, JsonView};
use crate::text::{
    cut_run, cut_trailing, has_ink, is_text, only, opt_view, same_text, trim, trimmed_text,
};

verus! {

/// A WhatsApp conversation.
#[derive(Debug, Clone, PartialEq, Eq)]
pub struct WhatsAppReplyTarget {
    pub account_id: String,
    pub chat_id: String,
}

/// The key of the session of a conversation.
pub open spec fn conversation_key(account_id: Seq<char>, chat_id: Seq<char>) -> Seq<char> {
    "whatsapp:"@ + account_id + ":"@ + chat_id
}

impl WhatsAppReplyTarget {
    /// The key of the session of the conversation.
    pub fn session_key(&self) -> (key: String)
        ensures
            key@ == conversation_key(self.account_id@, self.chat_id@),
    {
        let mut key = "whatsapp:".to_string();
        key.append(self.account_id.as_str());
        key.append(":");
        key.append(self.chat_id.as_str());
        key
    }
}

/// A text message.
#[derive(Debug, Clone, PartialEq, Eq)]
pub struct WhatsAppInboundEvent {
    pub account_id: String,
    pub chat_id: String,
    pub sender_id: String,
    pub sender_name: String,
    pub message_id: String,
    pub text: String,
}

/// `WhatsAppInboundEvent` as a mathematical value.
#[verifier::ext_equal]
pub struct WhatsAppEventView {
    pub account_id: Seq<char>,
    pub chat_id: Seq<char>,
    pub sender_id: Seq<char>,
    pub sender_name: Seq<char>,
    pub message_id: Seq<char>,
    pub text: Seq<char>,
}

impl View for WhatsAppInboundEvent {
    type V = WhatsAppEventView;

    open spec fn view(&self) -> WhatsAppEventView {
        WhatsAppEventView {
            account_id: self.account_id@,
            chat_id: self.chat_id@,
            sender_id: self.sender_id@,
            sender_name: self.sender_name@,
            message_id: self.message_id@,
            text: self.text@,
        }
    }
}

impl WhatsAppInboundEvent {
    /// The conversation that the message belongs to.
    pub fn reply_target(&self) -> (target: WhatsAppReplyTarget)
        ensures
            target.account_id@ == self.account_id@,
            target.chat_id@ == self.chat_id@,
    {
        WhatsAppReplyTarget {
            account_id: self.account_id.clone(),
            chat_id: self.chat_id.clone(),
        }
    }

    /// The key of the session that the message belongs to.
    pub fn session_key(&self) -> (key: String)
        ensures
            key@ == conversation_key(self.account_id@, self.chat_id@),
    {
        self.reply_target().session_key()
    }
}

/// The session of a conversation has the key of a route to it.
pub proof fn law_conversation_key_is_route_key(account_id: Seq<char>, chat_id: Seq<char>)
    ensures
        conversation_key(account_id, chat_id) == route_key(
            ChannelKind::WhatsApp,
            account_id,
            chat_id,
            None,
        ),
{
    reveal_strlit("whatsapp:");
    reveal_strlit("whatsapp");
    reveal_strlit(":");
    assert("whatsapp:"@ =~= "whatsapp"@ + ":"@);
}

// ---------------------------------------------------------------------------
// Webhooks
// ---------------------------------------------------------------------------
/// What WhatsApp sends to verify a webhook.
#[derive(Debug)]
pub struct WhatsAppWebhookVerificationQuery {
    pub mode: Option<String>,
    pub verify_token: Option<String>,
    pub challenge: Option<String>,
}

/// What WhatsApp sends to a webhook.
#[derive(Debug)]
pub struct WhatsAppWebhookPayload {
    pub entry: Vec<WhatsAppEntry>,
}

#[derive(Debug)]
pub struct WhatsAppEntry {
    pub changes: Vec<WhatsAppChange>,
}

#[derive(Debug)]
pub struct WhatsAppChange {
    pub field: String,
    pub value: WhatsAppValue,
}

#[derive(Debug)]
pub struct WhatsAppValue {
    pub contacts: Option<Vec<WhatsAppContact>>,
    pub messages: Option<Vec<WhatsAppMessage>>,
}

#[derive(Debug)]
pub struct WhatsAppContact {
    pub wa_id: Option<String>,
    pub profile: Option<WhatsAppProfile>,
}

#[derive(Debug)]
pub struct WhatsAppProfile {
    pub name: Option<String>,
}

#[derive(Debug)]
pub struct WhatsAppMessage {
    pub from: String,
    pub id: String,
    pub message_type: String,
    pub text: Option<WhatsAppText>,
}

#[derive(Debug)]
pub struct WhatsAppText {
    pub body: String,
}

/// The challenge that is answered, where the query asks for a subscription and
/// knows the token.
pub open spec fn challenge_of(
    verify_token: Seq<char>,
    query: WhatsAppWebhookVerificationQuery,
) -> Option<Seq<char>> {
    if opt_view(query.mode) == Some("subscribe"@) && opt_view(query.verify_token) == Some(
        verify_token,
    ) {
        opt_view(query.challenge)
    } else {
        None
    }
}

/// The challenge that is answered.
pub fn verify_webhook(
    config: &WhatsAppConfig,
    query: &WhatsAppWebhookVerificationQuery,
) -> (challenge: Option<String>)
    ensures
        opt_view(challenge) == challenge_of(config.verify_token@, *query),
{
    if is_text(&query.mode, "subscribe") && is_text(
        &query.verify_token,
        config.verify_token.as_str(),
    ) {
        match &query.challenge {
            Some(challenge) => Some(challenge.clone()),
            None => None,
        }
    } else {
        None
    }
}

/// The contacts that are sent along with messages.
pub open spec fn known_contacts(contacts: Option<Vec<WhatsAppContact>>) -> Seq<WhatsAppContact> {
    match contacts {
        Some(list) => list@,
        None => Seq::empty(),
    }
}

/// The name that the contacts from `i` on have for the sender `from`: that of
/// the first contact with this id, where it has one, else the id.
pub open spec fn sender_name_of(contacts: Seq<WhatsAppContact>, i: int, from: Seq<char>) -> Seq<char>
    decreases contacts.len() - i,
{
    if i < 0 || i >= contacts.len() {
        from
    } else if opt_view(contacts[i].wa_id) == Some(from) {
        match contacts[i].profile {
            Some(profile) => match profile.name {
                Some(name) => name@,
                None => from,
            },
            None => from,
        }
    } else {
        sender_name_of(contacts, i + 1, from)
    }
}

/// Whether the sender `from` may write. An empty list admits everyone.
pub open spec fn sender_allowed(allowed: Seq<String>, from: Seq<char>) -> bool {
    allowed.len() == 0 || exists|i: int| 0 <= i < allowed.len() && (#[trigger] allowed[i])@ == from
}

/// What comes of looking at a part of a payload: the search goes on, or it is
/// over with this result.
#[verifier::ext_equal]
pub enum ScanView {
    Next,
    Stop(Option<WhatsAppEventView>),
}

/// What comes of looking at a message. One that is not text is passed over, a
/// blank one ends the search, and one of a sender who may not write is passed
/// over.
pub open spec fn scan_message(
    config: WhatsAppConfig,
    contacts: Seq<WhatsAppContact>,
    message: WhatsAppMessage,
) -> ScanView {
    if message.message_type@ != "text"@ {
        ScanView::Next
    } else {
        match message.text {
            Some(text) => if !has_ink(text.body@) {
                ScanView::Stop(None)
            } else if !sender_allowed(config.allowed_senders@, message.from@) {
                ScanView::Next
            } else {
                ScanView::Stop(
                    Some(
                        WhatsAppEventView {
                            account_id: config.account_id@,
                            chat_id: message.from@,
                            sender_id: message.from@,
                            sender_name: sender_name_of(contacts, 0, message.from@),
                            message_id: message.id@,
                            text: trim(text.body@),
                        },
                    ),
                )
            },
            None => ScanView::Stop(None),
        }
    }
}

/// What comes of looking at the messages from `i` on.
pub open spec fn scan_messages(
    config: WhatsAppConfig,
    contacts: Seq<WhatsAppContact>,
    messages: Seq<WhatsAppMessage>,
    i: int,
) -> ScanView
    decreases messages.len() - i,
{
    if i < 0 || i >= messages.len() {
        ScanView::Next
    } else {
        match scan_message(config, contacts, messages[i]) {
            ScanView::Next => scan_messages(config, contacts, messages, i + 1),
            stop => stop,
        }
    }
}

/// What comes of looking at a change: only messages count.
pub open spec fn scan_change(config: WhatsAppConfig, change: WhatsAppChange) -> ScanView {
    if change.field@ != "messages"@ {
        ScanView::Next
    } else {
        let contacts = known_contacts(change.value.contacts);
        match change.value.messages {
            Some(messages) => scan_messages(config, contacts, messages@, 0),
            None => ScanView::Next,
        }
    }
}

/// What comes of looking at the changes from `i` on.
pub open spec fn scan_changes(config: WhatsAppConfig, changes: Seq<WhatsAppChange>, i: int) -> ScanView
    decreases changes.len() - i,
{
    if i < 0 || i >= changes.len() {
        ScanView::Next
    } else {
        match scan_change(config, changes[i]) {
            ScanView::Next => scan_changes(config, changes, i + 1),
            stop => stop,
        }
    }
}

/// What comes of looking at the entries from `i` on.
pub open spec fn scan_entries(config: WhatsAppConfig, entries: Seq<WhatsAppEntry>, i: int) -> ScanView
    decreases entries.len() - i,
{
    if i < 0 || i >= entries.len() {
        ScanView::Next
    } else {
        match scan_changes(config, entries[i].changes@, 0) {
            ScanView::Next => scan_entries(config, entries, i + 1),
            stop => stop,
        }
    }
}

/// The message of a payload: the first one that ends the search, if that is a
/// message.
pub open spec fn event_of(config: WhatsAppConfig, payload: WhatsAppWebhookPayload) -> Option<
    WhatsAppEventView,
> {
    match scan_entries(config, payload.entry@, 0) {
        ScanView::Next => None,
        ScanView::Stop(event) => event,
    }
}

/// What comes of looking at a part of a payload.
enum Scan {
    Next,
    Stop(Option<WhatsAppInboundEvent>),
}

spec fn scan_view(scan: Scan) -> ScanView {
    match scan {
        Scan::Next => ScanView::Next,
        Scan::Stop(Some(event)) => ScanView::Stop(Some(event@)),
        Scan::Stop(None) => ScanView::Stop(None),
    }
}

fn name_of_sender(contacts: &Option<Vec<WhatsAppContact>>, from: &str) -> (name: String)
    ensures
        name@ == sender_name_of(known_contacts(*contacts), 0, from@),
{
    let list = match contacts {
        Some(list) => list,
        None => return from.to_string(),
    };
    let mut i: usize = 0;
    while i < list.len()
        invariant
            i <= list.len(),
            list@ == known_contacts(*contacts),
            sender_name_of(list@, 0, from@) == sender_name_of(list@, i as int, from@),
        decreases list.len() - i,
    {
        if is_text(&list[i].wa_id, from) {
            if let Some(profile) = &list[i].profile {
                if let Some(name) = &profile.name {
                    return name.clone();
                }
            }
            return from.to_string();
        }
        i += 1;
    }
    from.to_string()
}

fn may_write(allowed: &Vec<String>, from: &str) -> (yes: bool)
    ensures
        yes == sender_allowed(allowed@, from@),
{
    if allowed.len() == 0 {
        return true;
    }
    let mut i: usize = 0;
    while i < allowed.len()
        invariant
            i <= allowed.len(),
            forall|k: int| 0 <= k < i ==> (#[trigger] allowed@[k])@ != from@,
        decreases allowed.len() - i,
    {
        if same_text(allowed[i].as_str(), from) {
            assert(allowed@[i as int]@ == from@);
            return true;
        }
        i += 1;
    }
    false
}

fn look_at_message(
    config: &WhatsAppConfig,
    contacts: &Option<Vec<WhatsAppContact>>,
    message: &WhatsAppMessage,
) -> (scan: Scan)
    ensures
        scan_view(scan) == scan_message(*config, known_contacts(*contacts), *message),
{
    if !same_text(message.message_type.as_str(), "text") {
        return Scan::Next;
    }
    let text = match &message.text {
        Some(text) => trimmed_text(text.body.as_str()),
        None => return Scan::Stop(None),
    };
    if text.as_str().is_empty() {
        return Scan::Stop(None);
    }
    if !may_write(&config.allowed_senders, message.from.as_str()) {
        return Scan::Next;
    }
    Scan::Stop(
        Some(
            WhatsAppInboundEvent {
                account_id: config.account_id.clone(),
                chat_id: message.from.clone(),
                sender_id: message.from.clone(),
                sender_name: name_of_sender(contacts, message.from.as_str()),
                message_id: message.id.clone(),
                text,
            },
        ),
    )
}

fn look_at_change(config: &WhatsAppConfig, change: &WhatsAppChange) -> (scan: Scan)
    ensures
        scan_view(scan) == scan_change(*config, *change),
{
    if !same_text(change.field.as_str(), "messages") {
        return Scan::Next;
    }
    let ghost contacts = known_contacts(change.value.contacts);
    let messages = match &change.value.messages {
        Some(messages) => messages,
        None => return Scan::Next,
    };
    let mut i: usize = 0;
    while i < messages.len()
        invariant
            i <= messages.len(),
            contacts == known_contacts(change.value.contacts),
            scan_messages(*config, contacts, messages@, 0) == scan_messages(
                *config,
                contacts,
                messages@,
                i as int,
            ),
            scan_change(*config, *change) == scan_messages(*config, contacts, messages@, 0),
        decreases messages.len() - i,
    {
        match look_at_message(config, &change.value.contacts, &messages[i]) {
            Scan::Next => {},
            stop => return stop,
        }
        i += 1;
    }
    Scan::Next
}

fn look_at_entry(config: &WhatsAppConfig, entry: &WhatsAppEntry) -> (scan: Scan)
    ensures
        scan_view(scan) == scan_changes(*config, entry.changes@, 0),
{
    let mut i: usize = 0;
    while i < entry.changes.len()
        invariant
            i <= entry.changes.len(),
            scan_changes(*config, entry.changes@, 0) == scan_changes(
                *config,
                entry.changes@,
                i as int,
            ),
        decreases entry.changes.len() - i,
    {
        match look_at_change(config, &entry.changes[i]) {
            Scan::Next => {},
            stop => return stop,
        }
        i += 1;
    }
    Scan::Next
}

/// The message of a payload.
pub fn normalize_webhook_event(config: &WhatsAppConfig, payload: &WhatsAppWebhookPayload) -> (event:
    Option<WhatsAppInboundEvent>)
    ensures
        match event {
            Some(found) => event_of(*config, *payload) == Some(found@),
            None => event_of(*config, *payload) is None,
        },
{
    let mut i: usize = 0;
    while i < payload.entry.len()
        invariant
            i <= payload.entry.len(),
            scan_entries(*config, payload.entry@, 0) == scan_entries(
                *config,
                payload.entry@,
                i as int,
            ),
        decreases payload.entry.len() - i,
    {
        match look_at_entry(config, &payload.entry[i]) {
            Scan::Next => {},
            Scan::Stop(event) => return event,
        }
        i += 1;
    }
    None
}

/// Whether a search found nothing, or a message that is not empty from a sender
/// who may write.
spec fn finds_welcome(config: WhatsAppConfig, scan: ScanView) -> bool {
    scan matches ScanView::Stop(Some(event)) ==> sender_allowed(
        config.allowed_senders@,
        event.sender_id,
    ) && event.text.len() > 0
}

proof fn lemma_messages_welcome(
    config: WhatsAppConfig,
    contacts: Seq<WhatsAppContact>,
    messages: Seq<WhatsAppMessage>,
    i: int,
)
    ensures
        finds_welcome(config, scan_messages(config, contacts, messages, i)),
    decreases messages.len() - i,
{
    if 0 <= i < messages.len() {
        lemma_messages_welcome(config, contacts, messages, i + 1);
    }
}

proof fn lemma_changes_welcome(config: WhatsAppConfig, changes: Seq<WhatsAppChange>, i: int)
    ensures
        finds_welcome(config, scan_changes(config, changes, i)),
    decreases changes.len() - i,
{
    if 0 <= i < changes.len() {
        lemma_changes_welcome(config, changes, i + 1);
        if let Some(messages) = changes[i].value.messages {
            let contacts = known_contacts(changes[i].value.contacts);
            lemma_messages_welcome(config, contacts, messages@, 0);
        }
    }
}

proof fn lemma_entries_welcome(config: WhatsAppConfig, entries: Seq<WhatsAppEntry>, i: int)
    ensures
        finds_welcome(config, scan_entries(config, entries, i)),
    decreases entries.len() - i,
{
    if 0 <= i < entries.len() {
        lemma_entries_welcome(config, entries, i + 1);
        lemma_changes_welcome(config, entries[i].changes@, 0);
    }
}

/// A WhatsApp message reaches the gateway only with some text, and only from a
/// sender who may write.
pub proof fn law_only_listed_writers(config: WhatsAppConfig, payload: WhatsAppWebhookPayload)
    ensures
        event_of(config, payload) matches Some(event) ==> sender_allowed(
            config.allowed_senders@,
            event.sender_id,
        ) && event.text.len() > 0,
{
    lemma_entries_welcome(config, payload.entry@, 0);
}

// ---------------------------------------------------------------------------
// Messages
// ---------------------------------------------------------------------------
/// A call that sends a text message.
#[derive(Debug)]
pub struct WhatsAppCall {
    pub url: String,
    pub bearer_token: String,
    pub body: serde_json::Value,
}

/// `WhatsAppCall` as a mathematical value.
#[verifier::ext_equal]
pub struct WhatsAppCallView {
    pub url: Seq<char>,
    pub bearer_token: Seq<char>,
    pub body: JsonView,
}

impl View for WhatsAppCall {
    type V = WhatsAppCallView;

    open spec fn view(&self) -> WhatsAppCallView {
        WhatsAppCallView {
            url: self.url@,
            bearer_token: self.bearer_token@,
            body: value_view(self.body),
        }
    }
}

/// The call that sends `text` to the conversation `chat_id`.
pub open spec fn text_call_of(whatsapp: WhatsAppConfig, chat_id: Seq<char>, text: Seq<char>) -> WhatsAppCallView {
    WhatsAppCallView {
        url: cut_run(whatsapp.api_base_url@, only('/')) + "/"@ + whatsapp.phone_number_id@
            + "/messages"@,
        bearer_token: whatsapp.access_token@,
        body: JsonView::Object(
            map![
                "messaging_product"@ => JsonView::Text("whatsapp"@),
                "to"@ => JsonView::Text(chat_id),
                "type"@ => JsonView::Text("text"@),
                "text"@ => JsonView::Object(map!["body"@ => JsonView::Text(text)]),
            ],
        ),
    }
}

/// The call that sends `text` to a conversation, where WhatsApp is configured.
pub fn whatsapp_text_call(config: &AppConfig, target: &WhatsAppReplyTarget, text: &str) -> (call:
    Result<WhatsAppCall, String>)
    ensures
        match (config.whatsapp, call) {
            (Some(whatsapp), Ok(found)) => found@ == text_call_of(
                whatsapp,
                target.chat_id@,
                text@,
            ),
            (None, Err(message)) => message@ == "whatsapp is not configured"@,
            _ => false,
        },
{
    let whatsapp = match &config.whatsapp {
        Some(whatsapp) => whatsapp,
        None => return Err("whatsapp is not configured".to_string()),
    };
    let mut url = cut_trailing(whatsapp.api_base_url.as_str(), '/');
    url.append("/");
    url.append(whatsapp.phone_number_id.as_str());
    url.append("/messages");
    let mut content = object_new();
    object_insert(&mut content, "body", text_value(text));
    let mut body = object_new();
    object_insert(&mut body, "messaging_product", text_value("whatsapp"));
    object_insert(&mut body, "to", text_value(target.chat_id.as_str()));
    object_insert(&mut body, "type", text_value("text"));
    object_insert(&mut body, "text", object_value(content));
    Ok(
        WhatsAppCall {
            url,
            bearer_token: whatsapp.access_token.clone(),
            body: object_value(body),
        },
    )
}

} // verus!
