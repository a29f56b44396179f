//! What a chat message becomes when it is handed to Codex.
use vstd::prelude::*;
use vstd::string::*;

use crate::approval::OperatorTarget;
use crate::channels::{telegram_key, telegram_session_key};
use crate::numbers::{decimal, decimal_u64};
use crate::patterns::{
    contains_text, join, joined_texts, stands_at, strip_prefix, text_contains, without_prefix,
};
use crate::telegram::types::{
    attachment_view, AttachmentView, DownloadedAttachment, InboundMessage, InboundView,
};
use crate::text::{chars_of, ink_of, opt_view, string_of, texts_view, trimmed_ink};

verus! {

/// A message for the thread of a session.
#[derive(Debug, Clone)]
pub struct ChatRequest {
    pub session_key: String,
    pub sender_name: String,
    pub text: Option<String>,
    pub reply_to_text: Option<String>,
    pub quoted_text: Option<String>,
    pub operator_target: OperatorTarget,
}

/// `ChatRequest` as a mathematical value.
#[verifier::ext_equal]
pub struct ChatRequestView {
    pub session_key: Seq<char>,
    pub sender_name: Seq<char>,
    pub text: Option<Seq<char>>,
    pub reply_to_text: Option<Seq<char>>,
    pub quoted_text: Option<Seq<char>>,
    pub operator_target: OperatorTarget,
}

impl View for ChatRequest {
    type V = ChatRequestView;

    open spec fn view(&self) -> ChatRequestView {
        ChatRequestView {
            session_key: self.session_key@,
            sender_name: self.sender_name@,
            text: opt_view(self.text),
            reply_to_text: opt_view(self.reply_to_text),
            quoted_text: opt_view(self.quoted_text),
            operator_target: self.operator_target,
        }
    }
}

/// The request that a Telegram message makes.
pub open spec fn telegram_request(inbound: InboundView, operator_target: OperatorTarget) -> ChatRequestView {
    ChatRequestView {
        session_key: telegram_key(inbound.chat_id as int, inbound.thread_id),
        sender_name: inbound.sender_name,
        text: inbound.text,
        reply_to_text: inbound.reply_to_text,
        quoted_text: inbound.quoted_text,
        operator_target,
    }
}

impl ChatRequest {
    /// The request that a Telegram message makes.
    pub fn from_telegram(inbound: InboundMessage, operator_target: OperatorTarget) -> (request:
        Self)
        ensures
            request@ == telegram_request(inbound@, operator_target),
    {
        let session_key = telegram_session_key(inbound.chat_id, inbound.thread_id);
        ChatRequest {
            session_key,
            sender_name: inbound.sender_name,
            text: inbound.text,
            reply_to_text: inbound.reply_to_text,
            quoted_text: inbound.quoted_text,
            operator_target,
        }
    }
}

/// The key of the session that a Telegram message belongs to.
pub fn chat_session_key(inbound: &InboundMessage) -> (key: String)
    ensures
        key@ == telegram_key(inbound.chat_id as int, inbound.thread_id),
{
    telegram_session_key(inbound.chat_id, inbound.thread_id)
}

/// The name of the thread of a session.
pub open spec fn thread_name(key: Seq<char>) -> Seq<char> {
    "session:"@ + key
}

/// The name of the thread of a session.
pub fn chat_thread_name(key: &str) -> (name: String)
    ensures
        name@ == thread_name(key@),
{
    let mut name = "session:".to_string();
    name.append(key);
    name
}

/// The name that the thread of a Telegram session had before accounts were
/// part of it.
pub open spec fn legacy_name(key: Seq<char>) -> Option<Seq<char>> {
    match without_prefix(key, "telegram:default:"@) {
        Some(rest) => Some("telegram:"@ + rest),
        None => None,
    }
}

/// The name that the thread of a Telegram session had before accounts were
/// part of it.
pub fn legacy_telegram_thread_name(key: &str) -> (name: Option<String>)
    ensures
        opt_view(name) == legacy_name(key@),
{
    let chars = chars_of(key);
    match strip_prefix(chars.as_slice(), "telegram:default:") {
        Some(rest) => {
            let mut name = "telegram:".to_string();
            let remainder = string_of(rest);
            name.append(remainder.as_str());
            Some(name)
        },
        None => None,
    }
}

/// Two sessions have no thread name in common, neither now nor from before.
pub proof fn law_sessions_share_no_thread_name(a: Seq<char>, b: Seq<char>)
    requires
        a != b,
    ensures
        thread_name(a) != thread_name(b),
        legacy_name(a) is Some ==> legacy_name(a) != legacy_name(b),
        legacy_name(a) != Some(thread_name(b)),
{
    reveal_strlit("session:");
    reveal_strlit("telegram:");
    reveal_strlit("telegram:default:");
    if thread_name(a) == thread_name(b) {
        assert(thread_name(a).skip(8) =~= a);
        assert(thread_name(b).skip(8) =~= b);
    }
    if legacy_name(a) is Some {
        let rest_a = a.skip(17);
        assert(legacy_name(a)->0 =~= "telegram:"@ + rest_a);
        if legacy_name(b) == legacy_name(a) {
            let rest_b = b.skip(17);
            assert(("telegram:"@ + rest_a).skip(9) =~= rest_a);
            assert(("telegram:"@ + rest_b).skip(9) =~= rest_b);
            assert(a =~= "telegram:default:"@ + rest_a);
            assert(b =~= "telegram:default:"@ + rest_b);
        }
        if legacy_name(a) == Some(thread_name(b)) {
            assert(legacy_name(a)->0[0] == 't');
            assert(thread_name(b)[0] == 's');
        }
    }
}

// ---------------------------------------------------------------------------
// Context
// ---------------------------------------------------------------------------
/// A heading and the text under it, where there is text.
pub open spec fn headed(heading: Seq<char>, text: Option<Seq<char>>) -> Seq<Seq<char>> {
    match text {
        Some(words) => seq![heading + words],
        None => seq![],
    }
}

/// The words of a request. Where it replies to something, what it replies to
/// comes first, each part under a heading.
pub open spec fn context_of(request: ChatRequestView) -> Option<Seq<char>> {
    let text = trimmed_ink(request.text);
    let reply = trimmed_ink(request.reply_to_text);
    let quote = trimmed_ink(request.quoted_text);
    if reply is None && quote is None {
        text
    } else {
        Some(
            join(
                headed("Quoted message:\n"@, reply) + headed("Quoted fragment:\n"@, quote) + headed(
                    "User reply/comment:\n"@,
                    text,
                ),
                "\n\n"@,
            ),
        )
    }
}

/// Adds a heading and the text under it, where there is text.
fn push_headed(parts: &mut Vec<String>, heading: &str, text: &Option<String>)
    ensures
        texts_view(final(parts)@) == texts_view(old(parts)@) + headed(heading@, opt_view(*text)),
{
    let ghost before = texts_view(parts@);
    if let Some(words) = text {
        let mut part = heading.to_string();
        part.append(words.as_str());
        parts.push(part);
    }
    assert(texts_view(parts@) =~= before + headed(heading@, opt_view(*text)));
}

/// The words of a request.
pub fn compose_message_context(request: &ChatRequest) -> (context: Option<String>)
    ensures
        opt_view(context) == context_of(request@),
{
    let text = ink_of(&request.text);
    let reply = ink_of(&request.reply_to_text);
    let quote = ink_of(&request.quoted_text);
    if reply.is_none() && quote.is_none() {
        return text;
    }
    let mut parts: Vec<String> = Vec::new();
    push_headed(&mut parts, "Quoted message:\n", &reply);
    push_headed(&mut parts, "Quoted fragment:\n", &quote);
    push_headed(&mut parts, "User reply/comment:\n", &text);
    assert(texts_view(parts@) =~= headed("Quoted message:\n"@, opt_view(reply)) + headed(
        "Quoted fragment:\n"@,
        opt_view(quote),
    ) + headed("User reply/comment:\n"@, opt_view(text)));
    Some(joined_texts(&parts, "\n\n"))
}

// ---------------------------------------------------------------------------
// Input
// ---------------------------------------------------------------------------
/// A part of the input of a turn.
#[derive(Debug, Clone, PartialEq, Eq)]
pub enum UserInput {
    Text { text: String },
    LocalImage { path: String },
}

/// The input of a turn.
#[derive(Debug, Clone, PartialEq, Eq)]
pub enum Input {
    Text(String),
    Items(Vec<UserInput>),
}

/// A part of the input of a turn, as a mathematical value.
#[verifier::ext_equal]
pub enum InputItemView {
    Text(Seq<char>),
    LocalImage(Seq<char>),
}

impl View for UserInput {
    type V = InputItemView;

    open spec fn view(&self) -> InputItemView {
        match *self {
            UserInput::Text { text } => InputItemView::Text(text@),
            UserInput::LocalImage { path } => InputItemView::LocalImage(path@),
        }
    }
}

/// The input of a turn, as a mathematical value.
#[verifier::ext_equal]
pub enum InputView {
    Text(Seq<char>),
    Items(Seq<InputItemView>),
}

/// The view of a list of parts.
pub open spec fn input_items_view(items: Seq<UserInput>) -> Seq<InputItemView> {
    Seq::new(items.len(), |i: int| items[i]@)
}

impl View for Input {
    type V = InputView;

    open spec fn view(&self) -> InputView {
        match *self {
            Input::Text(text) => InputView::Text(text@),
            Input::Items(items) => InputView::Items(input_items_view(items@)),
        }
    }
}

/// The length of a voice message in words.
pub open spec fn duration_text(seconds: Option<u32>) -> Seq<char> {
    match seconds {
        Some(count) => " ("@ + decimal(count as nat) + "s)"@,
        None => seq![],
    }
}

/// What is said of a voice message.
pub open spec fn voice_prompt(
    sender: Seq<char>,
    path: Seq<char>,
    seconds: Option<u32>,
    context: Option<Seq<char>>,
    transcript: Option<Seq<char>>,
) -> Seq<char> {
    let start = "User "@ + sender + " sent a voice message"@ + duration_text(seconds)
        + ".\nLocal file path: `"@ + path + "`."@;
    let caption = match trimmed_ink(context) {
        Some(words) => start + "\nUser caption/context:\n"@ + words,
        None => start,
    };
    match trimmed_ink(transcript) {
        Some(words) => caption + "\n\nVoice transcript:\n"@ + words,
        None => caption + "\n\nVoice transcript is unavailable."@,
    }
}

/// What is said of a file.
pub open spec fn file_prompt(sender: Seq<char>, path: Seq<char>, context: Option<Seq<char>>) -> Seq<
    char,
> {
    "User "@ + sender + " sent a file.\nLocal file path: `"@ + path
        + "`.\nUse that file directly if needed.\n\n"@ + match context {
        Some(words) => words,
        None => seq![],
    }
}

/// The input that a request makes, with its attachment: an image is handed
/// over as an image, a voice message and a file by their paths.
pub open spec fn input_of(request: ChatRequestView, attachment: Option<AttachmentView>) -> InputView {
    let context = context_of(request);
    match attachment {
        Some(AttachmentView::Image(path)) => InputView::Items(
            seq![
                InputItemView::Text(
                    match context {
                        Some(words) => words,
                        None => "User "@ + request.sender_name
                            + " attached an image. Reply to them in the same chat."@,
                    },
                ),
                InputItemView::LocalImage(path),
            ],
        ),
        Some(AttachmentView::Voice { path, duration_seconds, transcript }) => InputView::Text(
            voice_prompt(request.sender_name, path, duration_seconds, context, transcript),
        ),
        Some(AttachmentView::File(path)) => InputView::Text(
            file_prompt(request.sender_name, path, context),
        ),
        None => InputView::Text(
            match context {
                Some(words) => words,
                None => seq![],
            },
        ),
    }
}

/// What is said of a voice message.
fn build_voice_prompt(
    sender: &str,
    path: &str,
    seconds: Option<u32>,
    context: &Option<String>,
    transcript: &Option<String>,
) -> (prompt: String)
    ensures
        prompt@ == voice_prompt(
            sender@,
            path@,
            seconds,
            opt_view(*context),
            opt_view(*transcript),
        ),
{
    let mut duration = String::new();
    if let Some(count) = seconds {
        duration = " (".to_string();
        let digits = decimal_u64(count as u64);
        duration.append(digits.as_str());
        duration.append("s)");
    }
    let mut prompt = "User ".to_string();
    prompt.append(sender);
    prompt.append(" sent a voice message");
    prompt.append(duration.as_str());
    prompt.append(".\nLocal file path: `");
    prompt.append(path);
    prompt.append("`.");
    if let Some(words) = ink_of(context) {
        prompt.append("\nUser caption/context:\n");
        prompt.append(words.as_str());
    }
    match ink_of(transcript) {
        Some(words) => {
            prompt.append("\n\nVoice transcript:\n");
            prompt.append(words.as_str());
        },
        None => {
            prompt.append("\n\nVoice transcript is unavailable.");
        },
    }
    prompt
}

/// The input that a request makes, with its attachment.
pub fn build_input(request: &ChatRequest, attachment: Option<DownloadedAttachment>) -> (input:
    Input)
    ensures
        input@ == input_of(request@, attachment_view(attachment)),
{
    let context = compose_message_context(request);
    match attachment {
        Some(DownloadedAttachment::Image(path)) => {
            let text = match context {
                Some(words) => words,
                None => {
                    let mut words = "User ".to_string();
                    words.append(request.sender_name.as_str());
                    words.append(" attached an image. Reply to them in the same chat.");
                    words
                },
            };
            let mut items: Vec<UserInput> = Vec::new();
            let ghost shown = seq![
                InputItemView::Text(text@),
                InputItemView::LocalImage(path@),
            ];
            items.push(UserInput::Text { text });
            items.push(UserInput::LocalImage { path });
            assert(input_items_view(items@) =~= shown);
            Input::Items(items)
        },
        Some(DownloadedAttachment::Voice { path, duration_seconds, transcript }) => {
            Input::Text(
                build_voice_prompt(
                    request.sender_name.as_str(),
                    path.as_str(),
                    duration_seconds,
                    &context,
                    &transcript,
                ),
            )
        },
        Some(DownloadedAttachment::File(path)) => {
            let mut prompt = "User ".to_string();
            prompt.append(request.sender_name.as_str());
            prompt.append(" sent a file.\nLocal file path: `");
            prompt.append(path.as_str());
            prompt.append("`.\nUse that file directly if needed.\n\n");
            let ghost start = prompt@;
            match context {
                Some(words) => {
                    prompt.append(words.as_str());
                },
                None => {
                    assert(start + Seq::<char>::empty() =~= start);
                },
            }
            Input::Text(prompt)
        },
        None => {
            match context {
                Some(words) => Input::Text(words),
                None => Input::Text(String::new()),
            }
        },
    }
}

/// A part of the input of a turn, as the server takes it.
#[derive(Debug, Clone, PartialEq, Eq)]
pub enum TurnInputItem {
    Text { text: String },
    LocalImage { path: String },
}

impl View for TurnInputItem {
    type V = InputItemView;

    open spec fn view(&self) -> InputItemView {
        match *self {
            TurnInputItem::Text { text } => InputItemView::Text(text@),
            TurnInputItem::LocalImage { path } => InputItemView::LocalImage(path@),
        }
    }
}

/// The view of a list of parts.
pub open spec fn turn_items_view(items: Seq<TurnInputItem>) -> Seq<InputItemView> {
    Seq::new(items.len(), |i: int| items[i]@)
}

/// The texts among the parts, in order.
pub open spec fn item_texts(items: Seq<InputItemView>) -> Seq<Seq<char>>
    decreases items.len(),
{
    if items.len() == 0 {
        seq![]
    } else {
        match items.last() {
            InputItemView::Text(text) => item_texts(items.drop_last()).push(text),
            _ => item_texts(items.drop_last()),
        }
    }
}

/// The images among the parts, in order.
pub open spec fn item_images(items: Seq<InputItemView>) -> Seq<InputItemView>
    decreases items.len(),
{
    if items.len() == 0 {
        seq![]
    } else {
        match items.last() {
            InputItemView::LocalImage(path) => item_images(items.drop_last()).push(
                InputItemView::LocalImage(path),
            ),
            _ => item_images(items.drop_last()),
        }
    }
}

/// The input as the server takes it: all text in one part, before the images.
pub open spec fn normal_input(input: InputView) -> Seq<InputItemView> {
    match input {
        InputView::Text(text) => seq![InputItemView::Text(text)],
        InputView::Items(items) => {
            let texts = item_texts(items);
            if texts.len() == 0 {
                item_images(items)
            } else {
                seq![InputItemView::Text(join(texts, "\n\n"@))] + item_images(items)
            }
        },
    }
}

/// The input as the server takes it.
pub fn normalize_input_local(input: &Input) -> (items: Vec<TurnInputItem>)
    ensures
        turn_items_view(items@) == normal_input(input@),
{
    match input {
        Input::Text(text) => {
            let mut items: Vec<TurnInputItem> = Vec::new();
            items.push(TurnInputItem::Text { text: text.clone() });
            assert(turn_items_view(items@) =~= seq![InputItemView::Text(text@)]);
            items
        },
        Input::Items(parts) => {
            let mut texts: Vec<String> = Vec::new();
            let mut images: Vec<TurnInputItem> = Vec::new();
            let ghost views = input_items_view(parts@);
            let mut i: usize = 0;
            assert(views.take(0) =~= seq![]);
            assert(texts_view(texts@) =~= seq![]);
            assert(turn_items_view(images@) =~= seq![]);
            while i < parts.len()
                invariant
                    i <= parts.len(),
                    views == input_items_view(parts@),
                    texts_view(texts@) == item_texts(views.take(i as int)),
                    turn_items_view(images@) == item_images(views.take(i as int)),
                decreases parts.len() - i,
            {
                let ghost next = views.take(i + 1);
                let ghost old_texts = texts_view(texts@);
                let ghost old_images = turn_items_view(images@);
                assert(next.drop_last() =~= views.take(i as int));
                match &parts[i] {
                    UserInput::Text { text } => {
                        texts.push(text.clone());
                        assert(texts_view(texts@) =~= old_texts.push(text@));
                    },
                    UserInput::LocalImage { path } => {
                        images.push(TurnInputItem::LocalImage { path: path.clone() });
                        assert(turn_items_view(images@) =~= old_images.push(
                            InputItemView::LocalImage(path@),
                        ));
                    },
                }
                i += 1;
            }
            assert(views.take(i as int) =~= views);
            if texts.len() == 0 {
                return images;
            }
            let text = joined_texts(&texts, "\n\n");
            let ghost shown = seq![InputItemView::Text(text@)] + turn_items_view(images@);
            images.insert(0, TurnInputItem::Text { text });
            assert(turn_items_view(images@) =~= shown);
            images
        },
    }
}

// ---------------------------------------------------------------------------
// What the input promises
// ---------------------------------------------------------------------------
/// An image reaches the server as an image, after one part of text.
pub proof fn law_images_stay_images(request: ChatRequestView, path: Seq<char>)
    ensures
        ({
            let items = normal_input(input_of(request, Some(AttachmentView::Image(path))));
            &&& items.len() == 2
            &&& items[0] is Text
            &&& items[1] == InputItemView::LocalImage(path)
        }),
{
    let items = match input_of(request, Some(AttachmentView::Image(path))) {
        InputView::Items(items) => items,
        InputView::Text(_) => seq![],
    };
    let first = items.drop_last();
    assert(first =~= seq![items[0]]);
    assert(first.drop_last() =~= seq![]);
    reveal_with_fuel(item_texts, 4);
    reveal_with_fuel(item_images, 4);
}

/// The path of a voice message stands in the text that reaches the server.
pub proof fn law_voice_messages_name_their_file(
    request: ChatRequestView,
    path: Seq<char>,
    seconds: Option<u32>,
    transcript: Option<Seq<char>>,
)
    ensures
        ({
            let items = normal_input(
                input_of(
                    request,
                    Some(
                        AttachmentView::Voice { path, duration_seconds: seconds, transcript },
                    ),
                ),
            );
            &&& items.len() == 1
            &&& items[0] matches InputItemView::Text(text) && contains_text(text, path)
        }),
{
    let sender = request.sender_name;
    let context = context_of(request);
    let text = voice_prompt(sender, path, seconds, context, transcript);
    let head = "User "@ + sender + " sent a voice message"@ + duration_text(seconds)
        + ".\nLocal file path: `"@;
    let at = head.len() as int;
    let start = head + path + "`."@;
    assert(start.subrange(at, at + path.len()) =~= path);
    assert(text.len() >= start.len() && text.take(start.len() as int) =~= start);
    assert(text.subrange(at, at + path.len()) =~= start.subrange(at, at + path.len()));
    assert(stands_at(text, at, path));
}

// ---------------------------------------------------------------------------
// Transport failures
// ---------------------------------------------------------------------------
/// Whether a message tells that the connection to the server is lost.
pub open spec fn tells_lost_connection(message: Seq<char>) -> bool {
    ||| contains_text(message, "Codex event stream closed"@)
    ||| contains_text(message, "transport send failed"@)
    ||| contains_text(message, "channel closed"@)
    ||| contains_text(message, "request timed out"@)
    ||| contains_text(message, "connection not ready"@)
}

/// Whether an error, given as the messages of its causes, comes from a lost
/// connection.
pub open spec fn is_lost_connection(causes: Seq<Seq<char>>) -> bool {
    exists|i: int| 0 <= i < causes.len() && tells_lost_connection(#[trigger] causes[i])
}

/// Whether an error, given as the messages of its causes, comes from a lost
/// connection.
pub fn is_codex_transport_failure(causes: &Vec<String>) -> (yes: bool)
    ensures
        yes == is_lost_connection(texts_view(causes@)),
{
    let ghost views = texts_view(causes@);
    let mut i: usize = 0;
    while i < causes.len()
        invariant
            i <= causes.len(),
            views == texts_view(causes@),
            forall|k: int| 0 <= k < i ==> !tells_lost_connection(#[trigger] views[k]),
        decreases causes.len() - i,
    {
        let message = causes[i].as_str();
        if text_contains(message, "Codex event stream closed") || text_contains(
            message,
            "transport send failed",
        ) || text_contains(message, "channel closed") || text_contains(message, "request timed out")
            || text_contains(message, "connection not ready") {
            assert(tells_lost_connection(views[i as int]));
            return true;
        }
        i += 1;
    }
    false
}

/// Whether an operation is tried again, on a new connection: once, where the
/// first try failed because the connection was lost.
pub fn should_reconnect(first_try: bool, causes: &Vec<String>) -> (yes: bool)
    ensures
        yes == (first_try && is_lost_connection(texts_view(causes@))),
{
    first_try && is_codex_transport_failure(causes)
}

} // verus!
