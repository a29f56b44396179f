//! What of a chat message reaches Codex.
use vstd::prelude::*;

use crate::approval::OperatorTarget;
use crate::basics::{law_ink, law_join, law_trim, law_trimmed_stays};
use crate::codex::context::{
    context_of, headed, input_of, is_lost_connection, item_images, item_texts, legacy_name,
    normal_input, telegram_request, tells_lost_connection, thread_name, voice_prompt,
    ChatRequestView, InputItemView, InputView,
};
use crate::numbers::{decimal, decimal_int};
use crate::patterns::{contains_text, join, stands_at};
use crate::telegram::types::{AttachmentView, InboundView};
use crate::text::{has_ink, is_white_space, trim, trimmed_ink};

verus! {

/// A request says what the message says: its words, what it replies to, what it
/// quotes and who sent it, in the session of its chat and thread.
pub proof fn law_request_is_the_message(inbound: InboundView, operator_target: OperatorTarget)
    ensures
        telegram_request(inbound, operator_target).text == inbound.text,
        telegram_request(inbound, operator_target).reply_to_text == inbound.reply_to_text,
        telegram_request(inbound, operator_target).quoted_text == inbound.quoted_text,
        telegram_request(inbound, operator_target).sender_name == inbound.sender_name,
        telegram_request(inbound, operator_target).operator_target == operator_target,
        telegram_request(inbound, operator_target).session_key == match inbound.thread_id {
            Some(thread) => "telegram:default:"@ + decimal_int(inbound.chat_id as int) + ":"@
                + decimal_int(thread as int),
            None => "telegram:default:"@ + decimal_int(inbound.chat_id as int),
        },
{
    reveal_strlit("telegram:default:");
    reveal_strlit("telegram");
    reveal_strlit("default");
    reveal_strlit(":");
    assert("telegram"@ + ":"@ + "default"@ + ":"@ =~= "telegram:default:"@);
}

/// The thread of a session is named after its key; the name before that was the
/// key without the account.
pub proof fn law_thread_names(key: Seq<char>, rest: Seq<char>)
    ensures
        thread_name(key) == "session:"@ + key,
        legacy_name("telegram:default:"@ + rest) == Some("telegram:"@ + rest),
        !"telegram:default:"@.is_prefix_of(key) ==> legacy_name(key) is None,
{
    let prefix = "telegram:default:"@;
    let all = prefix + rest;
    assert(prefix =~= all.take(prefix.len() as int));
    assert(all.skip(prefix.len() as int) =~= rest);
}

// ---------------------------------------------------------------------------
// Words
// ---------------------------------------------------------------------------
/// Whether something other than white space is said.
pub open spec fn said(text: Option<Seq<char>>) -> bool {
    text matches Some(words) && exists|i: int|
        0 <= i < words.len() && !is_white_space(#[trigger] words[i])
}

proof fn lemma_said(text: Option<Seq<char>>)
    ensures
        said(text) ==> trimmed_ink(text) == Some(trim(text->0)),
        !said(text) ==> trimmed_ink(text) is None,
{
    if let Some(words) = text {
        law_ink(words);
    }
}

/// The words of a message that replies to nothing are its own, and a message
/// that says nothing has none.
pub proof fn law_plain_words(request: ChatRequestView)
    requires
        !said(request.reply_to_text),
        !said(request.quoted_text),
    ensures
        said(request.text) ==> context_of(request) == Some(trim(request.text->0)),
        !said(request.text) ==> context_of(request) is None,
{
    lemma_said(request.text);
    lemma_said(request.reply_to_text);
    lemma_said(request.quoted_text);
}

/// A message that replies is told with what it replies to: the message that is
/// answered, then the fragment that is quoted, then the words of the reply, each
/// under its heading, an empty line between them.
pub proof fn law_replies_are_told(request: ChatRequestView)
    requires
        said(request.reply_to_text) || said(request.quoted_text),
    ensures
        ({
            let reply = "Quoted message:\n"@ + trim(request.reply_to_text->0);
            let quote = "Quoted fragment:\n"@ + trim(request.quoted_text->0);
            let words = "User reply/comment:\n"@ + trim(request.text->0);
            let gap = "\n\n"@;
            context_of(request) == Some(
                match (
                    said(request.reply_to_text),
                    said(request.quoted_text),
                    said(request.text),
                ) {
                    (true, true, true) => reply + gap + quote + gap + words,
                    (true, true, false) => reply + gap + quote,
                    (true, false, true) => reply + gap + words,
                    (true, false, false) => reply,
                    (false, true, true) => quote + gap + words,
                    _ => quote,
                },
            )
        }),
{
    lemma_said(request.text);
    lemma_said(request.reply_to_text);
    lemma_said(request.quoted_text);
    let reply = "Quoted message:\n"@ + trim(request.reply_to_text->0);
    let quote = "Quoted fragment:\n"@ + trim(request.quoted_text->0);
    let words = "User reply/comment:\n"@ + trim(request.text->0);
    let gap = "\n\n"@;
    let parts = headed("Quoted message:\n"@, trimmed_ink(request.reply_to_text)) + headed(
        "Quoted fragment:\n"@,
        trimmed_ink(request.quoted_text),
    ) + headed("User reply/comment:\n"@, trimmed_ink(request.text));
    law_join(seq![reply, quote], gap, words);
    law_join(seq![reply], gap, quote);
    law_join(seq![reply], gap, words);
    law_join(seq![quote], gap, words);
    law_join(seq![], gap, reply);
    law_join(seq![], gap, quote);
    assert(seq![reply].push(quote) =~= seq![reply, quote]);
    assert(seq![reply, quote].push(words) =~= seq![reply, quote, words]);
    assert(seq![reply].push(words) =~= seq![reply, words]);
    assert(seq![quote].push(words) =~= seq![quote, words]);
    match (said(request.reply_to_text), said(request.quoted_text), said(request.text)) {
        (true, true, true) => assert(parts =~= seq![reply, quote, words]),
        (true, true, false) => assert(parts =~= seq![reply, quote]),
        (true, false, true) => assert(parts =~= seq![reply, words]),
        (true, false, false) => assert(parts =~= seq![reply]),
        (false, true, true) => assert(parts =~= seq![quote, words]),
        _ => assert(parts =~= seq![quote]),
    }
}

/// Where `part` stands in `s`, it stands in any text around `s`.
proof fn lemma_contained(head: Seq<char>, s: Seq<char>, tail: Seq<char>, part: Seq<char>)
    requires
        contains_text(s, part),
    ensures
        contains_text(head + s + tail, part),
{
    let at = choose|at: int| #[trigger] stands_at(s, at, part);
    let all = head + s + tail;
    let k = head.len() + at;
    assert(all.subrange(k, k + part.len()) =~= s.subrange(at, at + part.len()));
    assert(stands_at(all, k, part));
}

proof fn lemma_contains(head: Seq<char>, part: Seq<char>, tail: Seq<char>)
    ensures
        contains_text(head + part + tail, part),
{
    let all = head + part + tail;
    let k = head.len() as int;
    assert(all.subrange(k, k + part.len()) =~= part);
    assert(stands_at(all, k, part));
}

/// What is told of a request is trimmed.
proof fn lemma_context_is_trimmed(request: ChatRequestView)
    ensures
        context_of(request) matches Some(words) ==> trim(words) == words && has_ink(words),
{
    if let Some(words) = context_of(request) {
        if said(request.reply_to_text) || said(request.quoted_text) {
            law_replies_are_told(request);
            reveal_strlit("Quoted message:\n");
            reveal_strlit("Quoted fragment:\n");
            reveal_strlit("User reply/comment:\n");
            let last = if said(request.text) {
                trim(request.text->0)
            } else if said(request.quoted_text) {
                trim(request.quoted_text->0)
            } else {
                trim(request.reply_to_text->0)
            };
            let of = if said(request.text) {
                request.text->0
            } else if said(request.quoted_text) {
                request.quoted_text->0
            } else {
                request.reply_to_text->0
            };
            law_ink(of);
            let ends = law_trim(of);
            assert(last.len() > 0);
            assert(words[words.len() - 1] == last[last.len() - 1]);
            assert(words[0] == 'Q');
            law_trimmed_stays(words);
        } else {
            law_plain_words(request);
            law_ink(request.text->0);
            let ends = law_trim(request.text->0);
            law_trimmed_stays(words);
        }
    }
}

/// The text of the input of a turn.
pub open spec fn text_of(input: InputView) -> Seq<char> {
    match normal_input(input)[0] {
        InputItemView::Text(text) => text,
        InputItemView::LocalImage(_) => seq![],
    }
}

proof fn lemma_image_items(text: Seq<char>, path: Seq<char>)
    ensures
        normal_input(
            InputView::Items(seq![InputItemView::Text(text), InputItemView::LocalImage(path)]),
        ) == seq![InputItemView::Text(text), InputItemView::LocalImage(path)],
{
    let items = seq![InputItemView::Text(text), InputItemView::LocalImage(path)];
    let first = items.drop_last();
    assert(first =~= seq![InputItemView::Text(text)]);
    assert(first.drop_last() =~= seq![]);
    reveal_with_fuel(item_texts, 4);
    reveal_with_fuel(item_images, 4);
    assert(item_texts(items) =~= seq![text]);
    assert(item_images(items) =~= seq![InputItemView::LocalImage(path)]);
    assert(join(seq![text], "\n\n"@) == text);
    assert(normal_input(InputView::Items(items)) =~= items);
}

/// Whatever is attached, the words of a request reach the server, all of them
/// and unchanged.
pub proof fn law_words_reach_codex(request: ChatRequestView, attachment: Option<AttachmentView>)
    ensures
        context_of(request) matches Some(words) ==> contains_text(
            text_of(input_of(request, attachment)),
            words,
        ),
{
    lemma_context_is_trimmed(request);
    if let Some(words) = context_of(request) {
        let none = Seq::<char>::empty();
        let input = input_of(request, attachment);
        let text = text_of(input);
        match attachment {
            None => {
                assert(text =~= none + words + none);
                lemma_contains(none, words, none);
            },
            Some(AttachmentView::Image(path)) => {
                lemma_image_items(words, path);
                assert(input =~= InputView::Items(
                    seq![InputItemView::Text(words), InputItemView::LocalImage(path)],
                ));
                assert(text =~= none + words + none);
                lemma_contains(none, words, none);
            },
            Some(AttachmentView::File(path)) => {
                let head = "User "@ + request.sender_name + " sent a file.\nLocal file path: `"@
                    + path + "`.\nUse that file directly if needed.\n\n"@;
                assert(text =~= head + words + none);
                lemma_contains(head, words, none);
            },
            Some(AttachmentView::Voice { path, duration_seconds, transcript }) => {
                let full = voice_prompt(
                    request.sender_name,
                    path,
                    duration_seconds,
                    Some(words),
                    transcript,
                );
                let start = "User "@ + request.sender_name + " sent a voice message"@ + match duration_seconds {
                    Some(count) => " ("@ + decimal(count as nat) + "s)"@,
                    None => seq![],
                } + ".\nLocal file path: `"@ + path + "`."@;
                let head = start + "\nUser caption/context:\n"@;
                let tail = match trimmed_ink(transcript) {
                    Some(heard) => "\n\nVoice transcript:\n"@ + heard,
                    None => "\n\nVoice transcript is unavailable."@,
                };
                assert(full =~= head + words + tail);
                lemma_contains(head, words, tail);
            },
        }
    }
}

/// What is answered and what is quoted stand in what is told of a request.
proof fn lemma_parts_are_told(request: ChatRequestView)
    requires
        said(request.reply_to_text) || said(request.quoted_text),
    ensures
        said(request.reply_to_text) ==> contains_text(
            context_of(request)->0,
            "Quoted message:\n"@ + trim(request.reply_to_text->0),
        ),
        said(request.quoted_text) ==> contains_text(
            context_of(request)->0,
            "Quoted fragment:\n"@ + trim(request.quoted_text->0),
        ),
{
    law_replies_are_told(request);
    let gap = "\n\n"@;
    let none = Seq::<char>::empty();
    let answered = "Quoted message:\n"@ + trim(request.reply_to_text->0);
    let quoted = "Quoted fragment:\n"@ + trim(request.quoted_text->0);
    let whole = context_of(request)->0;
    if said(request.reply_to_text) {
        let after = whole.skip(answered.len() as int);
        assert(whole =~= none + answered + after);
        lemma_contains(none, answered, after);
    }
    if said(request.quoted_text) {
        let before = if said(request.reply_to_text) {
            answered + gap
        } else {
            none
        };
        let after = whole.skip((before.len() + quoted.len()) as int);
        assert(whole =~= before + quoted + after);
        lemma_contains(before, quoted, after);
    }
}

/// The words of a message stand in what is told of it.
proof fn lemma_own_words_are_told(request: ChatRequestView)
    requires
        said(request.text),
    ensures
        context_of(request) is Some,
        contains_text(context_of(request)->0, trim(request.text->0)),
{
    let none = Seq::<char>::empty();
    let own = trim(request.text->0);
    if said(request.reply_to_text) || said(request.quoted_text) {
        law_replies_are_told(request);
    } else {
        law_plain_words(request);
    }
    let whole = context_of(request)->0;
    let before = whole.take(whole.len() - own.len());
    assert(whole =~= before + own + none);
    lemma_contains(before, own, none);
}

proof fn lemma_within(text: Seq<char>, whole: Seq<char>, part: Seq<char>)
    requires
        contains_text(text, whole),
        contains_text(whole, part),
    ensures
        contains_text(text, part),
{
    let at = choose|at: int| #[trigger] stands_at(text, at, whole);
    let head = text.take(at);
    let tail = text.skip(at + whole.len());
    assert(text =~= head + whole + tail);
    lemma_contained(head, whole, tail, part);
}

/// The message that a user answers, and the fragment that it quotes, reach the
/// server with the words of the answer, whatever is attached.
pub proof fn law_answered_message_reaches_codex(
    inbound: InboundView,
    operator_target: OperatorTarget,
    attachment: Option<AttachmentView>,
)
    ensures
        ({
            let text = text_of(
                input_of(telegram_request(inbound, operator_target), attachment),
            );
            &&& said(inbound.reply_to_text) ==> contains_text(
                text,
                "Quoted message:\n"@ + trim(inbound.reply_to_text->0),
            )
            &&& said(inbound.quoted_text) ==> contains_text(
                text,
                "Quoted fragment:\n"@ + trim(inbound.quoted_text->0),
            )
            &&& said(inbound.text) ==> contains_text(text, trim(inbound.text->0))
        }),
{
    let request = telegram_request(inbound, operator_target);
    law_request_is_the_message(inbound, operator_target);
    law_words_reach_codex(request, attachment);
    let text = text_of(input_of(request, attachment));
    if said(inbound.reply_to_text) || said(inbound.quoted_text) {
        law_replies_are_told(request);
        lemma_parts_are_told(request);
        let whole = context_of(request)->0;
        if said(inbound.reply_to_text) {
            lemma_within(text, whole, "Quoted message:\n"@ + trim(inbound.reply_to_text->0));
        }
        if said(inbound.quoted_text) {
            lemma_within(text, whole, "Quoted fragment:\n"@ + trim(inbound.quoted_text->0));
        }
    }
    if said(inbound.text) {
        lemma_own_words_are_told(request);
        lemma_within(text, context_of(request)->0, trim(inbound.text->0));
    }
}

// ---------------------------------------------------------------------------
// Attachments
// ---------------------------------------------------------------------------
/// A message with nothing attached is told in its own words and nothing else.
pub proof fn law_input_without_attachment(request: ChatRequestView)
    ensures
        normal_input(input_of(request, None)) == seq![
            InputItemView::Text(
                match context_of(request) {
                    Some(words) => words,
                    None => Seq::empty(),
                },
            ),
        ],
{
}

/// An image goes with the words of the message, or with the name of the sender
/// where there are none.
pub proof fn law_input_with_image(request: ChatRequestView, path: Seq<char>)
    ensures
        ({
            let items = normal_input(input_of(request, Some(AttachmentView::Image(path))));
            &&& items.len() == 2
            &&& items[1] == InputItemView::LocalImage(path)
            &&& context_of(request) matches Some(words) ==> items[0] == InputItemView::Text(words)
            &&& context_of(request) is None ==> (items[0] matches InputItemView::Text(text)
                && contains_text(text, request.sender_name) && contains_text(
                text,
                "attached an image"@,
            ))
        }),
{
    let text = match context_of(request) {
        Some(words) => words,
        None => "User "@ + request.sender_name
            + " attached an image. Reply to them in the same chat."@,
    };
    lemma_image_items(text, path);
    assert(input_of(request, Some(AttachmentView::Image(path))) =~= InputView::Items(
        seq![InputItemView::Text(text), InputItemView::LocalImage(path)],
    ));
    if context_of(request) is None {
        lemma_contains(
            "User "@,
            request.sender_name,
            " attached an image. Reply to them in the same chat."@,
        );
        reveal_strlit("attached an image");
        reveal_strlit(" attached an image. Reply to them in the same chat.");
        let head = "User "@ + request.sender_name + seq![' '];
        let rest = " attached an image. Reply to them in the same chat."@.skip(18);
        assert(" attached an image. Reply to them in the same chat."@ =~= seq![' ']
            + "attached an image"@ + rest);
        assert(text =~= head + "attached an image"@ + rest);
        lemma_contains(head, "attached an image"@, rest);
    }
}

/// A file is told by its path, and by the name of the sender.
pub proof fn law_input_with_file(request: ChatRequestView, path: Seq<char>)
    ensures
        ({
            let items = normal_input(input_of(request, Some(AttachmentView::File(path))));
            &&& items.len() == 1
            &&& items[0] matches InputItemView::Text(text) && contains_text(
                text,
                "Local file path: `"@ + path + "`."@,
            ) && contains_text(text, "User "@ + request.sender_name + " sent a file."@)
        }),
{
    reveal_strlit(" sent a file.\nLocal file path: `");
    reveal_strlit(" sent a file.");
    reveal_strlit("Local file path: `");
    reveal_strlit("`.");
    reveal_strlit("`.\nUse that file directly if needed.\n\n");
    let words = match context_of(request) {
        Some(words) => words,
        None => seq![],
    };
    let text = "User "@ + request.sender_name + " sent a file.\nLocal file path: `"@ + path
        + "`.\nUse that file directly if needed.\n\n"@ + words;
    let feed = seq!['\n'];
    assert(" sent a file.\nLocal file path: `"@ =~= " sent a file."@ + feed
        + "Local file path: `"@);
    let rest = "`.\nUse that file directly if needed.\n\n"@.skip(2);
    assert("`.\nUse that file directly if needed.\n\n"@ =~= "`."@ + rest);
    let who = "User "@ + request.sender_name + " sent a file."@;
    let place = "Local file path: `"@ + path + "`."@;
    assert(text =~= (who + feed) + place + (rest + words));
    lemma_contains(who + feed, place, rest + words);
    let none = Seq::<char>::empty();
    assert(text =~= none + who + (feed + place + rest + words));
    lemma_contains(none, who, feed + place + rest + words);
}

/// A voice message is told by its path, its length and its transcript, or by
/// the fact that there is none.
#[verifier::rlimit(40)]
pub proof fn law_input_with_voice(
    request: ChatRequestView,
    path: Seq<char>,
    seconds: Option<u32>,
    transcript: Option<Seq<char>>,
)
    ensures
        ({
            let items = normal_input(
                input_of(
                    request,
                    Some(
                        AttachmentView::Voice { path, duration_seconds: seconds, transcript },
                    ),
                ),
            );
            &&& items.len() == 1
            &&& items[0] matches InputItemView::Text(text) && contains_text(
                text,
                "Local file path: `"@ + path + "`."@,
            ) && contains_text(
                text,
                "User "@ + request.sender_name + " sent a voice message"@,
            ) && (seconds matches Some(count) ==> contains_text(
                text,
                "("@ + decimal(count as nat) + "s)"@,
            )) && if said(transcript) {
                contains_text(text, "Voice transcript:\n"@ + trim(transcript->0))
            } else {
                contains_text(text, "Voice transcript is unavailable."@)
            }
        }),
{
    let who = "User "@ + request.sender_name + " sent a voice message"@;
    let length = match seconds {
        Some(count) => " ("@ + decimal(count as nat) + "s)"@,
        None => seq![],
    };
    let place = "Local file path: `"@ + path + "`."@;
    let caption = match trimmed_ink(context_of(request)) {
        Some(words) => "\nUser caption/context:\n"@ + words,
        None => seq![],
    };
    let end = if said(transcript) {
        "Voice transcript:\n"@ + trim(transcript->0)
    } else {
        "Voice transcript is unavailable."@
    };
    let text = voice_prompt(
        request.sender_name,
        path,
        seconds,
        context_of(request),
        transcript,
    );
    lemma_voice_parts(request.sender_name, path, seconds, context_of(request), transcript);
    let dot = seq!['.', '\n'];
    let gap = seq!['\n', '\n'];
    assert(text == who + length + (dot + place) + (caption + gap) + end);
    lemma_five(who, length, dot + place, caption + gap, end);
    assert(contains_text(text, place)) by {
        lemma_contains(dot, place, seq![]);
        assert(dot + place + Seq::<char>::empty() =~= dot + place);
        lemma_within(text, dot + place, place);
    }
    if let Some(count) = seconds {
        let span = "("@ + decimal(count as nat) + "s)"@;
        assert(contains_text(text, span)) by {
            lemma_length(count);
            lemma_within(text, length, span);
        }
    }
}

proof fn lemma_length(count: u32)
    ensures
        contains_text(
            " ("@ + decimal(count as nat) + "s)"@,
            "("@ + decimal(count as nat) + "s)"@,
        ),
{
    reveal_strlit(" (");
    reveal_strlit("(");
    let span = "("@ + decimal(count as nat) + "s)"@;
    assert(" ("@ + decimal(count as nat) + "s)"@ =~= seq![' '] + span + Seq::<char>::empty());
    lemma_contains(seq![' '], span, seq![]);
}

/// The parts of what is said of a voice message.
proof fn lemma_voice_parts(
    sender: Seq<char>,
    path: Seq<char>,
    seconds: Option<u32>,
    context: Option<Seq<char>>,
    transcript: Option<Seq<char>>,
)
    ensures
        voice_prompt(sender, path, seconds, context, transcript) == ("User "@ + sender
            + " sent a voice message"@) + match seconds {
            Some(count) => " ("@ + decimal(count as nat) + "s)"@,
            None => seq![],
        } + (seq!['.', '\n'] + ("Local file path: `"@ + path + "`."@)) + (match trimmed_ink(context) {
            Some(words) => "\nUser caption/context:\n"@ + words,
            None => seq![],
        } + seq!['\n', '\n']) + if said(transcript) {
            "Voice transcript:\n"@ + trim(transcript->0)
        } else {
            "Voice transcript is unavailable."@
        },
{
    reveal_strlit(".\nLocal file path: `");
    reveal_strlit("Local file path: `");
    reveal_strlit("\n\nVoice transcript:\n");
    reveal_strlit("Voice transcript:\n");
    reveal_strlit("\n\nVoice transcript is unavailable.");
    reveal_strlit("Voice transcript is unavailable.");
    lemma_said(transcript);
    let gap = seq!['\n', '\n'];
    assert(".\nLocal file path: `"@ =~= seq!['.', '\n'] + "Local file path: `"@);
    assert("\n\nVoice transcript:\n"@ =~= gap + "Voice transcript:\n"@);
    assert("\n\nVoice transcript is unavailable."@ =~= gap + "Voice transcript is unavailable."@);
}

/// Each of five parts stands in the text that they make.
proof fn lemma_five(a: Seq<char>, b: Seq<char>, c: Seq<char>, d: Seq<char>, e: Seq<char>)
    ensures
        contains_text(a + b + c + d + e, a),
        contains_text(a + b + c + d + e, b),
        contains_text(a + b + c + d + e, c),
        contains_text(a + b + c + d + e, e),
{
    let all = a + b + c + d + e;
    let none = Seq::<char>::empty();
    lemma_contains(none, a, b + c + d + e);
    assert(all =~= none + a + (b + c + d + e));
    lemma_contains(a, b, c + d + e);
    assert(all =~= a + b + (c + d + e));
    lemma_contains(a + b, c, d + e);
    assert(all =~= a + b + c + (d + e));
    lemma_contains(a + b + c + d, e, none);
    assert(all =~= a + b + c + d + e + none);
}

/// A file is announced by its sender and its path, and what is said with it
/// comes last; an image without words by its sender alone.
pub proof fn law_announced_files(request: ChatRequestView, path: Seq<char>)
    ensures
        input_of(request, Some(AttachmentView::File(path))) == InputView::Text(
            "User "@ + request.sender_name + " sent a file.\nLocal file path: `"@ + path
                + "`.\nUse that file directly if needed.\n\n"@ + (
            if context_of(request) is Some {
                context_of(request)->0
            } else {
                Seq::empty()
            }),
        ),
        context_of(request) is None ==> input_of(request, Some(AttachmentView::Image(path)))
            == InputView::Items(
            seq![
                InputItemView::Text(
                    "User "@ + request.sender_name
                        + " attached an image. Reply to them in the same chat."@,
                ),
                InputItemView::LocalImage(path),
            ],
        ),
{
}

/// A voice message is announced by its sender, its length where it is known,
/// and its path; then comes what is said with it, and the transcript last.
pub proof fn law_announced_voice(
    request: ChatRequestView,
    sender: Seq<char>,
    path: Seq<char>,
    seconds: Option<u32>,
    context: Option<Seq<char>>,
    transcript: Option<Seq<char>>,
)
    ensures
        ({
            let length = match seconds {
                Some(count) => " ("@ + decimal(count as nat) + "s)"@,
                None => Seq::empty(),
            };
            let start = "User "@ + sender + " sent a voice message"@ + length
                + ".\nLocal file path: `"@ + path + "`."@;
            let told = if said(context) {
                start + "\nUser caption/context:\n"@ + trim(context->0)
            } else {
                start
            };
            voice_prompt(sender, path, seconds, context, transcript) == if said(transcript) {
                told + "\n\nVoice transcript:\n"@ + trim(transcript->0)
            } else {
                told + "\n\nVoice transcript is unavailable."@
            }
        }),
        input_of(
            request,
            Some(AttachmentView::Voice { path, duration_seconds: seconds, transcript }),
        ) == InputView::Text(
            voice_prompt(request.sender_name, path, seconds, context_of(request), transcript),
        ),
{
    lemma_said(context);
    lemma_said(transcript);
}

/// Text is kept as it is on its way to the server, and the images keep their
/// order behind it.
pub proof fn law_input_is_kept(text: Seq<char>, items: Seq<InputItemView>, next: InputItemView)
    ensures
        normal_input(InputView::Text(text)) == seq![InputItemView::Text(text)],
        item_texts(Seq::empty()).len() == 0,
        item_images(Seq::empty()).len() == 0,
        match next {
            InputItemView::Text(words) => item_texts(items.push(next)) == item_texts(items).push(
                words,
            ) && item_images(items.push(next)) == item_images(items),
            InputItemView::LocalImage(_) => item_images(items.push(next)) == item_images(
                items,
            ).push(next) && item_texts(items.push(next)) == item_texts(items),
        },
        item_texts(items).len() == 0 ==> normal_input(InputView::Items(items)) == item_images(
            items,
        ),
        item_texts(items).len() > 0 ==> normal_input(InputView::Items(items)) == seq![
            InputItemView::Text(join(item_texts(items), "\n\n"@)),
        ] + item_images(items),
{
    assert(items.push(next).drop_last() =~= items);
}

// ---------------------------------------------------------------------------
// Lost connections
// ---------------------------------------------------------------------------
/// An error comes from a lost connection exactly where one of its causes says
/// so, in one of the five ways that are known.
pub proof fn law_lost_connections(causes: Seq<Seq<char>>, i: int, head: Seq<char>, tail: Seq<char>)
    ensures
        0 <= i < causes.len() && (causes[i] == head + "Codex event stream closed"@ + tail
            || causes[i] == head + "transport send failed"@ + tail || causes[i] == head
            + "channel closed"@ + tail || causes[i] == head + "request timed out"@ + tail
            || causes[i] == head + "connection not ready"@ + tail) ==> is_lost_connection(causes),
        is_lost_connection(causes) ==> exists|k: int|
            0 <= k < causes.len() && {
                ||| contains_text(#[trigger] causes[k], "Codex event stream closed"@)
                ||| contains_text(causes[k], "transport send failed"@)
                ||| contains_text(causes[k], "channel closed"@)
                ||| contains_text(causes[k], "request timed out"@)
                ||| contains_text(causes[k], "connection not ready"@)
            },
{
    lemma_contains(head, "Codex event stream closed"@, tail);
    lemma_contains(head, "transport send failed"@, tail);
    lemma_contains(head, "channel closed"@, tail);
    lemma_contains(head, "request timed out"@, tail);
    lemma_contains(head, "connection not ready"@, tail);
    if 0 <= i < causes.len() && tells_lost_connection(causes[i]) {
        assert(is_lost_connection(causes));
    }
}

} // verus!
