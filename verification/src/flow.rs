//! What holds of messages, approvals and replies on their way through the
//! gateway.
use vstd::prelude::*;

use crate::approval::{
    after_button, after_update, button_parts, keyboard_of, law_button_data_reads_back,
    law_buttons_decide, prompt_of, ActionView, ApprovalsView, OutcomeView, SteerKey,
};
use crate::basics::{law_cut, law_trimmed_ink};
use crate::channels::delivery::{delivery_of, DeliveryView};
use crate::channels::whatsapp::{
    challenge_of, event_of, known_contacts, scan_change, scan_changes, scan_entries, scan_message,
    scan_messages, sender_name_of, text_call_of, ScanView, WhatsAppChange, WhatsAppContact,
    WhatsAppEntry, WhatsAppEventView, WhatsAppMessage, WhatsAppWebhookPayload,
    WhatsAppWebhookVerificationQuery,
};
use crate::channels::{
    route_key, telegram_key, ChannelKind, ReplyTarget, TelegramReplyTarget, TurnOutputView,
};
use crate::config::{AppConfig, WhatsAppConfig};
use crate::gateway::{update_step, webhook_step, UpdateActionView, UpdateEvent, WebhookView};
use crate::json::JsonView;
use crate::numbers::decimal_int;
use crate::telegram::inbound::{is_new_chat_command, message_of, normalized};
use crate::telegram::laws::law_message_calls;
use crate::telegram::requests::{markdown_messages, method_url};
use crate::telegram::types::{
    AttachmentView, DownloadedAttachment, InboundView, TelegramCallbackQuery, TelegramMessage,
    TelegramUpdate, TelegramUser,
};
use crate::text::{
    has_ink, index_from, is_white_space, lemma_run_end_is, opt_view, other_than, trim,
};

verus! {

// ---------------------------------------------------------------------------
// Approvals
// ---------------------------------------------------------------------------
/// Who is asked for an approval reads the summary first and the proposed reply,
/// trimmed, last.
pub proof fn law_prompts(summary: Seq<char>, reply: Seq<char>)
    ensures
        ({
            let prompt = prompt_of(summary, reply);
            &&& prompt.take(summary.len() as int) == summary
            &&& prompt.skip(prompt.len() - trim(reply).len()) == trim(reply)
            &&& prompt.subrange(summary.len() as int, prompt.len() - trim(reply).len())
                == "\n\n---\n\n**Proposed reply**\n\n"@
        }),
{
    let prompt = prompt_of(summary, reply);
    assert(prompt.take(summary.len() as int) =~= summary);
    assert(prompt.skip(prompt.len() - trim(reply).len()) =~= trim(reply));
    assert(prompt.subrange(summary.len() as int, prompt.len() - trim(reply).len())
        =~= "\n\n---\n\n**Proposed reply**\n\n"@);
}

/// The data of a button in the row under a prompt, with its label.
pub open spec fn has_button(keyboard: JsonView, k: int, label: Seq<char>, data: Seq<char>) -> bool {
    keyboard matches JsonView::Object(entries) && entries.contains_key("inline_keyboard"@) && (
    entries["inline_keyboard"@] matches JsonView::Array(rows) && rows.len() == 1 && (
    rows[0] matches JsonView::Array(row) && 0 <= k < row.len() && row.len() == 3 && (
    row[k] matches JsonView::Object(shown) && shown.contains_key("text"@) && shown["text"@]
        == JsonView::Text(label) && shown.contains_key("callback_data"@)
        && shown["callback_data"@] == JsonView::Text(data))))
}

/// Under a prompt are three buttons: to approve, to deny and to steer.
pub proof fn law_three_buttons(id: Seq<char>)
    ensures
        has_button(keyboard_of(id), 0, "Approve"@, "apr:"@ + "approve"@ + ":"@ + id),
        has_button(keyboard_of(id), 1, "Deny"@, "apr:"@ + "deny"@ + ":"@ + id),
        has_button(keyboard_of(id), 2, "Steer"@, "apr:"@ + "steer"@ + ":"@ + id),
{
    reveal_strlit("text");
    reveal_strlit("callback_data");
    assert("text"@.len() == 4);
    assert("callback_data"@.len() == 13);
}

/// The first button under a prompt approves: the approval waits no longer, its
/// buttons are taken away, the turn that asked is told, and so is the operator.
pub proof fn law_approving(
    state: ApprovalsView,
    callback: TelegramCallbackQuery,
    allowed: Seq<i64>,
    id: Seq<char>,
    data: Seq<char>,
)
    requires
        state.pending.contains_key(id),
        id.len() > 0,
        allowed.len() == 0 || allowed.contains(callback.from.id),
        has_button(keyboard_of(id), 0, "Approve"@, data),
        opt_view(callback.data) == Some(data),
    ensures
        ({
            let step = after_button(state, callback, allowed);
            &&& step.handled
            &&& step.next.pending == state.pending.remove(id)
            &&& step.next.awaiting == state.awaiting
            &&& step.actions == seq![
                ActionView::RemoveKeyboard {
                    chat_id: state.pending[id].operator_target.chat_id,
                    message_id: state.pending[id].operator_message_id,
                },
                ActionView::Resolve { approval_id: id, outcome: OutcomeView::Approved },
                ActionView::Answer { callback_id: callback.id@, text: "Approved."@ },
            ]
        }),
{
    law_three_buttons(id);
    law_buttons_decide(state, callback, allowed, id);
}

/// The second button under a prompt denies.
pub proof fn law_denying(
    state: ApprovalsView,
    callback: TelegramCallbackQuery,
    allowed: Seq<i64>,
    id: Seq<char>,
    data: Seq<char>,
)
    requires
        state.pending.contains_key(id),
        id.len() > 0,
        allowed.len() == 0 || allowed.contains(callback.from.id),
        has_button(keyboard_of(id), 1, "Deny"@, data),
        opt_view(callback.data) == Some(data),
    ensures
        ({
            let step = after_button(state, callback, allowed);
            &&& step.handled
            &&& step.next.pending == state.pending.remove(id)
            &&& step.next.awaiting == state.awaiting
            &&& step.actions == seq![
                ActionView::RemoveKeyboard {
                    chat_id: state.pending[id].operator_target.chat_id,
                    message_id: state.pending[id].operator_message_id,
                },
                ActionView::Resolve { approval_id: id, outcome: OutcomeView::Denied },
                ActionView::Answer { callback_id: callback.id@, text: "Denied."@ },
            ]
        }),
{
    law_three_buttons(id);
    law_buttons_decide(state, callback, allowed, id);
}

/// After the third button, words of the same user in the same place are
/// expected; the approval waits on.
pub proof fn law_asking_for_words(
    state: ApprovalsView,
    callback: TelegramCallbackQuery,
    message: TelegramMessage,
    allowed: Seq<i64>,
    id: Seq<char>,
    data: Seq<char>,
)
    requires
        state.pending.contains_key(id),
        id.len() > 0,
        allowed.len() == 0 || allowed.contains(callback.from.id),
        has_button(keyboard_of(id), 2, "Steer"@, data),
        opt_view(callback.data) == Some(data),
        callback.message == Some(message),
    ensures
        ({
            let step = after_button(state, callback, allowed);
            let place = SteerKey {
                chat_id: message.chat.id,
                thread_id: message.message_thread_id,
                user_id: callback.from.id,
            };
            &&& step.handled
            &&& step.next.pending == state.pending
            &&& step.next.awaiting == state.awaiting.insert(place, id)
            &&& step.actions == seq![
                ActionView::RemoveKeyboard {
                    chat_id: state.pending[id].operator_target.chat_id,
                    message_id: state.pending[id].operator_message_id,
                },
                ActionView::Answer {
                    callback_id: callback.id@,
                    text: "Send your steering message next."@,
                },
                ActionView::Say {
                    chat_id: message.chat.id,
                    thread_id: message.message_thread_id,
                    markdown: "Send your steering feedback as the next text message in this chat."@,
                },
            ]
        }),
{
    law_three_buttons(id);
    law_buttons_decide(state, callback, allowed, id);
}

/// A button that decides nothing is answered with the reason, and changes
/// nothing; one that is not about approvals is left to others.
pub proof fn law_other_buttons(
    state: ApprovalsView,
    callback: TelegramCallbackQuery,
    allowed: Seq<i64>,
    action: Seq<char>,
    id: Seq<char>,
)
    requires
        opt_view(callback.data) == Some("apr:"@ + action + ":"@ + id),
        !action.contains(':'),
    ensures
        ({
            let step = after_button(state, callback, allowed);
            let stranger = allowed.len() > 0 && !allowed.contains(callback.from.id);
            let known = action == "approve"@ || action == "deny"@ || action == "steer"@;
            &&& stranger || id.len() == 0 || !known || !state.pending.contains_key(id) ==> {
                &&& step.handled
                &&& step.next == state
                &&& step.actions.len() == 1
                &&& step.actions[0] == (ActionView::Answer {
                    callback_id: callback.id@,
                    text: if stranger {
                        "Not allowed."@
                    } else if id.len() == 0 {
                        "Malformed approval."@
                    } else if !known {
                        "Unknown action."@
                    } else {
                        "Approval expired."@
                    },
                })
            }
        }),
{
    law_button_data_reads_back(action, id);
}

/// Without a message under which the button stands, nobody can be asked for
/// words.
pub proof fn law_steering_needs_a_place(
    state: ApprovalsView,
    callback: TelegramCallbackQuery,
    allowed: Seq<i64>,
    id: Seq<char>,
    data: Seq<char>,
)
    requires
        state.pending.contains_key(id),
        id.len() > 0,
        allowed.len() == 0 || allowed.contains(callback.from.id),
        has_button(keyboard_of(id), 2, "Steer"@, data),
        opt_view(callback.data) == Some(data),
        callback.message is None,
    ensures
        ({
            let step = after_button(state, callback, allowed);
            &&& step.handled
            &&& step.next == state
            &&& step.actions == seq![
                ActionView::Answer {
                    callback_id: callback.id@,
                    text: "Steer is unavailable here."@,
                },
            ]
        }),
{
    law_three_buttons(id);
    law_buttons_decide(state, callback, allowed, id);
}

/// A button that names no approval is told to be malformed, whatever it asks
/// for.
pub proof fn law_buttons_without_approval(
    state: ApprovalsView,
    callback: TelegramCallbackQuery,
    allowed: Seq<i64>,
    action: Seq<char>,
)
    requires
        opt_view(callback.data) == Some("apr:"@ + action),
        !action.contains(':'),
        allowed.len() == 0 || allowed.contains(callback.from.id),
    ensures
        ({
            let step = after_button(state, callback, allowed);
            &&& step.handled
            &&& step.next == state
            &&& step.actions == seq![
                ActionView::Answer { callback_id: callback.id@, text: "Malformed approval."@ },
            ]
        }),
{
    reveal_strlit("apr:");
    let data = "apr:"@ + action;
    let rest = data.skip(4);
    assert(rest =~= action);
    assert("apr:"@ =~= data.take(4));
    assert forall|k: int| 0 <= k < rest.len() implies other_than(':')(#[trigger] rest[k]) by {
        assert(action.contains(action[k]));
    }
    lemma_run_end_is(rest, 0, other_than(':'), rest.len() as int);
    assert(index_from(rest, 0, ':') is None);
    assert(button_parts(data) == (rest, Seq::<char>::empty()));
}

/// What nobody says, and what strangers say, is left to others.
pub proof fn law_words_of_nobody(state: ApprovalsView, update: TelegramUpdate, allowed: Seq<i64>)
    requires
        update.callback_query is None,
        match message_of(update) {
            Some(message) => match message.from {
                Some(user) => allowed.len() > 0 && !allowed.contains(user.id),
                None => true,
            },
            None => true,
        },
    ensures
        !after_update(state, update, allowed).handled,
        after_update(state, update, allowed).next == state,
        after_update(state, update, allowed).actions.len() == 0,
{
}

/// Data that does not start with the mark of approvals is none of theirs.
pub proof fn law_foreign_buttons(
    state: ApprovalsView,
    callback: TelegramCallbackQuery,
    allowed: Seq<i64>,
)
    requires
        match callback.data {
            Some(data) => data@.len() < 4 || data@.take(4) != seq!['a', 'p', 'r', ':'],
            None => true,
        },
    ensures
        !after_button(state, callback, allowed).handled,
        after_button(state, callback, allowed).next == state,
        after_button(state, callback, allowed).actions.len() == 0,
{
    reveal_strlit("apr:");
    assert("apr:"@ =~= seq!['a', 'p', 'r', ':']);
}

/// The message of an update: one in a chat of the bot's own before one of a
/// business chat, and a new one before an edited one.
pub proof fn law_message_of_an_update(update: TelegramUpdate)
    ensures
        update.message is Some ==> message_of(update) == update.message,
        update.message is None && update.edited_message is Some ==> message_of(update)
            == update.edited_message,
        update.message is None && update.edited_message is None && update.business_message is Some
            ==> message_of(update) == update.business_message,
        update.message is None && update.edited_message is None && update.business_message is None
            ==> message_of(update) == update.edited_business_message,
{
}

/// Words that are expected of a user decide the approval, trimmed, and the user
/// is told; without words the user is asked again. Where none are expected, the
/// message is left to others.
pub proof fn law_expected_words(
    state: ApprovalsView,
    update: TelegramUpdate,
    message: TelegramMessage,
    user: TelegramUser,
    allowed: Seq<i64>,
)
    requires
        update.callback_query is None,
        message_of(update) == Some(message),
        message.from == Some(user),
        allowed.len() == 0 || allowed.contains(user.id),
    ensures
        ({
            let step = after_update(state, update, allowed);
            let place = SteerKey {
                chat_id: message.chat.id,
                thread_id: message.message_thread_id,
                user_id: user.id,
            };
            let spoken = match message.text {
                Some(text) => exists|i: int|
                    0 <= i < text@.len() && !is_white_space(#[trigger] text@[i]),
                None => false,
            };
            &&& !state.awaiting.contains_key(place) ==> !step.handled && step.next == state
                && step.actions.len() == 0
            &&& state.awaiting.contains_key(place) && !spoken ==> step.handled && step.next == state
                && step.actions == seq![
                ActionView::Say {
                    chat_id: message.chat.id,
                    thread_id: message.message_thread_id,
                    markdown: "Please send a text steering message."@,
                },
            ]
            &&& state.awaiting.contains_key(place) && spoken ==> {
                let id = state.awaiting[place];
                let told = ActionView::Say {
                    chat_id: message.chat.id,
                    thread_id: message.message_thread_id,
                    markdown: "Got it. Revising with your steering feedback."@,
                };
                &&& step.handled
                &&& step.next.pending == state.pending.remove(id)
                &&& step.next.awaiting == state.awaiting.remove(place)
                &&& state.pending.contains_key(id) ==> step.actions == seq![
                    ActionView::Resolve {
                        approval_id: id,
                        outcome: OutcomeView::Steer(trim(message.text->0@)),
                    },
                    told,
                ]
                &&& !state.pending.contains_key(id) ==> step.actions == seq![told]
            }
        }),
{
    law_trimmed_ink(opt_view(message.text));
}

// ---------------------------------------------------------------------------
// Updates
// ---------------------------------------------------------------------------
/// With the secret, an update first goes to the approvals; what does not concern
/// them and is a message for the gateway is handled as it is.
pub proof fn law_updates_find_their_way(
    config: AppConfig,
    approvals: ApprovalsView,
    update: TelegramUpdate,
)
    ensures
        ({
            let allowed = config.telegram.allowed_user_ids@;
            let step = after_update(approvals, update, allowed);
            let (next, decision) = webhook_step(
                config,
                approvals,
                config.telegram.webhook_secret@,
                update,
            );
            &&& next == step.next
            &&& step.handled ==> decision == WebhookView::Approval(step.actions)
            &&& !step.handled ==> (normalized(update, allowed) matches Some(inbound) ==> decision
                == WebhookView::Process(inbound))
            &&& !step.handled && normalized(update, allowed) is None ==> decision is Ignore
        }),
{
}

/// A message that starts no new chat has its attachment downloaded, and a turn
/// is run with what was found.
pub proof fn law_messages_run_turns(
    inbound: InboundView,
    voice_enabled: bool,
    attachment: Option<DownloadedAttachment>,
)
    ensures
        is_new_chat_command(inbound.text) ==> update_step(
            inbound,
            voice_enabled,
            UpdateEvent::Received,
        ) is ResetChat,
        !is_new_chat_command(inbound.text) ==> update_step(
            inbound,
            voice_enabled,
            UpdateEvent::Received,
        ) is DownloadAttachment,
        ({
            let action = update_step(
                inbound,
                voice_enabled,
                UpdateEvent::Downloaded(Ok(attachment)),
            );
            match attachment {
                None => action == UpdateActionView::RunTurn(None),
                Some(DownloadedAttachment::Image(path)) => action == UpdateActionView::RunTurn(
                    Some(AttachmentView::Image(path@)),
                ),
                Some(DownloadedAttachment::File(path)) => action == UpdateActionView::RunTurn(
                    Some(AttachmentView::File(path@)),
                ),
                Some(
                    DownloadedAttachment::Voice { path, duration_seconds, transcript: Some(words) },
                ) => action == UpdateActionView::RunTurn(
                    Some(
                        AttachmentView::Voice {
                            path: path@,
                            duration_seconds,
                            transcript: Some(words@),
                        },
                    ),
                ),
                Some(DownloadedAttachment::Voice { path, duration_seconds, transcript: None }) =>
                    if voice_enabled {
                    action == (UpdateActionView::Transcribe { path: path@, duration_seconds })
                } else {
                    action == UpdateActionView::RunTurn(
                        Some(
                            AttachmentView::Voice {
                                path: path@,
                                duration_seconds,
                                transcript: None,
                            },
                        ),
                    )
                },
            }
        }),
{
}

/// A recording that was transcribed goes into the turn with its transcript.
pub proof fn law_transcripts_are_used(
    inbound: InboundView,
    voice_enabled: bool,
    recording: String,
    seconds: Option<u32>,
    words: String,
)
    ensures
        update_step(
            inbound,
            voice_enabled,
            UpdateEvent::Transcribed {
                path: recording,
                duration_seconds: seconds,
                result: Ok(words),
            },
        ) == UpdateActionView::RunTurn(
            Some(
                AttachmentView::Voice {
                    path: recording@,
                    duration_seconds: seconds,
                    transcript: Some(words@),
                },
            ),
        ),
{
}

/// What goes wrong is shown in the chat, word for word, under a heading that
/// says what it was; a chat that could not be reset is reported instead.
pub proof fn law_failures_are_shown(
    inbound: InboundView,
    voice_enabled: bool,
    recording: String,
    seconds: Option<u32>,
    fault: String,
)
    ensures
        update_step(inbound, voice_enabled, UpdateEvent::Downloaded(Err(fault)))
            == UpdateActionView::TrySay(
            "Attachment download failed"@ + ":\n\n```text\n"@ + fault@ + "\n```"@,
        ),
        update_step(
            inbound,
            voice_enabled,
            UpdateEvent::Transcribed {
                path: recording,
                duration_seconds: seconds,
                result: Err(fault),
            },
        ) == UpdateActionView::TrySay(
            "Voice transcription failed"@ + ":\n\n```text\n"@ + fault@ + "\n```"@,
        ),
        update_step(inbound, voice_enabled, UpdateEvent::TurnRun(Err(fault)))
            == UpdateActionView::TrySay(
            "Turn failed"@ + ":\n\n```text\n"@ + fault@ + "\n```"@,
        ),
        update_step(inbound, voice_enabled, UpdateEvent::ChatReset(Err(fault)))
            == UpdateActionView::Fail(fault@),
        update_step(inbound, voice_enabled, UpdateEvent::ChatReset(Ok(())))
            == UpdateActionView::Say(
            "Started a fresh chat. History cleared for this Telegram chat."@,
        ),
        update_step(inbound, voice_enabled, UpdateEvent::TurnRun(Ok(()))) is Done,
{
}

// ---------------------------------------------------------------------------
// Routes and replies
// ---------------------------------------------------------------------------
/// The key of a session names the channel, the account, the conversation and
/// the thread, in this order.
pub proof fn law_session_keys(
    account: Seq<char>,
    conversation: Seq<char>,
    thread: Seq<char>,
    chat_id: int,
    thread_id: i64,
)
    ensures
        route_key(ChannelKind::Telegram, account, conversation, None) == "telegram"@ + ":"@
            + account + ":"@ + conversation,
        route_key(ChannelKind::WhatsApp, account, conversation, None) == "whatsapp"@ + ":"@
            + account + ":"@ + conversation,
        route_key(ChannelKind::Mattermost, account, conversation, None) == "mattermost"@ + ":"@
            + account + ":"@ + conversation,
        route_key(ChannelKind::RocketChat, account, conversation, None) == "rocketchat"@ + ":"@
            + account + ":"@ + conversation,
        forall|channel: ChannelKind|
            #[trigger] route_key(channel, account, conversation, Some(thread)) == route_key(
                channel,
                account,
                conversation,
                None,
            ) + ":"@ + thread,
        telegram_key(chat_id, None) == "telegram"@ + ":"@ + "default"@ + ":"@ + decimal_int(
            chat_id,
        ),
        telegram_key(chat_id, Some(thread_id)) == telegram_key(chat_id, None) + ":"@ + decimal_int(
            thread_id as int,
        ),
{
}

/// Text for a Telegram chat goes there: every message of it, in order, into the
/// thread, and silently where that is asked for.
pub proof fn law_text_reaches_telegram(
    config: AppConfig,
    chat: TelegramReplyTarget,
    words: Seq<char>,
    silent: bool,
    i: int,
)
    requires
        0 <= i < markdown_messages(words).len(),
    ensures
        delivery_of(
            config,
            ReplyTarget::Telegram(chat),
            TurnOutputView::Markdown { text: words, disable_notification: silent },
        ) matches Ok(DeliveryView::TelegramMessages(calls)) && {
            &&& calls.len() == markdown_messages(words).len()
            &&& calls[i].url == method_url(config.telegram, "sendMessage"@)
            &&& calls[i].body matches JsonView::Object(entries) && {
                &&& entries["text"@] == JsonView::Text(markdown_messages(words)[i])
                &&& entries["chat_id"@] == JsonView::Integer(chat.chat_id as int)
                &&& entries["disable_notification"@] == JsonView::Bool(silent)
                &&& chat.thread_id matches Some(thread) ==> entries["message_thread_id"@]
                    == JsonView::Integer(thread as int)
                &&& chat.thread_id is None ==> !entries.contains_key("message_thread_id"@)
            }
        },
{
    law_message_calls(config.telegram, chat.chat_id, chat.thread_id, silent, words, i);
}

/// Text for a WhatsApp conversation is sent as it is, to whom it is for, in the
/// name of the configured account; a file is not sent there, and nothing is
/// sent where no account is configured or to a channel without a client.
pub proof fn law_text_reaches_whatsapp(
    config: AppConfig,
    target: ReplyTarget,
    words: Seq<char>,
    silent: bool,
    media: TurnOutputView,
)
    requires
        media is Media,
    ensures
        ({
            let output = TurnOutputView::Markdown { text: words, disable_notification: silent };
            match target {
                ReplyTarget::Telegram(_) => delivery_of(config, target, output) is Ok
                    && delivery_of(config, target, media) is Ok,
                ReplyTarget::WhatsApp(conversation) => {
                    &&& config.whatsapp is None ==> delivery_of(config, target, output) == Err::<
                        DeliveryView,
                        Seq<char>,
                    >("whatsapp is not configured"@)
                    &&& config.whatsapp matches Some(whatsapp) ==> (delivery_of(
                        config,
                        target,
                        output,
                    ) matches Ok(DeliveryView::WhatsAppMessage(call)) && {
                        &&& call.bearer_token == whatsapp.access_token@
                        &&& call.body matches JsonView::Object(entries) && {
                            &&& entries["to"@] == JsonView::Text(conversation.chat_id@)
                            &&& entries["type"@] == JsonView::Text("text"@)
                            &&& entries["messaging_product"@] == JsonView::Text("whatsapp"@)
                            &&& entries["text"@] matches JsonView::Object(content)
                                && content["body"@] == JsonView::Text(words)
                        }
                    })
                    &&& delivery_of(config, target, media) == Err::<DeliveryView, Seq<char>>(
                        "WhatsApp media delivery is not implemented yet"@,
                    )
                },
                ReplyTarget::Mattermost { .. } => delivery_of(config, target, output) == Err::<
                    DeliveryView,
                    Seq<char>,
                >("Mattermost reply delivery is not wired yet"@) && delivery_of(
                    config,
                    target,
                    media,
                ) == delivery_of(config, target, output),
                ReplyTarget::RocketChat { .. } => delivery_of(config, target, output) == Err::<
                    DeliveryView,
                    Seq<char>,
                >("Rocket.Chat reply delivery is not wired yet"@) && delivery_of(
                    config,
                    target,
                    media,
                ) == delivery_of(config, target, output),
            }
        }),
{
    reveal_strlit("to");
    reveal_strlit("type");
    reveal_strlit("text");
    reveal_strlit("messaging_product");
    assert("to"@.len() == 2);
    assert("messaging_product"@.len() == 17);
    assert("type"@[1] != "text"@[1]);
}

/// A WhatsApp message is sent through the account's own number; slashes at the
/// end of the server's address do not matter.
pub proof fn law_whatsapp_address(
    a: WhatsAppConfig,
    b: WhatsAppConfig,
    chat_id: Seq<char>,
    text: Seq<char>,
)
    ensures
        a.api_base_url@.len() == 0 || a.api_base_url@.last() != '/' ==> text_call_of(
            a,
            chat_id,
            text,
        ).url == a.api_base_url@ + "/"@ + a.phone_number_id@ + "/messages"@,
        b.api_base_url@ == a.api_base_url@.push('/') && b.phone_number_id@ == a.phone_number_id@
            ==> text_call_of(a, chat_id, text).url == text_call_of(b, chat_id, text).url,
{
    law_cut(a.api_base_url@, '/');
}

// ---------------------------------------------------------------------------
// WhatsApp
// ---------------------------------------------------------------------------
/// A challenge is answered with itself, exactly where the query asks for a
/// subscription and knows the token.
pub proof fn law_challenges(token: Seq<char>, query: WhatsAppWebhookVerificationQuery)
    ensures
        challenge_of(token, query) is Some ==> {
            &&& query.mode matches Some(mode) && mode@ == "subscribe"@
            &&& query.verify_token matches Some(known) && known@ == token
            &&& query.challenge matches Some(challenge) && challenge_of(token, query) == Some(
                challenge@,
            )
        },
        (query.mode matches Some(mode) && mode@ == "subscribe"@) && (
        query.verify_token matches Some(known) && known@ == token) && query.challenge is Some
            ==> challenge_of(token, query) is Some,
{
}

/// Whether `event` is the message `message`, sent to the account of `config`.
pub open spec fn is_told(
    config: WhatsAppConfig,
    message: WhatsAppMessage,
    event: WhatsAppEventView,
) -> bool {
    &&& message.message_type@ == "text"@
    &&& message.text matches Some(text) && event.text == trim(text.body@)
    &&& event.chat_id == message.from@
    &&& event.sender_id == message.from@
    &&& event.message_id == message.id@
    &&& event.account_id == config.account_id@
}

proof fn lemma_told_messages(
    config: WhatsAppConfig,
    contacts: Seq<WhatsAppContact>,
    messages: Seq<WhatsAppMessage>,
    i: int,
) -> (k: int)
    requires
        0 <= i,
        scan_messages(config, contacts, messages, i) matches ScanView::Stop(Some(_)),
    ensures
        0 <= k < messages.len(),
        scan_messages(config, contacts, messages, i) matches ScanView::Stop(Some(event))
            && is_told(config, messages[k], event) && event.sender_name == sender_name_of(
            contacts,
            0,
            messages[k].from@,
        ),
    decreases messages.len() - i,
{
    match scan_message(config, contacts, messages[i]) {
        ScanView::Next => lemma_told_messages(config, contacts, messages, i + 1),
        _ => i,
    }
}

proof fn lemma_told_changes(config: WhatsAppConfig, changes: Seq<WhatsAppChange>, i: int) -> (found: (
    int,
    int,
))
    requires
        0 <= i,
        scan_changes(config, changes, i) matches ScanView::Stop(Some(_)),
    ensures
        0 <= found.0 < changes.len(),
        changes[found.0].value.messages matches Some(messages) && 0 <= found.1 < messages@.len()
            && (scan_changes(config, changes, i) matches ScanView::Stop(Some(event)) && is_told(
            config,
            messages@[found.1],
            event,
        ) && event.sender_name == sender_name_of(
            known_contacts(changes[found.0].value.contacts),
            0,
            messages@[found.1].from@,
        )),
    decreases changes.len() - i,
{
    match scan_change(config, changes[i]) {
        ScanView::Next => lemma_told_changes(config, changes, i + 1),
        _ => {
            let contacts = known_contacts(changes[i].value.contacts);
            let messages = changes[i].value.messages->0@;
            let k = lemma_told_messages(config, contacts, messages, 0);
            (i, k)
        },
    }
}

proof fn lemma_told_entries(config: WhatsAppConfig, entries: Seq<WhatsAppEntry>, i: int) -> (found: (
    int,
    int,
    int,
))
    requires
        0 <= i,
        scan_entries(config, entries, i) matches ScanView::Stop(Some(_)),
    ensures
        0 <= found.0 < entries.len(),
        0 <= found.1 < entries[found.0].changes@.len(),
        entries[found.0].changes@[found.1].value.messages matches Some(messages) && 0 <= found.2
            < messages@.len() && (scan_entries(config, entries, i) matches ScanView::Stop(
            Some(event),
        ) && is_told(config, messages@[found.2], event) && event.sender_name == sender_name_of(
            known_contacts(entries[found.0].changes@[found.1].value.contacts),
            0,
            messages@[found.2].from@,
        )),
    decreases entries.len() - i,
{
    match scan_changes(config, entries[i].changes@, 0) {
        ScanView::Next => lemma_told_entries(config, entries, i + 1),
        _ => {
            let (j, k) = lemma_told_changes(config, entries[i].changes@, 0);
            (i, j, k)
        },
    }
}

/// What reaches the gateway from WhatsApp is a message that was sent: its text,
/// trimmed, from its sender, in the sender's own conversation with the account.
pub proof fn law_whatsapp_messages_are_told(
    config: WhatsAppConfig,
    payload: WhatsAppWebhookPayload,
) -> (found: (int, int, int))
    requires
        event_of(config, payload) is Some,
    ensures
        0 <= found.0 < payload.entry@.len(),
        0 <= found.1 < payload.entry@[found.0].changes@.len(),
        payload.entry@[found.0].changes@[found.1].value.messages matches Some(messages) && 0
            <= found.2 < messages@.len() && is_told(
            config,
            messages@[found.2],
            event_of(config, payload)->0,
        ) && (event_of(config, payload)->0).sender_name == sender_name_of(
            known_contacts(payload.entry@[found.0].changes@[found.1].value.contacts),
            0,
            messages@[found.2].from@,
        ),
{
    lemma_told_entries(config, payload.entry@, 0)
}

/// The first of a change's messages that is text from someone who may write is
/// the one that is told; messages of other kinds, and of others, are passed
/// over.
pub proof fn law_first_whatsapp_message(
    config: WhatsAppConfig,
    change: WhatsAppChange,
    messages: Seq<WhatsAppMessage>,
    k: int,
)
    requires
        change.field@ == "messages"@,
        change.value.messages matches Some(list) && list@ == messages,
        0 <= k < messages.len(),
        forall|i: int|
            0 <= i < k ==> (#[trigger] messages[i]).message_type@ != "text"@ || (
            messages[i].text matches Some(text) && has_ink(text.body@)
                && config.allowed_senders@.len() > 0 && forall|j: int|
                0 <= j < config.allowed_senders@.len() ==> (
                #[trigger] config.allowed_senders@[j])@ != messages[i].from@),
        messages[k].message_type@ == "text"@,
        messages[k].text matches Some(text) && has_ink(text.body@),
        config.allowed_senders@.len() == 0 || exists|j: int|
            0 <= j < config.allowed_senders@.len() && (#[trigger] config.allowed_senders@[j])@
                == messages[k].from@,
    ensures
        scan_change(config, change) matches ScanView::Stop(Some(event)) && is_told(
            config,
            messages[k],
            event,
        ),
{
    lemma_passed_over(config, known_contacts(change.value.contacts), messages, 0, k);
}

proof fn lemma_passed_over(
    config: WhatsAppConfig,
    contacts: Seq<WhatsAppContact>,
    messages: Seq<WhatsAppMessage>,
    i: int,
    k: int,
)
    requires
        0 <= i <= k < messages.len(),
        forall|i: int|
            0 <= i < k ==> (#[trigger] messages[i]).message_type@ != "text"@ || (
            messages[i].text matches Some(text) && has_ink(text.body@)
                && config.allowed_senders@.len() > 0 && forall|j: int|
                0 <= j < config.allowed_senders@.len() ==> (
                #[trigger] config.allowed_senders@[j])@ != messages[i].from@),
    ensures
        scan_message(config, contacts, messages[k]) is Stop ==> scan_messages(
            config,
            contacts,
            messages,
            i,
        ) == scan_message(config, contacts, messages[k]),
    decreases k - i,
{
    if i < k {
        assert(messages[i].message_type@ != "text"@ || messages[i].text is Some);
        lemma_passed_over(config, contacts, messages, i + 1, k);
    }
}

/// A sender is named as the first contact with the sender's id has it; without
/// a name there, or such a contact, the id stands for the name.
pub proof fn law_sender_names(contacts: Seq<WhatsAppContact>, k: int, from: Seq<char>)
    requires
        0 <= k <= contacts.len(),
        forall|i: int| 0 <= i < k ==> opt_view((#[trigger] contacts[i]).wa_id) != Some(from),
        k < contacts.len() ==> opt_view(contacts[k].wa_id) == Some(from),
    ensures
        k == contacts.len() ==> sender_name_of(contacts, 0, from) == from,
        k < contacts.len() && (contacts[k].profile is None || (
        contacts[k].profile matches Some(profile) && profile.name is None)) ==> sender_name_of(
            contacts,
            0,
            from,
        ) == from,
        k < contacts.len() ==> (contacts[k].profile matches Some(profile) ==> (
        profile.name matches Some(name) ==> sender_name_of(contacts, 0, from) == name@)),
{
    lemma_contacts_passed(contacts, 0, k, from);
}

proof fn lemma_contacts_passed(contacts: Seq<WhatsAppContact>, i: int, k: int, from: Seq<char>)
    requires
        0 <= i <= k <= contacts.len(),
        forall|i: int| 0 <= i < k ==> opt_view((#[trigger] contacts[i]).wa_id) != Some(from),
    ensures
        sender_name_of(contacts, i, from) == sender_name_of(contacts, k, from),
    decreases k - i,
{
    if i < k {
        assert(opt_view(contacts[i].wa_id) != Some(from));
        lemma_contacts_passed(contacts, i + 1, k, from);
    }
}

/// A text message without words ends the search: nothing is told.
pub proof fn law_blank_whatsapp_message(
    config: WhatsAppConfig,
    change: WhatsAppChange,
    messages: Seq<WhatsAppMessage>,
    k: int,
)
    requires
        change.field@ == "messages"@,
        change.value.messages matches Some(list) && list@ == messages,
        0 <= k < messages.len(),
        forall|i: int| 0 <= i < k ==> (#[trigger] messages[i]).message_type@ != "text"@,
        messages[k].message_type@ == "text"@,
        match messages[k].text {
            Some(text) => !has_ink(text.body@),
            None => true,
        },
    ensures
        scan_change(config, change) == ScanView::Stop(None),
{
    lemma_passed_over(config, known_contacts(change.value.contacts), messages, 0, k);
}

/// A change of another field, or without messages, tells nothing, and the search
/// goes on.
pub proof fn law_other_changes(
    config: WhatsAppConfig,
    change: WhatsAppChange,
    contacts: Vec<WhatsAppContact>,
)
    ensures
        change.field@ != "messages"@ ==> scan_change(config, change) is Next,
        change.value.messages is None ==> scan_change(config, change) is Next,
        change.value.messages matches Some(list) ==> (list@.len() == 0 ==> scan_change(
            config,
            change,
        ) is Next),
        known_contacts(Some(contacts)) == contacts@,
        known_contacts(None).len() == 0,
{
}

proof fn lemma_changes_passed(config: WhatsAppConfig, changes: Seq<WhatsAppChange>, i: int, k: int)
    requires
        0 <= i <= k <= changes.len(),
        forall|n: int| 0 <= n < k ==> scan_change(config, #[trigger] changes[n]) is Next,
    ensures
        scan_changes(config, changes, i) == scan_changes(config, changes, k),
    decreases k - i,
{
    if i < k {
        assert(scan_change(config, changes[i]) is Next);
        lemma_changes_passed(config, changes, i + 1, k);
    }
}

proof fn lemma_entries_passed(config: WhatsAppConfig, entries: Seq<WhatsAppEntry>, i: int, k: int)
    requires
        0 <= i <= k <= entries.len(),
        forall|n: int, m: int|
            0 <= n < k && 0 <= m < entries[n].changes@.len() ==> scan_change(
                config,
                #[trigger] entries[n].changes@[m],
            ) is Next,
    ensures
        scan_entries(config, entries, i) == scan_entries(config, entries, k),
    decreases k - i,
{
    if i < k {
        let changes = entries[i].changes@;
        assert forall|n: int| 0 <= n < changes.len() implies scan_change(
            config,
            #[trigger] changes[n],
        ) is Next by {
            assert(scan_change(config, entries[i].changes@[n]) is Next);
        }
        lemma_changes_passed(config, changes, 0, changes.len() as int);
        lemma_entries_passed(config, entries, i + 1, k);
    }
}

/// The first change that ends the search decides what is told, whatever stands
/// behind it; where none does, nothing is told.
pub proof fn law_first_change_decides(
    config: WhatsAppConfig,
    payload: WhatsAppWebhookPayload,
    i: int,
    j: int,
)
    requires
        0 <= i <= payload.entry@.len(),
        forall|n: int, m: int|
            0 <= n < i && 0 <= m < payload.entry@[n].changes@.len() ==> scan_change(
                config,
                #[trigger] payload.entry@[n].changes@[m],
            ) is Next,
        i < payload.entry@.len() ==> 0 <= j < payload.entry@[i].changes@.len() && forall|m: int|
            0 <= m < j ==> scan_change(config, #[trigger] payload.entry@[i].changes@[m]) is Next,
    ensures
        i == payload.entry@.len() ==> event_of(config, payload) is None,
        i < payload.entry@.len() ==> (scan_change(
            config,
            payload.entry@[i].changes@[j],
        ) matches ScanView::Stop(event) ==> event_of(config, payload) == event),
{
    let entries = payload.entry@;
    lemma_entries_passed(config, entries, 0, i);
    if i < entries.len() {
        lemma_changes_passed(config, entries[i].changes@, 0, j);
    }
}

/// A text goes to WhatsApp with what WhatsApp asks for, and nothing else.
pub proof fn law_whatsapp_call(
    whatsapp: WhatsAppConfig,
    chat_id: Seq<char>,
    text: Seq<char>,
    key: Seq<char>,
)
    ensures
        ({
            let call = text_call_of(whatsapp, chat_id, text);
            &&& call.bearer_token == whatsapp.access_token@
            &&& call.body matches JsonView::Object(entries) && (entries.contains_key(key) <==> key
                == "messaging_product"@ || key == "to"@ || key == "type"@ || key == "text"@)
        }),
{
}

} // verus!
