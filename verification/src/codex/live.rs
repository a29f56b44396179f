//! A turn while it runs: which notifications become output, and when.
use vstd::prelude::*;

use crate::channels::{outputs_view, TurnOutput, TurnOutputView};
use crate::codex::items::{
    completed_text, completed_text_from_item, is_commentary, item_of, live_text_item_key,
    matches_agent_commentary, parse_live_item, text_key, ThreadItem, ThreadItemView,
};
use crate::codex::notifications::{
    matches_target_from_extra_strict, notification_successor_key, on_turn, successor_key,
    ServerNotification, Turn,
};
use crate::collections::TextSet;
use crate::json::{object_entries, value_view};
use crate::numbers::{eq_ignore_ascii_case, same_ignoring_case};
use crate::text::{is_text, same_text};

verus! {

// ---------------------------------------------------------------------------
// Completed messages
// ---------------------------------------------------------------------------
/// A completed message that waits to be sent.
pub struct PendingText {
    key: String,
    item: ThreadItem,
}

/// Which messages were sent, and which one waits.
pub struct LiveTextState {
    pending: Option<PendingText>,
    sent_keys: TextSet,
}

/// `LiveTextState` as a mathematical value.
#[verifier::ext_equal]
pub struct LiveTextView {
    pub pending: Option<(Seq<char>, ThreadItemView)>,
    pub sent: Set<Seq<char>>,
}

impl View for LiveTextState {
    type V = LiveTextView;

    closed spec fn view(&self) -> LiveTextView {
        LiveTextView {
            pending: match self.pending {
                Some(pending) => Some((pending.key@, pending.item@)),
                None => None,
            },
            sent: self.sent_keys@,
        }
    }
}

/// A new state, and what was sent on the way to it.
#[verifier::ext_equal]
pub struct Emitted {
    pub state: LiveTextView,
    pub outputs: Seq<TurnOutputView>,
}

/// The output that carries the text of `item`. Commentary arrives silently.
pub open spec fn message_output(item: ThreadItemView, text: Seq<char>) -> TurnOutputView {
    TurnOutputView::Markdown { text, disable_notification: is_commentary(item) }
}

/// Sends the message that waits, unless one was sent under its key.
pub open spec fn flushed(state: LiveTextView) -> Emitted {
    match state.pending {
        Some((key, item)) => match completed_text(item) {
            Some(text) => Emitted {
                state: LiveTextView { pending: None, sent: state.sent.insert(key) },
                outputs: if state.sent.contains(key) {
                    seq![]
                } else {
                    seq![message_output(item, text)]
                },
            },
            None => Emitted {
                state: LiveTextView { pending: None, sent: state.sent },
                outputs: seq![],
            },
        },
        None => Emitted { state, outputs: seq![] },
    }
}

/// Makes `item` wait, unless one was sent under its key. A message that waits
/// under another key is sent first.
pub open spec fn queued(state: LiveTextView, key: Seq<char>, item: ThreadItemView) -> Emitted {
    if state.sent.contains(key) {
        Emitted { state, outputs: seq![] }
    } else if state.pending is Some && (state.pending->0).0 == key {
        Emitted {
            state: LiveTextView { pending: Some((key, item)), sent: state.sent },
            outputs: seq![],
        }
    } else {
        let sent = flushed(state);
        Emitted {
            state: LiveTextView { pending: Some((key, item)), sent: sent.state.sent },
            outputs: sent.outputs,
        }
    }
}

impl LiveTextState {
    /// The state before anything was completed.
    pub fn new() -> (state: Self)
        ensures
            state@ == (LiveTextView { pending: None, sent: Set::empty() }),
    {
        LiveTextState { pending: None, sent_keys: TextSet::new() }
    }
}

/// Sends the message that waits to `sink`.
pub fn flush_completed_text_item(state: &mut LiveTextState, sink: &mut Vec<TurnOutput>)
    ensures
        final(state)@ == flushed(old(state)@).state,
        outputs_view(final(sink)@) == outputs_view(old(sink)@) + flushed(old(state)@).outputs,
{
    let ghost before = outputs_view(sink@);
    let ghost start = state@;
    assert(before + Seq::<TurnOutputView>::empty() =~= before);
    let pending = match state.pending.take() {
        Some(pending) => pending,
        None => return,
    };
    let text = match completed_text_from_item(&pending.item) {
        Some(text) => text,
        None => return,
    };
    let disable_notification = matches_agent_commentary(&pending.item);
    if state.sent_keys.insert(pending.key) {
        let output = TurnOutput::Markdown { text, disable_notification };
        sink.push(output);
        assert(outputs_view(sink@) =~= before + seq![output@]);
    } else {
        assert(start.sent.insert((start.pending->0).0) =~= start.sent);
    }
}

/// Makes a completed message wait.
pub fn queue_completed_text_item(
    state: &mut LiveTextState,
    key: String,
    item: ThreadItem,
    sink: &mut Vec<TurnOutput>,
)
    ensures
        final(state)@ == queued(old(state)@, key@, item@).state,
        outputs_view(final(sink)@) == outputs_view(old(sink)@) + queued(
            old(state)@,
            key@,
            item@,
        ).outputs,
{
    let ghost before = outputs_view(sink@);
    assert(before + Seq::<TurnOutputView>::empty() =~= before);
    if state.sent_keys.contains(key.as_str()) {
        return;
    }
    let same = match &state.pending {
        Some(pending) => same_text(pending.key.as_str(), key.as_str()),
        None => false,
    };
    if !same {
        flush_completed_text_item(state, sink);
    }
    state.pending = Some(PendingText { key, item });
}

// ---------------------------------------------------------------------------
// Notifications of a running turn
// ---------------------------------------------------------------------------
/// Whether a turn goes on after a notification.
#[derive(Debug, Clone, Copy, PartialEq, Eq, Structural)]
pub enum LiveNotificationOutcome {
    Continue,
    Terminal,
}

impl LiveNotificationOutcome {
    /// Whether the turn is over.
    pub fn is_terminal(&self) -> (yes: bool)
        ensures
            yes == (*self is Terminal),
    {
        match self {
            LiveNotificationOutcome::Terminal => true,
            LiveNotificationOutcome::Continue => false,
        }
    }
}

/// Whether the server calls the turn failed.
pub open spec fn turn_failed(turn: Turn) -> bool {
    match turn.status {
        Some(status) => same_ignoring_case(status@, "failed"@),
        None => false,
    }
}

/// Why a failed turn failed.
pub open spec fn failure_text(turn: Turn) -> Seq<char> {
    match turn.error {
        Some(error) => error.message@,
        None => "turn failed"@,
    }
}

/// How the turn `turn` of the thread `thread` goes on after a notification.
pub open spec fn outcome_of(
    notification: ServerNotification,
    thread: Seq<char>,
    turn: Seq<char>,
) -> Result<LiveNotificationOutcome, Seq<char>> {
    match notification {
        ServerNotification::TurnCompleted(payload) => if payload.turn.id@ == turn {
            if turn_failed(payload.turn) {
                Err(failure_text(payload.turn))
            } else {
                Ok(LiveNotificationOutcome::Terminal)
            }
        } else {
            Ok(LiveNotificationOutcome::Continue)
        },
        ServerNotification::Error(payload) => if on_turn(
            object_entries(payload.extra),
            thread,
            turn,
        ) {
            Err(payload.error.message@)
        } else {
            Ok(LiveNotificationOutcome::Continue)
        },
        _ => Ok(LiveNotificationOutcome::Continue),
    }
}

/// What is sent after a notification of the turn `turn` of the thread
/// `thread`: a completed message is sent at once.
pub open spec fn after_notification(
    state: LiveTextView,
    notification: ServerNotification,
    thread: Seq<char>,
    turn: Seq<char>,
) -> Emitted {
    match notification {
        ServerNotification::ItemCompleted(payload) => {
            let item = item_of(value_view(payload.item));
            if on_turn(object_entries(payload.extra), thread, turn) && item is Some {
                match text_key(item->0) {
                    Some(key) => {
                        let waiting = queued(state, key, item->0);
                        let sent = flushed(waiting.state);
                        Emitted { state: sent.state, outputs: waiting.outputs + sent.outputs }
                    },
                    None => flushed(state),
                }
            } else {
                Emitted { state, outputs: seq![] }
            }
        },
        ServerNotification::TurnCompleted(payload) => if payload.turn.id@ == turn && !turn_failed(
            payload.turn,
        ) {
            flushed(state)
        } else {
            Emitted { state, outputs: seq![] }
        },
        _ => Emitted { state, outputs: seq![] },
    }
}

/// Handles a notification of a running turn.
pub fn handle_live_notification(
    notification: &ServerNotification,
    thread_id: &str,
    turn_id: &str,
    text_state: &mut LiveTextState,
    sink: &mut Vec<TurnOutput>,
) -> (outcome: Result<LiveNotificationOutcome, String>)
    ensures
        match outcome {
            Ok(found) => outcome_of(*notification, thread_id@, turn_id@) == Ok::<
                LiveNotificationOutcome,
                Seq<char>,
            >(found),
            Err(message) => outcome_of(*notification, thread_id@, turn_id@) == Err::<
                LiveNotificationOutcome,
                Seq<char>,
            >(message@),
        },
        final(text_state)@ == after_notification(
            old(text_state)@,
            *notification,
            thread_id@,
            turn_id@,
        ).state,
        outputs_view(final(sink)@) == outputs_view(old(sink)@) + after_notification(
            old(text_state)@,
            *notification,
            thread_id@,
            turn_id@,
        ).outputs,
{
    let ghost before = outputs_view(sink@);
    assert(before + Seq::<TurnOutputView>::empty() =~= before);
    match notification {
        ServerNotification::ItemCompleted(payload) => {
            if matches_target_from_extra_strict(&payload.extra, thread_id, turn_id) {
                if let Some(item) = parse_live_item(&payload.item) {
                    match live_text_item_key(&item) {
                        Some(key) => {
                            let ghost waiting = queued(text_state@, key@, item@);
                            queue_completed_text_item(text_state, key, item, sink);
                            flush_completed_text_item(text_state, sink);
                            assert(before + (waiting.outputs + flushed(waiting.state).outputs)
                                =~= before + waiting.outputs + flushed(waiting.state).outputs);
                        },
                        None => {
                            flush_completed_text_item(text_state, sink);
                        },
                    }
                }
            }
        },
        ServerNotification::TurnCompleted(payload) => {
            if same_text(payload.turn.id.as_str(), turn_id) {
                let failed = match &payload.turn.status {
                    Some(status) => eq_ignore_ascii_case(status.as_str(), "failed"),
                    None => false,
                };
                if failed {
                    let message = match &payload.turn.error {
                        Some(error) => error.message.clone(),
                        None => "turn failed".to_string(),
                    };
                    return Err(message);
                }
                flush_completed_text_item(text_state, sink);
                return Ok(LiveNotificationOutcome::Terminal);
            }
        },
        ServerNotification::Error(payload) => {
            if matches_target_from_extra_strict(&payload.extra, thread_id, turn_id) {
                return Err(payload.error.message.clone());
            }
        },
        _ => {},
    }
    Ok(LiveNotificationOutcome::Continue)
}

/// What is sent before a notification is handled: a message that waits is sent
/// unless the notification is about it.
pub open spec fn before_notification(state: LiveTextView, notification: ServerNotification) -> Emitted {
    if state.pending is Some && successor_key(notification) != Some((state.pending->0).0) {
        flushed(state)
    } else {
        Emitted { state, outputs: seq![] }
    }
}

/// Sends the message that waits, where `notification` is not about it.
pub fn maybe_flush_on_successor_notification(
    notification: &ServerNotification,
    text_state: &mut LiveTextState,
    sink: &mut Vec<TurnOutput>,
)
    ensures
        final(text_state)@ == before_notification(old(text_state)@, *notification).state,
        outputs_view(final(sink)@) == outputs_view(old(sink)@) + before_notification(
            old(text_state)@,
            *notification,
        ).outputs,
{
    let ghost before = outputs_view(sink@);
    assert(before + Seq::<TurnOutputView>::empty() =~= before);
    let same = match &text_state.pending {
        Some(pending) => {
            let key = notification_successor_key(notification);
            is_text(&key, pending.key.as_str())
        },
        None => return,
    };
    if !same {
        flush_completed_text_item(text_state, sink);
    }
}

/// What is sent, and how the turn goes on, after the notifications from `i` on
/// that were kept until the turn was known. All of them are handled, unless one
/// reports a failure; the turn is over where one of them ends it.
pub open spec fn replayed_from(
    state: LiveTextView,
    kept: Seq<ServerNotification>,
    i: int,
    thread: Seq<char>,
    turn: Seq<char>,
) -> (Emitted, Result<bool, Seq<char>>)
    decreases kept.len() - i,
{
    if i < 0 || i >= kept.len() {
        (Emitted { state, outputs: seq![] }, Ok(false))
    } else {
        let step = after_notification(state, kept[i], thread, turn);
        match outcome_of(kept[i], thread, turn) {
            Err(message) => (step, Err(message)),
            Ok(outcome) => {
                let (rest, over) = replayed_from(step.state, kept, i + 1, thread, turn);
                (
                    Emitted { state: rest.state, outputs: step.outputs + rest.outputs },
                    match over {
                        Ok(later) => Ok(later || outcome is Terminal),
                        Err(message) => Err(message),
                    },
                )
            },
        }
    }
}

/// Handles the notifications that were kept until the turn was known.
pub fn replay_buffered_notifications(
    buffered_notifications: &Vec<ServerNotification>,
    thread_id: &str,
    turn_id: &str,
    text_state: &mut LiveTextState,
    sink: &mut Vec<TurnOutput>,
) -> (over: Result<bool, String>)
    ensures
        ({
            let (emitted, result) = replayed_from(
                old(text_state)@,
                buffered_notifications@,
                0,
                thread_id@,
                turn_id@,
            );
            &&& final(text_state)@ == emitted.state
            &&& outputs_view(final(sink)@) == outputs_view(old(sink)@) + emitted.outputs
            &&& match over {
                Ok(found) => result == Ok::<bool, Seq<char>>(found),
                Err(message) => result == Err::<bool, Seq<char>>(message@),
            }
        }),
{
    let mut terminal = false;
    let mut i: usize = 0;
    let ghost before = outputs_view(sink@);
    let ghost whole = replayed_from(text_state@, buffered_notifications@, 0, thread_id@, turn_id@);
    while i < buffered_notifications.len()
        invariant
            i <= buffered_notifications.len(),
            before == outputs_view(old(sink)@),
            whole == replayed_from(
                old(text_state)@,
                buffered_notifications@,
                0,
                thread_id@,
                turn_id@,
            ),
            ({
                let (rest, over) = replayed_from(
                    text_state@,
                    buffered_notifications@,
                    i as int,
                    thread_id@,
                    turn_id@,
                );
                &&& whole.0.state == rest.state
                &&& before + whole.0.outputs == outputs_view(sink@) + rest.outputs
                &&& whole.1 == match over {
                    Ok(later) => Ok::<bool, Seq<char>>(later || terminal),
                    Err(message) => Err::<bool, Seq<char>>(message),
                }
            }),
        decreases buffered_notifications.len() - i,
    {
        let notification = &buffered_notifications[i];
        let ghost step = after_notification(text_state@, *notification, thread_id@, turn_id@);
        let ghost sent = outputs_view(sink@);
        match handle_live_notification(notification, thread_id, turn_id, text_state, sink) {
            Ok(outcome) => {
                if outcome.is_terminal() {
                    terminal = true;
                }
                proof {
                    let (rest, over) = replayed_from(
                        text_state@,
                        buffered_notifications@,
                        i + 1,
                        thread_id@,
                        turn_id@,
                    );
                    assert(sent + (step.outputs + rest.outputs) =~= outputs_view(sink@)
                        + rest.outputs);
                }
            },
            Err(message) => {
                return Err(message);
            },
        }
        i += 1;
    }
    assert(outputs_view(sink@) + Seq::<TurnOutputView>::empty() =~= outputs_view(sink@));
    Ok(terminal)
}

} // verus!
