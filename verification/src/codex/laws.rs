//! What a turn says, told by what the server sends.
use vstd::prelude::*;

use crate::basics::law_ink;
use crate::channels::{TurnOutput, TurnOutputView};
use crate::codex::items::{
    completed_text, fresh_part, is_commentary, item_of, sent_before, shown_text, text_key,
    AgentMessagePhase, ThreadItemView,
};
use crate::codex::live::{
    after_notification, before_notification, flushed, outcome_of, queued, replayed_from,
    LiveNotificationOutcome, LiveTextView,
};
use crate::codex::notifications::{
    successor_key, DeltaNotification, ErrorNotification, ItemLifecycleNotification,
    ServerNotification, TurnNotification,
};
use crate::codex::turn::{
    after_all, law_early_messages_are_not_lost, law_turn_sends_completed_messages, no_failure,
    sent_while, started, turn_step, LiveTurnEvent, LiveTurnProgressView, LiveTurnView,
};
use crate::json::{object_entries, value_view, JsonView};
use crate::numbers::same_ignoring_case;
use crate::text::is_white_space;

verus! {

/// An agent message that the server completes is sent at once and whole: the
/// output carries the text of the item as it stands there, and it arrives
/// silently exactly where the item is commentary.
pub proof fn law_completed_message_is_sent_whole(
    view: LiveTurnView,
    turn: Seq<char>,
    payload: ItemLifecycleNotification,
    item: Map<Seq<char>, JsonView>,
    id: Seq<char>,
    text: Seq<char>,
    at: int,
)
    requires
        view.turn == Some(turn),
        view.text.pending is None,
        object_entries(payload.extra).contains_key("threadId"@),
        object_entries(payload.extra)["threadId"@] == JsonView::Text(view.thread),
        object_entries(payload.extra).contains_key("turnId"@),
        object_entries(payload.extra)["turnId"@] == JsonView::Text(turn),
        value_view(payload.item) == JsonView::Object(item),
        item.contains_key("type"@),
        item["type"@] == JsonView::Text("agentMessage"@),
        item.contains_key("id"@),
        item["id"@] == JsonView::Text(id),
        item.contains_key("text"@),
        item["text"@] == JsonView::Text(text),
        0 <= at < text.len(),
        !is_white_space(text[at]),
        !view.text.sent.contains("agent:"@ + id),
    ensures
        ({
            let step = turn_step(
                view,
                LiveTurnEvent::Notification(ServerNotification::ItemCompleted(payload)),
            );
            let silent = item.contains_key("phase"@) && item["phase"@] == JsonView::Text(
                "commentary"@,
            );
            &&& step.outputs == seq![
                TurnOutputView::Markdown { text, disable_notification: silent },
            ]
            &&& step.next.text.sent == view.text.sent.insert("agent:"@ + id)
            &&& step.next.text.pending is None
            &&& step.next.thread == view.thread
            &&& step.next.turn == view.turn
            &&& step.next.kept == view.kept
            &&& step.register is None
            &&& step.progress is Running
        }),
{
    law_ink(text);
    reveal_strlit("commentary");
    reveal_strlit("final_answer");
    assert("commentary"@.len() != "final_answer"@.len());
    let step = turn_step(
        view,
        LiveTurnEvent::Notification(ServerNotification::ItemCompleted(payload)),
    );
    let silent = item.contains_key("phase"@) && item["phase"@] == JsonView::Text("commentary"@);
    assert(step.outputs =~= seq![
        TurnOutputView::Markdown { text, disable_notification: silent },
    ]);
}

/// A message that was sent before is not sent again, and neither is one that
/// holds nothing but white space.
pub proof fn law_sent_and_blank_messages_are_not_sent(
    view: LiveTurnView,
    payload: ItemLifecycleNotification,
    item: Map<Seq<char>, JsonView>,
    id: Seq<char>,
    text: Seq<char>,
)
    requires
        view.turn is Some,
        view.text.pending is None,
        value_view(payload.item) == JsonView::Object(item),
        item.contains_key("id"@),
        item["id"@] == JsonView::Text(id),
        item.contains_key("text"@),
        item["text"@] == JsonView::Text(text),
        view.text.sent.contains("agent:"@ + id) || forall|i: int|
            0 <= i < text.len() ==> is_white_space(#[trigger] text[i]),
    ensures
        ({
            let step = turn_step(
                view,
                LiveTurnEvent::Notification(ServerNotification::ItemCompleted(payload)),
            );
            &&& step.outputs.len() == 0
            &&& step.next == view
            &&& step.progress is Running
        }),
{
    law_ink(text);
    let step = turn_step(
        view,
        LiveTurnEvent::Notification(ServerNotification::ItemCompleted(payload)),
    );
    assert(view.text.sent.contains("agent:"@ + id) ==> view.text.sent.insert("agent:"@ + id)
        =~= view.text.sent);
    assert(step.next =~= view);
}

/// Items of other kinds, items of another thread or another turn, and every
/// notification that tells neither of a completed item nor of a turn or an
/// error send nothing and change nothing.
pub proof fn law_other_notifications_say_nothing(
    view: LiveTurnView,
    turn: Seq<char>,
    notification: ServerNotification,
)
    requires
        view.turn == Some(turn),
        view.text.pending is None,
        match notification {
            ServerNotification::ItemCompleted(payload) => {
                let extra = object_entries(payload.extra);
                let mine = extra.contains_key("threadId"@) && extra["threadId"@]
                    == JsonView::Text(view.thread) && extra.contains_key("turnId"@)
                    && extra["turnId"@] == JsonView::Text(turn);
                let message = match value_view(payload.item) {
                    JsonView::Object(item) => item.contains_key("type"@) && item["type"@]
                        == JsonView::Text("agentMessage"@),
                    _ => false,
                };
                !mine || !message
            },
            ServerNotification::TurnCompleted(payload) => payload.turn.id@ != turn,
            ServerNotification::Error(payload) => {
                let extra = object_entries(payload.extra);
                !(extra.contains_key("threadId"@) && extra["threadId"@] == JsonView::Text(
                    view.thread,
                ) && extra.contains_key("turnId"@) && extra["turnId"@] == JsonView::Text(turn))
            },
            _ => true,
        },
    ensures
        turn_step(view, LiveTurnEvent::Notification(notification)).outputs.len() == 0,
        turn_step(view, LiveTurnEvent::Notification(notification)).next == view,
        turn_step(view, LiveTurnEvent::Notification(notification)).progress is Running,
        turn_step(view, LiveTurnEvent::Notification(notification)).register is None,
{
    let step = turn_step(view, LiveTurnEvent::Notification(notification));
    assert(step.next =~= view);
}

/// The turn is over when the server reports it completed: well, unless it calls
/// the turn failed, and then with the message of the error.
pub proof fn law_turn_ends(view: LiveTurnView, turn: Seq<char>, payload: TurnNotification)
    requires
        view.turn == Some(turn),
        payload.turn.id@ == turn,
    ensures
        ({
            let step = turn_step(
                view,
                LiveTurnEvent::Notification(ServerNotification::TurnCompleted(payload)),
            );
            let failed = payload.turn.status matches Some(status) && same_ignoring_case(
                status@,
                "failed"@,
            );
            step.progress == if failed {
                LiveTurnProgressView::Failed(
                    match payload.turn.error {
                        Some(error) => error.message@,
                        None => "turn failed"@,
                    },
                )
            } else {
                LiveTurnProgressView::Finished
            }
        }),
{
}

/// An error of the turn ends it with the message of the error.
pub proof fn law_errors_end_the_turn(
    view: LiveTurnView,
    turn: Seq<char>,
    payload: ErrorNotification,
)
    requires
        view.turn == Some(turn),
        object_entries(payload.extra).contains_key("threadId"@),
        object_entries(payload.extra)["threadId"@] == JsonView::Text(view.thread),
        object_entries(payload.extra).contains_key("turnId"@),
        object_entries(payload.extra)["turnId"@] == JsonView::Text(turn),
    ensures
        turn_step(
            view,
            LiveTurnEvent::Notification(ServerNotification::Error(payload)),
        ).progress == LiveTurnProgressView::Failed(payload.error.message@),
{
}

/// What a tool puts out is passed on as it is, and the turn goes on.
pub proof fn law_tool_output_is_passed_on(view: LiveTurnView, output: TurnOutput)
    requires
        view.text.pending is None,
    ensures
        turn_step(view, LiveTurnEvent::ToolOutput(output)).outputs == seq![output@],
        turn_step(view, LiveTurnEvent::ToolOutput(output)).next == view,
        turn_step(view, LiveTurnEvent::ToolOutput(output)).progress is Running,
        turn_step(view, LiveTurnEvent::ServerRequest).outputs.len() == 0,
        turn_step(view, LiveTurnEvent::ServerRequest).next == view,
        turn_step(view, LiveTurnEvent::ServerRequest).progress is Running,
{
    assert(turn_step(view, LiveTurnEvent::ToolOutput(output)).outputs =~= seq![output@]);
    assert(turn_step(view, LiveTurnEvent::ToolOutput(output)).next =~= view);
}

/// A turn that cannot be started, or whose server is gone, fails and says why;
/// one that is started may call tools from then on.
pub proof fn law_start_of_a_turn(
    view: LiveTurnView,
    refused: Result<String, String>,
    accepted: Result<String, String>,
)
    requires
        refused is Err,
        accepted is Ok,
    ensures
        turn_step(view, LiveTurnEvent::TurnStartResult(refused)).progress
            == LiveTurnProgressView::Failed(refused->Err_0@),
        turn_step(view, LiveTurnEvent::TurnStartResult(refused)).outputs.len() == 0,
        turn_step(view, LiveTurnEvent::TurnStartResult(refused)).next == view,
        turn_step(view, LiveTurnEvent::TurnStartResult(refused)).register is None,
        turn_step(view, LiveTurnEvent::TransportClosed).progress == LiveTurnProgressView::Failed(
            "Codex event stream closed"@,
        ),
        turn_step(view, LiveTurnEvent::TransportClosed).outputs.len() == 0,
        turn_step(view, LiveTurnEvent::TransportClosed).next == view,
        turn_step(view, LiveTurnEvent::TransportClosed).register is None,
        turn_step(view, LiveTurnEvent::TurnStartResult(accepted)).register == Some(
            accepted->Ok_0@,
        ),
        turn_step(view, LiveTurnEvent::TurnStartResult(accepted)).next.turn == Some(
            accepted->Ok_0@,
        ),
        turn_step(view, LiveTurnEvent::TurnStartResult(accepted)).next.kept.len() == 0,
        turn_step(view, LiveTurnEvent::TurnStartResult(accepted)).next.thread == view.thread,
        view.kept.len() == 0 ==> turn_step(
            view,
            LiveTurnEvent::TurnStartResult(accepted),
        ).progress is Running,
{
}

/// The same notifications lead to the same outputs, in the same order, whether
/// they arrive before or after the server names the turn, unless one of them
/// reports a failure.
pub proof fn law_early_and_late_alike(
    thread: Seq<char>,
    turn: Seq<char>,
    notifications: Seq<ServerNotification>,
)
    requires
        no_failure(notifications, thread, turn),
    ensures
        ({
            let asked = LiveTurnView {
                thread,
                turn: None,
                kept: seq![],
                text: LiveTextView { pending: None, sent: Set::empty() },
            };
            started(after_all(asked, notifications), turn).outputs == sent_while(
                started(asked, turn).next,
                notifications,
            )
        }),
{
    let none = Set::<Seq<char>>::empty();
    let nothing = Seq::<ServerNotification>::empty();
    let asked = LiveTurnView {
        thread,
        turn: None,
        kept: seq![],
        text: LiveTextView { pending: None, sent: none },
    };
    law_early_messages_are_not_lost(thread, turn, notifications, nothing);
    assert(notifications + nothing =~= notifications);
    let start = started(after_all(asked, notifications), turn);
    assert(sent_while(start.next, nothing) =~= Seq::<TurnOutputView>::empty());
    assert(start.outputs + Seq::<TurnOutputView>::empty() =~= start.outputs);
    law_turn_sends_completed_messages(started(asked, turn).next, notifications);
}

/// Before the turn is known, a notification is kept exactly where it tells of a
/// turn, a completed item or an error and names the thread; nothing is sent.
pub proof fn law_early_notifications_wait(view: LiveTurnView, notification: ServerNotification)
    requires
        view.turn is None,
    ensures
        ({
            let step = turn_step(view, LiveTurnEvent::Notification(notification));
            let extra = match notification {
                ServerNotification::TurnStarted(payload) => object_entries(payload.turn.extra),
                ServerNotification::TurnCompleted(payload) => object_entries(payload.turn.extra),
                ServerNotification::ItemCompleted(payload) => object_entries(payload.extra),
                ServerNotification::Error(payload) => object_entries(payload.extra),
                _ => Map::empty(),
            };
            &&& step.outputs.len() == 0
            &&& step.register is None
            &&& step.progress is Running
            &&& step.next.text == view.text
            &&& step.next.turn is None
            &&& step.next.thread == view.thread
            &&& step.next.kept == if extra.contains_key("threadId"@) && extra["threadId"@]
                == JsonView::Text(view.thread) {
                view.kept.push(notification)
            } else {
                view.kept
            }
        }),
{
}

/// A message that waits is sent whole when its turn comes, unless one was sent
/// under its key; it waits no longer. A message that is made to wait behind one
/// with another key has that one sent first.
pub proof fn law_waiting_messages_are_sent_whole(
    state: LiveTextView,
    key: Seq<char>,
    id: Seq<char>,
    text: Seq<char>,
    phase: Option<AgentMessagePhase>,
    at: int,
    other_key: Seq<char>,
    other: ThreadItemView,
)
    requires
        state.pending == Some((key, (ThreadItemView::AgentMessage { id, text, phase }))),
        0 <= at < text.len(),
        !is_white_space(text[at]),
        other_key != key,
    ensures
        flushed(state).outputs == if state.sent.contains(key) {
            Seq::empty()
        } else {
            seq![
                TurnOutputView::Markdown {
                    text,
                    disable_notification: phase == Some(AgentMessagePhase::Commentary),
                },
            ]
        },
        flushed(state).state.pending is None,
        flushed(state).state.sent == state.sent.insert(key),
        !state.sent.contains(other_key) ==> queued(state, other_key, other).outputs == flushed(
            state,
        ).outputs && queued(state, other_key, other).state.pending == Some((other_key, other))
            && queued(state, other_key, other).state.sent == state.sent.insert(key),
        state.sent.contains(other_key) ==> queued(state, other_key, other).outputs.len() == 0
            && queued(state, other_key, other).state == state,
        !state.sent.contains(key) ==> queued(state, key, other).outputs.len() == 0 && queued(
            state,
            key,
            other,
        ).state.pending == Some((key, other)),
{
    law_ink(text);
}

/// A message that waits is sent before a notification about anything else is
/// handled, and stays where the notification is about it.
pub proof fn law_waiting_messages_give_way(
    state: LiveTextView,
    key: Seq<char>,
    item: ThreadItemView,
    notification: ServerNotification,
)
    requires
        state.pending == Some((key, item)),
    ensures
        successor_key(notification) == Some(key) ==> before_notification(
            state,
            notification,
        ).state == state && before_notification(state, notification).outputs.len() == 0,
        successor_key(notification) != Some(key) ==> before_notification(
            state,
            notification,
        ) == flushed(state),
{
}

// ---------------------------------------------------------------------------
// Items
// ---------------------------------------------------------------------------
/// An item is read with its id and its text as they stand in it.
pub proof fn law_items_are_read(
    item: Map<Seq<char>, JsonView>,
    id: Seq<char>,
    text: Seq<char>,
)
    requires
        item.contains_key("type"@),
        item.contains_key("id"@),
        item["id"@] == JsonView::Text(id),
        item.contains_key("text"@),
        item["text"@] == JsonView::Text(text),
    ensures
        item["type"@] == JsonView::Text("plan"@) ==> item_of(JsonView::Object(item)) == Some(
            ThreadItemView::Plan { id, text },
        ),
        item["type"@] == JsonView::Text("agentMessage"@) ==> (item_of(
            JsonView::Object(item),
        ) matches Some(ThreadItemView::AgentMessage { id: read_id, text: read_text, phase })
            && read_id == id && read_text == text && (phase == Some(AgentMessagePhase::Commentary)
            <==> item.contains_key("phase"@) && item["phase"@] == JsonView::Text("commentary"@))
            && (phase == Some(AgentMessagePhase::FinalAnswer) <==> item.contains_key("phase"@)
            && item["phase"@] == JsonView::Text("final_answer"@)) && (phase is None <==> !(
        item.contains_key("phase"@) && item["phase"@] is Text))),
        item["type"@] != JsonView::Text("plan"@) && item["type"@] != JsonView::Text(
            "agentMessage"@,
        ) ==> item_of(JsonView::Object(item)) is None,
{
    reveal_strlit("plan");
    reveal_strlit("agentMessage");
    reveal_strlit("commentary");
    reveal_strlit("final_answer");
    assert("plan"@.len() != "agentMessage"@.len());
    assert("commentary"@.len() != "final_answer"@.len());
}

/// Of a text that grows, what is new is what follows the text before; of
/// another text it is all of it; of the same text there is nothing new.
pub proof fn law_growing_text(previous: Seq<char>, more: Seq<char>, other: Seq<char>)
    requires
        previous.len() > 0,
    ensures
        (exists|i: int| 0 <= i < more.len() && !is_white_space(#[trigger] more[i]))
            ==> fresh_part(previous, previous + more) == Some(more),
        fresh_part(previous, previous) is None,
        (exists|i: int| 0 <= i < other.len() && !is_white_space(#[trigger] other[i]))
            && !previous.is_prefix_of(other) ==> fresh_part(previous, other) == Some(other),
        (exists|i: int| 0 <= i < other.len() && !is_white_space(#[trigger] other[i]))
            ==> fresh_part(Seq::empty(), other) == Some(other),
{
    law_ink(more);
    law_ink(other);
    let all = previous + more;
    assert(previous =~= all.take(previous.len() as int));
    assert(all.skip(previous.len() as int) =~= more);
}

/// Agent messages and plans are remembered apart, each under its id.
pub proof fn law_shown_text(
    id: Seq<char>,
    text: Seq<char>,
    phase: Option<AgentMessagePhase>,
    at: int,
)
    requires
        0 <= at < text.len(),
        !is_white_space(text[at]),
    ensures
        shown_text(ThreadItemView::AgentMessage { id, text, phase }) == Some(
            ("agent:"@ + id, text),
        ),
        shown_text(ThreadItemView::Plan { id, text }) == Some(("plan:"@ + id, text)),
        shown_text(ThreadItemView::Other) is None,
        text_key(ThreadItemView::AgentMessage { id, text, phase }) == Some("agent:"@ + id),
        text_key(ThreadItemView::Plan { id, text }) is None,
        is_commentary(ThreadItemView::AgentMessage { id, text, phase }) <==> phase == Some(
            AgentMessagePhase::Commentary,
        ),
{
    law_ink(text);
}

/// A notification is about the item whose id it names.
pub proof fn law_notifications_name_items(
    item: Map<Seq<char>, JsonView>,
    payload: ItemLifecycleNotification,
    delta: DeltaNotification,
    id: Seq<char>,
)
    requires
        value_view(payload.item) == JsonView::Object(item),
        item.contains_key("type"@),
        item["type"@] == JsonView::Text("agentMessage"@),
        item.contains_key("id"@),
        item["id"@] == JsonView::Text(id),
        delta.item_id is Some,
    ensures
        successor_key(ServerNotification::ItemStarted(payload)) == Some("agent:"@ + id),
        successor_key(ServerNotification::ItemCompleted(payload)) == Some("agent:"@ + id),
        successor_key(ServerNotification::ItemCommandExecutionOutputDelta(delta)) == Some(
            "agent:"@ + delta.item_id->0@,
        ),
        successor_key(ServerNotification::ItemCommandExecutionTerminalInteraction(delta)) == Some(
            "agent:"@ + delta.item_id->0@,
        ),
        successor_key(ServerNotification::ItemFileChangeOutputDelta(delta)) == Some(
            "agent:"@ + delta.item_id->0@,
        ),
        successor_key(ServerNotification::ItemMcpToolCallProgress(delta)) == Some(
            "agent:"@ + delta.item_id->0@,
        ),
        successor_key(ServerNotification::ItemReasoningSummaryTextDelta(delta)) == Some(
            "agent:"@ + delta.item_id->0@,
        ),
        successor_key(ServerNotification::ItemReasoningSummaryPartAdded(delta)) == Some(
            "agent:"@ + delta.item_id->0@,
        ),
        successor_key(ServerNotification::ItemReasoningTextDelta(delta)) == Some(
            "agent:"@ + delta.item_id->0@,
        ),
        successor_key(ServerNotification::Other) is None,
        successor_key(ServerNotification::TurnDiffUpdated) == Some("__different-successor__"@),
{
}

/// A message that waits is sent before what a tool says, and before a request is
/// answered; where the turn ends well it is sent, too.
pub proof fn law_waiting_messages_come_first(
    view: LiveTurnView,
    output: TurnOutput,
    turn: Seq<char>,
    payload: TurnNotification,
)
    requires
        view.turn == Some(turn),
        payload.turn.id@ == turn,
        payload.turn.status is None,
    ensures
        turn_step(view, LiveTurnEvent::ToolOutput(output)).outputs == flushed(
            view.text,
        ).outputs.push(output@),
        turn_step(view, LiveTurnEvent::ToolOutput(output)).next.text == flushed(view.text).state,
        turn_step(view, LiveTurnEvent::ToolOutput(output)).next.kept == view.kept,
        turn_step(view, LiveTurnEvent::ServerRequest).outputs == flushed(view.text).outputs,
        turn_step(view, LiveTurnEvent::ServerRequest).next.text == flushed(view.text).state,
        turn_step(view, LiveTurnEvent::ServerRequest).next.kept == view.kept,
        turn_step(
            view,
            LiveTurnEvent::Notification(ServerNotification::TurnCompleted(payload)),
        ).outputs == flushed(view.text).outputs,
        view.text.pending is None ==> flushed(view.text).outputs.len() == 0 && flushed(
            view.text,
        ).state == view.text,
{
}

/// Blank text is never shown, and text that grew by nothing but white space is
/// nothing new.
pub proof fn law_blank_text(
    id: Seq<char>,
    text: Seq<char>,
    phase: Option<AgentMessagePhase>,
    previous: Seq<char>,
)
    requires
        forall|i: int| 0 <= i < text.len() ==> is_white_space(#[trigger] text[i]),
    ensures
        shown_text(ThreadItemView::AgentMessage { id, text, phase }) is None,
        shown_text(ThreadItemView::Plan { id, text }) is None,
        text_key(ThreadItemView::AgentMessage { id, text, phase }) is None,
        fresh_part(previous, text) is None,
        fresh_part(previous, previous + text) is None || previous.len() == 0,
{
    law_ink(text);
    if previous.len() > 0 {
        assert((previous + text).skip(previous.len() as int) =~= text);
        assert((previous + text).take(previous.len() as int) =~= previous);
    }
    if previous.len() > 0 && previous.is_prefix_of(text) {
        let part = text.skip(previous.len() as int);
        assert forall|i: int| 0 <= i < part.len() implies is_white_space(#[trigger] part[i]) by {
            assert(part[i] == text[previous.len() + i]);
        }
        law_ink(part);
    }
}

/// An item that is no message of an agent, or that has no id, is named by no
/// notification.
pub proof fn law_unnamed_items(
    item: Map<Seq<char>, JsonView>,
    payload: ItemLifecycleNotification,
)
    requires
        value_view(payload.item) == JsonView::Object(item),
        !(item.contains_key("type"@) && item["type"@] == JsonView::Text("agentMessage"@)) || !(
        item.contains_key("id"@) && item["id"@] is Text),
    ensures
        successor_key(ServerNotification::ItemStarted(payload)) is None,
        successor_key(ServerNotification::ItemCompleted(payload)) is None,
{
}

/// The text of an agent message is forwarded as it stands, whatever its phase,
/// unless there is nothing to be seen in it; nothing else is forwarded.
pub proof fn law_forwarded_text(
    id: Seq<char>,
    text: Seq<char>,
    phase: Option<AgentMessagePhase>,
)
    ensures
        (exists|i: int| 0 <= i < text.len() && !is_white_space(#[trigger] text[i]))
            ==> completed_text(ThreadItemView::AgentMessage { id, text, phase }) == Some(text),
        (forall|i: int| 0 <= i < text.len() ==> is_white_space(#[trigger] text[i]))
            ==> completed_text(ThreadItemView::AgentMessage { id, text, phase }) is None,
        completed_text(ThreadItemView::Plan { id, text }) is None,
        completed_text(ThreadItemView::Other) is None,
{
    law_ink(text);
}

/// An item without an id, or without a text, is read with an empty one; a value
/// that is no object, or of no kind that is known, is no item.
pub proof fn law_incomplete_items(item: Map<Seq<char>, JsonView>, other: JsonView)
    requires
        item.contains_key("type"@),
        item["type"@] == JsonView::Text("agentMessage"@),
        !(other is Object),
    ensures
        item_of(JsonView::Object(item)) matches Some(ThreadItemView::AgentMessage { id, text, .. })
            && (!(item.contains_key("id"@) && item["id"@] is Text) ==> id.len() == 0) && (!(
        item.contains_key("text"@) && item["text"@] is Text) ==> text.len() == 0),
        item_of(other) is None,
        item_of(JsonView::Object(item.remove("type"@))) is None,
{
}

/// What was sent last under a key is what the next text is held against.
pub proof fn law_last_sent(
    sent: Map<Seq<char>, Seq<char>>,
    key: Seq<char>,
    other: Seq<char>,
    text: Seq<char>,
)
    ensures
        sent_before(sent.insert(key, text), key) == text,
        other != key ==> sent_before(sent.insert(key, text), other) == sent_before(sent, other),
        sent_before(sent.remove(key), key).len() == 0,
{
}

/// A notification of no particular item is about another one than any that
/// waits, and one that names no item is about none.
pub proof fn law_notifications_of_no_item(
    turn: TurnNotification,
    error: ErrorNotification,
    delta: DeltaNotification,
    payload: ItemLifecycleNotification,
)
    requires
        delta.item_id is None,
        !(value_view(payload.item) is Object),
    ensures
        successor_key(ServerNotification::TurnStarted(turn)) == Some("__different-successor__"@),
        successor_key(ServerNotification::TurnCompleted(turn)) == Some("__different-successor__"@),
        successor_key(ServerNotification::Error(error)) == Some("__different-successor__"@),
        successor_key(ServerNotification::ItemAgentMessageDelta(delta)) == Some(
            "__different-successor__"@,
        ),
        successor_key(ServerNotification::ItemPlanDelta(delta)) == Some(
            "__different-successor__"@,
        ),
        successor_key(ServerNotification::TurnPlanUpdated) == Some("__different-successor__"@),
        successor_key(ServerNotification::Unknown) == Some("__different-successor__"@),
        successor_key(ServerNotification::ItemStarted(payload)) is None,
        successor_key(ServerNotification::ItemCompleted(payload)) is None,
        successor_key(ServerNotification::ItemReasoningTextDelta(delta)) is None,
{
}

/// How the turn stands after the notifications that waited: the first failure
/// among them ends it; without one it is over where one of them completes it.
pub proof fn law_replayed_notifications(
    view: LiveTurnView,
    turn: Seq<char>,
    k: int,
)
    requires
        0 <= k <= view.kept.len(),
        forall|i: int|
            0 <= i < k ==> outcome_of(#[trigger] view.kept[i], view.thread, turn) is Ok,
    ensures
        k < view.kept.len() ==> (outcome_of(view.kept[k], view.thread, turn) matches Err(message)
            ==> started(view, turn).progress == LiveTurnProgressView::Failed(message)),
        k == view.kept.len() ==> (started(view, turn).progress is Finished <==> exists|i: int|
            0 <= i < k && (outcome_of(#[trigger] view.kept[i], view.thread, turn) matches Ok(
                outcome,
            ) && outcome is Terminal)),
        k == view.kept.len() ==> !(started(view, turn).progress is Failed),
{
    lemma_replayed(view.text, view.kept, 0, view.thread, turn, k);
}

proof fn lemma_replayed(
    state: LiveTextView,
    kept: Seq<ServerNotification>,
    i: int,
    thread: Seq<char>,
    turn: Seq<char>,
    k: int,
)
    requires
        0 <= i <= k <= kept.len(),
        forall|j: int| 0 <= j < k ==> outcome_of(#[trigger] kept[j], thread, turn) is Ok,
    ensures
        k < kept.len() ==> (outcome_of(kept[k], thread, turn) matches Err(message)
            ==> replayed_from(state, kept, i, thread, turn).1 == Err::<bool, Seq<char>>(message)),
        k == kept.len() ==> (replayed_from(state, kept, i, thread, turn).1 matches Ok(over) && (
        over <==> exists|j: int|
            i <= j < k && (outcome_of(#[trigger] kept[j], thread, turn) matches Ok(outcome)
                && outcome is Terminal))),
    decreases k - i,
{
    if i < k {
        let step = after_notification(state, kept[i], thread, turn);
        assert(outcome_of(kept[i], thread, turn) is Ok);
        lemma_replayed(step.state, kept, i + 1, thread, turn, k);
    }
}

/// A notification goes on, ends or fails the turn that it is about, and no
/// other.
pub proof fn law_outcomes(
    thread: Seq<char>,
    turn: Seq<char>,
    completed: TurnNotification,
    error: ErrorNotification,
    item: ItemLifecycleNotification,
)
    ensures
        completed.turn.id@ != turn ==> outcome_of(
            ServerNotification::TurnCompleted(completed),
            thread,
            turn,
        ) == Ok::<LiveNotificationOutcome, Seq<char>>(LiveNotificationOutcome::Continue),
        completed.turn.id@ == turn && completed.turn.status is None ==> outcome_of(
            ServerNotification::TurnCompleted(completed),
            thread,
            turn,
        ) == Ok::<LiveNotificationOutcome, Seq<char>>(LiveNotificationOutcome::Terminal),
        completed.turn.id@ == turn && (completed.turn.status matches Some(status)
            && same_ignoring_case(status@, "failed"@)) ==> outcome_of(
            ServerNotification::TurnCompleted(completed),
            thread,
            turn,
        ) == Err::<LiveNotificationOutcome, Seq<char>>(
            match completed.turn.error {
                Some(cause) => cause.message@,
                None => "turn failed"@,
            },
        ),
        outcome_of(ServerNotification::TurnStarted(completed), thread, turn) == Ok::<
            LiveNotificationOutcome,
            Seq<char>,
        >(LiveNotificationOutcome::Continue),
        outcome_of(ServerNotification::ItemCompleted(item), thread, turn) == Ok::<
            LiveNotificationOutcome,
            Seq<char>,
        >(LiveNotificationOutcome::Continue),
        ({
            let extra = object_entries(error.extra);
            let mine = extra.contains_key("threadId"@) && extra["threadId"@] == JsonView::Text(
                thread,
            ) && extra.contains_key("turnId"@) && extra["turnId"@] == JsonView::Text(turn);
            outcome_of(ServerNotification::Error(error), thread, turn) == if mine {
                Err::<LiveNotificationOutcome, Seq<char>>(error.error.message@)
            } else {
                Ok(LiveNotificationOutcome::Continue)
            }
        }),
{
}

} // verus!
