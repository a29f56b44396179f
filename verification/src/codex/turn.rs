//! The life of a turn, from the request to start it to its end.
use vstd::prelude::*;

use crate::channels::{outputs_view, TurnOutput, TurnOutputView};
use crate::codex::items::{completed_text, item_of, text_key, ThreadItemView};
use crate::codex::live::{
    after_notification, before_notification, flush_completed_text_item, flushed,
    handle_live_notification, maybe_flush_on_successor_notification, message_output, outcome_of,
    replay_buffered_notifications, replayed_from, LiveNotificationOutcome, LiveTextState,
    LiveTextView,
};
use crate::codex::notifications::{
    classify_notification, is_kept, on_turn, NotificationMatch, ServerNotification,
};
use crate::json::{object_entries, value_view};
use crate::text::opt_view;

verus! {

/// What happens to a turn.
pub enum LiveTurnEvent {
    /// The server answered the request to start the turn.
    TurnStartResult(Result<String, String>),
    Notification(ServerNotification),
    ServerRequest,
    ToolOutput(TurnOutput),
    TransportClosed,
}

/// Whether a turn goes on.
pub enum LiveTurnProgress {
    Running,
    Finished,
    Failed(String),
}

/// Whether a turn goes on, as a mathematical value.
#[verifier::ext_equal]
pub enum LiveTurnProgressView {
    Running,
    Finished,
    Failed(Seq<char>),
}

impl View for LiveTurnProgress {
    type V = LiveTurnProgressView;

    open spec fn view(&self) -> LiveTurnProgressView {
        match *self {
            LiveTurnProgress::Running => LiveTurnProgressView::Running,
            LiveTurnProgress::Finished => LiveTurnProgressView::Finished,
            LiveTurnProgress::Failed(message) => LiveTurnProgressView::Failed(message@),
        }
    }
}

/// What an event asks for: that the turn `register` gets tool calls from now
/// on, that `outputs` are sent in order, and whether to go on.
pub struct LiveTurnStep {
    pub register: Option<String>,
    pub outputs: Vec<TurnOutput>,
    pub progress: LiveTurnProgress,
}

/// A turn that was asked for.
pub struct LiveTurn {
    thread_id: String,
    turn_id: Option<String>,
    buffered: Vec<ServerNotification>,
    text: LiveTextState,
}

/// `LiveTurn` as a mathematical value.
#[verifier::ext_equal]
pub struct LiveTurnView {
    pub thread: Seq<char>,
    pub turn: Option<Seq<char>>,
    pub kept: Seq<ServerNotification>,
    pub text: LiveTextView,
}

impl View for LiveTurn {
    type V = LiveTurnView;

    closed spec fn view(&self) -> LiveTurnView {
        LiveTurnView {
            thread: self.thread_id@,
            turn: opt_view(self.turn_id),
            kept: self.buffered@,
            text: self.text@,
        }
    }
}

/// A turn after an event, and what the event asks for.
#[verifier::ext_equal]
pub struct LiveTurnStepView {
    pub next: LiveTurnView,
    pub register: Option<Seq<char>>,
    pub outputs: Seq<TurnOutputView>,
    pub progress: LiveTurnProgressView,
}

/// The turn once the server has named it: what was kept is handled.
pub open spec fn started(view: LiveTurnView, turn: Seq<char>) -> LiveTurnStepView {
    let (emitted, over) = replayed_from(view.text, view.kept, 0, view.thread, turn);
    LiveTurnStepView {
        next: LiveTurnView {
            thread: view.thread,
            turn: Some(turn),
            kept: seq![],
            text: emitted.state,
        },
        register: Some(turn),
        outputs: emitted.outputs,
        progress: match over {
            Ok(true) => LiveTurnProgressView::Finished,
            Ok(false) => LiveTurnProgressView::Running,
            Err(message) => LiveTurnProgressView::Failed(message),
        },
    }
}

/// The turn after a notification. Before the turn is known the notification is
/// kept or dropped; after that it is handled at once.
pub open spec fn notified(view: LiveTurnView, notification: ServerNotification) -> LiveTurnStepView {
    match view.turn {
        None => LiveTurnStepView {
            next: LiveTurnView {
                kept: if is_kept(notification, view.thread) {
                    view.kept.push(notification)
                } else {
                    view.kept
                },
                ..view
            },
            register: None,
            outputs: seq![],
            progress: LiveTurnProgressView::Running,
        },
        Some(turn) => {
            let first = before_notification(view.text, notification);
            let second = after_notification(first.state, notification, view.thread, turn);
            LiveTurnStepView {
                next: LiveTurnView { text: second.state, ..view },
                register: None,
                outputs: first.outputs + second.outputs,
                progress: match outcome_of(notification, view.thread, turn) {
                    Ok(LiveNotificationOutcome::Terminal) => LiveTurnProgressView::Finished,
                    Ok(LiveNotificationOutcome::Continue) => LiveTurnProgressView::Running,
                    Err(message) => LiveTurnProgressView::Failed(message),
                },
            }
        },
    }
}

/// The turn after an event.
pub open spec fn turn_step(view: LiveTurnView, event: LiveTurnEvent) -> LiveTurnStepView {
    match event {
        LiveTurnEvent::TurnStartResult(Ok(turn)) => started(view, turn@),
        LiveTurnEvent::TurnStartResult(Err(message)) => LiveTurnStepView {
            next: view,
            register: None,
            outputs: seq![],
            progress: LiveTurnProgressView::Failed(message@),
        },
        LiveTurnEvent::Notification(notification) => notified(view, notification),
        LiveTurnEvent::ServerRequest => LiveTurnStepView {
            next: LiveTurnView { text: flushed(view.text).state, ..view },
            register: None,
            outputs: flushed(view.text).outputs,
            progress: LiveTurnProgressView::Running,
        },
        LiveTurnEvent::ToolOutput(output) => LiveTurnStepView {
            next: LiveTurnView { text: flushed(view.text).state, ..view },
            register: None,
            outputs: flushed(view.text).outputs.push(output@),
            progress: LiveTurnProgressView::Running,
        },
        LiveTurnEvent::TransportClosed => LiveTurnStepView {
            next: view,
            register: None,
            outputs: seq![],
            progress: LiveTurnProgressView::Failed("Codex event stream closed"@),
        },
    }
}

impl LiveTurn {
    /// A turn of the thread `thread_id` that was asked for.
    pub fn new(thread_id: String) -> (turn: Self)
        ensures
            turn@ == (LiveTurnView {
                thread: thread_id@,
                turn: None,
                kept: seq![],
                text: LiveTextView { pending: None, sent: Set::empty() },
            }),
    {
        LiveTurn {
            thread_id,
            turn_id: None,
            buffered: Vec::new(),
            text: LiveTextState::new(),
        }
    }

    /// The turn, where the server has named it.
    pub fn turn_id(&self) -> (turn: Option<&String>)
        ensures
            match turn {
                Some(id) => self@.turn == Some(id@),
                None => self@.turn is None,
            },
    {
        self.turn_id.as_ref()
    }

    fn start(&mut self, turn_id: String) -> (step: LiveTurnStep)
        ensures
            final(self)@ == started(old(self)@, turn_id@).next,
            opt_view(step.register) == started(old(self)@, turn_id@).register,
            outputs_view(step.outputs@) == started(old(self)@, turn_id@).outputs,
            step.progress@ == started(old(self)@, turn_id@).progress,
    {
        let ghost whole = started(self@, turn_id@);
        let mut outputs: Vec<TurnOutput> = Vec::new();
        let over = replay_buffered_notifications(
            &self.buffered,
            self.thread_id.as_str(),
            turn_id.as_str(),
            &mut self.text,
            &mut outputs,
        );
        assert(outputs_view(outputs@) =~= whole.outputs);
        self.buffered = Vec::new();
        self.turn_id = Some(turn_id.clone());
        let progress = match over {
            Ok(true) => LiveTurnProgress::Finished,
            Ok(false) => LiveTurnProgress::Running,
            Err(message) => LiveTurnProgress::Failed(message),
        };
        LiveTurnStep { register: Some(turn_id), outputs, progress }
    }

    fn notify(&mut self, notification: ServerNotification) -> (step: LiveTurnStep)
        ensures
            final(self)@ == notified(old(self)@, notification).next,
            opt_view(step.register) == notified(old(self)@, notification).register,
            outputs_view(step.outputs@) == notified(old(self)@, notification).outputs,
            step.progress@ == notified(old(self)@, notification).progress,
    {
        let ghost whole = notified(self@, notification);
        let mut outputs: Vec<TurnOutput> = Vec::new();
        let turn_id = match &self.turn_id {
            Some(turn_id) => turn_id.clone(),
            None => {
                match classify_notification(&notification, self.thread_id.as_str()) {
                    NotificationMatch::CurrentThreadBuffered => {
                        self.buffered.push(notification);
                    },
                    NotificationMatch::Ignore => {},
                }
                assert(outputs_view(outputs@) =~= whole.outputs);
                return LiveTurnStep {
                    register: None,
                    outputs,
                    progress: LiveTurnProgress::Running,
                };
            },
        };
        maybe_flush_on_successor_notification(&notification, &mut self.text, &mut outputs);
        let outcome = handle_live_notification(
            &notification,
            self.thread_id.as_str(),
            turn_id.as_str(),
            &mut self.text,
            &mut outputs,
        );
        assert(outputs_view(outputs@) =~= whole.outputs);
        let progress = match outcome {
            Ok(LiveNotificationOutcome::Terminal) => LiveTurnProgress::Finished,
            Ok(LiveNotificationOutcome::Continue) => LiveTurnProgress::Running,
            Err(message) => LiveTurnProgress::Failed(message),
        };
        LiveTurnStep { register: None, outputs, progress }
    }

    /// Handles an event.
    pub fn step(&mut self, event: LiveTurnEvent) -> (step: LiveTurnStep)
        ensures
            final(self)@ == turn_step(old(self)@, event).next,
            opt_view(step.register) == turn_step(old(self)@, event).register,
            outputs_view(step.outputs@) == turn_step(old(self)@, event).outputs,
            step.progress@ == turn_step(old(self)@, event).progress,
    {
        let ghost whole = turn_step(self@, event);
        match event {
            LiveTurnEvent::TurnStartResult(Ok(turn_id)) => self.start(turn_id),
            LiveTurnEvent::TurnStartResult(Err(message)) => {
                let outputs: Vec<TurnOutput> = Vec::new();
                assert(outputs_view(outputs@) =~= whole.outputs);
                LiveTurnStep {
                    register: None,
                    outputs,
                    progress: LiveTurnProgress::Failed(message),
                }
            },
            LiveTurnEvent::Notification(notification) => self.notify(notification),
            LiveTurnEvent::ServerRequest => {
                let mut outputs: Vec<TurnOutput> = Vec::new();
                flush_completed_text_item(&mut self.text, &mut outputs);
                assert(outputs_view(outputs@) =~= whole.outputs);
                LiveTurnStep { register: None, outputs, progress: LiveTurnProgress::Running }
            },
            LiveTurnEvent::ToolOutput(output) => {
                let mut outputs: Vec<TurnOutput> = Vec::new();
                flush_completed_text_item(&mut self.text, &mut outputs);
                outputs.push(output);
                assert(outputs_view(outputs@) =~= whole.outputs);
                LiveTurnStep { register: None, outputs, progress: LiveTurnProgress::Running }
            },
            LiveTurnEvent::TransportClosed => {
                let outputs: Vec<TurnOutput> = Vec::new();
                assert(outputs_view(outputs@) =~= whole.outputs);
                LiveTurnStep {
                    register: None,
                    outputs,
                    progress: LiveTurnProgress::Failed("Codex event stream closed".to_string()),
                }
            },
        }
    }
}

// ---------------------------------------------------------------------------
// What a turn says
// ---------------------------------------------------------------------------
/// The message that a notification completes: an agent message of the turn
/// that is not blank.
pub open spec fn completed_message(
    notification: ServerNotification,
    thread: Seq<char>,
    turn: Seq<char>,
) -> Option<ThreadItemView> {
    match notification {
        ServerNotification::ItemCompleted(payload) => {
            let item = item_of(value_view(payload.item));
            if on_turn(object_entries(payload.extra), thread, turn) && item is Some && text_key(
                item->0,
            ) is Some {
                item
            } else {
                None
            }
        },
        _ => None,
    }
}

/// The messages that the notifications complete, each key once, without those
/// under the keys in `sent`.
pub open spec fn new_messages(
    notifications: Seq<ServerNotification>,
    thread: Seq<char>,
    turn: Seq<char>,
    sent: Set<Seq<char>>,
) -> Seq<ThreadItemView>
    decreases notifications.len(),
{
    if notifications.len() == 0 {
        seq![]
    } else {
        let rest = notifications.skip(1);
        match completed_message(notifications[0], thread, turn) {
            Some(item) => if sent.contains(text_key(item)->0) {
                new_messages(rest, thread, turn, sent)
            } else {
                seq![item] + new_messages(rest, thread, turn, sent.insert(text_key(item)->0))
            },
            None => new_messages(rest, thread, turn, sent),
        }
    }
}

/// What carries the messages to the chat.
pub open spec fn message_outputs(messages: Seq<ThreadItemView>) -> Seq<TurnOutputView> {
    Seq::new(messages.len(), |i: int| message_output(messages[i], completed_text(messages[i])->0))
}

/// What a turn sends while it handles the notifications one after another.
pub open spec fn sent_while(view: LiveTurnView, notifications: Seq<ServerNotification>) -> Seq<
    TurnOutputView,
>
    decreases notifications.len(),
{
    if notifications.len() == 0 {
        seq![]
    } else {
        let step = notified(view, notifications[0]);
        step.outputs + sent_while(step.next, notifications.skip(1))
    }
}

/// The keys under which messages were sent, after the notifications.
pub open spec fn sent_after(
    notifications: Seq<ServerNotification>,
    thread: Seq<char>,
    turn: Seq<char>,
    sent: Set<Seq<char>>,
) -> Set<Seq<char>>
    decreases notifications.len(),
{
    if notifications.len() == 0 {
        sent
    } else {
        let rest = notifications.skip(1);
        match completed_message(notifications[0], thread, turn) {
            Some(item) => sent_after(rest, thread, turn, sent.insert(text_key(item)->0)),
            None => sent_after(rest, thread, turn, sent),
        }
    }
}

/// Where no message waits, a notification sends the message that it completes,
/// if that is new, and none waits afterwards.
proof fn lemma_one_notification(
    state: LiveTextView,
    notification: ServerNotification,
    thread: Seq<char>,
    turn: Seq<char>,
)
    requires
        state.pending is None,
    ensures
        ({
            let step = after_notification(state, notification, thread, turn);
            &&& step.state.pending is None
            &&& step.state.sent == sent_after(seq![notification], thread, turn, state.sent)
            &&& step.outputs == message_outputs(
                new_messages(seq![notification], thread, turn, state.sent),
            )
        }),
{
    let rest = seq![notification].skip(1);
    assert(rest.len() == 0);
    assert(new_messages(rest, thread, turn, state.sent) == Seq::<ThreadItemView>::empty());
    match completed_message(notification, thread, turn) {
        Some(item) => {
            let key = text_key(item)->0;
            let output = message_output(item, completed_text(item)->0);
            assert(seq![item] + new_messages(rest, thread, turn, state.sent.insert(key)) =~= seq![
                item,
            ]);
            assert(sent_after(rest, thread, turn, state.sent.insert(key)) == state.sent.insert(key));
            assert(message_outputs(seq![item]) =~= seq![output]);
            assert(Seq::<TurnOutputView>::empty() + seq![output] =~= seq![output]);
            if state.sent.contains(key) {
                assert(state.sent.insert(key) =~= state.sent);
            }
        },
        None => {
            assert(sent_after(rest, thread, turn, state.sent) == state.sent);
        },
    }
    assert(message_outputs(Seq::<ThreadItemView>::empty()) =~= Seq::<TurnOutputView>::empty());
    assert(Seq::<TurnOutputView>::empty() + Seq::<TurnOutputView>::empty() =~= Seq::<
        TurnOutputView,
    >::empty());
}

/// The messages of two runs of notifications are those of the first, then those
/// of the second that the first did not send.
proof fn lemma_messages_split(
    a: Seq<ServerNotification>,
    b: Seq<ServerNotification>,
    thread: Seq<char>,
    turn: Seq<char>,
    sent: Set<Seq<char>>,
)
    ensures
        new_messages(a + b, thread, turn, sent) == new_messages(a, thread, turn, sent)
            + new_messages(b, thread, turn, sent_after(a, thread, turn, sent)),
        sent_after(a + b, thread, turn, sent) == sent_after(
            b,
            thread,
            turn,
            sent_after(a, thread, turn, sent),
        ),
    decreases a.len(),
{
    if a.len() == 0 {
        assert(a + b =~= b);
    } else {
        let rest = a.skip(1);
        assert((a + b).skip(1) =~= rest + b);
        match completed_message(a[0], thread, turn) {
            Some(item) => {
                let key = text_key(item)->0;
                let more = sent.insert(key);
                lemma_messages_split(rest, b, thread, turn, more);
                if sent.contains(key) {
                    assert(more =~= sent);
                }
            },
            None => {
                lemma_messages_split(rest, b, thread, turn, sent);
            },
        }
        assert(new_messages(a + b, thread, turn, sent) =~= new_messages(a, thread, turn, sent)
            + new_messages(b, thread, turn, sent_after(a, thread, turn, sent)));
    }
}

proof fn lemma_outputs_add(a: Seq<ThreadItemView>, b: Seq<ThreadItemView>)
    ensures
        message_outputs(a + b) == message_outputs(a) + message_outputs(b),
{
    assert(message_outputs(a + b) =~= message_outputs(a) + message_outputs(b));
}

/// Where no message waits, none waits after a notification, and the
/// notification sends the message that it completes, if that is new, and
/// nothing else.
pub proof fn law_messages_are_sent_at_once(view: LiveTurnView, notification: ServerNotification)
    requires
        view.text.pending is None,
        view.turn is Some,
    ensures
        notified(view, notification).next.text.pending is None,
        notified(view, notification).outputs == message_outputs(
            new_messages(seq![notification], view.thread, view.turn->0, view.text.sent),
        ),
{
    let turn = view.turn->0;
    lemma_one_notification(view.text, notification, view.thread, turn);
    let sent = after_notification(view.text, notification, view.thread, turn).outputs;
    assert(Seq::<TurnOutputView>::empty() + sent =~= sent);
}

/// A turn sends the messages that the notifications complete, each once, in
/// the order of their completion, commentary silently, and nothing else: no
/// deltas, no plans and nothing of another thread or turn.
pub proof fn law_turn_sends_completed_messages(
    view: LiveTurnView,
    notifications: Seq<ServerNotification>,
)
    requires
        view.text.pending is None,
        view.turn is Some,
    ensures
        sent_while(view, notifications) == message_outputs(
            new_messages(notifications, view.thread, view.turn->0, view.text.sent),
        ),
    decreases notifications.len(),
{
    let turn = view.turn->0;
    if notifications.len() == 0 {
        assert(sent_while(view, notifications) =~= message_outputs(
            new_messages(notifications, view.thread, turn, view.text.sent),
        ));
    } else {
        let first = seq![notifications[0]];
        let rest = notifications.skip(1);
        law_messages_are_sent_at_once(view, notifications[0]);
        lemma_one_notification(view.text, notifications[0], view.thread, turn);
        law_turn_sends_completed_messages(notified(view, notifications[0]).next, rest);
        assert(first + rest =~= notifications);
        lemma_messages_split(first, rest, view.thread, turn, view.text.sent);
        lemma_outputs_add(
            new_messages(first, view.thread, turn, view.text.sent),
            new_messages(
                rest,
                view.thread,
                turn,
                sent_after(first, view.thread, turn, view.text.sent),
            ),
        );
    }
}

/// The notifications that are kept until the turn is known.
pub open spec fn kept_of(notifications: Seq<ServerNotification>, thread: Seq<char>) -> Seq<
    ServerNotification,
>
    decreases notifications.len(),
{
    if notifications.len() == 0 {
        seq![]
    } else if is_kept(notifications[0], thread) {
        seq![notifications[0]] + kept_of(notifications.skip(1), thread)
    } else {
        kept_of(notifications.skip(1), thread)
    }
}

/// A turn after the notifications, one after another.
pub open spec fn after_all(view: LiveTurnView, notifications: Seq<ServerNotification>) -> LiveTurnView
    decreases notifications.len(),
{
    if notifications.len() == 0 {
        view
    } else {
        after_all(notified(view, notifications[0]).next, notifications.skip(1))
    }
}

proof fn lemma_kept(view: LiveTurnView, early: Seq<ServerNotification>)
    requires
        view.turn is None,
    ensures
        after_all(view, early) == (LiveTurnView {
            kept: view.kept + kept_of(early, view.thread),
            ..view
        }),
    decreases early.len(),
{
    if early.len() == 0 {
        assert(view.kept + kept_of(early, view.thread) =~= view.kept);
    } else {
        let next = notified(view, early[0]).next;
        lemma_kept(next, early.skip(1));
        assert(next.kept + kept_of(early.skip(1), view.thread) =~= view.kept + kept_of(
            early,
            view.thread,
        ));
    }
}

/// Nothing that is dropped completes a message.
proof fn lemma_kept_messages(
    early: Seq<ServerNotification>,
    thread: Seq<char>,
    turn: Seq<char>,
    sent: Set<Seq<char>>,
)
    ensures
        new_messages(kept_of(early, thread), thread, turn, sent) == new_messages(
            early,
            thread,
            turn,
            sent,
        ),
        sent_after(kept_of(early, thread), thread, turn, sent) == sent_after(
            early,
            thread,
            turn,
            sent,
        ),
    decreases early.len(),
{
    if early.len() > 0 {
        let rest = early.skip(1);
        let more = match completed_message(early[0], thread, turn) {
            Some(item) => sent.insert(text_key(item)->0),
            None => sent,
        };
        lemma_kept_messages(rest, thread, turn, sent);
        lemma_kept_messages(rest, thread, turn, more);
        if is_kept(early[0], thread) {
            assert(kept_of(early, thread).skip(1) =~= kept_of(rest, thread));
            assert(kept_of(early, thread)[0] == early[0]);
        } else {
            assert(completed_message(early[0], thread, turn) is None);
        }
    }
}

/// Whether none of the notifications reports that the turn failed.
pub open spec fn no_failure(
    notifications: Seq<ServerNotification>,
    thread: Seq<char>,
    turn: Seq<char>,
) -> bool {
    forall|i: int|
        0 <= i < notifications.len() ==> outcome_of(#[trigger] notifications[i], thread, turn) is Ok
}

proof fn lemma_kept_no_failure(
    early: Seq<ServerNotification>,
    thread: Seq<char>,
    turn: Seq<char>,
)
    requires
        no_failure(early, thread, turn),
    ensures
        no_failure(kept_of(early, thread), thread, turn),
    decreases early.len(),
{
    if early.len() > 0 {
        let rest = early.skip(1);
        assert(no_failure(rest, thread, turn)) by {
            assert forall|i: int| 0 <= i < rest.len() implies outcome_of(
                #[trigger] rest[i],
                thread,
                turn,
            ) is Ok by {
                assert(rest[i] == early[i + 1]);
            }
        }
        lemma_kept_no_failure(rest, thread, turn);
        let kept = kept_of(early, thread);
        let kept_rest = kept_of(rest, thread);
        assert forall|i: int| 0 <= i < kept.len() implies outcome_of(
            #[trigger] kept[i],
            thread,
            turn,
        ) is Ok by {
            if is_kept(early[0], thread) {
                if i > 0 {
                    assert(kept[i] == kept_rest[i - 1]);
                } else {
                    assert(kept[0] == early[0]);
                }
            } else {
                assert(kept[i] == kept_rest[i]);
            }
        }
    }
}

proof fn lemma_replay(
    state: LiveTextView,
    kept: Seq<ServerNotification>,
    i: int,
    thread: Seq<char>,
    turn: Seq<char>,
)
    requires
        state.pending is None,
        0 <= i <= kept.len(),
        no_failure(kept, thread, turn),
    ensures
        ({
            let (emitted, over) = replayed_from(state, kept, i, thread, turn);
            &&& over is Ok
            &&& emitted.state.pending is None
            &&& emitted.state.sent == sent_after(kept.skip(i), thread, turn, state.sent)
            &&& emitted.outputs == message_outputs(
                new_messages(kept.skip(i), thread, turn, state.sent),
            )
        }),
    decreases kept.len() - i,
{
    if i == kept.len() {
        assert(message_outputs(new_messages(kept.skip(i), thread, turn, state.sent)) =~= seq![]);
    } else {
        let step = after_notification(state, kept[i], thread, turn);
        let first = seq![kept[i]];
        lemma_one_notification(state, kept[i], thread, turn);
        lemma_replay(step.state, kept, i + 1, thread, turn);
        assert(outcome_of(kept[i], thread, turn) is Ok);
        assert(first + kept.skip(i + 1) =~= kept.skip(i));
        lemma_messages_split(first, kept.skip(i + 1), thread, turn, state.sent);
        lemma_outputs_add(
            new_messages(first, thread, turn, state.sent),
            new_messages(kept.skip(i + 1), thread, turn, step.state.sent),
        );
    }
}

/// It makes no difference whether a message is completed before or after the
/// server names the turn: where no early notification reports a failure, the
/// turn sends the messages that all notifications complete, each once and in
/// order.
pub proof fn law_early_messages_are_not_lost(
    thread: Seq<char>,
    turn: Seq<char>,
    early: Seq<ServerNotification>,
    later: Seq<ServerNotification>,
)
    requires
        no_failure(early, thread, turn),
    ensures
        ({
            let asked = LiveTurnView {
                thread,
                turn: None,
                kept: seq![],
                text: LiveTextView { pending: None, sent: Set::empty() },
            };
            let start = started(after_all(asked, early), turn);
            start.outputs + sent_while(start.next, later) == message_outputs(
                new_messages(early + later, thread, turn, Set::empty()),
            )
        }),
{
    let none = Set::<Seq<char>>::empty();
    let asked = LiveTurnView {
        thread,
        turn: None,
        kept: seq![],
        text: LiveTextView { pending: None, sent: none },
    };
    let kept = kept_of(early, thread);
    lemma_kept(asked, early);
    assert(asked.kept + kept =~= kept);
    let start = started(after_all(asked, early), turn);
    lemma_kept_no_failure(early, thread, turn);
    lemma_replay(asked.text, kept, 0, thread, turn);
    assert(kept.skip(0) =~= kept);
    lemma_kept_messages(early, thread, turn, none);
    law_turn_sends_completed_messages(start.next, later);
    lemma_messages_split(early, later, thread, turn, none);
    lemma_outputs_add(
        new_messages(early, thread, turn, none),
        new_messages(later, thread, turn, sent_after(early, thread, turn, none)),
    );
}

/// No key occurs twice among the messages, and none of `sent` occurs.
pub proof fn law_no_message_twice(
    notifications: Seq<ServerNotification>,
    thread: Seq<char>,
    turn: Seq<char>,
    sent: Set<Seq<char>>,
)
    ensures
        ({
            let messages = new_messages(notifications, thread, turn, sent);
            &&& forall|i: int|
                0 <= i < messages.len() ==> text_key(#[trigger] messages[i]) is Some
                    && !sent.contains(text_key(messages[i])->0)
            &&& forall|i: int, j: int|
                0 <= i < j < messages.len() ==> text_key(#[trigger] messages[i]) != text_key(
                    #[trigger] messages[j],
                )
        }),
    decreases notifications.len(),
{
    if notifications.len() > 0 {
        let rest = notifications.skip(1);
        let messages = new_messages(notifications, thread, turn, sent);
        match completed_message(notifications[0], thread, turn) {
            Some(item) => {
                let key = text_key(item)->0;
                if sent.contains(key) {
                    law_no_message_twice(rest, thread, turn, sent);
                } else {
                    law_no_message_twice(rest, thread, turn, sent.insert(key));
                    let more = new_messages(rest, thread, turn, sent.insert(key));
                    assert forall|i: int| 0 <= i < messages.len() implies text_key(
                        #[trigger] messages[i],
                    ) is Some && !sent.contains(text_key(messages[i])->0) by {
                        if i > 0 {
                            assert(messages[i] == more[i - 1]);
                        }
                    }
                    assert forall|i: int, j: int| 0 <= i < j < messages.len() implies text_key(
                        #[trigger] messages[i],
                    ) != text_key(#[trigger] messages[j]) by {
                        assert(messages[j] == more[j - 1]);
                        if i > 0 {
                            assert(messages[i] == more[i - 1]);
                        }
                    }
                }
            },
            None => {
                law_no_message_twice(rest, thread, turn, sent);
            },
        }
    }
}

/// A notification that is dropped because it came before the turn was known
/// would have sent nothing, whatever the turn, unless it ends a turn.
pub proof fn law_dropped_notifications_say_nothing(
    notification: ServerNotification,
    thread: Seq<char>,
    turn: Seq<char>,
    state: LiveTextView,
)
    requires
        !is_kept(notification, thread),
        !(notification is TurnCompleted),
    ensures
        after_notification(state, notification, thread, turn).state == state,
        after_notification(state, notification, thread, turn).outputs.len() == 0,
        outcome_of(notification, thread, turn) == Ok::<LiveNotificationOutcome, Seq<char>>(
            LiveNotificationOutcome::Continue,
        ),
{
}

/// No message waits after any event, where none waited before: every output
/// has been handed over.
pub proof fn law_nothing_waits(view: LiveTurnView, event: LiveTurnEvent)
    requires
        view.text.pending is None,
    ensures
        turn_step(view, event).next.text.pending is None,
{
    match event {
        LiveTurnEvent::TurnStartResult(Ok(turn)) => {
            lemma_replay_leaves_nothing(view.text, view.kept, 0, view.thread, turn@);
        },
        _ => {},
    }
}

proof fn lemma_replay_leaves_nothing(
    state: LiveTextView,
    kept: Seq<ServerNotification>,
    i: int,
    thread: Seq<char>,
    turn: Seq<char>,
)
    requires
        state.pending is None,
        0 <= i,
    ensures
        replayed_from(state, kept, i, thread, turn).0.state.pending is None,
    decreases kept.len() - i,
{
    if i < kept.len() {
        let step = after_notification(state, kept[i], thread, turn);
        lemma_replay_leaves_nothing(step.state, kept, i + 1, thread, turn);
    }
}

} // verus!
