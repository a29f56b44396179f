//! Approvals: what an operator is asked, and what becomes of the answer.
use vstd::prelude::*;
use vstd::slice::slice_subrange;
use vstd::string::*;

use crate::collections::{KeyedMap, SameKey, TextMap};
use crate::ids::{is_simple_id, new_simple_id};
use crate::json::{
    array_value, object_insert, object_new, object_value, text_value, value_view, values_view,
    JsonView,
};
use crate::patterns::text_starts_with;
use crate::telegram::inbound::{is_allowed, message_of, user_allowed};
use crate::telegram::types::{TelegramCallbackQuery, TelegramMessage, TelegramUpdate};
use crate::text::{
    chars_of, find_char, has_ink, index_from, ink_of, lemma_run_end_is, opt_view, other_than,
    same_text, string_of, trim, trimmed_ink, trimmed_text,
};

verus! {

/// The chat in which an operator is asked.
#[derive(Debug, Clone, Copy, PartialEq, Eq)]
pub struct OperatorTarget {
    pub chat_id: i64,
    pub thread_id: Option<i64>,
}

/// What the operator decided.
#[derive(Debug, Clone, PartialEq, Eq)]
pub enum ApprovalOutcome {
    Approved,
    Denied,
    Steer(String),
}

/// What the operator decided, as a mathematical value.
#[verifier::ext_equal]
pub enum OutcomeView {
    Approved,
    Denied,
    Steer(Seq<char>),
}

impl View for ApprovalOutcome {
    type V = OutcomeView;

    open spec fn view(&self) -> OutcomeView {
        match *self {
            ApprovalOutcome::Approved => OutcomeView::Approved,
            ApprovalOutcome::Denied => OutcomeView::Denied,
            ApprovalOutcome::Steer(text) => OutcomeView::Steer(text@),
        }
    }
}

/// An approval that was not decided yet: where it was asked for, and the
/// message with the buttons.
#[derive(Debug, Clone, Copy)]
pub struct PendingApproval {
    pub operator_target: OperatorTarget,
    pub operator_message_id: i64,
}

/// Who is expected to send a steering message, and where.
#[derive(Debug, Clone, Copy)]
pub struct SteerKey {
    pub chat_id: i64,
    pub thread_id: Option<i64>,
    pub user_id: i64,
}

impl View for SteerKey {
    type V = SteerKey;

    open spec fn view(&self) -> SteerKey {
        *self
    }
}

impl SameKey for SteerKey {
    fn same_key(&self, other: &Self) -> (same: bool) {
        let same_thread = match (self.thread_id, other.thread_id) {
            (Some(a), Some(b)) => a == b,
            (None, None) => true,
            _ => false,
        };
        self.chat_id == other.chat_id && same_thread && self.user_id == other.user_id
    }
}

// ---------------------------------------------------------------------------
// Asking
// ---------------------------------------------------------------------------
/// The message that asks for an approval.
pub open spec fn prompt_of(summary: Seq<char>, reply: Seq<char>) -> Seq<char> {
    summary + "\n\n---\n\n**Proposed reply**\n\n"@ + trim(reply)
}

/// The data of a button: its action and the approval that it decides.
pub open spec fn button_data(action: Seq<char>, id: Seq<char>) -> Seq<char> {
    "apr:"@ + action + ":"@ + id
}

/// A button.
pub open spec fn button(label: Seq<char>, action: Seq<char>, id: Seq<char>) -> JsonView {
    JsonView::Object(
        map![
            "text"@ => JsonView::Text(label),
            "callback_data"@ => JsonView::Text(button_data(action, id)),
        ],
    )
}

/// The buttons under the message that asks for an approval, in one row.
pub open spec fn keyboard_of(id: Seq<char>) -> JsonView {
    JsonView::Object(
        map![
            "inline_keyboard"@ => JsonView::Array(
                seq![
                    JsonView::Array(
                        seq![
                            button("Approve"@, "approve"@, id),
                            button("Deny"@, "deny"@, id),
                            button("Steer"@, "steer"@, id),
                        ],
                    ),
                ],
            ),
        ],
    )
}

/// An approval that is asked for.
#[derive(Debug)]
pub struct ApprovalRequest {
    pub approval_id: String,
    pub target: OperatorTarget,
    pub prompt_markdown: String,
    pub keyboard: serde_json::Value,
}

fn button_value(label: &str, action: &str, id: &str) -> (value: serde_json::Value)
    ensures
        value_view(value) == button(label@, action@, id@),
{
    let mut data = "apr:".to_string();
    data.append(action);
    data.append(":");
    data.append(id);
    let mut object = object_new();
    object_insert(&mut object, "text", text_value(label));
    object_insert(&mut object, "callback_data", text_value(data.as_str()));
    object_value(object)
}

/// The buttons under the message that asks for an approval.
pub fn approval_keyboard(id: &str) -> (keyboard: serde_json::Value)
    ensures
        value_view(keyboard) == keyboard_of(id@),
{
    let mut row: Vec<serde_json::Value> = Vec::new();
    row.push(button_value("Approve", "approve", id));
    row.push(button_value("Deny", "deny", id));
    row.push(button_value("Steer", "steer", id));
    assert(values_view(row@) =~= seq![
        button("Approve"@, "approve"@, id@),
        button("Deny"@, "deny"@, id@),
        button("Steer"@, "steer"@, id@),
    ]);
    let mut rows: Vec<serde_json::Value> = Vec::new();
    let row_value = array_value(row);
    rows.push(row_value);
    assert(values_view(rows@) =~= seq![value_view(row_value)]);
    let mut object = object_new();
    object_insert(&mut object, "inline_keyboard", array_value(rows));
    object_value(object)
}

/// The message that asks for an approval.
pub fn approval_prompt(summary_markdown: &str, proposed_reply: &str) -> (prompt: String)
    ensures
        prompt@ == prompt_of(summary_markdown@, proposed_reply@),
{
    let mut prompt = summary_markdown.to_string();
    prompt.append("\n\n---\n\n**Proposed reply**\n\n");
    let reply = trimmed_text(proposed_reply);
    prompt.append(reply.as_str());
    prompt
}

/// What the operator decided, where nobody can tell any more: a denial.
pub fn outcome_or_denied(outcome: Option<ApprovalOutcome>) -> (decided: ApprovalOutcome)
    ensures
        decided@ == match outcome {
            Some(found) => found@,
            None => OutcomeView::Denied,
        },
{
    match outcome {
        Some(found) => found,
        None => ApprovalOutcome::Denied,
    }
}

// ---------------------------------------------------------------------------
// The state
// ---------------------------------------------------------------------------
/// The approvals that are not decided, and the steering messages that are
/// expected.
pub struct ApprovalManager {
    pending: TextMap<PendingApproval>,
    awaiting_steer: KeyedMap<SteerKey, String>,
}

/// `ApprovalManager` as a mathematical value.
#[verifier::ext_equal]
pub struct ApprovalsView {
    pub pending: Map<Seq<char>, PendingApproval>,
    pub awaiting: Map<SteerKey, Seq<char>>,
}

/// The expected steering messages, as texts.
spec fn awaiting_view(map: Map<SteerKey, String>) -> Map<SteerKey, Seq<char>> {
    Map::new(|key: SteerKey| map.contains_key(key), |key: SteerKey| map[key]@)
}

impl View for ApprovalManager {
    type V = ApprovalsView;

    closed spec fn view(&self) -> ApprovalsView {
        ApprovalsView { pending: self.pending@, awaiting: awaiting_view(self.awaiting_steer@) }
    }
}

/// What is to be done about an update. The keyboard of a message that is gone
/// stays as it is: removing it may fail.
#[derive(Debug)]
pub enum ApprovalAction {
    RemoveKeyboard { chat_id: i64, message_id: i64 },
    Resolve { approval_id: String, outcome: ApprovalOutcome },
    Answer { callback_id: String, text: String },
    Say { chat_id: i64, thread_id: Option<i64>, markdown: String },
}

/// `ApprovalAction` as a mathematical value.
#[verifier::ext_equal]
pub enum ActionView {
    RemoveKeyboard { chat_id: i64, message_id: i64 },
    Resolve { approval_id: Seq<char>, outcome: OutcomeView },
    Answer { callback_id: Seq<char>, text: Seq<char> },
    Say { chat_id: i64, thread_id: Option<i64>, markdown: Seq<char> },
}

impl View for ApprovalAction {
    type V = ActionView;

    open spec fn view(&self) -> ActionView {
        match *self {
            ApprovalAction::RemoveKeyboard { chat_id, message_id } => ActionView::RemoveKeyboard {
                chat_id,
                message_id,
            },
            ApprovalAction::Resolve { approval_id, outcome } => ActionView::Resolve {
                approval_id: approval_id@,
                outcome: outcome@,
            },
            ApprovalAction::Answer { callback_id, text } => ActionView::Answer {
                callback_id: callback_id@,
                text: text@,
            },
            ApprovalAction::Say { chat_id, thread_id, markdown } => ActionView::Say {
                chat_id,
                thread_id,
                markdown: markdown@,
            },
        }
    }
}

/// The view of a list of actions.
pub open spec fn actions_view(actions: Seq<ApprovalAction>) -> Seq<ActionView> {
    Seq::new(actions.len(), |i: int| actions[i]@)
}

/// Whether an update concerned approvals, and what is to be done about it, in
/// order.
#[derive(Debug)]
pub struct ApprovalReply {
    pub handled: bool,
    pub actions: Vec<ApprovalAction>,
}

/// The approvals after an update, and what is to be done about it.
#[verifier::ext_equal]
pub struct ApprovalStep {
    pub next: ApprovalsView,
    pub handled: bool,
    pub actions: Seq<ActionView>,
}

// ---------------------------------------------------------------------------
// Buttons
// ---------------------------------------------------------------------------
/// The action and the approval in the data of a button.
pub open spec fn button_parts(data: Seq<char>) -> (Seq<char>, Seq<char>) {
    let rest = data.skip(4);
    match index_from(rest, 0, ':') {
        Some(at) => (rest.take(at), rest.skip(at + 1)),
        None => (rest, seq![]),
    }
}

/// Nothing but an answer to the button.
pub open spec fn only_answer(state: ApprovalsView, callback_id: Seq<char>, text: Seq<char>) -> ApprovalStep {
    ApprovalStep {
        next: state,
        handled: true,
        actions: seq![ActionView::Answer { callback_id, text }],
    }
}

/// The approval `id` is decided.
pub open spec fn decided(
    state: ApprovalsView,
    callback_id: Seq<char>,
    id: Seq<char>,
    outcome: OutcomeView,
    answer: Seq<char>,
) -> ApprovalStep {
    if state.pending.contains_key(id) {
        let entry = state.pending[id];
        ApprovalStep {
            next: ApprovalsView { pending: state.pending.remove(id), awaiting: state.awaiting },
            handled: true,
            actions: seq![
                ActionView::RemoveKeyboard {
                    chat_id: entry.operator_target.chat_id,
                    message_id: entry.operator_message_id,
                },
                ActionView::Resolve { approval_id: id, outcome },
                ActionView::Answer { callback_id, text: answer },
            ],
        }
    } else {
        only_answer(state, callback_id, "Approval expired."@)
    }
}

/// The place in which the user who pressed a button is expected to write.
pub open spec fn steer_place(callback: TelegramCallbackQuery) -> Option<SteerKey> {
    match callback.message {
        Some(message) => Some(
            SteerKey {
                chat_id: message.chat.id,
                thread_id: message.message_thread_id,
                user_id: callback.from.id,
            },
        ),
        None => None,
    }
}

/// A steering message for the approval `id` is expected.
pub open spec fn steering(
    state: ApprovalsView,
    callback: TelegramCallbackQuery,
    id: Seq<char>,
) -> ApprovalStep {
    if !state.pending.contains_key(id) {
        only_answer(state, callback.id@, "Approval expired."@)
    } else {
        match steer_place(callback) {
            None => only_answer(state, callback.id@, "Steer is unavailable here."@),
            Some(key) => {
                let entry = state.pending[id];
                ApprovalStep {
                    next: ApprovalsView {
                        pending: state.pending,
                        awaiting: state.awaiting.insert(key, id),
                    },
                    handled: true,
                    actions: seq![
                        ActionView::RemoveKeyboard {
                            chat_id: entry.operator_target.chat_id,
                            message_id: entry.operator_message_id,
                        },
                        ActionView::Answer {
                            callback_id: callback.id@,
                            text: "Send your steering message next."@,
                        },
                        ActionView::Say {
                            chat_id: key.chat_id,
                            thread_id: key.thread_id,
                            markdown:
                                "Send your steering feedback as the next text message in this chat."@,
                        },
                    ],
                }
            },
        }
    }
}

/// The approvals after a button was pressed.
pub open spec fn after_button(
    state: ApprovalsView,
    callback: TelegramCallbackQuery,
    allowed: Seq<i64>,
) -> ApprovalStep {
    match callback.data {
        Some(data) => {
            let (action, id) = button_parts(data@);
            if !"apr:"@.is_prefix_of(data@) {
                ApprovalStep { next: state, handled: false, actions: seq![] }
            } else if !is_allowed(allowed, callback.from.id) {
                only_answer(state, callback.id@, "Not allowed."@)
            } else if id.len() == 0 {
                only_answer(state, callback.id@, "Malformed approval."@)
            } else if action == "approve"@ {
                decided(state, callback.id@, id, OutcomeView::Approved, "Approved."@)
            } else if action == "deny"@ {
                decided(state, callback.id@, id, OutcomeView::Denied, "Denied."@)
            } else if action == "steer"@ {
                steering(state, callback, id)
            } else {
                only_answer(state, callback.id@, "Unknown action."@)
            }
        },
        None => ApprovalStep { next: state, handled: false, actions: seq![] },
    }
}

// ---------------------------------------------------------------------------
// Steering messages
// ---------------------------------------------------------------------------
/// The place in which a message was written, and by whom.
pub open spec fn message_place(message: TelegramMessage, user_id: i64) -> SteerKey {
    SteerKey {
        chat_id: message.chat.id,
        thread_id: message.message_thread_id,
        user_id,
    }
}

/// The approvals after the message `message` of the user `user_id`, who may
/// use the bot.
pub open spec fn after_words(
    state: ApprovalsView,
    message: TelegramMessage,
    user_id: i64,
) -> ApprovalStep {
    let key = message_place(message, user_id);
    if !state.awaiting.contains_key(key) {
        ApprovalStep { next: state, handled: false, actions: seq![] }
    } else {
        match trimmed_ink(opt_view(message.text)) {
            None => ApprovalStep {
                next: state,
                handled: true,
                actions: seq![
                    ActionView::Say {
                        chat_id: message.chat.id,
                        thread_id: message.message_thread_id,
                        markdown: "Please send a text steering message."@,
                    },
                ],
            },
            Some(words) => {
                let id = state.awaiting[key];
                let said = ActionView::Say {
                    chat_id: message.chat.id,
                    thread_id: message.message_thread_id,
                    markdown: "Got it. Revising with your steering feedback."@,
                };
                ApprovalStep {
                    next: ApprovalsView {
                        pending: state.pending.remove(id),
                        awaiting: state.awaiting.remove(key),
                    },
                    handled: true,
                    actions: if state.pending.contains_key(id) {
                        seq![
                            ActionView::Resolve {
                                approval_id: id,
                                outcome: OutcomeView::Steer(words),
                            },
                            said,
                        ]
                    } else {
                        seq![said]
                    },
                }
            },
        }
    }
}

/// The approvals after a message of an update.
pub open spec fn after_message(
    state: ApprovalsView,
    update: TelegramUpdate,
    allowed: Seq<i64>,
) -> ApprovalStep {
    let ignored = ApprovalStep { next: state, handled: false, actions: seq![] };
    match message_of(update) {
        Some(message) => match message.from {
            Some(user) => if is_allowed(allowed, user.id) {
                after_words(state, message, user.id)
            } else {
                ignored
            },
            None => ignored,
        },
        None => ignored,
    }
}

/// The approvals after an update.
pub open spec fn after_update(
    state: ApprovalsView,
    update: TelegramUpdate,
    allowed: Seq<i64>,
) -> ApprovalStep {
    match update.callback_query {
        Some(callback) => after_button(state, callback, allowed),
        None => after_message(state, update, allowed),
    }
}

// ---------------------------------------------------------------------------
// The manager
// ---------------------------------------------------------------------------
fn ignored_reply() -> (reply: ApprovalReply)
    ensures
        !reply.handled,
        actions_view(reply.actions@) == Seq::<ActionView>::empty(),
{
    let reply = ApprovalReply { handled: false, actions: Vec::new() };
    assert(actions_view(reply.actions@) =~= Seq::<ActionView>::empty());
    reply
}

fn answer_reply(callback_id: &str, text: &str) -> (reply: ApprovalReply)
    ensures
        reply.handled,
        actions_view(reply.actions@) == seq![
            ActionView::Answer { callback_id: callback_id@, text: text@ },
        ],
{
    let mut actions: Vec<ApprovalAction> = Vec::new();
    actions.push(
        ApprovalAction::Answer { callback_id: callback_id.to_string(), text: text.to_string() },
    );
    assert(actions_view(actions@) =~= seq![
        ActionView::Answer { callback_id: callback_id@, text: text@ },
    ]);
    ApprovalReply { handled: true, actions }
}

/// The action and the approval in the data of a button.
fn parse_button(data: &str) -> (parts: (String, String))
    requires
        data@.len() >= 4,
    ensures
        parts.0@ == button_parts(data@).0,
        parts.1@ == button_parts(data@).1,
{
    let chars = chars_of(data);
    let rest = slice_subrange(chars.as_slice(), 4, chars.len());
    assert(rest@ =~= data@.skip(4));
    match find_char(rest, 0, ':') {
        Some(at) => {
            let action = slice_subrange(rest, 0, at);
            let id = slice_subrange(rest, at + 1, rest.len());
            assert(action@ =~= rest@.take(at as int));
            assert(id@ =~= rest@.skip(at + 1));
            (string_of(action), string_of(id))
        },
        None => (string_of(rest), String::new()),
    }
}

impl ApprovalManager {
    /// No approvals.
    pub fn new() -> (manager: Self)
        ensures
            manager@ == (ApprovalsView { pending: Map::empty(), awaiting: Map::empty() }),
    {
        let manager = ApprovalManager { pending: TextMap::new(), awaiting_steer: KeyedMap::new() };
        assert(manager@.awaiting =~= Map::<SteerKey, Seq<char>>::empty());
        manager
    }

    /// Asks for an approval under the id `approval_id`.
    pub fn request_with_id(
        approval_id: String,
        target: OperatorTarget,
        summary_markdown: &str,
        proposed_reply: &str,
    ) -> (request: ApprovalRequest)
        ensures
            request.approval_id@ == approval_id@,
            request.target == target,
            request.prompt_markdown@ == prompt_of(summary_markdown@, proposed_reply@),
            value_view(request.keyboard) == keyboard_of(approval_id@),
    {
        let keyboard = approval_keyboard(approval_id.as_str());
        ApprovalRequest {
            approval_id,
            target,
            prompt_markdown: approval_prompt(summary_markdown, proposed_reply),
            keyboard,
        }
    }

    /// Asks for an approval under a fresh id. Once the message is sent, the
    /// approval is registered with the message's id.
    pub fn request(target: OperatorTarget, summary_markdown: &str, proposed_reply: &str) -> (request:
        ApprovalRequest)
        ensures
            is_simple_id(request.approval_id@),
            request.target == target,
            request.prompt_markdown@ == prompt_of(summary_markdown@, proposed_reply@),
            value_view(request.keyboard) == keyboard_of(request.approval_id@),
    {
        ApprovalManager::request_with_id(
            new_simple_id(),
            target,
            summary_markdown,
            proposed_reply,
        )
    }

    /// The message that asks for the approval was sent.
    pub fn register(&mut self, approval_id: String, target: OperatorTarget, message_id: i64)
        ensures
            final(self)@ == (ApprovalsView {
                pending: old(self)@.pending.insert(
                    approval_id@,
                    (PendingApproval { operator_target: target, operator_message_id: message_id }),
                ),
                awaiting: old(self)@.awaiting,
            }),
    {
        self.pending.insert(
            approval_id,
            PendingApproval { operator_target: target, operator_message_id: message_id },
        );
    }

    /// Whether the approval waits for a decision.
    pub fn is_pending(&self, approval_id: &str) -> (yes: bool)
        ensures
            yes == self@.pending.contains_key(approval_id@),
    {
        self.pending.contains_key(approval_id)
    }

    fn decide(
        &mut self,
        callback_id: &str,
        approval_id: &str,
        outcome: ApprovalOutcome,
        answer: &str,
    ) -> (reply: ApprovalReply)
        ensures
            ({
                let step = decided(
                    old(self)@,
                    callback_id@,
                    approval_id@,
                    outcome@,
                    answer@,
                );
                &&& final(self)@ == step.next
                &&& reply.handled == step.handled
                &&& actions_view(reply.actions@) == step.actions
            }),
    {
        let ghost step = decided(self@, callback_id@, approval_id@, outcome@, answer@);
        let pending = match self.pending.remove(approval_id) {
            Some(pending) => pending,
            None => {
                assert(self@.pending =~= step.next.pending);
                return answer_reply(callback_id, "Approval expired.");
            },
        };
        let mut actions: Vec<ApprovalAction> = Vec::new();
        actions.push(
            ApprovalAction::RemoveKeyboard {
                chat_id: pending.operator_target.chat_id,
                message_id: pending.operator_message_id,
            },
        );
        actions.push(ApprovalAction::Resolve { approval_id: approval_id.to_string(), outcome });
        actions.push(
            ApprovalAction::Answer {
                callback_id: callback_id.to_string(),
                text: answer.to_string(),
            },
        );
        assert(actions_view(actions@) =~= step.actions);
        ApprovalReply { handled: true, actions }
    }

    fn expect_steer(&mut self, callback: &TelegramCallbackQuery, approval_id: &str) -> (reply:
        ApprovalReply)
        ensures
            ({
                let step = steering(old(self)@, *callback, approval_id@);
                &&& final(self)@ == step.next
                &&& reply.handled == step.handled
                &&& actions_view(reply.actions@) == step.actions
            }),
    {
        let ghost step = steering(self@, *callback, approval_id@);
        let entry = match self.pending.get(approval_id) {
            Some(entry) => *entry,
            None => return answer_reply(callback.id.as_str(), "Approval expired."),
        };
        let key = match &callback.message {
            Some(message) => SteerKey {
                chat_id: message.chat.id,
                thread_id: message.message_thread_id,
                user_id: callback.from.id,
            },
            None => return answer_reply(callback.id.as_str(), "Steer is unavailable here."),
        };
        let ghost before = self.awaiting_steer@;
        self.awaiting_steer.insert(key, approval_id.to_string());
        assert(awaiting_view(self.awaiting_steer@) =~= awaiting_view(before).insert(
            key,
            approval_id@,
        ));
        let mut actions: Vec<ApprovalAction> = Vec::new();
        actions.push(
            ApprovalAction::RemoveKeyboard {
                chat_id: entry.operator_target.chat_id,
                message_id: entry.operator_message_id,
            },
        );
        actions.push(
            ApprovalAction::Answer {
                callback_id: callback.id.clone(),
                text: "Send your steering message next.".to_string(),
            },
        );
        actions.push(
            ApprovalAction::Say {
                chat_id: key.chat_id,
                thread_id: key.thread_id,
                markdown: "Send your steering feedback as the next text message in this chat.".to_string(),
            },
        );
        assert(actions_view(actions@) =~= step.actions);
        ApprovalReply { handled: true, actions }
    }

    /// Handles a button that was pressed.
    pub fn handle_callback_query(
        &mut self,
        callback: &TelegramCallbackQuery,
        allowed_users: &[i64],
    ) -> (reply: ApprovalReply)
        ensures
            ({
                let step = after_button(old(self)@, *callback, allowed_users@);
                &&& final(self)@ == step.next
                &&& reply.handled == step.handled
                &&& actions_view(reply.actions@) == step.actions
            }),
    {
        let data = match &callback.data {
            Some(data) => data.as_str(),
            None => return ignored_reply(),
        };
        if !text_starts_with(data, "apr:") {
            return ignored_reply();
        }
        if !user_allowed(allowed_users, callback.from.id) {
            return answer_reply(callback.id.as_str(), "Not allowed.");
        }
        proof {
            reveal_strlit("apr:");
        }
        let (action, approval_id) = parse_button(data);
        if approval_id.as_str().is_empty() {
            return answer_reply(callback.id.as_str(), "Malformed approval.");
        }
        if same_text(action.as_str(), "approve") {
            self.decide(
                callback.id.as_str(),
                approval_id.as_str(),
                ApprovalOutcome::Approved,
                "Approved.",
            )
        } else if same_text(action.as_str(), "deny") {
            self.decide(
                callback.id.as_str(),
                approval_id.as_str(),
                ApprovalOutcome::Denied,
                "Denied.",
            )
        } else if same_text(action.as_str(), "steer") {
            self.expect_steer(callback, approval_id.as_str())
        } else {
            answer_reply(callback.id.as_str(), "Unknown action.")
        }
    }

    /// Handles a message that may steer.
    pub fn handle_steer_message(&mut self, update: &TelegramUpdate, allowed_users: &[i64]) -> (reply:
        ApprovalReply)
        ensures
            ({
                let step = after_message(old(self)@, *update, allowed_users@);
                &&& final(self)@ == step.next
                &&& reply.handled == step.handled
                &&& actions_view(reply.actions@) == step.actions
            }),
    {
        let ghost step = after_message(self@, *update, allowed_users@);
        let message = match update.any_message() {
            Some(message) => message,
            None => return ignored_reply(),
        };
        let user_id = match &message.from {
            Some(user) => user.id,
            None => return ignored_reply(),
        };
        if !user_allowed(allowed_users, user_id) {
            return ignored_reply();
        }
        let key = SteerKey {
            chat_id: message.chat.id,
            thread_id: message.message_thread_id,
            user_id,
        };
        let ghost before = self.awaiting_steer@;
        let approval_id = match self.awaiting_steer.remove(&key) {
            Some(approval_id) => approval_id,
            None => {
                assert(awaiting_view(self.awaiting_steer@) =~= awaiting_view(before));
                return ignored_reply();
            },
        };
        let mut actions: Vec<ApprovalAction> = Vec::new();
        let words = match ink_of(&message.text) {
            Some(words) => words,
            None => {
                self.awaiting_steer.insert(key, approval_id);
                assert(awaiting_view(self.awaiting_steer@) =~= awaiting_view(before));
                actions.push(
                    ApprovalAction::Say {
                        chat_id: message.chat.id,
                        thread_id: message.message_thread_id,
                        markdown: "Please send a text steering message.".to_string(),
                    },
                );
                assert(actions_view(actions@) =~= step.actions);
                return ApprovalReply { handled: true, actions };
            },
        };
        assert(awaiting_view(self.awaiting_steer@) =~= awaiting_view(before).remove(key));
        let ghost id = approval_id@;
        if self.pending.remove(approval_id.as_str()).is_some() {
            actions.push(
                ApprovalAction::Resolve { approval_id, outcome: ApprovalOutcome::Steer(words) },
            );
        }
        actions.push(
            ApprovalAction::Say {
                chat_id: message.chat.id,
                thread_id: message.message_thread_id,
                markdown: "Got it. Revising with your steering feedback.".to_string(),
            },
        );
        assert(actions_view(actions@) =~= step.actions);
        ApprovalReply { handled: true, actions }
    }

    /// Handles an update: a button before a message.
    pub fn handle_update(&mut self, update: &TelegramUpdate, allowed_users: &[i64]) -> (reply:
        ApprovalReply)
        ensures
            ({
                let step = after_update(old(self)@, *update, allowed_users@);
                &&& final(self)@ == step.next
                &&& reply.handled == step.handled
                &&& actions_view(reply.actions@) == step.actions
            }),
    {
        match &update.callback_query {
            Some(callback) => self.handle_callback_query(callback, allowed_users),
            None => self.handle_steer_message(update, allowed_users),
        }
    }
}

// ---------------------------------------------------------------------------
// What approvals promise
// ---------------------------------------------------------------------------
/// Whether an action decides the approval `id`.
pub open spec fn resolves(action: ActionView, id: Seq<char>) -> bool {
    match action {
        ActionView::Resolve { approval_id, .. } => approval_id == id,
        _ => false,
    }
}

/// An approval is decided at most once: only one that waits is decided, it
/// waits no longer afterwards, and an update decides at most one.
pub proof fn law_decided_once(state: ApprovalsView, update: TelegramUpdate, allowed: Seq<i64>)
    ensures
        ({
            let step = after_update(state, update, allowed);
            &&& forall|i: int, id: Seq<char>|
                0 <= i < step.actions.len() && resolves(#[trigger] step.actions[i], id)
                    ==> state.pending.contains_key(id) && !(#[trigger] step.next.pending.contains_key(
                    id,
                ))
            &&& forall|i: int, j: int|
                0 <= i < j < step.actions.len() ==> !(#[trigger] step.actions[i] is Resolve
                    && #[trigger] step.actions[j] is Resolve)
        }),
{
}

/// An approval that waits stays as it is, unless the update decides it.
pub proof fn law_undecided_wait(
    state: ApprovalsView,
    update: TelegramUpdate,
    allowed: Seq<i64>,
    id: Seq<char>,
)
    requires
        state.pending.contains_key(id),
        forall|i: int|
            0 <= i < after_update(state, update, allowed).actions.len() ==> !resolves(
                #[trigger] after_update(state, update, allowed).actions[i],
                id,
            ),
    ensures
        after_update(state, update, allowed).next.pending.contains_key(id),
        after_update(state, update, allowed).next.pending[id] == state.pending[id],
{
    let step = after_update(state, update, allowed);
    if !step.next.pending.contains_key(id) {
        match update.callback_query {
            Some(callback) => {
                assert(resolves(step.actions[1], id));
            },
            None => {
                assert(resolves(step.actions[0], id));
            },
        }
        assert(false);
    }
}

/// The user of an update.
pub open spec fn user_of(update: TelegramUpdate) -> Option<i64> {
    match update.callback_query {
        Some(callback) => Some(callback.from.id),
        None => match message_of(update) {
            Some(message) => match message.from {
                Some(user) => Some(user.id),
                None => None,
            },
            None => None,
        },
    }
}

/// An update of a user who may not use the bot changes nothing and decides
/// nothing: at most, the button is answered.
pub proof fn law_strangers_decide_nothing(
    state: ApprovalsView,
    update: TelegramUpdate,
    allowed: Seq<i64>,
)
    requires
        user_of(update) matches Some(id) ==> !is_allowed(allowed, id),
    ensures
        after_update(state, update, allowed).next == state,
        forall|i: int|
            0 <= i < after_update(state, update, allowed).actions.len() ==> #[trigger] after_update(
                state,
                update,
                allowed,
            ).actions[i] is Answer,
{
}

/// The data of a button says again what it was made of.
pub proof fn law_button_data_reads_back(action: Seq<char>, id: Seq<char>)
    requires
        !action.contains(':'),
    ensures
        "apr:"@.is_prefix_of(button_data(action, id)),
        button_parts(button_data(action, id)) == (action, id),
{
    reveal_strlit("apr:");
    reveal_strlit(":");
    let data = button_data(action, id);
    assert("apr:"@ =~= data.take(4));
    let rest = data.skip(4);
    assert(rest =~= action + ":"@ + id);
    assert forall|k: int| 0 <= k < action.len() implies other_than(':')(#[trigger] rest[k]) by {
        assert(rest[k] == action[k]);
        assert(action.contains(action[k]));
    }
    lemma_run_end_is(rest, 0, other_than(':'), action.len() as int);
    assert(rest.take(action.len() as int) =~= action);
    assert(rest.skip(action.len() as int + 1) =~= id);
}

/// The actions of buttons hold no colon, and no two are the same.
proof fn lemma_button_actions()
    ensures
        !"approve"@.contains(':'),
        !"deny"@.contains(':'),
        !"steer"@.contains(':'),
        "approve"@ != "deny"@,
        "approve"@ != "steer"@,
        "deny"@ != "steer"@,
{
    reveal_strlit("approve");
    reveal_strlit("deny");
    reveal_strlit("steer");
    assert("approve"@.len() != "deny"@.len());
    assert("approve"@.len() != "steer"@.len());
    assert("deny"@.len() != "steer"@.len());
}

/// The buttons of an approval that waits decide it: one approves, one denies.
pub proof fn law_buttons_decide(
    state: ApprovalsView,
    callback: TelegramCallbackQuery,
    allowed: Seq<i64>,
    id: Seq<char>,
)
    requires
        state.pending.contains_key(id),
        id.len() > 0,
        is_allowed(allowed, callback.from.id),
    ensures
        opt_view(callback.data) == Some(button_data("approve"@, id)) ==> after_button(
            state,
            callback,
            allowed,
        ) == decided(state, callback.id@, id, OutcomeView::Approved, "Approved."@),
        opt_view(callback.data) == Some(button_data("deny"@, id)) ==> after_button(
            state,
            callback,
            allowed,
        ) == decided(state, callback.id@, id, OutcomeView::Denied, "Denied."@),
        opt_view(callback.data) == Some(button_data("steer"@, id)) ==> after_button(
            state,
            callback,
            allowed,
        ) == steering(state, callback, id),
{
    lemma_button_actions();
    if opt_view(callback.data) == Some(button_data("approve"@, id)) {
        law_button_data_reads_back("approve"@, id);
    } else if opt_view(callback.data) == Some(button_data("deny"@, id)) {
        law_button_data_reads_back("deny"@, id);
    } else if opt_view(callback.data) == Some(button_data("steer"@, id)) {
        law_button_data_reads_back("steer"@, id);
    }
    if button_data("approve"@, id) == button_data("deny"@, id) || button_data("approve"@, id)
        == button_data("steer"@, id) || button_data("deny"@, id) == button_data("steer"@, id) {
        law_button_data_reads_back("approve"@, id);
        law_button_data_reads_back("deny"@, id);
        law_button_data_reads_back("steer"@, id);
    }
}

/// After the steering button of an approval, the next words of the same user
/// in the same place decide it, with these words.
pub proof fn law_steering_decides(
    state: ApprovalsView,
    callback: TelegramCallbackQuery,
    id: Seq<char>,
    message: TelegramMessage,
    words: Seq<char>,
)
    requires
        state.pending.contains_key(id),
        steer_place(callback) == Some(message_place(message, callback.from.id)),
        opt_view(message.text) == Some(words),
        has_ink(words),
    ensures
        ({
            let asked = steering(state, callback, id).next;
            let step = after_words(asked, message, callback.from.id);
            &&& step.handled
            &&& step.actions.len() == 2
            &&& step.actions[0] == (ActionView::Resolve {
                approval_id: id,
                outcome: OutcomeView::Steer(trim(words)),
            })
            &&& !step.next.pending.contains_key(id)
        }),
{
}

} // verus!
