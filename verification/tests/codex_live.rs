use codexclaw::channels::TurnOutput;
use codexclaw::codex::items::{
    next_text_chunk, parse_live_item, AgentMessageItem, AgentMessagePhase, PlanItem, ThreadItem,
};
use codexclaw::codex::live::{
    handle_live_notification, maybe_flush_on_successor_notification, queue_completed_text_item,
    replay_buffered_notifications, LiveNotificationOutcome, LiveTextState,
};
use codexclaw::codex::notifications::{
    classify_notification, matches_target_from_extra_strict, notification_successor_key,
    DeltaNotification, ErrorNotification, ItemLifecycleNotification, NotificationMatch,
    ServerNotification, Turn, TurnError, TurnNotification,
};
use codexclaw::codex::turn::{LiveTurn, LiveTurnEvent, LiveTurnProgress};
use codexclaw::collections::TextMap;
use serde_json::Value;

fn message(id: &str, text: &str, phase: Option<AgentMessagePhase>) -> ThreadItem {
    ThreadItem::AgentMessage(AgentMessageItem {
        id: id.to_string(),
        text: text.to_string(),
        phase,
    })
}

#[test]
fn streams_only_new_forwardable_agent_text() {
    let mut sent = TextMap::new();

    assert_eq!(
        next_text_chunk(
            &message("msg-1", "Looking up flights", Some(AgentMessagePhase::Commentary)),
            &mut sent
        )
        .as_deref(),
        Some("Looking up flights")
    );
    assert_eq!(
        next_text_chunk(
            &message(
                "msg-1",
                "Looking up flights...\nOpening browser",
                Some(AgentMessagePhase::Commentary)
            ),
            &mut sent
        )
        .as_deref(),
        Some("...\nOpening browser")
    );
    assert_eq!(
        next_text_chunk(
            &message(
                "msg-1",
                "Looking up flights...\nOpening browser",
                Some(AgentMessagePhase::Commentary)
            ),
            &mut sent
        ),
        None
    );
}

#[test]
fn falls_back_to_full_text_after_non_prefix_update() {
    let mut sent = TextMap::new();

    let _ = next_text_chunk(
        &message("msg-1", "Draft answer", Some(AgentMessagePhase::Commentary)),
        &mut sent,
    );

    assert_eq!(
        next_text_chunk(
            &message("msg-1", "Rewritten answer", Some(AgentMessagePhase::Commentary)),
            &mut sent
        )
        .as_deref(),
        Some("Rewritten answer")
    );
}

#[test]
fn ignores_non_forwardable_messages() {
    let mut sent = TextMap::new();

    assert_eq!(
        next_text_chunk(
            &message("msg-1", "", Some(AgentMessagePhase::Commentary)),
            &mut sent
        ),
        None
    );
    assert_eq!(
        next_text_chunk(
            &message("msg-1", "hidden", Some(AgentMessagePhase::Commentary)),
            &mut sent
        ),
        Some("hidden".to_string())
    );
    assert_eq!(
        next_text_chunk(
            &message("msg-2", "hidden", Some(AgentMessagePhase::Unknown)),
            &mut sent
        ),
        Some("hidden".to_string())
    );
    assert_eq!(
        next_text_chunk(&message("msg-3", "hidden", None), &mut sent),
        Some("hidden".to_string())
    );
}

#[test]
fn ignores_empty_messages() {
    let mut sent = TextMap::new();

    assert_eq!(
        next_text_chunk(
            &message("msg-2", "", Some(AgentMessagePhase::FinalAnswer)),
            &mut sent
        ),
        None
    );
}

#[test]
fn streams_plan_deltas() {
    let mut sent = TextMap::new();
    let first = ThreadItem::Plan(PlanItem {
        id: "plan-1".to_string(),
        text: "1. Gather context".to_string(),
    });
    let second = ThreadItem::Plan(PlanItem {
        id: "plan-1".to_string(),
        text: "1. Gather context\n2. Patch telegram bridge".to_string(),
    });

    assert_eq!(
        next_text_chunk(&first, &mut sent).as_deref(),
        Some("1. Gather context")
    );
    assert_eq!(
        next_text_chunk(&second, &mut sent).as_deref(),
        Some("\n2. Patch telegram bridge")
    );
}

#[test]
fn blank_growth_is_remembered_but_not_streamed() {
    let mut sent = TextMap::new();
    assert_eq!(next_text_chunk(&message("m", "a", None), &mut sent).as_deref(), Some("a"));
    assert_eq!(next_text_chunk(&message("m", "a \n", None), &mut sent), None);
    assert_eq!(next_text_chunk(&message("m", "a \nb", None), &mut sent).as_deref(), Some("b"));
    assert_eq!(next_text_chunk(&ThreadItem::Other, &mut sent), None);
}

fn live_extra(thread_id: &str, turn_id: &str) -> serde_json::Map<String, Value> {
    let mut extra = serde_json::Map::new();
    extra.insert("threadId".to_string(), Value::String(thread_id.to_string()));
    extra.insert("turnId".to_string(), Value::String(turn_id.to_string()));
    extra
}

fn object(entries: &[(&str, &str)]) -> Value {
    let mut object = serde_json::Map::new();
    for (key, value) in entries {
        object.insert(key.to_string(), Value::String(value.to_string()));
    }
    Value::Object(object)
}

fn agent_message_delta(item_id: &str) -> DeltaNotification {
    DeltaNotification {
        item_id: Some(item_id.to_string()),
    }
}

fn completed_agent_message(
    thread_id: &str,
    turn_id: &str,
    item_id: &str,
    phase: &str,
    text: &str,
) -> ItemLifecycleNotification {
    ItemLifecycleNotification {
        item: object(&[
            ("id", item_id),
            ("type", "agentMessage"),
            ("phase", phase),
            ("text", text),
        ]),
        extra: live_extra(thread_id, turn_id),
    }
}

fn completed_plan(
    thread_id: &str,
    turn_id: &str,
    item_id: &str,
    text: &str,
) -> ItemLifecycleNotification {
    ItemLifecycleNotification {
        item: object(&[("id", item_id), ("type", "plan"), ("text", text)]),
        extra: live_extra(thread_id, turn_id),
    }
}

fn started_dynamic_tool_call(
    thread_id: &str,
    turn_id: &str,
    item_id: &str,
    tool: &str,
) -> ItemLifecycleNotification {
    ItemLifecycleNotification {
        item: object(&[
            ("id", item_id),
            ("type", "dynamicToolCall"),
            ("tool", tool),
            ("status", "in_progress"),
        ]),
        extra: live_extra(thread_id, turn_id),
    }
}

fn turn_notification(id: &str, status: Option<&str>, error: Option<&str>) -> TurnNotification {
    let mut extra = serde_json::Map::new();
    extra.insert("threadId".to_string(), Value::String("thread-1".to_string()));
    TurnNotification {
        turn: Turn {
            id: id.to_string(),
            status: status.map(|status| status.to_string()),
            error: error.map(|message| TurnError {
                message: message.to_string(),
            }),
            extra,
        },
    }
}

fn error_notification(turn_id: &str, message: &str) -> ServerNotification {
    ServerNotification::Error(ErrorNotification {
        error: TurnError {
            message: message.to_string(),
        },
        extra: live_extra("thread-1", turn_id),
    })
}

fn markdown(text: &str, disable_notification: bool) -> TurnOutput {
    TurnOutput::Markdown {
        text: text.to_string(),
        disable_notification,
    }
}

#[test]
fn forwards_completed_intermediate_and_final_messages_but_not_deltas_or_plans() {
    let mut text_state = LiveTextState::new();
    let mut sink = Vec::new();
    let mut handle = |notification: ServerNotification, sink: &mut Vec<TurnOutput>| {
        handle_live_notification(&notification, "thread-1", "turn-1", &mut text_state, sink)
            .expect("outcome")
    };

    handle(
        ServerNotification::ItemAgentMessageDelta(agent_message_delta("msg-1")),
        &mut sink,
    );
    handle(
        ServerNotification::ItemPlanDelta(agent_message_delta("plan-1")),
        &mut sink,
    );
    assert!(sink.is_empty(), "plan deltas must stay internal too");

    handle(
        ServerNotification::ItemCompleted(completed_agent_message(
            "thread-1",
            "turn-1",
            "msg-1",
            "commentary",
            "Отправляю STEP_ONE",
        )),
        &mut sink,
    );
    assert_eq!(sink, vec![markdown("Отправляю STEP_ONE", true)]);

    handle(
        ServerNotification::ItemCompleted(completed_agent_message(
            "thread-1",
            "turn-1",
            "msg-2",
            "commentary",
            "Отправляю STEP_TWO",
        )),
        &mut sink,
    );
    assert_eq!(sink.len(), 2);
    assert_eq!(sink[1], markdown("Отправляю STEP_TWO", true));

    handle(
        ServerNotification::ItemCompleted(completed_plan(
            "thread-1",
            "turn-1",
            "plan-1",
            "1. Найти файл",
        )),
        &mut sink,
    );
    assert_eq!(
        sink.len(),
        2,
        "non-agent completions must not emit extra Telegram messages"
    );

    handle(
        ServerNotification::ItemCompleted(completed_agent_message(
            "thread-1",
            "turn-1",
            "msg-3",
            "final_answer",
            "Готовый финальный ответ",
        )),
        &mut sink,
    );
    assert_eq!(sink.len(), 3);
    assert_eq!(sink[2], markdown("Готовый финальный ответ", false));
}

#[test]
fn flushes_completed_commentary_on_next_tool_lifecycle_event() {
    let mut text_state = LiveTextState::new();
    let mut sink = Vec::new();

    handle_live_notification(
        &ServerNotification::ItemCompleted(completed_agent_message(
            "thread-1",
            "turn-1",
            "msg-1",
            "commentary",
            "Checking the external source now",
        )),
        "thread-1",
        "turn-1",
        &mut text_state,
        &mut sink,
    )
    .expect("outcome");
    assert_eq!(sink, vec![markdown("Checking the external source now", true)]);

    maybe_flush_on_successor_notification(
        &ServerNotification::ItemStarted(started_dynamic_tool_call(
            "thread-1", "turn-1", "tool-1", "time",
        )),
        &mut text_state,
        &mut sink,
    );
    assert_eq!(
        sink.len(),
        1,
        "successor notifications should not duplicate already flushed commentary"
    );
}

#[test]
fn waiting_messages_are_sent_before_others() {
    let mut state = LiveTextState::new();
    let mut sink = Vec::new();
    queue_completed_text_item(&mut state, "agent:a".to_string(), message("a", "one", None), &mut sink);
    queue_completed_text_item(&mut state, "agent:a".to_string(), message("a", "two", None), &mut sink);
    assert!(sink.is_empty());
    let same = ServerNotification::ItemReasoningTextDelta(agent_message_delta("a"));
    maybe_flush_on_successor_notification(&same, &mut state, &mut sink);
    assert!(sink.is_empty());
    queue_completed_text_item(&mut state, "agent:b".to_string(), message("b", "three", None), &mut sink);
    assert_eq!(sink, vec![markdown("two", false)]);
    maybe_flush_on_successor_notification(&ServerNotification::Other, &mut state, &mut sink);
    assert_eq!(sink.len(), 2);
    queue_completed_text_item(&mut state, "agent:b".to_string(), message("b", "late", None), &mut sink);
    maybe_flush_on_successor_notification(&ServerNotification::Unknown, &mut state, &mut sink);
    assert_eq!(sink.len(), 2);
}

#[test]
fn strict_target_matching_requires_both_thread_and_turn_ids() {
    let extra = live_extra("thread-1", "turn-1");
    assert!(matches_target_from_extra_strict(&extra, "thread-1", "turn-1"));
    assert!(!matches_target_from_extra_strict(&extra, "thread-2", "turn-1"));
    assert!(!matches_target_from_extra_strict(&extra, "thread-1", "turn-2"));

    let mut missing_turn = serde_json::Map::new();
    missing_turn.insert("threadId".to_string(), Value::String("thread-1".to_string()));
    assert!(!matches_target_from_extra_strict(&missing_turn, "thread-1", "turn-1"));

    let mut missing_thread = serde_json::Map::new();
    missing_thread.insert("turnId".to_string(), Value::String("turn-1".to_string()));
    assert!(!matches_target_from_extra_strict(&missing_thread, "thread-1", "turn-1"));
}

#[test]
fn items_are_parsed_by_type() {
    assert_eq!(
        parse_live_item(&object(&[("id", "m"), ("type", "agentMessage"), ("phase", "later")])),
        Some(message("m", "", Some(AgentMessagePhase::Unknown)))
    );
    assert_eq!(
        parse_live_item(&object(&[("type", "plan"), ("text", "t")])),
        Some(ThreadItem::Plan(PlanItem {
            id: String::new(),
            text: "t".to_string()
        }))
    );
    assert_eq!(parse_live_item(&object(&[("id", "m"), ("type", "reasoning")])), None);
    assert_eq!(parse_live_item(&object(&[("id", "m")])), None);
    assert_eq!(parse_live_item(&Value::Null), None);
}

#[test]
fn notifications_are_told_apart_by_their_item() {
    let started = ServerNotification::ItemStarted(completed_agent_message("t", "u", "m", "", ""));
    assert_eq!(notification_successor_key(&started).as_deref(), Some("agent:m"));
    let tool = ServerNotification::ItemStarted(started_dynamic_tool_call("t", "u", "x", "time"));
    assert_eq!(notification_successor_key(&tool), None);
    let delta = ServerNotification::ItemFileChangeOutputDelta(agent_message_delta("x"));
    assert_eq!(notification_successor_key(&delta).as_deref(), Some("agent:x"));
    assert_eq!(
        notification_successor_key(&ServerNotification::TurnDiffUpdated).as_deref(),
        Some("__different-successor__")
    );
    assert_eq!(notification_successor_key(&ServerNotification::Other), None);
}

#[test]
fn notifications_of_the_thread_are_kept() {
    let completed = ServerNotification::TurnCompleted(turn_notification("turn-1", None, None));
    assert_eq!(
        classify_notification(&completed, "thread-1"),
        NotificationMatch::CurrentThreadBuffered
    );
    assert_eq!(classify_notification(&completed, "thread-2"), NotificationMatch::Ignore);
    let started = ServerNotification::ItemStarted(completed_plan("thread-1", "turn-1", "p", "x"));
    assert_eq!(classify_notification(&started, "thread-1"), NotificationMatch::Ignore);
}

#[test]
fn replay_handles_everything_that_was_kept() {
    let mut state = LiveTextState::new();
    let mut sink = Vec::new();
    let kept = vec![
        ServerNotification::TurnCompleted(turn_notification("turn-1", Some("completed"), None)),
        ServerNotification::ItemCompleted(completed_agent_message(
            "thread-1", "turn-1", "m", "final_answer", "done",
        )),
    ];
    let over = replay_buffered_notifications(&kept, "thread-1", "turn-1", &mut state, &mut sink);
    assert_eq!(over, Ok(true));
    assert_eq!(sink, vec![markdown("done", false)]);

    let failing = vec![
        error_notification("turn-1", "no quota"),
        ServerNotification::ItemCompleted(completed_agent_message(
            "thread-1", "turn-1", "n", "final_answer", "late",
        )),
    ];
    let over = replay_buffered_notifications(&failing, "thread-1", "turn-1", &mut state, &mut sink);
    assert_eq!(over, Err("no quota".to_string()));
    assert_eq!(sink.len(), 1);
}

#[test]
fn failed_turns_report_why() {
    let mut state = LiveTextState::new();
    let mut sink = Vec::new();
    let mut outcome = |notification: ServerNotification| {
        handle_live_notification(&notification, "thread-1", "turn-1", &mut state, &mut sink)
    };
    assert_eq!(
        outcome(ServerNotification::TurnCompleted(turn_notification(
            "turn-1",
            Some("FAILED"),
            Some("out of luck")
        ))),
        Err("out of luck".to_string())
    );
    assert_eq!(
        outcome(ServerNotification::TurnCompleted(turn_notification("turn-1", Some("failed"), None))),
        Err("turn failed".to_string())
    );
    assert_eq!(
        outcome(ServerNotification::TurnCompleted(turn_notification("turn-2", Some("failed"), None))),
        Ok(LiveNotificationOutcome::Continue)
    );
    assert_eq!(
        outcome(ServerNotification::TurnCompleted(turn_notification("turn-1", None, None))),
        Ok(LiveNotificationOutcome::Terminal)
    );
    assert_eq!(outcome(error_notification("turn-1", "bad")), Err("bad".to_string()));
    assert_eq!(
        outcome(error_notification("turn-9", "bad")),
        Ok(LiveNotificationOutcome::Continue)
    );
}

#[test]
fn a_turn_runs_from_start_to_end() {
    let mut turn = LiveTurn::new("thread-1".to_string());
    let early = turn.step(LiveTurnEvent::Notification(ServerNotification::ItemCompleted(
        completed_agent_message("thread-1", "turn-1", "m1", "commentary", "early"),
    )));
    assert!(early.outputs.is_empty());
    assert!(turn.turn_id().is_none());

    let started = turn.step(LiveTurnEvent::TurnStartResult(Ok("turn-1".to_string())));
    assert_eq!(started.register.as_deref(), Some("turn-1"));
    assert_eq!(started.outputs, vec![markdown("early", true)]);
    assert!(matches!(started.progress, LiveTurnProgress::Running));

    let again = turn.step(LiveTurnEvent::Notification(ServerNotification::ItemCompleted(
        completed_agent_message("thread-1", "turn-1", "m1", "commentary", "early"),
    )));
    assert!(again.outputs.is_empty());

    let foreign = turn.step(LiveTurnEvent::Notification(ServerNotification::ItemCompleted(
        completed_agent_message("thread-1", "turn-2", "m9", "final_answer", "foreign"),
    )));
    assert!(foreign.outputs.is_empty());

    let tool = turn.step(LiveTurnEvent::ToolOutput(markdown("from a tool", false)));
    assert_eq!(tool.outputs, vec![markdown("from a tool", false)]);
    assert!(turn.step(LiveTurnEvent::ServerRequest).outputs.is_empty());

    let last = turn.step(LiveTurnEvent::Notification(ServerNotification::ItemCompleted(
        completed_agent_message("thread-1", "turn-1", "m2", "final_answer", "the answer"),
    )));
    assert_eq!(last.outputs, vec![markdown("the answer", false)]);
    let end = turn.step(LiveTurnEvent::Notification(ServerNotification::TurnCompleted(
        turn_notification("turn-1", Some("completed"), None),
    )));
    assert!(matches!(end.progress, LiveTurnProgress::Finished));
    assert!(end.outputs.is_empty());
}

#[test]
fn a_turn_fails_with_its_start_or_its_connection() {
    let mut turn = LiveTurn::new("thread-1".to_string());
    let failed = turn.step(LiveTurnEvent::TurnStartResult(Err("refused".to_string())));
    assert!(matches!(failed.progress, LiveTurnProgress::Failed(message) if message == "refused"));
    assert!(failed.register.is_none());
    let closed = turn.step(LiveTurnEvent::TransportClosed);
    assert!(matches!(
        closed.progress,
        LiveTurnProgress::Failed(message) if message == "Codex event stream closed"
    ));
}
