use codexclaw::approval::{
    approval_keyboard, approval_prompt, outcome_or_denied, ApprovalAction, ApprovalManager,
    ApprovalOutcome, OperatorTarget,
};
use codexclaw::telegram::{
    TelegramCallbackQuery, TelegramChat, TelegramMessage, TelegramUpdate, TelegramUser,
};

const TARGET: OperatorTarget = OperatorTarget {
    chat_id: 100,
    thread_id: Some(777),
};

fn user(id: i64) -> TelegramUser {
    TelegramUser {
        id,
        first_name: Some("Op".to_string()),
        last_name: None,
    }
}

fn message(message_id: i64, from: i64, text: Option<&str>) -> TelegramMessage {
    TelegramMessage {
        message_id,
        chat: TelegramChat {
            id: 100,
            kind: "supergroup".to_string(),
        },
        from: Some(user(from)),
        sender_chat: None,
        business_connection_id: None,
        text: text.map(|text| text.to_string()),
        caption: None,
        photo: None,
        document: None,
        voice: None,
        message_thread_id: Some(777),
        reply_to_message: None,
        quote: None,
    }
}

fn callback_update(data: &str) -> TelegramUpdate {
    TelegramUpdate {
        update_id: 1,
        message: None,
        edited_message: None,
        business_message: None,
        edited_business_message: None,
        callback_query: Some(TelegramCallbackQuery {
            id: "cb-1".to_string(),
            from: user(42),
            message: Some(message(55, 999, Some("approval"))),
            data: Some(data.to_string()),
        }),
    }
}

fn words_update(from: i64, text: Option<&str>) -> TelegramUpdate {
    TelegramUpdate {
        update_id: 2,
        message: Some(message(56, from, text)),
        edited_message: None,
        business_message: None,
        edited_business_message: None,
        callback_query: None,
    }
}

fn answers(actions: &[ApprovalAction]) -> Vec<String> {
    actions
        .iter()
        .filter_map(|action| match action {
            ApprovalAction::Answer { callback_id, text } => {
                assert_eq!(callback_id, "cb-1");
                Some(text.clone())
            }
            _ => None,
        })
        .collect()
}

fn decisions(actions: &[ApprovalAction]) -> Vec<(String, ApprovalOutcome)> {
    actions
        .iter()
        .filter_map(|action| match action {
            ApprovalAction::Resolve {
                approval_id,
                outcome,
            } => Some((approval_id.clone(), outcome.clone())),
            _ => None,
        })
        .collect()
}

#[test]
fn operator_target_is_copyable() {
    let target = OperatorTarget {
        chat_id: 1,
        thread_id: Some(2),
    };
    assert_eq!(target.chat_id, 1);
    assert_eq!(target.thread_id, Some(2));
}

#[test]
fn approval_manager_resolves_approve_callback() {
    let mut approvals = ApprovalManager::new();
    let request =
        ApprovalManager::request(TARGET, "Please approve this reply.", "hello there");
    let id = request.approval_id.clone();
    approvals.register(request.approval_id, request.target, 55);

    let reply = approvals.handle_update(
        &callback_update("apr:approve:00000000000000000000000000000000"),
        &[42],
    );
    assert!(
        reply.handled,
        "unknown approval id should still be consumed as expired"
    );
    assert_eq!(answers(&reply.actions), vec!["Approval expired."]);
    assert!(approvals.is_pending(&id));

    let reply = approvals.handle_update(&callback_update(&format!("apr:approve:{id}")), &[42]);
    assert!(reply.handled);
    assert_eq!(decisions(&reply.actions), vec![(id.clone(), ApprovalOutcome::Approved)]);
    assert_eq!(answers(&reply.actions), vec!["Approved."]);
    assert!(matches!(
        reply.actions[0],
        ApprovalAction::RemoveKeyboard {
            chat_id: 100,
            message_id: 55
        }
    ));
    assert!(!approvals.is_pending(&id));

    let again = approvals.handle_update(&callback_update(&format!("apr:deny:{id}")), &[42]);
    assert!(decisions(&again.actions).is_empty());
}

#[test]
fn approval_manager_resolves_steer_follow_up_message() {
    let mut approvals = ApprovalManager::new();
    let request = ApprovalManager::request(TARGET, "Need steering", "draft reply");
    let id = request.approval_id.clone();
    approvals.register(request.approval_id, request.target, 55);

    let reply = approvals.handle_update(&callback_update(&format!("apr:steer:{id}")), &[42]);
    assert!(reply.handled);
    assert!(decisions(&reply.actions).is_empty());
    assert_eq!(answers(&reply.actions), vec!["Send your steering message next."]);

    let reply = approvals.handle_update(&words_update(42, Some("make it shorter")), &[42]);
    assert!(reply.handled);
    assert_eq!(
        decisions(&reply.actions),
        vec![(id, ApprovalOutcome::Steer("make it shorter".to_string()))]
    );
    let after = approvals.handle_update(&words_update(42, Some("more")), &[42]);
    assert!(!after.handled);
    assert!(after.actions.is_empty());
}

#[test]
fn steering_words_are_trimmed() {
    let mut approvals = ApprovalManager::new();
    approvals.register("a1".to_string(), TARGET, 55);
    approvals.handle_update(&callback_update("apr:steer:a1"), &[42]);
    let reply = approvals.handle_update(&words_update(42, Some(" shorter \n")), &[42]);
    assert_eq!(
        decisions(&reply.actions),
        vec![("a1".to_string(), ApprovalOutcome::Steer("shorter".to_string()))]
    );
}

#[test]
fn denials_are_passed_on() {
    let mut approvals = ApprovalManager::new();
    approvals.register("a1".to_string(), TARGET, 7);
    let reply = approvals.handle_update(&callback_update("apr:deny:a1"), &[]);
    assert_eq!(
        decisions(&reply.actions),
        vec![("a1".to_string(), ApprovalOutcome::Denied)]
    );
    assert_eq!(answers(&reply.actions), vec!["Denied."]);
}

#[test]
fn strangers_are_told_and_change_nothing() {
    let mut approvals = ApprovalManager::new();
    approvals.register("a1".to_string(), TARGET, 7);
    let reply = approvals.handle_update(&callback_update("apr:approve:a1"), &[7]);
    assert!(reply.handled);
    assert_eq!(answers(&reply.actions), vec!["Not allowed."]);
    assert_eq!(reply.actions.len(), 1);
    assert!(approvals.is_pending("a1"));
}

#[test]
fn other_buttons_and_broken_ones() {
    let mut approvals = ApprovalManager::new();
    approvals.register("a1".to_string(), TARGET, 7);
    assert!(!approvals.handle_update(&callback_update("menu:open"), &[42]).handled);
    for (data, answer) in [
        ("apr:approve:", "Malformed approval."),
        ("apr:approve", "Malformed approval."),
        ("apr:", "Malformed approval."),
        ("apr:later:a1", "Unknown action."),
        ("apr:steer:zz", "Approval expired."),
        ("apr:deny:a1:x", "Approval expired."),
    ] {
        let reply = approvals.handle_update(&callback_update(data), &[42]);
        assert!(reply.handled);
        assert_eq!(answers(&reply.actions), vec![answer], "{data}");
    }
    let mut update = callback_update("apr:steer:a1");
    if let Some(callback) = update.callback_query.as_mut() {
        callback.message = None;
    }
    let reply = approvals.handle_update(&update, &[42]);
    assert_eq!(answers(&reply.actions), vec!["Steer is unavailable here."]);
    if let Some(callback) = update.callback_query.as_mut() {
        callback.data = None;
    }
    assert!(!approvals.handle_update(&update, &[42]).handled);
}

#[test]
fn steering_waits_for_words_of_the_same_user() {
    let mut approvals = ApprovalManager::new();
    approvals.register("a1".to_string(), TARGET, 7);
    approvals.handle_update(&callback_update("apr:steer:a1"), &[]);
    assert!(!approvals.handle_update(&words_update(43, Some("mine")), &[]).handled);
    let reply = approvals.handle_update(&words_update(42, None), &[]);
    assert!(reply.handled);
    assert!(matches!(
        &reply.actions[..],
        [ApprovalAction::Say { chat_id: 100, thread_id: Some(777), markdown }]
            if markdown == "Please send a text steering message."
    ));
    let reply = approvals.handle_update(&words_update(42, Some("shorter")), &[]);
    assert_eq!(decisions(&reply.actions).len(), 1);
}

#[test]
fn steering_an_approval_that_was_decided_meanwhile_is_acknowledged() {
    let mut approvals = ApprovalManager::new();
    approvals.register("a1".to_string(), TARGET, 7);
    approvals.handle_update(&callback_update("apr:steer:a1"), &[]);
    approvals.handle_update(&callback_update("apr:approve:a1"), &[]);
    let reply = approvals.handle_update(&words_update(42, Some("shorter")), &[]);
    assert!(reply.handled);
    assert!(decisions(&reply.actions).is_empty());
    assert_eq!(reply.actions.len(), 1);
}

#[test]
fn requests_show_the_reply_and_three_buttons() {
    assert_eq!(
        approval_prompt("Check this", "  hello \n"),
        "Check this\n\n---\n\n**Proposed reply**\n\nhello"
    );
    let expected: serde_json::Value = serde_json::from_str(
        r#"{"inline_keyboard":[[
            {"text":"Approve","callback_data":"apr:approve:id1"},
            {"text":"Deny","callback_data":"apr:deny:id1"},
            {"text":"Steer","callback_data":"apr:steer:id1"}]]}"#,
    )
    .expect("json");
    assert_eq!(approval_keyboard("id1"), expected);
}

#[test]
fn approval_ids_are_fresh_simple_uuids() {
    let first = ApprovalManager::request(TARGET, "s", "r");
    let second = ApprovalManager::request(TARGET, "s", "r");
    assert_ne!(first.approval_id, second.approval_id);
    let parsed = uuid::Uuid::parse_str(&first.approval_id).expect("uuid");
    assert_eq!(parsed.simple().to_string(), first.approval_id);
    assert_eq!(first.keyboard, approval_keyboard(&first.approval_id));
}

#[test]
fn a_lost_decision_is_a_denial() {
    assert_eq!(outcome_or_denied(None), ApprovalOutcome::Denied);
    assert_eq!(
        outcome_or_denied(Some(ApprovalOutcome::Approved)),
        ApprovalOutcome::Approved
    );
}
