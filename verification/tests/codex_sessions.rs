use codexclaw::approval::{ApprovalOutcome, OperatorTarget};
use codexclaw::channels::{MediaKind, TurnOutput};
use codexclaw::codex::context::{
    build_input, chat_session_key, chat_thread_name, compose_message_context,
    is_codex_transport_failure, legacy_telegram_thread_name, normalize_input_local,
    should_reconnect, ChatRequest, Input, TurnInputItem, UserInput,
};
use codexclaw::codex::options::{
    additional_directories, base_thread_options, build_initialize_params,
    build_live_turn_start_params, build_turn_steer_params, normalized_approval_policy,
    ApprovalMode, SandboxMode,
};
use codexclaw::codex::sessions::{
    chat_thread_identity_step, codex_session_index_path, find_thread_id_in_session_index,
    message_step_before_thread, message_step_in_thread, named_thread_id, open_chat_thread,
    prepare_live_thread, session_index_lines, session_index_path, ActiveChatTurn, ActiveTurns,
    IdentityStep, MessageStep, Orchestrator, OrchestratorEvent, OrchestratorStep,
    SessionIndexEntry, SteerPhase, SteerStep, ThreadOpening,
};
use codexclaw::codex::tools::{
    approval_reply, file_name_or_path, media_delivery, media_reply,
    parse_dynamic_tool_call_envelope, resolve_step, route_tool_call, DynamicToolRouter,
    ResolveStep, TelegramRequestApprovalArgs, TelegramSendMediaArgs, ToolCall, ToolCallError,
};
use codexclaw::config::{
    AppConfig, AppPaths, CodexConfig, OperatorConfig, ServerConfig, TelegramConfig, VoiceConfig,
};
use codexclaw::telegram::{DownloadedAttachment, InboundMessage};
use serde_json::Value;

fn test_app_config(working_directory: &str) -> AppConfig {
    AppConfig {
        paths: AppPaths {
            config_path: format!("{working_directory}/config.toml"),
            state_dir: format!("{working_directory}/state"),
            cache_dir: format!("{working_directory}/cache"),
        },
        server: ServerConfig {
            listen: "127.0.0.1:0".to_string(),
        },
        telegram: TelegramConfig {
            bot_token: "token".to_string(),
            allowed_user_ids: vec![42],
            public_base_url: "https://example.com".to_string(),
            webhook_secret: "secret".to_string(),
            api_base_url: "https://api.telegram.org".to_string(),
        },
        whatsapp: None,
        operator: OperatorConfig::default(),
        voice: VoiceConfig {
            enabled: true,
            transcriber_command: "parakeet-mlx".to_string(),
            model: "mlx-community/parakeet-tdt-0.6b-v3".to_string(),
        },
        codex: CodexConfig {
            connect_url: "ws://127.0.0.1:4222".to_string(),
            listen_url: "ws://127.0.0.1:4222".to_string(),
            reuse_existing_server: true,
            experimental_api: false,
            working_directory: working_directory.to_string(),
            model: None,
            additional_directories: Vec::new(),
            approval_policy: "never".to_string(),
            sandbox_mode: "danger-full-access".to_string(),
            skip_git_repo_check: true,
            network_access_enabled: true,
            web_search_enabled: true,
            orchestrator_name: None,
        },
    }
}

fn object(text: &str) -> serde_json::Map<String, Value> {
    serde_json::from_str(text).expect("object")
}

#[test]
fn parses_telegram_send_media_dynamic_tool_params() {
    let extra = object(
        r#"{
            "tool": "telegram_send_media",
            "arguments": {
                "path": "/tmp/report.txt",
                "kind": "document",
                "caption_markdown": "Attached report"
            },
            "extra": {
                "threadId": "thread-1",
                "turnId": "turn-1"
            }
        }"#,
    );

    let envelope = parse_dynamic_tool_call_envelope(&extra).expect("envelope");
    assert_eq!(envelope.tool, "telegram_send_media");
    assert_eq!(envelope.turn_id, "turn-1");
    assert_eq!(envelope.arguments["path"], "/tmp/report.txt");
    assert_eq!(envelope.arguments["kind"], "document");
    assert_eq!(envelope.arguments["caption_markdown"], "Attached report");
    assert_eq!(envelope.arguments.as_object().map(|entries| entries.len()), Some(3));
}

#[test]
fn tool_calls_say_what_they_miss() {
    for (text, message) in [
        (r#"{}"#, "dynamic tool call missing `tool`"),
        (r#"{"tool":7}"#, "dynamic tool call missing `tool`"),
        (r#"{"tool":"x","turnId":"u"}"#, "dynamic tool call missing `threadId`"),
        (
            r#"{"tool":"x","threadId":"t","turnId":"u","extra":{}}"#,
            "dynamic tool call missing `threadId`",
        ),
        (r#"{"tool":"x","threadId":"t"}"#, "dynamic tool call missing `turnId`"),
        (
            r#"{"tool":"x","threadId":"t","turnId":"u"}"#,
            "unsupported dynamic tool `x`",
        ),
    ] {
        assert_eq!(
            route_tool_call(&object(text)).expect_err("error"),
            ToolCallError::InvalidMessage(message.to_string()),
            "{text}"
        );
    }
    let call = route_tool_call(&object(
        r#"{"tool":"telegram_request_approval","threadId":"t","turnId":"u","extra":1}"#,
    ))
    .expect("call");
    match call {
        ToolCall::RequestApproval(envelope) => {
            assert_eq!(envelope.turn_id, "u");
            assert_eq!(envelope.arguments, Value::Null);
        }
        other => panic!("unexpected {other:?}"),
    }
}

#[test]
fn initialize_params_enable_experimental_api_from_config() {
    let mut config = test_app_config("/tmp");
    config.codex.experimental_api = true;

    let params = build_initialize_params(&config, "1.2.3");
    assert_eq!(
        params
            .capabilities
            .as_ref()
            .and_then(|capabilities| capabilities.experimental_api),
        Some(true)
    );
    assert_eq!(params.client_info.version, "1.2.3");
}

#[test]
fn initialize_params_leave_experimental_api_disabled_by_default() {
    let config = test_app_config("/tmp");

    let params = build_initialize_params(&config, "1.2.3");
    assert!(params.capabilities.is_none());
}

fn photo_args() -> TelegramSendMediaArgs {
    TelegramSendMediaArgs {
        path: "shots/screenshot.png".to_string(),
        kind: MediaKind::Photo,
        caption_markdown: None,
        file_name: None,
        mime_type: None,
        disable_notification: None,
    }
}

#[test]
fn telegram_send_media_response_uses_input_text_content_items() {
    let reply = media_reply(&photo_args(), true).expect("reply");
    assert_eq!(reply.get("success"), Some(&Value::Bool(true)));
    let expected: Value = serde_json::from_str(
        r#"[{
            "type": "inputText",
            "text": "Queued Telegram photo upload for screenshot.png."
        }]"#,
    )
    .expect("json");
    assert_eq!(reply.get("contentItems"), Some(&expected));
    assert_eq!(
        media_reply(&photo_args(), false).expect_err("error"),
        ToolCallError::TransportClosed
    );
    let mut voice = photo_args();
    voice.kind = MediaKind::Voice;
    voice.file_name = Some("note.ogg".to_string());
    let reply = media_reply(&voice, true).expect("reply");
    assert_eq!(
        reply["contentItems"][0]["text"],
        "Queued Telegram voice note upload for note.ogg."
    );
}

#[test]
fn dynamic_tool_router_resolves_relative_paths_from_working_directory() {
    let file_path = "/work/Documents/example.pdf";
    let real_path = |path: &str| {
        if path == file_path {
            Ok(path.to_string())
        } else {
            Err("no such file".to_string())
        }
    };
    let resolve = |path: &str| match resolve_step("/work", path, real_path(path)) {
        ResolveStep::Found(found) => Ok(found),
        ResolveStep::LookUp(next) => real_path(&next),
        ResolveStep::Fail(message) => Err(message),
    };
    assert_eq!(resolve("Documents/example.pdf"), Ok(file_path.to_string()));
    assert_eq!(resolve(file_path), Ok(file_path.to_string()));
    assert_eq!(resolve("example.pdf"), Err("no such file".to_string()));
    assert_eq!(file_name_or_path("Documents/example.pdf"), "example.pdf");
    assert_eq!(file_name_or_path(".."), "..");
}

#[test]
fn files_are_looked_up_as_given_first() {
    assert_eq!(
        resolve_step("/work", "a.txt", Ok("/here/a.txt".to_string())),
        ResolveStep::Found("/here/a.txt".to_string())
    );
    assert_eq!(
        resolve_step("/work", "a.txt", Err("gone".to_string())),
        ResolveStep::LookUp("/work/a.txt".to_string())
    );
    assert_eq!(
        resolve_step("/work", "/a.txt", Err("gone".to_string())),
        ResolveStep::Fail("gone".to_string())
    );
}

#[test]
fn media_goes_to_the_turn_that_asked() {
    let target = OperatorTarget {
        chat_id: 1,
        thread_id: Some(2),
    };
    let mut router = DynamicToolRouter::new();
    router.register_turn("turn-1", 11u32, target);
    let mut args = photo_args();
    args.disable_notification = Some(true);
    let (sender, output) =
        media_delivery(&router, "turn-1", &args, Ok("/work/screenshot.png".to_string()))
            .expect("delivery");
    assert_eq!(*sender, 11);
    assert_eq!(
        output,
        TurnOutput::Media {
            kind: MediaKind::Photo,
            path: "/work/screenshot.png".to_string(),
            caption_markdown: None,
            file_name: None,
            mime_type: None,
            disable_notification: true,
        }
    );
    assert_eq!(
        media_delivery(&router, "turn-2", &args, Ok("/x".to_string())).expect_err("error"),
        ToolCallError::InvalidMessage("no active Telegram sink for turn turn-2".to_string())
    );
    assert_eq!(
        media_delivery(&router, "turn-2", &args, Err("not found".to_string()))
            .expect_err("error"),
        ToolCallError::PathResolution("not found".to_string())
    );
    router.unregister_turn("turn-1");
    assert!(router.output_sender("turn-1").is_err());
}

#[test]
fn approvals_are_asked_of_the_turns_operator_unless_overridden() {
    let mut router = DynamicToolRouter::new();
    let operator = OperatorTarget {
        chat_id: 1,
        thread_id: Some(2),
    };
    router.register_turn("turn-1", (), operator);
    let mut args = TelegramRequestApprovalArgs {
        summary_markdown: "s".to_string(),
        proposed_reply: "r".to_string(),
        operator_chat_id: None,
        operator_thread_id: None,
    };
    assert_eq!(router.approval_target("turn-1", &args), Ok(operator));
    args.operator_chat_id = Some(5);
    assert_eq!(
        router.approval_target("turn-1", &args),
        Ok(OperatorTarget {
            chat_id: 5,
            thread_id: Some(2)
        })
    );
    args.operator_thread_id = Some(6);
    assert_eq!(
        router.approval_target("turn-1", &args),
        Ok(OperatorTarget {
            chat_id: 5,
            thread_id: Some(6)
        })
    );
    assert_eq!(
        router.approval_target("turn-9", &args),
        Err(ToolCallError::InvalidMessage(
            "no operator target for turn turn-9".to_string()
        ))
    );
}

#[test]
fn decisions_are_reported_to_the_agent() {
    for (outcome, decision, text) in [
        (
            ApprovalOutcome::Approved,
            "approve",
            "Operator approved the proposed action.",
        ),
        (
            ApprovalOutcome::Denied,
            "deny",
            "Operator denied the proposed action. Do not perform it unless they later change their mind.",
        ),
        (
            ApprovalOutcome::Steer("shorter".to_string()),
            "steer",
            "Operator requested changes before approval. Do not send the previous draft. Revise it with these instructions:\nshorter",
        ),
    ] {
        let reply = approval_reply(&outcome);
        assert_eq!(reply["success"], true);
        assert_eq!(reply["decision"], decision);
        assert_eq!(reply["contentItems"][0]["type"], "inputText");
        assert_eq!(reply["contentItems"][0]["text"], text);
    }
}

struct FakeLiveThread {
    reads: usize,
    read_result: Result<(), String>,
    id_after_read: Option<String>,
}

impl FakeLiveThread {
    fn prepare(&mut self) -> Result<String, String> {
        match chat_thread_identity_step(true, "telegram:1") {
            IdentityStep::Read => {
                self.reads += 1;
                prepare_live_thread(self.read_result.clone(), self.id_after_read.clone())
            }
            IdentityStep::AssignName(name) => panic!("thread named {name}"),
        }
    }
}

#[test]
fn prepare_live_thread_forces_read_before_using_thread_id() {
    let mut thread = FakeLiveThread {
        reads: 0,
        read_result: Ok(()),
        id_after_read: Some("thread-123".to_string()),
    };
    assert_eq!(thread.prepare(), Ok("thread-123".to_string()));
    assert_eq!(thread.reads, 1);
    assert_eq!(
        prepare_live_thread(Ok(()), None),
        Err("thread id unavailable after start/resume".to_string())
    );
}

#[test]
fn prepare_live_thread_propagates_connection_not_ready_failure() {
    let mut thread = FakeLiveThread {
        reads: 0,
        read_result: Err(
            "connection not ready: call initialized() before invoking turn/start".to_string(),
        ),
        id_after_read: None,
    };
    let error = thread.prepare().expect_err("expected read failure");
    assert_eq!(thread.reads, 1);
    assert!(
        error.contains("connection not ready: call initialized() before invoking turn/start")
    );
}

#[test]
fn active_turn_waits_until_turn_id_is_published() {
    let mut active = ActiveChatTurn::new("thread-1".to_string());
    assert_eq!(active.turn_id_if_known(), None);
    assert_eq!(active.steer_step(SteerPhase::Checking), SteerStep::Wait);
    active.publish_turn_start(Ok("turn-1".to_string()));
    assert_eq!(active.turn_id_if_known(), Some(Ok("turn-1".to_string())));
    assert_eq!(
        active.steer_step(SteerPhase::Waiting),
        SteerStep::Send {
            thread_id: "thread-1".to_string(),
            turn_id: "turn-1".to_string()
        }
    );
}

#[test]
fn active_turn_propagates_start_failure_to_steer_waiters() {
    let mut active = ActiveChatTurn::new("thread-1".to_string());
    active.publish_turn_start(Err("turn start failed".to_string()));
    assert_eq!(
        active.turn_id_if_known(),
        Some(Err("turn start failed".to_string()))
    );
    active.mark_finished();
    assert_eq!(
        active.steer_step(SteerPhase::Waiting),
        SteerStep::Fail("turn start failed".to_string())
    );
    assert_eq!(active.steer_step(SteerPhase::Checking), SteerStep::Skip);
}

#[test]
fn finished_turns_are_not_steered() {
    let mut active = ActiveChatTurn::new("thread-1".to_string());
    active.publish_turn_start(Ok("turn-1".to_string()));
    assert!(!active.is_finished());
    active.mark_finished();
    assert!(active.is_finished());
    assert_eq!(active.steer_step(SteerPhase::Checking), SteerStep::Skip);
    assert_eq!(active.steer_step(SteerPhase::Waiting), SteerStep::Skip);
}

#[test]
fn a_newer_turn_is_not_removed_with_an_older_one() {
    let mut turns = ActiveTurns::new();
    let first = turns.insert("a", "one");
    let second = turns.insert("a", "two");
    assert_ne!(first, second);
    turns.remove_active_turn("a", first);
    assert_eq!(turns.current_active_turn("a"), Some(&(second, "two")));
    turns.remove_active_turn("a", second);
    assert_eq!(turns.current_active_turn("a"), None);
    turns.insert("a", "three");
    turns.insert("b", "four");
    turns.forget("a");
    assert_eq!(turns.current_active_turn("a"), None);
    let all: Vec<&str> = turns.take_all().into_iter().map(|(_, handle)| handle).collect();
    assert_eq!(all, vec!["four"]);
    assert_eq!(turns.current_active_turn("b"), None);
}

#[test]
fn messages_steer_running_turns_and_start_others() {
    assert_eq!(message_step_before_thread(None), MessageStep::OpenThread);
    assert_eq!(message_step_before_thread(Some(true)), MessageStep::ForgetTurn);
    assert_eq!(message_step_before_thread(Some(false)), MessageStep::Steer);
    assert_eq!(message_step_in_thread(true), MessageStep::Steer);
    assert_eq!(message_step_in_thread(false), MessageStep::StartTurn);
}

fn inbound(thread_id: Option<i64>) -> InboundMessage {
    InboundMessage {
        chat_id: 42,
        sender_id: 7,
        sender_name: "User".to_string(),
        message_id: 10,
        thread_id,
        text: Some("hello".to_string()),
        reply_to_text: None,
        quoted_text: None,
        image_file_id: None,
        document_file_id: None,
        document_name: None,
        voice_file_id: None,
        voice_duration: None,
    }
}

#[test]
fn chat_session_key_includes_telegram_thread_context() {
    let inbound_in_thread = inbound(Some(9001));
    assert_eq!(
        chat_session_key(&inbound_in_thread),
        "telegram:default:42:9001"
    );

    let mut root_inbound = inbound_in_thread;
    root_inbound.thread_id = None;
    assert_eq!(chat_session_key(&root_inbound), "telegram:default:42");
}

#[test]
fn chat_thread_name_uses_generic_session_prefix() {
    assert_eq!(
        chat_thread_name("telegram:default:42"),
        "session:telegram:default:42"
    );
    assert_eq!(
        chat_thread_name("telegram:default:42:9001"),
        "session:telegram:default:42:9001"
    );
}

#[test]
fn legacy_telegram_thread_name_supports_existing_sessions() {
    assert_eq!(
        legacy_telegram_thread_name("telegram:default:42:9001").as_deref(),
        Some("telegram:42:9001")
    );
    assert_eq!(
        legacy_telegram_thread_name("telegram:default:42").as_deref(),
        Some("telegram:42")
    );
}

fn index_entries(raw: &str) -> Vec<SessionIndexEntry> {
    session_index_lines(raw)
        .iter()
        .filter_map(|line| serde_json::from_str::<Value>(line).ok())
        .filter_map(|value| {
            Some(SessionIndexEntry {
                id: value["id"].as_str()?.to_string(),
                thread_name: value["thread_name"].as_str()?.to_string(),
            })
        })
        .collect()
}

#[test]
fn session_index_lookup_uses_newest_matching_thread_name() {
    let entries = index_entries(
        "{\"id\":\"thread-1\",\"thread_name\":\"session:telegram:default:42\",\"updated_at\":\"2026-03-27T10:00:00Z\"}\n\
         {\"id\":\"thread-2\",\"thread_name\":\"session:telegram:default:9\",\"updated_at\":\"2026-03-27T10:01:00Z\"}\n\
         {\"id\":\"thread-3\",\"thread_name\":\"session:telegram:default:42\",\"updated_at\":\"2026-03-27T10:02:00Z\"}\n\
         {\"id\":\"ignored\",\"thread_name\":\"session:telegram:default:42:extra\",\"updated_at\":\"2026-03-27T10:03:00Z\"}\n",
    );
    let found = find_thread_id_in_session_index(&entries, "session:telegram:default:42");
    assert_eq!(found.as_deref(), Some("thread-3"));
    assert_eq!(find_thread_id_in_session_index(&entries, "  "), None);
}

#[test]
fn threads_are_found_by_name_then_by_old_name_then_started() {
    let entries = index_entries(
        "\n  {\"id\":\"old\",\"thread_name\":\"telegram:42\"}  \r\n\nnot json\n{\"id\":\"new\",\"thread_name\":\"session:telegram:default:9\"}",
    );
    assert_eq!(entries.len(), 2);
    assert_eq!(
        open_chat_thread(false, &entries, "telegram:default:42"),
        ThreadOpening::Resume("old".to_string())
    );
    assert_eq!(
        open_chat_thread(false, &entries, "telegram:default:9"),
        ThreadOpening::Resume("new".to_string())
    );
    assert_eq!(
        open_chat_thread(false, &entries, "whatsapp:default:1"),
        ThreadOpening::StartNamed("session:whatsapp:default:1".to_string())
    );
    assert_eq!(
        open_chat_thread(true, &entries, "telegram:default:42"),
        ThreadOpening::Cached
    );
}

#[test]
fn thread_identity_comes_from_naming_or_reading() {
    assert_eq!(chat_thread_identity_step(true, "k"), IdentityStep::Read);
    assert_eq!(
        chat_thread_identity_step(false, "k"),
        IdentityStep::AssignName("session:k".to_string())
    );
    assert_eq!(named_thread_id(Ok(()), Some("t".to_string())), Ok("t".to_string()));
    assert_eq!(
        named_thread_id(Ok(()), None),
        Err("thread id unavailable after naming".to_string())
    );
    assert_eq!(named_thread_id(Err("x".to_string()), None), Err("x".to_string()));
}

#[test]
fn the_orchestrator_is_resumed_or_briefed() {
    let mut known = Orchestrator::new(Some("t".to_string()));
    assert_eq!(
        known.step(OrchestratorEvent::Asked),
        OrchestratorStep::Resume("t".to_string())
    );
    assert_eq!(known.step(OrchestratorEvent::Resumed), OrchestratorStep::Done);
    assert_eq!(known.step(OrchestratorEvent::Asked), OrchestratorStep::Done);

    let mut nameless = Orchestrator::new(None);
    match nameless.step(OrchestratorEvent::Asked) {
        OrchestratorStep::Start(brief) => {
            assert!(brief.starts_with("You are the persistent top-level orchestrator"))
        }
        other => panic!("unexpected {other:?}"),
    }
    assert_eq!(
        nameless.step(OrchestratorEvent::Briefed(None)),
        OrchestratorStep::Done
    );
    assert_eq!(nameless.step(OrchestratorEvent::Asked), OrchestratorStep::Done);
}

#[test]
fn there_is_one_orchestrator() {
    let mut orchestrator = Orchestrator::new(None);
    assert!(matches!(
        orchestrator.step(OrchestratorEvent::Asked),
        OrchestratorStep::Start(_)
    ));
    assert_eq!(
        orchestrator.step(OrchestratorEvent::Briefed(Some("o".to_string()))),
        OrchestratorStep::Save("o".to_string())
    );
    assert_eq!(orchestrator.step(OrchestratorEvent::Saved), OrchestratorStep::Done);
    assert_eq!(orchestrator.step(OrchestratorEvent::Asked), OrchestratorStep::Done);
    assert_eq!(orchestrator.step(OrchestratorEvent::Asked), OrchestratorStep::Done);
    orchestrator.step(OrchestratorEvent::RuntimeReplaced);
    assert_eq!(
        orchestrator.step(OrchestratorEvent::Asked),
        OrchestratorStep::Resume("o".to_string())
    );
}

#[test]
fn an_orchestrator_that_could_not_be_saved_is_resumed() {
    let mut orchestrator = Orchestrator::new(None);
    orchestrator.step(OrchestratorEvent::Asked);
    orchestrator.step(OrchestratorEvent::Briefed(Some("o".to_string())));
    assert_eq!(
        orchestrator.step(OrchestratorEvent::Asked),
        OrchestratorStep::Resume("o".to_string())
    );
}

#[test]
fn the_session_index_is_in_the_home_of_codex() {
    let home = Some("/home/u".to_string());
    assert_eq!(
        session_index_path(&Some("/codex".to_string()), &home),
        Ok("/codex/session_index.jsonl".to_string())
    );
    assert_eq!(
        session_index_path(&None, &home),
        Ok("/home/u/.codex/session_index.jsonl".to_string())
    );
    assert_eq!(
        session_index_path(&None, &None),
        Err("failed to resolve home directory".to_string())
    );
    let system_home = dirs::home_dir().map(|path| path.to_string_lossy().into_owned());
    assert_eq!(
        codex_session_index_path(&None),
        session_index_path(&None, &system_home)
    );
}

fn request(text: Option<&str>, reply: Option<&str>, quote: Option<&str>) -> ChatRequest {
    ChatRequest {
        session_key: "telegram:default:42".to_string(),
        sender_name: "User".to_string(),
        text: text.map(|text| text.to_string()),
        reply_to_text: reply.map(|text| text.to_string()),
        quoted_text: quote.map(|text| text.to_string()),
        operator_target: OperatorTarget {
            chat_id: 1,
            thread_id: None,
        },
    }
}

#[test]
fn compose_message_context_includes_reply_and_quote() {
    let request = request(Some("new reply"), Some("full original"), Some("selected bit"));

    let context = compose_message_context(&request).expect("context");
    assert!(context.contains("Quoted message:\nfull original"));
    assert!(context.contains("Quoted fragment:\nselected bit"));
    assert!(context.contains("User reply/comment:\nnew reply"));
}

#[test]
fn context_leaves_out_what_is_blank() {
    assert_eq!(
        compose_message_context(&request(Some("  hi "), Some(" "), None)).as_deref(),
        Some("hi")
    );
    assert_eq!(
        compose_message_context(&request(Some(" "), None, Some("bit"))).as_deref(),
        Some("Quoted fragment:\nbit")
    );
    assert_eq!(compose_message_context(&request(None, None, None)), None);
    assert_eq!(
        compose_message_context(&request(Some("c"), Some("a"), Some("b"))).as_deref(),
        Some("Quoted message:\na\n\nQuoted fragment:\nb\n\nUser reply/comment:\nc")
    );
}

#[test]
fn requests_come_from_telegram_messages() {
    let operator = OperatorTarget {
        chat_id: 5,
        thread_id: Some(6),
    };
    let request = ChatRequest::from_telegram(inbound(Some(9001)), operator);
    assert_eq!(request.session_key, "telegram:default:42:9001");
    assert_eq!(request.sender_name, "User");
    assert_eq!(request.text.as_deref(), Some("hello"));
    assert_eq!(request.operator_target, operator);
}

#[test]
fn images_are_handed_over_as_images() {
    let input = build_input(
        &request(Some("look"), None, None),
        Some(DownloadedAttachment::Image("/tmp/a.png".to_string())),
    );
    assert_eq!(
        normalize_input_local(&input),
        vec![
            TurnInputItem::Text { text: "look".to_string() },
            TurnInputItem::LocalImage { path: "/tmp/a.png".to_string() },
        ]
    );
    let input = build_input(
        &request(None, None, None),
        Some(DownloadedAttachment::Image("/tmp/a.png".to_string())),
    );
    assert_eq!(
        normalize_input_local(&input)[0],
        TurnInputItem::Text {
            text: "User User attached an image. Reply to them in the same chat.".to_string()
        }
    );
}

#[test]
fn voice_messages_are_described() {
    let voice = |seconds: Option<u32>, transcript: Option<&str>| DownloadedAttachment::Voice {
        path: "/tmp/v.ogg".to_string(),
        duration_seconds: seconds,
        transcript: transcript.map(|text| text.to_string()),
    };
    assert_eq!(
        build_input(&request(None, None, None), Some(voice(Some(7), Some(" words ")))),
        Input::Text(
            "User User sent a voice message (7s).\nLocal file path: `/tmp/v.ogg`.\n\nVoice transcript:\nwords"
                .to_string()
        )
    );
    assert_eq!(
        build_input(&request(Some("note"), None, None), Some(voice(None, Some(" ")))),
        Input::Text(
            "User User sent a voice message.\nLocal file path: `/tmp/v.ogg`.\nUser caption/context:\nnote\n\nVoice transcript is unavailable."
                .to_string()
        )
    );
}

#[test]
fn files_and_plain_text_are_handed_over_as_text() {
    assert_eq!(
        build_input(
            &request(Some("see"), None, None),
            Some(DownloadedAttachment::File("/tmp/f.pdf".to_string()))
        ),
        Input::Text(
            "User User sent a file.\nLocal file path: `/tmp/f.pdf`.\nUse that file directly if needed.\n\nsee"
                .to_string()
        )
    );
    assert_eq!(
        build_input(&request(Some("see"), None, None), None),
        Input::Text("see".to_string())
    );
    assert_eq!(build_input(&request(None, None, None), None), Input::Text(String::new()));
}

#[test]
fn input_has_its_text_first_and_together() {
    let input = Input::Items(vec![
        UserInput::LocalImage { path: "/1".to_string() },
        UserInput::Text { text: "a".to_string() },
        UserInput::LocalImage { path: "/2".to_string() },
        UserInput::Text { text: "b".to_string() },
    ]);
    assert_eq!(
        normalize_input_local(&input),
        vec![
            TurnInputItem::Text { text: "a\n\nb".to_string() },
            TurnInputItem::LocalImage { path: "/1".to_string() },
            TurnInputItem::LocalImage { path: "/2".to_string() },
        ]
    );
    let images = Input::Items(vec![UserInput::LocalImage { path: "/1".to_string() }]);
    assert_eq!(normalize_input_local(&images).len(), 1);
}

#[test]
fn detects_codex_transport_failures_from_error_text() {
    assert!(is_codex_transport_failure(&vec![
        "Codex event stream closed".to_string()
    ]));
    assert!(is_codex_transport_failure(&vec![
        "transport send failed: failed to send outbound frame: channel closed".to_string()
    ]));
    assert!(!is_codex_transport_failure(&vec![
        r#"rpc error RpcError { code: -32600, message: "no active turn to steer", data: None }"#
            .to_string()
    ]));
}

#[test]
fn lost_connections_are_tried_again_once() {
    let lost = vec!["outer".to_string(), "request timed out after 5ms".to_string()];
    assert!(should_reconnect(true, &lost));
    assert!(!should_reconnect(false, &lost));
    assert!(!should_reconnect(true, &vec!["bad request".to_string()]));
    assert!(should_reconnect(true, &vec!["connection not ready: x".to_string()]));
}

#[test]
fn thread_options_follow_the_configuration() {
    let mut config = test_app_config("/work");
    config.codex.additional_directories = vec!["/extra".to_string()];
    config.codex.approval_policy = "on-failure".to_string();
    config.codex.sandbox_mode = "workspace-write".to_string();
    config.codex.model = Some("m".to_string());
    let options = base_thread_options(&config);
    assert_eq!(options.working_directory, "/work");
    assert_eq!(options.approval_policy, ApprovalMode::OnFailure);
    assert_eq!(options.sandbox_mode, SandboxMode::WorkspaceWrite);
    assert_eq!(options.model.as_deref(), Some("m"));
    assert_eq!(options.additional_directories, vec!["/work/cache/attachments", "/extra"]);
    let names: Vec<&str> = options
        .dynamic_tools
        .iter()
        .map(|tool| tool.name.as_str())
        .collect();
    assert_eq!(names, vec!["telegram_send_media", "telegram_request_approval"]);
    let schema = &options.dynamic_tools[0].input_schema;
    assert_eq!(schema["required"], serde_json::from_str::<Value>(r#"["path","kind"]"#).expect("json"));
    assert_eq!(schema["additionalProperties"], false);
    assert_eq!(
        schema["properties"]["kind"]["enum"],
        serde_json::from_str::<Value>(r#"["photo","document","audio","voice"]"#).expect("json")
    );
    assert_eq!(schema["properties"]["disable_notification"]["type"], "boolean");
    let schema = &options.dynamic_tools[1].input_schema;
    assert_eq!(schema["properties"]["operator_chat_id"]["type"], "integer");
    assert_eq!(additional_directories(&test_app_config("/w")), vec!["/w/cache/attachments"]);
}

#[test]
fn approval_policies_are_normalized() {
    for (value, expected) in [
        ("on-request", "on-request"),
        ("on-failure", "on-failure"),
        ("untrusted", "untrusted"),
        ("never", "never"),
        ("whatever", "never"),
    ] {
        assert_eq!(normalized_approval_policy(value), expected);
    }
}

#[test]
fn turns_are_started_with_the_settings() {
    let mut config = test_app_config("/work");
    config.codex.web_search_enabled = false;
    let params =
        build_live_turn_start_params(&config, "thread-1", &Input::Text("hi".to_string()));
    assert_eq!(params.thread_id, "thread-1");
    assert_eq!(params.input, vec![TurnInputItem::Text { text: "hi".to_string() }]);
    assert_eq!(params.cwd.as_deref(), Some("/work"));
    assert_eq!(params.approval_policy.as_deref(), Some("never"));
    assert_eq!(
        params.extra,
        object(
            r#"{"skipGitRepoCheck":true,"webSearchMode":"live","webSearchEnabled":false,
                "networkAccessEnabled":true,"additionalDirectories":["/work/cache/attachments"]}"#
        )
    );
    let steer = build_turn_steer_params("thread-1", "turn-1", &Input::Text("hi".to_string()));
    assert_eq!(steer.expected_turn_id.as_deref(), Some("turn-1"));
    assert_eq!(steer.input.len(), 1);
}
