use codexclaw::approval::{ApprovalManager, OperatorTarget};
use codexclaw::codex::context::{chat_session_key, ChatRequest};
use codexclaw::config::{
    default_approval_policy, default_codex_connect_url, default_codex_listen_url,
    default_network_access_enabled, default_sandbox_mode, default_skip_git_repo_check,
    default_telegram_api_base, default_true, default_web_search_enabled, validate, AppConfig,
    AppPaths, CodexConfig, ConfigError, OperatorConfig, OperatorTelegramConfig, ServerConfig,
    TelegramConfig, UserDirs, VoiceConfig,
};
use codexclaw::gateway::{
    health_body, maybe_transcribe_voice_attachment, operator_target, process_telegram_update,
    telegram_webhook, UpdateAction, UpdateEvent, WebhookDecision,
};
use codexclaw::telegram::requests::{delete_webhook_call, send_markdown_calls, set_webhook_call};
use codexclaw::telegram::{
    normalize_update, DownloadedAttachment, InboundMessage, TelegramCallbackQuery, TelegramChat,
    TelegramMessage, TelegramUpdate, TelegramUser, TelegramVoice,
};
use codexclaw::transcription::{
    accept_transcript, home_transcriber, job_dir, local_transcriber,
    resolve_transcriber_command, transcriber_args, transcriber_failure, transcript_job_dir,
    transcript_path,
};

fn test_config() -> AppConfig {
    AppConfig {
        paths: AppPaths {
            config_path: "/tmp/config.toml".to_string(),
            state_dir: "/tmp/state".to_string(),
            cache_dir: "/tmp/cache".to_string(),
        },
        server: ServerConfig {
            listen: "127.0.0.1:8787".to_string(),
        },
        telegram: TelegramConfig {
            bot_token: "token".to_string(),
            allowed_user_ids: vec![42],
            public_base_url: "https://example.com/base".to_string(),
            webhook_secret: "secret".to_string(),
            api_base_url: default_telegram_api_base(),
        },
        whatsapp: None,
        operator: OperatorConfig::default(),
        voice: VoiceConfig {
            enabled: true,
            transcriber_command: "parakeet-mlx".to_string(),
            model: "mlx-community/parakeet-tdt-0.6b-v3".to_string(),
        },
        codex: CodexConfig {
            connect_url: default_codex_connect_url(),
            listen_url: default_codex_listen_url(),
            reuse_existing_server: default_true(),
            experimental_api: false,
            working_directory: "/tmp".to_string(),
            model: None,
            additional_directories: Vec::new(),
            approval_policy: default_approval_policy(),
            sandbox_mode: default_sandbox_mode(),
            skip_git_repo_check: default_skip_git_repo_check(),
            network_access_enabled: default_network_access_enabled(),
            web_search_enabled: default_web_search_enabled(),
            orchestrator_name: None,
        },
    }
}

fn update_with(text: Option<&str>, voice: Option<TelegramVoice>, thread: Option<i64>) -> TelegramUpdate {
    TelegramUpdate {
        update_id: 1,
        message: Some(TelegramMessage {
            message_id: 10,
            chat: TelegramChat {
                id: 100,
                kind: "private".to_string(),
            },
            from: Some(TelegramUser {
                id: 42,
                first_name: Some("Test".to_string()),
                last_name: None,
            }),
            sender_chat: None,
            business_connection_id: None,
            text: text.map(|text| text.to_string()),
            caption: None,
            photo: None,
            document: None,
            voice,
            message_thread_id: thread,
            reply_to_message: None,
            quote: None,
        }),
        edited_message: None,
        business_message: None,
        edited_business_message: None,
        callback_query: None,
    }
}

fn inbound(text: &str, thread: Option<i64>) -> InboundMessage {
    normalize_update(&update_with(Some(text), None, thread), &[42]).expect("inbound")
}

#[test]
fn derives_webhook_url() {
    let config = test_config();
    assert_eq!(config.webhook_path(), "/telegram/secret");
    assert_eq!(
        config.webhook_url(),
        "https://example.com/base/telegram/secret"
    );
}

#[test]
fn places_are_derived_from_the_paths() {
    let config = test_config();
    assert_eq!(config.sessions_path(), "/tmp/state/sessions.json");
    assert_eq!(config.attachment_root(), "/tmp/cache/attachments");
}

#[test]
fn defaults_are_those_of_the_documentation() {
    assert_eq!(default_telegram_api_base(), "https://api.telegram.org");
    assert_eq!(default_codex_connect_url(), "ws://127.0.0.1:4222");
    assert_eq!(default_codex_listen_url(), "ws://127.0.0.1:4222");
    assert_eq!(default_approval_policy(), "never");
    assert_eq!(default_sandbox_mode(), "danger-full-access");
    assert!(default_true() && default_skip_git_repo_check());
    assert!(default_network_access_enabled() && default_web_search_enabled());
    assert_eq!(AppPaths::default().config_path, "");
}

#[test]
fn faults_are_reported_in_order() {
    let mut config = test_config();
    assert_eq!(validate(&config), Ok(()));
    config.codex.working_directory = "tmp".to_string();
    assert_eq!(validate(&config), Err(ConfigError::RelativeWorkingDirectory));
    config.telegram.public_base_url = "http://example.com".to_string();
    assert_eq!(validate(&config), Err(ConfigError::InsecureBaseUrl));
    config.telegram.webhook_secret = " \n".to_string();
    assert_eq!(validate(&config), Err(ConfigError::EmptyWebhookSecret));
    config.telegram.bot_token = String::new();
    assert_eq!(validate(&config), Err(ConfigError::EmptyBotToken));
    assert_eq!(
        ConfigError::EmptyBotToken.message(),
        "telegram.bot_token must not be empty"
    );
    assert_eq!(
        ConfigError::RelativeWorkingDirectory.message(),
        "codex.working_directory must be an absolute path"
    );
}

fn user_dirs() -> UserDirs {
    UserDirs {
        config: Some("/home/u/.config".to_string()),
        state: Some("/home/u/.local/state".to_string()),
        data_local: Some("/home/u/.local/share".to_string()),
        cache: Some("/home/u/.cache".to_string()),
    }
}

#[test]
fn places_are_among_the_users_directories() {
    let paths = AppPaths::from_dirs(None, user_dirs()).expect("paths");
    assert_eq!(paths.config_path, "/home/u/.config/codexclaw/config.toml");
    assert_eq!(paths.state_dir, "/home/u/.local/state/codexclaw");
    assert_eq!(paths.cache_dir, "/home/u/.cache/codexclaw");

    let mut dirs = user_dirs();
    dirs.config = None;
    dirs.state = None;
    let paths = AppPaths::from_dirs(None, dirs).expect("paths");
    assert_eq!(paths.config_path, "./codexclaw.toml");
    assert_eq!(paths.state_dir, "/home/u/.local/share/codexclaw");

    let paths = AppPaths::from_dirs(Some("/etc/c.toml".to_string()), user_dirs()).expect("paths");
    assert_eq!(paths.config_path, "/etc/c.toml");

    let mut dirs = user_dirs();
    dirs.cache = None;
    assert_eq!(AppPaths::from_dirs(None, dirs), Err(ConfigError::NoCacheDirectory));
    let mut dirs = user_dirs();
    dirs.cache = None;
    dirs.state = None;
    dirs.data_local = None;
    assert_eq!(AppPaths::from_dirs(None, dirs), Err(ConfigError::NoStateDirectory));
}

#[test]
fn explicit_places_come_from_the_system() {
    let text = |path: Option<std::path::PathBuf>| path.map(|path| path.to_string_lossy().into_owned());
    let dirs = UserDirs {
        config: text(dirs::config_dir()),
        state: text(dirs::state_dir()),
        data_local: text(dirs::data_local_dir()),
        cache: text(dirs::cache_dir()),
    };
    assert_eq!(AppPaths::from_explicit(None), AppPaths::from_dirs(None, dirs));
}

#[test]
fn webhooks_are_set_and_deleted() {
    let config = test_config();
    let call = set_webhook_call(&config);
    assert_eq!(call.url, "https://api.telegram.org/bottoken/setWebhook");
    assert_eq!(call.body["url"], "https://example.com/base/telegram/secret");
    assert_eq!(call.body["drop_pending_updates"], false);
    let call = delete_webhook_call(&config);
    assert_eq!(call.url, "https://api.telegram.org/bottoken/deleteWebhook");
    assert_eq!(call.body.as_object().map(|entries| entries.len()), Some(0));
    assert_eq!(health_body()["ok"], true);
}

#[test]
fn process_update_resets_chat_on_new_command() {
    let message = inbound("новый тред", Some(777));
    assert_eq!(chat_session_key(&message), "telegram:default:100:777");
    assert!(matches!(
        process_telegram_update(&message, true, UpdateEvent::Received),
        UpdateAction::ResetChat
    ));
    let said = match process_telegram_update(&message, true, UpdateEvent::ChatReset(Ok(()))) {
        UpdateAction::Say(text) => text,
        other => panic!("unexpected {other:?}"),
    };
    let calls = send_markdown_calls(
        &test_config().telegram,
        message.chat_id,
        message.thread_id,
        false,
        &said,
    );
    assert_eq!(calls.len(), 1);
    assert_eq!(calls[0].body["message_thread_id"].as_i64(), Some(777));
    assert!(calls[0].body["text"]
        .as_str()
        .unwrap_or_default()
        .contains("fresh chat"));
}

#[test]
fn process_update_resets_only_current_telegram_thread() {
    let message = inbound("новый тред", Some(321));
    let mut resets = Vec::new();
    if matches!(
        process_telegram_update(&message, true, UpdateEvent::Received),
        UpdateAction::ResetChat
    ) {
        resets.push((message.chat_id, message.thread_id));
    }
    assert_eq!(resets, vec![(100, Some(321))]);
    let request = ChatRequest::from_telegram(
        inbound("новый тред", Some(321)),
        operator_target(&test_config(), &message),
    );
    assert_eq!(request.session_key, "telegram:default:100:321");
    let said = match process_telegram_update(&message, true, UpdateEvent::ChatReset(Ok(()))) {
        UpdateAction::Say(text) => text,
        other => panic!("unexpected {other:?}"),
    };
    let calls = send_markdown_calls(
        &test_config().telegram,
        message.chat_id,
        message.thread_id,
        false,
        &said,
    );
    let thread_ids: Vec<Option<i64>> = calls
        .iter()
        .map(|call| call.body["message_thread_id"].as_i64())
        .collect();
    assert_eq!(thread_ids, vec![Some(321)]);
}

#[test]
fn process_update_replies_into_private_message_thread() {
    let message = inbound("hello", Some(777));
    assert_eq!(message.thread_id, Some(777));
    let calls = send_markdown_calls(
        &test_config().telegram,
        message.chat_id,
        message.thread_id,
        true,
        "Reply in thread",
    );
    assert_eq!(calls[0].body["message_thread_id"].as_i64(), Some(777));
    assert_eq!(calls[0].body["disable_notification"].as_bool(), Some(true));
}

fn voice(transcript: Option<&str>) -> DownloadedAttachment {
    DownloadedAttachment::Voice {
        path: "/tmp/v.ogg".to_string(),
        duration_seconds: Some(7),
        transcript: transcript.map(|text| text.to_string()),
    }
}

#[test]
fn process_update_transcribes_voice_before_running_turn() {
    let update = update_with(
        None,
        Some(TelegramVoice {
            file_id: "voice-1".to_string(),
            duration: Some(7),
        }),
        None,
    );
    let message = normalize_update(&update, &[42]).expect("inbound");
    assert_eq!(message.text, None);
    assert!(matches!(
        process_telegram_update(&message, true, UpdateEvent::Received),
        UpdateAction::DownloadAttachment
    ));
    let action =
        process_telegram_update(&message, true, UpdateEvent::Downloaded(Ok(Some(voice(None)))));
    let (path, duration_seconds) = match action {
        UpdateAction::Transcribe {
            path,
            duration_seconds,
        } => (path, duration_seconds),
        other => panic!("unexpected {other:?}"),
    };
    let transcript = accept_transcript("decoded voice text\n", "/tmp/transcript.txt");
    let action = process_telegram_update(
        &message,
        true,
        UpdateEvent::Transcribed {
            path,
            duration_seconds,
            result: transcript,
        },
    );
    match action {
        UpdateAction::RunTurn(attachment) => {
            assert_eq!(attachment, Some(voice(Some("decoded voice text"))))
        }
        other => panic!("unexpected {other:?}"),
    }
}

#[test]
fn voice_is_transcribed_only_where_needed() {
    for (enabled, attachment) in [
        (false, Some(voice(None))),
        (true, Some(voice(Some("known")))),
        (true, Some(DownloadedAttachment::File("/f".to_string()))),
        (true, None),
    ] {
        match maybe_transcribe_voice_attachment(enabled, attachment.clone()) {
            UpdateAction::RunTurn(found) => assert_eq!(found, attachment),
            other => panic!("unexpected {other:?}"),
        }
    }
}

#[test]
fn failures_are_shown_in_the_chat() {
    let message = inbound("hello", None);
    let shown = |event: UpdateEvent| match process_telegram_update(&message, true, event) {
        UpdateAction::TrySay(text) => text,
        other => panic!("unexpected {other:?}"),
    };
    assert_eq!(
        shown(UpdateEvent::Downloaded(Err("404".to_string()))),
        "Attachment download failed:\n\n```text\n404\n```"
    );
    assert_eq!(
        shown(UpdateEvent::Transcribed {
            path: "/v".to_string(),
            duration_seconds: None,
            result: Err("no model".to_string())
        }),
        "Voice transcription failed:\n\n```text\nno model\n```"
    );
    assert_eq!(
        shown(UpdateEvent::TurnRun(Err("boom".to_string()))),
        "Turn failed:\n\n```text\nboom\n```"
    );
    assert!(matches!(
        process_telegram_update(&message, true, UpdateEvent::TurnRun(Ok(()))),
        UpdateAction::Done
    ));
    assert!(matches!(
        process_telegram_update(&message, true, UpdateEvent::ChatReset(Err("x".to_string()))),
        UpdateAction::Fail(text) if text == "x"
    ));
}

#[test]
fn webhooks_need_the_secret() {
    let config = test_config();
    let mut approvals = ApprovalManager::new();
    let update = update_with(Some("hello"), None, None);
    assert!(matches!(
        telegram_webhook(&config, &mut approvals, "wrong", &update),
        WebhookDecision::NotFound
    ));
    match telegram_webhook(&config, &mut approvals, "secret", &update) {
        WebhookDecision::Process(message) => assert_eq!(message.text.as_deref(), Some("hello")),
        other => panic!("unexpected {other:?}"),
    }
    let mut stranger = test_config();
    stranger.telegram.allowed_user_ids = vec![1];
    assert!(matches!(
        telegram_webhook(&stranger, &mut approvals, "secret", &update),
        WebhookDecision::Ignore
    ));
}

#[test]
fn webhooks_pass_buttons_to_the_approvals() {
    let config = test_config();
    let mut approvals = ApprovalManager::new();
    approvals.register(
        "a1".to_string(),
        OperatorTarget {
            chat_id: 100,
            thread_id: None,
        },
        5,
    );
    let mut update = update_with(None, None, None);
    update.callback_query = Some(TelegramCallbackQuery {
        id: "cb".to_string(),
        from: TelegramUser {
            id: 42,
            first_name: None,
            last_name: None,
        },
        message: None,
        data: Some("apr:approve:a1".to_string()),
    });
    assert!(matches!(
        telegram_webhook(&config, &mut approvals, "wrong", &update),
        WebhookDecision::NotFound
    ));
    assert!(approvals.is_pending("a1"));
    match telegram_webhook(&config, &mut approvals, "secret", &update) {
        WebhookDecision::Approval(actions) => assert_eq!(actions.len(), 3),
        other => panic!("unexpected {other:?}"),
    }
    assert!(!approvals.is_pending("a1"));
}

#[test]
fn the_operator_is_configured_or_the_chat_itself() {
    let mut config = test_config();
    let message = inbound("hello", Some(9));
    assert_eq!(
        operator_target(&config, &message),
        OperatorTarget {
            chat_id: 100,
            thread_id: Some(9)
        }
    );
    config.operator.telegram = Some(OperatorTelegramConfig {
        chat_id: 5,
        thread_id: None,
    });
    assert_eq!(
        operator_target(&config, &message),
        OperatorTarget {
            chat_id: 5,
            thread_id: None
        }
    );
}

#[test]
fn prefers_home_local_binary_when_present() {
    let config = test_config();
    let local = local_transcriber(&config.voice.transcriber_command);
    let expected = dirs::home_dir().map(|home| {
        home.join(".local")
            .join("bin")
            .join("parakeet-mlx")
            .to_string_lossy()
            .into_owned()
    });
    assert_eq!(local, expected);
    let home = Some("/home/u".to_string());
    let local = home_transcriber("parakeet-mlx", &home);
    assert_eq!(local.as_deref(), Some("/home/u/.local/bin/parakeet-mlx"));
    assert_eq!(
        resolve_transcriber_command(&config, local.clone(), true),
        "/home/u/.local/bin/parakeet-mlx"
    );
    assert_eq!(resolve_transcriber_command(&config, local, false), "parakeet-mlx");
    assert_eq!(resolve_transcriber_command(&config, None, true), "parakeet-mlx");
    assert_eq!(home_transcriber("/opt/parakeet", &home), None);
}

#[test]
fn transcriptions_have_a_place_and_arguments() {
    let config = test_config();
    assert_eq!(job_dir(&config, "id"), "/tmp/cache/voice-transcripts/id");
    assert_eq!(transcript_path("/out"), "/out/transcript.txt");
    assert_eq!(
        transcriber_args("/v.ogg", "model", "/out"),
        vec![
            "/v.ogg",
            "--model",
            "model",
            "--output-dir",
            "/out",
            "--output-format",
            "txt",
            "--output-template",
            "transcript"
        ]
    );
    let first = transcript_job_dir(&config);
    assert_ne!(first, transcript_job_dir(&config));
    let id = first
        .strip_prefix("/tmp/cache/voice-transcripts/")
        .expect("place");
    assert!(uuid::Uuid::parse_str(id).is_ok());
}

#[test]
fn transcripts_are_trimmed_and_not_blank() {
    assert_eq!(accept_transcript("  words \n", "/t"), Ok("words".to_string()));
    assert_eq!(
        accept_transcript(" \n", "/t"),
        Err("voice transcription produced an empty transcript at /t".to_string())
    );
    assert_eq!(
        transcriber_failure("exit status: 1", " out \n", "err"),
        "voice transcription command failed with status exit status: 1.\nstdout:\nout\nstderr:\nerr"
    );
}
