use codexclaw::channels::delivery::{turn_output_delivery, Delivery};
use codexclaw::channels::whatsapp::{
    normalize_webhook_event, verify_webhook, whatsapp_text_call, WhatsAppChange, WhatsAppContact,
    WhatsAppEntry, WhatsAppMessage, WhatsAppProfile, WhatsAppReplyTarget, WhatsAppText,
    WhatsAppValue, WhatsAppWebhookPayload, WhatsAppWebhookVerificationQuery,
};
use codexclaw::channels::{
    telegram_session_key, ChannelKind, EventRoute, MediaKind, ReplyTarget, TurnOutput,
};
use codexclaw::config::{
    AppConfig, AppPaths, CodexConfig, OperatorConfig, ServerConfig, TelegramConfig, VoiceConfig,
    WhatsAppConfig,
};

fn whatsapp_config() -> WhatsAppConfig {
    WhatsAppConfig {
        account_id: "default".to_string(),
        verify_token: "secret".to_string(),
        access_token: "token".to_string(),
        phone_number_id: "phone".to_string(),
        webhook_path: "/whatsapp/webhook".to_string(),
        api_base_url: "https://graph.facebook.com/v21.0".to_string(),
        allowed_senders: Vec::new(),
    }
}

fn app_config(whatsapp: Option<WhatsAppConfig>) -> AppConfig {
    AppConfig {
        paths: AppPaths {
            config_path: "/tmp/config.toml".to_string(),
            state_dir: "/tmp/state".to_string(),
            cache_dir: "/tmp/cache".to_string(),
        },
        server: ServerConfig {
            listen: "127.0.0.1:0".to_string(),
        },
        telegram: TelegramConfig {
            bot_token: "token".to_string(),
            allowed_user_ids: vec![42],
            public_base_url: "https://example.com".to_string(),
            webhook_secret: "secret".to_string(),
            api_base_url: "https://api.telegram.org".to_string(),
        },
        whatsapp,
        operator: OperatorConfig::default(),
        voice: VoiceConfig::default(),
        codex: CodexConfig {
            connect_url: "ws://127.0.0.1:4222".to_string(),
            listen_url: "ws://127.0.0.1:4222".to_string(),
            reuse_existing_server: true,
            experimental_api: false,
            working_directory: "/tmp".to_string(),
            model: None,
            additional_directories: Vec::new(),
            approval_policy: "never".to_string(),
            sandbox_mode: "danger-full-access".to_string(),
            skip_git_repo_check: true,
            network_access_enabled: true,
            web_search_enabled: true,
            orchestrator_name: None,
        },
    }
}

fn text_message(from: &str, body: &str) -> WhatsAppMessage {
    WhatsAppMessage {
        from: from.to_string(),
        id: "wamid.1".to_string(),
        message_type: "text".to_string(),
        text: Some(WhatsAppText {
            body: body.to_string(),
        }),
    }
}

fn contact(wa_id: &str, name: Option<&str>) -> WhatsAppContact {
    WhatsAppContact {
        wa_id: Some(wa_id.to_string()),
        profile: Some(WhatsAppProfile {
            name: name.map(|name| name.to_string()),
        }),
    }
}

fn payload(
    field: &str,
    contacts: Vec<WhatsAppContact>,
    messages: Vec<WhatsAppMessage>,
) -> WhatsAppWebhookPayload {
    WhatsAppWebhookPayload {
        entry: vec![WhatsAppEntry {
            changes: vec![WhatsAppChange {
                field: field.to_string(),
                value: WhatsAppValue {
                    contacts: Some(contacts),
                    messages: Some(messages),
                },
            }],
        }],
    }
}

#[test]
fn event_route_builds_channel_agnostic_session_keys() {
    let route = EventRoute {
        channel: ChannelKind::WhatsApp,
        account_id: "default".to_string(),
        conversation_id: "client123".to_string(),
        thread_id: None,
    };
    assert_eq!(route.session_key(), "whatsapp:default:client123");

    let threaded = EventRoute {
        channel: ChannelKind::Mattermost,
        account_id: "ops".to_string(),
        conversation_id: "chan-1".to_string(),
        thread_id: Some("root-post".to_string()),
    };
    assert_eq!(threaded.session_key(), "mattermost:ops:chan-1:root-post");
}

#[test]
fn channels_have_names() {
    assert_eq!(ChannelKind::Telegram.as_str(), "telegram");
    assert_eq!(ChannelKind::WhatsApp.as_str(), "whatsapp");
    assert_eq!(ChannelKind::Mattermost.as_str(), "mattermost");
    assert_eq!(ChannelKind::RocketChat.as_str(), "rocketchat");
}

#[test]
fn telegram_threads_have_sessions_of_their_own() {
    assert_eq!(telegram_session_key(-100, Some(7)), "telegram:default:-100:7");
    assert_eq!(telegram_session_key(1, None), "telegram:default:1");
    assert_ne!(telegram_session_key(1, Some(23)), telegram_session_key(12, Some(3)));
    assert_ne!(telegram_session_key(1, Some(1)), telegram_session_key(1, None));
}

#[test]
fn verifies_whatsapp_webhook_query() {
    let config = whatsapp_config();
    let query = WhatsAppWebhookVerificationQuery {
        mode: Some("subscribe".to_string()),
        verify_token: Some("secret".to_string()),
        challenge: Some("abc".to_string()),
    };
    assert_eq!(verify_webhook(&config, &query).as_deref(), Some("abc"));
}

#[test]
fn refuses_whatsapp_webhook_queries_without_the_token() {
    let config = whatsapp_config();
    for (mode, token, challenge) in [
        (Some("unsubscribe"), Some("secret"), Some("abc")),
        (Some("subscribe"), Some("wrong"), Some("abc")),
        (Some("subscribe"), None, Some("abc")),
        (None, Some("secret"), Some("abc")),
        (Some("subscribe"), Some("secret"), None),
    ] {
        let query = WhatsAppWebhookVerificationQuery {
            mode: mode.map(|text| text.to_string()),
            verify_token: token.map(|text| text.to_string()),
            challenge: challenge.map(|text| text.to_string()),
        };
        assert_eq!(verify_webhook(&config, &query), None);
    }
}

#[test]
fn normalizes_text_message_webhook() {
    let payload = payload(
        "messages",
        vec![contact("15551230000", Some("Client"))],
        vec![text_message("15551230000", "hello")],
    );
    let event = normalize_webhook_event(&whatsapp_config(), &payload).expect("event");
    assert_eq!(event.chat_id, "15551230000");
    assert_eq!(event.sender_name, "Client");
    assert_eq!(event.text, "hello");
}

#[test]
fn whatsapp_events_name_their_sender_and_session() {
    let payload = payload(
        "messages",
        vec![contact("1", Some("Other")), contact("2", None), contact("2", Some("Late"))],
        vec![text_message("2", "  hi \n")],
    );
    let event = normalize_webhook_event(&whatsapp_config(), &payload).expect("event");
    assert_eq!(event.account_id, "default");
    assert_eq!(event.sender_id, "2");
    assert_eq!(event.sender_name, "2");
    assert_eq!(event.message_id, "wamid.1");
    assert_eq!(event.text, "hi");
    assert_eq!(event.session_key(), "whatsapp:default:2");
    assert_eq!(event.reply_target().session_key(), event.session_key());
}

#[test]
fn whatsapp_search_goes_on_or_stops() {
    let mut config = whatsapp_config();
    config.allowed_senders = vec!["2".to_string()];
    let mut sticker = text_message("2", "x");
    sticker.message_type = "sticker".to_string();
    let found = payload(
        "messages",
        Vec::new(),
        vec![sticker, text_message("1", "no"), text_message("2", "yes")],
    );
    assert_eq!(
        normalize_webhook_event(&config, &found).expect("event").text,
        "yes"
    );
    let blank_first = payload(
        "messages",
        Vec::new(),
        vec![text_message("1", "  "), text_message("2", "yes")],
    );
    assert_eq!(normalize_webhook_event(&config, &blank_first), None);
    let statuses = payload("statuses", Vec::new(), vec![text_message("2", "yes")]);
    assert_eq!(normalize_webhook_event(&config, &statuses), None);
    let empty = WhatsAppWebhookPayload { entry: Vec::new() };
    assert_eq!(normalize_webhook_event(&config, &empty), None);
}

#[test]
fn whatsapp_texts_are_sent_with_the_token() {
    let mut config = app_config(Some(whatsapp_config()));
    let target = WhatsAppReplyTarget {
        account_id: "default".to_string(),
        chat_id: "15551230000".to_string(),
    };
    let call = whatsapp_text_call(&config, &target, "hello").expect("call");
    assert_eq!(call.url, "https://graph.facebook.com/v21.0/phone/messages");
    assert_eq!(call.bearer_token, "token");
    let expected: serde_json::Value = serde_json::from_str(
        r#"{"messaging_product":"whatsapp","to":"15551230000","type":"text",
            "text":{"body":"hello"}}"#,
    )
    .expect("json");
    assert_eq!(call.body, expected);
    config.whatsapp = None;
    assert_eq!(
        whatsapp_text_call(&config, &target, "hello").expect_err("error"),
        "whatsapp is not configured"
    );
}

fn markdown(text: &str, disable_notification: bool) -> TurnOutput {
    TurnOutput::Markdown {
        text: text.to_string(),
        disable_notification,
    }
}

fn media() -> TurnOutput {
    TurnOutput::Media {
        kind: MediaKind::Document,
        path: "/tmp/report.txt".to_string(),
        caption_markdown: Some("Attached report".to_string()),
        file_name: Some("final-report.txt".to_string()),
        mime_type: Some("text/plain".to_string()),
        disable_notification: true,
    }
}

#[test]
fn process_update_sends_each_turn_output_to_telegram() {
    let config = app_config(None);
    let target = ReplyTarget::telegram(100, None);
    let mut bodies = Vec::new();
    for output in [
        markdown("First intermediate", true),
        markdown("Second intermediate", true),
        markdown("Final answer", false),
    ] {
        match turn_output_delivery(&config, &target, output).expect("delivery") {
            Delivery::TelegramMessages(calls) => bodies.extend(calls),
            other => panic!("unexpected {other:?}"),
        }
    }
    assert_eq!(bodies.len(), 3);
    assert!(bodies.iter().all(|call| call.url.ends_with("/sendMessage")));
    let texts: Vec<Option<&str>> = bodies.iter().map(|call| call.body["text"].as_str()).collect();
    assert_eq!(
        texts,
        vec![Some("First intermediate"), Some("Second intermediate"), Some("Final answer")]
    );
    let silent: Vec<Option<bool>> = bodies
        .iter()
        .map(|call| call.body["disable_notification"].as_bool())
        .collect();
    assert_eq!(silent, vec![Some(true), Some(true), Some(false)]);
}

#[test]
fn process_update_routes_media_outputs_through_telegram_tooling() {
    let target = ReplyTarget::telegram(100, Some(777));
    let delivery = turn_output_delivery(&app_config(None), &target, media()).expect("delivery");
    let upload = match delivery {
        Delivery::TelegramUpload(upload) => upload,
        other => panic!("unexpected {other:?}"),
    };
    assert!(upload.url.ends_with("/sendDocument"));
    assert_eq!(upload.part_name, "document");
    assert_eq!(upload.file_name, "final-report.txt");
    assert!(upload
        .fields
        .contains(&("caption".to_string(), "Attached report".to_string())));
    assert!(upload
        .fields
        .contains(&("message_thread_id".to_string(), "777".to_string())));
    assert!(upload
        .fields
        .contains(&("disable_notification".to_string(), "true".to_string())));
}

#[test]
fn process_update_replies_inside_same_telegram_thread() {
    let target = ReplyTarget::telegram(100, Some(777));
    let delivery =
        turn_output_delivery(&app_config(None), &target, markdown("Threaded reply", true))
            .expect("delivery");
    match delivery {
        Delivery::TelegramMessages(calls) => {
            assert_eq!(calls[0].body["message_thread_id"].as_i64(), Some(777));
            assert_eq!(calls[0].body["text"].as_str(), Some("Threaded reply"));
            assert_eq!(calls[0].body["disable_notification"].as_bool(), Some(true));
        }
        other => panic!("unexpected {other:?}"),
    }
}

#[test]
fn what_cannot_be_delivered_is_refused() {
    let config = app_config(Some(whatsapp_config()));
    let conversation = ReplyTarget::WhatsApp(WhatsAppReplyTarget {
        account_id: "default".to_string(),
        chat_id: "1".to_string(),
    });
    assert!(matches!(
        turn_output_delivery(&config, &conversation, markdown("hi", true)),
        Ok(Delivery::WhatsAppMessage(_))
    ));
    assert_eq!(
        turn_output_delivery(&config, &conversation, media()).expect_err("error"),
        "WhatsApp media delivery is not implemented yet"
    );
    assert_eq!(
        turn_output_delivery(&app_config(None), &conversation, markdown("hi", true))
            .expect_err("error"),
        "whatsapp is not configured"
    );
    let mattermost = ReplyTarget::Mattermost {
        account_id: "ops".to_string(),
        conversation_id: "c".to_string(),
    };
    assert_eq!(
        turn_output_delivery(&config, &mattermost, media()).expect_err("error"),
        "Mattermost reply delivery is not wired yet"
    );
    let rocket = ReplyTarget::RocketChat {
        account_id: "ops".to_string(),
        conversation_id: "c".to_string(),
    };
    assert_eq!(
        turn_output_delivery(&config, &rocket, markdown("hi", true)).expect_err("error"),
        "Rocket.Chat reply delivery is not wired yet"
    );
}

#[test]
fn routes_share_no_session() {
    let route = |channel, account: &str, conversation: &str, thread: Option<&str>| EventRoute {
        channel,
        account_id: account.to_string(),
        conversation_id: conversation.to_string(),
        thread_id: thread.map(|id| id.to_string()),
    };
    let routes = [
        route(ChannelKind::Telegram, "a", "b", None),
        route(ChannelKind::WhatsApp, "a", "b", None),
        route(ChannelKind::Mattermost, "a", "b", None),
        route(ChannelKind::RocketChat, "a", "b", None),
        route(ChannelKind::Telegram, "a", "b", Some("")),
        route(ChannelKind::Telegram, "a", "b", Some("c")),
        route(ChannelKind::Telegram, "a", "", Some("b")),
        route(ChannelKind::Telegram, "", "a", Some("b")),
        route(ChannelKind::Telegram, "ab", "", None),
    ];
    for (i, first) in routes.iter().enumerate() {
        for (k, second) in routes.iter().enumerate() {
            assert_eq!(first.session_key() == second.session_key(), i == k);
        }
    }
}
