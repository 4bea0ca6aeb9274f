//! Gateway rules: bearer auth, webhook signatures, deduplication, webhook
//! ingestion, the verification handshake and the runtime clamps.

use phoneclaw::bus::{Event, MessageBus};
use phoneclaw::dedupe::DedupeCache;
use phoneclaw::gateway::{
    check_auth, clamp_limit, handle_whatsapp_webhook, ingest_inbound, slack_event_decision,
    verify_slack_signature, verify_whatsapp_signature, whatsapp_verify_decision,
    ws_connected_label, ws_event_envelope_label, ws_heartbeat_label, ws_lagged_label,
    GatewayRuntimeConfig, SlackEventPayload, SlackInboundDecision, WhatsAppVerifyOutcome,
    WhatsAppWebhookMessage,
};

fn payload(kind: &str) -> SlackEventPayload {
    SlackEventPayload {
        payload_type: kind.to_string(),
        challenge: None,
        event_type: None,
        bot_id_present: false,
        subtype: None,
        channel: None,
        text: None,
        thread_ts: None,
        ts: None,
    }
}

#[test]
fn bearer_auth_matches_exactly() {
    let token = Some("t0ken".to_string());
    assert!(check_auth(&None, None));
    assert!(check_auth(&token, Some(&"Bearer t0ken".to_string())));
    assert!(!check_auth(&token, Some(&"Bearer wrong".to_string())));
    assert!(!check_auth(&token, Some(&"t0ken".to_string())));
    assert!(!check_auth(&token, None));
}

#[test]
fn whatsapp_signature_accepts_correct_hmac() {
    let body: Vec<u8> = b"{\"object\":\"whatsapp\"}".to_vec();
    let header = "sha256=eabcf4d1c87b14c9d910927cded10e588abaf056817dfae01f3d3b2d49b93b12"
        .to_string();
    assert!(verify_whatsapp_signature(Some(&header), &body, "testsecret"));
    let upper = "sha256=EABCF4D1C87B14C9D910927CDED10E588ABAF056817DFAE01F3D3B2D49B93B12"
        .to_string();
    assert!(verify_whatsapp_signature(Some(&upper), &body, "testsecret"));
}

#[test]
fn whatsapp_signature_rejects_bad_input() {
    let body: Vec<u8> = b"{\"object\":\"whatsapp\"}".to_vec();
    let header = "sha256=eabcf4d1c87b14c9d910927cded10e588abaf056817dfae01f3d3b2d49b93b12"
        .to_string();
    assert!(!verify_whatsapp_signature(None, &body, "testsecret"));
    assert!(!verify_whatsapp_signature(Some(&header), &body, "othersecret"));
    let tampered: Vec<u8> = b"{\"object\":\"whatsapp!\"}".to_vec();
    assert!(!verify_whatsapp_signature(Some(&header), &tampered, "testsecret"));
    let unprefixed = "eabcf4d1".to_string();
    assert!(!verify_whatsapp_signature(Some(&unprefixed), &body, "testsecret"));
}

#[test]
fn slack_signature_checks_freshness_and_hmac() {
    let body: Vec<u8> = b"{\"a\":1}".to_vec();
    let sig = "v0=b6284b3a284beb5087ed9ec27b05bc7ce1ec5323e616ebee1faa9061f848689f".to_string();
    let now = 1531420618 + 100;
    assert!(verify_slack_signature(Some("1531420618"), Some(&sig), &body, "slacksecret", now));
    // Stale timestamp.
    assert!(!verify_slack_signature(
        Some("1531420618"),
        Some(&sig),
        &body,
        "slacksecret",
        1531420618 + 301
    ));
    // Missing pieces and wrong secret.
    assert!(!verify_slack_signature(None, Some(&sig), &body, "slacksecret", now));
    assert!(!verify_slack_signature(Some("1531420618"), None, &body, "slacksecret", now));
    assert!(!verify_slack_signature(Some("1531420618"), Some(&sig), &body, "other", now));
    assert!(!verify_slack_signature(Some("junk"), Some(&sig), &body, "slacksecret", now));
}

#[test]
fn dedupe_sees_repeat_within_window() {
    let mut cache = DedupeCache::new();
    assert!(!cache.seen("whatsapp:wamid.1", 1000, 600, 2048));
    assert!(cache.seen("whatsapp:wamid.1", 1030, 600, 2048));
    assert!(!cache.seen("whatsapp:wamid.2", 1030, 600, 2048));
}

#[test]
fn dedupe_forgets_after_ttl() {
    let mut cache = DedupeCache::new();
    assert!(!cache.seen("k", 1000, 600, 2048));
    assert!(!cache.seen("k", 1000 + 601, 600, 2048));
    assert!(cache.seen("k", 1000 + 650, 600, 2048));
}

#[test]
fn webhook_dedupe_publishes_exactly_once() {
    let mut bus = MessageBus::new(100);
    let mut cache = DedupeCache::new();
    let delivery = vec![WhatsAppWebhookMessage {
        from: "15551234".to_string(),
        text: "hello".to_string(),
        message_id: Some("wamid.1".to_string()),
        sender_name: Some("Ada".to_string()),
    }];
    let first = handle_whatsapp_webhook(&mut bus, &mut cache, &delivery, 1000, 2048);
    let second = handle_whatsapp_webhook(&mut bus, &mut cache, &delivery, 1030, 2048);
    assert_eq!(first, 1);
    assert_eq!(second, 0);
    assert_eq!(bus.inbound.len(), 1);
    assert_eq!(bus.inbound[0].session_key, "whatsapp:15551234");
    assert_eq!(bus.inbound[0].content, "hello");
}

#[test]
fn webhook_skips_empty_entries() {
    let mut bus = MessageBus::new(100);
    let mut cache = DedupeCache::new();
    let delivery = vec![
        WhatsAppWebhookMessage {
            from: "".to_string(),
            text: "x".to_string(),
            message_id: None,
            sender_name: None,
        },
        WhatsAppWebhookMessage {
            from: "1".to_string(),
            text: "".to_string(),
            message_id: None,
            sender_name: None,
        },
    ];
    assert_eq!(handle_whatsapp_webhook(&mut bus, &mut cache, &delivery, 5, 2048), 0);
    assert_eq!(bus.events.len(), 0);
}

#[test]
fn ingest_builds_valid_session_keys() {
    let mut bus = MessageBus::new(100);
    let mut cache = DedupeCache::new();
    let published = ingest_inbound(
        &mut bus,
        &mut cache,
        "zalo",
        "user42",
        "hi",
        None,
        None,
        "zalo_message_id",
        Some("m1"),
        10,
        2048,
    );
    assert!(published);
    assert!(phoneclaw::types::is_valid_session_key(&bus.inbound[0].session_key));
    assert_eq!(bus.inbound[0].session_key, "zalo:user42");
    assert_eq!(bus.inbound[0].sender_id, "user42");
}

#[test]
fn whatsapp_verify_handshake() {
    let expected = Some("vtok".to_string());
    let mode = "subscribe".to_string();
    let token = "vtok".to_string();
    let challenge = "1158201444".to_string();
    let outcome =
        whatsapp_verify_decision(Some(&mode), Some(&token), Some(&challenge), &expected);
    let WhatsAppVerifyOutcome::Challenge(c) = outcome else {
        panic!("expected challenge echo");
    };
    assert_eq!(c, "1158201444");

    let bad_mode = "unsubscribe".to_string();
    assert!(matches!(
        whatsapp_verify_decision(Some(&bad_mode), Some(&token), Some(&challenge), &expected),
        WhatsAppVerifyOutcome::BadMode
    ));
    let wrong = "other".to_string();
    assert!(matches!(
        whatsapp_verify_decision(Some(&mode), Some(&wrong), Some(&challenge), &expected),
        WhatsAppVerifyOutcome::BadToken
    ));
    assert!(matches!(
        whatsapp_verify_decision(Some(&mode), Some(&token), Some(&challenge), &None),
        WhatsAppVerifyOutcome::BadToken
    ));
}

#[test]
fn slack_decision_echoes_challenge() {
    let mut p = payload("url_verification");
    p.challenge = Some("c0ffee".to_string());
    let SlackInboundDecision::Challenge(c) = slack_event_decision(&p) else {
        panic!("expected challenge");
    };
    assert_eq!(c, "c0ffee");
}

#[test]
fn slack_decision_filters_events() {
    let mut p = payload("event_callback");
    p.event_type = Some("reaction_added".to_string());
    assert!(matches!(slack_event_decision(&p), SlackInboundDecision::IgnoredNonMessageEvent));

    p.event_type = Some("message".to_string());
    p.bot_id_present = true;
    assert!(matches!(slack_event_decision(&p), SlackInboundDecision::IgnoredBotEvent));

    p.bot_id_present = false;
    p.subtype = Some("message_changed".to_string());
    assert!(matches!(slack_event_decision(&p), SlackInboundDecision::IgnoredBotEvent));

    p.subtype = None;
    assert!(matches!(
        slack_event_decision(&p),
        SlackInboundDecision::IgnoredIncompleteMessage
    ));

    p.channel = Some("C123".to_string());
    p.text = Some("hi".to_string());
    p.thread_ts = Some("111.22".to_string());
    let SlackInboundDecision::Process(key) = slack_event_decision(&p) else {
        panic!("expected processing");
    };
    assert_eq!(key, "slack:C123:111.22");

    p.thread_ts = None;
    p.ts = Some("333.44".to_string());
    let SlackInboundDecision::Process(key) = slack_event_decision(&p) else {
        panic!("expected processing");
    };
    assert_eq!(key, "slack:C123:333.44");
}

#[test]
fn limits_and_defaults() {
    assert_eq!(clamp_limit(0, 1, 100), 1);
    assert_eq!(clamp_limit(1000, 1, 500), 500);
    assert_eq!(clamp_limit(42, 1, 100), 42);
    assert_eq!(phoneclaw::gateway::default_sessions_limit(), 20);
    assert_eq!(phoneclaw::gateway::default_messages_limit(), 100);
    assert_eq!(phoneclaw::gateway::default_session_send_channel(), "api.sessions");
    let runtime = GatewayRuntimeConfig::default();
    assert_eq!(runtime.ws_heartbeat_secs, 15);
    assert_eq!(runtime.health_window_minutes, 60);
    assert_eq!(runtime.dedupe_max_entries, 2048);
}

#[test]
fn ws_envelope_labels() {
    let inbound = Event::InboundMessage(phoneclaw::types::Message::new(
        "http",
        "http:a",
        phoneclaw::types::Role::User,
        "x",
    ));
    assert_eq!(ws_event_envelope_label(&inbound), "inbound_message");
    let outbound = Event::OutboundMessage(phoneclaw::types::Message::new(
        "agent",
        "http:a",
        phoneclaw::types::Role::Assistant,
        "y",
    ));
    assert_eq!(ws_event_envelope_label(&outbound), "outbound_message");
    let log = Event::SystemLog { level: "info".to_string(), message: "m".to_string() };
    assert_eq!(ws_event_envelope_label(&log), "system_log");
    assert_eq!(ws_connected_label(), "connected");
    assert_eq!(ws_heartbeat_label(), "heartbeat");
    assert_eq!(ws_lagged_label(), "lagged");
}

#[test]
fn bus_keeps_publish_order_and_mirrors_inbound() {
    let mut bus = MessageBus::new(100).with_metrics();
    let m1 = phoneclaw::types::Message::new(
        "http",
        "http:a",
        phoneclaw::types::Role::User,
        "first",
    );
    let m2 = phoneclaw::types::Message::new(
        "agent",
        "http:a",
        phoneclaw::types::Role::Assistant,
        "second",
    );
    bus.publish(Event::InboundMessage(m1));
    bus.publish(Event::OutboundMessage(m2));
    assert_eq!(bus.events.len(), 2);
    assert_eq!(bus.inbound.len(), 1);
    assert_eq!(bus.metrics.messages_in, 1);
    assert_eq!(bus.metrics.messages_out, 1);

    let mut sub = phoneclaw::bus::Subscription { cursor: 0 };
    let first = bus.recv(&mut sub).expect("first event");
    let second = bus.recv(&mut sub).expect("second event");
    assert!(matches!(first, Event::InboundMessage(ref m) if m.content == "first"));
    assert!(matches!(second, Event::OutboundMessage(ref m) if m.content == "second"));
    assert!(bus.recv(&mut sub).is_none());
}

#[test]
fn session_key_grammar() {
    assert!(phoneclaw::types::is_valid_session_key("whatsapp:15551234"));
    assert!(phoneclaw::types::is_valid_session_key("google_chat:space:thread"));
    assert!(phoneclaw::types::is_valid_session_key("http:"));
    assert!(!phoneclaw::types::is_valid_session_key("nocolon"));
    assert!(!phoneclaw::types::is_valid_session_key(":missing"));
    assert!(!phoneclaw::types::is_valid_session_key("Upper:case"));
    assert!(!phoneclaw::types::is_valid_session_key("http:with space"));
    assert_eq!(phoneclaw::types::make_session_key("http", "with space"), "http:withspace");
}
