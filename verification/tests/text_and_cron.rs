//! Text processing (HTML extraction, domains, sheet names, splitting,
//! parsing) and the cron and adapter policies.

use phoneclaw::adapter::{
    build_google_chat_url, jitter_delay_ms, outbound_target, retry_delay_ms, split_for_transport,
};
use phoneclaw::bus::MessageBus;
use phoneclaw::cron::{CronJob, CronPayload, CronJobState, CronSchedule, CronService, CronStore};
use phoneclaw::heartbeat::HeartbeatService;
use phoneclaw::sheets::sanitize_sheet_name;
use phoneclaw::skills::extract_frontmatter;
use phoneclaw::text::parse_decimal_i64;
use phoneclaw::web::{extract_domain, html_to_text, is_search_engine_query_url, domain_allowed};

fn every(ms: i64) -> CronSchedule {
    CronSchedule { kind: "every".to_string(), at_ms: None, every_ms: Some(ms), expr: None }
}

#[test]
fn html_to_text_strips_tags_and_collapses() {
    let html = "<html><body><p>Hello to all</p>\n\n<b>friends</b></body></html>";
    assert_eq!(html_to_text(html), "Hello to all friends");
}

#[test]
fn html_to_text_is_idempotent_on_plain_pages() {
    let html = "<p>  alpha <i>beta</i>\n gamma  </p>";
    let once = html_to_text(html);
    let twice = html_to_text(&once);
    assert_eq!(once, "alpha beta gamma");
    assert_eq!(twice, once);
}

#[test]
fn html_to_text_is_idempotent_on_escaped_text() {
    // Entities pass through unchanged, so a second extraction is a no-op
    // even on pre-escaped text.
    let once = html_to_text("&amp;lt;");
    assert_eq!(once, "&amp;lt;");
    assert_eq!(html_to_text(&once), once);
}

#[test]
fn domains_come_out_lowercased() {
    assert_eq!(extract_domain("https://Example.COM/path?q=1"), "example.com");
    assert_eq!(extract_domain("http://host:8080/x"), "host");
    assert_eq!(extract_domain("plain.org/abc"), "plain.org");
}

#[test]
fn search_result_urls_are_refused() {
    let url = "https://www.google.com/search?q=verus";
    let domain = extract_domain(url);
    assert!(is_search_engine_query_url(url, &domain));
    let plain = "https://www.google.com/maps";
    assert!(!is_search_engine_query_url(plain, &extract_domain(plain)));
    let other = "https://example.com/search?q=x";
    assert!(!is_search_engine_query_url(other, &extract_domain(other)));
    let sub = "https://news.google.com/?q=x";
    assert!(is_search_engine_query_url(sub, &extract_domain(sub)));
}

#[test]
fn allowlist_admits_by_suffix() {
    let allow = vec!["example.com".to_string()];
    assert!(domain_allowed(&allow, "example.com"));
    assert!(domain_allowed(&allow, "api.example.com"));
    assert!(!domain_allowed(&allow, "example.org"));
    assert!(domain_allowed(&vec![], "anything.at.all"));
}

#[test]
fn sheet_names_sanitize_and_stay_put() {
    assert_eq!(sanitize_sheet_name("whatsapp:15551234"), "whatsapp_15551234");
    assert_eq!(sanitize_sheet_name("a/b\\c*d?e[f]g"), "a_b_c_d_e(f)g");
    let long = "x".repeat(150);
    let cut = sanitize_sheet_name(&long);
    assert_eq!(cut.chars().count(), 100);
    // Sanitizing is idempotent.
    let once = sanitize_sheet_name("odd:[name]/with*junk?");
    assert_eq!(sanitize_sheet_name(&once), once);
}

#[test]
fn frontmatter_splits_fenced_files() {
    let (fm, body) = extract_frontmatter("---\n{\"name\":\"n\"}\n---\nbody text");
    assert_eq!(fm, "{\"name\":\"n\"}");
    assert_eq!(body, "body text");
    let (fm, body) = extract_frontmatter("no fences here");
    assert_eq!(fm, "{}");
    assert_eq!(body, "no fences here");
}

#[test]
fn decimal_parsing_is_strict() {
    assert_eq!(parse_decimal_i64("1531420618"), Some(1531420618));
    assert_eq!(parse_decimal_i64("0"), Some(0));
    assert_eq!(parse_decimal_i64(""), None);
    assert_eq!(parse_decimal_i64("12a"), None);
    assert_eq!(parse_decimal_i64("-5"), None);
    assert_eq!(parse_decimal_i64("9223372036854775807"), Some(i64::MAX));
    assert_eq!(parse_decimal_i64("9223372036854775808"), None);
}

#[test]
fn adapter_retry_schedule() {
    // Exactly three attempts, delays doubling from one second.
    assert_eq!(phoneclaw::adapter::ADAPTER_RETRY_ATTEMPTS, 3);
    assert_eq!(retry_delay_ms(1), 1000);
    assert_eq!(retry_delay_ms(2), 2000);
    assert_eq!(retry_delay_ms(3), 4000);
}

#[test]
fn jitter_is_bounded_and_seeded() {
    assert_eq!(jitter_delay_ms(0, 1, 123456), 0);
    for attempt in 1..=3 {
        let j = jitter_delay_ms(150, attempt, 987654);
        assert!(j <= 150);
    }
    assert_eq!(jitter_delay_ms(150, 2, 1000), (1000u64 ^ (2 << 7)) % 151);
}

#[test]
fn outbound_targets_follow_session_keys() {
    let t = outbound_target("slack:C1:111.22", "slack:").expect("slack key");
    assert_eq!(t.peer.as_deref(), Some("C1"));
    assert_eq!(t.sub.as_deref(), Some("111.22"));
    let t = outbound_target("slack:C1", "slack:").expect("slack key");
    assert_eq!(t.peer.as_deref(), Some("C1"));
    assert!(t.sub.is_none());
    assert!(outbound_target("telegram:5", "slack:").is_none());
    let t = outbound_target("slack:", "slack:").expect("bare key");
    assert!(t.peer.is_none());
}

#[test]
fn google_chat_url_gains_thread_key() {
    assert_eq!(build_google_chat_url("https://chat/api", None), "https://chat/api");
    assert_eq!(
        build_google_chat_url("https://chat/api", Some("tk")),
        "https://chat/api?threadKey=tk"
    );
    assert_eq!(
        build_google_chat_url("https://chat/api?key=k", Some("tk")),
        "https://chat/api?key=k&threadKey=tk"
    );
    assert_eq!(build_google_chat_url("https://chat/api", Some("")), "https://chat/api");
}

#[test]
fn transport_splitting_respects_the_limit() {
    let chunks = split_for_transport("short line", 100);
    assert_eq!(chunks, vec!["short line"]);
    let text = "aaaa\nbbbb\ncccc";
    let chunks = split_for_transport(text, 9);
    assert!(chunks.iter().all(|c| c.chars().count() <= 9));
    assert!(chunks.len() >= 2);
    let long = "x".repeat(25);
    let chunks = split_for_transport(&long, 10);
    assert_eq!(chunks.len(), 3);
    assert!(chunks.iter().all(|c| c.chars().count() <= 10));
    assert_eq!(split_for_transport("", 5), vec![""]);
}

#[test]
fn cron_next_run_rules() {
    let now = 1_000_000;
    let at_future = CronSchedule {
        kind: "at".to_string(),
        at_ms: Some(now + 50),
        every_ms: None,
        expr: None,
    };
    assert_eq!(CronService::compute_next_run(&at_future, now), Some(now + 50));
    let at_past =
        CronSchedule { kind: "at".to_string(), at_ms: Some(now - 1), every_ms: None, expr: None };
    assert_eq!(CronService::compute_next_run(&at_past, now), None);
    assert_eq!(CronService::compute_next_run(&every(10_000), now), Some(now + 10_000));
    assert_eq!(CronService::compute_next_run(&every(0), now), None);
    let odd = CronSchedule {
        kind: "monthly".to_string(),
        at_ms: None,
        every_ms: Some(5),
        expr: None,
    };
    assert_eq!(CronService::compute_next_run(&odd, now), None);
}

#[test]
fn cron_jobs_fire_and_reschedule() {
    let mut service = CronService::new(CronStore::default());
    let job = service.add_job(
        "remind".to_string(),
        every(10_000),
        "drink water".to_string(),
        false,
        Some("telegram".to_string()),
        None,
        1_000_000,
    );
    assert!(job.enabled);
    let mut bus = MessageBus::new(100);
    service.tick(&mut bus, 1_000_000 + 10_000);
    assert_eq!(bus.inbound.len(), 1);
    assert_eq!(bus.inbound[0].channel, "cron");
    assert_eq!(bus.inbound[0].session_key, "cron:telegram");
    assert_eq!(bus.inbound[0].sender_id, "system");
    assert_eq!(bus.inbound[0].content, "drink water");
    let jobs = service.list_jobs(true);
    assert_eq!(jobs.len(), 1);
    assert_eq!(jobs[0].state.next_run_at_ms, Some(1_000_000 + 20_000));
}

#[test]
fn disabling_a_job_clears_its_next_run() {
    let mut service = CronService::new(CronStore::default());
    let job = service.add_job(
        "remind".to_string(),
        every(10_000),
        "hey".to_string(),
        false,
        None,
        None,
        7,
    );
    let updated = service.enable_job(&job.id, false, 100).expect("job exists");
    assert!(!updated.enabled);
    assert!(updated.state.next_run_at_ms.is_none());
    let updated = service.enable_job(&job.id, true, 200).expect("job exists");
    assert_eq!(updated.state.next_run_at_ms, Some(200 + 10_000));
    assert!(service.enable_job("nope", true, 0).is_none());
    assert!(service.remove_job(&job.id));
    assert!(!service.remove_job(&job.id));
}

#[test]
fn one_shot_jobs_disappear_after_firing() {
    let mut service = CronService::new(CronStore::default());
    let mut jobs = Vec::new();
    jobs.push(CronJob {
        id: "j1".to_string(),
        name: "once".to_string(),
        enabled: true,
        schedule: CronSchedule {
            kind: "at".to_string(),
            at_ms: Some(50),
            every_ms: None,
            expr: None,
        },
        payload: CronPayload {
            kind: "agent_turn".to_string(),
            message: "go".to_string(),
            deliver: false,
            channel: None,
            to: None,
        },
        state: CronJobState {
            next_run_at_ms: Some(50),
            last_run_at_ms: None,
            last_status: None,
            last_error: None,
        },
        created_at_ms: 0,
        updated_at_ms: 0,
        delete_after_run: true,
    });
    service.store.jobs = jobs;
    let mut bus = MessageBus::new(100);
    service.tick(&mut bus, 100);
    assert_eq!(bus.inbound.len(), 1);
    assert_eq!(bus.inbound[0].session_key, "cron:j1");
    assert!(service.list_jobs(true).is_empty());
}

#[test]
fn heartbeat_state_and_prompt() {
    let mut hb = HeartbeatService::new("/ws".to_string(), 1800, true);
    assert!(!hb.running);
    hb.start();
    assert!(hb.running);
    hb.stop();
    assert!(!hb.running);
    let prompt = phoneclaw::heartbeat::build_prompt("2024-05-01 10:00", "notes");
    assert!(prompt.starts_with("# Heartbeat Check\n\nCurrent time: 2024-05-01 10:00"));
    assert!(prompt.ends_with("notes\n"));
}

#[test]
fn runtime_clamps_apply() {
    let cfg = phoneclaw::config::AppConfig {
        workspace: "/ws".to_string(),
        agents: phoneclaw::config::AgentsConfig {
            default: phoneclaw::config::AgentDefaultConfig {
                model: "m".to_string(),
                system_prompt: "s".to_string(),
                max_tokens: 1024,
                temperature_milli: 200,
            },
        },
        providers: phoneclaw::config::ProvidersConfig {
            openai: None,
            openrouter: None,
            anthropic: None,
            google: None,
            groq: None,
        },
        whatsapp: None,
        telegram: None,
        slack: None,
        discord: None,
        signal: None,
        imessage: Some(phoneclaw::config::IMessageConfig { enabled: false }),
        teams: None,
        matrix: None,
        zalo: None,
        google_chat: None,
        webchat: Some(phoneclaw::config::WebChatConfig { enabled: false }),
        web: None,
        google_sheets: None,
        runtime: Some(phoneclaw::config::RuntimeConfig {
            ws_heartbeat_secs: Some(1),
            health_window_minutes: Some(200),
            dedupe_max_entries: Some(50),
            adapter_max_inflight: Some(99),
            adapter_retry_jitter_ms: Some(9999),
        }),
        attachment_policy: Default::default(),
    };
    assert!(cfg.configured_channels().is_empty());
    assert_eq!(phoneclaw::config::runtime_adapter_max_inflight(&cfg), 8);
    assert_eq!(phoneclaw::config::runtime_adapter_retry_jitter_ms(&cfg), 2000);
    let g = phoneclaw::config::runtime_gateway_config(&cfg);
    assert_eq!(g.ws_heartbeat_secs, 3);
    assert_eq!(g.health_window_minutes, 60);
    assert_eq!(g.dedupe_max_entries, 128);
}

#[test]
fn configured_channels_respects_enabled_flags() {
    let mut cfg = phoneclaw::config::AppConfig {
        workspace: "/ws".to_string(),
        agents: phoneclaw::config::AgentsConfig {
            default: phoneclaw::config::AgentDefaultConfig {
                model: "m".to_string(),
                system_prompt: "s".to_string(),
                max_tokens: 1024,
                temperature_milli: 200,
            },
        },
        providers: phoneclaw::config::ProvidersConfig {
            openai: None,
            openrouter: None,
            anthropic: None,
            google: None,
            groq: None,
        },
        whatsapp: Some(phoneclaw::config::WhatsAppConfig {
            token: "t".to_string(),
            api_base: None,
            phone_number_id: None,
            default_to: None,
            verify_token: None,
            app_secret: None,
        }),
        telegram: Some(phoneclaw::config::TelegramConfig { token: "t".to_string() }),
        slack: None,
        discord: None,
        signal: None,
        imessage: Some(phoneclaw::config::IMessageConfig { enabled: true }),
        teams: None,
        matrix: None,
        zalo: None,
        google_chat: None,
        webchat: Some(phoneclaw::config::WebChatConfig { enabled: false }),
        web: None,
        google_sheets: None,
        runtime: None,
        attachment_policy: Default::default(),
    };
    let channels = cfg.configured_channels();
    assert_eq!(channels, vec!["whatsapp", "telegram", "imessage"]);
    cfg.imessage = Some(phoneclaw::config::IMessageConfig { enabled: false });
    let configured = cfg.configured_channels();
    assert!(!configured.contains(&"imessage"));
    assert!(!configured.contains(&"webchat"));
}

#[test]
fn rolling_counter_window() {
    let mut counter = phoneclaw::health::RollingMinuteCounter::new();
    let base: i64 = 100 * 60_000;
    counter.observe(base);
    counter.observe(base);
    counter.observe(base + 60_000);
    assert_eq!(counter.sum_recent_minutes(base + 60_000, 60), 3);
    assert_eq!(counter.sum_recent_minutes(base + 60_000, 1), 1);
    // A gap wider than the window resets the buffer.
    assert_eq!(counter.sum_recent_minutes(base + 200 * 60_000, 60), 0);
}

#[test]
fn stability_labels() {
    assert_eq!(phoneclaw::health::stability_label(5, 0, 0), "unstable");
    assert_eq!(phoneclaw::health::stability_label(1, 0, 0), "degraded");
    assert_eq!(phoneclaw::health::stability_label(0, 0, 0), "idle");
    assert_eq!(phoneclaw::health::stability_label(0, 2, 1), "healthy");
    assert_eq!(phoneclaw::health::adapter_status_label(true, true), "running");
    assert_eq!(
        phoneclaw::health::adapter_status_label(true, false),
        "configured_pending_adapter"
    );
    assert_eq!(phoneclaw::health::adapter_status_label(false, true), "disabled");
}

#[test]
fn mime_and_size_policy() {
    let policy = phoneclaw::attachment::AttachmentPolicy::default();
    assert!(!policy.enabled);
    assert!(policy.mime_allowed("image/png"));
    assert!(!policy.mime_allowed("application/zip"));
    assert!(policy.size_within_limit(0, 1024));
    assert!(!policy.size_within_limit(policy.max_size_bytes, 1));
}

#[test]
fn session_tool_limits() {
    assert_eq!(phoneclaw::tools::default_limit(), 20);
    assert_eq!(phoneclaw::tools::default_history_limit(), 50);
    assert_eq!(phoneclaw::tools::default_send_channel(), "sessions_tool");
    assert_eq!(phoneclaw::tools::clamp_sessions_limit(0), 1);
    assert_eq!(phoneclaw::tools::clamp_sessions_limit(101), 100);
    assert_eq!(phoneclaw::tools::clamp_history_limit(500), 200);
    let mut bus = MessageBus::new(100);
    assert!(phoneclaw::tools::send_into_session(&mut bus, "api", "http:a", "hi"));
    assert!(!phoneclaw::tools::send_into_session(&mut bus, "api", "bad key", "hi"));
    assert_eq!(bus.inbound.len(), 1);
}
