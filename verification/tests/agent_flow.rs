//! The agent turn: iteration and retry bounds, context assembly with its
//! sliding window, session history and summarization cadence, and the
//! provider retry and failover policies.

use phoneclaw::agent::{
    blocked_tool_message, llm_retry_backoff_ms, max_iterations_message, provider_error_message,
    IterationStart, TurnState, LLM_RETRIES, MAX_ITERATIONS,
};
use phoneclaw::bus::{Event, MessageBus};
use phoneclaw::context::ContextBuilder;
use phoneclaw::errors::ProviderError;
use phoneclaw::permissions::ApprovedSkills;
use phoneclaw::provider::{
    failover_outcome, GenerationResponse, ReliableProvider, ToolCall, Usage,
};
use phoneclaw::adapter::telegram_update_decision;
use phoneclaw::provider::{
    anthropic_wire_messages, google_wire_messages, openai_wire_message, AnthropicWireMessage,
};
use phoneclaw::registry::ToolRegistry;
use phoneclaw::session::SessionManager;
use phoneclaw::types::{Message, Role};

fn response(content: &str) -> GenerationResponse {
    GenerationResponse { content: content.to_string(), tool_calls: vec![], usage: None }
}

fn user_msg(key: &str, content: &str) -> Message {
    Message::new("http", key, Role::User, content)
}

#[test]
fn turn_allows_ten_iterations_then_stops() {
    let mut turn = TurnState::new();
    for _ in 0..MAX_ITERATIONS {
        assert!(matches!(turn.start_iteration(), IterationStart::Proceed));
        turn.record_llm_call();
    }
    // The eleventh attempt is refused: the max-iterations notice goes out.
    assert!(matches!(turn.start_iteration(), IterationStart::MaxIterationsReached));
    assert!(turn.llm_calls <= MAX_ITERATIONS * LLM_RETRIES);
}

#[test]
fn turn_call_count_stays_under_budget() {
    let mut turn = TurnState::new();
    let mut total = 0;
    while matches!(turn.start_iteration(), IterationStart::Proceed) {
        while turn.can_retry_llm() {
            turn.record_llm_call();
            total += 1;
        }
    }
    assert_eq!(total, MAX_ITERATIONS * LLM_RETRIES);
    assert_eq!(turn.llm_calls, 30);
}

#[test]
fn llm_retry_backoff_doubles() {
    assert_eq!(llm_retry_backoff_ms(0), 1000);
    assert_eq!(llm_retry_backoff_ms(1), 2000);
    assert_eq!(llm_retry_backoff_ms(2), 4000);
}

#[test]
fn loop_messages_have_expected_wording() {
    assert_eq!(
        blocked_tool_message("read_file"),
        "Error: Tool 'read_file' is not authorized by any active skill."
    );
    assert_eq!(
        max_iterations_message(),
        "\u{26a0}\u{fe0f} I reached the maximum number of processing steps (10). My last response may be incomplete. Please try rephrasing your request."
    );
    assert!(provider_error_message("boom").ends_with("boom"));
}

#[test]
fn history_window_boundary_at_twenty() {
    let builder = ContextBuilder::new("/ws".to_string(), ApprovedSkills::new());
    let mut history: Vec<Message> = Vec::new();
    for i in 0..20 {
        history.push(user_msg("http:a", &format!("m{}", i)));
    }
    let built = builder.build("sys", &vec![], &history, None, "current");
    // system + 20 history + current, no omitted notice.
    assert_eq!(built.len(), 22);
    assert!(!built.iter().any(|m| m.content.contains("older messages omitted")));

    history.push(user_msg("http:a", "m20"));
    let built = builder.build("sys", &vec![], &history, None, "current");
    // system + notice + 20 newest + current.
    assert_eq!(built.len(), 23);
    assert_eq!(
        built[1].content,
        "[1 older messages omitted — see summary above for context]"
    );
    assert_eq!(built[2].content, "m1");
    assert_eq!(built[21].content, "m20");
    assert_eq!(built[22].content, "current");
}

#[test]
fn context_carries_summary_and_skills() {
    let builder = ContextBuilder::new("/ws".to_string(), ApprovedSkills::new());
    let history = vec![user_msg("http:a", "hello")];
    let summary = "we talked".to_string();
    let texts = vec!["Skill: notes\nbody".to_string()];
    let built = builder.build("sys", &texts, &history, Some(&summary), "now");
    assert_eq!(built[0].content, "sys");
    assert_eq!(built[1].content, "Previous conversation summary: we talked");
    assert_eq!(built[2].content, "Skill: notes\nbody");
    assert_eq!(built[3].content, "hello");
    assert_eq!(built[4].content, "now");
}

#[test]
fn allowed_tools_fall_back_to_safe_defaults() {
    let builder = ContextBuilder::new("/ws".to_string(), ApprovedSkills::new());
    let allowed = builder.get_allowed_tools(&vec![]);
    assert_eq!(
        allowed,
        vec![
            "read_file",
            "list_dir",
            "web_fetch",
            "web_search",
            "sessions_list",
            "sessions_history",
            "channel_health",
            "datetime_now"
        ]
    );
}

#[test]
fn history_returns_messages_in_insertion_order() {
    let mut sessions = SessionManager::new();
    for i in 0..5 {
        sessions.add_message("http:a", user_msg("http:a", &format!("m{}", i)), i);
    }
    let history = sessions.get_history("http:a", usize::MAX);
    assert_eq!(history.len(), 5);
    for (i, m) in history.iter().enumerate() {
        assert_eq!(m.content, format!("m{}", i));
    }
    // A capped read returns the oldest messages first.
    let capped = sessions.get_history("http:a", 2);
    assert_eq!(capped.len(), 2);
    assert_eq!(capped[0].content, "m0");
}

#[test]
fn trim_keeps_newest_and_counts_deleted() {
    let mut sessions = SessionManager::new();
    for i in 0..12 {
        sessions.add_message("http:a", user_msg("http:a", &format!("m{}", i)), i);
    }
    sessions.set_summary("http:a", "sum".to_string(), 12);
    let deleted = sessions.trim_history("http:a", 10);
    assert_eq!(deleted, 2);
    let history = sessions.get_history("http:a", usize::MAX);
    assert_eq!(history.len(), 10);
    assert_eq!(history[0].content, "m2");
    // The summary is never dropped while the session exists.
    assert_eq!(sessions.get_summary("http:a").as_deref(), Some("sum"));
}

#[test]
fn session_listing_is_newest_first() {
    let mut sessions = SessionManager::new();
    sessions.add_message("http:a", user_msg("http:a", "x"), 10);
    sessions.add_message("http:b", user_msg("http:b", "y"), 30);
    sessions.add_message("http:c", user_msg("http:c", "z"), 20);
    let rows = sessions.list_sessions(10);
    assert_eq!(rows.len(), 3);
    assert_eq!(rows[0].session_key, "http:b");
    assert_eq!(rows[1].session_key, "http:c");
    assert_eq!(rows[2].session_key, "http:a");
    assert_eq!(rows[0].message_count, 1);
    let capped = sessions.list_sessions(2);
    assert_eq!(capped.len(), 2);
    assert_eq!(capped[0].session_key, "http:b");
}

#[test]
fn summarize_threshold_and_interval() {
    let mut sessions = SessionManager::new();
    // Length 29: below the threshold.
    assert!(!sessions.should_summarize("http:a", 29, 1_000_000));
    // Length 30 with no prior summarization: scheduled.
    assert!(sessions.should_summarize("http:a", 30, 1_000_000));
    sessions.mark_summarized("http:a", 1_000_000);
    // Again at length 30 within five minutes: skipped.
    assert!(!sessions.should_summarize("http:a", 30, 1_000_000 + 299_999));
    // After the interval has passed: scheduled again.
    assert!(sessions.should_summarize("http:a", 30, 1_000_000 + 300_000));
}

#[test]
fn retry_classification_follows_message() {
    assert!(ReliableProvider::is_retryable(&ProviderError::NetworkError("x".to_string())));
    assert!(!ReliableProvider::is_retryable(&ProviderError::ConfigError("x".to_string())));
    assert!(ReliableProvider::is_retryable(&ProviderError::ApiError(
        "HTTP 429 Too Many Requests".to_string()
    )));
    assert!(ReliableProvider::is_retryable(&ProviderError::ApiError(
        "Service Unavailable".to_string()
    )));
    assert!(ReliableProvider::is_retryable(&ProviderError::ApiError(
        "temporarily overloaded".to_string()
    )));
    assert!(!ReliableProvider::is_retryable(&ProviderError::ApiError(
        "invalid api key".to_string()
    )));
}

#[test]
fn reliable_backoff_caps_at_two_seconds() {
    let p = ReliableProvider::new(2, 50);
    assert_eq!(p.base_backoff_ms, 100);
    assert_eq!(ReliableProvider::next_backoff_ms(100), 200);
    assert_eq!(ReliableProvider::next_backoff_ms(1500), 2000);
    assert!(p.should_retry(0, &ProviderError::NetworkError("x".to_string())));
    assert!(!p.should_retry(2, &ProviderError::NetworkError("x".to_string())));
}

#[test]
fn failover_takes_first_success_and_reports_recovery() {
    let names = vec!["openai".to_string(), "anthropic".to_string()];
    let outcomes = vec![
        Err(ProviderError::ApiError("503 Service Unavailable".to_string())),
        Ok(response("ok")),
    ];
    let (resp, winner) = failover_outcome(&names, outcomes).expect("second provider answers");
    assert_eq!(resp.content, "ok");
    // A non-first winner marks the recovery the log reports.
    assert_eq!(winner, 1);
}

#[test]
fn failover_aggregates_every_failure() {
    let names = vec!["openai".to_string(), "anthropic".to_string()];
    let outcomes: Vec<Result<GenerationResponse, ProviderError>> = vec![
        Err(ProviderError::ApiError("503".to_string())),
        Err(ProviderError::NetworkError("refused".to_string())),
    ];
    let err = failover_outcome(&names, outcomes).expect_err("all fail");
    let ProviderError::ApiError(m) = err else {
        panic!("wrong aggregate kind");
    };
    assert_eq!(
        m,
        "all providers failed; openai: API error: 503 | anthropic: Network error: refused"
    );
}

#[test]
fn openai_wire_translation() {
    let mut tool_msg = Message::new("agent", "http:a", Role::Tool, "file text");
    tool_msg.insert_metadata("tool_call_id".to_string(), "c1".to_string());
    let w = openai_wire_message(&tool_msg);
    assert_eq!(w.role, "tool");
    assert_eq!(w.tool_call_id.as_deref(), Some("c1"));
    assert_eq!(w.content.as_deref(), Some("file text"));

    let mut call_msg = Message::new("agent", "http:a", Role::Assistant, "");
    call_msg.insert_metadata("tool_calls_json".to_string(), "[{\"id\":\"c1\"}]".to_string());
    let w = openai_wire_message(&call_msg);
    assert_eq!(w.role, "assistant");
    assert!(w.content.is_none());
    assert_eq!(w.tool_calls_json.as_deref(), Some("[{\"id\":\"c1\"}]"));

    let w = openai_wire_message(&user_msg("http:a", "hi"));
    assert_eq!(w.role, "user");
    assert_eq!(w.content.as_deref(), Some("hi"));
}

#[test]
fn anthropic_wire_translation() {
    let mut tool_msg = Message::new("agent", "http:a", Role::Tool, "result");
    tool_msg.insert_metadata("tool_call_id".to_string(), "tu_1".to_string());
    let messages = vec![
        Message::new("system", "global", Role::System, "be brief"),
        user_msg("http:a", "hello"),
        Message::new("system", "global", Role::System, "stay kind"),
        Message::new("agent", "http:a", Role::Assistant, "working"),
        tool_msg,
    ];
    let (system, wire) = anthropic_wire_messages(&messages);
    assert_eq!(system, "be brief\n\nstay kind");
    assert_eq!(wire.len(), 3);
    assert!(matches!(&wire[0],
        AnthropicWireMessage::Text { role, content } if *role == "user" && content == "hello"));
    assert!(matches!(&wire[1],
        AnthropicWireMessage::Text { role, content } if *role == "assistant" && content == "working"));
    assert!(matches!(&wire[2],
        AnthropicWireMessage::ToolResult { tool_use_id, content }
            if tool_use_id == "tu_1" && content == "result"));
}

#[test]
fn google_wire_translation() {
    let messages = vec![
        Message::new("system", "global", Role::System, "s"),
        user_msg("http:a", "q"),
        Message::new("agent", "http:a", Role::Assistant, "a"),
    ];
    let wire = google_wire_messages(&messages);
    assert_eq!(wire.len(), 3);
    assert_eq!(wire[0].role, "user");
    assert_eq!(wire[1].role, "user");
    assert_eq!(wire[2].role, "model");
    assert_eq!(wire[2].content, "a");
}

#[test]
fn telegram_updates_become_inbound_messages() {
    let m = telegram_update_decision(12345, "77", Some("hi there"), false, false)
        .expect("text update");
    assert_eq!(m.session_key, "telegram:12345");
    assert_eq!(m.sender_id, "77");
    assert_eq!(m.content, "hi there");
    let m = telegram_update_decision(-9, "77", None, true, false).expect("voice update");
    assert_eq!(m.session_key, "telegram:-9");
    assert!(m.content.contains("Voice message received"));
    let m = telegram_update_decision(5, "77", None, false, true).expect("photo update");
    assert_eq!(m.content, "[Photo received]");
    assert!(telegram_update_decision(5, "77", None, false, false).is_none());
}

#[test]
fn failover_refuses_an_empty_chain() {
    let err = failover_outcome(&vec![], vec![]).expect_err("no providers");
    assert!(matches!(err, ProviderError::ConfigError(_)));
}

#[test]
fn happy_text_turn_reaches_the_bus() {
    // POST /api/message publishes inbound; the turn answers and publishes
    // the assistant's outbound on the same session.
    let mut bus = MessageBus::new(100);
    let key = phoneclaw::types::make_session_key("http", "7e9");
    let inbound = Message::new("http", &key, Role::User, "hi").with_sender("http_client");
    bus.publish(Event::InboundMessage(inbound));

    let mut sessions = SessionManager::new();
    let mut turn = TurnState::new();
    assert!(matches!(turn.start_iteration(), IterationStart::Proceed));
    turn.record_llm_call();
    let model = response("hello there");
    assert!(model.tool_calls.is_empty());
    sessions.add_message(&key, Message::new("agent", &key, Role::Assistant, &model.content), 1);
    bus.publish(Event::OutboundMessage(
        Message::new("agent", &key, Role::Assistant, &model.content),
    ));

    assert_eq!(bus.events.len(), 2);
    let Event::OutboundMessage(out) = &bus.events[1] else {
        panic!("expected outbound");
    };
    assert_eq!(out.session_key, key);
    assert!(matches!(out.role, Role::Assistant));
    assert_eq!(out.content, "hello there");
}

#[test]
fn tool_turn_transcript_shape() {
    // First call asks for a tool; the result goes back as a tool message;
    // the second call answers.
    let key = "http:t1";
    let mut sessions = SessionManager::new();
    sessions.add_message(key, user_msg(key, "read it"), 0);
    let mut turn = TurnState::new();

    assert!(matches!(turn.start_iteration(), IterationStart::Proceed));
    turn.record_llm_call();
    let first = GenerationResponse {
        content: "".to_string(),
        tool_calls: vec![ToolCall {
            id: "c1".to_string(),
            name: "read_file".to_string(),
            arguments: "{\"path\":\"NOTES.md\"}".to_string(),
        }],
        usage: Some(Usage { input_tokens: 3, output_tokens: 2 }),
    };
    let allowed = vec!["read_file".to_string()];
    assert!(ToolRegistry::is_tool_allowed(&first.tool_calls[0].name, &allowed));
    let mut tool_msg = Message::new("agent", key, Role::Tool, "...file contents...");
    tool_msg.insert_metadata("tool_call_id".to_string(), first.tool_calls[0].id.clone());
    sessions.add_message(key, tool_msg, 1);

    assert!(matches!(turn.start_iteration(), IterationStart::Proceed));
    turn.record_llm_call();
    let second = response("done");
    sessions.add_message(key, Message::new("agent", key, Role::Assistant, &second.content), 2);

    let history = sessions.get_history(key, usize::MAX);
    assert_eq!(history.len(), 3);
    assert!(matches!(history[0].role, Role::User));
    assert!(matches!(history[1].role, Role::Tool));
    assert_eq!(history[1].metadata[0], ("tool_call_id".to_string(), "c1".to_string()));
    assert!(matches!(history[2].role, Role::Assistant));
    assert_eq!(history[2].content, "done");
    assert_eq!(turn.llm_calls, 2);
}

#[test]
fn default_deny_blocks_the_tool_call() {
    // The same tool turn with an empty allow-list: the tool never runs and
    // the model sees the refusal as a tool message.
    let allowed: Vec<String> = vec![];
    assert!(!ToolRegistry::is_tool_allowed("read_file", &allowed));
    let feedback = blocked_tool_message("read_file");
    assert_eq!(feedback, "Error: Tool 'read_file' is not authorized by any active skill.");
    let registry = ToolRegistry::new();
    assert!(registry.list_definitions_for_permissions(&allowed).is_empty());
}
