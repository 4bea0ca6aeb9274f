//! Channel matrix, tool registry permissions, metrics and secrets.

use phoneclaw::channel::{
    is_native_channel_supported, native_supported_channels, target_personal_channels,
    CHANNEL_DISCORD, CHANNEL_GOOGLE_CHAT, CHANNEL_IMESSAGE, CHANNEL_MATRIX, CHANNEL_SIGNAL,
    CHANNEL_SLACK, CHANNEL_TEAMS, CHANNEL_TELEGRAM, CHANNEL_WEBCHAT, CHANNEL_WHATSAPP,
    CHANNEL_ZALO,
};
use phoneclaw::metrics::MetricsStore;
use phoneclaw::permissions::{check_skill_permission, ApprovedSkills, PermissionCheck};
use phoneclaw::registry::{ToolDef, ToolRegistry};
use phoneclaw::errors::{ProviderError, ToolError};
use phoneclaw::secrets::{mask_secret, SecretsStore};

fn def(name: &str) -> ToolDef {
    ToolDef {
        name: name.to_string(),
        description: "dummy".to_string(),
        parameters: "{\"type\":\"object\",\"properties\":{}}".to_string(),
    }
}

#[test]
fn target_set_contains_requested_channels() {
    let channels = target_personal_channels();
    assert!(channels.contains(&CHANNEL_WHATSAPP));
    assert!(channels.contains(&CHANNEL_TELEGRAM));
    assert!(channels.contains(&CHANNEL_SLACK));
    assert!(channels.contains(&CHANNEL_DISCORD));
    assert!(channels.contains(&CHANNEL_SIGNAL));
    assert!(channels.contains(&CHANNEL_IMESSAGE));
    assert!(channels.contains(&CHANNEL_TEAMS));
    assert!(channels.contains(&CHANNEL_MATRIX));
    assert!(channels.contains(&CHANNEL_ZALO));
    assert!(channels.contains(&CHANNEL_GOOGLE_CHAT));
    assert!(channels.contains(&CHANNEL_WEBCHAT));
}

#[test]
fn support_matrix_is_explicit() {
    assert!(is_native_channel_supported(CHANNEL_WHATSAPP));
    assert!(is_native_channel_supported(CHANNEL_TELEGRAM));
    assert!(is_native_channel_supported(CHANNEL_DISCORD));
    assert!(is_native_channel_supported(CHANNEL_SLACK));
    assert!(is_native_channel_supported(CHANNEL_TEAMS));
    assert!(is_native_channel_supported(CHANNEL_ZALO));
    assert!(is_native_channel_supported(CHANNEL_GOOGLE_CHAT));
    assert!(!is_native_channel_supported(CHANNEL_WEBCHAT));
}

#[test]
fn native_list_matches_support_checks() {
    for name in native_supported_channels() {
        assert!(is_native_channel_supported(name));
    }
    assert!(!is_native_channel_supported("signal"));
    assert!(!is_native_channel_supported("imessage"));
    assert!(!is_native_channel_supported("matrix"));
}

#[test]
fn empty_allowed_list_denies_all_tools() {
    assert!(!ToolRegistry::is_tool_allowed("read_file", &vec![]));
}

#[test]
fn wildcard_allows_any_tool() {
    assert!(ToolRegistry::is_tool_allowed("read_file", &vec!["*".to_string()]));
    assert!(ToolRegistry::is_tool_allowed("android_action", &vec!["*".to_string()]));
}

#[test]
fn register_and_get_tool() {
    let mut registry = ToolRegistry::new();
    registry.register(def("dummy"));

    let tool = registry.get("dummy");
    assert!(tool.is_some());
    assert_eq!(tool.expect("tool").name, "dummy");
}

#[test]
fn list_definitions_respects_permission_filter() {
    let mut registry = ToolRegistry::new();
    registry.register(def("a"));
    registry.register(def("b"));

    let allowed = vec!["b".to_string()];
    let defs = registry.list_definitions_for_permissions(&allowed);
    assert_eq!(defs.len(), 1);
    assert_eq!(defs[0].name, "b");
}

#[test]
fn list_definitions_returns_all_when_unfiltered() {
    let mut registry = ToolRegistry::new();
    registry.register(def("a"));
    registry.register(def("b"));

    let defs = registry.list_definitions();
    assert_eq!(defs.len(), 2);
}

#[test]
fn wildcard_permission_returns_all_registered_definitions() {
    let mut registry = ToolRegistry::new();
    registry.register(def("a"));
    registry.register(def("b"));

    let allowed = vec!["*".to_string()];
    let defs = registry.list_definitions_for_permissions(&allowed);
    assert_eq!(defs.len(), 2);
}

#[test]
fn empty_allowed_list_filters_everything() {
    let mut registry = ToolRegistry::new();
    registry.register(def("a"));
    let defs = registry.list_definitions_for_permissions(&vec![]);
    assert!(defs.is_empty());
}

#[test]
fn metrics_are_recorded() {
    let mut registry = ToolRegistry::new();
    registry.record_metrics("dummy", 40, true);
    registry.record_metrics("dummy", 20, false);

    let m = registry.metrics_for("dummy").expect("dummy metrics");
    assert_eq!(m.execution_count, 2);
    assert_eq!(m.success_count, 1);
    assert_eq!(m.failure_count, 1);
    assert_eq!(m.total_duration_ms, 60);
}

#[test]
fn registering_same_name_replaces() {
    let mut registry = ToolRegistry::new();
    registry.register(def("a"));
    let mut replacement = def("a");
    replacement.description = "fresh".to_string();
    registry.register(replacement);
    let defs = registry.list_definitions();
    assert_eq!(defs.len(), 1);
    assert_eq!(defs[0].description, "fresh");
}

#[test]
fn test_mask_secret() {
    assert_eq!(mask_secret("short"), "****");
    assert_eq!(mask_secret("sk-1234567890abcdef"), "sk-1****cdef");
}

#[test]
fn secrets_round_trip() {
    let mut store = SecretsStore::new();
    store.set("api".to_string(), "k1".to_string());
    assert!(store.has("api"));
    assert_eq!(store.get("api").as_deref(), Some("k1"));
    store.set("api".to_string(), "k2".to_string());
    assert_eq!(store.get("api").as_deref(), Some("k2"));
    assert_eq!(store.remove("api").as_deref(), Some("k2"));
    assert!(!store.has("api"));
    assert!(store.remove("api").is_none());
}

#[test]
fn skill_approval_is_default_deny() {
    let mut approved = ApprovedSkills::new();
    assert!(!approved.is_approved("notes"));
    approved.approve("notes".to_string());
    assert!(approved.is_approved("notes"));
    approved.revoke("notes");
    assert!(!approved.is_approved("notes"));
}

#[test]
fn unapproved_skill_is_refused() {
    let approved = ApprovedSkills::new();
    let check = check_skill_permission(&approved, "notes", &vec![], "read_file");
    assert!(matches!(check, PermissionCheck::SkillNotApproved { .. }));
}

#[test]
fn approved_skill_with_empty_tools_allows_all() {
    let mut approved = ApprovedSkills::new();
    approved.approve("notes".to_string());
    let check = check_skill_permission(&approved, "notes", &vec![], "read_file");
    assert!(matches!(check, PermissionCheck::Allowed));
}

#[test]
fn approved_skill_with_tool_list_restricts() {
    let mut approved = ApprovedSkills::new();
    approved.approve("notes".to_string());
    let tools = vec!["read_file".to_string()];
    assert!(matches!(
        check_skill_permission(&approved, "notes", &tools, "read_file"),
        PermissionCheck::Allowed
    ));
    assert!(matches!(
        check_skill_permission(&approved, "notes", &tools, "exec_cmd"),
        PermissionCheck::ToolNotAllowed { .. }
    ));
}

#[test]
fn error_messages_carry_their_kind() {
    assert_eq!(
        ToolError::ExecutionError("boom".to_string()).message(),
        "Execution error: boom"
    );
    assert_eq!(
        ToolError::InvalidArgs("bad json".to_string()).message(),
        "Invalid arguments: bad json"
    );
    assert_eq!(ProviderError::ApiError("x".to_string()).message(), "API error: x");
    assert_eq!(
        ProviderError::ConfigError("x".to_string()).message(),
        "Configuration error: x"
    );
    assert_eq!(ProviderError::NetworkError("x".to_string()).message(), "Network error: x");
}

#[test]
fn counters_accumulate() {
    let mut metrics = MetricsStore::new();
    metrics.inc_messages_in();
    metrics.inc_messages_in();
    metrics.inc_messages_out();
    metrics.inc_tool_calls();
    metrics.add_tokens(10, 7);
    let snap = metrics.snapshot(42);
    assert_eq!(snap.uptime_secs, 42);
    assert_eq!(snap.messages_in, 2);
    assert_eq!(snap.messages_out, 1);
    assert_eq!(snap.tool_calls, 1);
    assert_eq!(snap.tokens_input, 10);
    assert_eq!(snap.tokens_output, 7);
}
