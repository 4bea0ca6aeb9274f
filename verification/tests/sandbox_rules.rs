//! Sandbox decisions: output truncation, SSRF address classification, path
//! confinement and the exec tool's prechecks.

use phoneclaw::errors::ToolError;
use phoneclaw::exec::ExecTool;
use phoneclaw::sandbox::{
    is_private_ip, join_requested, truncate_output, validate_path_rebuild, validate_path_resolved,
    IpAddress, SandboxConfig,
};

fn v4(a: u8, b: u8, c: u8, d: u8) -> IpAddress {
    IpAddress::V4 { a, b, c, d }
}

fn v6(s: [u16; 8]) -> IpAddress {
    IpAddress::V6 {
        s0: s[0],
        s1: s[1],
        s2: s[2],
        s3: s[3],
        s4: s[4],
        s5: s[5],
        s6: s[6],
        s7: s[7],
    }
}

#[test]
fn truncate_output_keeps_short_strings() {
    let text = "hello";
    assert_eq!(truncate_output(text, 10), "hello");
}

#[test]
fn truncate_output_adds_marker_when_limited() {
    let text = "abcdefghijklmnopqrstuvwxyz";
    let result = truncate_output(text, 5);
    assert!(result.starts_with("abcde"));
    assert!(result.contains("OUTPUT TRUNCATED (5B limit)"));
}

#[test]
fn truncate_output_is_idempotent_on_its_result() {
    let text = "abcdefghijklmnopqrstuvwxyz";
    let once = truncate_output(text, 5);
    let twice = truncate_output(&once, 5);
    assert_eq!(once, twice);
}

#[test]
fn truncate_output_exact_boundary_is_untouched() {
    assert_eq!(truncate_output("abcde", 5), "abcde");
}

#[test]
fn private_ip_detection_covers_ipv4_ranges() {
    assert!(is_private_ip(&v4(127, 0, 0, 1)));
    assert!(is_private_ip(&v4(10, 1, 2, 3)));
    assert!(is_private_ip(&v4(192, 168, 1, 5)));
    assert!(is_private_ip(&v4(169, 254, 169, 254)));
    assert!(is_private_ip(&v4(100, 64, 0, 1)));
    assert!(!is_private_ip(&v4(8, 8, 8, 8)));
}

#[test]
fn private_ip_detection_covers_ipv6_ranges() {
    assert!(is_private_ip(&v6([0, 0, 0, 0, 0, 0, 0, 1])));
    assert!(is_private_ip(&v6([0, 0, 0, 0, 0, 0, 0, 0])));
    assert!(is_private_ip(&v6([0xfc00, 0, 0, 0, 0, 0, 0, 1])));
    assert!(is_private_ip(&v6([0xfe80, 0, 0, 0, 0, 0, 0, 1])));
    assert!(!is_private_ip(&v6([0x2606, 0x4700, 0x4700, 0, 0, 0, 0, 0x1111])));
}

#[test]
fn more_reserved_ipv4_addresses() {
    assert!(is_private_ip(&v4(172, 16, 0, 1)));
    assert!(is_private_ip(&v4(172, 31, 255, 255)));
    assert!(!is_private_ip(&v4(172, 32, 0, 1)));
    assert!(is_private_ip(&v4(255, 255, 255, 255)));
    assert!(is_private_ip(&v4(0, 0, 0, 0)));
    assert!(!is_private_ip(&v4(100, 128, 0, 1)));
    assert!(is_private_ip(&v6([0, 0, 0, 0, 0, 0xffff, 0x7f00, 1])));
}

#[test]
fn validate_existing_path_inside_workspace() {
    let resolved = validate_path_resolved("/ws", "/ws/notes.txt", "notes.txt", false)
        .expect("path should validate");
    assert!(resolved.starts_with("/ws"));
}

#[test]
fn validate_rejects_absolute_path_outside_workspace() {
    let err = validate_path_resolved("/ws", "/tmp/outside.txt", "/tmp/outside.txt", false)
        .expect_err("outside path should be rejected");
    let ToolError::ExecutionError(m) = err else {
        panic!("wrong error kind");
    };
    assert!(m.contains("Access denied"));
}

#[test]
fn validate_rejects_sibling_with_shared_prefix() {
    assert!(validate_path_resolved("/ws", "/wsx/file", "/wsx/file", false).is_err());
}

#[test]
fn escaping_symlink_gets_its_own_message() {
    let err = validate_path_resolved("/ws", "/elsewhere/target", "link", true)
        .expect_err("symlink should be rejected");
    let ToolError::ExecutionError(m) = err else {
        panic!("wrong error kind");
    };
    assert!(m.contains("symlink"));
}

#[test]
fn validate_non_existing_nested_path_inside_workspace() {
    let parts = vec!["a".to_string(), "b".to_string(), "c.txt".to_string()];
    let rebuilt = validate_path_rebuild("/ws", "/ws", &parts, "a/b/c.txt")
        .expect("path should validate");
    assert_eq!(rebuilt, "/ws/a/b/c.txt");
}

#[test]
fn rebuild_rejects_parent_traversal() {
    let parts = vec!["..".to_string(), "etc".to_string()];
    assert!(validate_path_rebuild("/ws", "/ws", &parts, "../etc").is_err());
}

#[test]
fn join_keeps_absolute_and_joins_relative() {
    assert_eq!(join_requested("/ws", "/abs/p"), "/abs/p");
    assert_eq!(join_requested("/ws", "rel/p"), "/ws/rel/p");
}

#[test]
fn exec_rejects_parent_traversal() {
    let tool = ExecTool::new(SandboxConfig::default());
    let err = tool.precheck("cat ../../etc/passwd").expect_err("must be blocked");
    let ToolError::ExecutionError(m) = err else {
        panic!("wrong error kind");
    };
    assert_eq!(m, "Command contains disallowed '..' sequence");
}

#[test]
fn exec_rejects_when_disabled() {
    let mut sandbox = SandboxConfig::default();
    sandbox.exec_enabled = false;
    let tool = ExecTool::new(sandbox);
    let err = tool.precheck("ls").expect_err("must be refused");
    let ToolError::ExecutionError(m) = err else {
        panic!("wrong error kind");
    };
    assert_eq!(m, "Command execution is disabled by sandbox policy");
}

#[test]
fn exec_blocks_dangerous_patterns() {
    let tool = ExecTool::new(SandboxConfig::default());
    assert!(tool.precheck("sudo rm file").is_err());
    assert!(tool.precheck("SHUTDOWN now").is_err());
    assert!(tool.precheck("echo :(){ :|:& };:").is_err());
    assert!(tool.precheck("ls -la").is_ok());
    assert_eq!(ExecTool::is_command_blocked("echo hi"), None);
    assert_eq!(ExecTool::is_command_blocked("Killall -9 x"), Some("killall"));
}

#[test]
fn exec_output_formatting() {
    let tool = ExecTool::new(SandboxConfig::default());
    assert_eq!(tool.format_output("", ""), "(no output)");
    assert_eq!(tool.format_output("hi", ""), "STDOUT:\nhi\n");
    assert_eq!(tool.format_output("a", "b"), "STDOUT:\na\nSTDERR:\nb\n");
}
