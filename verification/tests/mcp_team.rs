//! Team tool.

use agentiso::mcp::team_tools::{safe_truncate, RoleDefParam};
use agentiso::team::RoleDef;

#[test]
fn test_role_def_param_to_role_def() {
    let param = RoleDefParam {
        name: "coder".to_string(),
        role: "dev".to_string(),
        skills: vec!["rust".to_string()],
        description: "Writes code".to_string(),
    };
    let role_def: RoleDef = param.into();
    assert_eq!(role_def.name, "coder");
    assert_eq!(role_def.role, "dev");
    assert_eq!(role_def.skills, vec!["rust"]);
    assert_eq!(role_def.description, "Writes code");
}

#[test]
fn test_safe_truncate_short_string() {
    assert_eq!(safe_truncate("hello", 10), "hello");
}

#[test]
fn test_safe_truncate_at_boundary() {
    let s = "a".repeat(100);
    let result = safe_truncate(&s, 50);
    assert!(result.starts_with(&"a".repeat(50)));
    assert!(result.ends_with("... (truncated)"));
}

#[test]
fn test_safe_truncate_multibyte() {
    // 3-byte UTF-8 chars: each is 3 bytes
    let s = "\u{2603}\u{2603}\u{2603}\u{2603}"; // 4 snowmen, 12 bytes total
    // Truncate at byte 4 — falls in middle of 2nd char (bytes 3..6)
    let result = safe_truncate(s, 4);
    // Should back up to byte 3 (end of first snowman)
    assert!(result.starts_with("\u{2603}"));
    assert!(result.ends_with("... (truncated)"));
}
