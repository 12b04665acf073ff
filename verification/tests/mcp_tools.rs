//! Validation and text helpers.

use agentiso::mcp::tools::{
    parse_octal_mode, shell_escape, truncate_output, validate_base_image, validate_snapshot_name,
};
use agentiso::mcp::workspace_tools::make_worker_names;

#[test]
fn test_validate_snapshot_name_invalid_chars_detail() {
    let err = validate_snapshot_name("snap shot/v2").unwrap_err();
    let msg = format!("{:?}", err);
    assert!(msg.contains("Allowed:"), "error should list allowed chars");
}

#[test]
fn test_validate_snapshot_name_valid() {
    assert!(validate_snapshot_name("before-experiment").is_ok());
    assert!(validate_snapshot_name("snap_v1.0").is_ok());
    assert!(validate_snapshot_name("ABC123").is_ok());
    assert!(validate_snapshot_name("a").is_ok());
}

#[test]
fn test_validate_snapshot_name_empty() {
    assert!(validate_snapshot_name("").is_err());
}

#[test]
fn test_validate_snapshot_name_invalid_chars() {
    assert!(validate_snapshot_name("snap shot").is_err());
    assert!(validate_snapshot_name("snap/shot").is_err());
    assert!(validate_snapshot_name("snap@shot").is_err());
    assert!(validate_snapshot_name("snap;shot").is_err());
}

#[test]
fn test_parse_octal_mode_standard() {
    assert_eq!(parse_octal_mode("0644").unwrap(), 0o644);
    assert_eq!(parse_octal_mode("0755").unwrap(), 0o755);
    assert_eq!(parse_octal_mode("644").unwrap(), 0o644);
    assert_eq!(parse_octal_mode("755").unwrap(), 0o755);
}

#[test]
fn test_parse_octal_mode_with_0o_prefix() {
    assert_eq!(parse_octal_mode("0o644").unwrap(), 0o644);
    assert_eq!(parse_octal_mode("0o755").unwrap(), 0o755);
}

#[test]
fn test_parse_octal_mode_invalid() {
    assert!(parse_octal_mode("999").is_err());
    assert!(parse_octal_mode("abc").is_err());
}

#[test]
fn test_truncate_output_no_truncation() {
    let s = "hello world".to_string();
    assert_eq!(truncate_output(s.clone(), 100), s);
}

#[test]
fn test_truncate_output_truncates() {
    let s = "hello world".to_string();
    let result = truncate_output(s, 5);
    assert!(result.starts_with("hello"));
    assert!(result.contains("[TRUNCATED: 11 bytes total, showing first 5 bytes]"));
}

#[test]
fn test_truncate_output_multibyte_utf8() {
    // "hello 世界" — '世' is 3 bytes starting at index 6
    let s = "hello 世界".to_string();
    // Truncate at byte 7, which is in the middle of '世'
    let result = truncate_output(s, 7);
    // Should back up to byte 6 (just after the space)
    assert!(result.starts_with("hello "));
    assert!(result.contains("TRUNCATED"));
}

#[test]
fn test_validate_base_image_valid() {
    assert!(validate_base_image("alpine-dev").is_ok());
    assert!(validate_base_image("ubuntu_22.04").is_ok());
    assert!(validate_base_image("my-image.v2").is_ok());
    assert!(validate_base_image("ABC123").is_ok());
}

#[test]
fn test_validate_base_image_empty() {
    assert!(validate_base_image("").is_err());
}

#[test]
fn test_validate_base_image_too_long() {
    let long_name = "a".repeat(129);
    assert!(validate_base_image(&long_name).is_err());
    // Exactly 128 should be ok
    let ok_name = "a".repeat(128);
    assert!(validate_base_image(&ok_name).is_ok());
}

#[test]
fn test_validate_base_image_invalid_chars() {
    assert!(validate_base_image("../etc/passwd").is_err());
    assert!(validate_base_image("image name").is_err());
    assert!(validate_base_image("image/name").is_err());
    assert!(validate_base_image("image;rm -rf").is_err());
}

#[test]
fn test_validate_base_image_path_traversal() {
    assert!(validate_base_image("foo..bar").is_err());
    assert!(validate_base_image("..").is_err());
}

#[test]
fn test_shell_escape_simple() {
    assert_eq!(shell_escape("hello"), "'hello'");
}

#[test]
fn test_shell_escape_with_spaces() {
    assert_eq!(shell_escape("hello world"), "'hello world'");
}

#[test]
fn test_shell_escape_with_single_quotes() {
    assert_eq!(shell_escape("it's"), "'it'\\''s'");
}

#[test]
fn test_workspace_fork_batch_name_generation() {
    // Verify the naming pattern used in the handler
    let prefix = "worker";
    let count = 3u32;
    let names = make_worker_names(prefix, count);
    assert_eq!(names, vec!["worker-1", "worker-2", "worker-3"]);
}

#[test]
fn test_workspace_fork_batch_custom_prefix_name_generation() {
    let prefix = "task";
    let count = 5u32;
    let names = make_worker_names(prefix, count);
    assert_eq!(
        names,
        vec!["task-1", "task-2", "task-3", "task-4", "task-5"]
    );
}
