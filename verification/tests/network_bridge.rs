//! Bridge and TAP device names.

use agentiso::network::{tap_device_name, BridgeManager};

#[test]
fn test_tap_device_name_standard_uuid() {
    // A typical UUID short_id: first 8 chars
    let name = tap_device_name("abc12345-6789-0000-0000-000000000000");
    assert_eq!(name, "tap-abc12345");
}

#[test]
fn test_tap_device_name_short_id() {
    // Already shortened to 8 chars
    let name = tap_device_name("abc12345");
    assert_eq!(name, "tap-abc12345");
}

#[test]
fn test_tap_device_name_very_short_id() {
    // Very short ID (edge case)
    let name = tap_device_name("ab");
    assert_eq!(name, "tap-ab");
}

#[test]
fn test_tap_device_name_length_within_limit() {
    // Linux interface names must be <= 15 chars
    // "tap-" (4) + 8 chars = 12, which is under 15
    let name = tap_device_name("abcdefgh");
    assert!(name.len() <= 15, "TAP name '{}' exceeds 15 char limit", name);
}

#[test]
fn test_bridge_manager_name() {
    let bm = BridgeManager::new("br-agentiso".to_string(), "10.99.0.1/16".to_string());
    assert_eq!(bm.bridge_name(), "br-agentiso");
}

#[test]
fn test_bridge_manager_custom_name() {
    let bm = BridgeManager::new("br-custom".to_string(), "192.168.1.1/24".to_string());
    assert_eq!(bm.bridge_name(), "br-custom");
}
