//! Firewall rules.

use agentiso::network::nftables::{
    extract_comment, extract_handle, generate_base_ruleset, generate_port_forward_rules,
    generate_workspace_rules,
};
use agentiso::network::{Ipv4Addr, NetworkPolicy, PortForwardRule};

#[test]
fn test_extract_comment_standard() {
    let line = r#"        ip saddr 10.99.0.2 oifname != "br-agentiso" masquerade comment "ws-abc12345-nat" # handle 7"#;
    let comment = extract_comment(line).unwrap();
    assert_eq!(comment, "ws-abc12345-nat");
}

#[test]
fn test_extract_comment_none() {
    let line = "        ct state established,related accept # handle 4";
    assert!(extract_comment(line).is_none());
}

#[test]
fn test_extract_handle_standard() {
    let line = r#"        ip saddr 10.99.0.2 accept comment "ws-abc-internet" # handle 5"#;
    let handle = extract_handle(line).unwrap();
    assert_eq!(handle, 5);
}

#[test]
fn test_extract_handle_large_number() {
    let line = r#"        accept comment "rule" # handle 123456"#;
    let handle = extract_handle(line).unwrap();
    assert_eq!(handle, 123456);
}

#[test]
fn test_extract_handle_none() {
    let line = "        ct state established,related accept";
    assert!(extract_handle(line).is_none());
}

#[test]
fn test_default_network_policy() {
    let policy = NetworkPolicy::default();
    assert!(policy.allow_internet);
    assert!(!policy.allow_inter_vm);
    assert!(policy.allowed_ports.is_empty());
}

#[test]
fn test_generate_base_ruleset_contains_chains() {
    let gw = Ipv4Addr::new(10, 99, 0, 1);
    let ruleset = generate_base_ruleset("br-agentiso", "10.99.0.0/16", gw);
    assert!(ruleset.contains("table inet agentiso"));
    assert!(ruleset.contains("chain forward"));
    assert!(ruleset.contains("chain postrouting"));
    assert!(ruleset.contains("chain prerouting"));
    assert!(ruleset.contains("policy drop"));
    assert!(ruleset.contains("br-agentiso"));
    assert!(ruleset.contains("10.99.0.0/16"));
    assert!(ruleset.contains("ip daddr 10.99.0.1"));
}

#[test]
fn test_generate_base_ruleset_custom_gateway() {
    let gw = Ipv4Addr::new(172, 16, 0, 1);
    let ruleset = generate_base_ruleset("br-custom", "172.16.0.0/16", gw);
    assert!(ruleset.contains("ip daddr 172.16.0.1"));
    assert!(!ruleset.contains("10.99.0.1"));
}

#[test]
fn test_generate_workspace_rules_internet_allowed() {
    let policy = NetworkPolicy {
        allow_internet: true,
        allow_inter_vm: false,
        allowed_ports: Vec::new(),
    };
    let ip = Ipv4Addr::new(10, 99, 0, 5);
    let rules = generate_workspace_rules("br-agentiso", "abc12345", ip, &policy);

    assert!(rules.contains("ws-abc12345-internet"));
    assert!(rules.contains("ws-abc12345-nat"));
    assert!(rules.contains("masquerade"));
    assert!(rules.contains("10.99.0.5"));
    assert!(!rules.contains("intervm"));
}

#[test]
fn test_generate_workspace_rules_inter_vm_allowed() {
    let policy = NetworkPolicy {
        allow_internet: false,
        allow_inter_vm: true,
        allowed_ports: Vec::new(),
    };
    let ip = Ipv4Addr::new(10, 99, 0, 3);
    let rules = generate_workspace_rules("br-agentiso", "xyz99999", ip, &policy);

    assert!(!rules.contains("internet"));
    assert!(!rules.contains("masquerade"));
    assert!(rules.contains("ws-xyz99999-intervm"));
    assert!(rules.contains("10.99.0.3"));
}

#[test]
fn test_generate_workspace_rules_both_allowed() {
    let policy = NetworkPolicy {
        allow_internet: true,
        allow_inter_vm: true,
        allowed_ports: Vec::new(),
    };
    let ip = Ipv4Addr::new(10, 99, 1, 100);
    let rules = generate_workspace_rules("br-agentiso", "test1234", ip, &policy);

    assert!(rules.contains("ws-test1234-internet"));
    assert!(rules.contains("ws-test1234-nat"));
    assert!(rules.contains("ws-test1234-intervm"));
}

#[test]
fn test_generate_workspace_rules_nothing_allowed() {
    let policy = NetworkPolicy {
        allow_internet: false,
        allow_inter_vm: false,
        allowed_ports: Vec::new(),
    };
    let ip = Ipv4Addr::new(10, 99, 0, 2);
    let rules = generate_workspace_rules("br-agentiso", "nope0000", ip, &policy);
    assert!(rules.is_empty());
}

#[test]
fn test_generate_workspace_rules_with_allowed_ports() {
    let policy = NetworkPolicy {
        allow_internet: false,
        allow_inter_vm: false,
        allowed_ports: vec![80, 443, 8080],
    };
    let ip = Ipv4Addr::new(10, 99, 0, 5);
    let rules = generate_workspace_rules("br-agentiso", "ports123", ip, &policy);

    assert!(rules.contains("ws-ports123-allow-80"));
    assert!(rules.contains("ws-ports123-allow-443"));
    assert!(rules.contains("ws-ports123-allow-8080"));
    assert!(rules.contains("ip daddr 10.99.0.5 tcp dport 80"));
    assert!(rules.contains("ip daddr 10.99.0.5 tcp dport 443"));
    assert!(rules.contains("ip daddr 10.99.0.5 tcp dport 8080"));
    // No internet or inter-vm rules
    assert!(!rules.contains("internet"));
    assert!(!rules.contains("intervm"));
}

#[test]
fn test_generate_port_forward_rules() {
    let ip = Ipv4Addr::new(10, 99, 0, 7);
    let rules = generate_port_forward_rules("abc12345", ip, 8080, 8080);

    assert!(rules.contains("dnat to 10.99.0.7:8080"));
    assert!(rules.contains("tcp dport 8080"));
    assert!(rules.contains("ws-abc12345-pf-8080"));
    assert!(rules.contains("ws-abc12345-pf-fwd-8080"));
}

#[test]
fn test_generate_port_forward_different_ports() {
    let ip = Ipv4Addr::new(10, 99, 0, 10);
    let rules = generate_port_forward_rules("def00000", ip, 3000, 9090);

    // DNAT rule: prerouting, host_port 9090 -> guest_ip:3000
    assert!(rules.contains("tcp dport 9090"));
    assert!(rules.contains("dnat to 10.99.0.10:3000"));
    // Forward rule: allow guest_port 3000
    assert!(rules.contains("ip daddr 10.99.0.10 tcp dport 3000"));
}

#[test]
fn test_extract_comment_and_handle_together() {
    let line = r#"        iifname "br-agentiso" ip saddr 10.99.0.2 oifname != "br-agentiso" accept comment "ws-abc-internet" # handle 12"#;
    assert_eq!(extract_comment(line).unwrap(), "ws-abc-internet");
    assert_eq!(extract_handle(line).unwrap(), 12);
}

#[test]
fn test_port_forward_rule_struct() {
    let rule = PortForwardRule {
        host_port: 8080,
        guest_ip: Ipv4Addr::new(10, 99, 0, 5),
        guest_port: 80,
        workspace_id: "abc12345".to_string(),
    };
    assert_eq!(rule.host_port, 8080);
    assert_eq!(rule.guest_port, 80);
    assert_eq!(rule.guest_ip, Ipv4Addr::new(10, 99, 0, 5));
}
