//! Network setup, step by step.

use agentiso::host::{HostOutput, Step};
use agentiso::job::{Action, Group, Job, Task};
use agentiso::network::nftables::{
    find_rule_handles, list_chain, rule_deletions, workspace_selector, Selector,
};
use agentiso::network::{BridgeManager, Ipv4Addr, NetworkManager, NetworkPolicy};

const WS: &str = "abc12345-6789-0000-0000-000000000000";

fn line(s: &Step) -> String {
    format!("{} {}", s.program, s.args.join(" "))
}

fn ok(stdout: &str) -> Result<HostOutput, String> {
    Ok(HostOutput {
        success: true,
        stdout: stdout.to_string(),
        stderr: String::new(),
    })
}

fn bad(stderr: &str) -> Result<HostOutput, String> {
    Ok(HostOutput {
        success: false,
        stdout: String::new(),
        stderr: stderr.to_string(),
    })
}

/// Run a job against a host; gives what was done and how the job ended.
fn drive(
    job: Job,
    host: impl Fn(&str) -> Result<HostOutput, String>,
) -> (Vec<String>, Result<(), String>) {
    let mut done = Vec::new();
    let mut job = job;
    loop {
        match job.action() {
            Action::Run(step) => {
                let shown = line(&step);
                let reply = host(&shown);
                done.push(shown);
                job = job.resume(&reply);
            }
            Action::Write { path, content } => {
                done.push(format!("write {} {}", path, content.trim()));
                job = job.resume(&ok(""));
            }
            Action::Done => return (done, Ok(())),
            Action::Failed(e) => return (done, Err(e)),
        }
    }
}

#[test]
fn setup_allocates_then_applies_rules() {
    let mut nm = NetworkManager::new();
    let policy = NetworkPolicy::default();
    let (ip, job) = nm.setup_workspace(WS, &policy).unwrap();
    assert_eq!(ip.text(), "10.99.0.2");
    let (done, outcome) = drive(job, |_| ok(""));
    assert_eq!(
        done,
        vec![
            "ip tuntap add tap-abc12345 mode tap",
            "ip link set tap-abc12345 master br-agentiso",
            "ip link set tap-abc12345 up",
            "nft -f -",
        ]
    );
    let setup = nm.setup_finish(WS, ip, outcome).unwrap();
    assert_eq!(setup.tap_device, "tap-abc12345");
    assert_eq!(setup.gateway_ip.text(), "10.99.0.1");
    assert_eq!(nm.ip_allocator().allocated_count(), 3);
    nm.cleanup_finish(ip);
    assert_eq!(nm.ip_allocator().allocated_count(), 2);
}

#[test]
fn a_failed_setup_leaks_no_address() {
    let mut nm = NetworkManager::new();
    let policy = NetworkPolicy::default();
    let (ip, job) = nm.setup_workspace(WS, &policy).unwrap();
    let (done, outcome) = drive(job, |_| bad("busy\n"));
    assert_eq!(done.len(), 1);
    assert_eq!(
        nm.setup_finish(WS, ip, outcome).unwrap_err(),
        "failed to create TAP device: failed to create TAP device tap-abc12345: ip tuntap failed: busy"
    );
    assert_eq!(nm.ip_allocator().allocated_count(), 2);
    let (ip, job) = nm.setup_workspace(WS, &policy).unwrap();
    let (done, outcome) = drive(job, |c| {
        if c.starts_with("nft") {
            bad("syntax")
        } else {
            ok("")
        }
    });
    assert_eq!(
        done[4..],
        ["ip link set tap-abc12345 down", "ip link del tap-abc12345"]
    );
    assert!(nm
        .setup_finish(WS, ip, outcome)
        .unwrap_err()
        .starts_with("failed to apply firewall rules: failed to apply rules for workspace "));
    assert_eq!(nm.ip_allocator().allocated_count(), 2);
}

#[test]
fn restart_replaces_device_and_rules() {
    let nm = NetworkManager::new();
    let ip = Ipv4Addr::new(10, 99, 0, 2);
    let policy = NetworkPolicy::default();
    let (tap, job) = nm.ensure_workspace_network(WS, ip, &policy);
    assert_eq!(tap, "tap-abc12345");
    // Nothing can be destroyed yet, and one old rule is left.
    let listing = format!("accept comment \"ws-{}-internet\" # handle 7\n", WS);
    let (done, outcome) = drive(job, |c| {
        if c.contains(" del ") || c.ends_with(" down") {
            bad("no such device")
        } else if c.ends_with("agentiso forward") {
            ok(&listing)
        } else {
            ok("")
        }
    });
    assert_eq!(outcome, Ok(()));
    assert_eq!(
        done,
        vec![
            "ip link set tap-abc12345 down",
            "ip link del tap-abc12345",
            "ip tuntap add tap-abc12345 mode tap",
            "ip link set tap-abc12345 master br-agentiso",
            "ip link set tap-abc12345 up",
            "nft -a list chain inet agentiso forward",
            "nft delete rule inet agentiso forward handle 7",
            "nft -a list chain inet agentiso postrouting",
            "nft -a list chain inet agentiso prerouting",
            "nft -f -",
        ]
    );
    let (_, job) = nm.ensure_workspace_network(WS, ip, &policy);
    let (done, outcome) = drive(job, |c| {
        if c == "nft -f -" {
            bad("x")
        } else {
            ok("")
        }
    });
    assert!(outcome
        .unwrap_err()
        .starts_with("failed to apply firewall rules for workspace restart: "));
    assert_eq!(done.last().unwrap(), "ip link del tap-abc12345");
}

#[test]
fn cleanup_never_fails() {
    let nm = NetworkManager::new();
    let (done, outcome) = drive(nm.cleanup_workspace(WS), |_| bad("x"));
    assert_eq!(outcome, Ok(()));
    assert_eq!(done.last().unwrap(), "ip link del tap-abc12345");
    let (_, outcome) = drive(nm.cleanup_workspace(WS), |_| Err("gone".to_string()));
    assert_eq!(outcome, Ok(()));
    let (done, outcome) = drive(nm.shutdown(), |c| {
        if c.contains("-C") {
            ok("")
        } else {
            bad("x")
        }
    });
    assert_eq!(outcome, Ok(()));
    assert_eq!(
        done,
        vec![
            "iptables -C FORWARD -i br-agentiso -j ACCEPT",
            "iptables -D FORWARD -i br-agentiso -j ACCEPT",
            "iptables -C FORWARD -o br-agentiso -j ACCEPT",
            "iptables -D FORWARD -o br-agentiso -j ACCEPT",
            "iptables -t nat -C POSTROUTING -s 10.99.0.0/16 ! -o br-agentiso -j MASQUERADE",
            "iptables -t nat -D POSTROUTING -s 10.99.0.0/16 ! -o br-agentiso -j MASQUERADE",
        ]
    );
    let (done, _) = drive(nm.shutdown(), |_| Err("no iptables".to_string()));
    assert_eq!(done.len(), 3);
}

#[test]
fn startup_creates_what_is_missing() {
    let nm = NetworkManager::new();
    let (done, outcome) = drive(nm.init(), |c| {
        if c.contains("link show") || c.contains("-C") {
            bad("missing")
        } else {
            ok("")
        }
    });
    assert_eq!(outcome, Ok(()));
    assert_eq!(
        done,
        vec![
            "ip link show br-agentiso",
            "ip link add br-agentiso type bridge",
            "ip addr add 10.99.0.1/16 dev br-agentiso",
            "ip link set br-agentiso up",
            "write /sys/class/net/br-agentiso/bridge/nf_call_iptables 0",
            "sysctl -w net.ipv4.ip_forward=1",
            "iptables -C FORWARD -i br-agentiso -j ACCEPT",
            "iptables -I FORWARD 1 -i br-agentiso -j ACCEPT",
            "iptables -C FORWARD -o br-agentiso -j ACCEPT",
            "iptables -I FORWARD 1 -o br-agentiso -j ACCEPT",
            "iptables -t nat -C POSTROUTING -s 10.99.0.0/16 ! -o br-agentiso -j MASQUERADE",
            "iptables -t nat -I POSTROUTING 1 -s 10.99.0.0/16 ! -o br-agentiso -j MASQUERADE",
            "nft delete table inet agentiso",
            "nft -f -",
        ]
    );
    // A bridge that exists is only brought up, and a host without iptables
    // does not matter.
    let (done, outcome) = drive(nm.init(), |c| {
        if c.starts_with("iptables") {
            Err("not found".to_string())
        } else {
            ok("")
        }
    });
    assert_eq!(outcome, Ok(()));
    assert_eq!(done[1], "ip link set br-agentiso up");
    assert_eq!(done.len(), 8);
    let (_, outcome) = drive(nm.init(), |_| Err("not found".to_string()));
    assert_eq!(
        outcome.unwrap_err(),
        "failed to ensure bridge: failed to run ip link show: not found"
    );
    let (_, outcome) = drive(nm.init(), |c| {
        if c.starts_with("sysctl") {
            bad("denied")
        } else {
            ok("")
        }
    });
    assert_eq!(
        outcome.unwrap_err(),
        "failed to enable IP forwarding: failed to enable IP forwarding: denied"
    );
}

#[test]
fn restored_addresses_are_taken() {
    let mut nm = NetworkManager::with_config(
        "br0".to_string(),
        "10.1.0.1/16".to_string(),
        "10.1.0.0/16".to_string(),
        Ipv4Addr::new(10, 1, 0, 1),
    );
    assert_eq!(nm.bridge().bridge_name(), "br0");
    assert_eq!(nm.bridge_subnet(), "10.1.0.0/16");
    nm.restore_ip(Ipv4Addr::new(10, 1, 0, 2)).unwrap();
    assert!(nm.restore_ip(Ipv4Addr::new(10, 2, 0, 2)).is_err());
    let (ip, _) = nm.setup_workspace(WS, &NetworkPolicy::default()).unwrap();
    assert_eq!(ip.text(), "10.1.0.3");
    assert_eq!(nm.ip_allocator_mut().allocated_count(), 4);
    assert_eq!(nm.nftables().init().len(), 2);
}

#[test]
fn policies_and_forwards_are_jobs() {
    let nm = NetworkManager::new();
    let ip = Ipv4Addr::new(10, 99, 0, 2);
    let none = NetworkPolicy {
        allow_internet: false,
        allow_inter_vm: false,
        allowed_ports: vec![],
    };
    let (done, outcome) = drive(nm.update_policy(WS, ip, &none), |_| ok(""));
    assert_eq!(outcome, Ok(()));
    assert_eq!(done.len(), 3);
    let (_, outcome) = drive(nm.update_policy(WS, ip, &NetworkPolicy::default()), |_| {
        bad("oops")
    });
    assert!(outcome
        .unwrap_err()
        .starts_with("failed to update workspace network policy: "));
    let (done, outcome) = drive(nm.add_port_forward(WS, ip, 80, 8080), |_| bad("oops"));
    assert_eq!(done, vec!["nft -f -"]);
    assert!(outcome
        .unwrap_err()
        .starts_with("failed to add port forward: failed to add port forward 8080->10.99.0.2:80"));
    let listing = format!("dnat comment \"ws-{}-pf-80\" # handle 3\n", WS);
    let (done, outcome) = drive(nm.remove_port_forward(WS, 80), |c| {
        if c.contains("list") {
            ok(&listing)
        } else {
            bad("busy")
        }
    });
    assert_eq!(done.len(), 2);
    assert_eq!(
        outcome.unwrap_err(),
        "failed to remove port forward: failed to delete rule handle 3 in chain prerouting: nft failed: busy"
    );
}

#[test]
fn optional_groups_are_passed_over() {
    let step = |name: &str| Step {
        program: name.to_string(),
        args: vec![],
        stdin: None,
        required: true,
        unavailable: "cannot".to_string(),
        failure: "failed: ".to_string(),
        context: None,
    };
    let groups = vec![
        Group {
            tasks: vec![],
            required: true,
            heading: None,
            undo: vec![],
        },
        Group {
            tasks: vec![Task::Run(step("a")), Task::Run(step("b"))],
            required: false,
            heading: None,
            undo: vec![step("never")],
        },
        Group {
            tasks: vec![Task::Run(step("c"))],
            required: true,
            heading: Some("top".to_string()),
            undo: vec![step("u"), step("v")],
        },
    ];
    let (done, outcome) = drive(Job::new(groups), |_| bad("x"));
    assert_eq!(done, vec!["a ", "c ", "u ", "v "]);
    assert_eq!(outcome.unwrap_err(), "top: failed: x");
    assert_eq!(drive(Job::new(vec![]), |_| ok("")), (vec![], Ok(())));
}

#[test]
fn rules_are_found_by_their_comment() {
    let listing = "chain forward {\n  accept comment \"ws-abc-internet\" # handle 7\n  accept comment \"ws-abcd-internet\" # handle 8\n  accept comment \"other\" # handle 9\n}\n";
    assert_eq!(
        find_rule_handles(listing, &Selector::Exact("other".to_string())),
        vec![9]
    );
    assert_eq!(
        find_rule_handles(listing, &Selector::Prefix("ws-abc-".to_string())),
        vec![7]
    );
    assert_eq!(
        find_rule_handles(listing, &workspace_selector("abc")),
        vec![7]
    );
    let steps = rule_deletions("forward", &workspace_selector("abc"), &ok(listing));
    assert_eq!(steps.len(), 1);
    assert!(line(&steps[0]).ends_with("forward handle 7"));
    assert!(rule_deletions("forward", &workspace_selector("abc"), &bad("x")).is_empty());
    assert!(line(&list_chain("forward")).ends_with("forward"));
}

#[test]
fn devices_are_listed() {
    let bm = BridgeManager::new("br-agentiso".to_string(), "10.99.0.1/16".to_string());
    assert_eq!(line(&bm.show_attached()), "ip link show master br-agentiso");
    let out = "3: tap-aaaa: <UP> mtu 1500\n    link/ether 00:00\n4: veth1: <UP>\n5: tap-bbbb@if2: <UP>\n";
    let taps = bm.list_tap_devices(&ok(out)).unwrap();
    assert_eq!(taps[0], "tap-aaaa");
    assert_eq!(taps.len(), 2);
    assert!(bm.list_tap_devices(&bad("x")).unwrap().is_empty());
    assert_eq!(
        bm.list_tap_devices(&Err("no ip".to_string())).unwrap_err(),
        "failed to run ip link show master: no ip"
    );
    assert_eq!(
        bm.nf_call_path(),
        "/sys/class/net/br-agentiso/bridge/nf_call_iptables"
    );
    assert_eq!(line(&bm.bridge_exists()), "ip link show br-agentiso");
}
