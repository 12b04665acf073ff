//! The vault and team tools: what a call asks for, and how it is answered.

use agentiso::config::RateLimitConfig;
use agentiso::mcp::error::ErrorKind;
use agentiso::mcp::metrics::{count_states, exec_result, ExecResultLabel, WorkspaceState};
use agentiso::mcp::rate_limit::RateLimiter;
use agentiso::mcp::team_tools::{
    daemon_section, handle_team, parse_team_call, recipients, shown_messages, team_failure,
    DaemonResult, Posted, RoleDefParam, TeamCall, TeamParams,
};
use agentiso::mcp::vault::WriteMode;
use agentiso::mcp::vault_tools::{
    parse_vault_call, vault, vault_done, vault_failure, VaultCall, VaultParams,
};
use agentiso::mcp::yaml::{from_value, parse_yaml, remove_key, render_yaml, set_key, to_value, Yaml};

fn params(action: &str) -> VaultParams {
    VaultParams {
        action: action.to_string(),
        path: None,
        content: None,
        mode: None,
        query: None,
        regex: None,
        tag: None,
        max_results: None,
        path_prefix: None,
        recursive: None,
        confirm: None,
        key: None,
        value: None,
        frontmatter_action: None,
        tags_action: None,
        old_string: None,
        new_string: None,
        new_path: None,
        overwrite: None,
        paths: None,
        include_content: None,
        include_frontmatter: None,
        recent_count: None,
        format: None,
    }
}

fn at(action: &str) -> VaultParams {
    let mut p = params(action);
    p.path = Some("n.md".to_string());
    p
}

fn refused(p: VaultParams) -> String {
    let e = parse_vault_call(p).err().expect("the call is refused");
    assert_eq!(e.kind, ErrorKind::InvalidParams);
    e.message
}

#[test]
fn vault_calls_need_their_parameters() {
    assert_eq!(refused(params("read")), "'path' is required for action 'read'");
    assert_eq!(refused(params("write")), "'path' is required for action 'write'");
    assert_eq!(refused(at("write")), "'content' is required for action 'write'");
    assert_eq!(refused(params("search")), "'query' is required for action 'search'");
    assert_eq!(refused(params("delete")), "'path' is required for action 'delete'");
    assert_eq!(refused(at("delete")), "confirm must be true to delete a note");
    assert_eq!(
        refused(at("frontmatter")),
        "'frontmatter_action' is required for action 'frontmatter' (one of: 'get', 'set', 'delete')"
    );
    assert_eq!(
        refused(at("tags")),
        "'tags_action' is required for action 'tags' (one of: 'list', 'add', 'remove')"
    );
    assert_eq!(
        refused(at("replace")),
        "'old_string' is required for action 'replace'"
    );
    assert_eq!(refused(at("move")), "'new_path' is required for action 'move'");
    assert_eq!(
        refused(params("batch_read")),
        "'paths' is required for action 'batch_read'"
    );
    assert!(refused(params("copy")).starts_with("invalid vault action 'copy': expected one of"));
    let mut p = at("write");
    p.content = Some("x".to_string());
    p.mode = Some("insert".to_string());
    assert_eq!(
        refused(p),
        "invalid write mode 'insert': expected 'overwrite', 'append', or 'prepend'"
    );
    let mut p = at("frontmatter");
    p.frontmatter_action = Some("set".to_string());
    p.key = Some("k".to_string());
    p.value = Some(Err("bad".to_string()));
    assert_eq!(refused(p), "invalid value: bad");
    let mut p = at("frontmatter");
    p.frontmatter_action = Some("drop".to_string());
    assert_eq!(
        refused(p),
        "invalid frontmatter_action 'drop': expected 'get', 'set', or 'delete'"
    );
    let mut p = at("tags");
    p.tags_action = Some("drop".to_string());
    assert_eq!(
        refused(p),
        "invalid tags_action 'drop': expected 'list', 'add', or 'remove'"
    );
}

#[test]
fn vault_calls_have_defaults() {
    assert!(matches!(
        parse_vault_call(at("read")),
        Ok(VaultCall::Read { as_json: false, .. })
    ));
    let mut p = at("read");
    p.format = Some("json".to_string());
    assert!(matches!(
        parse_vault_call(p),
        Ok(VaultCall::Read { as_json: true, .. })
    ));
    let mut p = at("write");
    p.content = Some("x".to_string());
    let call = parse_vault_call(p).unwrap();
    assert!(matches!(
        &call,
        VaultCall::Write { mode: WriteMode::Overwrite, .. }
    ));
    assert_eq!(vault_done(&call).unwrap(), "Note 'n.md' written (overwrite).");
    let mut p = params("search");
    p.query = Some("q".to_string());
    assert!(matches!(
        parse_vault_call(p),
        Ok(VaultCall::Search { is_regex: false, max: 20, .. })
    ));
    assert!(matches!(
        parse_vault_call(params("stats")),
        Ok(VaultCall::Stats { recent_count: 10 })
    ));
    let mut p = params("batch_read");
    p.paths = Some(vec![]);
    assert!(matches!(
        parse_vault_call(p),
        Ok(VaultCall::BatchRead { include_content: true, include_frontmatter: true, .. })
    ));
    let mut p = at("delete");
    p.confirm = Some(true);
    let call = parse_vault_call(p).unwrap();
    assert_eq!(vault_done(&call).unwrap(), "Note 'n.md' deleted.");
    assert_eq!(vault_failure(&call, "gone").message, "gone");
    let read = parse_vault_call(at("read")).unwrap();
    assert!(vault_done(&read).is_none());
    assert!(vault_failure(&read, "gone")
        .message
        .starts_with("Failed to read vault note 'n.md': gone. Use vault"));
    assert_eq!(
        vault(at("read"), false, &mut limiter(), 0).err().unwrap().message,
        "Vault not configured. Enable [vault] in config.toml."
    );
    let mut l = limiter();
    for _ in 0..20 {
        assert!(vault(at("read"), true, &mut l, 0).is_ok());
    }
    assert!(vault(at("read"), true, &mut l, 0)
        .err()
        .unwrap()
        .message
        .starts_with("Rate limit exceeded for default operations."));
}

fn team(action: &str) -> TeamParams {
    TeamParams {
        action: action.to_string(),
        name: Some("alpha".to_string()),
        roles: None,
        max_vms: None,
        base_snapshot: None,
        parent_team: None,
        agent: None,
        to: None,
        content: None,
        message_type: None,
        limit: None,
    }
}

fn message() -> TeamParams {
    let mut p = team("message");
    p.agent = Some("a".to_string());
    p.to = Some("b".to_string());
    p.content = Some("hi".to_string());
    p
}

fn limiter() -> RateLimiter {
    RateLimiter::new(
        &RateLimitConfig {
            enabled: true,
            create_per_minute: 1,
            exec_per_minute: 1,
            default_per_minute: 1,
            team_message_per_minute: 1,
        },
        0,
    )
}

#[test]
fn team_calls() {
    let mut p = team("create");
    p.roles = Some(vec![RoleDefParam {
        name: "a".to_string(),
        role: "coder".to_string(),
        skills: vec![],
        description: String::new(),
    }]);
    match parse_team_call(p).unwrap() {
        TeamCall::Create { name, roles, max_vms, .. } => {
            assert_eq!(name, "alpha");
            assert_eq!(roles.len(), 1);
            assert_eq!(roles[0].role, "coder");
            assert_eq!(max_vms, 10);
        }
        _ => panic!("a team was to be created"),
    }
    let mut p = team("create");
    p.roles = Some(vec![]);
    assert_eq!(
        parse_team_call(p).err().unwrap().message,
        "'roles' must contain at least one role definition"
    );
    match parse_team_call(message()).unwrap() {
        TeamCall::Message { from, to, message_type, .. } => {
            assert_eq!((from.as_str(), to.as_str()), ("a", "b"));
            assert_eq!(message_type, "text");
        }
        _ => panic!("a message was to be sent"),
    }
    let mut p = team("receive");
    p.agent = Some("a".to_string());
    assert!(matches!(
        parse_team_call(p),
        Ok(TeamCall::Receive { limit: 10, .. })
    ));
    let mut p = team("destroy");
    p.name = None;
    assert_eq!(
        parse_team_call(p).err().unwrap().message,
        "'name' is required for action 'destroy'"
    );
    assert_eq!(
        parse_team_call(team("join")).err().unwrap().message,
        "unknown team action 'join'. Valid actions: create, destroy, status, list, message, receive"
    );
    let call = parse_team_call(team("status")).unwrap();
    assert_eq!(
        team_failure(&call, "gone").message,
        "failed to get status for team 'alpha': gone"
    );
}

#[test]
fn team_messages_are_limited() {
    let mut l = limiter();
    assert_eq!(
        handle_team(message(), false, &mut l, 0).err().unwrap().message,
        "Team management is not available. The server was started without team support."
    );
    let mut sent = 0;
    while handle_team(message(), true, &mut l, 0).is_ok() {
        sent += 1;
        assert!(sent < 1000);
    }
    let e = handle_team(message(), true, &mut l, 0).err().unwrap();
    assert!(e.message.contains("team_message"));
    for _ in 0..20 {
        assert!(handle_team(team("list"), true, &mut l, 0).is_ok());
    }
    let e = handle_team(team("list"), true, &mut l, 0).err().unwrap();
    assert!(e.message.starts_with("Rate limit exceeded for default operations."));
}

#[test]
fn broadcasts_skip_the_sender() {
    let agents = vec!["a".to_string(), "b".to_string(), "c".to_string()];
    assert_eq!(recipients("a", "*", &agents), vec!["b", "c"]);
    assert_eq!(recipients("a", "b", &agents), vec!["b"]);
}

#[test]
fn assignments_are_not_shown() {
    let posted = |t: &str, body: u32| Posted {
        message_type: t.to_string(),
        body,
    };
    let shown = shown_messages(vec![
        posted("text", 1),
        posted("task_assignment", 2),
        posted("result", 3),
    ]);
    let bodies: Vec<u32> = shown.iter().map(|p| p.body).collect();
    assert_eq!(bodies, vec![1, 3]);
}

#[test]
fn daemon_results_are_cut() {
    let result = |stdout: String| DaemonResult {
        task_id: "t".to_string(),
        success: true,
        exit_code: 0,
        stdout,
        stderr: "y".repeat(2049),
        elapsed_secs: 1,
        source_message_id: "m".to_string(),
    };
    assert!(daemon_section(vec![], 0).is_none());
    let (shown, pending) = daemon_section(vec![], 2).unwrap();
    assert!(shown.is_empty());
    assert_eq!(pending, 2);
    let (shown, _) = daemon_section(vec![result("x".repeat(5000))], 0).unwrap();
    assert_eq!(shown[0].stdout, format!("{}... (truncated)", "x".repeat(4096)));
    assert_eq!(shown[0].stderr, format!("{}... (truncated)", "y".repeat(2048)));
}

#[test]
fn states_are_counted() {
    let c = count_states(&vec![
        WorkspaceState::Running,
        WorkspaceState::Stopped,
        WorkspaceState::Running,
        WorkspaceState::Suspended,
    ]);
    assert_eq!((c.running, c.stopped, c.suspended), (2, 1, 1));
    assert_eq!(exec_result(0), ExecResultLabel::Success);
    assert_eq!(exec_result(-1), ExecResultLabel::Error);
}

fn shown(y: &Yaml) -> String {
    render_yaml(y).expect("the value can be written")
}

#[test]
fn yaml_is_read_and_written() {
    let y = parse_yaml("a: [1, 2.5, x]\nb: !T {c: null}\n").unwrap();
    assert_eq!(shown(&y), "a:\n- 1\n- 2.5\n- x\nb: !T\n  c: null\n");
    assert!(parse_yaml("a: [").is_none());
    assert!(render_yaml(&Yaml::Number("one".to_string())).is_none());
    assert!(render_yaml(&Yaml::Sequence(vec![Yaml::Number("one".to_string())])).is_none());
    let v: serde_yaml::Value = serde_yaml::from_str("k: [true, 7]").unwrap();
    let y = from_value(v.clone());
    assert_eq!(to_value(&y), Some(v));
    let empty = Yaml::Tagged(String::new(), Box::new(Yaml::Null));
    match from_value(to_value(&empty).unwrap()) {
        Yaml::Tagged(name, _) => assert_eq!(name, "!"),
        _ => panic!("the value stands under a tag"),
    }
}

#[test]
fn keys_are_set_and_removed() {
    let m = match parse_yaml("a: 1\nb: 2\nc: 3\n").unwrap() {
        Yaml::Mapping(m) => m,
        _ => panic!("the text is a mapping"),
    };
    let m = set_key(m, "a", Yaml::Text("x".to_string()));
    let m = set_key(m, "d", Yaml::Bool(true));
    let m = remove_key(m, "b");
    assert_eq!(shown(&Yaml::Mapping(m)), "a: x\nd: true\nc: 3\n");
}
