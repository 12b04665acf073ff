//! Workspace tools: creation, files, snapshots, forks, ports, access.

use agentiso::config::RateLimitConfig;
use agentiso::mcp::access::{
    adopt_start, call_start, exec_background_start, exec_start, fork_start, merge_start, reach,
    snapshot_start, tool_start,
};
use agentiso::mcp::auth::{AuthManager, SessionQuota};
use agentiso::mcp::error::{ErrorKind, ToolError};
use agentiso::mcp::exchange::{ExecReply, Request};
use agentiso::mcp::merge::GitMergeParams;
use agentiso::mcp::prepare::{
    adopt_all, adopt_one, worker_start, worker_step, PrepareNext, PrepareStage, WorkerNext,
    WorkspacePrepareParams,
};
use agentiso::mcp::rate_limit::RateLimiter;
use agentiso::mcp::tools::{
    choose_workspace, is_below, resolve_workspace_id, short_id, validate_host_path_in_dir,
    HostTarget,
};
use agentiso::mcp::workspace_tools::{
    check_snapshot_call, create_finish, create_start, delete_done, destroy_finish, exec_background,
    exec_failure, file_mode, file_text, fork_finish, list_workspaces, log_lines, make_worker_names, parse_direction,
    parse_snapshot_call, plan_fork, policy_failure, port_forward, port_remove_done, restore_done,
    settle_worker, shown_logs, shown_output, snapshot_entries, transfer_done, Direction, Done, ExecBackgroundParams,
    Failure, ForkPlan, Forked, JobCall, PortCall, SnapshotCall, SnapshotParams, SnapshotSummary,
    Worker,
    WorkspaceCreateParams, WorkspaceForkParams, WorkspaceSummary,
};
use agentiso::storage::zfs::parse_snapshot_list;

const A: u128 = 0x550e8400_e29b_41d4_a716_446655440000;
const A_TEXT: &str = "550e8400-e29b-41d4-a716-446655440000";
const B: u128 = 2;

fn auth() -> AuthManager {
    let mut m = AuthManager::new(SessionQuota {
        max_workspaces: 3,
        max_memory_mb: 2048,
        max_disk_gb: 40,
    });
    m.register_session("s".to_string(), 0);
    m
}

fn open_limiter() -> RateLimiter {
    RateLimiter::new(
        &RateLimitConfig {
            enabled: false,
            create_per_minute: 1,
            exec_per_minute: 1,
            default_per_minute: 1,
            team_message_per_minute: 1,
        },
        0,
    )
}

fn strict_limiter() -> RateLimiter {
    RateLimiter::new(
        &RateLimitConfig {
            enabled: true,
            create_per_minute: 1,
            exec_per_minute: 1,
            default_per_minute: 1,
            team_message_per_minute: 1,
        },
        0,
    )
}

/// Use up what a limiter gives at once.
fn drained(category: &str) -> RateLimiter {
    let mut l = strict_limiter();
    while l.check(category, 0).is_ok() {}
    l
}

fn forked(id: u128) -> Forked {
    Forked {
        id,
        memory_mb: 512,
        disk_gb: 10,
    }
}

fn create_params() -> WorkspaceCreateParams {
    WorkspaceCreateParams {
        name: None,
        base_image: None,
        vcpus: None,
        memory_mb: None,
        disk_gb: None,
        allow_internet: None,
    }
}

fn fails(r: ToolError, kind: ErrorKind, message: &str) {
    assert_eq!(r.kind, kind);
    assert_eq!(r.message, message);
}

fn fails_with(r: Result<(), ToolError>, kind: ErrorKind) {
    assert_eq!(r.unwrap_err().kind, kind);
}

#[test]
fn identifiers_are_resolved() {
    assert_eq!(resolve_workspace_id(A_TEXT, None).unwrap(), A);
    assert_eq!(resolve_workspace_id(A_TEXT, Some(B)).unwrap(), A);
    assert_eq!(resolve_workspace_id("dev", Some(B)).unwrap(), B);
    fails(
        resolve_workspace_id("dev", None).unwrap_err(),
        ErrorKind::InvalidRequest,
        "workspace 'dev' not found: not a valid UUID and no workspace with that name exists. Use workspace_list to see available workspaces and their IDs/names.",
    );
    assert_eq!(choose_workspace("x", None, Some(B)).unwrap(), B);
    assert_eq!(short_id(A), "550e8400");
}

#[test]
fn only_owned_workspaces_are_reached() {
    let mut m = auth();
    let err = reach(A_TEXT, None, &m, "s").unwrap_err();
    assert!(err.message.contains(A_TEXT));
    m.register_workspace("s", A, 512, 10).unwrap();
    assert_eq!(reach(A_TEXT, None, &m, "s").unwrap(), A);
    assert!(reach(A_TEXT, None, &m, "t").is_err());
    let mut l = open_limiter();
    assert_eq!(exec_start(A_TEXT, None, &m, "s", &mut l, 0).unwrap(), A);
    let mut l = drained("exec");
    let err = exec_start(A_TEXT, None, &m, "s", &mut l, 0).unwrap_err();
    assert!(err.message.contains("exec"));
}

#[test]
fn creation_is_checked_in_order() {
    let m = auth();
    let mut l = open_limiter();
    let r = create_start(create_params(), &m, "s", &mut l, 0).unwrap();
    assert_eq!((r.memory_mb, r.disk_gb), (512, 10));
    let mut big = create_params();
    big.memory_mb = Some(4096);
    big.base_image = Some("../x".to_string());
    let e = create_start(big, &m, "s", &mut l, 0).unwrap_err();
    assert_eq!(e.kind, ErrorKind::InvalidRequest);
    assert!(e.message.contains("quota"));
    let mut odd = create_params();
    odd.base_image = Some("a/b".to_string());
    fails(
        create_start(odd, &m, "s", &mut l, 0).unwrap_err(),
        ErrorKind::InvalidParams,
        "base_image 'a/b' contains invalid characters (allowed: alphanumeric, -, _, .)",
    );
    let mut l = drained("create");
    let e = create_start(create_params(), &m, "s", &mut l, 0).unwrap_err();
    assert!(e.message.contains("create"));
}

#[test]
fn destruction_releases_the_quota() {
    let mut m = auth();
    create_finish(&mut m, "s", A, 512, 10).unwrap();
    assert_eq!(m.get_usage("s").unwrap().memory_mb, 512);
    let r = destroy_finish(&mut m, "s", "dev", A, 512, 10, &Ok(()));
    assert_eq!(r.unwrap(), "Workspace dev destroyed.");
    let usage = m.get_usage("s").unwrap();
    assert_eq!((usage.workspace_count, usage.memory_mb, usage.disk_gb), (0, 0, 0));
    create_finish(&mut m, "s", A, 512, 10).unwrap();
    fails(
        destroy_finish(&mut m, "s", "dev", A, 512, 10, &Err("busy".to_string())).unwrap_err(),
        ErrorKind::Internal,
        "Failed to destroy workspace 'dev': busy. The workspace may be in an inconsistent state. Try workspace_stop first, then workspace_destroy again.",
    );
    assert_eq!(m.get_usage("s").unwrap().workspace_count, 0);
    assert!(create_finish(&mut m, "s", A, 4096, 10).is_err());
}

#[test]
fn listings_tell_who_owns() {
    let mut m = auth();
    m.register_workspace("s", B, 1, 1).unwrap();
    let all = vec![
        WorkspaceSummary {
            id: A,
            state: "running".to_string(),
        },
        WorkspaceSummary {
            id: B,
            state: "stopped".to_string(),
        },
    ];
    let r = list_workspaces(&m, "s", &all, &None, &mut open_limiter(), 0).unwrap();
    let shown: Vec<(usize, bool)> = r.iter().map(|l| (l.index, l.owned)).collect();
    assert_eq!(shown, vec![(0, false), (1, true)]);
    let r = list_workspaces(&m, "s", &all, &Some("stopped".to_string()), &mut open_limiter(), 0).unwrap();
    assert_eq!(r.len(), 1);
    assert_eq!(r[0].index, 1);
    assert!(list_workspaces(&m, "t", &all, &None, &mut open_limiter(), 0).is_err());
}

#[test]
fn failures_say_what_to_do() {
    let f = Failure::PortAdd {
        id: "w".to_string(),
        port: 80,
    };
    fails(
        f.error("in use"),
        ErrorKind::Internal,
        "Failed to forward port 80 in workspace 'w': in use. The host port may already be in use. Omit host_port to auto-assign, or choose a different port >= 1024.",
    );
    let f = Failure::JobPoll {
        id: "w".to_string(),
        job: 3,
    };
    assert!(f.error("x").message.starts_with("Failed to poll job 3 in workspace 'w': x."));
    let f = Failure::FileRead {
        id: "w".to_string(),
        path: "/p".to_string(),
    };
    assert!(f
        .error("x")
        .message
        .starts_with("Failed to read file '/p' in workspace 'w': x."));
    let d = Done::Stopped {
        id: "w".to_string(),
    };
    assert_eq!(d.text(), "Workspace w stopped.");
    let d = Done::FileEdited {
        path: "/p".to_string(),
    };
    assert_eq!(d.text(), "File edited: /p");
}

#[test]
fn commands_that_fail() {
    let e = exec_failure("w", None, "exec timed out");
    assert_eq!(
        e.message,
        "exec timed out after 120s. For long-running commands, use exec_background to start the command, then exec_background(action=\"poll\") to check progress. You can also increase timeout_secs (current: 120s)."
    );
    let e = exec_failure("w", Some(5), "lost");
    assert!(e.message.starts_with("Command failed in workspace 'w': lost."));
    let (out, err) = shown_output("abcdef".to_string(), "x".to_string(), Some(3));
    assert_eq!(out, "abc\n[TRUNCATED: 6 bytes total, showing first 3 bytes]");
    assert_eq!(err, "x");
}

fn job(action: &str) -> ExecBackgroundParams {
    ExecBackgroundParams {
        action: action.to_string(),
        command: None,
        job_id: None,
        signal: None,
    }
}

#[test]
fn background_jobs() {
    let mut l = open_limiter();
    let mut p = job("start");
    p.command = Some("make".to_string());
    assert!(matches!(
        exec_background(p, &mut l, 0),
        Ok(JobCall::Start { command }) if command == "make"
    ));
    let mut p = job("poll");
    p.job_id = Some(4);
    assert!(matches!(
        exec_background(p, &mut l, 0),
        Ok(JobCall::Poll { job: 4 })
    ));
    let mut p = job("kill");
    p.job_id = Some(4);
    assert!(matches!(
        exec_background(p, &mut l, 0),
        Ok(JobCall::Kill {
            job: 4,
            signal: None,
            shown_signal: 9
        })
    ));
    for (action, message) in [
        ("start", "The 'start' action requires a 'command' parameter."),
        ("poll", "The 'poll' action requires a 'job_id' parameter."),
        ("kill", "The 'kill' action requires a 'job_id' parameter."),
        (
            "stop",
            "Unknown exec_background action 'stop'. Valid actions: \"start\", \"poll\", \"kill\".",
        ),
    ] {
        fails(
            exec_background(job(action), &mut l, 0).unwrap_err(),
            ErrorKind::InvalidRequest,
            message,
        );
    }
    let mut m = auth();
    m.register_workspace("s", A, 1, 1).unwrap();
    let mut p = job("poll");
    p.job_id = Some(4);
    let (id, _) = exec_background_start(A_TEXT, None, p, &m, "s", &mut l, 0).unwrap();
    assert_eq!(id, A);
    // Every action is limited.
    let mut l = drained("exec");
    for action in ["start", "poll", "kill", "stop"] {
        fails(
            exec_background_start(A_TEXT, None, job(action), &m, "s", &mut l, 0).unwrap_err(),
            ErrorKind::InvalidRequest,
            "Rate limit exceeded for exec operations. Maximum 1 calls per minute. Please wait and retry.",
        );
    }
}

#[test]
fn file_contents() {
    assert_eq!(file_text("h\u{e9}llo".as_bytes().to_vec()).unwrap(), "h\u{e9}llo");
    let e = file_text(vec![0xff, 0xfe]).unwrap_err();
    assert!(e.message.starts_with("File contains binary data."));
    assert_eq!(file_mode(&None).unwrap(), None);
    assert_eq!(file_mode(&Some("0755".to_string())).unwrap(), Some(0o755));
    fails(
        file_mode(&Some("9".to_string())).unwrap_err(),
        ErrorKind::InvalidParams,
        "invalid octal mode '9'. Use octal notation like \"0644\".",
    );
    assert_eq!(parse_direction("upload").unwrap(), Direction::Upload);
    assert_eq!(parse_direction("download").unwrap(), Direction::Download);
    assert_eq!(
        parse_direction("up").unwrap_err().message,
        "Unknown file_transfer direction 'up'. Valid directions: upload, download."
    );
    assert_eq!(
        transfer_done(Direction::Upload, "/h", "/g", 12),
        "Uploaded /h -> /g (12 bytes)"
    );
    assert_eq!(
        transfer_done(Direction::Download, "/h", "/g", 12),
        "Downloaded /g -> /h (12 bytes)"
    );
}

fn snap(action: &str, name: Option<&str>) -> SnapshotParams {
    SnapshotParams {
        action: action.to_string(),
        workspace_id: A_TEXT.to_string(),
        name: name.map(|s| s.to_string()),
        include_memory: None,
    }
}

#[test]
fn snapshot_calls() {
    assert!(matches!(
        parse_snapshot_call(snap("create", Some("a"))),
        Ok(SnapshotCall::Create { name, include_memory: false }) if name == "a"
    ));
    assert!(matches!(
        parse_snapshot_call(snap("restore", Some("a"))),
        Ok(SnapshotCall::Restore { .. })
    ));
    assert!(matches!(
        parse_snapshot_call(snap("list", None)),
        Ok(SnapshotCall::List)
    ));
    assert!(matches!(
        parse_snapshot_call(snap("delete", Some("a"))),
        Ok(SnapshotCall::Delete { .. })
    ));
    assert_eq!(
        parse_snapshot_call(snap("delete", None)).unwrap_err().message,
        "The 'delete' action requires a 'name' parameter with the snapshot name."
    );
    assert_eq!(
        parse_snapshot_call(snap("drop", None)).unwrap_err().message,
        "Unknown snapshot action 'drop'. Valid actions: create, restore, list, delete."
    );
    let bad = SnapshotCall::Restore {
        name: "a b\"".to_string(),
    };
    assert_eq!(
        check_snapshot_call(&bad).unwrap_err().message,
        "snapshot name 'a b\"' contains invalid character(s): [' ', '\"']. Allowed: letters (a-z, A-Z), digits (0-9), underscores (_), hyphens (-), and dots (.)."
    );
    assert_eq!(
        restore_done("w", "a", 5, 3),
        "Workspace w restored to snapshot 'a'. 2 newer snapshot(s) were removed."
    );
    assert_eq!(
        restore_done("w", "a", 3, 3),
        "Workspace w restored to snapshot 'a'."
    );
    assert_eq!(delete_done("w", "a"), "Snapshot 'a' deleted from workspace w.");
    let mut m = auth();
    assert!(snapshot_start(snap("list", None), None, &m, "s", &mut open_limiter(), 0).is_err());
    m.register_workspace("s", A, 1, 1).unwrap();
    let (id, _) = snapshot_start(snap("list", None), None, &m, "s", &mut open_limiter(), 0).unwrap();
    assert_eq!(id, A);
    assert!(snapshot_start(snap("create", Some("a/b")), None, &m, "s", &mut open_limiter(), 0).is_err());
}

fn fork(count: Option<u32>, prefix: Option<&str>) -> WorkspaceForkParams {
    WorkspaceForkParams {
        workspace_id: A_TEXT.to_string(),
        snapshot_name: "golden".to_string(),
        new_name: Some("copy".to_string()),
        count,
        name_prefix: prefix.map(|s| s.to_string()),
        setup_commands: None,
    }
}

/// The names of the snapshots of a source.
fn golden() -> Vec<String> {
    vec!["first".to_string(), "golden".to_string()]
}

#[test]
fn forks_are_planned() {
    let m = auth();
    assert!(matches!(
        plan_fork(fork(None, None), &vec![], &m, "s", 512, 10),
        Ok(ForkPlan::Single { new_name: Some(n) }) if n == "copy"
    ));
    match plan_fork(fork(Some(3), None), &golden(), &m, "s", 512, 10).unwrap() {
        ForkPlan::Batch {
            names,
            setup_commands,
        } => {
            assert_eq!(names, vec!["worker-1", "worker-2", "worker-3"]);
            assert!(setup_commands.is_empty());
        }
        ForkPlan::Single { .. } => panic!("a batch was asked for"),
    }
    assert_eq!(make_worker_names("a", 2), vec!["a-1", "a-2"]);
    fails(
        plan_fork(fork(Some(21), None), &golden(), &m, "s", 512, 10).unwrap_err(),
        ErrorKind::InvalidParams,
        "count must be between 1 and 20 (got 21)",
    );
    fails(
        plan_fork(fork(Some(2), Some("a b")), &golden(), &m, "s", 512, 10).unwrap_err(),
        ErrorKind::InvalidParams,
        "name_prefix 'a b' contains invalid characters (allowed: alphanumeric, -, _, .)",
    );
    assert!(plan_fork(fork(Some(2), None), &vec![], &m, "s", 512, 10)
        .unwrap_err()
        .message
        .starts_with("snapshot 'golden' not found on workspace"));
    // Five workers would take more memory than the session may use.
    assert!(plan_fork(fork(Some(5), None), &golden(), &m, "s", 512, 1).is_err());
    assert!(plan_fork(fork(Some(4), None), &golden(), &m, "s", 512, 10).is_ok());
}

#[test]
fn workers_are_settled() {
    let mut m = auth();
    assert!(matches!(
        settle_worker(&mut m, "s", Ok(forked(A))),
        Worker::Created(w) if w.id == A
    ));
    assert!(matches!(
        settle_worker(&mut m, "s", Err("x".to_string())),
        Worker::Failed { error } if error == "x"
    ));
    let huge = Forked {
        id: B,
        memory_mb: 9999,
        disk_gb: 1,
    };
    match settle_worker(&mut m, "s", Ok(huge)) {
        Worker::Refused { id, error } => {
            assert_eq!(id, B);
            assert!(error.starts_with("quota registration failed: "));
        }
        _ => panic!("there is no room"),
    }
    fails_with(fork_finish(&mut m, "nobody", forked(B)), ErrorKind::Internal);
    fork_finish(&mut m, "s", forked(B)).unwrap();
    assert!(m.check_ownership("s", B).is_ok());
    let mut l = open_limiter();
    assert_eq!(
        fork_start(&fork(None, None), None, &m, "s", &mut l, 0).unwrap(),
        A
    );
    let mut odd = fork(None, None);
    odd.snapshot_name = "".to_string();
    assert_eq!(
        fork_start(&odd, None, &m, "s", &mut l, 0).unwrap_err().message,
        "snapshot name must not be empty"
    );
}

#[test]
fn ports_and_policies() {
    assert_eq!(port_forward("add", None).unwrap(), PortCall::Add);
    assert_eq!(port_forward("add", Some(1024)).unwrap(), PortCall::Add);
    assert!(port_forward("add", Some(1023))
        .unwrap_err()
        .message
        .starts_with("host_port 1023 is a privileged port (< 1024)."));
    assert_eq!(port_forward("remove", Some(80)).unwrap(), PortCall::Remove);
    assert_eq!(
        port_forward("open", None).unwrap_err().message,
        "Unknown port_forward action 'open'. Valid actions: add, remove."
    );
    assert_eq!(
        port_remove_done("w", 80),
        "Port forward for guest port 80 removed from workspace w."
    );
    let ports: Option<Vec<u16>> = Some(vec![22, 80]);
    assert_eq!(
        policy_failure(Some(true), None, &ports, "no").message,
        format!(
            "no. Requested changes: allow_internet={:?}, allow_inter_vm={:?}, allowed_ports={:?}",
            Some(true),
            None::<bool>,
            ports
        )
    );
    assert_eq!(log_lines(None), 100);
    assert_eq!(log_lines(Some(7)), 7);
    assert_eq!(shown_logs(&None), (true, true));
    assert_eq!(shown_logs(&Some("console".to_string())), (true, false));
    assert_eq!(shown_logs(&Some("stderr".to_string())), (false, true));
}

fn components(path: &str) -> Vec<String> {
    path.split('/').map(|s| s.to_string()).collect()
}

#[test]
fn test_validate_host_path_within_transfer_dir() {
    let root = components("/tmp/t");
    let file = components("/tmp/t/test.txt");
    let result = validate_host_path_in_dir(Ok(root.clone()), HostTarget::At(file), "/tmp/t", true);
    assert!(result.is_ok());
    assert!(result.unwrap().starts_with(&root));
}

#[test]
fn test_validate_host_path_rejects_traversal() {
    let result = validate_host_path_in_dir(
        Ok(components("/tmp/t")),
        HostTarget::At(components("/tmp/etc/passwd")),
        "/tmp/t",
        true,
    );
    assert_eq!(
        result.unwrap_err().message,
        "host_path must be within transfer directory: /tmp/t"
    );
    assert!(validate_host_path_in_dir(
        Ok(components("/tmp/t")),
        HostTarget::Inaccessible("No such file".to_string()),
        "/tmp/t",
        true,
    )
    .is_err());
}

#[test]
fn test_validate_host_path_rejects_absolute_outside() {
    let result = validate_host_path_in_dir(
        Ok(components("/tmp/t")),
        HostTarget::At(components("/etc/passwd")),
        "/tmp/t",
        true,
    );
    assert!(result.is_err());
}

#[test]
fn test_validate_host_path_download_new_file() {
    let result = validate_host_path_in_dir(
        Ok(components("/tmp/t")),
        HostTarget::At(components("/tmp/t/new-download.txt")),
        "/tmp/t",
        false,
    );
    assert!(result.is_ok());
}

#[test]
fn test_validate_host_path_download_rejects_traversal() {
    let result = validate_host_path_in_dir(
        Ok(components("/tmp/t")),
        HostTarget::At(components("/tmp/evil.txt")),
        "/tmp/t",
        false,
    );
    assert!(result.is_err());
}

#[test]
fn host_paths_that_cannot_be_resolved() {
    let at = |t| validate_host_path_in_dir(Ok(components("/t")), t, "/t", false).unwrap_err();
    assert_eq!(at(HostTarget::NoParent).message, "host_path has no parent directory");
    assert_eq!(at(HostTarget::NoFileName).message, "host_path has no file name");
    assert_eq!(
        at(HostTarget::Inaccessible("x".to_string())).message,
        "host path parent directory not accessible: x"
    );
    fails(
        validate_host_path_in_dir(Err("x".to_string()), HostTarget::NoParent, "/t", true)
            .unwrap_err(),
        ErrorKind::Internal,
        "transfer directory not accessible: x",
    );
    assert!(is_below(&components("/a"), &components("/a/b")));
    assert!(!is_below(&components("/a"), &components("/ab")));
}

fn merge_params(sources: Vec<&str>) -> GitMergeParams {
    GitMergeParams {
        source_workspaces: sources.into_iter().map(|s| s.to_string()).collect(),
        target_workspace: A_TEXT.to_string(),
        strategy: "sequential".to_string(),
        path: None,
        commit_message: None,
    }
}

#[test]
fn merges_need_every_workspace() {
    let mut m = auth();
    m.register_workspace("s", A, 1, 1).unwrap();
    assert!(merge_start(merge_params(vec!["one"]), None, &vec![Some(B)], &m, "s", &mut open_limiter(), 0).is_err());
    m.register_workspace("s", B, 1, 1).unwrap();
    let merge = merge_start(merge_params(vec!["one"]), None, &vec![Some(B)], &m, "s", &mut open_limiter(), 0).unwrap();
    assert_eq!(merge.target, A);
    assert_eq!(merge.path, "/workspace");
    assert_eq!(merge.sources.len(), 1);
    assert_eq!(merge.sources[0].id, B);
    assert_eq!(merge.sources[0].label, "one");
    assert!(merge_start(merge_params(vec!["one"]), None, &vec![None], &m, "s", &mut open_limiter(), 0).is_err());
    assert!(merge_start(merge_params(vec![]), None, &vec![], &m, "s", &mut open_limiter(), 0).is_err());
}

fn prepare(url: Option<&str>, commands: Vec<&str>) -> WorkspacePrepareParams {
    WorkspacePrepareParams {
        name: "base".to_string(),
        base_image: None,
        git_url: url.map(|s| s.to_string()),
        setup_commands: Some(commands.into_iter().map(|s| s.to_string()).collect()),
    }
}

fn command(next: &PrepareNext) -> (String, PrepareStage) {
    match next {
        PrepareNext::Run {
            request: Request::Exec { command, .. },
            stage,
        } => (command.clone(), *stage),
        _ => panic!("a command was to be run"),
    }
}

fn reply(exit_code: i32, stderr: &str) -> Result<ExecReply, String> {
    Ok(ExecReply {
        exit_code,
        stdout: String::new(),
        stderr: stderr.to_string(),
    })
}

#[test]
fn preparation_runs_to_a_snapshot() {
    let mut m = auth();
    let p = prepare(Some("https://h/r.git"), vec!["make", "make test"]);
    let r = p.start(&m, "s", &mut open_limiter(), 0).unwrap();
    assert_eq!(r.base_image.as_deref(), Some("alpine-opencode"));
    assert_eq!(r.allow_internet, Some(true));
    let mut next = p.created(&mut m, "s", forked(A));
    let mut commands = Vec::new();
    while let PrepareNext::Run { .. } = next {
        let (c, stage) = command(&next);
        commands.push(c);
        next = p.step(&mut m, "s", A, stage, &reply(0, ""));
    }
    assert_eq!(
        commands,
        vec![
            "git clone 'https://h/r.git' /workspace",
            "make",
            "make test",
            "sync"
        ]
    );
    match &next {
        PrepareNext::Snapshot {
            name,
            include_memory,
        } => {
            assert_eq!(name, "golden");
            assert!(!include_memory);
        }
        _ => panic!("a snapshot was to be made"),
    }
    assert!(p.finish(&mut m, "s", A, &Ok(())).is_ok());
    assert!(m.check_ownership("s", A).is_ok());
    assert_eq!(
        p.finish(&mut m, "s", A, &Err("full".to_string())).unwrap_err().message,
        "snapshot creation failed: full"
    );
    assert_eq!(m.get_usage("s").unwrap().workspace_count, 0);
}

#[test]
fn a_failed_preparation_leaves_nothing() {
    let mut m = auth();
    let p = prepare(None, vec!["make"]);
    let next = p.created(&mut m, "s", forked(A));
    let (c, stage) = command(&next);
    assert_eq!(c, "make");
    match p.step(&mut m, "s", A, stage, &reply(2, "no rule")) {
        PrepareNext::Abandon(e) => fails(
            e,
            ErrorKind::Internal,
            "setup command 1 failed (exit 2): no rule",
        ),
        _ => panic!("the preparation failed"),
    }
    let usage = m.get_usage("s").unwrap();
    assert_eq!((usage.workspace_count, usage.memory_mb, usage.disk_gb), (0, 0, 0));
    assert!(p.start(&m, "t", &mut open_limiter(), 0).is_err());
    assert!(prepare(Some("nonsense"), vec![]).start(&m, "s", &mut open_limiter(), 0).is_err());
    assert_eq!(p.create_failed("full").message, "create failed: full");
    match p.created(&mut m, "t", forked(A)) {
        PrepareNext::Abandon(e) => assert_eq!(e.kind, ErrorKind::InvalidRequest),
        _ => panic!("there is no such session"),
    }
}

#[test]
fn adoption_accounts_for_every_workspace() {
    let mut m = auth();
    m.register_session("t".to_string(), 0);
    m.register_workspace("t", 9, 1, 1).unwrap();
    assert!(adopt_one(&mut m, "s", forked(9)).is_err());
    assert!(adopt_one(&mut m, "nobody", forked(5)).is_err());
    adopt_one(&mut m, "s", forked(1)).unwrap();
    // The first is owned already, and the fourth does not fit any more. The
    // ninth is free, as its session is dropped.
    let all = vec![forked(1), forked(9), forked(2), forked(3)];
    let r = adopt_all(&mut m, "s", &all);
    assert_eq!(r.adopted, vec![9, 2]);
    let ids: Vec<u128> = r.errors.iter().map(|e| e.0).collect();
    assert_eq!(ids, vec![3]);
    assert_eq!(m.get_usage("s").unwrap().workspace_count, 3);
    assert!(m.get_usage("t").is_err());
    let r = adopt_all(&mut m, "nobody", &all);
    assert!(r.adopted.is_empty());
    assert_eq!(r.errors.len(), 4);
    assert!(m.get_usage("s").is_err());
}

/// Run the setup of a worker; gives the commands and how it ended.
fn set_up(
    worker: &Worker,
    commands: &Vec<String>,
    reply: impl Fn(&str) -> Result<ExecReply, String>,
) -> (Vec<(u128, String)>, Result<(), String>) {
    let mut ran = Vec::new();
    let mut next = worker_start(worker, commands);
    loop {
        match next {
            WorkerNext::Run { request, done } => {
                let (id, command) = match request {
                    Request::Exec {
                        workspace, command, ..
                    } => (workspace, command),
                    Request::WriteFile { .. } => panic!("nothing is written here"),
                };
                let answer = reply(&command);
                ran.push((id, command));
                next = worker_step(commands, id, done, &answer);
            }
            WorkerNext::Ready => return (ran, Ok(())),
            WorkerNext::Failed { error } => return (ran, Err(error)),
        }
    }
}

#[test]
fn setup_commands_run_on_each_worker() {
    let mut m = auth();
    let mut p = fork(Some(2), None);
    p.setup_commands = Some(vec!["apk add git".to_string(), "make".to_string()]);
    let commands = match plan_fork(p, &golden(), &m, "s", 512, 10).unwrap() {
        ForkPlan::Batch { setup_commands, .. } => setup_commands,
        ForkPlan::Single { .. } => panic!("a batch was asked for"),
    };
    for id in [A, B] {
        let worker = settle_worker(&mut m, "s", Ok(forked(id)));
        let (ran, outcome) = set_up(&worker, &commands, |_| reply(0, ""));
        assert_eq!(outcome, Ok(()));
        assert_eq!(
            ran,
            vec![(id, "apk add git".to_string()), (id, "make".to_string())]
        );
    }
    let worker = Worker::Created(forked(A));
    let (ran, outcome) = set_up(&worker, &commands, |_| reply(3, "no network"));
    assert_eq!(ran.len(), 1);
    assert_eq!(
        outcome.unwrap_err(),
        "setup command 1 failed (exit 3): no network"
    );
    let lost = Worker::Failed {
        error: "x".to_string(),
    };
    assert!(set_up(&lost, &commands, |_| reply(0, "")).0.is_empty());
}

#[test]
fn snapshot_lists_tell_sizes() {
    let summary = |id: u128, name: &str| SnapshotSummary {
        id,
        name: name.to_string(),
        has_memory: false,
        parent: None,
        created_at: 0,
    };
    let sizes = parse_snapshot_list("tank/ws-1@a\t10\t4096\ntank/ws-1@b\t20\t8192\n");
    let entries = snapshot_entries(
        vec![summary(2, "b"), summary(1, "a"), summary(3, "c")],
        &sizes,
    );
    let shown: Vec<(u128, Option<u64>)> = entries
        .iter()
        .map(|e| (e.snapshot.id, e.referenced))
        .collect();
    assert_eq!(shown, vec![(2, Some(8192)), (1, Some(4096)), (3, None)]);
}

#[test]
fn every_other_call_draws_on_the_default_limit() {
    const MESSAGE: &str =
        "Rate limit exceeded for default operations. Maximum 1 calls per minute. Please wait and retry.";
    let mut m = auth();
    m.register_workspace("s", A, 1, 1).unwrap();
    let mut l = strict_limiter();
    for _ in 0..20 {
        assert!(list_workspaces(&m, "s", &vec![], &None, &mut l, 0).is_ok());
    }
    let limit = |e: ToolError| fails(e, ErrorKind::InvalidRequest, MESSAGE);
    limit(list_workspaces(&m, "s", &vec![], &None, &mut l, 0).unwrap_err());
    limit(tool_start(A_TEXT, None, &m, "s", &mut l, 0).unwrap_err());
    limit(call_start(&mut l, 0).unwrap_err());
    limit(adopt_start(A_TEXT, None, &mut l, 0).unwrap_err());
    limit(snapshot_start(snap("list", None), None, &m, "s", &mut l, 0).unwrap_err());
    limit(
        merge_start(merge_params(vec![]), None, &vec![], &m, "s", &mut l, 0)
            .err()
            .unwrap(),
    );
    limit(prepare(None, vec![]).start(&m, "s", &mut l, 0).unwrap_err());
    // Other categories are not held up.
    assert_eq!(exec_start(A_TEXT, None, &m, "s", &mut l, 0).unwrap(), A);
    // A minute later there is one more token.
    let later = 60_000_000_000;
    assert_eq!(tool_start(A_TEXT, None, &m, "s", &mut l, later).unwrap(), A);
    limit(adopt_start(A_TEXT, None, &mut l, later).unwrap_err());
    assert_eq!(
        adopt_start(A_TEXT, None, &mut open_limiter(), 0).unwrap(),
        A
    );
    assert!(call_start(&mut open_limiter(), 0).is_ok());
}
