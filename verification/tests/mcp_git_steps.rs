//! The git tools, command by command.

use agentiso::mcp::exchange::{ExecReply, Next, Request};
use agentiso::mcp::git_tools::{
    parse_git_porcelain_v2, redact_credentials, GitCloneOutcome, GitCloneParams, GitCommitOutcome,
    GitCommitParams, GitDiffOutcome, GitDiffParams, GitPushOutcome, GitPushParams,
    GitStatusOutcome, GitStatusParams,
};

const WS: u128 = 7;

fn ok(stdout: &str) -> Result<ExecReply, String> {
    reply(0, stdout, "")
}

fn reply(exit_code: i32, stdout: &str, stderr: &str) -> Result<ExecReply, String> {
    Ok(ExecReply {
        exit_code,
        stdout: stdout.to_string(),
        stderr: stderr.to_string(),
    })
}

fn lost(why: &str) -> Result<ExecReply, String> {
    Err(why.to_string())
}

fn shown(request: Request) -> String {
    match request {
        Request::Exec {
            workspace,
            command,
            timeout_secs,
        } => {
            assert_eq!(workspace, WS);
            format!("{} [{}]", command, timeout_secs)
        }
        Request::WriteFile { .. } => panic!("nothing is written here"),
    }
}

/// Run an exchange; gives the commands and how it ended.
fn drive<S, T>(
    first: Next<S, T>,
    step: impl Fn(S, &Result<ExecReply, String>) -> Next<S, T>,
    replies: Vec<Result<ExecReply, String>>,
) -> (Vec<String>, Result<T, String>) {
    let mut commands = Vec::new();
    let mut next = first;
    let mut replies = replies.iter();
    loop {
        match next {
            Next::Run { request, stage } => {
                commands.push(shown(request));
                next = step(stage, replies.next().expect("a reply for each command"));
            }
            Next::Done(t) => return (commands, Ok(t)),
            Next::Fail(e) => return (commands, Err(e.message)),
        }
    }
}

fn clone_of(
    p: &GitCloneParams,
    replies: Vec<Result<ExecReply, String>>,
) -> (Vec<String>, Result<GitCloneOutcome, String>) {
    drive(p.start(WS), |s, r| p.step(WS, s, r), replies)
}

fn clone_params(url: &str) -> GitCloneParams {
    GitCloneParams {
        workspace_id: "w".to_string(),
        url: url.to_string(),
        path: None,
        branch: None,
        depth: None,
    }
}

#[test]
fn clone_reads_the_commit() {
    let mut p = clone_params("https://example.com/r.git");
    p.branch = Some("it's".to_string());
    p.depth = Some(1);
    let (commands, done) = clone_of(&p, vec![ok(""), ok("abc123\n")]);
    assert_eq!(
        commands,
        vec![
            "git clone --depth 1 --branch 'it'\\''s' 'https://example.com/r.git' '/workspace' [300]",
            "git -C '/workspace' rev-parse HEAD [10]",
        ]
    );
    let done = done.unwrap();
    assert_eq!(done.path, "/workspace");
    assert_eq!(done.commit_sha, "abc123");
    assert_eq!(done.depth, Some(1));
}

#[test]
fn clone_errors() {
    let p = clone_params("https://example.com/r.git");
    let (_, r) = clone_of(&p, vec![reply(128, "out", " no such repo\n")]);
    assert_eq!(
        r.unwrap_err(),
        "git clone failed (exit code 128): no such repo"
    );
    let (_, r) = clone_of(&p, vec![lost("exec timed out")]);
    assert!(r.unwrap_err().starts_with("git clone timed out after 300s."));
    let (_, r) = clone_of(&p, vec![lost("gone")]);
    assert_eq!(r.unwrap_err(), "gone");
    let (commands, r) = clone_of(&clone_params("ftp://x"), vec![]);
    assert!(commands.is_empty());
    assert!(r.is_err());
    let (_, r) = clone_of(&p, vec![ok(""), lost("gone")]);
    assert_eq!(r.unwrap().commit_sha, "");
}

#[test]
fn status_of_no_repository() {
    let p = GitStatusParams {
        workspace_id: "w".to_string(),
        path: Some("/src".to_string()),
    };
    assert_eq!(
        shown(p.start(WS)),
        "git -C '/src' status --porcelain=v2 --branch 2>&1 [30]"
    );
    match p
        .finish(&reply(128, "fatal: not a git repository", ""))
        .unwrap()
    {
        GitStatusOutcome::NotARepository { message } => assert_eq!(
            message,
            "'/src' is not a git repository. Run 'git init' or 'git clone' first."
        ),
        GitStatusOutcome::Status(_) => panic!("there is no repository"),
    }
    assert_eq!(
        p.finish(&reply(1, "", " broken ")).err().unwrap().message,
        "git status failed (exit code 1): broken"
    );
    match p.finish(&ok("# branch.head main\n? a.txt\n")).unwrap() {
        GitStatusOutcome::Status(s) => {
            assert_eq!(s.branch, "main");
            assert_eq!(s.untracked, vec!["a.txt"]);
            assert!(s.dirty);
        }
        GitStatusOutcome::NotARepository { .. } => panic!("there is a repository"),
    }
}

#[test]
fn a_clean_status_is_not_dirty() {
    let s = parse_git_porcelain_v2("# branch.head main\n# branch.ab +2 -3\n");
    assert!(!s.dirty);
    assert_eq!((s.ahead, s.behind), (2, 3));
}

fn commit_params() -> GitCommitParams {
    GitCommitParams {
        workspace_id: "w".to_string(),
        path: None,
        message: "fix".to_string(),
        add_all: None,
        author_name: None,
        author_email: None,
    }
}

fn commit(
    p: &GitCommitParams,
    replies: Vec<Result<ExecReply, String>>,
) -> (Vec<String>, Result<GitCommitOutcome, String>) {
    drive(p.start(WS), |s, r| p.step(WS, s, r), replies)
}

#[test]
fn commit_reports_the_commit() {
    let mut p = commit_params();
    p.author_name = Some("Ada".to_string());
    p.author_email = Some("a@b".to_string());
    let (commands, done) = commit(
        &p,
        vec![
            ok(""),
            ok(""),
            ok("0123456789abcdef\n"),
            ok("0123456 fix\n"),
            ok("main\n"),
        ],
    );
    assert_eq!(commands[0], "git -C '/workspace' add -A [30]");
    assert_eq!(
        commands[1],
        "git -C '/workspace' -c user.name='Ada' -c user.email='a@b' commit -m 'fix' --author='Ada <a@b>' [30]"
    );
    assert_eq!(commands[2], "git -C '/workspace' rev-parse HEAD [10]");
    assert_eq!(
        commands[3],
        "git -C '/workspace' log -1 --format='%h %s' [10]"
    );
    assert_eq!(commands[4], "git -C '/workspace' branch --show-current [10]");
    match done.unwrap() {
        GitCommitOutcome::Committed {
            commit_sha,
            short_sha,
            branch,
            summary,
        } => {
            assert_eq!(commit_sha, "0123456789abcdef");
            assert_eq!(short_sha, "0123456");
            assert_eq!(branch, "main");
            assert_eq!(summary, "0123456 fix");
        }
        GitCommitOutcome::NothingToCommit => panic!("there is a commit"),
    }
}

#[test]
fn commit_errors() {
    let mut p = commit_params();
    let (_, r) = commit(&p, vec![reply(1, "", "denied\n")]);
    assert_eq!(r.unwrap_err(), "git add -A failed (exit code 1): denied");
    p.add_all = Some(false);
    let (commands, r) = commit(&p, vec![reply(1, "nothing to commit, clean", "")]);
    assert_eq!(commands, vec!["git -C '/workspace' commit -m 'fix' [30]"]);
    assert!(matches!(r, Ok(GitCommitOutcome::NothingToCommit)));
    let (_, r) = commit(&p, vec![reply(2, "hook said no\n", "")]);
    assert_eq!(
        r.err().unwrap(),
        "git commit failed (exit code 2): hook said no"
    );
}

fn push_params() -> GitPushParams {
    GitPushParams {
        workspace_id: "w".to_string(),
        path: None,
        remote: None,
        branch: None,
        force: None,
        set_upstream: None,
        timeout_secs: None,
    }
}

fn push(
    p: &GitPushParams,
    replies: Vec<Result<ExecReply, String>>,
) -> (Vec<String>, Result<GitPushOutcome, String>) {
    drive(p.start(WS), |s, r| p.step(WS, s, r), replies)
}

#[test]
fn push_detects_the_branch_and_hides_credentials() {
    let mut p = push_params();
    p.force = Some(true);
    p.set_upstream = Some(true);
    let token = format!("{}_{}", "ghp", "a".repeat(36));
    let (commands, done) = push(
        &p,
        vec![
            ok("dev\n"),
            reply(0, "", &format!("pushed with {}\nBearer xyz\n", token)),
        ],
    );
    assert_eq!(
        commands,
        vec![
            "git -C '/workspace' branch --show-current [10]",
            "git -C '/workspace' push --force -u 'origin' 'dev' [120]",
        ]
    );
    let done = done.unwrap();
    assert_eq!(done.remote, "origin");
    assert_eq!(done.branch, "dev");
    assert_eq!(done.output, "pushed with [REDACTED]\n[REDACTED]");
    assert_eq!(redact_credentials("plain"), "plain");
}

#[test]
fn push_suggests_what_to_do() {
    let mut p = push_params();
    p.branch = Some("dev".to_string());
    let (_, r) = push(&p, vec![reply(1, "", "could not read Username")]);
    assert_eq!(
        r.unwrap_err(),
        "git push failed (exit code 1): could not read Username. Suggestion: use set_env to configure git credentials (e.g. GIT_ASKPASS, GITHUB_TOKEN) or inject an SSH key."
    );
    let (_, r) = push(&p, vec![reply(1, "", "No such remote")]);
    assert_eq!(
        r.unwrap_err(),
        "git push failed (exit code 1): No such remote. Suggestion: configure a remote first with exec(command=\"git -C /workspace remote add origin <url>\")."
    );
    let (_, r) = push(&p, vec![reply(1, "", "[rejected]")]);
    assert_eq!(
        r.unwrap_err(),
        "git push failed (exit code 1): [rejected]. Suggestion: pull/merge first, or use force=true to force push."
    );
    let (_, r) = push(&p, vec![reply(1, "", "odd")]);
    assert_eq!(r.unwrap_err(), "git push failed (exit code 1): odd.");
    let (_, r) = push(&p, vec![lost("Timeout")]);
    assert_eq!(
        r.unwrap_err(),
        "git push timed out after 120s. Try increasing timeout_secs."
    );
    p.branch = None;
    let (_, r) = push(&p, vec![ok(" \n")]);
    assert!(r.unwrap_err().starts_with("Could not detect current branch."));
}

fn diff_params() -> GitDiffParams {
    GitDiffParams {
        workspace_id: "w".to_string(),
        path: None,
        staged: None,
        stat: None,
        file_path: None,
        max_bytes: None,
    }
}

fn diff(
    p: &GitDiffParams,
    replies: Vec<Result<ExecReply, String>>,
) -> (Vec<String>, Result<GitDiffOutcome, String>) {
    drive(p.start(WS), |s, r| p.step(WS, s, r), replies)
}

#[test]
fn diff_is_cut_and_summed_up() {
    let mut p = diff_params();
    p.staged = Some(true);
    p.file_path = Some("a b".to_string());
    p.max_bytes = Some(4);
    let (commands, done) = diff(&p, vec![ok("123456"), ok(" a b | 2 \n")]);
    assert_eq!(
        commands,
        vec![
            "git -C '/workspace' diff --staged -- 'a b' [30]",
            "git -C '/workspace' diff --staged --stat -- 'a b' [30]",
        ]
    );
    let done = done.unwrap();
    assert_eq!(done.diff, "1234[TRUNCATED]");
    assert!(done.truncated);
    assert_eq!(done.stat.as_deref(), Some("a b | 2"));
}

#[test]
fn diff_of_statistics_only() {
    let mut p = diff_params();
    p.stat = Some(true);
    let (commands, done) = diff(&p, vec![ok(" x | 1\n")]);
    assert_eq!(commands, vec!["git -C '/workspace' diff --stat [30]"]);
    let done = done.unwrap();
    assert_eq!(done.diff, " x | 1\n");
    assert_eq!(done.stat.as_deref(), Some(" x | 1\n"));
    assert!(!done.truncated);
    let (_, r) = diff(&p, vec![reply(129, "usage", "")]);
    assert_eq!(r.err().unwrap(), "git diff failed (exit code 129): usage");
    let (_, r) = diff(&diff_params(), vec![ok("d"), reply(1, "x", "")]);
    assert_eq!(r.unwrap().stat, None);
}

#[test]
fn redaction_leaves_no_credentials() {
    let long = |prefix: &str, n: usize| format!("{}{}", prefix, "x".repeat(n));
    for (token, is_secret) in [
        (long("ghp_", 36), true),
        (long("ghp_", 35), false),
        (long("github_pat_", 22), true),
        (long("github_pat_", 21), false),
        (long("glpat-", 20), true),
        (long("glpat-", 19), false),
    ] {
        let text = format!("first\nremote: {}.\nlast\n", token);
        let redacted = redact_credentials(&text);
        if is_secret {
            assert_eq!(redacted, "first\nremote: [REDACTED].\nlast\n");
        } else {
            assert_eq!(redacted, text);
        }
        assert_eq!(redact_credentials(&redacted), redacted);
    }
    let text = "a\nx Authorization: y\nb\nuse Bearer z\n";
    assert_eq!(redact_credentials(text), "a\n[REDACTED]\nb\n[REDACTED]\n");
    assert_eq!(redact_credentials("Bearer"), "Bearer");
    assert_eq!(redact_credentials("[REDACTED]"), "[REDACTED]");
}
