//! Git tools.

use agentiso::mcp::git_tools::{parse_git_porcelain_v2, validate_git_url};

#[test]
fn test_validate_git_url_https() {
    assert!(validate_git_url("https://github.com/user/repo.git").is_ok());
}

#[test]
fn test_validate_git_url_http() {
    assert!(validate_git_url("http://github.com/user/repo.git").is_ok());
}

#[test]
fn test_validate_git_url_ssh() {
    assert!(validate_git_url("ssh://git@github.com/user/repo.git").is_ok());
}

#[test]
fn test_validate_git_url_scp_style() {
    assert!(validate_git_url("git@github.com:user/repo.git").is_ok());
}

#[test]
fn test_validate_git_url_git_protocol() {
    assert!(validate_git_url("git://github.com/user/repo.git").is_ok());
}

#[test]
fn test_validate_git_url_invalid() {
    assert!(validate_git_url("not-a-url").is_err());
    assert!(validate_git_url("/local/path").is_err());
    assert!(validate_git_url("ftp://host/repo").is_err());
}

#[test]
fn test_validate_git_url_rejects_injection() {
    assert!(validate_git_url("https://github.com/repo; rm -rf /").is_err());
    assert!(validate_git_url("https://github.com/repo|cat /etc/passwd").is_err());
    assert!(validate_git_url("https://github.com/repo$(whoami)").is_err());
}

#[test]
fn test_parse_git_porcelain_v2_clean() {
    let output = "# branch.oid abc123def456\n# branch.head main\n# branch.upstream origin/main\n# branch.ab +0 -0\n";
    let status = parse_git_porcelain_v2(output);
    assert_eq!(status.branch, "main");
    assert_eq!(status.ahead, 0);
    assert_eq!(status.behind, 0);
    assert!(status.staged.is_empty());
    assert!(status.modified.is_empty());
    assert!(status.untracked.is_empty());
    assert!(status.conflicted.is_empty());
    assert!(!status.dirty);
}

#[test]
fn test_parse_git_porcelain_v2_with_changes() {
    let output = "\
# branch.oid abc123def456
# branch.head feature-branch
# branch.upstream origin/feature-branch
# branch.ab +3 -1
1 A. N... 000000 100644 100644 0000000000000000000000000000000000000000 abc123def456abc123def456abc123def456abc12345 README.md
1 .M N... 100644 100644 100644 abc123def456abc123def456abc123def456abc12345 abc123def456abc123def456abc123def456abc12345 src/main.rs
? test.log
";
    let status = parse_git_porcelain_v2(output);
    assert_eq!(status.branch, "feature-branch");
    assert_eq!(status.ahead, 3);
    assert_eq!(status.behind, 1);
    assert_eq!(status.staged, vec!["README.md"]);
    assert_eq!(status.modified, vec!["src/main.rs"]);
    assert_eq!(status.untracked, vec!["test.log"]);
    assert!(status.conflicted.is_empty());
    assert!(status.dirty);
}

#[test]
fn test_parse_git_porcelain_v2_untracked_only() {
    let output = "# branch.head main\n? newfile.txt\n? another.txt\n";
    let status = parse_git_porcelain_v2(output);
    assert_eq!(status.branch, "main");
    assert_eq!(status.untracked, vec!["newfile.txt", "another.txt"]);
    assert!(status.dirty);
}

#[test]
fn test_parse_git_porcelain_v2_conflicted() {
    let output = "\
# branch.head main
u UU N... 100644 100644 100644 100644 abc123 def456 789abc conflicted-file.rs
";
    let status = parse_git_porcelain_v2(output);
    assert_eq!(status.conflicted, vec!["conflicted-file.rs"]);
    assert!(status.dirty);
}

#[test]
fn test_parse_git_porcelain_v2_rename() {
    let output = "\
# branch.head main
2 R. N... 100644 100644 100644 abc123 def456 R100 new-name.rs\told-name.rs
";
    let status = parse_git_porcelain_v2(output);
    assert_eq!(status.staged, vec!["new-name.rs"]);
    assert!(status.dirty);
}

#[test]
fn test_parse_git_porcelain_v2_detached_head() {
    let output = "# branch.oid abc123\n# branch.head (detached)\n";
    let status = parse_git_porcelain_v2(output);
    assert_eq!(status.branch, "(detached)");
    assert!(!status.dirty);
}

#[test]
fn test_parse_git_porcelain_v2_empty_output() {
    let status = parse_git_porcelain_v2("");
    assert_eq!(status.branch, "(unknown)");
    assert_eq!(status.ahead, 0);
    assert_eq!(status.behind, 0);
    assert!(!status.dirty);
}

#[test]
fn test_parse_git_porcelain_v2_staged_and_modified() {
    // A file that is both staged and has worktree modifications
    let output = "\
# branch.head main
1 MM N... 100644 100644 100644 abc123 def456 both-changed.rs
";
    let status = parse_git_porcelain_v2(output);
    assert_eq!(status.staged, vec!["both-changed.rs"]);
    assert_eq!(status.modified, vec!["both-changed.rs"]);
    assert!(status.dirty);
}

#[test]
fn scp_style_needs_a_user_and_no_scheme() {
    assert!(validate_git_url("ftp://user@host/repo").is_err());
    assert!(validate_git_url("ftp://user@host:21/repo").is_err());
    assert!(validate_git_url("host:path@x").is_err());
    assert!(validate_git_url("user@host").is_err());
    assert!(validate_git_url("deploy@host:team/repo.git").is_ok());
}

#[test]
fn markers_are_stripped_once() {
    let status = parse_git_porcelain_v2(
        "# branch.head # branch.head x\n# branch.ab # branch.ab +2 -1\n? ? a.txt\n",
    );
    assert_eq!(status.branch, "# branch.head x");
    assert_eq!((status.ahead, status.behind), (2, 1));
    assert_eq!(status.untracked, vec!["? a.txt"]);
    assert!(status.dirty);
}
