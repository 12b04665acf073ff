//! Merging workspaces.

use agentiso::mcp::exchange::{ExecReply, Request};
use agentiso::mcp::merge::{GitMergeParams, Merge, MergeAction, MergeReport, Source, Strategy};

const TARGET: u128 = 0xffff_0000_0000_0000_0000_0000_0000_0001;
const FIRST: u128 = 0x1111_2222_3333_4444_5555_6666_7777_8888;
const SECOND: u128 = 0xaaaa_bbbb_cccc_dddd_eeee_ffff_0000_1111;

fn ok(stdout: &str) -> Result<ExecReply, String> {
    Ok(ExecReply {
        exit_code: 0,
        stdout: stdout.to_string(),
        stderr: String::new(),
    })
}

fn bad(stderr: &str) -> Result<ExecReply, String> {
    Ok(ExecReply {
        exit_code: 1,
        stdout: String::new(),
        stderr: stderr.to_string(),
    })
}

fn merge(strategy: Strategy, message: Option<&str>) -> Merge {
    Merge::new(
        strategy,
        vec![
            Source {
                label: "one".to_string(),
                id: FIRST,
            },
            Source {
                label: "two".to_string(),
                id: SECOND,
            },
        ],
        TARGET,
        "/workspace".to_string(),
        message.map(|m| m.to_string()),
    )
}

/// Run a merge against replies; gives what it asked for and how it ended.
fn drive(
    mut m: Merge,
    replies: Vec<Result<ExecReply, String>>,
) -> (Vec<(u128, String)>, Result<MergeReport, String>) {
    let mut asked = Vec::new();
    let mut action = m.start();
    let mut replies = replies.into_iter();
    loop {
        match action {
            MergeAction::Run(Request::Exec {
                workspace, command, ..
            }) => asked.push((workspace, command)),
            MergeAction::Run(Request::WriteFile {
                workspace,
                path,
                content,
            }) => asked.push((workspace, format!("write {} {}", path, content))),
            MergeAction::Done(report) => return (asked, Ok(report)),
            MergeAction::Fail(e) => return (asked, Err(e.message)),
        }
        action = m.step(&replies.next().expect("a reply for each request"));
    }
}

fn params(strategy: &str, sources: Vec<&str>) -> GitMergeParams {
    GitMergeParams {
        source_workspaces: sources.into_iter().map(|s| s.to_string()).collect(),
        target_workspace: "t".to_string(),
        strategy: strategy.to_string(),
        path: None,
        commit_message: None,
    }
}

#[test]
fn strategies_are_checked() {
    assert_eq!(
        params("sequential", vec!["a"]).check().unwrap(),
        Strategy::Sequential
    );
    assert_eq!(
        params("branch-per-source", vec!["a"]).check().unwrap(),
        Strategy::BranchPerSource
    );
    assert_eq!(
        params("cherry-pick", vec!["a"]).check().unwrap(),
        Strategy::CherryPick
    );
    assert_eq!(
        params("octopus", vec!["a"]).check().unwrap_err().message,
        "invalid merge strategy 'octopus'. Must be one of: sequential, branch-per-source, cherry-pick"
    );
    assert_eq!(
        params("sequential", vec![]).check().unwrap_err().message,
        "source_workspaces must contain at least one workspace ID"
    );
    assert_eq!(Strategy::CherryPick.name(), "cherry-pick");
}

#[test]
fn sequential_merge_counts_commits_and_conflicts() {
    let (asked, report) = drive(
        merge(Strategy::Sequential, None),
        vec![
            ok("patch one"),
            ok(""),
            ok("Applying: a\nApplying: b\n"),
            ok(""),
            ok("patch two"),
            ok(""),
            bad("conflict in x\n"),
            ok(""),
        ],
    );
    let report = report.unwrap();
    assert!(!report.success);
    assert_eq!(report.total_commits_applied, 2);
    assert_eq!(report.merged_sources, vec!["one"]);
    assert_eq!(report.conflicts.len(), 1);
    assert_eq!(report.conflicts[0].source_id, "two");
    assert_eq!(
        report.conflicts[0].error.as_deref(),
        Some("git am failed: conflict in x")
    );
    assert_eq!(asked.len(), 8);
    assert_eq!(asked[0].0, FIRST);
    assert_eq!(
        asked[0].1,
        "git -C '/workspace' format-patch --stdout $(git -C '/workspace' rev-list --max-parents=0 HEAD)..HEAD"
    );
    assert_eq!(asked[1].0, TARGET);
    assert_eq!(asked[1].1, "write /tmp/merge-patch-11112222.patch patch one");
    assert_eq!(
        asked[2].1,
        "git -C '/workspace' am '/tmp/merge-patch-11112222.patch'"
    );
    assert_eq!(asked[3].1, "rm -f '/tmp/merge-patch-11112222.patch'");
    assert_eq!(asked[4].0, SECOND);
    assert_eq!(asked[7].1, "git -C '/workspace' am --abort");
}

#[test]
fn sequential_merge_without_commits() {
    let (_, report) = drive(
        merge(Strategy::Sequential, None),
        vec![ok("  \n"), bad("no history"), bad("")],
    );
    let report = report.unwrap();
    assert!(!report.success);
    assert_eq!(report.merged_sources, vec!["one"]);
    assert_eq!(
        report.conflicts[0].error.as_deref(),
        Some("failed to extract patches: no history")
    );
}

#[test]
fn a_lost_workspace_ends_the_merge() {
    let (_, report) = drive(
        merge(Strategy::Sequential, None),
        vec![Err("connection lost".to_string())],
    );
    assert_eq!(report.unwrap_err(), "connection lost");
    let (_, report) = drive(
        merge(Strategy::Sequential, None),
        vec![ok("patch"), Err("disk full".to_string())],
    );
    assert_eq!(
        report.unwrap_err(),
        "failed to write patch to target: disk full"
    );
}

#[test]
fn branch_merge_uses_a_branch_per_source() {
    let (asked, report) = drive(
        merge(Strategy::BranchPerSource, Some("Join")),
        vec![
            ok("main\n"),
            // first source
            ok(""),
            ok("patch"),
            ok(""),
            ok("Applying: a\n"),
            ok(""),
            ok(""),
            ok(""),
            ok(""),
            // second source: nothing to merge
            ok(""),
            ok(""),
            ok(""),
        ],
    );
    let report = report.unwrap();
    assert!(report.success);
    assert_eq!(report.total_commits_applied, 1);
    assert_eq!(report.merged_sources, vec!["one", "two"]);
    assert_eq!(asked[0].1, "git -C '/workspace' branch --show-current");
    assert_eq!(
        asked[1].1,
        "git -C '/workspace' checkout -b 'merge/11112222'"
    );
    assert_eq!(asked[6].1, "git -C '/workspace' checkout 'main'");
    assert_eq!(
        asked[7].1,
        "git -C '/workspace' merge --no-ff -m 'Join (from 11112222)' 'merge/11112222'"
    );
    assert_eq!(asked[8].1, "git -C '/workspace' branch -d 'merge/11112222'");
    assert_eq!(
        asked[11].1,
        "git -C '/workspace' checkout 'main' && git -C '/workspace' branch -D 'merge/aaaabbbb'"
    );
}

#[test]
fn branch_merge_reports_each_kind_of_conflict() {
    let (asked, report) = drive(
        merge(Strategy::BranchPerSource, None),
        vec![
            ok("main"),
            bad("branch exists"),
            ok(""),
            // second source: the merge fails
            ok(""),
            ok("patch"),
            ok(""),
            ok("Applying: a"),
            ok(""),
            ok(""),
            bad("conflict"),
            ok(""),
        ],
    );
    let report = report.unwrap();
    assert_eq!(
        report.conflicts[0].error.as_deref(),
        Some("failed to create branch 'merge/11112222': branch exists")
    );
    assert_eq!(
        report.conflicts[1].error.as_deref(),
        Some("merge of branch 'merge/aaaabbbb' failed: conflict")
    );
    assert_eq!(report.total_commits_applied, 0);
    assert_eq!(
        asked[9].1,
        "git -C '/workspace' merge --no-ff -m 'Merge branch '\\''merge/aaaabbbb'\\'' from workspace aaaabbbb' 'merge/aaaabbbb'"
    );
    assert_eq!(asked[10].1, "git -C '/workspace' merge --abort");
}

#[test]
fn branch_merge_takes_back_a_failed_patch() {
    let (asked, report) = drive(
        merge(Strategy::BranchPerSource, None),
        vec![
            ok("main"),
            ok(""),
            ok("patch"),
            ok(""),
            bad("does not apply"),
            ok(""),
            ok(""),
            ok(""),
            ok(""),
            ok(""),
            ok(""),
        ],
    );
    let report = report.unwrap();
    assert_eq!(
        report.conflicts[0].error.as_deref(),
        Some("patch apply failed on branch 'merge/11112222': does not apply")
    );
    assert_eq!(asked[6].1, "git -C '/workspace' am --abort");
}

#[test]
fn branch_merge_needs_a_branch() {
    let (_, report) = drive(merge(Strategy::BranchPerSource, None), vec![ok("\n")]);
    assert_eq!(
        report.unwrap_err(),
        "target workspace is in detached HEAD state; cannot merge"
    );
}

#[test]
fn cherry_pick_stops_a_source_at_its_first_conflict() {
    let (asked, report) = drive(
        merge(Strategy::CherryPick, None),
        vec![
            ok("aaaaaaaaaaaa\nbbbbbbbbbbbb\n"),
            ok("patch a"),
            ok(""),
            ok(""),
            ok(""),
            ok("patch b"),
            ok(""),
            bad("conflict"),
            ok(""),
            ok(""),
            // second source
            ok("cccc\n"),
            bad("gone"),
        ],
    );
    let report = report.unwrap();
    assert!(!report.success);
    assert_eq!(report.total_commits_applied, 0);
    assert!(report.merged_sources.is_empty());
    assert_eq!(
        report.conflicts[0].error.as_deref(),
        Some("cherry-pick of commit bbbbbbbb failed: conflict")
    );
    assert_eq!(
        report.conflicts[1].error.as_deref(),
        Some("failed to extract commit cccc: gone")
    );
    assert_eq!(asked[2].1, "write /tmp/cherry-aaaaaaaa.patch patch a");
    assert_eq!(
        asked[1].1,
        "git -C '/workspace' format-patch --stdout -1 'aaaaaaaaaaaa'"
    );
}

#[test]
fn cherry_pick_counts_applied_commits() {
    let (_, report) = drive(
        merge(Strategy::CherryPick, None),
        vec![ok("aaaa\n"), ok("p"), ok(""), ok(""), ok(""), bad("")],
    );
    let report = report.unwrap();
    assert!(report.success);
    assert_eq!(report.total_commits_applied, 1);
    assert_eq!(report.merged_sources, vec!["one", "two"]);
}
