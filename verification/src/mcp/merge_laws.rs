//! What a merge does to its workspaces: which commands run where, and what
//! becomes of each source.
//!
//! The laws follow a merge from request to reply, whatever the replies say.

use crate::mcp::error::ErrorKind;
use crate::mcp::exchange::{reply_view, ExecReply, Output, RequestView};
use crate::mcp::merge::{
    applied_in, merge_ok, merge_start, merge_step, report, ActionView, BranchStageView,
    CherryStageView, Merge, MergeAction, MergeState, ResultView, SequentialStageView, Source, StageView,
    Strategy,
};
use crate::mcp::tools::{quote, uuid_form};
use crate::text::{cut, lines, trim};
use vstd::prelude::*;

verus! {

/// A git command in a repository.
pub open spec fn in_repo(path: Seq<char>, rest: Seq<char>) -> Seq<char> {
    "git -C "@ + quote(path) + rest
}

/// A command is asked for.
pub open spec fn asks(
    action: ActionView,
    workspace: u128,
    command: Seq<char>,
    timeout_secs: u64,
) -> bool {
    action == ActionView::Run(RequestView::Exec { workspace, command, timeout_secs })
}

/// All commits but the first, printed as patches.
pub open spec fn print_patches(path: Seq<char>) -> Seq<char> {
    in_repo(
        path,
        " format-patch --stdout $(git -C "@ + quote(path) + " rev-list --max-parents=0 HEAD)..HEAD"@,
    )
}

/// One commit, printed as a patch.
pub open spec fn print_commit(path: Seq<char>, sha: Seq<char>) -> Seq<char> {
    in_repo(path, " format-patch --stdout -1 "@ + quote(sha))
}

/// All commits but the first, listed with the oldest first.
pub open spec fn list_commits(path: Seq<char>) -> Seq<char> {
    in_repo(
        path,
        " log --format=%H --reverse $(git -C "@ + quote(path)
            + " rev-list --max-parents=0 HEAD)..HEAD"@,
    )
}

/// What the last commit changed.
pub open spec fn print_last_change(path: Seq<char>) -> Seq<char> {
    in_repo(
        path,
        " diff --binary HEAD~1..HEAD 2>/dev/null || git -C "@ + quote(path)
            + " diff --binary 4b825dc642cb6eb9a060e54bf899d15006 HEAD"@,
    )
}

/// The command only prints what a repository holds.
pub open spec fn only_reads(path: Seq<char>, command: Seq<char>) -> bool {
    ||| command == print_patches(path)
    ||| command == list_commits(path)
    ||| command == print_last_change(path)
    ||| exists|sha: Seq<char>| command == #[trigger] print_commit(path, sha)
}

/// The workspace of the source that a merge is at.
pub open spec fn source_at(s: MergeState) -> u128 {
    s.sources[s.results.len() as int].1
}

/// Where the patches of a workspace are put.
pub open spec fn patches_of(id: u128) -> Seq<char> {
    "/tmp/merge-patch-"@ + uuid_form(id).take(8) + ".patch"@
}

/// Where the patch of a commit is put.
pub open spec fn patch_of(sha: Seq<char>) -> Seq<char> {
    "/tmp/cherry-"@ + cut(sha, 8) + ".patch"@
}

/// The branch that holds the commits of a workspace.
pub open spec fn branch_of(id: u128) -> Seq<char> {
    "merge/"@ + uuid_form(id).take(8)
}

/// The lines by which `git am` tells of an applied commit.
pub open spec fn told_commits(out: Seq<char>) -> Seq<Seq<char>> {
    lines(out).filter(|line: Seq<char>| "Applying:"@.is_prefix_of(line))
}

/// The result of the source that a merge is at.
pub open spec fn with_result(
    s: MergeState,
    success: bool,
    error: Option<Seq<char>>,
    commits: nat,
) -> Seq<ResultView> {
    s.results.push(
        ResultView { source_id: s.sources[s.results.len() as int].0, success, error, commits },
    )
}

/// The commands are spelled alike.
proof fn lemma_commands(path: Seq<char>)
    ensures
        print_patches(path) == crate::mcp::merge::patches_command(path),
        list_commits(path) == crate::mcp::merge::log_command(path),
        print_last_change(path) == crate::mcp::merge::probe_command(path),
{
    assert(print_patches(path) =~= crate::mcp::merge::patches_command(path));
    assert(list_commits(path) =~= crate::mcp::merge::log_command(path));
    assert(print_last_change(path) =~= crate::mcp::merge::probe_command(path));
}

/// The commits that are counted are those that `git am` tells of.
proof fn lemma_told(ls: Seq<Seq<char>>)
    ensures
        applied_in(ls) == ls.filter(|line: Seq<char>| "Applying:"@.is_prefix_of(line)).len(),
    decreases ls.len(),
{
    reveal(Seq::filter);
    if ls.len() > 0 {
        lemma_told(ls.drop_last());
    }
}

/// Sources are only read: whatever the replies, a command that runs anywhere
/// but in the target runs in the source that the merge is at and only prints
/// what its repository holds. So every patch is applied, every branch is made
/// and every commit is written in the target.
#[verifier::rlimit(40)]
pub proof fn law_sources_are_only_read(s: MergeState, reply: Result<Output, Seq<char>>)
    requires
        merge_ok(s),
    ensures
        ({
            let (t, action) = merge_step(s, reply);
            action matches ActionView::Run(request) ==> match request {
                RequestView::WriteFile { workspace, .. } => workspace == s.target,
                RequestView::Exec { workspace, command, .. } => workspace == s.target || {
                    &&& t.results.len() < s.sources.len()
                    &&& workspace == source_at(t)
                    &&& only_reads(s.path, command)
                },
            }
        }),
        merge_start(s).1 matches ActionView::Run(request) ==> match request {
            RequestView::WriteFile { workspace, .. } => workspace == s.target,
            RequestView::Exec { workspace, command, .. } => workspace == s.target || {
                &&& s.results.len() < s.sources.len()
                &&& workspace == source_at(s)
                &&& only_reads(s.path, command)
            },
        },
{
    lemma_commands(s.path);
    assert forall|sha: Seq<char>|
        print_commit(s.path, sha) == #[trigger] crate::mcp::git_tools::git_in(
            s.path,
            " format-patch --stdout -1 "@ + quote(sha),
        ) by {}
}

/// A patch that is written is applied next, in the very workspace and from the
/// very file that it was written to, which are the target's; and what is
/// written is what the source printed.
pub proof fn law_patch_is_applied_where_it_was_written(
    s: MergeState,
    reply: Result<Output, Seq<char>>,
    written: Output,
)
    requires
        merge_ok(s),
        merge_step(s, reply).1 is Run,
        merge_step(s, reply).1->Run_0 is WriteFile,
    ensures
        ({
            let (t, action) = merge_step(s, reply);
            let request = action->Run_0;
            let next = merge_step(t, Ok(written)).1;
            &&& request->WriteFile_workspace == s.target
            &&& trim(request->content).len() > 0
            &&& reply is Ok
            &&& request->content == match s.stage {
                StageView::Sequential(SequentialStageView::Probing { patch, .. }) => patch,
                _ => reply->Ok_0.out,
            }
            &&& next is Run
            &&& next->Run_0 is Exec
            &&& next->Run_0->Exec_workspace == request->WriteFile_workspace
            &&& next->Run_0->command == in_repo(s.path, " am "@ + quote(request->path))
        }),
{
}

/// A merge begins with its first source, or, with a branch for each source,
/// with the branch that the target is on. Without sources it is done.
pub proof fn law_merge_begins(s: MergeState)
    requires
        merge_ok(s),
    ensures
        s.strategy == Strategy::BranchPerSource ==> asks(
            merge_start(s).1,
            s.target,
            in_repo(s.path, " branch --show-current"@),
            10,
        ),
        s.strategy != Strategy::BranchPerSource ==> goes_on(s, merge_start(s).1),
{
    lemma_commands(s.path);
}

/// A merge goes on with the source that it is at: its commits are read, or a
/// branch is made for them. After the last source it reports.
pub open spec fn goes_on(s: MergeState, action: ActionView) -> bool {
    if s.results.len() >= s.sources.len() {
        action == ActionView::Done(report(s.strategy, s.results))
    } else {
        match s.strategy {
            Strategy::Sequential => asks(action, source_at(s), print_patches(s.path), 60),
            Strategy::CherryPick => asks(action, source_at(s), list_commits(s.path), 30),
            Strategy::BranchPerSource => asks(
                action,
                s.target,
                in_repo(s.path, " checkout -b "@ + quote(branch_of(source_at(s)))),
                10,
            ),
        }
    }
}

/// Sequential: where a source prints patches and `git am` applies them in the
/// target, the source is merged with as many commits as `git am` tells of, and
/// the patch file is removed.
#[verifier::rlimit(40)]
pub proof fn law_sequential_source_is_merged(
    s: MergeState,
    patches: Output,
    written: Output,
    applied: Output,
    removed: Result<Output, Seq<char>>,
)
    requires
        merge_ok(s),
        s.stage == StageView::Sequential(SequentialStageView::Extracting),
        patches.code == 0,
        trim(patches.out).len() > 0,
        applied.code == 0,
    ensures
        ({
            let file = patches_of(source_at(s));
            let (s1, a1) = merge_step(s, Ok(patches));
            let (s2, a2) = merge_step(s1, Ok(written));
            let (s3, a3) = merge_step(s2, Ok(applied));
            let (s4, a4) = merge_step(s3, removed);
            &&& a1 == ActionView::Run(
                RequestView::WriteFile { workspace: s.target, path: file, content: patches.out },
            )
            &&& asks(a2, s.target, in_repo(s.path, " am "@ + quote(file)), 60)
            &&& asks(a3, s.target, "rm -f "@ + quote(file), 5)
            &&& s4.results == with_result(s, true, None, told_commits(applied.out).len())
            &&& goes_on(s4, a4)
        }),
{
    lemma_told(lines(applied.out));
    lemma_commands(s.path);
}

/// Sequential: where the patches do not apply, `git am` is taken back and the
/// source is a conflict, with what `git am` complained of.
pub proof fn law_sequential_conflict_is_told(
    s: MergeState,
    applied: Output,
    aborted: Result<Output, Seq<char>>,
)
    requires
        merge_ok(s),
        s.stage == StageView::Sequential(SequentialStageView::Applying),
        applied.code != 0,
    ensures
        ({
            let (s1, a1) = merge_step(s, Ok(applied));
            let (s2, a2) = merge_step(s1, aborted);
            let why = if applied.err.len() > 0 {
                trim(applied.err)
            } else {
                trim(applied.out)
            };
            &&& asks(a1, s.target, in_repo(s.path, " am --abort"@), 10)
            &&& s2.results == with_result(s, false, Some("git am failed: "@ + why), 0)
            &&& goes_on(s2, a2)
        }),
{
    lemma_commands(s.path);
}

/// Sequential: a source without commits is merged with none, and nothing is
/// done to the target. Where its commits cannot be printed, it is asked for its
/// last change; if there is none either, it is a conflict.
pub proof fn law_sequential_without_patches(s: MergeState, patches: Output, change: Output)
    requires
        merge_ok(s),
        s.stage == StageView::Sequential(SequentialStageView::Extracting),
    ensures
        patches.code == 0 && trim(patches.out).len() == 0 ==> {
            let (s1, a1) = merge_step(s, Ok(patches));
            &&& s1.results == with_result(s, true, None, 0)
            &&& goes_on(s1, a1)
        },
        patches.code != 0 ==> {
            let (s1, a1) = merge_step(s, Ok(patches));
            let (s2, a2) = merge_step(s1, Ok(change));
            &&& asks(a1, source_at(s), print_last_change(s.path), 60)
            &&& change.code != 0 || trim(change.out).len() == 0 ==> {
                &&& s2.results == with_result(
                    s,
                    false,
                    Some(
                        "failed to extract patches: "@ + if patches.err.len() > 0 {
                            trim(patches.err)
                        } else {
                            "no commits to merge"@
                        },
                    ),
                    0,
                )
                &&& goes_on(s2, a2)
            }
            &&& change.code == 0 && trim(change.out).len() > 0 && trim(patches.out).len() == 0 ==> {
                &&& s2.results == with_result(s, true, None, 0)
                &&& goes_on(s2, a2)
            }
            &&& change.code == 0 && trim(change.out).len() > 0 && trim(patches.out).len() > 0
                ==> a2 == ActionView::Run(
                RequestView::WriteFile {
                    workspace: s.target,
                    path: patches_of(source_at(s)),
                    content: patches.out,
                },
            )
        },
{
    lemma_commands(s.path);
}

/// A merge whose workspace cannot be reached fails as a whole, with the reason,
/// unless it was only cleaning up.
pub proof fn law_lost_workspace_ends_the_merge(s: MergeState, why: Seq<char>)
    requires
        merge_ok(s),
    ensures
        ({
            let action = merge_step(s, Err(why)).1;
            let reads = match s.stage {
                StageView::Sequential(stage) => stage is Extracting || stage is Probing
                    || stage is Applying,
                StageView::Branch(stage) => stage is Detecting || stage is Creating
                    || stage is Extracting || stage is Applying || stage is Merging,
                StageView::Cherry(stage) => stage is Listing || stage is Extracting
                    || stage is Applying,
                StageView::Idle => false,
            };
            reads ==> action == ActionView::Fail((ErrorKind::InvalidRequest, why))
        }),
        s.stage == StageView::Sequential(SequentialStageView::Writing) ==> merge_step(
            s,
            Err(why),
        ).1 == ActionView::Fail(
            (ErrorKind::InvalidRequest, "failed to write patch to target: "@ + why),
        ),
        s.stage == StageView::Branch(BranchStageView::Writing) || (s.stage is Cherry
            && s.stage->Cherry_0 is Writing) ==> merge_step(s, Err(why)).1 == ActionView::Fail(
            (ErrorKind::InvalidRequest, "failed to write patch: "@ + why),
        ),
{
}

/// With a branch for each source: the merge goes on only from a branch, which
/// it then comes back to; a target on no branch cannot be merged into.
pub proof fn law_branch_merge_needs_a_branch(s: MergeState, shown: Output)
    requires
        merge_ok(s),
        s.stage == StageView::Branch(BranchStageView::Detecting),
    ensures
        trim(shown.out).len() == 0 ==> merge_step(s, Ok(shown)).1 == ActionView::Fail(
            (
                ErrorKind::InvalidRequest,
                "target workspace is in detached HEAD state; cannot merge"@,
            ),
        ),
        trim(shown.out).len() > 0 ==> {
            let (t, action) = merge_step(s, Ok(shown));
            &&& t.main == trim(shown.out)
            &&& t.results == s.results
            &&& goes_on(t, action)
        },
{
    lemma_commands(s.path);
}

/// With a branch for each source: the patches of a source are applied on its
/// own branch; then the target goes back to the branch it was on, takes the
/// source's branch in with a merge commit, and deletes it. The source is merged
/// with as many commits as `git am` tells of, whatever becomes of the
/// cleaning up.
#[verifier::rlimit(40)]
pub proof fn law_branch_source_is_merged(
    s: MergeState,
    made: Output,
    patches: Output,
    written: Output,
    applied: Output,
    removed: Result<Output, Seq<char>>,
    back: Result<Output, Seq<char>>,
    joined: Output,
    deleted: Result<Output, Seq<char>>,
)
    requires
        merge_ok(s),
        s.stage == StageView::Branch(BranchStageView::Creating),
        made.code == 0,
        patches.code == 0,
        trim(patches.out).len() > 0,
        applied.code == 0,
        joined.code == 0,
    ensures
        ({
            let id = source_at(s);
            let file = patches_of(id);
            let branch = branch_of(id);
            let message = match s.message {
                Some(m) => m + " (from "@ + uuid_form(id).take(8) + ")"@,
                None => "Merge branch '"@ + branch + "' from workspace "@ + uuid_form(id).take(8),
            };
            let (s1, a1) = merge_step(s, Ok(made));
            let (s2, a2) = merge_step(s1, Ok(patches));
            let (s3, a3) = merge_step(s2, Ok(written));
            let (s4, a4) = merge_step(s3, Ok(applied));
            let (s5, a5) = merge_step(s4, removed);
            let (s6, a6) = merge_step(s5, back);
            let (s7, a7) = merge_step(s6, Ok(joined));
            let (s8, a8) = merge_step(s7, deleted);
            &&& asks(a1, id, print_patches(s.path), 60)
            &&& a2 == ActionView::Run(
                RequestView::WriteFile { workspace: s.target, path: file, content: patches.out },
            )
            &&& asks(a3, s.target, in_repo(s.path, " am "@ + quote(file)), 60)
            &&& asks(a4, s.target, "rm -f "@ + quote(file), 5)
            &&& asks(a5, s.target, in_repo(s.path, " checkout "@ + quote(s.main)), 10)
            &&& asks(
                a6,
                s.target,
                in_repo(s.path, " merge --no-ff -m "@ + quote(message) + " "@ + quote(branch)),
                30,
            )
            &&& asks(a7, s.target, in_repo(s.path, " branch -d "@ + quote(branch)), 10)
            &&& s8.results == with_result(s, true, None, told_commits(applied.out).len())
            &&& goes_on(s8, a8)
        }),
{
    lemma_told(lines(applied.out));
    lemma_commands(s.path);
}

/// With a branch for each source: where something fails, the target is brought
/// back to the branch it was on, and the source is a conflict. A source without
/// commits leaves no branch behind and is merged with none.
#[verifier::rlimit(40)]
pub proof fn law_branch_conflict_is_told(
    s: MergeState,
    o: Output,
    first: Result<Output, Seq<char>>,
    second: Result<Output, Seq<char>>,
)
    requires
        merge_ok(s),
        s.results.len() < s.sources.len(),
    ensures
        ({
            let id = source_at(s);
            let branch = branch_of(id);
            let discard = "git -C "@ + quote(s.path) + " checkout "@ + quote(s.main)
                + " && git -C "@ + quote(s.path) + " branch -D "@ + quote(branch);
            let (s1, a1) = merge_step(s, Ok(o));
            let (s2, a2) = merge_step(s1, first);
            let (s3, a3) = merge_step(s2, second);
            &&& s.stage == StageView::Branch(BranchStageView::Creating) && o.code != 0 ==> {
                &&& asks(a1, s.target, in_repo(s.path, " checkout "@ + quote(s.main)), 10)
                &&& s2.results == with_result(
                    s,
                    false,
                    Some("failed to create branch '"@ + branch + "': "@ + trim(o.err)),
                    0,
                )
                &&& goes_on(s2, a2)
            }
            &&& s.stage == StageView::Branch(BranchStageView::Extracting) && (o.code != 0 || trim(
                o.out,
            ).len() == 0) ==> {
                &&& asks(a1, s.target, discard, 10)
                &&& s2.results == with_result(s, true, None, 0)
                &&& goes_on(s2, a2)
            }
            &&& s.stage == StageView::Branch(BranchStageView::Applying) && o.code != 0 ==> {
                let (s4, a4) = merge_step(s3, second);
                &&& asks(a1, s.target, "rm -f "@ + quote(patches_of(id)), 5)
                &&& asks(a2, s.target, in_repo(s.path, " am --abort"@), 10)
                &&& asks(a3, s.target, discard, 10)
                &&& s4.results == with_result(
                    s,
                    false,
                    Some("patch apply failed on branch '"@ + branch + "': "@ + trim(o.err)),
                    0,
                )
                &&& goes_on(s4, a4)
            }
            &&& s.stage is Branch && s.stage->Branch_0 is Merging && o.code != 0 ==> {
                &&& asks(a1, s.target, in_repo(s.path, " merge --abort"@), 10)
                &&& s2.results == with_result(
                    s,
                    false,
                    Some("merge of branch '"@ + branch + "' failed: "@ + trim(o.err)),
                    0,
                )
                &&& goes_on(s2, a2)
            }
        }),
{
    lemma_commands(s.path);
}

/// Cherry-picking: the commits of a source are taken in the order in which it
/// lists them. A source that lists none is merged with none.
pub proof fn law_cherry_pick_lists_commits(s: MergeState, listed: Output)
    requires
        merge_ok(s),
        s.stage == StageView::Cherry(CherryStageView::Listing),
    ensures
        ({
            let (t, action) = merge_step(s, Ok(listed));
            let commits = lines(trim(listed.out));
            if listed.code != 0 || trim(listed.out).len() == 0 {
                &&& t.results == with_result(s, true, None, 0)
                &&& goes_on(t, action)
            } else {
                picks(t, action, s, commits, 0)
            }
        }),
{
    lemma_commands(s.path);
    if trim(listed.out).len() > 0 {
        assert(lines(trim(listed.out)).len() > 0);
    }
}

/// A merge that was at `before` takes a commit of the source next; after the
/// last commit the source is merged with all of them.
pub open spec fn picks(
    t: MergeState,
    action: ActionView,
    before: MergeState,
    commits: Seq<Seq<char>>,
    i: int,
) -> bool {
    if i < commits.len() {
        &&& t.results == before.results
        &&& t.stage == StageView::Cherry(CherryStageView::Extracting { commits, applied: i })
        &&& asks(action, source_at(before), print_commit(before.path, commits[i]), 30)
    } else {
        &&& t.results == with_result(before, true, None, commits.len())
        &&& goes_on(t, action)
    }
}

/// Cherry-picking: a commit that the source prints is applied in the target,
/// and then the next one is taken.
#[verifier::rlimit(40)]
pub proof fn law_cherry_pick_takes_each_commit(
    s: MergeState,
    commits: Seq<Seq<char>>,
    i: int,
    patch: Output,
    written: Output,
    applied: Output,
    removed: Result<Output, Seq<char>>,
)
    requires
        merge_ok(s),
        s.stage == StageView::Cherry(CherryStageView::Extracting { commits, applied: i }),
        patch.code == 0,
        trim(patch.out).len() > 0,
        applied.code == 0,
    ensures
        ({
            let file = patch_of(commits[i]);
            let (s1, a1) = merge_step(s, Ok(patch));
            let (s2, a2) = merge_step(s1, Ok(written));
            let (s3, a3) = merge_step(s2, Ok(applied));
            let (s4, a4) = merge_step(s3, removed);
            &&& a1 == ActionView::Run(
                RequestView::WriteFile { workspace: s.target, path: file, content: patch.out },
            )
            &&& asks(a2, s.target, in_repo(s.path, " am "@ + quote(file)), 30)
            &&& asks(a3, s.target, "rm -f "@ + quote(file), 5)
            &&& picks(s4, a4, s, commits, i + 1)
        }),
{
    lemma_commands(s.path);
}

/// Cherry-picking: a commit that cannot be printed, is printed as nothing, or
/// does not apply ends its source, which is a conflict; the commits before it stay applied.
#[verifier::rlimit(40)]
pub proof fn law_cherry_pick_conflict_is_told(
    s: MergeState,
    commits: Seq<Seq<char>>,
    i: int,
    o: Output,
    removed: Result<Output, Seq<char>>,
    aborted: Result<Output, Seq<char>>,
)
    requires
        merge_ok(s),
    ensures
        s.stage == StageView::Cherry(CherryStageView::Extracting { commits, applied: i }) && (o.code
            != 0 || trim(o.out).len() == 0) ==> {
            let (s1, a1) = merge_step(s, Ok(o));
            &&& s1.results == with_result(
                s,
                false,
                Some("failed to extract commit "@ + cut(commits[i], 8) + ": "@ + trim(o.err)),
                i as nat,
            )
            &&& goes_on(s1, a1)
        },
        s.stage == StageView::Cherry(CherryStageView::Applying { commits, applied: i }) && o.code
            != 0 ==> {
            let (s1, a1) = merge_step(s, Ok(o));
            let (s2, a2) = merge_step(s1, removed);
            let (s3, a3) = merge_step(s2, aborted);
            &&& asks(a1, s.target, "rm -f "@ + quote(patch_of(commits[i])), 5)
            &&& asks(a2, s.target, in_repo(s.path, " am --abort"@), 10)
            &&& s3.results == with_result(
                s,
                false,
                Some("cherry-pick of commit "@ + cut(commits[i], 8) + " failed: "@ + trim(o.err)),
                i as nat,
            )
            &&& goes_on(s3, a3)
        },
{
    lemma_commands(s.path);
}

/// One more result in a report: a source that was merged is listed with its
/// commits counted, and any other is listed as a conflict with its reason and
/// counts for nothing.
pub proof fn law_report_grows_by_each_result(
    strategy: Strategy,
    rs: Seq<ResultView>,
    r: ResultView,
)
    ensures
        ({
            let before = report(strategy, rs);
            let after = report(strategy, rs.push(r));
            &&& after.strategy == strategy
            &&& after.success == (before.success && r.success)
            &&& after.total == before.total + if r.success {
                r.commits
            } else {
                0
            }
            &&& after.merged == if r.success {
                before.merged.push(r.source_id)
            } else {
                before.merged
            }
            &&& after.conflicts == if r.success {
                before.conflicts
            } else {
                before.conflicts.push((r.source_id, r.error))
            }
        }),
        ({
            let none = report(strategy, seq![]);
            none.success && none.total == 0 && none.merged.len() == 0 && none.conflicts.len() == 0
        }),
{
    let all = rs.push(r);
    assert(all.drop_last() =~= rs);
    if report(strategy, all).success {
        assert forall|i: int| 0 <= i < rs.len() implies (#[trigger] rs[i]).success by {
            assert(all[i] == rs[i]);
        }
        assert(all[rs.len() as int].success);
    }
    if report(strategy, rs).success && r.success {
        assert forall|i: int| 0 <= i < all.len() implies (#[trigger] all[i]).success by {
            if i < rs.len() {
                assert(rs[i].success);
            }
        }
    }
}

/// A new merge has seen no source yet, and begins with its first request. From
/// then on every request is for the target, or reads the source that the merge
/// is at.
#[verifier::rlimit(40)]
pub proof fn law_merge_works_on_its_workspaces(
    strategy: Strategy,
    sources: Vec<Source>,
    target: u128,
    path: String,
    message: Option<String>,
    fresh: Merge,
    m: &mut Merge,
    reply: &Result<ExecReply, String>,
    action: MergeAction,
)
    requires
        call_ensures(Merge::new, (strategy, sources, target, path, message), fresh),
        merge_ok(old(m)@),
        call_ensures(Merge::step, (m, reply), action),
    ensures
        fresh@.target == target,
        fresh@.strategy == strategy,
        fresh@.path == path@,
        fresh@.results.len() == 0,
        fresh@.sources.len() == sources@.len(),
        forall|i: int|
            0 <= i < sources@.len() ==> (#[trigger] fresh@.sources[i]).1 == sources@[i].id
                && fresh@.sources[i].0 == sources@[i].label@,
        final(m)@.target == old(m)@.target,
        final(m)@.sources == old(m)@.sources,
        final(m)@.path == old(m)@.path,
        action@ matches ActionView::Run(request) ==> match request {
            RequestView::WriteFile { workspace, .. } => workspace == old(m)@.target,
            RequestView::Exec { workspace, command, .. } => workspace == old(m)@.target || {
                &&& final(m)@.results.len() < old(m)@.sources.len()
                &&& workspace == source_at(final(m)@)
                &&& only_reads(old(m)@.path, command)
            },
        },
{
    law_sources_are_only_read(old(m)@, reply_view(*reply));
}

} // verus!
