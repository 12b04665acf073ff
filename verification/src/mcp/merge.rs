//! Merging the commits of several workspaces into one.
//!
//! A [`Merge`] takes its sources one after the other. For each it asks for
//! commands in the source and in the target, and records one result; a source
//! that cannot be merged does not stop the others.

use crate::mcp::error::{invalid_params, invalid_request, ErrorKind, ToolError};
use crate::mcp::exchange::{
    complaint, complaint_of, reply_view, ExecReply, Output, Request, RequestView,
};
use crate::mcp::git_tools::{exec, git_command, git_in};
use crate::mcp::tools::{quote, shell_escape, short_form, short_id};
use crate::text::{
    cat2, cat3, cat4, cat5, cut, cut_to, lines, opt_text, owned, same, split_lines, starts_with,
    texts, trim, trimmed,
};
use vstd::prelude::*;
use vstd::string::*;

verus! {

// ---------------------------------------------------------------------------
// Parameters and results
// ---------------------------------------------------------------------------

/// Parameters of `workspace_merge`.
#[derive(Debug)]
pub struct GitMergeParams {
    /// Source workspace IDs (or names) to merge changes from.
    pub source_workspaces: Vec<String>,
    /// Target workspace ID (or name) to merge changes into.
    pub target_workspace: String,
    /// Merge strategy: "sequential", "branch-per-source", or "cherry-pick".
    pub strategy: String,
    /// Repository path inside each VM (default: /workspace).
    pub path: Option<String>,
    /// Custom commit message prefix for merge commits.
    pub commit_message: Option<String>,
}

/// How sources are merged.
#[derive(Clone, Copy, Debug, PartialEq, Eq, Structural)]
pub enum Strategy {
    /// All patches of a source are applied to the current branch.
    Sequential,
    /// The patches of a source are applied to a branch of its own, which is
    /// then merged.
    BranchPerSource,
    /// The commits of a source are applied one by one.
    CherryPick,
}

/// The name of a strategy.
pub open spec fn strategy_name(s: Strategy) -> Seq<char> {
    match s {
        Strategy::Sequential => "sequential"@,
        Strategy::BranchPerSource => "branch-per-source"@,
        Strategy::CherryPick => "cherry-pick"@,
    }
}

/// The strategy of a name, if there is one.
pub open spec fn strategy_named(name: Seq<char>) -> Option<Strategy> {
    if name == "sequential"@ {
        Some(Strategy::Sequential)
    } else if name == "branch-per-source"@ {
        Some(Strategy::BranchPerSource)
    } else if name == "cherry-pick"@ {
        Some(Strategy::CherryPick)
    } else {
        None
    }
}

impl Strategy {
    /// The name of the strategy.
    pub fn name(self) -> (r: &'static str)
        ensures
            r@ == strategy_name(self),
    {
        match self {
            Strategy::Sequential => "sequential",
            Strategy::BranchPerSource => "branch-per-source",
            Strategy::CherryPick => "cherry-pick",
        }
    }
}

impl GitMergeParams {
    /// Check the parameters: the strategy must be known, and there must be a
    /// source.
    pub fn check(&self) -> (r: Result<Strategy, ToolError>)
        ensures
            match strategy_named(self.strategy@) {
                None => r is Err && r->Err_0@ == (
                    ErrorKind::InvalidParams,
                    "invalid merge strategy '"@ + self.strategy@
                        + "'. Must be one of: sequential, branch-per-source, cherry-pick"@,
                ),
                Some(s) => if self.source_workspaces@.len() == 0 {
                    r is Err && r->Err_0@ == (
                        ErrorKind::InvalidParams,
                        "source_workspaces must contain at least one workspace ID"@,
                    )
                } else {
                    r == Ok::<Strategy, ToolError>(s)
                },
            },
    {
        let name: &str = self.strategy.as_str();
        let strategy: Strategy = if same(name, "sequential") {
            Strategy::Sequential
        } else if same(name, "branch-per-source") {
            Strategy::BranchPerSource
        } else if same(name, "cherry-pick") {
            Strategy::CherryPick
        } else {
            return Err(
                invalid_params(
                    cat3(
                        "invalid merge strategy '",
                        name,
                        "'. Must be one of: sequential, branch-per-source, cherry-pick",
                    ),
                ),
            );
        };
        if self.source_workspaces.len() == 0 {
            return Err(
                invalid_params(owned("source_workspaces must contain at least one workspace ID")),
            );
        }
        Ok(strategy)
    }
}

/// Result of a single source merge attempt.
#[derive(Debug)]
pub struct MergeSourceResult {
    pub source_id: String,
    pub success: bool,
    pub error: Option<String>,
    pub commits_applied: u64,
}

/// The contents of a [`MergeSourceResult`].
pub struct ResultView {
    pub source_id: Seq<char>,
    pub success: bool,
    pub error: Option<Seq<char>>,
    pub commits: nat,
}

impl View for MergeSourceResult {
    type V = ResultView;

    open spec fn view(&self) -> ResultView {
        ResultView {
            source_id: self.source_id@,
            success: self.success,
            error: opt_text(self.error),
            commits: self.commits_applied as nat,
        }
    }
}

/// The contents of a list of results.
pub open spec fn results_view(rs: Seq<MergeSourceResult>) -> Seq<ResultView> {
    Seq::new(rs.len(), |i: int| rs[i]@)
}

/// A source that could not be merged, and why.
#[derive(Debug)]
pub struct Conflict {
    pub source_id: String,
    pub error: Option<String>,
}

/// The contents of a list of conflicts.
pub open spec fn conflicts_view(cs: Seq<Conflict>) -> Seq<(Seq<char>, Option<Seq<char>>)> {
    Seq::new(cs.len(), |i: int| (cs[i].source_id@, opt_text(cs[i].error)))
}

/// What a merge reports when all its sources have been tried.
#[derive(Debug)]
pub struct MergeReport {
    pub success: bool,
    pub strategy: Strategy,
    pub total_commits_applied: u128,
    pub merged_sources: Vec<String>,
    pub conflicts: Vec<Conflict>,
}

/// The contents of a [`MergeReport`].
pub struct ReportView {
    pub success: bool,
    pub strategy: Strategy,
    pub total: nat,
    pub merged: Seq<Seq<char>>,
    pub conflicts: Seq<(Seq<char>, Option<Seq<char>>)>,
}

impl View for MergeReport {
    type V = ReportView;

    open spec fn view(&self) -> ReportView {
        ReportView {
            success: self.success,
            strategy: self.strategy,
            total: self.total_commits_applied as nat,
            merged: texts(self.merged_sources@),
            conflicts: conflicts_view(self.conflicts@),
        }
    }
}

/// The commits of the sources that were merged.
pub open spec fn total(rs: Seq<ResultView>) -> nat
    decreases rs.len(),
{
    if rs.len() == 0 {
        0
    } else if rs.last().success {
        total(rs.drop_last()) + rs.last().commits
    } else {
        total(rs.drop_last())
    }
}

/// The sources that were merged, in order.
pub open spec fn merged(rs: Seq<ResultView>) -> Seq<Seq<char>>
    decreases rs.len(),
{
    if rs.len() == 0 {
        seq![]
    } else if rs.last().success {
        merged(rs.drop_last()).push(rs.last().source_id)
    } else {
        merged(rs.drop_last())
    }
}

/// The sources that could not be merged, in order, each with the reason.
pub open spec fn conflicts(rs: Seq<ResultView>) -> Seq<(Seq<char>, Option<Seq<char>>)>
    decreases rs.len(),
{
    if rs.len() == 0 {
        seq![]
    } else if rs.last().success {
        conflicts(rs.drop_last())
    } else {
        conflicts(rs.drop_last()).push((rs.last().source_id, rs.last().error))
    }
}

/// Every source was merged.
pub open spec fn all_merged(rs: Seq<ResultView>) -> bool {
    forall|i: int| 0 <= i < rs.len() ==> (#[trigger] rs[i]).success
}

/// The report on a list of results.
pub open spec fn report(strategy: Strategy, rs: Seq<ResultView>) -> ReportView {
    ReportView {
        success: all_merged(rs),
        strategy,
        total: total(rs),
        merged: merged(rs),
        conflicts: conflicts(rs),
    }
}

/// The report on a list of results.
fn report_on(strategy: Strategy, rs: &Vec<MergeSourceResult>) -> (r: MergeReport)
    ensures
        r@ == report(strategy, results_view(rs@)),
{
    let ghost all = results_view(rs@);
    let mut success: bool = true;
    let mut sum: u128 = 0;
    let mut good: Vec<String> = Vec::new();
    let mut bad: Vec<Conflict> = Vec::new();
    let mut i: usize = 0;
    proof {
        assert(all.take(0) =~= seq![]);
        assert(texts(good@) =~= seq![]);
        assert(conflicts_view(bad@) =~= seq![]);
    }
    while i < rs.len()
        invariant
            i <= rs.len(),
            all == results_view(rs@),
            success == all_merged(all.take(i as int)),
            sum == total(all.take(i as int)),
            sum <= i * 0xffff_ffff_ffff_ffff,
            texts(good@) == merged(all.take(i as int)),
            conflicts_view(bad@) == conflicts(all.take(i as int)),
        decreases rs.len() - i,
    {
        let ghost before = all.take(i as int);
        let ghost now = all.take(i + 1);
        proof {
            assert(now.drop_last() =~= before);
            assert(now.last() == rs@[i as int]@);
            assert forall|k: int| 0 <= k < i implies before[k] == now[k] by {}
            if all_merged(now) {
                assert(now[i as int].success);
                assert(all_merged(before)) by {
                    assert forall|k: int| 0 <= k < before.len() implies (
                    #[trigger] before[k]).success by {
                        assert(now[k].success);
                    }
                }
            }
            if all_merged(before) && now.last().success {
                assert forall|k: int| 0 <= k < now.len() implies (#[trigger] now[k]).success by {
                    if k < i {
                        assert(before[k].success);
                    }
                }
            }
            assert(i * 0xffff_ffff_ffff_ffff + 0xffff_ffff_ffff_ffff == (i + 1)
                * 0xffff_ffff_ffff_ffff);
        }
        if rs[i].success {
            let name: String = owned(rs[i].source_id.as_str());
            proof {
                crate::text::lemma_texts_push(good@, name);
            }
            good.push(name);
            sum = sum + rs[i].commits_applied as u128;
        } else {
            success = false;
            let c: Conflict = Conflict {
                source_id: owned(rs[i].source_id.as_str()),
                error: rs[i].error.clone(),
            };
            proof {
                assert(conflicts_view(bad@.push(c)) =~= conflicts_view(bad@).push(
                    (c.source_id@, opt_text(c.error)),
                ));
            }
            bad.push(c);
        }
        i = i + 1;
    }
    proof {
        assert(all.take(rs@.len() as int) =~= all);
    }
    MergeReport {
        success,
        strategy,
        total_commits_applied: sum,
        merged_sources: good,
        conflicts: bad,
    }
}

// ---------------------------------------------------------------------------
// State
// ---------------------------------------------------------------------------

/// A workspace to merge from: what the caller called it, and its identifier.
#[derive(Debug)]
pub struct Source {
    pub label: String,
    pub id: u128,
}

/// Where a sequential merge stands.
#[derive(Debug)]
pub enum SequentialStage {
    /// The patches of the source are being extracted.
    Extracting,
    /// That failed; it is being checked whether there is any change at all.
    Probing { patch: String, complaint: String },
    /// The patches are being written to the target.
    Writing,
    /// The patches are being applied.
    Applying,
    /// The failed application is being undone.
    Aborting { error: String },
    /// The patch file is being removed.
    Cleaning { applied: u64 },
}

/// Where a merge with a branch per source stands.
#[derive(Debug)]
pub enum BranchStage {
    /// The current branch of the target is being read.
    Detecting,
    /// The branch for the source is being created.
    Creating,
    /// That failed; the target goes back to its branch.
    Returning { error: String },
    /// The patches of the source are being extracted.
    Extracting,
    /// There are none; the new branch is being deleted.
    Discarding,
    /// The patches are being written to the target.
    Writing,
    /// The patches are being applied to the new branch.
    Applying,
    /// The patch file is being removed; the application left this behind.
    Cleaning { code: i32, out: String, err: String },
    /// The failed application is being undone.
    Aborting { error: String },
    /// The branch of the failed application is being deleted.
    Deleting { error: String },
    /// The target goes back to its branch.
    SwitchingBack { applied: u64 },
    /// The new branch is being merged.
    Merging { applied: u64 },
    /// The failed merge is being undone.
    AbortingMerge { error: String },
    /// The merged branch is being deleted.
    DeletingMerged { applied: u64 },
}

/// Where a cherry-pick merge stands. `commits` holds the commits of the source;
/// `applied` of them are done.
#[derive(Debug)]
pub enum CherryStage {
    /// The commits of the source are being listed.
    Listing,
    /// The next commit is being extracted.
    Extracting { commits: Vec<String>, applied: usize },
    /// Its patch is being written to the target.
    Writing { commits: Vec<String>, applied: usize },
    /// It is being applied.
    Applying { commits: Vec<String>, applied: usize },
    /// The patch file is being removed; the application left this behind.
    Cleaning { commits: Vec<String>, applied: usize, code: i32, err: String },
    /// The failed application is being undone.
    Aborting { applied: usize, error: String },
}

/// Where a merge stands.
#[derive(Debug)]
pub enum MergeStage {
    /// Nothing is being waited for.
    Idle,
    Sequential(SequentialStage),
    Branch(BranchStage),
    Cherry(CherryStage),
}

/// The contents of a [`SequentialStage`].
pub enum SequentialStageView {
    Extracting,
    Probing { patch: Seq<char>, complaint: Seq<char> },
    Writing,
    Applying,
    Aborting { error: Seq<char> },
    Cleaning { applied: nat },
}

impl View for SequentialStage {
    type V = SequentialStageView;

    open spec fn view(&self) -> SequentialStageView {
        match self {
            SequentialStage::Extracting => SequentialStageView::Extracting,
            SequentialStage::Probing { patch, complaint } => SequentialStageView::Probing {
                patch: patch@,
                complaint: complaint@,
            },
            SequentialStage::Writing => SequentialStageView::Writing,
            SequentialStage::Applying => SequentialStageView::Applying,
            SequentialStage::Aborting { error } => SequentialStageView::Aborting { error: error@ },
            SequentialStage::Cleaning { applied } => SequentialStageView::Cleaning {
                applied: *applied as nat,
            },
        }
    }
}

/// The contents of a [`BranchStage`].
pub enum BranchStageView {
    Detecting,
    Creating,
    Returning { error: Seq<char> },
    Extracting,
    Discarding,
    Writing,
    Applying,
    Cleaning { code: int, out: Seq<char>, err: Seq<char> },
    Aborting { error: Seq<char> },
    Deleting { error: Seq<char> },
    SwitchingBack { applied: nat },
    Merging { applied: nat },
    AbortingMerge { error: Seq<char> },
    DeletingMerged { applied: nat },
}

impl View for BranchStage {
    type V = BranchStageView;

    open spec fn view(&self) -> BranchStageView {
        match self {
            BranchStage::Detecting => BranchStageView::Detecting,
            BranchStage::Creating => BranchStageView::Creating,
            BranchStage::Returning { error } => BranchStageView::Returning { error: error@ },
            BranchStage::Extracting => BranchStageView::Extracting,
            BranchStage::Discarding => BranchStageView::Discarding,
            BranchStage::Writing => BranchStageView::Writing,
            BranchStage::Applying => BranchStageView::Applying,
            BranchStage::Cleaning { code, out, err } => BranchStageView::Cleaning {
                code: *code as int,
                out: out@,
                err: err@,
            },
            BranchStage::Aborting { error } => BranchStageView::Aborting { error: error@ },
            BranchStage::Deleting { error } => BranchStageView::Deleting { error: error@ },
            BranchStage::SwitchingBack { applied } => BranchStageView::SwitchingBack {
                applied: *applied as nat,
            },
            BranchStage::Merging { applied } => BranchStageView::Merging {
                applied: *applied as nat,
            },
            BranchStage::AbortingMerge { error } => BranchStageView::AbortingMerge {
                error: error@,
            },
            BranchStage::DeletingMerged { applied } => BranchStageView::DeletingMerged {
                applied: *applied as nat,
            },
        }
    }
}

/// The contents of a [`CherryStage`].
pub enum CherryStageView {
    Listing,
    Extracting { commits: Seq<Seq<char>>, applied: int },
    Writing { commits: Seq<Seq<char>>, applied: int },
    Applying { commits: Seq<Seq<char>>, applied: int },
    Cleaning { commits: Seq<Seq<char>>, applied: int, code: int, err: Seq<char> },
    Aborting { applied: int, error: Seq<char> },
}

impl View for CherryStage {
    type V = CherryStageView;

    open spec fn view(&self) -> CherryStageView {
        match self {
            CherryStage::Listing => CherryStageView::Listing,
            CherryStage::Extracting { commits, applied } => CherryStageView::Extracting {
                commits: texts(commits@),
                applied: *applied as int,
            },
            CherryStage::Writing { commits, applied } => CherryStageView::Writing {
                commits: texts(commits@),
                applied: *applied as int,
            },
            CherryStage::Applying { commits, applied } => CherryStageView::Applying {
                commits: texts(commits@),
                applied: *applied as int,
            },
            CherryStage::Cleaning { commits, applied, code, err } => CherryStageView::Cleaning {
                commits: texts(commits@),
                applied: *applied as int,
                code: *code as int,
                err: err@,
            },
            CherryStage::Aborting { applied, error } => CherryStageView::Aborting {
                applied: *applied as int,
                error: error@,
            },
        }
    }
}

/// The contents of a [`MergeStage`].
pub enum StageView {
    Idle,
    Sequential(SequentialStageView),
    Branch(BranchStageView),
    Cherry(CherryStageView),
}

impl View for MergeStage {
    type V = StageView;

    open spec fn view(&self) -> StageView {
        match self {
            MergeStage::Idle => StageView::Idle,
            MergeStage::Sequential(s) => StageView::Sequential(s@),
            MergeStage::Branch(s) => StageView::Branch(s@),
            MergeStage::Cherry(s) => StageView::Cherry(s@),
        }
    }
}

/// A merge in progress.
#[derive(Debug)]
pub struct Merge {
    pub strategy: Strategy,
    pub sources: Vec<Source>,
    pub target: u128,
    pub path: String,
    pub commit_message: Option<String>,
    /// The branch of the target that sources are merged into.
    pub main_branch: String,
    /// One result for each source that has been tried.
    pub results: Vec<MergeSourceResult>,
    pub stage: MergeStage,
}

/// The contents of a [`Merge`].
pub struct MergeState {
    pub strategy: Strategy,
    pub sources: Seq<(Seq<char>, u128)>,
    pub target: u128,
    pub path: Seq<char>,
    pub message: Option<Seq<char>>,
    pub main: Seq<char>,
    pub results: Seq<ResultView>,
    pub stage: StageView,
}

/// The contents of a list of sources.
pub open spec fn sources_view(ss: Seq<Source>) -> Seq<(Seq<char>, u128)> {
    Seq::new(ss.len(), |i: int| (ss[i].label@, ss[i].id))
}

impl View for Merge {
    type V = MergeState;

    open spec fn view(&self) -> MergeState {
        MergeState {
            strategy: self.strategy,
            sources: sources_view(self.sources@),
            target: self.target,
            path: self.path@,
            message: opt_text(self.commit_message),
            main: self.main_branch@,
            results: results_view(self.results@),
            stage: self.stage@,
        }
    }
}

/// What a merge does next.
#[derive(Debug)]
pub enum MergeAction {
    Run(Request),
    Done(MergeReport),
    Fail(ToolError),
}

/// The contents of a [`MergeAction`].
pub enum ActionView {
    Run(RequestView),
    Done(ReportView),
    Fail((ErrorKind, Seq<char>)),
}

impl View for MergeAction {
    type V = ActionView;

    open spec fn view(&self) -> ActionView {
        match self {
            MergeAction::Run(r) => ActionView::Run(r@),
            MergeAction::Done(r) => ActionView::Done(r@),
            MergeAction::Fail(e) => ActionView::Fail(e@),
        }
    }
}

// ---------------------------------------------------------------------------
// Commands
// ---------------------------------------------------------------------------

/// The command that prints all commits of a repository but the first as
/// patches.
pub open spec fn patches_command(path: Seq<char>) -> Seq<char> {
    "git -C "@ + quote(path) + " format-patch --stdout $(git -C "@ + quote(path)
        + " rev-list --max-parents=0 HEAD)..HEAD"@
}

/// The command that prints what the last commit changed.
pub open spec fn probe_command(path: Seq<char>) -> Seq<char> {
    "git -C "@ + quote(path) + " diff --binary HEAD~1..HEAD 2>/dev/null || git -C "@ + quote(path)
        + " diff --binary 4b825dc642cb6eb9a060e54bf899d15006 HEAD"@
}

/// The command that lists all commits of a repository but the first, oldest
/// first.
pub open spec fn log_command(path: Seq<char>) -> Seq<char> {
    "git -C "@ + quote(path) + " log --format=%H --reverse $(git -C "@ + quote(path)
        + " rev-list --max-parents=0 HEAD)..HEAD"@
}

/// The command that applies a patch file.
pub open spec fn apply_command(path: Seq<char>, patch: Seq<char>) -> Seq<char> {
    git_in(path, " am "@ + quote(patch))
}

/// The command that removes a file.
pub open spec fn remove_command(file: Seq<char>) -> Seq<char> {
    "rm -f "@ + quote(file)
}

/// The command that goes to a branch.
pub open spec fn checkout_command(path: Seq<char>, branch: Seq<char>) -> Seq<char> {
    git_in(path, " checkout "@ + quote(branch))
}

/// The command that goes to a branch and deletes another.
pub open spec fn discard_command(path: Seq<char>, main: Seq<char>, branch: Seq<char>) -> Seq<char> {
    "git -C "@ + quote(path) + " checkout "@ + quote(main) + " && git -C "@ + quote(path)
        + " branch -D "@ + quote(branch)
}

/// Where the patches of a source are written in the target.
pub open spec fn patch_file(id: u128) -> Seq<char> {
    "/tmp/merge-patch-"@ + short_form(id) + ".patch"@
}

/// Where the patch of a commit is written in the target.
pub open spec fn cherry_file(sha: Seq<char>) -> Seq<char> {
    "/tmp/cherry-"@ + cut(sha, 8) + ".patch"@
}

/// The branch for a source.
pub open spec fn source_branch(id: u128) -> Seq<char> {
    "merge/"@ + short_form(id)
}

/// The message of the merge commit for a source.
pub open spec fn merge_message(message: Option<Seq<char>>, id: u128) -> Seq<char> {
    match message {
        Some(m) => m + " (from "@ + short_form(id) + ")"@,
        None => "Merge branch '"@ + source_branch(id) + "' from workspace "@ + short_form(id),
    }
}

/// How many commits `git am` says it applied.
pub open spec fn applied_in(ls: Seq<Seq<char>>) -> nat
    decreases ls.len(),
{
    if ls.len() == 0 {
        0
    } else if "Applying:"@.is_prefix_of(ls.last()) {
        applied_in(ls.drop_last()) + 1
    } else {
        applied_in(ls.drop_last())
    }
}

fn patches_text(path: &str) -> (r: String)
    ensures
        r@ == patches_command(path@),
{
    let q: String = shell_escape(path);
    cat5(
        "git -C ",
        q.as_str(),
        " format-patch --stdout $(git -C ",
        q.as_str(),
        " rev-list --max-parents=0 HEAD)..HEAD",
    )
}

fn probe_text(path: &str) -> (r: String)
    ensures
        r@ == probe_command(path@),
{
    let q: String = shell_escape(path);
    cat5(
        "git -C ",
        q.as_str(),
        " diff --binary HEAD~1..HEAD 2>/dev/null || git -C ",
        q.as_str(),
        " diff --binary 4b825dc642cb6eb9a060e54bf899d15006 HEAD",
    )
}

fn log_text(path: &str) -> (r: String)
    ensures
        r@ == log_command(path@),
{
    let q: String = shell_escape(path);
    cat5(
        "git -C ",
        q.as_str(),
        " log --format=%H --reverse $(git -C ",
        q.as_str(),
        " rev-list --max-parents=0 HEAD)..HEAD",
    )
}

fn apply_text(path: &str, patch: &str) -> (r: String)
    ensures
        r@ == apply_command(path@, patch@),
{
    let p: String = shell_escape(patch);
    let rest: String = cat2(" am ", p.as_str());
    git_command(path, rest.as_str())
}

fn remove_text(file: &str) -> (r: String)
    ensures
        r@ == remove_command(file@),
{
    let f: String = shell_escape(file);
    cat2("rm -f ", f.as_str())
}

fn checkout_text(path: &str, branch: &str) -> (r: String)
    ensures
        r@ == checkout_command(path@, branch@),
{
    let b: String = shell_escape(branch);
    let rest: String = cat2(" checkout ", b.as_str());
    git_command(path, rest.as_str())
}

fn discard_text(path: &str, main: &str, branch: &str) -> (r: String)
    ensures
        r@ == discard_command(path@, main@, branch@),
{
    let q: String = shell_escape(path);
    let m: String = shell_escape(main);
    let b: String = shell_escape(branch);
    let head: String = cat4("git -C ", q.as_str(), " checkout ", m.as_str());
    let mut out: String = head;
    out.append(" && git -C ");
    out.append(q.as_str());
    out.append(" branch -D ");
    out.append(b.as_str());
    out
}

fn patch_file_of(id: u128) -> (r: String)
    ensures
        r@ == patch_file(id),
{
    let s: String = short_id(id);
    cat3("/tmp/merge-patch-", s.as_str(), ".patch")
}

fn cherry_file_of(sha: &str) -> (r: String)
    ensures
        r@ == cherry_file(sha@),
{
    let s: String = cut_to(sha, 8);
    cat3("/tmp/cherry-", s.as_str(), ".patch")
}

fn source_branch_of(id: u128) -> (r: String)
    ensures
        r@ == source_branch(id),
{
    let s: String = short_id(id);
    cat2("merge/", s.as_str())
}

fn merge_message_of(message: &Option<String>, id: u128) -> (r: String)
    ensures
        r@ == merge_message(opt_text(*message), id),
{
    let s: String = short_id(id);
    match message {
        Some(m) => cat4(m.as_str(), " (from ", s.as_str(), ")"),
        None => {
            let b: String = source_branch_of(id);
            cat4("Merge branch '", b.as_str(), "' from workspace ", s.as_str())
        },
    }
}

/// How many commits `git am` says it applied.
fn count_applied(out: &str) -> (n: usize)
    ensures
        n == applied_in(lines(out@)),
{
    let ls: Vec<String> = split_lines(out);
    let mut n: usize = 0;
    let mut i: usize = 0;
    while i < ls.len()
        invariant
            n <= i <= ls.len(),
            n == applied_in(texts(ls@).take(i as int)),
        decreases ls.len() - i,
    {
        proof {
            let t = texts(ls@).take(i + 1);
            assert(t.drop_last() =~= texts(ls@).take(i as int));
            assert(t.last() == ls@[i as int]@);
        }
        if starts_with(ls[i].as_str(), "Applying:") {
            n = n + 1;
        }
        i = i + 1;
    }
    proof {
        assert(texts(ls@).take(ls@.len() as int) =~= texts(ls@));
    }
    n
}

// ---------------------------------------------------------------------------
// Transitions
// ---------------------------------------------------------------------------

/// The state waits at a stage for a command.
pub open spec fn ask(
    s: MergeState,
    stage: StageView,
    workspace: u128,
    command: Seq<char>,
    timeout_secs: u64,
) -> (MergeState, ActionView) {
    (
        MergeState { stage, ..s },
        ActionView::Run(RequestView::Exec { workspace, command, timeout_secs }),
    )
}

/// The state waits at a stage for a file in the target.
pub open spec fn put(s: MergeState, stage: StageView, path: Seq<char>, content: Seq<char>) -> (
    MergeState,
    ActionView,
) {
    (
        MergeState { stage, ..s },
        ActionView::Run(RequestView::WriteFile { workspace: s.target, path, content }),
    )
}

/// The whole merge fails.
pub open spec fn give_up(s: MergeState, message: Seq<char>) -> (MergeState, ActionView) {
    (
        MergeState { stage: StageView::Idle, ..s },
        ActionView::Fail((ErrorKind::InvalidRequest, message)),
    )
}

/// The identifier of the source that is being merged.
pub open spec fn current(s: MergeState) -> u128 {
    s.sources[s.results.len() as int].1
}

/// Begin with the next source, or report if there is none.
pub open spec fn next_source(s: MergeState) -> (MergeState, ActionView) {
    if s.results.len() < s.sources.len() {
        match s.strategy {
            Strategy::Sequential => ask(
                s,
                StageView::Sequential(SequentialStageView::Extracting),
                current(s),
                patches_command(s.path),
                60,
            ),
            Strategy::BranchPerSource => ask(
                s,
                StageView::Branch(BranchStageView::Creating),
                s.target,
                git_in(s.path, " checkout -b "@ + quote(source_branch(current(s)))),
                10,
            ),
            Strategy::CherryPick => ask(
                s,
                StageView::Cherry(CherryStageView::Listing),
                current(s),
                log_command(s.path),
                30,
            ),
        }
    } else {
        (
            MergeState { stage: StageView::Idle, ..s },
            ActionView::Done(report(s.strategy, s.results)),
        )
    }
}

/// Record the result of the current source and go on with the next.
pub open spec fn conclude(
    s: MergeState,
    success: bool,
    error: Option<Seq<char>>,
    commits: nat,
) -> (MergeState, ActionView) {
    next_source(
        MergeState {
            results: s.results.push(
                ResultView {
                    source_id: s.sources[s.results.len() as int].0,
                    success,
                    error,
                    commits,
                },
            ),
            ..s
        },
    )
}

/// One step of a sequential merge.
pub open spec fn sequential_step(
    s: MergeState,
    stage: SequentialStageView,
    reply: Result<Output, Seq<char>>,
) -> (MergeState, ActionView) {
    let id = current(s);
    match stage {
        SequentialStageView::Extracting => match reply {
            Err(message) => give_up(s, message),
            Ok(o) => if o.code != 0 {
                ask(
                    s,
                    StageView::Sequential(
                        SequentialStageView::Probing { patch: o.out, complaint: o.err },
                    ),
                    id,
                    probe_command(s.path),
                    60,
                )
            } else {
                sequential_write(s, o.out)
            },
        },
        SequentialStageView::Probing { patch, complaint } => match reply {
            Err(message) => give_up(s, message),
            Ok(o) => if o.code != 0 || trim(o.out).len() == 0 {
                conclude(
                    s,
                    false,
                    Some(
                        "failed to extract patches: "@ + if complaint.len() > 0 {
                            trim(complaint)
                        } else {
                            "no commits to merge"@
                        },
                    ),
                    0,
                )
            } else {
                sequential_write(s, patch)
            },
        },
        SequentialStageView::Writing => match reply {
            Err(message) => give_up(s, "failed to write patch to target: "@ + message),
            Ok(_) => ask(
                s,
                StageView::Sequential(SequentialStageView::Applying),
                s.target,
                apply_command(s.path, patch_file(id)),
                60,
            ),
        },
        SequentialStageView::Applying => match reply {
            Err(message) => give_up(s, message),
            Ok(o) => if o.code != 0 {
                ask(
                    s,
                    StageView::Sequential(
                        SequentialStageView::Aborting { error: trim(complaint(o)) },
                    ),
                    s.target,
                    git_in(s.path, " am --abort"@),
                    10,
                )
            } else {
                ask(
                    s,
                    StageView::Sequential(
                        SequentialStageView::Cleaning { applied: applied_in(lines(o.out)) },
                    ),
                    s.target,
                    remove_command(patch_file(id)),
                    5,
                )
            },
        },
        SequentialStageView::Aborting { error } => conclude(
            s,
            false,
            Some("git am failed: "@ + error),
            0,
        ),
        SequentialStageView::Cleaning { applied } => conclude(s, true, None, applied),
    }
}

/// Write the patches of a source to the target, if there are any.
pub open spec fn sequential_write(s: MergeState, patch: Seq<char>) -> (MergeState, ActionView) {
    if trim(patch).len() == 0 {
        conclude(s, true, None, 0)
    } else {
        put(
            s,
            StageView::Sequential(SequentialStageView::Writing),
            patch_file(current(s)),
            patch,
        )
    }
}

/// One step of a merge with a branch per source.
pub open spec fn branch_step(
    s: MergeState,
    stage: BranchStageView,
    reply: Result<Output, Seq<char>>,
) -> (MergeState, ActionView) {
    let id = current(s);
    match stage {
        BranchStageView::Detecting => match reply {
            Err(message) => give_up(s, message),
            Ok(o) => if trim(o.out).len() == 0 {
                give_up(s, "target workspace is in detached HEAD state; cannot merge"@)
            } else {
                next_source(MergeState { main: trim(o.out), ..s })
            },
        },
        BranchStageView::Creating => match reply {
            Err(message) => give_up(s, message),
            Ok(o) => if o.code != 0 {
                ask(
                    s,
                    StageView::Branch(
                        BranchStageView::Returning {
                            error: "failed to create branch '"@ + source_branch(id) + "': "@ + trim(
                                o.err,
                            ),
                        },
                    ),
                    s.target,
                    checkout_command(s.path, s.main),
                    10,
                )
            } else {
                ask(
                    s,
                    StageView::Branch(BranchStageView::Extracting),
                    id,
                    patches_command(s.path),
                    60,
                )
            },
        },
        BranchStageView::Returning { error } => conclude(s, false, Some(error), 0),
        BranchStageView::Extracting => match reply {
            Err(message) => give_up(s, message),
            Ok(o) => if trim(o.out).len() == 0 || o.code != 0 {
                ask(
                    s,
                    StageView::Branch(BranchStageView::Discarding),
                    s.target,
                    discard_command(s.path, s.main, source_branch(id)),
                    10,
                )
            } else {
                put(s, StageView::Branch(BranchStageView::Writing), patch_file(id), o.out)
            },
        },
        BranchStageView::Discarding => conclude(s, true, None, 0),
        BranchStageView::Writing => match reply {
            Err(message) => give_up(s, "failed to write patch: "@ + message),
            Ok(_) => ask(
                s,
                StageView::Branch(BranchStageView::Applying),
                s.target,
                apply_command(s.path, patch_file(id)),
                60,
            ),
        },
        BranchStageView::Applying => match reply {
            Err(message) => give_up(s, message),
            Ok(o) => ask(
                s,
                StageView::Branch(
                    BranchStageView::Cleaning { code: o.code, out: o.out, err: o.err },
                ),
                s.target,
                remove_command(patch_file(id)),
                5,
            ),
        },
        BranchStageView::Cleaning { code, out, err } => if code != 0 {
            ask(
                s,
                StageView::Branch(
                    BranchStageView::Aborting {
                        error: "patch apply failed on branch '"@ + source_branch(id) + "': "@
                            + trim(err),
                    },
                ),
                s.target,
                git_in(s.path, " am --abort"@),
                10,
            )
        } else {
            ask(
                s,
                StageView::Branch(
                    BranchStageView::SwitchingBack { applied: applied_in(lines(out)) },
                ),
                s.target,
                checkout_command(s.path, s.main),
                10,
            )
        },
        BranchStageView::Aborting { error } => ask(
            s,
            StageView::Branch(BranchStageView::Deleting { error }),
            s.target,
            discard_command(s.path, s.main, source_branch(id)),
            10,
        ),
        BranchStageView::Deleting { error } => conclude(s, false, Some(error), 0),
        BranchStageView::SwitchingBack { applied } => ask(
            s,
            StageView::Branch(BranchStageView::Merging { applied }),
            s.target,
            git_in(
                s.path,
                " merge --no-ff -m "@ + quote(merge_message(s.message, id)) + " "@ + quote(
                    source_branch(id),
                ),
            ),
            30,
        ),
        BranchStageView::Merging { applied } => match reply {
            Err(message) => give_up(s, message),
            Ok(o) => if o.code != 0 {
                ask(
                    s,
                    StageView::Branch(
                        BranchStageView::AbortingMerge {
                            error: "merge of branch '"@ + source_branch(id) + "' failed: "@ + trim(
                                o.err,
                            ),
                        },
                    ),
                    s.target,
                    git_in(s.path, " merge --abort"@),
                    10,
                )
            } else {
                ask(
                    s,
                    StageView::Branch(BranchStageView::DeletingMerged { applied }),
                    s.target,
                    git_in(s.path, " branch -d "@ + quote(source_branch(id))),
                    10,
                )
            },
        },
        BranchStageView::AbortingMerge { error } => conclude(s, false, Some(error), 0),
        BranchStageView::DeletingMerged { applied } => conclude(s, true, None, applied),
    }
}

/// Extract the next commit of a source, or go on with the next source.
pub open spec fn next_commit(s: MergeState, commits: Seq<Seq<char>>, applied: int) -> (
    MergeState,
    ActionView,
) {
    if applied < commits.len() {
        ask(
            s,
            StageView::Cherry(CherryStageView::Extracting { commits, applied }),
            current(s),
            git_in(s.path, " format-patch --stdout -1 "@ + quote(commits[applied])),
            30,
        )
    } else {
        conclude(s, true, None, applied as nat)
    }
}

/// One step of a cherry-pick merge.
pub open spec fn cherry_step(
    s: MergeState,
    stage: CherryStageView,
    reply: Result<Output, Seq<char>>,
) -> (MergeState, ActionView) {
    match stage {
        CherryStageView::Listing => match reply {
            Err(message) => give_up(s, message),
            Ok(o) => if o.code != 0 || trim(o.out).len() == 0 {
                conclude(s, true, None, 0)
            } else {
                next_commit(s, lines(trim(o.out)), 0)
            },
        },
        CherryStageView::Extracting { commits, applied } => match reply {
            Err(message) => give_up(s, message),
            Ok(o) => if o.code != 0 || trim(o.out).len() == 0 {
                conclude(
                    s,
                    false,
                    Some(
                        "failed to extract commit "@ + cut(commits[applied], 8) + ": "@ + trim(
                            o.err,
                        ),
                    ),
                    applied as nat,
                )
            } else {
                put(
                    s,
                    StageView::Cherry(CherryStageView::Writing { commits, applied }),
                    cherry_file(commits[applied]),
                    o.out,
                )
            },
        },
        CherryStageView::Writing { commits, applied } => match reply {
            Err(message) => give_up(s, "failed to write patch: "@ + message),
            Ok(_) => ask(
                s,
                StageView::Cherry(CherryStageView::Applying { commits, applied }),
                s.target,
                apply_command(s.path, cherry_file(commits[applied])),
                30,
            ),
        },
        CherryStageView::Applying { commits, applied } => match reply {
            Err(message) => give_up(s, message),
            Ok(o) => ask(
                s,
                StageView::Cherry(
                    CherryStageView::Cleaning { commits, applied, code: o.code, err: o.err },
                ),
                s.target,
                remove_command(cherry_file(commits[applied])),
                5,
            ),
        },
        CherryStageView::Cleaning { commits, applied, code, err } => if code != 0 {
            ask(
                s,
                StageView::Cherry(
                    CherryStageView::Aborting {
                        applied,
                        error: "cherry-pick of commit "@ + cut(commits[applied], 8) + " failed: "@
                            + trim(err),
                    },
                ),
                s.target,
                git_in(s.path, " am --abort"@),
                10,
            )
        } else {
            next_commit(s, commits, applied + 1)
        },
        CherryStageView::Aborting { applied, error } => conclude(
            s,
            false,
            Some(error),
            applied as nat,
        ),
    }
}

/// One step of a merge: what it becomes and what it does after a reply.
pub open spec fn merge_step(s: MergeState, reply: Result<Output, Seq<char>>) -> (
    MergeState,
    ActionView,
) {
    match s.stage {
        StageView::Idle => (s, ActionView::Done(report(s.strategy, s.results))),
        StageView::Sequential(stage) => sequential_step(s, stage, reply),
        StageView::Branch(stage) => branch_step(s, stage, reply),
        StageView::Cherry(stage) => cherry_step(s, stage, reply),
    }
}

/// The first step of a merge.
pub open spec fn merge_start(s: MergeState) -> (MergeState, ActionView) {
    match s.strategy {
        Strategy::BranchPerSource => ask(
            s,
            StageView::Branch(BranchStageView::Detecting),
            s.target,
            git_in(s.path, " branch --show-current"@),
            10,
        ),
        _ => next_source(s),
    }
}

/// A merge has a result for each source that it has left behind, under the
/// source's name; while it waits for a source, that source exists; and its
/// stage is one of its strategy.
pub open spec fn merge_ok(s: MergeState) -> bool {
    &&& s.results.len() <= s.sources.len()
    &&& forall|i: int|
        0 <= i < s.results.len() ==> (#[trigger] s.results[i]).source_id == s.sources[i].0
    &&& match s.stage {
        StageView::Idle => true,
        StageView::Sequential(_) => s.strategy == Strategy::Sequential && s.results.len()
            < s.sources.len(),
        StageView::Branch(stage) => s.strategy == Strategy::BranchPerSource && (stage is Detecting
            || s.results.len() < s.sources.len()),
        StageView::Cherry(stage) => s.strategy == Strategy::CherryPick && s.results.len()
            < s.sources.len() && match stage {
            CherryStageView::Extracting { commits, applied } => 0 <= applied < commits.len(),
            CherryStageView::Writing { commits, applied } => 0 <= applied < commits.len(),
            CherryStageView::Applying { commits, applied } => 0 <= applied < commits.len(),
            CherryStageView::Cleaning { commits, applied, .. } => 0 <= applied < commits.len(),
            CherryStageView::Aborting { applied, .. } => 0 <= applied,
            CherryStageView::Listing => true,
        },
    }
}

impl Merge {
    /// A merge that has not begun.
    pub fn new(
        strategy: Strategy,
        sources: Vec<Source>,
        target: u128,
        path: String,
        commit_message: Option<String>,
    ) -> (m: Merge)
        ensures
            m@ == (MergeState {
                strategy,
                sources: sources_view(sources@),
                target,
                path: path@,
                message: opt_text(commit_message),
                main: seq![],
                results: seq![],
                stage: StageView::Idle,
            }),
            merge_ok(m@),
    {
        let m: Merge = Merge {
            strategy,
            sources,
            target,
            path,
            commit_message,
            main_branch: String::new(),
            results: Vec::new(),
            stage: MergeStage::Idle,
        };
        proof {
            assert(m@.main =~= seq![]);
            assert(m@.results =~= seq![]);
        }
        m
    }

    fn ask(&mut self, stage: MergeStage, workspace: u128, command: String, timeout_secs: u64) -> (a:
        MergeAction)
        ensures
            (final(self)@, a@) == ask(old(self)@, stage@, workspace, command@, timeout_secs),
    {
        self.stage = stage;
        MergeAction::Run(exec(workspace, command, timeout_secs))
    }

    fn put(&mut self, stage: MergeStage, path: String, content: &str) -> (a: MergeAction)
        ensures
            (final(self)@, a@) == put(old(self)@, stage@, path@, content@),
    {
        self.stage = stage;
        MergeAction::Run(
            Request::WriteFile { workspace: self.target, path, content: owned(content) },
        )
    }

    fn give_up(&mut self, message: String) -> (a: MergeAction)
        ensures
            (final(self)@, a@) == give_up(old(self)@, message@),
    {
        self.stage = MergeStage::Idle;
        MergeAction::Fail(invalid_request(message))
    }

    fn current(&self) -> (id: u128)
        requires
            self@.results.len() < self@.sources.len(),
        ensures
            id == current(self@),
    {
        self.sources[self.results.len()].id
    }

    fn next_source(&mut self) -> (a: MergeAction)
        ensures
            (final(self)@, a@) == next_source(old(self)@),
    {
        if self.results.len() < self.sources.len() {
            let id: u128 = self.current();
            match self.strategy {
                Strategy::Sequential => {
                    let command: String = patches_text(self.path.as_str());
                    self.ask(MergeStage::Sequential(SequentialStage::Extracting), id, command, 60)
                },
                Strategy::BranchPerSource => {
                    let branch: String = source_branch_of(id);
                    let b: String = shell_escape(branch.as_str());
                    let rest: String = cat2(" checkout -b ", b.as_str());
                    let command: String = git_command(self.path.as_str(), rest.as_str());
                    let target: u128 = self.target;
                    self.ask(MergeStage::Branch(BranchStage::Creating), target, command, 10)
                },
                Strategy::CherryPick => {
                    let command: String = log_text(self.path.as_str());
                    self.ask(MergeStage::Cherry(CherryStage::Listing), id, command, 30)
                },
            }
        } else {
            self.stage = MergeStage::Idle;
            MergeAction::Done(report_on(self.strategy, &self.results))
        }
    }

    fn conclude(&mut self, success: bool, error: Option<String>, commits_applied: u64) -> (a:
        MergeAction)
        requires
            old(self)@.results.len() < old(self)@.sources.len(),
        ensures
            (final(self)@, a@) == conclude(
                old(self)@,
                success,
                opt_text(error),
                commits_applied as nat,
            ),
    {
        let source_id: String = owned(self.sources[self.results.len()].label.as_str());
        let result: MergeSourceResult = MergeSourceResult {
            source_id,
            success,
            error,
            commits_applied,
        };
        let ghost before = self.results@;
        self.results.push(result);
        proof {
            assert(results_view(before.push(result)) =~= results_view(before).push(result@));
        }
        self.next_source()
    }

    fn sequential_write(&mut self, patch: &str) -> (a: MergeAction)
        requires
            old(self)@.results.len() < old(self)@.sources.len(),
        ensures
            (final(self)@, a@) == sequential_write(old(self)@, patch@),
    {
        let t: String = trimmed(patch);
        if t.as_str().is_empty() {
            self.conclude(true, None, 0)
        } else {
            let file: String = patch_file_of(self.current());
            self.put(MergeStage::Sequential(SequentialStage::Writing), file, patch)
        }
    }

    fn sequential_step(&mut self, stage: SequentialStage, reply: &Result<ExecReply, String>) -> (a:
        MergeAction)
        requires
            old(self)@.results.len() < old(self)@.sources.len(),
        ensures
            (final(self)@, a@) == sequential_step(old(self)@, stage@, reply_view(*reply)),
    {
        let id: u128 = self.current();
        let target: u128 = self.target;
        match stage {
            SequentialStage::Extracting => match reply {
                Err(e) => self.give_up(owned(e.as_str())),
                Ok(o) => if o.exit_code != 0 {
                    let command: String = probe_text(self.path.as_str());
                    self.ask(
                        MergeStage::Sequential(
                            SequentialStage::Probing {
                                patch: owned(o.stdout.as_str()),
                                complaint: owned(o.stderr.as_str()),
                            },
                        ),
                        id,
                        command,
                        60,
                    )
                } else {
                    self.sequential_write(o.stdout.as_str())
                },
            },
            SequentialStage::Probing { patch, complaint } => match reply {
                Err(e) => self.give_up(owned(e.as_str())),
                Ok(o) => {
                    let t: String = trimmed(o.stdout.as_str());
                    if o.exit_code != 0 || t.as_str().is_empty() {
                        let why: String = if !complaint.as_str().is_empty() {
                            trimmed(complaint.as_str())
                        } else {
                            owned("no commits to merge")
                        };
                        self.conclude(
                            false,
                            Some(cat2("failed to extract patches: ", why.as_str())),
                            0,
                        )
                    } else {
                        self.sequential_write(patch.as_str())
                    }
                },
            },
            SequentialStage::Writing => match reply {
                Err(e) => self.give_up(cat2("failed to write patch to target: ", e.as_str())),
                Ok(_) => {
                    let file: String = patch_file_of(id);
                    let command: String = apply_text(self.path.as_str(), file.as_str());
                    self.ask(
                        MergeStage::Sequential(SequentialStage::Applying),
                        target,
                        command,
                        60,
                    )
                },
            },
            SequentialStage::Applying => match reply {
                Err(e) => self.give_up(owned(e.as_str())),
                Ok(o) => if o.exit_code != 0 {
                    let command: String = git_command(self.path.as_str(), " am --abort");
                    self.ask(
                        MergeStage::Sequential(
                            SequentialStage::Aborting { error: trimmed(complaint_of(o)) },
                        ),
                        target,
                        command,
                        10,
                    )
                } else {
                    let file: String = patch_file_of(id);
                    let command: String = remove_text(file.as_str());
                    let applied: u64 = count_applied(o.stdout.as_str()) as u64;
                    self.ask(
                        MergeStage::Sequential(SequentialStage::Cleaning { applied }),
                        target,
                        command,
                        5,
                    )
                },
            },
            SequentialStage::Aborting { error } => self.conclude(
                false,
                Some(cat2("git am failed: ", error.as_str())),
                0,
            ),
            SequentialStage::Cleaning { applied } => self.conclude(true, None, applied),
        }
    }

    fn branch_step(&mut self, stage: BranchStage, reply: &Result<ExecReply, String>) -> (a:
        MergeAction)
        requires
            stage is Detecting || old(self)@.results.len() < old(self)@.sources.len(),
        ensures
            (final(self)@, a@) == branch_step(old(self)@, stage@, reply_view(*reply)),
    {
        let target: u128 = self.target;
        match stage {
            BranchStage::Detecting => match reply {
                Err(e) => self.give_up(owned(e.as_str())),
                Ok(o) => {
                    let main: String = trimmed(o.stdout.as_str());
                    if main.as_str().is_empty() {
                        self.give_up(
                            owned("target workspace is in detached HEAD state; cannot merge"),
                        )
                    } else {
                        self.main_branch = main;
                        self.next_source()
                    }
                },
            },
            BranchStage::Creating => match reply {
                Err(e) => self.give_up(owned(e.as_str())),
                Ok(o) => {
                    let id: u128 = self.current();
                    if o.exit_code != 0 {
                        let branch: String = source_branch_of(id);
                        let detail: String = trimmed(o.stderr.as_str());
                        let error: String = cat4(
                            "failed to create branch '",
                            branch.as_str(),
                            "': ",
                            detail.as_str(),
                        );
                        let command: String = checkout_text(
                            self.path.as_str(),
                            self.main_branch.as_str(),
                        );
                        self.ask(
                            MergeStage::Branch(BranchStage::Returning { error }),
                            target,
                            command,
                            10,
                        )
                    } else {
                        let command: String = patches_text(self.path.as_str());
                        self.ask(MergeStage::Branch(BranchStage::Extracting), id, command, 60)
                    }
                },
            },
            BranchStage::Returning { error } => self.conclude(false, Some(error), 0),
            BranchStage::Extracting => match reply {
                Err(e) => self.give_up(owned(e.as_str())),
                Ok(o) => {
                    let id: u128 = self.current();
                    let t: String = trimmed(o.stdout.as_str());
                    if t.as_str().is_empty() || o.exit_code != 0 {
                        let branch: String = source_branch_of(id);
                        let command: String = discard_text(
                            self.path.as_str(),
                            self.main_branch.as_str(),
                            branch.as_str(),
                        );
                        self.ask(MergeStage::Branch(BranchStage::Discarding), target, command, 10)
                    } else {
                        let file: String = patch_file_of(id);
                        self.put(
                            MergeStage::Branch(BranchStage::Writing),
                            file,
                            o.stdout.as_str(),
                        )
                    }
                },
            },
            BranchStage::Discarding => self.conclude(true, None, 0),
            BranchStage::Writing => match reply {
                Err(e) => self.give_up(cat2("failed to write patch: ", e.as_str())),
                Ok(_) => {
                    let file: String = patch_file_of(self.current());
                    let command: String = apply_text(self.path.as_str(), file.as_str());
                    self.ask(MergeStage::Branch(BranchStage::Applying), target, command, 60)
                },
            },
            BranchStage::Applying => match reply {
                Err(e) => self.give_up(owned(e.as_str())),
                Ok(o) => {
                    let file: String = patch_file_of(self.current());
                    let command: String = remove_text(file.as_str());
                    self.ask(
                        MergeStage::Branch(
                            BranchStage::Cleaning {
                                code: o.exit_code,
                                out: owned(o.stdout.as_str()),
                                err: owned(o.stderr.as_str()),
                            },
                        ),
                        target,
                        command,
                        5,
                    )
                },
            },
            BranchStage::Cleaning { code, out, err } => if code != 0 {
                let branch: String = source_branch_of(self.current());
                let detail: String = trimmed(err.as_str());
                let error: String = cat4(
                    "patch apply failed on branch '",
                    branch.as_str(),
                    "': ",
                    detail.as_str(),
                );
                let command: String = git_command(self.path.as_str(), " am --abort");
                self.ask(MergeStage::Branch(BranchStage::Aborting { error }), target, command, 10)
            } else {
                let applied: u64 = count_applied(out.as_str()) as u64;
                let command: String = checkout_text(
                    self.path.as_str(),
                    self.main_branch.as_str(),
                );
                self.ask(
                    MergeStage::Branch(BranchStage::SwitchingBack { applied }),
                    target,
                    command,
                    10,
                )
            },
            BranchStage::Aborting { error } => {
                let branch: String = source_branch_of(self.current());
                let command: String = discard_text(
                    self.path.as_str(),
                    self.main_branch.as_str(),
                    branch.as_str(),
                );
                self.ask(MergeStage::Branch(BranchStage::Deleting { error }), target, command, 10)
            },
            BranchStage::Deleting { error } => self.conclude(false, Some(error), 0),
            BranchStage::SwitchingBack { applied } => {
                let id: u128 = self.current();
                let branch: String = source_branch_of(id);
                let b: String = shell_escape(branch.as_str());
                let message: String = merge_message_of(&self.commit_message, id);
                let m: String = shell_escape(message.as_str());
                let rest: String = cat4(" merge --no-ff -m ", m.as_str(), " ", b.as_str());
                let command: String = git_command(self.path.as_str(), rest.as_str());
                self.ask(MergeStage::Branch(BranchStage::Merging { applied }), target, command, 30)
            },
            BranchStage::Merging { applied } => match reply {
                Err(e) => self.give_up(owned(e.as_str())),
                Ok(o) => {
                    let branch: String = source_branch_of(self.current());
                    if o.exit_code != 0 {
                        let detail: String = trimmed(o.stderr.as_str());
                        let error: String = cat4(
                            "merge of branch '",
                            branch.as_str(),
                            "' failed: ",
                            detail.as_str(),
                        );
                        let command: String = git_command(self.path.as_str(), " merge --abort");
                        self.ask(
                            MergeStage::Branch(BranchStage::AbortingMerge { error }),
                            target,
                            command,
                            10,
                        )
                    } else {
                        let b: String = shell_escape(branch.as_str());
                        let rest: String = cat2(" branch -d ", b.as_str());
                        let command: String = git_command(self.path.as_str(), rest.as_str());
                        self.ask(
                            MergeStage::Branch(BranchStage::DeletingMerged { applied }),
                            target,
                            command,
                            10,
                        )
                    }
                },
            },
            BranchStage::AbortingMerge { error } => self.conclude(false, Some(error), 0),
            BranchStage::DeletingMerged { applied } => self.conclude(true, None, applied),
        }
    }

    fn next_commit(&mut self, commits: Vec<String>, applied: usize) -> (a: MergeAction)
        requires
            old(self)@.results.len() < old(self)@.sources.len(),
        ensures
            (final(self)@, a@) == next_commit(old(self)@, texts(commits@), applied as int),
    {
        if applied < commits.len() {
            let id: u128 = self.current();
            let sha: String = shell_escape(commits[applied].as_str());
            let rest: String = cat2(" format-patch --stdout -1 ", sha.as_str());
            let command: String = git_command(self.path.as_str(), rest.as_str());
            self.ask(
                MergeStage::Cherry(CherryStage::Extracting { commits, applied }),
                id,
                command,
                30,
            )
        } else {
            self.conclude(true, None, applied as u64)
        }
    }

    fn cherry_step(&mut self, stage: CherryStage, reply: &Result<ExecReply, String>) -> (a:
        MergeAction)
        requires
            merge_ok(MergeState { stage: StageView::Cherry(stage@), ..old(self)@ }),
        ensures
            (final(self)@, a@) == cherry_step(old(self)@, stage@, reply_view(*reply)),
    {
        let target: u128 = self.target;
        match stage {
            CherryStage::Listing => match reply {
                Err(e) => self.give_up(owned(e.as_str())),
                Ok(o) => {
                    let t: String = trimmed(o.stdout.as_str());
                    if o.exit_code != 0 || t.as_str().is_empty() {
                        self.conclude(true, None, 0)
                    } else {
                        let commits: Vec<String> = split_lines(t.as_str());
                        self.next_commit(commits, 0)
                    }
                },
            },
            CherryStage::Extracting { commits, applied } => match reply {
                Err(e) => self.give_up(owned(e.as_str())),
                Ok(o) => {
                    let t: String = trimmed(o.stdout.as_str());
                    if o.exit_code != 0 || t.as_str().is_empty() {
                        let short: String = cut_to(commits[applied].as_str(), 8);
                        let detail: String = trimmed(o.stderr.as_str());
                        let error: String = cat4(
                            "failed to extract commit ",
                            short.as_str(),
                            ": ",
                            detail.as_str(),
                        );
                        self.conclude(false, Some(error), applied as u64)
                    } else {
                        let file: String = cherry_file_of(commits[applied].as_str());
                        self.put(
                            MergeStage::Cherry(CherryStage::Writing { commits, applied }),
                            file,
                            o.stdout.as_str(),
                        )
                    }
                },
            },
            CherryStage::Writing { commits, applied } => match reply {
                Err(e) => self.give_up(cat2("failed to write patch: ", e.as_str())),
                Ok(_) => {
                    let file: String = cherry_file_of(commits[applied].as_str());
                    let command: String = apply_text(self.path.as_str(), file.as_str());
                    self.ask(
                        MergeStage::Cherry(CherryStage::Applying { commits, applied }),
                        target,
                        command,
                        30,
                    )
                },
            },
            CherryStage::Applying { commits, applied } => match reply {
                Err(e) => self.give_up(owned(e.as_str())),
                Ok(o) => {
                    let file: String = cherry_file_of(commits[applied].as_str());
                    let command: String = remove_text(file.as_str());
                    self.ask(
                        MergeStage::Cherry(
                            CherryStage::Cleaning {
                                commits,
                                applied,
                                code: o.exit_code,
                                err: owned(o.stderr.as_str()),
                            },
                        ),
                        target,
                        command,
                        5,
                    )
                },
            },
            CherryStage::Cleaning { commits, applied, code, err } => if code != 0 {
                let short: String = cut_to(commits[applied].as_str(), 8);
                let detail: String = trimmed(err.as_str());
                let error: String = cat4(
                    "cherry-pick of commit ",
                    short.as_str(),
                    " failed: ",
                    detail.as_str(),
                );
                let command: String = git_command(self.path.as_str(), " am --abort");
                self.ask(
                    MergeStage::Cherry(CherryStage::Aborting { applied, error }),
                    target,
                    command,
                    10,
                )
            } else {
                let n: usize = commits.len();
                proof {
                    assert(texts(commits@).len() == n);
                }
                self.next_commit(commits, applied + 1)
            },
            CherryStage::Aborting { applied, error } => self.conclude(
                false,
                Some(error),
                applied as u64,
            ),
        }
    }

    /// Begin the merge.
    pub fn start(&mut self) -> (a: MergeAction)
        requires
            merge_ok(old(self)@),
        ensures
            (final(self)@, a@) == merge_start(old(self)@),
            merge_ok(final(self)@),
    {
        match self.strategy {
            Strategy::BranchPerSource => {
                let target: u128 = self.target;
                let command: String = git_command(self.path.as_str(), " branch --show-current");
                self.ask(MergeStage::Branch(BranchStage::Detecting), target, command, 10)
            },
            _ => self.next_source(),
        }
    }

    /// Go on with the merge after a reply. What cleans up may fail without
    /// consequence; a command that could not be run at all ends the merge.
    pub fn step(&mut self, reply: &Result<ExecReply, String>) -> (a: MergeAction)
        requires
            merge_ok(old(self)@),
        ensures
            (final(self)@, a@) == merge_step(old(self)@, reply_view(*reply)),
            merge_ok(final(self)@),
    {
        proof {
            law_merge_step_keeps_order(self@, reply_view(*reply));
        }
        let mut stage: MergeStage = MergeStage::Idle;
        core::mem::swap(&mut self.stage, &mut stage);
        match stage {
            MergeStage::Idle => MergeAction::Done(report_on(self.strategy, &self.results)),
            MergeStage::Sequential(stage) => self.sequential_step(stage, reply),
            MergeStage::Branch(stage) => self.branch_step(stage, reply),
            MergeStage::Cherry(stage) => self.cherry_step(stage, reply),
        }
    }
}

// ---------------------------------------------------------------------------
// Laws
// ---------------------------------------------------------------------------

/// Every step of a merge keeps what [`merge_ok`] says: results come in the
/// order of the sources, one for each source that was left behind.
pub proof fn law_merge_step_keeps_order(s: MergeState, reply: Result<Output, Seq<char>>)
    requires
        merge_ok(s),
    ensures
        merge_ok(merge_step(s, reply).0),
        merge_step(s, reply).0.sources == s.sources,
        merge_step(s, reply).0.target == s.target,
        merge_step(s, reply).0.strategy == s.strategy,
{
}

/// Where a merge stands after its start and a sequence of replies. Replies
/// after its end change nothing.
pub open spec fn run(s: MergeState, replies: Seq<Result<Output, Seq<char>>>) -> (
    MergeState,
    ActionView,
)
    decreases replies.len(),
{
    if replies.len() == 0 {
        merge_start(s)
    } else {
        let (t, action) = run(s, replies.drop_last());
        if action is Run {
            merge_step(t, replies.last())
        } else {
            (t, action)
        }
    }
}

/// Whatever the workspaces reply, a merge that ends with a report has tried
/// every source exactly once and in order, and the report is the one on those
/// results.
pub proof fn law_merge_reports_every_source(
    s: MergeState,
    replies: Seq<Result<Output, Seq<char>>>,
)
    requires
        s.results.len() == 0,
        s.stage is Idle,
    ensures
        merge_ok(run(s, replies).0),
        run(s, replies).0.sources == s.sources,
        run(s, replies).0.strategy == s.strategy,
        run(s, replies).0.target == s.target,
        run(s, replies).1 matches ActionView::Done(r) ==> {
            let results = run(s, replies).0.results;
            &&& results.len() == s.sources.len()
            &&& forall|i: int|
                0 <= i < results.len() ==> (#[trigger] results[i]).source_id == s.sources[i].0
            &&& r == report(s.strategy, results)
        },
        run(s, replies).1 is Run ==> !(run(s, replies).0.stage is Idle),
    decreases replies.len(),
{
    if replies.len() > 0 {
        law_merge_reports_every_source(s, replies.drop_last());
        let (t, action) = run(s, replies.drop_last());
        if action is Run {
            law_merge_step_keeps_order(t, replies.last());
        }
    }
}

/// A report counts each result once: as merged or as a conflict. It tells of
/// success exactly if there is no conflict, and then every source is merged.
pub proof fn law_report_is_complete(strategy: Strategy, rs: Seq<ResultView>)
    ensures
        report(strategy, rs).merged.len() + report(strategy, rs).conflicts.len() == rs.len(),
        report(strategy, rs).success <==> report(strategy, rs).conflicts.len() == 0,
        report(strategy, rs).success ==> report(strategy, rs).merged == Seq::new(
            rs.len(),
            |i: int| rs[i].source_id,
        ),
    decreases rs.len(),
{
    if rs.len() > 0 {
        let init = rs.drop_last();
        law_report_is_complete(strategy, init);
        if all_merged(rs) {
            assert forall|i: int| 0 <= i < init.len() implies (#[trigger] init[i]).success by {
                assert(rs[i].success);
            }
            assert(rs[rs.len() - 1].success);
            assert(merged(rs) =~= Seq::new(rs.len(), |i: int| rs[i].source_id));
        }
        if all_merged(init) && rs.last().success {
            assert forall|i: int| 0 <= i < rs.len() implies (#[trigger] rs[i]).success by {
                if i < init.len() {
                    assert(init[i].success);
                }
            }
        }
    } else {
        assert(merged(rs) =~= Seq::new(rs.len(), |i: int| rs[i].source_id));
    }
}

/// A merge runs commands only in its target and in its sources, and it writes
/// files only in its target.
pub proof fn law_merge_writes_only_to_target(s: MergeState, reply: Result<Output, Seq<char>>)
    requires
        merge_ok(s),
    ensures
        match merge_step(s, reply).1 {
            ActionView::Run(RequestView::WriteFile { workspace, .. }) => workspace == s.target,
            ActionView::Run(RequestView::Exec { workspace, .. }) => workspace == s.target || exists|
                i: int,
            |
                0 <= i < s.sources.len() && (#[trigger] s.sources[i]).1 == workspace,
            _ => true,
        },
{
    let (t, action) = merge_step(s, reply);
    if action is Run {
        let i = t.results.len() as int;
        if i < s.sources.len() {
            assert(s.sources[i].1 == current(t));
        }
        let j = s.results.len() as int;
        if j < s.sources.len() {
            assert(s.sources[j].1 == current(s));
        }
    }
}

/// How far a merge is from its end: sources to begin, whether the commits of
/// the current source are not known yet, commits to apply, and stages to pass.
pub open spec fn distance(s: MergeState) -> (nat, nat, nat, nat) {
    let sources = (s.sources.len() - s.results.len()) as nat;
    match s.stage {
        StageView::Idle => (0, 0, 0, 0),
        StageView::Sequential(stage) => (
            sources,
            0,
            0,
            match stage {
                SequentialStageView::Extracting => 5,
                SequentialStageView::Probing { .. } => 4,
                SequentialStageView::Writing => 3,
                SequentialStageView::Applying => 2,
                SequentialStageView::Aborting { .. } => 1,
                SequentialStageView::Cleaning { .. } => 1,
            },
        ),
        StageView::Branch(stage) => (
            if stage is Detecting {
                sources + 1
            } else {
                sources
            },
            0,
            0,
            match stage {
                BranchStageView::Detecting => 0,
                BranchStageView::Creating => 8,
                BranchStageView::Returning { .. } => 1,
                BranchStageView::Extracting => 7,
                BranchStageView::Discarding => 1,
                BranchStageView::Writing => 6,
                BranchStageView::Applying => 5,
                BranchStageView::Cleaning { .. } => 4,
                BranchStageView::Aborting { .. } => 3,
                BranchStageView::Deleting { .. } => 2,
                BranchStageView::SwitchingBack { .. } => 3,
                BranchStageView::Merging { .. } => 2,
                BranchStageView::AbortingMerge { .. } => 1,
                BranchStageView::DeletingMerged { .. } => 1,
            },
        ),
        StageView::Cherry(stage) => match stage {
            CherryStageView::Listing => (sources, 1, 0, 0),
            CherryStageView::Extracting { commits, applied } => (
                sources,
                0,
                (commits.len() - applied) as nat,
                4,
            ),
            CherryStageView::Writing { commits, applied } => (
                sources,
                0,
                (commits.len() - applied) as nat,
                3,
            ),
            CherryStageView::Applying { commits, applied } => (
                sources,
                0,
                (commits.len() - applied) as nat,
                2,
            ),
            CherryStageView::Cleaning { commits, applied, .. } => (
                sources,
                0,
                (commits.len() - applied) as nat,
                1,
            ),
            CherryStageView::Aborting { .. } => (sources, 0, 0, 0),
        },
    }
}

/// Every merge ends: whatever the reply, a step that asks for another thing
/// brings the merge nearer to its end.
pub proof fn law_merge_ends(s: MergeState, reply: Result<Output, Seq<char>>)
    requires
        merge_ok(s),
        merge_step(s, reply).1 is Run,
    ensures
        ({
            let a = distance(s);
            let b = distance(merge_step(s, reply).0);
            ||| b.0 < a.0
            ||| b.0 == a.0 && b.1 < a.1
            ||| b.0 == a.0 && b.1 == a.1 && b.2 < a.2
            ||| b.0 == a.0 && b.1 == a.1 && b.2 == a.2 && b.3 < a.3
        }),
{
}

/// A patch that could not be applied is taken back: `git am --abort` is the
/// next thing that a sequential merge asks of the target, and a source whose
/// patch could not be applied is never counted as merged.
pub proof fn law_failed_apply_is_aborted(s: MergeState, reply: Result<Output, Seq<char>>)
    requires
        merge_ok(s),
        s.stage == StageView::Sequential(SequentialStageView::Applying),
        reply is Ok && reply->Ok_0.code != 0,
    ensures
        ({
            let (t, action) = merge_step(s, reply);
            &&& action == ActionView::Run(
                RequestView::Exec {
                    workspace: s.target,
                    command: git_in(s.path, " am --abort"@),
                    timeout_secs: 10,
                },
            )
            &&& forall|next: Result<Output, Seq<char>>|
                (#[trigger] merge_step(t, next)).0.results == s.results.push(
                    ResultView {
                        source_id: s.sources[s.results.len() as int].0,
                        success: false,
                        error: Some("git am failed: "@ + trim(complaint(reply->Ok_0))),
                        commits: 0,
                    },
                )
        }),
{
}

} // verus!
