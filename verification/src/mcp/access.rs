//! Who may do what: the checks that stand before every tool on a workspace.
//!
//! A workspace is named by its UUID or by its name; `named` is the workspace of
//! that name, if there is one. A session may touch only what it owns.

use crate::mcp::auth::{
    not_owned_text, require_ownership, AuthErrorView, AuthManager, SessionView,
};
use crate::mcp::error::{answer, ErrorKind, ToolError};
use crate::mcp::git_tools::{str_or, text_or};
use crate::mcp::merge::{
    merge_ok, sources_view, strategy_named, GitMergeParams, Merge, MergeState, Source, StageView,
    Strategy,
};
use crate::mcp::rate_limit::{draws, too_soon, RateLimiter, Slot};
use crate::mcp::tools::{
    debug_chars, is_snapshot_name, odd_chars, odd_snapshot_name, resolve_workspace_id,
    uuid_value, validate_snapshot_name,
};
use crate::mcp::workspace_tools::{
    call_name, check_snapshot_call, exec_background, job_answer, parse_snapshot_call,
    snapshot_call, snapshot_problem, ExecBackgroundParams, JobCall, SnapshotCall, SnapshotParams,
    WorkspaceForkParams,
};
use crate::text::{opt_text, owned, texts};
use vstd::prelude::*;

verus! {

/// The workspace that an identifier names.
pub open spec fn resolution(id_or_name: Seq<char>, named: Option<u128>) -> Result<
    u128,
    (ErrorKind, Seq<char>),
> {
    match (uuid_value(id_or_name), named) {
        (Some(id), _) => Ok(id),
        (None, Some(id)) => Ok(id),
        (None, None) => Err(
            (
                ErrorKind::InvalidRequest,
                "workspace '"@ + id_or_name
                    + "' not found: not a valid UUID and no workspace with that name exists. Use workspace_list to see available workspaces and their IDs/names."@,
            ),
        ),
    }
}

/// The workspace that a session may touch under an identifier: one that exists
/// and that the session owns.
pub open spec fn admission(
    id_or_name: Seq<char>,
    named: Option<u128>,
    m: Map<Seq<char>, SessionView>,
    session: Seq<char>,
) -> Result<u128, (ErrorKind, Seq<char>)> {
    match resolution(id_or_name, named) {
        Err(e) => Err(e),
        Ok(id) => if !m.dom().contains(session) {
            Err(
                (
                    ErrorKind::InvalidRequest,
                    not_owned_text(id, AuthErrorView::UnknownSession(session)),
                ),
            )
        } else if !m[session].workspaces.contains(id) {
            Err(
                (
                    ErrorKind::InvalidRequest,
                    not_owned_text(
                        id,
                        AuthErrorView::NotOwner { session_id: session, workspace_id: id },
                    ),
                ),
            )
        } else {
            Ok(id)
        },
    }
}

/// Find the workspace that a tool is called on, and check that the session owns
/// it.
pub fn reach(id_or_name: &str, named: Option<u128>, auth: &AuthManager, session: &str) -> (r:
    Result<u128, ToolError>)
    requires
        auth.wf(),
    ensures
        answer(r) == admission(id_or_name@, named, auth@, session@),
{
    match resolve_workspace_id(id_or_name, named) {
        Err(e) => Err(e),
        Ok(id) => match require_ownership(auth, session, id) {
            Err(e) => Err(e),
            Ok(()) => Ok(id),
        },
    }
}

/// Begin a call that draws on the default rate limit and names no workspace of
/// its own.
pub fn call_start(limiter: &mut RateLimiter, now: u64) -> (r: Result<(), ToolError>)
    requires
        old(limiter).wf(),
    ensures
        final(limiter).wf(),
        draws(*old(limiter), *final(limiter), Slot::Default, now),
        match too_soon(*old(limiter), Slot::Default, now) {
            Some(e) => r is Err && r->Err_0@ == e,
            None => r is Ok,
        },
{
    limiter.draw(Slot::Default, now)
}

/// Begin a call of a tool on a workspace that is neither created nor used to
/// run a command: the default rate limit first, then the workspace.
pub fn tool_start(
    id_or_name: &str,
    named: Option<u128>,
    auth: &AuthManager,
    session: &str,
    limiter: &mut RateLimiter,
    now: u64,
) -> (r: Result<u128, ToolError>)
    requires
        auth.wf(),
        old(limiter).wf(),
    ensures
        final(limiter).wf(),
        draws(*old(limiter), *final(limiter), Slot::Default, now),
        answer(r) == match too_soon(*old(limiter), Slot::Default, now) {
            Some(e) => Err(e),
            None => admission(id_or_name@, named, auth@, session@),
        },
{
    match limiter.draw(Slot::Default, now) {
        Err(e) => Err(e),
        Ok(()) => reach(id_or_name, named, auth, session),
    }
}

/// Begin a call of `workspace_adopt` on one workspace, which the session does
/// not own yet: the default rate limit first, then the workspace.
pub fn adopt_start(id_or_name: &str, named: Option<u128>, limiter: &mut RateLimiter, now: u64) -> (r:
    Result<u128, ToolError>)
    requires
        old(limiter).wf(),
    ensures
        final(limiter).wf(),
        draws(*old(limiter), *final(limiter), Slot::Default, now),
        answer(r) == match too_soon(*old(limiter), Slot::Default, now) {
            Some(e) => Err(e),
            None => resolution(id_or_name@, named),
        },
{
    match limiter.draw(Slot::Default, now) {
        Err(e) => Err(e),
        Ok(()) => resolve_workspace_id(id_or_name, named),
    }
}

/// Begin a call of `exec`: the rate limit first, then the workspace.
pub fn exec_start(
    id_or_name: &str,
    named: Option<u128>,
    auth: &AuthManager,
    session: &str,
    limiter: &mut RateLimiter,
    now: u64,
) -> (r: Result<u128, ToolError>)
    requires
        auth.wf(),
        old(limiter).wf(),
    ensures
        final(limiter).wf(),
        draws(*old(limiter), *final(limiter), Slot::Exec, now),
        answer(r) == match too_soon(*old(limiter), Slot::Exec, now) {
            Some(e) => Err(e),
            None => admission(id_or_name@, named, auth@, session@),
        },
{
    match limiter.draw(Slot::Exec, now) {
        Err(e) => Err(e),
        Ok(()) => reach(id_or_name, named, auth, session),
    }
}

/// Begin a call of `exec_background`: the workspace first, then the action.
pub fn exec_background_start(
    id_or_name: &str,
    named: Option<u128>,
    params: ExecBackgroundParams,
    auth: &AuthManager,
    session: &str,
    limiter: &mut RateLimiter,
    now: u64,
) -> (r: Result<(u128, JobCall), ToolError>)
    requires
        auth.wf(),
        old(limiter).wf(),
    ensures
        final(limiter).wf(),
        match admission(id_or_name@, named, auth@, session@) {
            Err(e) => answer(r) == Err::<(u128, JobCall), (ErrorKind, Seq<char>)>(e)
                && *final(limiter) == *old(limiter),
            Ok(id) => {
                &&& draws(*old(limiter), *final(limiter), Slot::Exec, now)
                &&& answer(r) == match job_answer(params, *old(limiter), now) {
                    Ok(call) => Ok((id, call)),
                    Err(e) => Err(e),
                }
            },
        },
{
    match reach(id_or_name, named, auth, session) {
        Err(e) => Err(e),
        Ok(id) => match exec_background(params, limiter, now) {
            Err(e) => Err(e),
            Ok(call) => Ok((id, call)),
        },
    }
}

/// Why a snapshot name is refused, if it is.
pub open spec fn name_problem(name: Seq<char>) -> Option<(ErrorKind, Seq<char>)> {
    if is_snapshot_name(name) {
        None
    } else if name.len() == 0 {
        Some((ErrorKind::InvalidParams, "snapshot name must not be empty"@))
    } else {
        Some(
            (
                ErrorKind::InvalidParams,
                odd_snapshot_name(name, debug_chars(odd_chars(name))),
            ),
        )
    }
}

/// Begin a call of the snapshot tool: the default rate limit, then the
/// parameters, then the workspace, then the snapshot name.
pub fn snapshot_start(
    params: SnapshotParams,
    named: Option<u128>,
    auth: &AuthManager,
    session: &str,
    limiter: &mut RateLimiter,
    now: u64,
) -> (r: Result<(u128, SnapshotCall), ToolError>)
    requires
        auth.wf(),
        old(limiter).wf(),
    ensures
        final(limiter).wf(),
        draws(*old(limiter), *final(limiter), Slot::Default, now),
        answer(r) == if too_soon(*old(limiter), Slot::Default, now) is Some {
            Err(too_soon(*old(limiter), Slot::Default, now)->0)
        } else if snapshot_problem(params) is Some {
            Err((ErrorKind::InvalidParams, snapshot_problem(params)->0))
        } else {
            match admission(params.workspace_id@, named, auth@, session@) {
                Err(e) => Err(e),
                Ok(id) => {
                    let call = snapshot_call(params);
                    let refusal = match call_name(call) {
                        Some(name) => name_problem(name),
                        None => None,
                    };
                    match refusal {
                        Some(e) => Err(e),
                        None => Ok((id, call)),
                    }
                },
            }
        },
{
    match limiter.draw(Slot::Default, now) {
        Err(e) => {
            return Err(e);
        },
        Ok(()) => {},
    }
    let id_or_name: String = owned(params.workspace_id.as_str());
    match parse_snapshot_call(params) {
        Err(e) => Err(e),
        Ok(call) => match reach(id_or_name.as_str(), named, auth, session) {
            Err(e) => Err(e),
            Ok(id) => match check_snapshot_call(&call) {
                Err(e) => Err(e),
                Ok(()) => Ok((id, call)),
            },
        },
    }
}

/// Begin a call of `workspace_fork`: the rate limit, then the source workspace,
/// then the snapshot name.
pub fn fork_start(
    params: &WorkspaceForkParams,
    named: Option<u128>,
    auth: &AuthManager,
    session: &str,
    limiter: &mut RateLimiter,
    now: u64,
) -> (r: Result<u128, ToolError>)
    requires
        auth.wf(),
        old(limiter).wf(),
    ensures
        final(limiter).wf(),
        draws(*old(limiter), *final(limiter), Slot::Create, now),
        answer(r) == match too_soon(*old(limiter), Slot::Create, now) {
            Some(e) => Err(e),
            None => match admission(params.workspace_id@, named, auth@, session@) {
                Err(e) => Err(e),
                Ok(id) => match name_problem(params.snapshot_name@) {
                    Some(e) => Err(e),
                    None => Ok(id),
                },
            },
        },
{
    match limiter.draw(Slot::Create, now) {
        Err(e) => Err(e),
        Ok(()) => match reach(params.workspace_id.as_str(), named, auth, session) {
            Err(e) => Err(e),
            Ok(id) => match validate_snapshot_name(params.snapshot_name.as_str()) {
                Err(e) => Err(e),
                Ok(()) => Ok(id),
            },
        },
    }
}

/// The sources of a merge, as far as the first `n` are admitted: the first
/// refusal ends the call.
pub open spec fn admitted(
    ids: Seq<Seq<char>>,
    named: Seq<Option<u128>>,
    m: Map<Seq<char>, SessionView>,
    session: Seq<char>,
    n: int,
) -> Result<Seq<(Seq<char>, u128)>, (ErrorKind, Seq<char>)>
    decreases n,
{
    if n <= 0 {
        Ok(seq![])
    } else {
        match admitted(ids, named, m, session, n - 1) {
            Err(e) => Err(e),
            Ok(before) => match admission(ids[n - 1], named[n - 1], m, session) {
                Err(e) => Err(e),
                Ok(id) => Ok(before.push((ids[n - 1], id))),
            },
        }
    }
}

/// Why a merge is refused by its parameters, if it is.
pub open spec fn merge_problem(p: GitMergeParams) -> Option<(ErrorKind, Seq<char>)> {
    if strategy_named(p.strategy@) is None {
        Some(
            (
                ErrorKind::InvalidParams,
                "invalid merge strategy '"@ + p.strategy@
                    + "'. Must be one of: sequential, branch-per-source, cherry-pick"@,
            ),
        )
    } else if p.source_workspaces@.len() == 0 {
        Some(
            (
                ErrorKind::InvalidParams,
                "source_workspaces must contain at least one workspace ID"@,
            ),
        )
    } else {
        None
    }
}

/// Find the sources of a merge.
fn reach_sources(
    ids: &Vec<String>,
    named: &Vec<Option<u128>>,
    auth: &AuthManager,
    session: &str,
) -> (r: Result<Vec<Source>, ToolError>)
    requires
        auth.wf(),
        named@.len() == ids@.len(),
    ensures
        match admitted(texts(ids@), named@, auth@, session@, ids@.len() as int) {
            Err(e) => r is Err && r->Err_0@ == e,
            Ok(s) => r is Ok && sources_view(r->Ok_0@) == s,
        },
{
    let mut out: Vec<Source> = Vec::new();
    let mut i: usize = 0;
    let ghost all = texts(ids@);
    proof {
        assert(sources_view(out@) =~= seq![]);
    }
    while i < ids.len()
        invariant
            i <= ids@.len(),
            auth.wf(),
            named@.len() == ids@.len(),
            all == texts(ids@),
            admitted(all, named@, auth@, session@, i as int) == Ok::<
                Seq<(Seq<char>, u128)>,
                (ErrorKind, Seq<char>),
            >(sources_view(out@)),
        decreases ids.len() - i,
    {
        match reach(ids[i].as_str(), named[i], auth, session) {
            Err(e) => {
                proof {
                    lemma_refusal_stays(
                        all,
                        named@,
                        auth@,
                        session@,
                        i + 1,
                        ids@.len() as int,
                        e@,
                    );
                }
                return Err(e);
            },
            Ok(id) => {
                let s: Source = Source { label: owned(ids[i].as_str()), id };
                proof {
                    assert(sources_view(out@.push(s)) =~= sources_view(out@).push(
                        (s.label@, s.id),
                    ));
                }
                out.push(s);
            },
        }
        i = i + 1;
    }
    Ok(out)
}

/// A refusal ends the call.
proof fn lemma_refusal_stays(
    ids: Seq<Seq<char>>,
    named: Seq<Option<u128>>,
    m: Map<Seq<char>, SessionView>,
    session: Seq<char>,
    k: int,
    n: int,
    e: (ErrorKind, Seq<char>),
)
    requires
        k <= n,
        admitted(ids, named, m, session, k) == Err::<
            Seq<(Seq<char>, u128)>,
            (ErrorKind, Seq<char>),
        >(e),
    ensures
        admitted(ids, named, m, session, n) == Err::<
            Seq<(Seq<char>, u128)>,
            (ErrorKind, Seq<char>),
        >(e),
    decreases n - k,
{
    if k < n {
        assert(k + 1 > 0) by {
            if k <= 0 {
                assert(admitted(ids, named, m, session, k) is Ok);
            }
        }
        assert(admitted(ids, named, m, session, k + 1) == Err::<
            Seq<(Seq<char>, u128)>,
            (ErrorKind, Seq<char>),
        >(e));
        lemma_refusal_stays(ids, named, m, session, k + 1, n, e);
    }
}

/// Begin a call of `workspace_merge`: the default rate limit, then the
/// parameters, then the target, then the sources in order. `named` holds the
/// workspaces of the sources' names.
pub fn merge_start(
    params: GitMergeParams,
    target_named: Option<u128>,
    named: &Vec<Option<u128>>,
    auth: &AuthManager,
    session: &str,
    limiter: &mut RateLimiter,
    now: u64,
) -> (r: Result<Merge, ToolError>)
    requires
        auth.wf(),
        old(limiter).wf(),
        named@.len() == params.source_workspaces@.len(),
    ensures
        final(limiter).wf(),
        draws(*old(limiter), *final(limiter), Slot::Default, now),
        match (too_soon(*old(limiter), Slot::Default, now), merge_problem(params)) {
            (Some(e), _) => r is Err && r->Err_0@ == e,
            (None, Some(e)) => r is Err && r->Err_0@ == e,
            (None, None) => match admission(params.target_workspace@, target_named, auth@, session@) {
                Err(e) => r is Err && r->Err_0@ == e,
                Ok(target) => match admitted(
                    texts(params.source_workspaces@),
                    named@,
                    auth@,
                    session@,
                    named@.len() as int,
                ) {
                    Err(e) => r is Err && r->Err_0@ == e,
                    Ok(sources) => {
                        &&& r is Ok
                        &&& merge_ok(r->Ok_0@)
                        &&& r->Ok_0@ == (MergeState {
                            strategy: strategy_named(params.strategy@)->0,
                            sources,
                            target,
                            path: text_or(params.path, "/workspace"@),
                            message: opt_text(params.commit_message),
                            main: seq![],
                            results: seq![],
                            stage: StageView::Idle,
                        })
                    },
                },
            },
        },
{
    match limiter.draw(Slot::Default, now) {
        Err(e) => {
            return Err(e);
        },
        Ok(()) => {},
    }
    let strategy: Strategy = match params.check() {
        Ok(s) => s,
        Err(e) => {
            return Err(e);
        },
    };
    let target: u128 = match reach(params.target_workspace.as_str(), target_named, auth, session) {
        Ok(id) => id,
        Err(e) => {
            return Err(e);
        },
    };
    let sources: Vec<Source> = match reach_sources(
        &params.source_workspaces,
        named,
        auth,
        session,
    ) {
        Ok(s) => s,
        Err(e) => {
            return Err(e);
        },
    };
    let path: String = owned(str_or(&params.path, "/workspace"));
    Ok(Merge::new(strategy, sources, target, path, params.commit_message))
}

// ---------------------------------------------------------------------------
// Laws
// ---------------------------------------------------------------------------

/// A call draws on its own bucket only, so that calls of one category never hold
/// up those of another.
pub proof fn law_limits_are_separate(
    before: RateLimiter,
    after: RateLimiter,
    slot: Slot,
    other: Slot,
    now: u64,
)
    requires
        draws(before, after, slot, now),
        other != slot,
    ensures
        too_soon(after, other, now) == too_soon(before, other, now),
{
}

/// No tool reaches a workspace that the session does not own.
pub proof fn law_admitted_means_owned(
    id_or_name: Seq<char>,
    named: Option<u128>,
    m: Map<Seq<char>, SessionView>,
    session: Seq<char>,
)
    ensures
        admission(id_or_name, named, m, session) matches Ok(id) ==> m.dom().contains(session)
            && m[session].workspaces.contains(id),
{
}

/// A merge touches only workspaces that the session owns.
pub proof fn law_merge_sources_are_owned(
    ids: Seq<Seq<char>>,
    named: Seq<Option<u128>>,
    m: Map<Seq<char>, SessionView>,
    session: Seq<char>,
    n: int,
)
    requires
        0 <= n,
    ensures
        admitted(ids, named, m, session, n) matches Ok(sources) ==> {
            &&& sources.len() == n
            &&& forall|i: int|
                0 <= i < n ==> (#[trigger] sources[i]).0 == ids[i] && m.dom().contains(session)
                    && m[session].workspaces.contains(sources[i].1)
        },
    decreases n,
{
    if n > 0 {
        law_merge_sources_are_owned(ids, named, m, session, n - 1);
    }
}

} // verus!
