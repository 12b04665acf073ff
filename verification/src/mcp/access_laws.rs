//! Who reaches what: ownership, quotas and rate limits from call to result.

use crate::mcp::access::{
    adopt_start, call_start, exec_background_start, exec_start, fork_start, merge_start, reach,
    snapshot_start, tool_start,
};
use crate::mcp::auth::{
    countable, disk_of, memory_of, persisted_view, require_ownership, surviving, AuthError,
    AuthManager, PersistedSession, SessionQuota, SessionUsage, SessionView,
};
use crate::mcp::error::{ErrorKind, ToolError};
use crate::mcp::merge::{GitMergeParams, Merge, Strategy};
use crate::mcp::rate_limit::{admits, RateLimiter, Slot, TokenBucket};
use crate::mcp::tools::{uuid_form, uuid_value};
use crate::mcp::workspace_tools::{
    ExecBackgroundParams, JobCall, SnapshotCall, SnapshotParams, WorkspaceForkParams,
};
use crate::number::decimal;
use crate::text::texts;
use std::collections::HashMap;
use vstd::prelude::*;

verus! {

/// A session owns a workspace.
pub open spec fn owns(auth: &AuthManager, session: Seq<char>, workspace: u128) -> bool {
    auth@.dom().contains(session) && auth@[session].workspaces.contains(workspace)
}

/// The workspace that is meant: the one with this identifier, else the one
/// with this name.
pub open spec fn meant(id_or_name: Seq<char>, named: Option<u128>) -> Option<u128> {
    if uuid_value(id_or_name) is Some {
        uuid_value(id_or_name)
    } else {
        named
    }
}

/// A session reaches a workspace exactly if there is one under the identifier
/// or the name and the session owns it; an identifier goes before a name.
pub proof fn law_owners_reach_their_workspaces(
    id_or_name: &str,
    named: Option<u128>,
    auth: &AuthManager,
    session: &str,
    r: Result<u128, ToolError>,
)
    requires
        call_ensures(reach, (id_or_name, named, auth, session), r),
    ensures
        match meant(id_or_name@, named) {
            Some(id) => r is Ok <==> owns(auth, session@, id),
            None => r is Err,
        },
        r matches Ok(id) ==> meant(id_or_name@, named) == Some(id),
        r matches Err(e) ==> e.kind == ErrorKind::InvalidRequest,
{
}

/// The call is refused because it comes too soon.
pub open spec fn refused(limiter: RateLimiter, slot: Slot, now: u64) -> bool {
    limiter.limits() && !admits(limiter.bucket(slot), now)
}

/// Of the buckets, only one may have changed.
pub open spec fn only(before: RateLimiter, after: RateLimiter, slot: Slot) -> bool {
    &&& after.limits() == before.limits()
    &&& forall|other: Slot| other != slot ==> #[trigger] after.bucket(other) == before.bucket(other)
    &&& !before.limits() ==> after.bucket(slot) == before.bucket(slot)
}

/// Running a command draws on the limit for executions, and is then a matter of
/// ownership alone.
pub proof fn law_exec_draws_on_executions(
    id_or_name: &str,
    named: Option<u128>,
    auth: &AuthManager,
    session: &str,
    limiter: &mut RateLimiter,
    now: u64,
    r: Result<u128, ToolError>,
)
    requires
        call_ensures(exec_start, (id_or_name, named, auth, session, limiter, now), r),
    ensures
        only(*old(limiter), *final(limiter), Slot::Exec),
        r is Ok <==> !refused(*old(limiter), Slot::Exec, now) && meant(id_or_name@, named) is Some
            && owns(auth, session@, meant(id_or_name@, named)->0),
        r matches Ok(id) ==> meant(id_or_name@, named) == Some(id),
{
}

/// A background command draws on the limit for executions too, but only for a
/// workspace that the session owns.
pub proof fn law_background_exec_draws_on_executions(
    id_or_name: &str,
    named: Option<u128>,
    params: ExecBackgroundParams,
    auth: &AuthManager,
    session: &str,
    limiter: &mut RateLimiter,
    now: u64,
    r: Result<(u128, JobCall), ToolError>,
)
    requires
        call_ensures(
            exec_background_start,
            (id_or_name, named, params, auth, session, limiter, now),
            r,
        ),
    ensures
        only(*old(limiter), *final(limiter), Slot::Exec),
        r matches Ok(call) ==> !refused(*old(limiter), Slot::Exec, now) && meant(id_or_name@, named)
            == Some(call.0) && owns(auth, session@, call.0),
        meant(id_or_name@, named) is None || !owns(auth, session@, meant(id_or_name@, named)->0)
            ==> r is Err && *final(limiter) == *old(limiter),
{
}

/// Any other tool on a workspace draws on the default limit, and is then a
/// matter of ownership alone; adopting a workspace asks for no ownership.
pub proof fn law_tools_draw_on_the_default(
    id_or_name: &str,
    named: Option<u128>,
    auth: &AuthManager,
    session: &str,
    limiter: &mut RateLimiter,
    adopting: &mut RateLimiter,
    calling: &mut RateLimiter,
    now: u64,
    r: Result<u128, ToolError>,
    adopted: Result<u128, ToolError>,
    called: Result<(), ToolError>,
)
    requires
        call_ensures(tool_start, (id_or_name, named, auth, session, limiter, now), r),
        call_ensures(adopt_start, (id_or_name, named, adopting, now), adopted),
        call_ensures(call_start, (calling, now), called),
    ensures
        only(*old(limiter), *final(limiter), Slot::Default),
        r is Ok <==> !refused(*old(limiter), Slot::Default, now) && meant(id_or_name@, named)
            is Some && owns(auth, session@, meant(id_or_name@, named)->0),
        r matches Ok(id) ==> meant(id_or_name@, named) == Some(id),
        only(*old(adopting), *final(adopting), Slot::Default),
        adopted is Ok <==> !refused(*old(adopting), Slot::Default, now) && meant(
            id_or_name@,
            named,
        ) is Some,
        adopted matches Ok(id) ==> meant(id_or_name@, named) == Some(id),
        only(*old(calling), *final(calling), Slot::Default),
        called is Ok <==> !refused(*old(calling), Slot::Default, now),
{
}

/// Snapshots draw on the default limit, and are made, restored and deleted only
/// in workspaces that the session owns.
pub proof fn law_snapshots_are_for_owners(
    params: SnapshotParams,
    named: Option<u128>,
    auth: &AuthManager,
    session: &str,
    limiter: &mut RateLimiter,
    now: u64,
    r: Result<(u128, SnapshotCall), ToolError>,
)
    requires
        call_ensures(snapshot_start, (params, named, auth, session, limiter, now), r),
    ensures
        only(*old(limiter), *final(limiter), Slot::Default),
        r matches Ok(call) ==> !refused(*old(limiter), Slot::Default, now) && meant(
            params.workspace_id@,
            named,
        ) == Some(call.0) && owns(auth, session@, call.0),
{
}

/// Forking draws on the limit for creations. It asks for a workspace that the
/// session owns and for a snapshot name of letters, digits, hyphens,
/// underscores and dots.
pub proof fn law_forks_draw_on_creations(
    params: &WorkspaceForkParams,
    named: Option<u128>,
    auth: &AuthManager,
    session: &str,
    limiter: &mut RateLimiter,
    now: u64,
    r: Result<u128, ToolError>,
)
    requires
        call_ensures(fork_start, (params, named, auth, session, limiter, now), r),
    ensures
        only(*old(limiter), *final(limiter), Slot::Create),
        r matches Ok(id) ==> !refused(*old(limiter), Slot::Create, now) && meant(
            params.workspace_id@,
            named,
        ) == Some(id) && owns(auth, session@, id),
        !refused(*old(limiter), Slot::Create, now) && meant(params.workspace_id@, named) is Some
            && owns(auth, session@, meant(params.workspace_id@, named)->0)
            && crate::mcp::tools::is_snapshot_name(params.snapshot_name@) ==> r is Ok,
        !crate::mcp::tools::is_snapshot_name(params.snapshot_name@) ==> r is Err,
{
}

/// A merge draws on the default limit. Its target and all its sources are
/// workspaces that the session owns, and the sources are taken in the order in
/// which they are named.
#[verifier::rlimit(40)]
pub proof fn law_merges_are_for_owners(
    params: GitMergeParams,
    target_named: Option<u128>,
    named: &Vec<Option<u128>>,
    auth: &AuthManager,
    session: &str,
    limiter: &mut RateLimiter,
    now: u64,
    r: Result<Merge, ToolError>,
)
    requires
        call_ensures(
            merge_start,
            (params, target_named, named, auth, session, limiter, now),
            r,
        ),
        named@.len() == params.source_workspaces@.len(),
    ensures
        only(*old(limiter), *final(limiter), Slot::Default),
        r matches Ok(merge) ==> {
            let s = merge@;
            &&& !refused(*old(limiter), Slot::Default, now)
            &&& meant(params.target_workspace@, target_named) == Some(s.target)
            &&& owns(auth, session@, s.target)
            &&& s.sources.len() == params.source_workspaces@.len()
            &&& s.sources.len() > 0
            &&& forall|i: int|
                0 <= i < s.sources.len() ==> (#[trigger] s.sources[i]).0
                    == params.source_workspaces@[i]@ && meant(
                    params.source_workspaces@[i]@,
                    named@[i],
                ) == Some(s.sources[i].1) && owns(auth, session@, s.sources[i].1)
            &&& s.results.len() == 0
            &&& match s.strategy {
                Strategy::Sequential => params.strategy@ == "sequential"@,
                Strategy::BranchPerSource => params.strategy@ == "branch-per-source"@,
                Strategy::CherryPick => params.strategy@ == "cherry-pick"@,
            }
            &&& s.path == match params.path {
                Some(p) => p@,
                None => "/workspace"@,
            }
        },
{
    if r is Ok {
        lemma_sources(
            texts(params.source_workspaces@),
            named@,
            auth,
            session@,
            named@.len() as int,
        );
        assert(forall|i: int|
            0 <= i < params.source_workspaces@.len() ==> texts(params.source_workspaces@)[i]
                == #[trigger] params.source_workspaces@[i]@);
    }
}

/// The sources of a merge are those that are meant.
proof fn lemma_sources(
    ids: Seq<Seq<char>>,
    named: Seq<Option<u128>>,
    auth: &AuthManager,
    session: Seq<char>,
    n: int,
)
    requires
        0 <= n,
    ensures
        crate::mcp::access::admitted(ids, named, auth@, session, n) matches Ok(sources) ==> {
            &&& sources.len() == n
            &&& forall|i: int|
                0 <= i < n ==> (#[trigger] sources[i]).0 == ids[i] && meant(ids[i], named[i])
                    == Some(sources[i].1) && owns(auth, session, sources[i].1)
        },
    decreases n,
{
    if n > 0 {
        lemma_sources(ids, named, auth, session, n - 1);
    }
}

// ---------------------------------------------------------------------------
// Rate limits
// ---------------------------------------------------------------------------

/// A token is refilled in a minute's share: a bucket that was used up admits a
/// call exactly if `per_minute` times the nanoseconds since make a minute.
pub proof fn law_rate_is_per_minute(b: TokenBucket, now: u64)
    requires
        b.level == 0,
        b.burst >= 1,
        now >= b.last_refill,
    ensures
        admits(b, now) <==> (now - b.last_refill) * b.per_minute >= 60_000_000_000,
{
    assert(b.burst * 60_000_000_000 >= 60_000_000_000) by (nonlinear_arith)
        requires
            b.burst >= 1,
    ;
}

/// Each category has its own limit, and a call in a category draws on it alone;
/// any other call draws on the default limit. Without limits, nothing is
/// refused.
pub proof fn law_categories_have_their_own_limits(
    limiter: &mut RateLimiter,
    category: &str,
    now: u64,
    r: Result<(), String>,
)
    requires
        call_ensures(RateLimiter::check, (limiter, category, now), r),
    ensures
        ({
            let slot = if category@ == "create"@ {
                Slot::Create
            } else if category@ == "exec"@ {
                Slot::Exec
            } else if category@ == "team_message"@ {
                Slot::TeamMessage
            } else {
                Slot::Default
            };
            &&& only(*old(limiter), *final(limiter), slot)
            &&& r is Err <==> refused(*old(limiter), slot, now)
        }),
{
}

/// A new limiter lets each category burst: 3 creations, 10 executions, 20 other
/// calls and 50 team messages at once, and then refills at the configured rate.
pub proof fn law_new_limiter_lets_categories_burst(
    config: &crate::config::RateLimitConfig,
    now: u64,
    l: RateLimiter,
)
    requires
        call_ensures(RateLimiter::new, (config, now), l),
    ensures
        l.limits() == config.enabled,
        l.bucket(Slot::Create).level == 3 * 60_000_000_000,
        l.bucket(Slot::Exec).level == 10 * 60_000_000_000,
        l.bucket(Slot::Default).level == 20 * 60_000_000_000,
        l.bucket(Slot::TeamMessage).level == 50 * 60_000_000_000,
        l.bucket(Slot::Create).per_minute == config.create_per_minute,
        l.bucket(Slot::Exec).per_minute == config.exec_per_minute,
        l.bucket(Slot::Default).per_minute == config.default_per_minute,
        l.bucket(Slot::TeamMessage).per_minute == config.team_message_per_minute,
        forall|slot: Slot|
            (#[trigger] l.bucket(slot)).last_refill == now && l.bucket(slot).level
                == l.bucket(slot).burst * 60_000_000_000,
{
    assert forall|slot: Slot|
        (#[trigger] l.bucket(slot)).last_refill == now && l.bucket(slot).level == l.bucket(
            slot,
        ).burst * 60_000_000_000 by {
        match slot {
            Slot::Create => {},
            Slot::Exec => {},
            Slot::Default => {},
            Slot::TeamMessage => {},
        }
    }
}

// ---------------------------------------------------------------------------
// Sessions
// ---------------------------------------------------------------------------

/// A session has room for a workspace.
pub open spec fn has_room(s: SessionView, memory_mb: u64, disk_gb: u64) -> bool {
    &&& s.usage.workspace_count + 1 <= s.quota.max_workspaces
    &&& s.usage.memory_mb + memory_mb <= s.quota.max_memory_mb
    &&& s.usage.disk_gb + disk_gb <= s.quota.max_disk_gb
}

/// The usage of a session with a workspace more.
pub open spec fn uses_more(before: SessionUsage, after: SessionUsage, memory_mb: u64, disk_gb: u64) -> bool {
    &&& after.workspace_count == before.workspace_count + 1
    &&& after.memory_mb == before.memory_mb + memory_mb
    &&& after.disk_gb == before.disk_gb + disk_gb
}

/// Registering a workspace succeeds exactly if the session is known and has
/// room for it. The session then owns it and uses its resources; nothing else
/// changes. Otherwise nothing changes at all.
pub proof fn law_registering_asks_for_room(
    auth: &mut AuthManager,
    session: &str,
    workspace: u128,
    memory_mb: u64,
    disk_gb: u64,
    r: Result<(), AuthError>,
)
    requires
        call_ensures(
            AuthManager::register_workspace,
            (auth, session, workspace, memory_mb, disk_gb),
            r,
        ),
    ensures
        ({
            let before = old(auth)@;
            let after = final(auth)@;
            &&& r is Ok <==> before.dom().contains(session@) && has_room(
                before[session@],
                memory_mb,
                disk_gb,
            )
            &&& r is Err ==> after == before
            &&& r is Ok ==> {
                &&& after.dom() == before.dom()
                &&& after[session@].workspaces == before[session@].workspaces.insert(workspace)
                &&& uses_more(before[session@].usage, after[session@].usage, memory_mb, disk_gb)
                &&& after[session@].quota == before[session@].quota
                &&& forall|other: Seq<char>|
                    other != session@ && before.dom().contains(other) ==> #[trigger] after[other]
                        == before[other]
            }
        }),
{
    if r is Ok {
        assert(final(auth)@.dom() =~= old(auth)@.dom());
    }
}

/// Taking a workspace from its owner gives its resources back; a workspace that
/// the session does not own changes nothing.
pub proof fn law_unregistering_gives_resources_back(
    auth: &mut AuthManager,
    session: &str,
    workspace: u128,
    memory_mb: u64,
    disk_gb: u64,
    r: Result<(), AuthError>,
)
    requires
        call_ensures(
            AuthManager::unregister_workspace,
            (auth, session, workspace, memory_mb, disk_gb),
            r,
        ),
    ensures
        ({
            let before = old(auth)@;
            let after = final(auth)@;
            &&& r is Ok <==> before.dom().contains(session@)
            &&& !owns(old(auth), session@, workspace) ==> after == before
            &&& owns(old(auth), session@, workspace) ==> {
                &&& after.dom() == before.dom()
                &&& after[session@].workspaces == before[session@].workspaces.remove(workspace)
                &&& before[session@].usage.workspace_count >= 1 && before[session@].usage.memory_mb
                    >= memory_mb && before[session@].usage.disk_gb >= disk_gb ==> uses_more(
                    after[session@].usage,
                    before[session@].usage,
                    memory_mb,
                    disk_gb,
                )
                &&& forall|other: Seq<char>|
                    other != session@ && before.dom().contains(other) ==> #[trigger] after[other]
                        == before[other]
            }
        }),
{
    if owns(old(auth), session@, workspace) {
        assert(final(auth)@.dom() =~= old(auth)@.dom());
    }
}

/// A quota check tells whether registering would succeed, and names the first
/// resource that lacks room, with its limit and what is used.
pub proof fn law_quota_check_foretells_registering(
    auth: &AuthManager,
    session: &str,
    memory_mb: u64,
    disk_gb: u64,
    r: Result<(), AuthError>,
)
    requires
        call_ensures(AuthManager::check_quota, (auth, session, memory_mb, disk_gb), r),
    ensures
        r is Ok <==> auth@.dom().contains(session@) && has_room(
            auth@[session@],
            memory_mb,
            disk_gb,
        ),
        auth@.dom().contains(session@) ==> (r matches Err(e) ==> {
            let s = auth@[session@];
            &&& e@ is QuotaExceeded
            &&& e@->current + e@->requested > e@->limit
            &&& s.usage.workspace_count >= s.quota.max_workspaces ==> e@->resource == "workspaces"@
                && e@->limit == s.quota.max_workspaces && e@->requested == 1
            &&& s.usage.workspace_count < s.quota.max_workspaces && s.usage.memory_mb + memory_mb
                > s.quota.max_memory_mb ==> e@->resource == "memory_mb"@ && e@->limit
                == s.quota.max_memory_mb && e@->requested == memory_mb
            &&& s.usage.workspace_count < s.quota.max_workspaces && s.usage.memory_mb + memory_mb
                <= s.quota.max_memory_mb ==> e@->resource == "disk_gb"@ && e@->limit
                == s.quota.max_disk_gb && e@->requested == disk_gb
        }),
{
}

/// A session that is registered starts with nothing and the default quota;
/// registering it again changes nothing. Removing it hands out what it owned.
pub proof fn law_sessions_start_with_nothing(
    auth: &mut AuthManager,
    session: String,
    now: i128,
    r: String,
    leaving: &mut AuthManager,
    name: &str,
    owned: std::collections::HashSet<u128>,
)
    requires
        call_ensures(AuthManager::register_session, (auth, session, now), r),
        call_ensures(AuthManager::remove_session, (leaving, name), owned),
    ensures
        r@ == session@,
        final(auth)@.dom() == old(auth)@.dom().insert(session@),
        old(auth)@.dom().contains(session@) ==> final(auth)@ == old(auth)@,
        !old(auth)@.dom().contains(session@) ==> {
            let s = final(auth)@[session@];
            &&& s.workspaces == Set::<u128>::empty()
            &&& s.usage.workspace_count == 0 && s.usage.memory_mb == 0 && s.usage.disk_gb == 0
            &&& s.quota == old(auth).new_quota()
            &&& s.created_at == now
        },
        forall|other: Seq<char>|
            old(auth)@.dom().contains(other) ==> #[trigger] final(auth)@[other] == old(auth)@[other],
        final(leaving)@.dom() == old(leaving)@.dom().remove(name@),
        forall|w: u128| #[trigger] owned@.contains(w) <==> owns(old(leaving), name@, w),
        forall|other: Seq<char>|
            other != name@ && old(leaving)@.dom().contains(other) ==> #[trigger] final(leaving)@[other]
                == old(leaving)@[other],
{
    assert(final(auth)@.dom() =~= old(auth)@.dom().insert(session@));
    assert(final(leaving)@.dom() =~= old(leaving)@.dom().remove(name@));
}

/// A workspace is an orphan exactly if no session owns it, and the orphans of a
/// list are those of its workspaces, in order.
pub proof fn law_orphans_have_no_owner(
    auth: &AuthManager,
    workspace: &u128,
    orphaned: bool,
    candidates: &[u128],
    orphans: Vec<u128>,
)
    requires
        call_ensures(AuthManager::is_workspace_orphaned, (auth, workspace), orphaned),
        call_ensures(AuthManager::list_orphaned_workspaces, (auth, candidates), orphans),
    ensures
        orphaned <==> forall|session: Seq<char>| !#[trigger] owns(auth, session, *workspace),
        forall|w: u128| #[trigger]
            orphans@.contains(w) <==> candidates@.contains(w) && forall|session: Seq<char>|
                !#[trigger] owns(auth, session, w),
{
    assert(crate::mcp::auth::is_owned(auth@, *workspace) <==> exists|session: Seq<char>| #[trigger]
        owns(auth, session, *workspace)) by {
        if crate::mcp::auth::is_owned(auth@, *workspace) {
            let id = choose|id: Seq<char>|
                #[trigger] auth@.dom().contains(id) && auth@[id].workspaces.contains(*workspace);
            assert(owns(auth, id, *workspace));
        }
    }
    assert forall|w: u128| #[trigger] orphans@.contains(w) <==> candidates@.contains(w) && forall|
        session: Seq<char>,
    |
        !#[trigger] owns(auth, session, w) by {
        let free = |id: u128| !crate::mcp::auth::is_owned(auth@, id);
        lemma_filtered(candidates@, free, w);
        if crate::mcp::auth::is_owned(auth@, w) {
            let id = choose|id: Seq<char>|
                #[trigger] auth@.dom().contains(id) && auth@[id].workspaces.contains(w);
            assert(owns(auth, id, w));
        }
    }
}

/// What is filtered from a list is what is in it and passes.
proof fn lemma_filtered(s: Seq<u128>, passes: spec_fn(u128) -> bool, w: u128)
    ensures
        s.filter(passes).contains(w) <==> s.contains(w) && passes(w),
    decreases s.len(),
{
    reveal(Seq::filter);
    if s.len() > 0 {
        let init = s.drop_last();
        lemma_filtered(init, passes, w);
        let before = init.filter(passes);
        let now = s.filter(passes);
        assert(s =~= init.push(s.last()));
        if init.contains(w) {
            let k = choose|k: int| 0 <= k < init.len() && init[k] == w;
            assert(s[k] == w);
        }
        if s.contains(w) && w != s.last() {
            let k = choose|k: int| 0 <= k < s.len() && s[k] == w;
            assert(init[k] == w);
        }
        assert(s[s.len() - 1] == s.last());
        if passes(s.last()) {
            assert(now == before.push(s.last()));
            assert(now[before.len() as int] == s.last());
            if before.contains(w) {
                let k = choose|k: int| 0 <= k < before.len() && before[k] == w;
                assert(now[k] == w);
            }
            if now.contains(w) && w != s.last() {
                let k = choose|k: int| 0 <= k < now.len() && now[k] == w;
                assert(before[k] == w);
            }
        }
    }
}

/// Adopting: a session that has room gets a workspace that nobody owns, and one
/// of another session only by force. What it owns already it keeps, at no cost.
pub proof fn law_adopting_takes_what_is_free(
    auth: &mut AuthManager,
    session: &str,
    workspace: &u128,
    memory_mb: u64,
    disk_gb: u64,
    force: bool,
    r: Result<(), AuthError>,
)
    requires
        call_ensures(
            AuthManager::adopt_workspace,
            (auth, session, workspace, memory_mb, disk_gb, force),
            r,
        ),
    ensures
        ({
            let before = old(auth)@;
            let after = final(auth)@;
            let taken = exists|other: Seq<char>|
                other != session@ && #[trigger] owns(old(auth), other, *workspace);
            let own = owns(old(auth), session@, *workspace);
            &&& r is Ok <==> before.dom().contains(session@) && (force || !taken) && (own
                || has_room(before[session@], memory_mb, disk_gb))
            &&& r is Err ==> after == before
            &&& r is Ok && own ==> after == before
            &&& r is Ok ==> owns(final(auth), session@, *workspace)
            &&& r is Ok && !own ==> uses_more(
                before[session@].usage,
                after[session@].usage,
                memory_mb,
                disk_gb,
            )
        }),
{
    let before = old(auth)@;
    let after = final(auth)@;
    assert(crate::mcp::auth::has_rival(before, session@, *workspace) <==> exists|other: Seq<char>|
        other != session@ && #[trigger] owns(old(auth), other, *workspace)) by {
        if crate::mcp::auth::has_rival(before, session@, *workspace) {
            let rival = choose|rival: Seq<char>| #[trigger]
                crate::mcp::auth::is_rival(before, session@, rival, *workspace);
            assert(owns(old(auth), rival, *workspace));
        }
        if exists|other: Seq<char>|
            other != session@ && #[trigger] owns(old(auth), other, *workspace) {
            let other = choose|other: Seq<char>|
                other != session@ && #[trigger] owns(old(auth), other, *workspace);
            assert(crate::mcp::auth::is_rival(before, session@, other, *workspace));
        }
    }
}

/// A merge is refused only for a reason: one that does not come too soon, has a
/// known strategy and at least one source, and whose workspaces the session all
/// owns, goes on.
pub proof fn law_owners_may_merge(
    params: GitMergeParams,
    target_named: Option<u128>,
    named: &Vec<Option<u128>>,
    auth: &AuthManager,
    session: &str,
    limiter: &mut RateLimiter,
    now: u64,
    r: Result<Merge, ToolError>,
)
    requires
        call_ensures(
            merge_start,
            (params, target_named, named, auth, session, limiter, now),
            r,
        ),
        named@.len() == params.source_workspaces@.len(),
        !refused(*old(limiter), Slot::Default, now),
        params.strategy@ == "sequential"@ || params.strategy@ == "branch-per-source"@
            || params.strategy@ == "cherry-pick"@,
        named@.len() > 0,
        meant(params.target_workspace@, target_named) is Some,
        owns(auth, session@, meant(params.target_workspace@, target_named)->0),
        forall|i: int|
            0 <= i < named@.len() ==> meant(params.source_workspaces@[i]@, #[trigger] named@[i])
                is Some && owns(
                auth,
                session@,
                meant(params.source_workspaces@[i]@, named@[i])->0,
            ),
    ensures
        r is Ok,
{
    let ids = texts(params.source_workspaces@);
    assert forall|i: int| 0 <= i < named@.len() implies meant(ids[i], #[trigger] named@[i]) is Some
        && owns(auth, session@, meant(ids[i], named@[i])->0) by {
        assert(ids[i] == params.source_workspaces@[i]@);
    }
    lemma_admitted(ids, named@, auth, session@, named@.len() as int);
}

/// Sources that the session owns are admitted.
proof fn lemma_admitted(
    ids: Seq<Seq<char>>,
    named: Seq<Option<u128>>,
    auth: &AuthManager,
    session: Seq<char>,
    n: int,
)
    requires
        0 <= n <= named.len(),
        forall|i: int|
            0 <= i < named.len() ==> meant(ids[i], #[trigger] named[i]) is Some && owns(
                auth,
                session,
                meant(ids[i], named[i])->0,
            ),
    ensures
        crate::mcp::access::admitted(ids, named, auth@, session, n) is Ok,
    decreases n,
{
    if n > 0 {
        lemma_admitted(ids, named, auth, session, n - 1);
        assert(meant(ids[n - 1], named[n - 1]) is Some);
    }
}

/// Owners may snapshot under a proper name, and list without one.
pub proof fn law_owners_may_snapshot(
    params: SnapshotParams,
    named: Option<u128>,
    auth: &AuthManager,
    session: &str,
    limiter: &mut RateLimiter,
    now: u64,
    r: Result<(u128, SnapshotCall), ToolError>,
)
    requires
        call_ensures(snapshot_start, (params, named, auth, session, limiter, now), r),
        !refused(*old(limiter), Slot::Default, now),
        meant(params.workspace_id@, named) is Some,
        owns(auth, session@, meant(params.workspace_id@, named)->0),
    ensures
        params.action@ == "list"@ ==> r is Ok,
        (params.action@ == "create"@ || params.action@ == "restore"@ || params.action@
            == "delete"@) ==> (r is Ok <==> params.name is Some
            && crate::mcp::tools::is_snapshot_name(params.name->0@)),
{
    reveal_strlit("create");
    reveal_strlit("restore");
    reveal_strlit("delete");
    reveal_strlit("list");
    assert("create"@.len() == 6 && "restore"@.len() == 7 && "delete"@.len() == 6 && "list"@.len()
        == 4);
    assert("create"@[0] == 'c' && "delete"@[0] == 'd');
}

/// Adopting by force takes the workspace, with its resources, from another
/// session that owned it, and leaves every third session as it was.
#[verifier::rlimit(40)]
pub proof fn law_forced_adoption_takes_from_another(
    auth: &mut AuthManager,
    session: &str,
    workspace: &u128,
    memory_mb: u64,
    disk_gb: u64,
    r: Result<(), AuthError>,
)
    requires
        call_ensures(
            AuthManager::adopt_workspace,
            (auth, session, workspace, memory_mb, disk_gb, true),
            r,
        ),
        r is Ok,
        !owns(old(auth), session@, *workspace),
        exists|other: Seq<char>| other != session@ && #[trigger] owns(old(auth), other, *workspace),
    ensures
        exists|rival: Seq<char>|
            {
                let before = old(auth)@;
                let after = final(auth)@;
                &&& rival != session@
                &&& #[trigger] owns(old(auth), rival, *workspace)
                &&& !owns(final(auth), rival, *workspace)
                &&& after[rival].workspaces == before[rival].workspaces.remove(*workspace)
                &&& before[rival].usage.workspace_count >= 1 && before[rival].usage.memory_mb
                    >= memory_mb && before[rival].usage.disk_gb >= disk_gb ==> uses_more(
                    after[rival].usage,
                    before[rival].usage,
                    memory_mb,
                    disk_gb,
                )
                &&& forall|third: Seq<char>|
                    third != rival && third != session@ && before.dom().contains(third)
                        ==> #[trigger] after[third] == before[third]
            },
{
    let before = old(auth)@;
    let after = final(auth)@;
    let other = choose|other: Seq<char>|
        other != session@ && #[trigger] owns(old(auth), other, *workspace);
    assert(crate::mcp::auth::is_rival(before, session@, other, *workspace));
    let rival = choose|rival: Seq<char>| #[trigger]
        crate::mcp::auth::is_rival(before, session@, rival, *workspace) && crate::mcp::auth::moved(
            before,
            after,
            session@,
            rival,
            *workspace,
            memory_mb,
            disk_gb,
        );
    assert(owns(old(auth), rival, *workspace));
}

/// Purging leaves only the session that is kept, as it was, and counts the
/// others.
pub proof fn law_purging_keeps_one_session(auth: &mut AuthManager, keep: &str, n: usize)
    requires
        call_ensures(AuthManager::purge_stale_sessions, (auth, keep), n),
    ensures
        forall|id: Seq<char>| #[trigger]
            final(auth)@.dom().contains(id) <==> id == keep@ && old(auth)@.dom().contains(id),
        old(auth)@.dom().contains(keep@) ==> final(auth)@[keep@] == old(auth)@[keep@] && n
            == old(auth)@.dom().len() - 1,
        !old(auth)@.dom().contains(keep@) ==> n == old(auth)@.dom().len(),
{
    if !old(auth)@.dom().contains(keep@) {
        assert(old(auth)@.dom().remove(keep@) =~= old(auth)@.dom());
    }
}

/// Of a persisted session, only workspaces that still exist are restored.
proof fn lemma_surviving(ids: Seq<u128>, resources: Map<u128, (u64, u64)>, w: u128)
    ensures
        surviving(ids, resources).contains(w) <==> ids.contains(w) && resources.dom().contains(w),
    decreases ids.len(),
{
    if ids.len() > 0 {
        let init = ids.drop_last();
        lemma_surviving(init, resources, w);
        let before = surviving(init, resources);
        let now = surviving(ids, resources);
        if init.contains(w) {
            let k = choose|k: int| 0 <= k < init.len() && init[k] == w;
            assert(ids[k] == w);
        }
        if ids.contains(w) && w != ids.last() {
            let k = choose|k: int| 0 <= k < ids.len() && ids[k] == w;
            assert(init[k] == w);
        }
        assert(ids[ids.len() - 1] == ids.last());
        if resources.dom().contains(ids.last()) {
            assert(now == before.push(ids.last()));
            assert(now[before.len() as int] == ids.last());
            if before.contains(w) {
                let k = choose|k: int| 0 <= k < before.len() && before[k] == w;
                assert(now[k] == w);
            }
            if now.contains(w) && w != ids.last() {
                let k = choose|k: int| 0 <= k < now.len() && now[k] == w;
                assert(before[k] == w);
            }
        }
    }
}

/// Restoring a session brings back those of its workspaces that still exist; a
/// session with none of them left, or one that is there already, is passed
/// over.
#[verifier::rlimit(40)]
pub proof fn law_restoring_brings_back_what_exists(
    auth: &mut AuthManager,
    persisted: &Vec<PersistedSession>,
    resources: &HashMap<u128, (u64, u64)>,
    w: u128,
)
    requires
        call_ensures(AuthManager::restore_sessions, (auth, persisted, resources), ()),
        persisted@.len() == 1,
    ensures
        ({
            let p = persisted@[0]@;
            let was_there = old(auth)@.dom().contains(p.id);
            &&& was_there ==> final(auth)@ == old(auth)@
            &&& !was_there && p.workspaces.contains(w) && resources@.dom().contains(w) ==> owns(
                final(auth),
                p.id,
                w,
            )
            &&& !was_there && owns(final(auth), p.id, w) ==> p.workspaces.contains(w)
                && resources@.dom().contains(w) && final(auth)@[p.id].created_at == p.created_at
                && final(auth)@[p.id].quota == old(auth).new_quota()
            &&& forall|other: Seq<char>|
                other != p.id ==> (#[trigger] final(auth)@.dom().contains(other) <==> old(
                    auth,
                )@.dom().contains(other)) && final(auth)@[other] == old(auth)@[other]
        }),
{
    let ps = persisted_view(persisted@);
    let p = persisted@[0]@;
    assert(ps.last() == p);
    assert(ps.drop_last() =~= Seq::empty());
    reveal_with_fuel(crate::mcp::auth::restored, 2);
    lemma_surviving(p.workspaces, resources@, w);
    let left = surviving(p.workspaces, resources@);
    if left.contains(w) {
        assert(left.to_set().contains(w));
        assert(left.len() > 0);
    }
    if left.to_set().contains(w) {
        assert(left.contains(w));
    }
    assert forall|other: Seq<char>| other != p.id implies (#[trigger] final(auth)@.dom().contains(
        other,
    ) <==> old(auth)@.dom().contains(other)) && final(auth)@[other] == old(auth)@[other] by {}
}

/// Ownership, usage and quota are told for known sessions only.
pub proof fn law_known_sessions_are_told(
    auth: &AuthManager,
    session: &str,
    workspace: u128,
    owned: Result<(), AuthError>,
    demanded: Result<(), ToolError>,
    usage: Result<SessionUsage, AuthError>,
    quota: Result<SessionQuota, AuthError>,
    list: Result<Vec<u128>, AuthError>,
)
    requires
        call_ensures(AuthManager::check_ownership, (auth, session, workspace), owned),
        call_ensures(require_ownership, (auth, session, workspace), demanded),
        call_ensures(AuthManager::get_usage, (auth, session), usage),
        call_ensures(AuthManager::get_quota, (auth, session), quota),
        call_ensures(AuthManager::list_workspaces, (auth, session), list),
    ensures
        owned is Ok <==> owns(auth, session@, workspace),
        demanded is Ok <==> owns(auth, session@, workspace),
        usage is Ok <==> auth@.dom().contains(session@),
        quota is Ok <==> auth@.dom().contains(session@),
        list is Ok <==> auth@.dom().contains(session@),
        usage matches Ok(u) ==> u == auth@[session@].usage,
        quota matches Ok(q) ==> q == auth@[session@].quota,
        list matches Ok(ids) ==> (ids@.contains(workspace) <==> owns(auth, session@, workspace)),
{
    if list is Ok {
        assert(list->Ok_0@.to_set().contains(workspace) <==> list->Ok_0@.contains(workspace));
    }
}

/// A bucket admits a call exactly if it has a token, takes it then, and never
/// holds more than its burst.
pub proof fn law_bucket_takes_a_token(b: &mut TokenBucket, now: u64, r: bool)
    requires
        old(b).wf(),
        call_ensures(TokenBucket::try_acquire, (b, now), r),
    ensures
        final(b).burst == old(b).burst,
        final(b).per_minute == old(b).per_minute,
        final(b).last_refill == now,
        final(b).level <= final(b).burst * 60_000_000_000,
        now == old(b).last_refill ==> (r <==> old(b).level >= 60_000_000_000) && final(b).level
            == old(b).level - if r {
            60_000_000_000int
        } else {
            0
        },
        now < old(b).last_refill ==> (r <==> old(b).level >= 60_000_000_000),
{
    if now <= old(b).last_refill {
        assert(0 * old(b).per_minute == 0);
    }
}

/// What is refused is told: which category came too soon and how many calls a
/// minute it may make; which quota is exceeded, by how much; and who owns what.
#[verifier::rlimit(40)]
pub proof fn law_refusals_are_told(
    limiter: &mut RateLimiter,
    category: &str,
    now: u64,
    r: Result<(), String>,
    e: &AuthError,
    message: String,
)
    requires
        call_ensures(RateLimiter::check, (limiter, category, now), r),
        call_ensures(AuthError::message, (e,), message),
    ensures
        r matches Err(text) ==> exists|slot: Slot|
            {
                &&& #[trigger] refused(*old(limiter), slot, now)
                &&& text@ == "Rate limit exceeded for "@ + category@ + " operations. Maximum "@
                    + decimal(old(limiter).bucket(slot).per_minute as nat)
                    + " calls per minute. Please wait and retry."@
            },
        match *e {
            AuthError::UnknownSession(id) => id@.is_suffix_of(message@),
            AuthError::NotOwner { session_id, workspace_id } => message@ == "session "@
                + session_id@ + " does not own workspace "@ + uuid_form(workspace_id),
            AuthError::QuotaExceeded { resource, limit, current, requested } => message@
                == "quota exceeded: "@ + resource@ + " (limit: "@ + decimal(limit as nat)
                + ", current: "@ + decimal(current as nat) + ", requested: "@ + decimal(
                requested as nat,
            ) + ")"@,
            AuthError::AlreadyOwned { workspace_id, owner_session_id } => ("workspace "@
                + uuid_form(workspace_id) + " is owned by session "@ + owner_session_id@
                + ". "@).is_prefix_of(message@),
        },
{
    if r is Err {
        let slot = if category@ == "create"@ {
            Slot::Create
        } else if category@ == "exec"@ {
            Slot::Exec
        } else if category@ == "team_message"@ {
            Slot::TeamMessage
        } else {
            Slot::Default
        };
        assert(refused(*old(limiter), slot, now));
    }
    match *e {
        AuthError::UnknownSession(id) => {
            let m = message@;
            assert(m.subrange(m.len() - id@.len(), m.len() as int) =~= id@);
        },
        AuthError::AlreadyOwned { workspace_id, owner_session_id } => {
            let p = "workspace "@ + uuid_form(workspace_id) + " is owned by session "@
                + owner_session_id@ + ". "@;
            reveal_strlit(". ");
            reveal_strlit(". Use workspace_adopt(workspace_id=..., force=true) to claim it from the other session.");
            assert(message@.take(p.len() as int) =~= p);
        },
        _ => {},
    }
}

/// The resources of workspaces are added up: memory is the first and disk space
/// the second of each one's resources.
pub proof fn law_resources_add_up(ids: Seq<u128>, resources: Map<u128, (u64, u64)>)
    ensures
        memory_of(ids, resources) == ids.fold_left(
            0nat,
            |sum: nat, w: u128| sum + resources[w].0 as nat,
        ),
        disk_of(ids, resources) == ids.fold_left(
            0nat,
            |sum: nat, w: u128| sum + resources[w].1 as nat,
        ),
    decreases ids.len(),
{
    reveal(Seq::fold_left);
    if ids.len() > 0 {
        law_resources_add_up(ids.drop_last(), resources);
    }
}

/// A session that is restored uses what its workspaces use that still exist.
pub proof fn law_restored_session_uses_what_it_has(
    auth: &mut AuthManager,
    persisted: &Vec<PersistedSession>,
    resources: &HashMap<u128, (u64, u64)>,
)
    requires
        persisted@.len() == 1,
        !old(auth)@.dom().contains(persisted@[0]@.id),
        forall|i: int|
            0 <= i < persisted@.len() ==> countable(#[trigger] persisted@[i]@, resources@),
        call_ensures(AuthManager::restore_sessions, (auth, persisted, resources), ()),
        surviving(persisted@[0]@.workspaces, resources@).len() <= usize::MAX,
    ensures
        ({
            let p = persisted@[0]@;
            let left = surviving(p.workspaces, resources@);
            final(auth)@.dom().contains(p.id) ==> {
                let usage = final(auth)@[p.id].usage;
                &&& usage.workspace_count == left.len()
                &&& usage.memory_mb == left.fold_left(
                    0nat,
                    |sum: nat, w: u128| sum + resources@[w].0 as nat,
                )
                &&& usage.disk_gb == left.fold_left(
                    0nat,
                    |sum: nat, w: u128| sum + resources@[w].1 as nat,
                )
            }
        }),
{
    let ps = persisted_view(persisted@);
    let p = persisted@[0]@;
    assert(countable(persisted@[0]@, resources@));
    assert(ps.last() == p);
    assert(ps.drop_last() =~= Seq::empty());
    reveal_with_fuel(crate::mcp::auth::restored, 2);
    law_resources_add_up(surviving(p.workspaces, resources@), resources@);
}

} // verus!
