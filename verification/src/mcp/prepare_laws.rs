//! What preparing, setting up and adopting workspaces promise.

use crate::mcp::access_laws::{has_room, only, owns, refused};
use crate::mcp::auth::{AuthManager, SessionView};
use crate::mcp::error::{ErrorKind, ToolError};
use crate::mcp::exchange::{ExecReply, RequestView};
use crate::mcp::git_laws::is_cloneable;
use crate::mcp::prepare::{
    adopt_all, adopt_one, adopted_of, after_adopting, refused_of, worker_start, worker_step,
    Adoption, PrepareNext, PrepareStage, WorkerNext, WorkspacePrepareParams,
};
use crate::mcp::rate_limit::{RateLimiter, Slot};
use crate::mcp::tools::quote;
use crate::mcp::workspace_laws::{can_take, is_image, took};
use crate::mcp::workspace_tools::{CreateRequest, Forked, Worker};
use crate::number::decimal;
use crate::text::texts;
use vstd::prelude::*;

verus! {

/// A command ran and ended well.
pub open spec fn ended_well(reply: Result<ExecReply, String>) -> bool {
    reply is Ok && reply->Ok_0.exit_code == 0
}

/// The base image of a preparation.
pub open spec fn image_of(p: WorkspacePrepareParams) -> Seq<char> {
    match p.base_image {
        Some(name) => name@,
        None => "alpine-opencode"@,
    }
}

/// A preparation draws on the default limit. It goes on exactly if its URL, if
/// any, can be cloned, its base image has a proper name and the session has
/// room for it; the workspace may reach the internet.
pub proof fn law_preparing_asks_for_room(
    p: &WorkspacePrepareParams,
    auth: &AuthManager,
    session: &str,
    limiter: &mut RateLimiter,
    now: u64,
    r: Result<CreateRequest, ToolError>,
)
    requires
        call_ensures(WorkspacePrepareParams::start, (p, auth, session, limiter, now), r),
    ensures
        only(*old(limiter), *final(limiter), Slot::Default),
        r is Ok <==> !refused(*old(limiter), Slot::Default, now) && (p.git_url is Some
            ==> is_cloneable(p.git_url->0@)) && is_image(image_of(*p)) && can_take(
            auth,
            session@,
            512,
            10,
        ),
        r matches Ok(request) ==> {
            &&& request.name is Some && request.name->0@ == p.name@
            &&& request.base_image is Some && request.base_image->0@ == image_of(*p)
            &&& request.memory_mb == 512
            &&& request.disk_gb == 10
            &&& request.allow_internet == Some(true)
        },
{
    crate::mcp::workspace_laws::lemma_name(image_of(*p));
    if p.git_url is Some {
        crate::mcp::git_laws::lemma_cloneable(p.git_url->0@);
    }
}

/// All that is run in a new workspace: the clone, the setup commands in order,
/// and at last a sync.
pub open spec fn script(p: WorkspacePrepareParams) -> Seq<(Seq<char>, u64)> {
    let setup = match p.setup_commands {
        Some(v) => v@.map_values(|c: String| (c@, 300u64)),
        None => Seq::<(Seq<char>, u64)>::empty(),
    };
    match p.git_url {
        Some(url) => seq![("git clone "@ + quote(url@) + " /workspace"@, 300u64)] + setup,
        None => setup,
    }.push(("sync"@, 30u64))
}

/// Where in the script a stage is.
pub open spec fn place(p: WorkspacePrepareParams, stage: PrepareStage) -> int {
    match stage {
        PrepareStage::Cloning => 0,
        PrepareStage::SettingUp { done } => if p.git_url is Some {
            done + 1
        } else {
            done as int
        },
        PrepareStage::Syncing => script(p).len() - 1,
    }
}

/// The next thing is to run a part of the script.
pub open spec fn runs_part(
    next: PrepareNext,
    p: WorkspacePrepareParams,
    workspace: u128,
    i: int,
) -> bool {
    &&& next is Run
    &&& 0 <= i < script(p).len()
    &&& next->request@ == (RequestView::Exec {
        workspace,
        command: script(p)[i].0,
        timeout_secs: script(p)[i].1,
    })
    &&& place(p, next->stage) == i
}

/// A stage that a preparation can be at.
pub open spec fn is_stage(p: WorkspacePrepareParams, stage: PrepareStage) -> bool {
    match stage {
        PrepareStage::Cloning => p.git_url is Some,
        PrepareStage::SettingUp { done } => p.setup_commands is Some && done
            < p.setup_commands->0@.len(),
        PrepareStage::Syncing => true,
    }
}

/// The parts of the script.
proof fn lemma_script(p: WorkspacePrepareParams)
    ensures
        ({
            let n = match p.setup_commands {
                Some(v) => v@.len() as int,
                None => 0,
            };
            let first = if p.git_url is Some {
                1int
            } else {
                0
            };
            &&& script(p).len() == first + n + 1
            &&& script(p)[first + n] == ("sync"@, 30u64)
            &&& p.git_url is Some ==> script(p)[0] == (
                "git clone "@ + quote(p.git_url->0@) + " /workspace"@,
                300u64,
            )
            &&& forall|i: int|
                0 <= i < n ==> #[trigger] script(p)[first + i] == (
                    p.setup_commands->0@[i]@,
                    300u64,
                )
        }),
{
}

/// The script is run from its beginning, one part after the other, each in the
/// new workspace.
#[verifier::rlimit(40)]
pub proof fn law_preparation_runs_its_script(
    p: &WorkspacePrepareParams,
    auth: &mut AuthManager,
    session: &str,
    workspace: Forked,
    first: PrepareNext,
    later: &mut AuthManager,
    stage: PrepareStage,
    reply: &Result<ExecReply, String>,
    next: PrepareNext,
)
    requires
        call_ensures(WorkspacePrepareParams::created, (p, auth, session, workspace), first),
        is_stage(*p, stage),
        call_ensures(
            WorkspacePrepareParams::step,
            (p, later, session, workspace.id, stage, reply),
            next,
        ),
        p.setup_commands is Some ==> p.setup_commands->0@.len() <= usize::MAX,
    ensures
        can_take(old(auth), session@, workspace.memory_mb as u64, workspace.disk_gb as u64) ==> {
            &&& runs_part(first, *p, workspace.id, 0)
            &&& is_stage(*p, first->stage)
            &&& took(
                old(auth)@,
                final(auth)@,
                session@,
                workspace.id,
                workspace.memory_mb as u64,
                workspace.disk_gb as u64,
            )
        },
        !can_take(old(auth), session@, workspace.memory_mb as u64, workspace.disk_gb as u64) ==> first
            is Abandon && final(auth)@ == old(auth)@,
        stage == PrepareStage::Syncing ==> next is Snapshot && next->name@ == "golden"@
            && !next->include_memory && final(later)@ == old(later)@,
        stage != PrepareStage::Syncing && ended_well(*reply) ==> runs_part(
            next,
            *p,
            workspace.id,
            place(*p, stage) + 1,
        ) && is_stage(*p, next->stage) && final(later)@ == old(later)@,
        stage != PrepareStage::Syncing && !ended_well(*reply) ==> next is Abandon && !owns(
            final(later),
            session@,
            workspace.id,
        ),
{
    lemma_script(*p);
    if can_take(old(auth), session@, workspace.memory_mb as u64, workspace.disk_gb as u64) {
        assert(final(auth)@.dom() =~= old(auth)@.dom());
    }
    if p.setup_commands is Some {
        let v = p.setup_commands->0@;
        assert(texts(v).len() == v.len());
        assert(forall|i: int| 0 <= i < v.len() ==> texts(v)[i] == (#[trigger] v[i])@);
        let f = if p.git_url is Some {
            1int
        } else {
            0
        };
        if v.len() > 0 {
            assert(script(*p)[f + 0] == (v[0]@, 300u64));
        }
        match stage {
            PrepareStage::SettingUp { done } => {
                if done + 1 < v.len() {
                    assert(script(*p)[f + (done + 1)] == (v[done + 1]@, 300u64));
                }
            },
            _ => {},
        }
    }
}

/// A preparation whose snapshot was made keeps its workspace, and one whose
/// snapshot failed gives it back.
pub proof fn law_preparation_ends_with_its_snapshot(
    p: &WorkspacePrepareParams,
    auth: &mut AuthManager,
    session: &str,
    workspace: u128,
    outcome: &Result<(), String>,
    r: Result<(), ToolError>,
)
    requires
        call_ensures(
            WorkspacePrepareParams::finish,
            (p, auth, session, workspace, outcome),
            r,
        ),
    ensures
        r is Ok <==> outcome is Ok,
        r is Ok ==> final(auth)@ == old(auth)@,
        r is Err ==> !owns(final(auth), session@, workspace),
        forall|other: Seq<char>|
            other != session@ && old(auth)@.dom().contains(other) ==> #[trigger] final(auth)@[other]
                == old(auth)@[other],
{
}

/// The setup commands of a worker are run in it, each once and in order; the
/// first that fails ends them, and is told by its number.
pub proof fn law_worker_is_set_up_in_order(
    worker: &Worker,
    commands: &Vec<String>,
    first: WorkerNext,
    workspace: u128,
    done: usize,
    reply: &Result<ExecReply, String>,
    next: WorkerNext,
)
    requires
        call_ensures(worker_start, (worker, commands), first),
        done < commands@.len(),
        call_ensures(worker_step, (commands, workspace, done, reply), next),
    ensures
        worker matches Worker::Created(w) ==> if commands@.len() > 0 {
            first is Run && first->done == 0 && first->request@ == (RequestView::Exec {
                workspace: w.id,
                command: commands@[0]@,
                timeout_secs: 300,
            })
        } else {
            first is Ready
        },
        !(worker is Created) ==> first is Ready,
        ended_well(*reply) && done + 1 < commands@.len() ==> next is Run && next->done == done + 1
            && next->request@ == (RequestView::Exec {
            workspace,
            command: commands@[done + 1]@,
            timeout_secs: 300,
        }),
        ended_well(*reply) && done + 1 >= commands@.len() ==> next is Ready,
        !ended_well(*reply) ==> next is Failed && ("setup command "@ + decimal((done + 1) as nat)
            + " failed"@).is_prefix_of(next->error@),
{
    assert(texts(commands@).len() == commands@.len());
    if !ended_well(*reply) {
        let p = "setup command "@ + decimal((done + 1) as nat) + " failed"@;
        reveal_strlit(" failed");
        reveal_strlit(" failed: ");
        reveal_strlit(" failed (exit ");
        assert(next->error@.take(p.len() as int) =~= p);
    }
}

/// Adopting one workspace: it must not be another session's, and the session
/// must own it already or have room for it.
pub proof fn law_adopted_workspace_was_free(
    auth: &mut AuthManager,
    session: &str,
    w: Forked,
    r: Result<(), ToolError>,
)
    requires
        call_ensures(adopt_one, (auth, session, w), r),
    ensures
        ({
            let taken = exists|other: Seq<char>|
                other != session@ && #[trigger] owns(old(auth), other, w.id);
            let own = owns(old(auth), session@, w.id);
            &&& r is Ok <==> old(auth)@.dom().contains(session@) && !taken && (own || has_room(
                old(auth)@[session@],
                w.memory_mb as u64,
                w.disk_gb as u64,
            ))
            &&& r is Err || own ==> final(auth)@ == old(auth)@
            &&& r is Ok && !own ==> took(
                old(auth)@,
                final(auth)@,
                session@,
                w.id,
                w.memory_mb as u64,
                w.disk_gb as u64,
            )
            &&& r matches Err(e) ==> e.kind == ErrorKind::InvalidRequest
        }),
{
    let before = old(auth)@;
    assert(crate::mcp::auth::has_rival(before, session@, w.id) <==> exists|other: Seq<char>|
        other != session@ && #[trigger] owns(old(auth), other, w.id)) by {
        if crate::mcp::auth::has_rival(before, session@, w.id) {
            let rival = choose|rival: Seq<char>| #[trigger]
                crate::mcp::auth::is_rival(before, session@, rival, w.id);
            assert(owns(old(auth), rival, w.id));
        }
        if exists|other: Seq<char>| other != session@ && #[trigger] owns(old(auth), other, w.id) {
            let other = choose|other: Seq<char>|
                other != session@ && #[trigger] owns(old(auth), other, w.id);
            assert(crate::mcp::auth::is_rival(before, session@, other, w.id));
        }
    }
    if r is Ok {
        assert(final(auth)@.dom() =~= old(auth)@.dom());
    }
}

/// What is adopted was listed, was not owned before, and is owned afterwards.
#[verifier::rlimit(40)]
proof fn lemma_adopted(start: SessionView, all: Seq<Forked>, n: int)
    requires
        0 <= n <= all.len(),
    ensures
        forall|k: int|
            0 <= k < adopted_of(start, all, n).len() ==> {
                let id = #[trigger] adopted_of(start, all, n)[k];
                &&& !start.workspaces.contains(id)
                &&& after_adopting(start, all, n).workspaces.contains(id)
                &&& exists|i: int| 0 <= i < n && (#[trigger] all[i]).id == id
            },
        forall|id: u128| #[trigger]
            after_adopting(start, all, n).workspaces.contains(id) && !start.workspaces.contains(id)
                ==> adopted_of(start, all, n).contains(id),
        forall|id: u128|
            start.workspaces.contains(id) ==> #[trigger] after_adopting(
                start,
                all,
                n,
            ).workspaces.contains(id),
        forall|k: int|
            0 <= k < refused_of(start, all, n).len() ==> exists|i: int|
                0 <= i < n && (#[trigger] all[i]).id == (#[trigger] refused_of(start, all, n)[k]).0,
    decreases n,
{
    if n > 0 {
        lemma_adopted(start, all, n - 1);
        let a = adopted_of(start, all, n - 1);
        let b = adopted_of(start, all, n);
        let w = all[n - 1];
        assert forall|k: int| 0 <= k < b.len() implies {
            let id = #[trigger] b[k];
            &&& !start.workspaces.contains(id)
            &&& after_adopting(start, all, n).workspaces.contains(id)
            &&& exists|i: int| 0 <= i < n && (#[trigger] all[i]).id == id
        } by {
            if k < a.len() {
                assert(b[k] == a[k]);
                let i = choose|i: int| 0 <= i < n - 1 && (#[trigger] all[i]).id == a[k];
                assert(all[i].id == b[k]);
            } else {
                assert(all[n - 1].id == b[k]);
            }
        }
        assert forall|id: u128| #[trigger]
            after_adopting(start, all, n).workspaces.contains(id) && !start.workspaces.contains(
                id,
            ) implies b.contains(id) by {
            if after_adopting(start, all, n - 1).workspaces.contains(id) {
                let k = choose|k: int| 0 <= k < a.len() && a[k] == id;
                assert(b[k] == id);
            } else {
                assert(id == w.id);
                assert(b[a.len() as int] == id);
            }
        }
        let c = refused_of(start, all, n - 1);
        let d = refused_of(start, all, n);
        assert forall|k: int| 0 <= k < d.len() implies exists|i: int|
            0 <= i < n && (#[trigger] all[i]).id == (#[trigger] d[k]).0 by {
            if k < c.len() {
                assert(d[k] == c[k]);
                let i = choose|i: int| 0 <= i < n - 1 && (#[trigger] all[i]).id == c[k].0;
                assert(all[i].id == d[k].0);
            } else {
                assert(all[n - 1].id == d[k].0);
            }
        }
    }
}

/// Adopting all: only the adopting session is left. It keeps what it owned and
/// gains exactly what is told as adopted, all of it from the list; and whatever
/// of the list it does not own then is told as refused.
#[verifier::rlimit(40)]
pub proof fn law_adopting_all_accounts_for_the_list(
    auth: &mut AuthManager,
    session: &str,
    all: &Vec<Forked>,
    r: Adoption,
)
    requires
        call_ensures(adopt_all, (auth, session, all), r),
    ensures
        final(auth)@.dom() == old(auth)@.dom().intersect(set![session@]),
        old(auth)@.dom().contains(session@) ==> {
            &&& forall|id: u128| #[trigger]
                owns(final(auth), session@, id) <==> owns(old(auth), session@, id)
                    || r.adopted@.contains(id)
            &&& forall|k: int|
                0 <= k < r.adopted@.len() ==> !owns(
                    old(auth),
                    session@,
                    #[trigger] r.adopted@[k],
                ) && exists|i: int| 0 <= i < all@.len() && (#[trigger] all@[i]).id == r.adopted@[k]
            &&& forall|i: int|
                0 <= i < all@.len() ==> owns(final(auth), session@, (#[trigger] all@[i]).id)
                    || exists|k: int|
                    0 <= k < r.errors@.len() && (#[trigger] r.errors@[k]).0 == all@[i].id
        },
        !old(auth)@.dom().contains(session@) ==> r.adopted@.len() == 0 && r.errors@.len()
            == all@.len(),
{
    let n = all@.len() as int;
    assert(final(auth)@.dom() =~= old(auth)@.dom().intersect(set![session@]));
    if old(auth)@.dom().contains(session@) {
        let start = old(auth)@[session@];
        lemma_adopted(start, all@, n);
        assert(final(auth)@[session@] == after_adopting(start, all@, n));
        assert forall|id: u128| #[trigger] owns(final(auth), session@, id) <==> owns(
            old(auth),
            session@,
            id,
        ) || r.adopted@.contains(id) by {
            if r.adopted@.contains(id) {
                let k = choose|k: int| 0 <= k < r.adopted@.len() && r.adopted@[k] == id;
                assert(adopted_of(start, all@, n)[k] == id);
            }
        }
        assert forall|i: int| 0 <= i < all@.len() implies owns(
            final(auth),
            session@,
            (#[trigger] all@[i]).id,
        ) || exists|k: int| 0 <= k < r.errors@.len() && (#[trigger] r.errors@[k]).0 == all@[i].id by {
            crate::mcp::prepare::law_adoption_accounts_for_all(start, all@, n, i);
            let told = refused_of(start, all@, n);
            if !owns(final(auth), session@, all@[i].id) {
                let k = choose|k: int| 0 <= k < told.len() && (#[trigger] told[k]).0 == all@[i].id;
                assert(crate::mcp::prepare::refusals_view(r.errors@)[k] == told[k]);
                assert(r.errors@[k].0 == all@[i].id);
            }
        }
    } else {
        assert(crate::mcp::prepare::refusals_view(r.errors@).len() == r.errors@.len());
    }
}

} // verus!
