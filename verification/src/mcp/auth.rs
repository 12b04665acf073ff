//! Sessions, the workspaces that they own, and their resource quotas.
//!
//! Every connection gets a session. Workspaces created within a session are
//! owned by that session, and operations on a workspace require ownership.

use crate::mcp::error::{invalid_request, ErrorKind, ToolError};
use crate::mcp::tools::{uuid_form, uuid_text};
use crate::number::{decimal, decimal_of};
use crate::text::{cat2, cat4, cat5, cat8, owned, same};
use std::collections::{HashMap, HashSet};
use vstd::prelude::*;
use vstd::std_specs::iter::IteratorSpec;
use vstd::string::*;

verus! {

broadcast use vstd::std_specs::hash::group_hash_axioms;

/// Persisted session ownership.
///
/// Only captures which session owns which workspaces. Quotas and usage are
/// recomputed from the workspace list on restore to avoid stale counters.
#[derive(Debug)]
pub struct PersistedSession {
    pub session_id: String,
    pub workspace_ids: Vec<u128>,
    /// Nanoseconds since the epoch.
    pub created_at: i128,
}

/// The contents of a [`PersistedSession`].
pub struct PersistedView {
    pub id: Seq<char>,
    pub workspaces: Seq<u128>,
    pub created_at: i128,
}

impl View for PersistedSession {
    type V = PersistedView;

    open spec fn view(&self) -> PersistedView {
        PersistedView {
            id: self.session_id@,
            workspaces: self.workspace_ids@,
            created_at: self.created_at,
        }
    }
}

/// The contents of a list of persisted sessions.
pub open spec fn persisted_view(ps: Seq<PersistedSession>) -> Seq<PersistedView> {
    Seq::new(ps.len(), |i: int| ps[i]@)
}

/// Resource limits enforced per session.
#[derive(Clone, Copy, Debug, PartialEq, Eq, Structural)]
pub struct SessionQuota {
    pub max_workspaces: usize,
    pub max_memory_mb: u64,
    pub max_disk_gb: u64,
}

impl Default for SessionQuota {
    fn default() -> (q: SessionQuota)
        ensures
            q == (SessionQuota { max_workspaces: 10, max_memory_mb: 16384, max_disk_gb: 100 }),
    {
        SessionQuota { max_workspaces: 10, max_memory_mb: 16384, max_disk_gb: 100 }
    }
}

/// Current resource usage of a session.
#[derive(Clone, Copy, Debug, PartialEq, Eq, Structural)]
pub struct SessionUsage {
    pub workspace_count: usize,
    pub memory_mb: u64,
    pub disk_gb: u64,
}

impl Default for SessionUsage {
    fn default() -> (u: SessionUsage)
        ensures
            u == (SessionUsage { workspace_count: 0, memory_mb: 0, disk_gb: 0 }),
    {
        SessionUsage { workspace_count: 0, memory_mb: 0, disk_gb: 0 }
    }
}

/// A tracked session with ownership and quota.
#[derive(Debug)]
pub struct Session {
    pub id: String,
    /// Nanoseconds since the epoch.
    pub created_at: i128,
    pub workspaces: HashSet<u128>,
    pub quota: SessionQuota,
    pub usage: SessionUsage,
}

/// The contents of a [`Session`] but its name.
pub struct SessionView {
    pub created_at: i128,
    pub workspaces: Set<u128>,
    pub quota: SessionQuota,
    pub usage: SessionUsage,
}

impl View for Session {
    type V = SessionView;

    open spec fn view(&self) -> SessionView {
        SessionView {
            created_at: self.created_at,
            workspaces: self.workspaces@,
            quota: self.quota,
            usage: self.usage,
        }
    }
}

/// A session that owns nothing yet.
pub open spec fn fresh(created_at: i128, quota: SessionQuota) -> SessionView {
    SessionView {
        created_at,
        workspaces: Set::empty(),
        quota,
        usage: SessionUsage { workspace_count: 0, memory_mb: 0, disk_gb: 0 },
    }
}

/// A session after it got a workspace.
pub open spec fn gained(s: SessionView, workspace: u128, memory_mb: u64, disk_gb: u64) -> SessionView {
    SessionView {
        workspaces: s.workspaces.insert(workspace),
        usage: SessionUsage {
            workspace_count: (s.usage.workspace_count + 1) as usize,
            memory_mb: (s.usage.memory_mb + memory_mb) as u64,
            disk_gb: (s.usage.disk_gb + disk_gb) as u64,
        },
        ..s
    }
}

/// `a - b`, or zero where that is negative.
pub open spec fn less(a: int, b: int) -> int {
    if a >= b {
        a - b
    } else {
        0
    }
}

/// A session after a workspace was taken from it.
pub open spec fn lost(s: SessionView, workspace: u128, memory_mb: u64, disk_gb: u64) -> SessionView {
    SessionView {
        workspaces: s.workspaces.remove(workspace),
        usage: SessionUsage {
            workspace_count: less(s.usage.workspace_count as int, 1) as usize,
            memory_mb: less(s.usage.memory_mb as int, memory_mb as int) as u64,
            disk_gb: less(s.usage.disk_gb as int, disk_gb as int) as u64,
        },
        ..s
    }
}

/// Errors from enforcement.
#[derive(Debug)]
pub enum AuthError {
    UnknownSession(String),
    NotOwner { session_id: String, workspace_id: u128 },
    QuotaExceeded { resource: String, limit: u64, current: u64, requested: u64 },
    AlreadyOwned { workspace_id: u128, owner_session_id: String },
}

/// The contents of an [`AuthError`].
pub enum AuthErrorView {
    UnknownSession(Seq<char>),
    NotOwner { session_id: Seq<char>, workspace_id: u128 },
    QuotaExceeded { resource: Seq<char>, limit: nat, current: nat, requested: nat },
    AlreadyOwned { workspace_id: u128, owner: Seq<char> },
}

impl View for AuthError {
    type V = AuthErrorView;

    open spec fn view(&self) -> AuthErrorView {
        match self {
            AuthError::UnknownSession(id) => AuthErrorView::UnknownSession(id@),
            AuthError::NotOwner { session_id, workspace_id } => AuthErrorView::NotOwner {
                session_id: session_id@,
                workspace_id: *workspace_id,
            },
            AuthError::QuotaExceeded { resource, limit, current, requested } =>
            AuthErrorView::QuotaExceeded {
                resource: resource@,
                limit: *limit as nat,
                current: *current as nat,
                requested: *requested as nat,
            },
            AuthError::AlreadyOwned { workspace_id, owner_session_id } =>
            AuthErrorView::AlreadyOwned { workspace_id: *workspace_id, owner: owner_session_id@ },
        }
    }
}

/// The text of an error.
pub open spec fn error_text(e: AuthErrorView) -> Seq<char> {
    match e {
        AuthErrorView::UnknownSession(id) => "unknown session: "@ + id,
        AuthErrorView::NotOwner { session_id, workspace_id } => "session "@ + session_id
            + " does not own workspace "@ + uuid_form(workspace_id),
        AuthErrorView::QuotaExceeded { resource, limit, current, requested } =>
        "quota exceeded: "@ + resource + " (limit: "@ + decimal(limit) + ", current: "@ + decimal(
            current,
        ) + ", requested: "@ + decimal(requested) + ")"@,
        AuthErrorView::AlreadyOwned { workspace_id, owner } => "workspace "@ + uuid_form(
            workspace_id,
        ) + " is owned by session "@ + owner
            + ". Use workspace_adopt(workspace_id=..., force=true) to claim it from the other session."@,
    }
}

impl AuthError {
    /// The text of the error.
    pub fn message(&self) -> (r: String)
        ensures
            r@ == error_text(self@),
    {
        match self {
            AuthError::UnknownSession(id) => cat2("unknown session: ", id.as_str()),
            AuthError::NotOwner { session_id, workspace_id } => {
                let w: String = uuid_text(*workspace_id);
                cat4("session ", session_id.as_str(), " does not own workspace ", w.as_str())
            },
            AuthError::QuotaExceeded { resource, limit, current, requested } => {
                let l: String = decimal_of(*limit);
                let c: String = decimal_of(*current);
                let r: String = decimal_of(*requested);
                let mut out: String = cat8(
                    "quota exceeded: ",
                    resource.as_str(),
                    " (limit: ",
                    l.as_str(),
                    ", current: ",
                    c.as_str(),
                    ", requested: ",
                    r.as_str(),
                );
                out.append(")");
                out
            },
            AuthError::AlreadyOwned { workspace_id, owner_session_id } => {
                let w: String = uuid_text(*workspace_id);
                cat5(
                    "workspace ",
                    w.as_str(),
                    " is owned by session ",
                    owner_session_id.as_str(),
                    ". Use workspace_adopt(workspace_id=..., force=true) to claim it from the other session.",
                )
            },
        }
    }
}

/// Why a session may not get a workspace with these resources, if it may not.
pub open spec fn quota_problem(s: SessionView, memory_mb: u64, disk_gb: u64) -> Option<
    AuthErrorView,
> {
    if s.usage.workspace_count >= s.quota.max_workspaces {
        Some(
            AuthErrorView::QuotaExceeded {
                resource: "workspaces"@,
                limit: s.quota.max_workspaces as nat,
                current: s.usage.workspace_count as nat,
                requested: 1,
            },
        )
    } else if s.usage.memory_mb + memory_mb > s.quota.max_memory_mb {
        Some(
            AuthErrorView::QuotaExceeded {
                resource: "memory_mb"@,
                limit: s.quota.max_memory_mb as nat,
                current: s.usage.memory_mb as nat,
                requested: memory_mb as nat,
            },
        )
    } else if s.usage.disk_gb + disk_gb > s.quota.max_disk_gb {
        Some(
            AuthErrorView::QuotaExceeded {
                resource: "disk_gb"@,
                limit: s.quota.max_disk_gb as nat,
                current: s.usage.disk_gb as nat,
                requested: disk_gb as nat,
            },
        )
    } else {
        None
    }
}

impl Session {
    /// Whether the session may get a workspace with these resources.
    fn room_for(&self, memory_mb: u64, disk_gb: u64) -> (r: Result<(), AuthError>)
        ensures
            match quota_problem(self@, memory_mb, disk_gb) {
                None => r is Ok,
                Some(e) => r is Err && r->Err_0@ == e,
            },
    {
        if self.usage.workspace_count >= self.quota.max_workspaces {
            return Err(
                AuthError::QuotaExceeded {
                    resource: owned("workspaces"),
                    limit: self.quota.max_workspaces as u64,
                    current: self.usage.workspace_count as u64,
                    requested: 1,
                },
            );
        }
        if self.usage.memory_mb as u128 + memory_mb as u128 > self.quota.max_memory_mb as u128 {
            return Err(
                AuthError::QuotaExceeded {
                    resource: owned("memory_mb"),
                    limit: self.quota.max_memory_mb,
                    current: self.usage.memory_mb,
                    requested: memory_mb,
                },
            );
        }
        if self.usage.disk_gb as u128 + disk_gb as u128 > self.quota.max_disk_gb as u128 {
            return Err(
                AuthError::QuotaExceeded {
                    resource: owned("disk_gb"),
                    limit: self.quota.max_disk_gb,
                    current: self.usage.disk_gb,
                    requested: disk_gb,
                },
            );
        }
        Ok(())
    }

    /// Give the session a workspace for which it has room.
    fn gain(&mut self, workspace: u128, memory_mb: u64, disk_gb: u64)
        requires
            quota_problem(old(self)@, memory_mb, disk_gb) is None,
        ensures
            final(self)@ == gained(old(self)@, workspace, memory_mb, disk_gb),
            final(self).id == old(self).id,
    {
        self.workspaces.insert(workspace);
        self.usage = SessionUsage {
            workspace_count: self.usage.workspace_count + 1,
            memory_mb: self.usage.memory_mb + memory_mb,
            disk_gb: self.usage.disk_gb + disk_gb,
        };
    }

    /// Take a workspace from the session.
    fn lose(&mut self, workspace: u128, memory_mb: u64, disk_gb: u64)
        ensures
            final(self)@ == lost(old(self)@, workspace, memory_mb, disk_gb),
            final(self).id == old(self).id,
    {
        self.workspaces.remove(&workspace);
        self.usage = SessionUsage {
            workspace_count: self.usage.workspace_count.saturating_sub(1),
            memory_mb: self.usage.memory_mb.saturating_sub(memory_mb),
            disk_gb: self.usage.disk_gb.saturating_sub(disk_gb),
        };
    }
}

// ---------------------------------------------------------------------------
// The sessions by name
// ---------------------------------------------------------------------------

/// Some session has this name.
spec fn known(ss: Seq<Session>, id: Seq<char>) -> bool {
    exists|i: int| 0 <= i < ss.len() && (#[trigger] ss[i]).id@ == id
}

/// A session with this name.
spec fn place(ss: Seq<Session>, id: Seq<char>) -> int {
    choose|i: int| 0 <= i < ss.len() && (#[trigger] ss[i]).id@ == id
}

/// No two sessions have the same name.
spec fn distinct(ss: Seq<Session>) -> bool {
    forall|i: int, j: int|
        0 <= i < j < ss.len() ==> (#[trigger] ss[i]).id@ != (#[trigger] ss[j]).id@
}

/// The sessions by their names.
spec fn by_id(ss: Seq<Session>) -> Map<Seq<char>, SessionView> {
    Map::new(|id: Seq<char>| known(ss, id), |id: Seq<char>| ss[place(ss, id)]@)
}

proof fn lemma_place(ss: Seq<Session>, i: int)
    requires
        distinct(ss),
        0 <= i < ss.len(),
    ensures
        known(ss, ss[i].id@),
        place(ss, ss[i].id@) == i,
        by_id(ss).dom().contains(ss[i].id@),
        by_id(ss)[ss[i].id@] == ss[i]@,
{
    let id = ss[i].id@;
    assert(ss[i].id@ == id);
    let j = place(ss, id);
    assert(0 <= j < ss.len() && ss[j].id@ == id);
}

proof fn lemma_update(ss: Seq<Session>, i: int, s: Session)
    requires
        distinct(ss),
        0 <= i < ss.len(),
        s.id == ss[i].id,
    ensures
        distinct(ss.update(i, s)),
        by_id(ss.update(i, s)) == by_id(ss).insert(s.id@, s@),
{
    let tt = ss.update(i, s);
    lemma_place(ss, i);
    assert forall|id: Seq<char>| known(tt, id) == (#[trigger] known(ss, id)) by {
        if known(ss, id) {
            let j = place(ss, id);
            assert(tt[j].id@ == id);
        }
        if known(tt, id) {
            let j = place(tt, id);
            assert(ss[j].id@ == id);
        }
    }
    assert(by_id(tt) =~= by_id(ss).insert(s.id@, s@)) by {
        assert forall|id: Seq<char>| #[trigger] known(tt, id) implies by_id(tt)[id] == by_id(
            ss,
        ).insert(s.id@, s@)[id] by {
            let j = place(tt, id);
            assert(tt[j].id@ == id);
            assert(ss[j].id@ == id);
            lemma_place(ss, j);
        }
    }
}

proof fn lemma_push(ss: Seq<Session>, s: Session)
    requires
        distinct(ss),
        !known(ss, s.id@),
    ensures
        distinct(ss.push(s)),
        by_id(ss.push(s)) == by_id(ss).insert(s.id@, s@),
{
    let tt = ss.push(s);
    assert forall|id: Seq<char>| known(tt, id) == (known(ss, id) || id == s.id@) by {
        if known(ss, id) {
            let j = place(ss, id);
            assert(tt[j].id@ == id);
        }
        assert(tt[ss.len() as int].id@ == s.id@);
        if known(tt, id) {
            let j = place(tt, id);
            if j < ss.len() {
                assert(ss[j].id@ == id);
            }
        }
    }
    assert(distinct(tt)) by {
        assert forall|i: int, j: int| 0 <= i < j < tt.len() implies (#[trigger] tt[i]).id@ != (
        #[trigger] tt[j]).id@ by {
            assert(ss[i].id@ == tt[i].id@);
            if j < ss.len() {
                assert(ss[j].id@ == tt[j].id@);
            }
        }
    }
    assert(by_id(tt) =~= by_id(ss).insert(s.id@, s@)) by {
        assert forall|id: Seq<char>| #[trigger] known(tt, id) implies by_id(tt)[id] == by_id(
            ss,
        ).insert(s.id@, s@)[id] by {
            let j = place(tt, id);
            assert(tt[j].id@ == id);
            if j < ss.len() {
                assert(ss[j].id@ == id);
                lemma_place(ss, j);
            }
        }
    }
}

proof fn lemma_remove(ss: Seq<Session>, i: int)
    requires
        distinct(ss),
        0 <= i < ss.len(),
    ensures
        distinct(ss.remove(i)),
        by_id(ss.remove(i)) == by_id(ss).remove(ss[i].id@),
{
    let tt = ss.remove(i);
    let gone = ss[i].id@;
    assert forall|j: int| 0 <= j < tt.len() implies tt[j] == ss[if j < i {
        j
    } else {
        j + 1
    }] by {}
    assert(distinct(tt)) by {
        assert forall|a: int, b: int| 0 <= a < b < tt.len() implies (#[trigger] tt[a]).id@ != (
        #[trigger] tt[b]).id@ by {
            let x = if a < i {
                a
            } else {
                a + 1
            };
            let y = if b < i {
                b
            } else {
                b + 1
            };
            assert(ss[x].id@ != ss[y].id@);
        }
    }
    assert forall|id: Seq<char>| known(tt, id) == (known(ss, id) && id != gone) by {
        if known(tt, id) {
            let j = place(tt, id);
            let x = if j < i {
                j
            } else {
                j + 1
            };
            assert(ss[x].id@ == id);
            if x < i {
                assert(ss[x].id@ != ss[i].id@);
            } else {
                assert(ss[i].id@ != ss[x].id@);
            }
        }
        if known(ss, id) && id != gone {
            let x = place(ss, id);
            let j = if x < i {
                x
            } else {
                x - 1
            };
            assert(tt[j].id@ == id);
        }
    }
    assert(by_id(tt) =~= by_id(ss).remove(gone)) by {
        assert forall|id: Seq<char>| #[trigger] known(tt, id) implies by_id(tt)[id] == by_id(
            ss,
        )[id] by {
            let j = place(tt, id);
            assert(tt[j].id@ == id);
            let x = if j < i {
                j
            } else {
                j + 1
            };
            assert(ss[x].id@ == id);
            lemma_place(ss, x);
        }
    }
}

proof fn lemma_size(ss: Seq<Session>)
    requires
        distinct(ss),
    ensures
        by_id(ss).dom().finite(),
        by_id(ss).dom().len() == ss.len(),
    decreases ss.len(),
{
    if ss.len() == 0 {
        assert(by_id(ss).dom() =~= Set::empty());
    } else {
        let last = ss.len() - 1;
        lemma_remove(ss, last);
        lemma_size(ss.remove(last));
        lemma_place(ss, last);
        assert(by_id(ss).dom() =~= by_id(ss.remove(last)).dom().insert(ss[last].id@));
    }
}

/// Some session owns the workspace.
pub open spec fn is_owned(m: Map<Seq<char>, SessionView>, workspace: u128) -> bool {
    exists|id: Seq<char>| #[trigger] m.dom().contains(id) && m[id].workspaces.contains(workspace)
}

/// Another session than this one owns the workspace.
pub open spec fn is_rival(
    m: Map<Seq<char>, SessionView>,
    id: Seq<char>,
    rival: Seq<char>,
    workspace: u128,
) -> bool {
    rival != id && m.dom().contains(rival) && m[rival].workspaces.contains(workspace)
}

/// Some session other than this one owns the workspace.
pub open spec fn has_rival(
    m: Map<Seq<char>, SessionView>,
    id: Seq<char>,
    workspace: u128,
) -> bool {
    exists|rival: Seq<char>| #[trigger] is_rival(m, id, rival, workspace)
}

/// The resources of the workspaces that still exist.
pub open spec fn surviving(ids: Seq<u128>, resources: Map<u128, (u64, u64)>) -> Seq<u128>
    decreases ids.len(),
{
    if ids.len() == 0 {
        seq![]
    } else if resources.dom().contains(ids.last()) {
        surviving(ids.drop_last(), resources).push(ids.last())
    } else {
        surviving(ids.drop_last(), resources)
    }
}

/// The memory of workspaces.
pub open spec fn memory_of(ids: Seq<u128>, resources: Map<u128, (u64, u64)>) -> nat
    decreases ids.len(),
{
    if ids.len() == 0 {
        0
    } else {
        memory_of(ids.drop_last(), resources) + resources[ids.last()].0 as nat
    }
}

/// The disk space of workspaces.
pub open spec fn disk_of(ids: Seq<u128>, resources: Map<u128, (u64, u64)>) -> nat
    decreases ids.len(),
{
    if ids.len() == 0 {
        0
    } else {
        disk_of(ids.drop_last(), resources) + resources[ids.last()].1 as nat
    }
}

/// The resources of a persisted session can be added up.
pub open spec fn countable(p: PersistedView, resources: Map<u128, (u64, u64)>) -> bool {
    &&& memory_of(surviving(p.workspaces, resources), resources) <= u64::MAX
    &&& disk_of(surviving(p.workspaces, resources), resources) <= u64::MAX
}

/// A persisted session with the workspaces that still exist.
pub open spec fn revived(
    p: PersistedView,
    resources: Map<u128, (u64, u64)>,
    quota: SessionQuota,
) -> SessionView {
    let ids = surviving(p.workspaces, resources);
    SessionView {
        created_at: p.created_at,
        workspaces: ids.to_set(),
        quota,
        usage: SessionUsage {
            workspace_count: ids.len() as usize,
            memory_mb: memory_of(ids, resources) as u64,
            disk_gb: disk_of(ids, resources) as u64,
        },
    }
}

/// The sessions after one persisted session was restored: it is left out if
/// none of its workspaces exists any more, and it replaces no session.
pub open spec fn restored_one(
    m: Map<Seq<char>, SessionView>,
    p: PersistedView,
    resources: Map<u128, (u64, u64)>,
    quota: SessionQuota,
) -> Map<Seq<char>, SessionView> {
    if surviving(p.workspaces, resources).len() == 0 || m.dom().contains(p.id) {
        m
    } else {
        m.insert(p.id, revived(p, resources, quota))
    }
}

/// The sessions after persisted sessions were restored in order.
pub open spec fn restored(
    m: Map<Seq<char>, SessionView>,
    ps: Seq<PersistedView>,
    resources: Map<u128, (u64, u64)>,
    quota: SessionQuota,
) -> Map<Seq<char>, SessionView>
    decreases ps.len(),
{
    if ps.len() == 0 {
        m
    } else {
        restored_one(restored(m, ps.drop_last(), resources, quota), ps.last(), resources, quota)
    }
}

/// The list holds each session that owns a workspace, once, and nothing else.
pub open spec fn is_export(m: Map<Seq<char>, SessionView>, ps: Seq<PersistedView>) -> bool {
    &&& forall|i: int|
        0 <= i < ps.len() ==> {
            let p = #[trigger] ps[i];
            &&& m.dom().contains(p.id)
            &&& p.workspaces.len() > 0
            &&& p.workspaces.no_duplicates()
            &&& p.workspaces.to_set() == m[p.id].workspaces
            &&& p.created_at == m[p.id].created_at
        }
    &&& forall|i: int, j: int|
        0 <= i < j < ps.len() ==> (#[trigger] ps[i]).id != (#[trigger] ps[j]).id
    &&& forall|id: Seq<char>|
        #[trigger] m.dom().contains(id) && !m[id].workspaces.is_empty() ==> exists|i: int|
            0 <= i < ps.len() && (#[trigger] ps[i]).id == id
}

// ---------------------------------------------------------------------------
// The manager
// ---------------------------------------------------------------------------

/// Session and ownership tracker. Its view is the sessions by their names.
#[derive(Debug)]
pub struct AuthManager {
    sessions: Vec<Session>,
    default_quota: SessionQuota,
}

impl View for AuthManager {
    type V = Map<Seq<char>, SessionView>;

    closed spec fn view(&self) -> Map<Seq<char>, SessionView> {
        by_id(self.sessions@)
    }
}

/// The items of a set, each once.
fn items(s: &HashSet<u128>) -> (v: Vec<u128>)
    ensures
        v@.no_duplicates(),
        v@.to_set() == s@,
{
    let mut v: Vec<u128> = Vec::new();
    let ghost all = vstd::std_specs::hash::spec_hash_keys_iter(s).remaining().unref();
    for x in it: s.iter()
        invariant
            it.seq().no_duplicates(),
            it.seq().unref() == all,
            all.to_set() == s@,
            v@ == all.take(it.index()),
    {
        v.push(*x);
    }
    proof {
        assert(all.take(all.len() as int) =~= all);
    }
    v
}

impl AuthManager {
    /// The invariant: no two sessions have the same name.
    pub closed spec fn wf(&self) -> bool {
        distinct(self.sessions@)
    }

    /// The quota that new sessions get.
    pub closed spec fn new_quota(&self) -> SessionQuota {
        self.default_quota
    }

    /// A manager without sessions.
    pub fn new(default_quota: SessionQuota) -> (m: AuthManager)
        ensures
            m.wf(),
            m@ == Map::<Seq<char>, SessionView>::empty(),
            m.new_quota() == default_quota,
    {
        let m: AuthManager = AuthManager { sessions: Vec::new(), default_quota };
        proof {
            assert(by_id(m.sessions@) =~= Map::<Seq<char>, SessionView>::empty());
        }
        m
    }

    /// Where a session stands in the list.
    fn position(&self, session_id: &str) -> (r: Option<usize>)
        requires
            self.wf(),
        ensures
            match r {
                Some(i) => {
                    &&& i < self.sessions@.len()
                    &&& self.sessions@[i as int].id@ == session_id@
                    &&& self@.dom().contains(session_id@)
                    &&& self@[session_id@] == self.sessions@[i as int]@
                },
                None => !self@.dom().contains(session_id@) && !known(self.sessions@, session_id@),
            },
    {
        let mut i: usize = 0;
        while i < self.sessions.len()
            invariant
                i <= self.sessions@.len(),
                self.wf(),
                forall|k: int| 0 <= k < i ==> (#[trigger] self.sessions@[k]).id@ != session_id@,
            decreases self.sessions.len() - i,
        {
            if same(self.sessions[i].id.as_str(), session_id) {
                proof {
                    lemma_place(self.sessions@, i as int);
                }
                return Some(i);
            }
            i = i + 1;
        }
        None
    }

    /// Register a new session. Returns the session ID. If a session with this
    /// ID already exists, nothing changes.
    pub fn register_session(&mut self, session_id: String, now: i128) -> (r: String)
        requires
            old(self).wf(),
        ensures
            final(self).wf(),
            final(self).new_quota() == old(self).new_quota(),
            r@ == session_id@,
            final(self)@ == if old(self)@.dom().contains(session_id@) {
                old(self)@
            } else {
                old(self)@.insert(session_id@, fresh(now, old(self).new_quota()))
            },
    {
        match self.position(session_id.as_str()) {
            Some(_) => {},
            None => {
                let s: Session = Session {
                    id: owned(session_id.as_str()),
                    created_at: now,
                    workspaces: HashSet::new(),
                    quota: self.default_quota,
                    usage: SessionUsage { workspace_count: 0, memory_mb: 0, disk_gb: 0 },
                };
                proof {
                    lemma_push(self.sessions@, s);
                }
                self.sessions.push(s);
            },
        }
        session_id
    }

    /// Remove a session and disassociate all its workspaces. Returns the
    /// workspaces that were owned by this session.
    pub fn remove_session(&mut self, session_id: &str) -> (r: HashSet<u128>)
        requires
            old(self).wf(),
        ensures
            final(self).wf(),
            final(self).new_quota() == old(self).new_quota(),
            final(self)@ == old(self)@.remove(session_id@),
            r@ == if old(self)@.dom().contains(session_id@) {
                old(self)@[session_id@].workspaces
            } else {
                Set::empty()
            },
    {
        match self.position(session_id) {
            Some(i) => {
                proof {
                    lemma_remove(self.sessions@, i as int);
                }
                let s: Session = self.sessions.remove(i);
                s.workspaces
            },
            None => {
                proof {
                    assert(self@ =~= self@.remove(session_id@));
                }
                HashSet::new()
            },
        }
    }

    /// Record that a workspace was created by a session. Also updates usage
    /// counters. Fails, and changes nothing, if the quota would be exceeded.
    pub fn register_workspace(
        &mut self,
        session_id: &str,
        workspace_id: u128,
        memory_mb: u64,
        disk_gb: u64,
    ) -> (r: Result<(), AuthError>)
        requires
            old(self).wf(),
        ensures
            final(self).wf(),
            final(self).new_quota() == old(self).new_quota(),
            if !old(self)@.dom().contains(session_id@) {
                &&& r is Err
                &&& r->Err_0@ == AuthErrorView::UnknownSession(session_id@)
                &&& final(self)@ == old(self)@
            } else {
                match quota_problem(old(self)@[session_id@], memory_mb, disk_gb) {
                    Some(e) => r is Err && r->Err_0@ == e && final(self)@ == old(self)@,
                    None => r is Ok && final(self)@ == old(self)@.insert(
                        session_id@,
                        gained(old(self)@[session_id@], workspace_id, memory_mb, disk_gb),
                    ),
                }
            },
    {
        match self.position(session_id) {
            None => Err(AuthError::UnknownSession(owned(session_id))),
            Some(i) => {
                match self.sessions[i].room_for(memory_mb, disk_gb) {
                    Err(e) => Err(e),
                    Ok(()) => {
                        let ghost before = self.sessions@;
                        self.sessions[i].gain(workspace_id, memory_mb, disk_gb);
                        proof {
                            lemma_update(before, i as int, self.sessions@[i as int]);
                        }
                        Ok(())
                    },
                }
            },
        }
    }

    /// Remove a workspace from a session's ownership and release quota.
    pub fn unregister_workspace(
        &mut self,
        session_id: &str,
        workspace_id: u128,
        memory_mb: u64,
        disk_gb: u64,
    ) -> (r: Result<(), AuthError>)
        requires
            old(self).wf(),
        ensures
            final(self).wf(),
            final(self).new_quota() == old(self).new_quota(),
            if !old(self)@.dom().contains(session_id@) {
                &&& r is Err
                &&& r->Err_0@ == AuthErrorView::UnknownSession(session_id@)
                &&& final(self)@ == old(self)@
            } else if old(self)@[session_id@].workspaces.contains(workspace_id) {
                r is Ok && final(self)@ == old(self)@.insert(
                    session_id@,
                    lost(old(self)@[session_id@], workspace_id, memory_mb, disk_gb),
                )
            } else {
                r is Ok && final(self)@ == old(self)@
            },
    {
        match self.position(session_id) {
            None => Err(AuthError::UnknownSession(owned(session_id))),
            Some(i) => {
                if self.sessions[i].workspaces.contains(&workspace_id) {
                    let ghost before = self.sessions@;
                    self.sessions[i].lose(workspace_id, memory_mb, disk_gb);
                    proof {
                        lemma_update(before, i as int, self.sessions@[i as int]);
                    }
                }
                Ok(())
            },
        }
    }

    /// Check whether adding a workspace with the given resources would exceed
    /// the quota.
    pub fn check_quota(&self, session_id: &str, memory_mb: u64, disk_gb: u64) -> (r: Result<
        (),
        AuthError,
    >)
        requires
            self.wf(),
        ensures
            if !self@.dom().contains(session_id@) {
                r is Err && r->Err_0@ == AuthErrorView::UnknownSession(session_id@)
            } else {
                match quota_problem(self@[session_id@], memory_mb, disk_gb) {
                    Some(e) => r is Err && r->Err_0@ == e,
                    None => r is Ok,
                }
            },
    {
        match self.position(session_id) {
            None => Err(AuthError::UnknownSession(owned(session_id))),
            Some(i) => self.sessions[i].room_for(memory_mb, disk_gb),
        }
    }

    /// Verify that the given session owns the given workspace.
    pub fn check_ownership(&self, session_id: &str, workspace_id: u128) -> (r: Result<
        (),
        AuthError,
    >)
        requires
            self.wf(),
        ensures
            if !self@.dom().contains(session_id@) {
                r is Err && r->Err_0@ == AuthErrorView::UnknownSession(session_id@)
            } else if !self@[session_id@].workspaces.contains(workspace_id) {
                r is Err && r->Err_0@ == (AuthErrorView::NotOwner {
                    session_id: session_id@,
                    workspace_id,
                })
            } else {
                r is Ok
            },
    {
        match self.position(session_id) {
            None => Err(AuthError::UnknownSession(owned(session_id))),
            Some(i) => if self.sessions[i].workspaces.contains(&workspace_id) {
                Ok(())
            } else {
                Err(AuthError::NotOwner { session_id: owned(session_id), workspace_id })
            },
        }
    }

    /// Get the current usage of a session.
    pub fn get_usage(&self, session_id: &str) -> (r: Result<SessionUsage, AuthError>)
        requires
            self.wf(),
        ensures
            if self@.dom().contains(session_id@) {
                r == Ok::<SessionUsage, AuthError>(self@[session_id@].usage)
            } else {
                r is Err && r->Err_0@ == AuthErrorView::UnknownSession(session_id@)
            },
    {
        match self.position(session_id) {
            None => Err(AuthError::UnknownSession(owned(session_id))),
            Some(i) => Ok(self.sessions[i].usage),
        }
    }

    /// Get the quota of a session.
    pub fn get_quota(&self, session_id: &str) -> (r: Result<SessionQuota, AuthError>)
        requires
            self.wf(),
        ensures
            if self@.dom().contains(session_id@) {
                r == Ok::<SessionQuota, AuthError>(self@[session_id@].quota)
            } else {
                r is Err && r->Err_0@ == AuthErrorView::UnknownSession(session_id@)
            },
    {
        match self.position(session_id) {
            None => Err(AuthError::UnknownSession(owned(session_id))),
            Some(i) => Ok(self.sessions[i].quota),
        }
    }

    /// List all workspaces owned by a session, each once and in no particular
    /// order.
    pub fn list_workspaces(&self, session_id: &str) -> (r: Result<Vec<u128>, AuthError>)
        requires
            self.wf(),
        ensures
            if self@.dom().contains(session_id@) {
                &&& r is Ok
                &&& r->Ok_0@.no_duplicates()
                &&& r->Ok_0@.to_set() == self@[session_id@].workspaces
            } else {
                r is Err && r->Err_0@ == AuthErrorView::UnknownSession(session_id@)
            },
    {
        match self.position(session_id) {
            None => Err(AuthError::UnknownSession(owned(session_id))),
            Some(i) => Ok(items(&self.sessions[i].workspaces)),
        }
    }

    /// Check whether no session owns a workspace.
    pub fn is_workspace_orphaned(&self, workspace_id: &u128) -> (r: bool)
        requires
            self.wf(),
        ensures
            r == !is_owned(self@, *workspace_id),
    {
        let mut i: usize = 0;
        while i < self.sessions.len()
            invariant
                i <= self.sessions@.len(),
                self.wf(),
                forall|k: int|
                    0 <= k < i ==> !(#[trigger] self.sessions@[k]).workspaces@.contains(
                        *workspace_id,
                    ),
            decreases self.sessions.len() - i,
        {
            if self.sessions[i].workspaces.contains(workspace_id) {
                proof {
                    lemma_place(self.sessions@, i as int);
                    assert(self@.dom().contains(self.sessions@[i as int].id@));
                }
                return false;
            }
            i = i + 1;
        }
        proof {
            if is_owned(self@, *workspace_id) {
                let id = choose|id: Seq<char>| #[trigger]
                    self@.dom().contains(id) && self@[id].workspaces.contains(*workspace_id);
                let k = place(self.sessions@, id);
                assert(known(self.sessions@, id));
                assert(!self.sessions@[k].workspaces@.contains(*workspace_id));
            }
        }
        true
    }

    /// Remove all sessions except the given one, releasing their workspace
    /// ownership. Returns the number of sessions removed.
    pub fn purge_stale_sessions(&mut self, keep_session_id: &str) -> (n: usize)
        requires
            old(self).wf(),
        ensures
            final(self).wf(),
            final(self).new_quota() == old(self).new_quota(),
            final(self)@ == old(self)@.restrict(set![keep_session_id@]),
            old(self)@.dom().finite(),
            n == old(self)@.dom().remove(keep_session_id@).len(),
    {
        let total: usize = self.sessions.len();
        let ghost before = self@;
        proof {
            lemma_size(self.sessions@);
        }
        match self.position(keep_session_id) {
            Some(i) => {
                let s: Session = self.sessions.remove(i);
                self.sessions = Vec::new();
                proof {
                    assert(by_id(self.sessions@) =~= Map::<Seq<char>, SessionView>::empty());
                    lemma_push(self.sessions@, s);
                    assert(by_id(self.sessions@.push(s)) =~= before.restrict(
                        set![keep_session_id@],
                    ));
                }
                self.sessions.push(s);
                total - 1
            },
            None => {
                self.sessions = Vec::new();
                proof {
                    assert(by_id(self.sessions@) =~= before.restrict(set![keep_session_id@]));
                    assert(before.dom().remove(keep_session_id@) =~= before.dom());
                }
                total
            },
        }
    }

    /// Return all workspaces from `candidates` that are not owned by any
    /// session, in the order of the candidates.
    pub fn list_orphaned_workspaces(&self, candidates: &[u128]) -> (r: Vec<u128>)
        requires
            self.wf(),
        ensures
            r@ == candidates@.filter(|id: u128| !is_owned(self@, id)),
    {
        let ghost free = |id: u128| !is_owned(self@, id);
        let mut out: Vec<u128> = Vec::new();
        let mut i: usize = 0;
        proof {
            reveal(Seq::filter);
            assert(candidates@.take(0).filter(free) =~= seq![]);
        }
        while i < candidates.len()
            invariant
                i <= candidates@.len(),
                self.wf(),
                free == (|id: u128| !is_owned(self@, id)),
                out@ == candidates@.take(i as int).filter(free),
            decreases candidates.len() - i,
        {
            proof {
                reveal(Seq::filter);
                let t = candidates@.take(i + 1);
                assert(t.drop_last() =~= candidates@.take(i as int));
            }
            if self.is_workspace_orphaned(&candidates[i]) {
                out.push(candidates[i]);
            }
            i = i + 1;
        }
        proof {
            assert(candidates@.take(candidates@.len() as int) =~= candidates@);
        }
        out
    }

    /// Another session that owns a workspace.
    fn rival(&self, session_id: &str, workspace_id: u128) -> (r: Option<usize>)
        requires
            self.wf(),
        ensures
            match r {
                Some(i) => {
                    &&& i < self.sessions@.len()
                    &&& is_rival(
                        self@,
                        session_id@,
                        self.sessions@[i as int].id@,
                        workspace_id,
                    )
                },
                None => !has_rival(self@, session_id@, workspace_id),
            },
    {
        let mut i: usize = 0;
        while i < self.sessions.len()
            invariant
                i <= self.sessions@.len(),
                self.wf(),
                forall|k: int|
                    0 <= k < i ==> (#[trigger] self.sessions@[k]).id@ == session_id@
                        || !self.sessions@[k].workspaces@.contains(workspace_id),
            decreases self.sessions.len() - i,
        {
            if !same(self.sessions[i].id.as_str(), session_id)
                && self.sessions[i].workspaces.contains(&workspace_id) {
                proof {
                    lemma_place(self.sessions@, i as int);
                }
                return Some(i);
            }
            i = i + 1;
        }
        proof {
            if has_rival(self@, session_id@, workspace_id) {
                let id = choose|id: Seq<char>| #[trigger]
                    is_rival(self@, session_id@, id, workspace_id);
                let k = place(self.sessions@, id);
                assert(known(self.sessions@, id));
                assert(self.sessions@[k].id@ == id);
            }
        }
        None
    }

    /// Adopt an existing workspace into a session.
    ///
    /// Fails if another session owns the workspace unless `force` is true, in
    /// which case ownership is transferred. Quotas are checked before anything
    /// is taken from the other session, so that a failure changes nothing.
    pub fn adopt_workspace(
        &mut self,
        session_id: &str,
        workspace_id: &u128,
        memory_mb: u64,
        disk_gb: u64,
        force: bool,
    ) -> (r: Result<(), AuthError>)
        requires
            old(self).wf(),
        ensures
            final(self).wf(),
            final(self).new_quota() == old(self).new_quota(),
            r is Err ==> final(self)@ == old(self)@,
            if !old(self)@.dom().contains(session_id@) {
                r is Err && r->Err_0@ == AuthErrorView::UnknownSession(session_id@)
            } else if !force && has_rival(old(self)@, session_id@, *workspace_id) {
                &&& r is Err
                &&& r->Err_0@ is AlreadyOwned
                &&& r->Err_0@ == (AuthErrorView::AlreadyOwned {
                    workspace_id: *workspace_id,
                    owner: r->Err_0@->owner,
                })
                &&& is_rival(old(self)@, session_id@, r->Err_0@->owner, *workspace_id)
            } else if old(self)@[session_id@].workspaces.contains(*workspace_id) {
                r is Ok && final(self)@ == old(self)@
            } else {
                match quota_problem(old(self)@[session_id@], memory_mb, disk_gb) {
                    Some(e) => r is Err && r->Err_0@ == e,
                    None => r is Ok && is_transfer(
                        old(self)@,
                        final(self)@,
                        session_id@,
                        *workspace_id,
                        memory_mb,
                        disk_gb,
                    ),
                }
            },
    {
        let at: usize = match self.position(session_id) {
            None => {
                return Err(AuthError::UnknownSession(owned(session_id)));
            },
            Some(i) => i,
        };
        let previous: Option<usize> = self.rival(session_id, *workspace_id);
        match previous {
            Some(k) => if !force {
                return Err(
                    AuthError::AlreadyOwned {
                        workspace_id: *workspace_id,
                        owner_session_id: owned(self.sessions[k].id.as_str()),
                    },
                );
            },
            None => {},
        }
        if self.sessions[at].workspaces.contains(workspace_id) {
            return Ok(());
        }
        match self.sessions[at].room_for(memory_mb, disk_gb) {
            Err(e) => {
                return Err(e);
            },
            Ok(()) => {},
        }
        let ghost start = self@;
        let ghost first = self.sessions@;
        match previous {
            Some(k) => {
                proof {
                    lemma_place(first, k as int);
                    assert(k != at);
                }
                self.sessions[k].lose(*workspace_id, memory_mb, disk_gb);
                proof {
                    lemma_update(first, k as int, self.sessions@[k as int]);
                }
            },
            None => {},
        }
        let ghost second = self.sessions@;
        proof {
            lemma_place(second, at as int);
        }
        self.sessions[at].gain(*workspace_id, memory_mb, disk_gb);
        proof {
            lemma_update(second, at as int, self.sessions@[at as int]);
            match previous {
                Some(k) => {
                    let rival = first[k as int].id@;
                    assert(is_rival(start, session_id@, rival, *workspace_id));
                    assert(moved(
                        start,
                        self@,
                        session_id@,
                        rival,
                        *workspace_id,
                        memory_mb,
                        disk_gb,
                    ));
                },
                None => {},
            }
        }
        Ok(())
    }

    /// Export all sessions as persistable ownership records. Only sessions with
    /// at least one workspace are exported.
    pub fn export_sessions(&self) -> (r: Vec<PersistedSession>)
        requires
            self.wf(),
        ensures
            is_export(self@, persisted_view(r@)),
    {
        let ghost m = self@;
        let mut out: Vec<PersistedSession> = Vec::new();
        let mut i: usize = 0;
        while i < self.sessions.len()
            invariant
                i <= self.sessions@.len(),
                self.wf(),
                m == self@,
                forall|k: int|
                    0 <= k < out@.len() ==> {
                        let p = #[trigger] out@[k]@;
                        &&& m.dom().contains(p.id)
                        &&& p.workspaces.len() > 0
                        &&& p.workspaces.no_duplicates()
                        &&& p.workspaces.to_set() == m[p.id].workspaces
                        &&& p.created_at == m[p.id].created_at
                        &&& exists|q: int|
                            0 <= q < i && (#[trigger] self.sessions@[q]).id@ == p.id
                    },
                forall|a: int, b: int|
                    0 <= a < b < out@.len() ==> (#[trigger] out@[a]@).id != (
                    #[trigger] out@[b]@).id,
                forall|q: int|
                    0 <= q < i && !(#[trigger] self.sessions@[q]).workspaces@.is_empty()
                        ==> exists|k: int|
                        0 <= k < out@.len() && (#[trigger] out@[k]@).id == self.sessions@[q].id@,
            decreases self.sessions.len() - i,
        {
            let s: &Session = &self.sessions[i];
            proof {
                lemma_place(self.sessions@, i as int);
            }
            if !s.workspaces.is_empty() {
                let ids: Vec<u128> = items(&s.workspaces);
                let p: PersistedSession = PersistedSession {
                    session_id: owned(s.id.as_str()),
                    workspace_ids: ids,
                    created_at: s.created_at,
                };
                let ghost before = out@;
                proof {
                    if ids@.len() == 0 {
                        assert(ids@.to_set() =~= Set::empty());
                        assert(s.workspaces@.is_empty());
                    }
                }
                out.push(p);
                proof {
                    assert(out@[before.len() as int]@.id == self.sessions@[i as int].id@);
                    assert forall|a: int, b: int| 0 <= a < b < out@.len() implies (
                    #[trigger] out@[a]@).id != (#[trigger] out@[b]@).id by {
                        assert(out@[a]@ == before[a]@);
                        if b < before.len() {
                            assert(out@[b]@ == before[b]@);
                        } else {
                            let q = choose|q: int|
                                0 <= q < i && (#[trigger] self.sessions@[q]).id@ == out@[a]@.id;
                            assert(self.sessions@[q].id@ != self.sessions@[i as int].id@);
                        }
                    }
                    assert forall|q: int|
                        0 <= q < i + 1 && !(
                        #[trigger] self.sessions@[q]).workspaces@.is_empty() implies exists|k: int|
                        0 <= k < out@.len() && (#[trigger] out@[k]@).id
                            == self.sessions@[q].id@ by {
                        if q < i {
                            let k = choose|k: int|
                                0 <= k < before.len() && (#[trigger] before[k]@).id
                                    == self.sessions@[q].id@;
                            assert(out@[k]@.id == self.sessions@[q].id@);
                        }
                    }
                }
            }
            i = i + 1;
        }
        proof {
            let ps = persisted_view(out@);
            assert forall|id: Seq<char>| #[trigger]
                m.dom().contains(id) && !m[id].workspaces.is_empty() implies exists|k: int|
                0 <= k < ps.len() && (#[trigger] ps[k]).id == id by {
                let q = place(self.sessions@, id);
                assert(known(self.sessions@, id));
                assert(self.sessions@[q].id@ == id);
                let k = choose|k: int|
                    0 <= k < out@.len() && (#[trigger] out@[k]@).id == self.sessions@[q].id@;
                assert(ps[k].id == id);
            }
            assert forall|k: int| 0 <= k < ps.len() implies #[trigger] ps[k] == out@[k]@ by {}
        }
        out
    }

    /// Restore session ownership from persisted records.
    ///
    /// Creates sessions and associates them with their workspaces. Usage
    /// counters are rebuilt from the resources of the workspaces (memory in
    /// megabytes, disk in gigabytes). Workspaces without resources do not exist
    /// any more and are skipped.
    pub fn restore_sessions(
        &mut self,
        persisted: &Vec<PersistedSession>,
        workspace_resources: &HashMap<u128, (u64, u64)>,
    )
        requires
            old(self).wf(),
            forall|i: int|
                0 <= i < persisted@.len() ==> countable(
                    #[trigger] persisted@[i]@,
                    workspace_resources@,
                ),
        ensures
            final(self).wf(),
            final(self).new_quota() == old(self).new_quota(),
            final(self)@ == restored(
                old(self)@,
                persisted_view(persisted@),
                workspace_resources@,
                old(self).new_quota(),
            ),
    {
        let ghost start = self@;
        let ghost all = persisted_view(persisted@);
        let ghost res = workspace_resources@;
        let ghost quota = self.default_quota;
        let mut i: usize = 0;
        while i < persisted.len()
            invariant
                i <= persisted@.len(),
                self.wf(),
                self.default_quota == quota,
                all == persisted_view(persisted@),
                res == workspace_resources@,
                forall|k: int|
                    0 <= k < persisted@.len() ==> countable(#[trigger] persisted@[k]@, res),
                self@ == restored(start, all.take(i as int), res, quota),
            decreases persisted.len() - i,
        {
            let p: &PersistedSession = &persisted[i];
            let ghost ids = p.workspace_ids@;
            proof {
                assert(countable(persisted@[i as int]@, res));
                let t = all.take(i + 1);
                assert(t.drop_last() =~= all.take(i as int));
                assert(t.last() == p@);
            }
            let mut set: HashSet<u128> = HashSet::new();
            let mut count: usize = 0;
            let mut memory_mb: u64 = 0;
            let mut disk_gb: u64 = 0;
            let mut k: usize = 0;
            proof {
                assert(surviving(ids.take(0), res).to_set() =~= Set::empty());
            }
            while k < p.workspace_ids.len()
                invariant
                    k <= p.workspace_ids@.len(),
                    ids == p.workspace_ids@,
                    res == workspace_resources@,
                    countable(p@, res),
                    set@ == surviving(ids.take(k as int), res).to_set(),
                    count == surviving(ids.take(k as int), res).len(),
                    count <= k,
                    memory_mb == memory_of(surviving(ids.take(k as int), res), res),
                    disk_gb == disk_of(surviving(ids.take(k as int), res), res),
                decreases p.workspace_ids.len() - k,
            {
                let id: u128 = p.workspace_ids[k];
                proof {
                    let t = ids.take(k + 1);
                    assert(t.drop_last() =~= ids.take(k as int));
                    lemma_surviving_prefix(ids, res, k + 1);
                    let old_ids = surviving(ids.take(k as int), res);
                    assert(old_ids.push(id).drop_last() =~= old_ids);
                    assert(old_ids.push(id).to_set() =~= old_ids.to_set().insert(id)) by {
                        assert(old_ids.push(id)[old_ids.len() as int] == id);
                        assert forall|x: u128| old_ids.to_set().contains(x) implies old_ids.push(
                            id,
                        ).to_set().contains(x) by {
                            let j = choose|j: int| 0 <= j < old_ids.len() && old_ids[j] == x;
                            assert(old_ids.push(id)[j] == x);
                        }
                    }
                }
                match workspace_resources.get(&id) {
                    Some(r) => {
                        set.insert(id);
                        count = count + 1;
                        memory_mb = memory_mb + r.0;
                        disk_gb = disk_gb + r.1;
                    },
                    None => {},
                }
                k = k + 1;
            }
            proof {
                assert(ids.take(ids.len() as int) =~= ids);
            }
            if count > 0 {
                match self.position(p.session_id.as_str()) {
                    Some(_) => {},
                    None => {
                        let s: Session = Session {
                            id: owned(p.session_id.as_str()),
                            created_at: p.created_at,
                            workspaces: set,
                            quota: self.default_quota,
                            usage: SessionUsage { workspace_count: count, memory_mb, disk_gb },
                        };
                        proof {
                            lemma_push(self.sessions@, s);
                        }
                        self.sessions.push(s);
                    },
                }
            }
            i = i + 1;
        }
        proof {
            assert(all.take(persisted@.len() as int) =~= all);
        }
    }
}

/// The resources of a prefix of the workspaces are no more than those of all.
proof fn lemma_surviving_prefix(ids: Seq<u128>, res: Map<u128, (u64, u64)>, k: int)
    requires
        0 <= k <= ids.len(),
    ensures
        memory_of(surviving(ids.take(k), res), res) <= memory_of(surviving(ids, res), res),
        disk_of(surviving(ids.take(k), res), res) <= disk_of(surviving(ids, res), res),
    decreases ids.len(),
{
    if k == ids.len() {
        assert(ids.take(k) =~= ids);
    } else {
        lemma_surviving_prefix(ids.drop_last(), res, k);
        assert(ids.drop_last().take(k) =~= ids.take(k));
        let rest = surviving(ids.drop_last(), res);
        assert(rest.push(ids.last()).drop_last() =~= rest);
    }
}

/// One session got a workspace that another one lost.
pub open spec fn moved(
    before: Map<Seq<char>, SessionView>,
    after: Map<Seq<char>, SessionView>,
    id: Seq<char>,
    rival: Seq<char>,
    workspace: u128,
    memory_mb: u64,
    disk_gb: u64,
) -> bool {
    after == before.insert(rival, lost(before[rival], workspace, memory_mb, disk_gb)).insert(
        id,
        gained(before[id], workspace, memory_mb, disk_gb),
    )
}

/// A session got a workspace. Where others owned it, one of them lost it.
pub open spec fn is_transfer(
    before: Map<Seq<char>, SessionView>,
    after: Map<Seq<char>, SessionView>,
    id: Seq<char>,
    workspace: u128,
    memory_mb: u64,
    disk_gb: u64,
) -> bool {
    if has_rival(before, id, workspace) {
        exists|rival: Seq<char>| #[trigger]
            is_rival(before, id, rival, workspace) && moved(
                before,
                after,
                id,
                rival,
                workspace,
                memory_mb,
                disk_gb,
            )
    } else {
        after == before.insert(id, gained(before[id], workspace, memory_mb, disk_gb))
    }
}

// ---------------------------------------------------------------------------
// Tool calls
// ---------------------------------------------------------------------------

/// The answer to a call on a workspace that the session does not own.
pub open spec fn not_owned_text(workspace: u128, e: AuthErrorView) -> Seq<char> {
    "Workspace "@ + uuid_form(workspace) + " is not owned by this session: "@ + error_text(e)
        + ". Use workspace_adopt(workspace_id=...) to claim it, or workspace_adopt() with no workspace_id to claim all orphaned workspaces."@
}

/// Verify that a session owns a workspace before a tool touches it.
pub fn require_ownership(auth: &AuthManager, session_id: &str, workspace_id: u128) -> (r: Result<
    (),
    ToolError,
>)
    requires
        auth.wf(),
    ensures
        if !auth@.dom().contains(session_id@) {
            r is Err && r->Err_0@ == (
                ErrorKind::InvalidRequest,
                not_owned_text(workspace_id, AuthErrorView::UnknownSession(session_id@)),
            )
        } else if !auth@[session_id@].workspaces.contains(workspace_id) {
            r is Err && r->Err_0@ == (
                ErrorKind::InvalidRequest,
                not_owned_text(
                    workspace_id,
                    AuthErrorView::NotOwner { session_id: session_id@, workspace_id },
                ),
            )
        } else {
            r is Ok
        },
{
    match auth.check_ownership(session_id, workspace_id) {
        Ok(()) => Ok(()),
        Err(e) => {
            let w: String = uuid_text(workspace_id);
            let m: String = e.message();
            Err(
                invalid_request(
                    cat5(
                        "Workspace ",
                        w.as_str(),
                        " is not owned by this session: ",
                        m.as_str(),
                        ". Use workspace_adopt(workspace_id=...) to claim it, or workspace_adopt() with no workspace_id to claim all orphaned workspaces.",
                    ),
                ),
            )
        },
    }
}

// ---------------------------------------------------------------------------
// Laws
// ---------------------------------------------------------------------------

/// The usage of a session is within its quota.
pub open spec fn within_quota(s: SessionView) -> bool {
    &&& s.usage.workspace_count <= s.quota.max_workspaces
    &&& s.usage.memory_mb <= s.quota.max_memory_mb
    &&& s.usage.disk_gb <= s.quota.max_disk_gb
}

/// A new session is within its quota, and neither getting a workspace that the
/// quota has room for nor losing one takes a session out of it.
pub proof fn law_quota_is_kept(
    s: SessionView,
    created_at: i128,
    quota: SessionQuota,
    workspace: u128,
    memory_mb: u64,
    disk_gb: u64,
)
    requires
        within_quota(s),
    ensures
        within_quota(fresh(created_at, quota)),
        quota_problem(s, memory_mb, disk_gb) is None ==> within_quota(
            gained(s, workspace, memory_mb, disk_gb),
        ),
        within_quota(lost(s, workspace, memory_mb, disk_gb)),
{
}

/// Giving back a workspace undoes registering it: ownership and all counters
/// are as before.
pub proof fn law_unregister_undoes_register(
    s: SessionView,
    workspace: u128,
    memory_mb: u64,
    disk_gb: u64,
)
    requires
        quota_problem(s, memory_mb, disk_gb) is None,
        !s.workspaces.contains(workspace),
    ensures
        lost(gained(s, workspace, memory_mb, disk_gb), workspace, memory_mb, disk_gb) == s,
{
    assert(s.workspaces.insert(workspace).remove(workspace) =~= s.workspaces);
}

/// Registering a workspace makes its session the owner, makes the workspace no
/// orphan, and changes no other session.
pub proof fn law_register_gives_ownership(
    m: Map<Seq<char>, SessionView>,
    id: Seq<char>,
    workspace: u128,
    memory_mb: u64,
    disk_gb: u64,
)
    requires
        m.dom().contains(id),
    ensures
        ({
            let after = m.insert(id, gained(m[id], workspace, memory_mb, disk_gb));
            &&& after[id].workspaces.contains(workspace)
            &&& is_owned(after, workspace)
            &&& forall|other: Seq<char>|
                other != id && #[trigger] m.dom().contains(other) ==> after[other] == m[other]
        }),
{
    let after = m.insert(id, gained(m[id], workspace, memory_mb, disk_gb));
    assert(after.dom().contains(id));
}

/// Adopting a workspace makes the adopter an owner, and changes nothing about
/// who owns any other workspace: whoever owned one before still does.
pub proof fn law_adopt_moves_only_the_workspace(
    before: Map<Seq<char>, SessionView>,
    after: Map<Seq<char>, SessionView>,
    id: Seq<char>,
    workspace: u128,
    memory_mb: u64,
    disk_gb: u64,
)
    requires
        before.dom().contains(id),
        is_transfer(before, after, id, workspace, memory_mb, disk_gb),
    ensures
        after.dom() == before.dom(),
        after[id].workspaces.contains(workspace),
        is_owned(after, workspace),
        forall|other: Seq<char>, w: u128|
            before.dom().contains(other) && w != workspace ==> (
            #[trigger] after[other].workspaces.contains(w)) == before[other].workspaces.contains(w),
{
    if has_rival(before, id, workspace) {
        let rival = choose|rival: Seq<char>| #[trigger]
            is_rival(before, id, rival, workspace) && moved(
                before,
                after,
                id,
                rival,
                workspace,
                memory_mb,
                disk_gb,
            );
        assert(after.dom() =~= before.dom());
    } else {
        assert(after.dom() =~= before.dom());
    }
    assert(after.dom().contains(id));
}

/// Adopting a workspace by force from its only other owner leaves the adopter
/// as the only owner.
pub proof fn law_forced_adoption_is_exclusive(
    before: Map<Seq<char>, SessionView>,
    after: Map<Seq<char>, SessionView>,
    id: Seq<char>,
    rival: Seq<char>,
    workspace: u128,
    memory_mb: u64,
    disk_gb: u64,
)
    requires
        before.dom().contains(id),
        is_transfer(before, after, id, workspace, memory_mb, disk_gb),
        is_rival(before, id, rival, workspace),
        forall|other: Seq<char>| #[trigger] is_rival(before, id, other, workspace) ==> other == rival,
    ensures
        !has_rival(after, id, workspace),
        after[id].workspaces.contains(workspace),
{
    let taken = choose|r: Seq<char>| #[trigger]
        is_rival(before, id, r, workspace) && moved(
            before,
            after,
            id,
            r,
            workspace,
            memory_mb,
            disk_gb,
        );
    assert(taken == rival);
    assert forall|other: Seq<char>| !(#[trigger] is_rival(after, id, other, workspace)) by {
        if is_rival(after, id, other, workspace) {
            if other != rival {
                assert(is_rival(before, id, other, workspace));
            }
        }
    }
}

/// After stale sessions are purged, a workspace is owned exactly if the session
/// that was kept owns it.
pub proof fn law_purge_orphans_the_rest(
    m: Map<Seq<char>, SessionView>,
    keep: Seq<char>,
    workspace: u128,
)
    ensures
        is_owned(m.restrict(set![keep]), workspace) <==> m.dom().contains(keep)
            && m[keep].workspaces.contains(workspace),
{
    let after = m.restrict(set![keep]);
    if m.dom().contains(keep) && m[keep].workspaces.contains(workspace) {
        assert(after.dom().contains(keep));
    }
}

/// All workspaces of a list survive if they all have resources.
proof fn lemma_all_survive(ids: Seq<u128>, res: Map<u128, (u64, u64)>)
    requires
        forall|i: int| 0 <= i < ids.len() ==> res.dom().contains(#[trigger] ids[i]),
    ensures
        surviving(ids, res) == ids,
    decreases ids.len(),
{
    if ids.len() == 0 {
        assert(surviving(ids, res) =~= ids);
    } else {
        assert forall|i: int| 0 <= i < ids.drop_last().len() implies res.dom().contains(
            #[trigger] ids.drop_last()[i],
        ) by {
            assert(ids.drop_last()[i] == ids[i]);
        }
        lemma_all_survive(ids.drop_last(), res);
        assert(ids.last() == ids[ids.len() - 1]);
        assert(ids.drop_last().push(ids.last()) =~= ids);
    }
}

/// What was exported and is restored into a server without sessions gives back
/// each session that owned something: the same workspaces, the same creation
/// time, and usage counters that add up the resources of those workspaces.
pub proof fn law_restore_gives_back_export(
    m: Map<Seq<char>, SessionView>,
    ps: Seq<PersistedView>,
    res: Map<u128, (u64, u64)>,
    quota: SessionQuota,
)
    requires
        is_export(m, ps),
        forall|id: Seq<char>, w: u128|
            m.dom().contains(id) && #[trigger] m[id].workspaces.contains(w) ==> res.dom().contains(
                w,
            ),
    ensures
        ({
            let back = restored(Map::empty(), ps, res, quota);
            &&& forall|id: Seq<char>| #[trigger]
                back.dom().contains(id) <==> m.dom().contains(id) && !m[id].workspaces.is_empty()
            &&& forall|id: Seq<char>| #[trigger]
                back.dom().contains(id) ==> back[id].workspaces == m[id].workspaces
                    && back[id].created_at == m[id].created_at && back[id].quota == quota
            &&& forall|i: int|
                0 <= i < ps.len() ==> back[(#[trigger] ps[i]).id].usage == (SessionUsage {
                    workspace_count: ps[i].workspaces.len() as usize,
                    memory_mb: memory_of(ps[i].workspaces, res) as u64,
                    disk_gb: disk_of(ps[i].workspaces, res) as u64,
                })
        }),
{
    lemma_restored_export(m, ps, res, quota, ps.len() as int);
    assert(ps.take(ps.len() as int) =~= ps);
    let back = restored(Map::empty(), ps, res, quota);
    assert forall|id: Seq<char>| #[trigger] back.dom().contains(id) implies m.dom().contains(id)
        && !m[id].workspaces.is_empty() && back[id].workspaces == m[id].workspaces
        && back[id].created_at == m[id].created_at && back[id].quota == quota by {
        let i = choose|i: int| 0 <= i < ps.len() && (#[trigger] ps[i]).id == id;
        assert(ps[i].workspaces.to_set().contains(ps[i].workspaces[0]));
    }
}

/// The first `k` exported sessions, restored.
proof fn lemma_restored_export(
    m: Map<Seq<char>, SessionView>,
    ps: Seq<PersistedView>,
    res: Map<u128, (u64, u64)>,
    quota: SessionQuota,
    k: int,
)
    requires
        is_export(m, ps),
        0 <= k <= ps.len(),
        forall|id: Seq<char>, w: u128|
            m.dom().contains(id) && #[trigger] m[id].workspaces.contains(w) ==> res.dom().contains(
                w,
            ),
    ensures
        ({
            let back = restored(Map::empty(), ps.take(k), res, quota);
            &&& forall|id: Seq<char>| #[trigger]
                back.dom().contains(id) <==> exists|i: int|
                    0 <= i < k && (#[trigger] ps[i]).id == id
            &&& forall|i: int|
                0 <= i < k ==> {
                    let p = #[trigger] ps[i];
                    &&& back.dom().contains(p.id)
                    &&& back[p.id] == (SessionView {
                        created_at: p.created_at,
                        workspaces: p.workspaces.to_set(),
                        quota,
                        usage: SessionUsage {
                            workspace_count: p.workspaces.len() as usize,
                            memory_mb: memory_of(p.workspaces, res) as u64,
                            disk_gb: disk_of(p.workspaces, res) as u64,
                        },
                    })
                }
        }),
    decreases k,
{
    if k > 0 {
        lemma_restored_export(m, ps, res, quota, k - 1);
        let t = ps.take(k);
        assert(t.drop_last() =~= ps.take(k - 1));
        let p = ps[k - 1];
        assert(t.last() == p);
        assert forall|i: int| 0 <= i < p.workspaces.len() implies res.dom().contains(
            #[trigger] p.workspaces[i],
        ) by {
            assert(p.workspaces.to_set().contains(p.workspaces[i]));
            assert(m[p.id].workspaces.contains(p.workspaces[i]));
        }
        lemma_all_survive(p.workspaces, res);
        let before = restored(Map::empty(), ps.take(k - 1), res, quota);
        assert(!before.dom().contains(p.id)) by {
            if before.dom().contains(p.id) {
                let i = choose|i: int| 0 <= i < k - 1 && (#[trigger] ps[i]).id == p.id;
                assert(ps[i].id != ps[k - 1].id);
            }
        }
        let back = restored(Map::empty(), t, res, quota);
        assert(back == before.insert(p.id, revived(p, res, quota)));
        assert forall|i: int| 0 <= i < k implies {
            let q = #[trigger] ps[i];
            &&& back.dom().contains(q.id)
            &&& back[q.id] == (SessionView {
                created_at: q.created_at,
                workspaces: q.workspaces.to_set(),
                quota,
                usage: SessionUsage {
                    workspace_count: q.workspaces.len() as usize,
                    memory_mb: memory_of(q.workspaces, res) as u64,
                    disk_gb: disk_of(q.workspaces, res) as u64,
                },
            })
        } by {
            if i < k - 1 {
                assert(ps[i].id != ps[k - 1].id);
            }
        }
        assert forall|id: Seq<char>| #[trigger] back.dom().contains(id) implies exists|i: int|
            0 <= i < k && (#[trigger] ps[i]).id == id by {
            if id == p.id {
                assert(ps[k - 1].id == id);
            } else {
                assert(before.dom().contains(id));
                let i = choose|i: int| 0 <= i < k - 1 && (#[trigger] ps[i]).id == id;
                assert(0 <= i < k && ps[i].id == id);
            }
        }
    }
}

} // verus!
