//! Preparing workspaces for forking, setting up forked workers, and adopting
//! workspaces without an owner.

use crate::mcp::auth::{
    error_text, gained, has_rival, is_owned, is_rival, quota_problem, AuthError, AuthErrorView,
    AuthManager, SessionView,
};
use crate::mcp::error::{internal_error, invalid_request, ErrorKind, ToolError};
use crate::mcp::exchange::{
    complaint, complaint_of, reply_view, ExecReply, Output, Request, RequestView,
};
use crate::mcp::git_tools::{exec, git_url_problem, validate_git_url};
use crate::mcp::rate_limit::{draws, too_soon, RateLimiter, Slot};
use crate::mcp::tools::{base_image_problem, quote, shell_escape, validate_base_image};
use crate::mcp::workspace_tools::{
    no_room, release, released, require_room, CreateRequest, Forked, Worker,
};
use crate::number::{decimal, decimal_of, signed, signed_of};
use crate::text::{cat2, cat3, cat4, opt_text, owned, texts};
use vstd::prelude::*;
use vstd::string::*;

verus! {

// ---------------------------------------------------------------------------
// Preparation
// ---------------------------------------------------------------------------

/// Memory of a workspace that is prepared, in megabytes.
pub const PREPARE_MEMORY_MB: u32 = 512;

/// Disk size of a workspace that is prepared, in gigabytes.
pub const PREPARE_DISK_GB: u32 = 10;

/// Parameters of `workspace_prepare`.
#[derive(Debug)]
pub struct WorkspacePrepareParams {
    /// Human-readable name for the workspace.
    pub name: String,
    /// Base image to use (default: alpine-opencode).
    pub base_image: Option<String>,
    /// Git repository to clone into /workspace.
    pub git_url: Option<String>,
    /// Shell commands to run in sequence after the clone.
    pub setup_commands: Option<Vec<String>>,
}

/// Where a preparation stands.
#[derive(Clone, Copy, Debug, PartialEq, Eq, Structural)]
pub enum PrepareStage {
    /// The repository is being cloned.
    Cloning,
    /// A setup command runs; so many are done.
    SettingUp { done: usize },
    /// The guest filesystem is being flushed.
    Syncing,
}

/// What a preparation does next.
#[derive(Debug)]
pub enum PrepareNext {
    /// Run a command and come back at this stage.
    Run { request: Request, stage: PrepareStage },
    /// Create this snapshot.
    Snapshot { name: String, include_memory: bool },
    /// Destroy the workspace, whatever becomes of it; the preparation failed.
    Abandon(ToolError),
}

impl PrepareNext {
    /// A command is to be run.
    pub open spec fn runs(
        self,
        workspace: u128,
        command: Seq<char>,
        timeout_secs: u64,
        stage: PrepareStage,
    ) -> bool {
        self is Run && self->request@ == (RequestView::Exec { workspace, command, timeout_secs })
            && self->stage == stage
    }

    /// The preparation failed.
    pub open spec fn abandons(self, message: Seq<char>) -> bool {
        self is Abandon && self->Abandon_0@ == (ErrorKind::Internal, message)
    }
}

/// What is said of a command that failed.
pub open spec fn command_failure(what: Seq<char>, reply: Result<Output, Seq<char>>) -> Option<
    Seq<char>,
> {
    match reply {
        Err(e) => Some(what + " failed: "@ + e),
        Ok(o) => if o.code != 0 {
            Some(what + " failed (exit "@ + signed(o.code) + "): "@ + complaint(o))
        } else {
            None
        },
    }
}

/// What is said of a command that failed.
fn failure_of(what: &str, reply: &Result<ExecReply, String>) -> (r: Option<String>)
    ensures
        opt_text(r) == command_failure(what@, reply_view(*reply)),
{
    match reply {
        Err(e) => Some(cat3(what, " failed: ", e.as_str())),
        Ok(o) => if o.exit_code != 0 {
            let code: String = signed_of(o.exit_code);
            let mut s: String = cat4(what, " failed (exit ", code.as_str(), "): ");
            s.append(complaint_of(o));
            Some(s)
        } else {
            None
        },
    }
}

impl WorkspacePrepareParams {
    /// The image to use.
    pub open spec fn image(self) -> Seq<char> {
        crate::mcp::git_tools::text_or(self.base_image, "alpine-opencode"@)
    }

    /// The setup commands.
    pub open spec fn commands(self) -> Seq<Seq<char>> {
        match self.setup_commands {
            Some(v) => texts(v@),
            None => seq![],
        }
    }

    /// Why a preparation is refused, if it is.
    pub open spec fn problem(self, m: Map<Seq<char>, SessionView>, session: Seq<char>) -> Option<
        (ErrorKind, Seq<char>),
    > {
        let url = match self.git_url {
            Some(u) => git_url_problem(u@),
            None => None,
        };
        if url is Some {
            Some((ErrorKind::InvalidParams, url->0))
        } else if base_image_problem(self.image()) is Some {
            Some((ErrorKind::InvalidParams, base_image_problem(self.image())->0))
        } else {
            match no_room(m, session, PREPARE_MEMORY_MB as u64, PREPARE_DISK_GB as u64) {
                Some(e) => Some((ErrorKind::InvalidRequest, error_text(e))),
                None => None,
            }
        }
    }

    /// Begin a preparation, if the default rate limit allows it: the workspace
    /// to be created. It has internet access, which cloning needs.
    pub fn start(
        &self,
        auth: &AuthManager,
        session: &str,
        limiter: &mut RateLimiter,
        now: u64,
    ) -> (r: Result<CreateRequest, ToolError>)
        requires
            auth.wf(),
            old(limiter).wf(),
        ensures
            final(limiter).wf(),
            draws(*old(limiter), *final(limiter), Slot::Default, now),
            match (too_soon(*old(limiter), Slot::Default, now), self.problem(auth@, session@)) {
                (Some(e), _) => r is Err && r->Err_0@ == e,
                (None, Some(e)) => r is Err && r->Err_0@ == e,
                (None, None) => {
                    &&& r is Ok
                    &&& opt_text(r->Ok_0.name) == Some(self.name@)
                    &&& opt_text(r->Ok_0.base_image) == Some(self.image())
                    &&& r->Ok_0.vcpus is None
                    &&& r->Ok_0.memory_mb == PREPARE_MEMORY_MB
                    &&& r->Ok_0.disk_gb == PREPARE_DISK_GB
                    &&& r->Ok_0.allow_internet == Some(true)
                },
            },
    {
        match limiter.draw(Slot::Default, now) {
            Err(e) => {
                return Err(e);
            },
            Ok(()) => {},
        }
        match &self.git_url {
            Some(url) => {
                match validate_git_url(url.as_str()) {
                    Err(e) => {
                        return Err(e);
                    },
                    Ok(()) => {},
                }
            },
            None => {},
        }
        let image: String = owned(
            crate::mcp::git_tools::str_or(&self.base_image, "alpine-opencode"),
        );
        match validate_base_image(image.as_str()) {
            Err(e) => {
                return Err(e);
            },
            Ok(()) => {},
        }
        match require_room(auth, session, PREPARE_MEMORY_MB as u64, PREPARE_DISK_GB as u64) {
            Err(e) => {
                return Err(e);
            },
            Ok(()) => {},
        }
        Ok(
            CreateRequest {
                name: Some(owned(self.name.as_str())),
                base_image: Some(image),
                vcpus: None,
                memory_mb: PREPARE_MEMORY_MB,
                disk_gb: PREPARE_DISK_GB,
                allow_internet: Some(true),
            },
        )
    }

    /// The next setup command, or the flush when all are done.
    fn next_command(&self, workspace: u128, done: usize) -> (r: PrepareNext)
        ensures
            if done < self.commands().len() {
                r.runs(
                    workspace,
                    self.commands()[done as int],
                    300,
                    PrepareStage::SettingUp { done },
                )
            } else {
                r.runs(workspace, "sync"@, 30, PrepareStage::Syncing)
            },
    {
        match &self.setup_commands {
            Some(v) => {
                if done < v.len() {
                    proof {
                        assert(texts(v@)[done as int] == v@[done as int]@);
                    }
                    return PrepareNext::Run {
                        request: exec(workspace, owned(v[done].as_str()), 300),
                        stage: PrepareStage::SettingUp { done },
                    };
                }
            },
            None => {},
        }
        PrepareNext::Run { request: exec(workspace, owned("sync"), 30), stage: PrepareStage::Syncing }
    }

    /// The error for a workspace that could not be created.
    pub fn create_failed(&self, why: &str) -> (e: ToolError)
        ensures
            e@ == (ErrorKind::Internal, "create failed: "@ + why@),
    {
        internal_error(cat2("create failed: ", why))
    }

    /// Go on when the workspace was created: register it, then clone if there
    /// is something to clone, then run the setup commands.
    pub fn created(&self, auth: &mut AuthManager, session: &str, workspace: Forked) -> (r:
        PrepareNext)
        requires
            old(auth).wf(),
        ensures
            final(auth).wf(),
            final(auth).new_quota() == old(auth).new_quota(),
            match no_room(
                old(auth)@,
                session@,
                workspace.memory_mb as u64,
                workspace.disk_gb as u64,
            ) {
                Some(e) => {
                    &&& r is Abandon
                    &&& r->Abandon_0@ == (ErrorKind::InvalidRequest, error_text(e))
                    &&& final(auth)@ == old(auth)@
                },
                None => {
                    &&& final(auth)@ == old(auth)@.insert(
                        session@,
                        gained(
                            old(auth)@[session@],
                            workspace.id,
                            workspace.memory_mb as u64,
                            workspace.disk_gb as u64,
                        ),
                    )
                    &&& match self.git_url {
                        Some(url) => r.runs(
                            workspace.id,
                            "git clone "@ + quote(url@) + " /workspace"@,
                            300,
                            PrepareStage::Cloning,
                        ),
                        None => if self.commands().len() > 0 {
                            r.runs(
                                workspace.id,
                                self.commands()[0],
                                300,
                                PrepareStage::SettingUp { done: 0 },
                            )
                        } else {
                            r.runs(workspace.id, "sync"@, 30, PrepareStage::Syncing)
                        },
                    }
                },
            },
    {
        match auth.register_workspace(
            session,
            workspace.id,
            workspace.memory_mb as u64,
            workspace.disk_gb as u64,
        ) {
            Err(e) => PrepareNext::Abandon(invalid_request(e.message())),
            Ok(()) => match &self.git_url {
                Some(url) => {
                    let u: String = shell_escape(url.as_str());
                    PrepareNext::Run {
                        request: exec(
                            workspace.id,
                            cat3("git clone ", u.as_str(), " /workspace"),
                            300,
                        ),
                        stage: PrepareStage::Cloning,
                    }
                },
                None => self.next_command(workspace.id, 0),
            },
        }
    }

    /// Go on after a command. A clone or a setup command that fails ends the
    /// preparation and takes the workspace from the session again; whether the
    /// flush succeeds does not matter. At the end stands the snapshot `golden`,
    /// without memory.
    pub fn step(
        &self,
        auth: &mut AuthManager,
        session: &str,
        workspace: u128,
        stage: PrepareStage,
        reply: &Result<ExecReply, String>,
    ) -> (r: PrepareNext)
        requires
            old(auth).wf(),
            stage matches PrepareStage::SettingUp { done } ==> done < usize::MAX,
        ensures
            final(auth).wf(),
            final(auth).new_quota() == old(auth).new_quota(),
            final(auth)@ == if r is Abandon {
                released(
                    old(auth)@,
                    session@,
                    workspace,
                    PREPARE_MEMORY_MB as u64,
                    PREPARE_DISK_GB as u64,
                )
            } else {
                old(auth)@
            },
            match stage {
                PrepareStage::Cloning => match command_failure(
                    "git clone"@,
                    reply_view(*reply),
                ) {
                    Some(e) => r.abandons(e),
                    None => if self.commands().len() > 0 {
                        r.runs(
                            workspace,
                            self.commands()[0],
                            300,
                            PrepareStage::SettingUp { done: 0 },
                        )
                    } else {
                        r.runs(workspace, "sync"@, 30, PrepareStage::Syncing)
                    },
                },
                PrepareStage::SettingUp { done } => match command_failure(
                    "setup command "@ + decimal((done + 1) as nat),
                    reply_view(*reply),
                ) {
                    Some(e) => r.abandons(e),
                    None => if done + 1 < self.commands().len() {
                        r.runs(
                            workspace,
                            self.commands()[done + 1],
                            300,
                            PrepareStage::SettingUp { done: (done + 1) as usize },
                        )
                    } else {
                        r.runs(workspace, "sync"@, 30, PrepareStage::Syncing)
                    },
                },
                PrepareStage::Syncing => r is Snapshot && r->name@ == "golden"@
                    && !r->include_memory,
            },
    {
        match stage {
            PrepareStage::Cloning => match failure_of("git clone", reply) {
                Some(e) => {
                    release(
                        auth,
                        session,
                        workspace,
                        PREPARE_MEMORY_MB as u64,
                        PREPARE_DISK_GB as u64,
                    );
                    PrepareNext::Abandon(internal_error(e))
                },
                None => self.next_command(workspace, 0),
            },
            PrepareStage::SettingUp { done } => {
                let n: String = decimal_of(done as u64 + 1);
                let what: String = cat2("setup command ", n.as_str());
                match failure_of(what.as_str(), reply) {
                    Some(e) => {
                        release(
                            auth,
                            session,
                            workspace,
                            PREPARE_MEMORY_MB as u64,
                            PREPARE_DISK_GB as u64,
                        );
                        PrepareNext::Abandon(internal_error(e))
                    },
                    None => self.next_command(workspace, done + 1),
                }
            },
            PrepareStage::Syncing => PrepareNext::Snapshot {
                name: owned("golden"),
                include_memory: false,
            },
        }
    }

    /// The end of a preparation, given what became of the snapshot. Where it
    /// failed, the workspace is taken from the session again and must be
    /// destroyed.
    pub fn finish(
        &self,
        auth: &mut AuthManager,
        session: &str,
        workspace: u128,
        outcome: &Result<(), String>,
    ) -> (r: Result<(), ToolError>)
        requires
            old(auth).wf(),
        ensures
            final(auth).wf(),
            final(auth).new_quota() == old(auth).new_quota(),
            match *outcome {
                Ok(_) => r is Ok && final(auth)@ == old(auth)@,
                Err(why) => {
                    &&& r is Err
                    &&& r->Err_0@ == (
                        ErrorKind::Internal,
                        "snapshot creation failed: "@ + why@,
                    )
                    &&& final(auth)@ == released(
                        old(auth)@,
                        session@,
                        workspace,
                        PREPARE_MEMORY_MB as u64,
                        PREPARE_DISK_GB as u64,
                    )
                },
            },
    {
        match outcome {
            Ok(()) => Ok(()),
            Err(why) => {
                release(
                    auth,
                    session,
                    workspace,
                    PREPARE_MEMORY_MB as u64,
                    PREPARE_DISK_GB as u64,
                );
                Err(internal_error(cat2("snapshot creation failed: ", why.as_str())))
            },
        }
    }
}

// ---------------------------------------------------------------------------
// Workers
// ---------------------------------------------------------------------------

/// How the setup of a forked worker goes on.
#[derive(Debug)]
pub enum WorkerNext {
    /// Run a setup command; so many are done already.
    Run { request: Request, done: usize },
    /// Nothing is left to be run.
    Ready,
    /// A command failed. The worker stays, and the rest is not run.
    Failed { error: String },
}

/// The contents of a [`WorkerNext`].
pub enum WorkerNextView {
    Run { request: RequestView, done: int },
    Ready,
    Failed { error: Seq<char> },
}

impl View for WorkerNext {
    type V = WorkerNextView;

    open spec fn view(&self) -> WorkerNextView {
        match *self {
            WorkerNext::Run { request, done } => WorkerNextView::Run {
                request: request@,
                done: done as int,
            },
            WorkerNext::Ready => WorkerNextView::Ready,
            WorkerNext::Failed { error } => WorkerNextView::Failed { error: error@ },
        }
    }
}

/// The setup of a worker when so many commands are done: the next command, or
/// nothing.
pub open spec fn worker_setup(
    commands: Seq<Seq<char>>,
    workspace: u128,
    done: int,
) -> WorkerNextView {
    if 0 <= done < commands.len() {
        WorkerNextView::Run {
            request: RequestView::Exec { workspace, command: commands[done], timeout_secs: 300 },
            done,
        }
    } else {
        WorkerNextView::Ready
    }
}

/// The setup of a worker after the reply to a command.
pub open spec fn worker_setup_after(
    commands: Seq<Seq<char>>,
    workspace: u128,
    done: int,
    reply: Result<Output, Seq<char>>,
) -> WorkerNextView {
    match command_failure("setup command "@ + decimal((done + 1) as nat), reply) {
        Some(error) => WorkerNextView::Failed { error },
        None => worker_setup(commands, workspace, done + 1),
    }
}

/// The next setup command of a worker.
fn next_setup(commands: &Vec<String>, workspace: u128, done: usize) -> (r: WorkerNext)
    ensures
        r@ == worker_setup(texts(commands@), workspace, done as int),
{
    if done < commands.len() {
        proof {
            assert(texts(commands@)[done as int] == commands@[done as int]@);
        }
        WorkerNext::Run {
            request: exec(workspace, owned(commands[done].as_str()), 300),
            done,
        }
    } else {
        WorkerNext::Ready
    }
}

/// Begin the setup of a worker of a batch: each worker that was created runs
/// all setup commands, in order. For a worker that was not, there is nothing
/// to run.
pub fn worker_start(worker: &Worker, commands: &Vec<String>) -> (r: WorkerNext)
    ensures
        r@ == match *worker {
            Worker::Created(w) => worker_setup(texts(commands@), w.id, 0),
            _ => WorkerNextView::Ready,
        },
{
    match worker {
        Worker::Created(w) => next_setup(commands, w.id, 0),
        _ => WorkerNext::Ready,
    }
}

/// Go on with the setup of a worker after the reply to a command, before which
/// so many were done.
pub fn worker_step(
    commands: &Vec<String>,
    workspace: u128,
    done: usize,
    reply: &Result<ExecReply, String>,
) -> (r: WorkerNext)
    requires
        done < commands@.len(),
    ensures
        r@ == worker_setup_after(texts(commands@), workspace, done as int, reply_view(*reply)),
{
    let total: usize = commands.len();
    assert(done < total);
    let n: String = decimal_of(done as u64 + 1);
    let what: String = cat2("setup command ", n.as_str());
    match failure_of(what.as_str(), reply) {
        Some(error) => WorkerNext::Failed { error },
        None => next_setup(commands, workspace, done + 1),
    }
}

/// The setup of a worker after several replies.
pub open spec fn worker_run(
    commands: Seq<Seq<char>>,
    workspace: u128,
    replies: Seq<Result<Output, Seq<char>>>,
) -> WorkerNextView
    decreases replies.len(),
{
    if replies.len() == 0 {
        worker_setup(commands, workspace, 0)
    } else {
        match worker_run(commands, workspace, replies.drop_last()) {
            WorkerNextView::Run { done, .. } => worker_setup_after(
                commands,
                workspace,
                done,
                replies.last(),
            ),
            other => other,
        }
    }
}

// ---------------------------------------------------------------------------
// Adoption
// ---------------------------------------------------------------------------

/// What became of adopting several workspaces.
#[derive(Debug)]
pub struct Adoption {
    /// The workspaces that were adopted, in order.
    pub adopted: Vec<u128>,
    /// The workspaces that could not be adopted, each with the reason.
    pub errors: Vec<(u128, String)>,
}

/// Adopt one workspace. A workspace of another session stays with it.
pub fn adopt_one(auth: &mut AuthManager, session: &str, workspace: Forked) -> (r: Result<
    (),
    ToolError,
>)
    requires
        old(auth).wf(),
    ensures
        final(auth).wf(),
        final(auth).new_quota() == old(auth).new_quota(),
        r is Err ==> final(auth)@ == old(auth)@,
        r is Err ==> if !old(auth)@.dom().contains(session@) {
            r->Err_0@ == (
                ErrorKind::InvalidRequest,
                error_text(AuthErrorView::UnknownSession(session@)),
            )
        } else if has_rival(old(auth)@, session@, workspace.id) {
            exists|rival: Seq<char>| #[trigger]
                is_rival(old(auth)@, session@, rival, workspace.id) && r->Err_0@ == (
                    ErrorKind::InvalidRequest,
                    error_text(
                        AuthErrorView::AlreadyOwned { workspace_id: workspace.id, owner: rival },
                    ),
                )
        } else {
            r->Err_0@ == (
                ErrorKind::InvalidRequest,
                error_text(
                    quota_problem(
                        old(auth)@[session@],
                        workspace.memory_mb as u64,
                        workspace.disk_gb as u64,
                    )->0,
                ),
            )
        },
        r is Ok <==> old(auth)@.dom().contains(session@) && !has_rival(
            old(auth)@,
            session@,
            workspace.id,
        ) && (old(auth)@[session@].workspaces.contains(workspace.id) || quota_problem(
            old(auth)@[session@],
            workspace.memory_mb as u64,
            workspace.disk_gb as u64,
        ) is None),
        r is Ok ==> final(auth)@ == adopted_by(old(auth)@, session@, workspace),
{
    match auth.adopt_workspace(
        session,
        &workspace.id,
        workspace.memory_mb as u64,
        workspace.disk_gb as u64,
        false,
    ) {
        Ok(()) => Ok(()),
        Err(e) => Err(invalid_request(e.message())),
    }
}

/// The sessions after one adopted a workspace that no other one owns.
pub open spec fn adopted_by(m: Map<Seq<char>, SessionView>, session: Seq<char>, w: Forked) -> Map<
    Seq<char>,
    SessionView,
> {
    if m[session].workspaces.contains(w.id) {
        m
    } else {
        m.insert(session, gained(m[session], w.id, w.memory_mb as u64, w.disk_gb as u64))
    }
}

/// What a session is after it adopted the first `n` workspaces of a list that
/// it did not own before, as far as its quota has room.
pub open spec fn after_adopting(
    start: SessionView,
    all: Seq<Forked>,
    n: int,
) -> SessionView
    decreases n,
{
    if n <= 0 {
        start
    } else {
        let s = after_adopting(start, all, n - 1);
        let w = all[n - 1];
        if start.workspaces.contains(w.id) || s.workspaces.contains(w.id) || quota_problem(
            s,
            w.memory_mb as u64,
            w.disk_gb as u64,
        ) is Some {
            s
        } else {
            gained(s, w.id, w.memory_mb as u64, w.disk_gb as u64)
        }
    }
}

/// The workspaces that are adopted of the first `n`.
pub open spec fn adopted_of(start: SessionView, all: Seq<Forked>, n: int) -> Seq<u128>
    decreases n,
{
    if n <= 0 {
        seq![]
    } else {
        let s = after_adopting(start, all, n - 1);
        let w = all[n - 1];
        let before = adopted_of(start, all, n - 1);
        if start.workspaces.contains(w.id) {
            before
        } else if s.workspaces.contains(w.id) || quota_problem(
            s,
            w.memory_mb as u64,
            w.disk_gb as u64,
        ) is None {
            before.push(w.id)
        } else {
            before
        }
    }
}

/// The workspaces that could not be adopted of the first `n`, with the reasons.
pub open spec fn refused_of(start: SessionView, all: Seq<Forked>, n: int) -> Seq<(u128, Seq<char>)>
    decreases n,
{
    if n <= 0 {
        seq![]
    } else {
        let s = after_adopting(start, all, n - 1);
        let w = all[n - 1];
        let before = refused_of(start, all, n - 1);
        if start.workspaces.contains(w.id) || s.workspaces.contains(w.id) {
            before
        } else {
            match quota_problem(s, w.memory_mb as u64, w.disk_gb as u64) {
                Some(e) => before.push((w.id, error_text(e))),
                None => before,
            }
        }
    }
}

/// The contents of a list of refusals.
pub open spec fn refusals_view(v: Seq<(u128, String)>) -> Seq<(u128, Seq<char>)> {
    Seq::new(v.len(), |i: int| (v[i].0, v[i].1@))
}

/// The refusals of a session that is not known.
pub open spec fn all_unknown(session: Seq<char>, all: Seq<Forked>) -> Seq<(u128, Seq<char>)> {
    Seq::new(
        all.len(),
        |i: int| (all[i].id, error_text(AuthErrorView::UnknownSession(session))),
    )
}

/// Refuse all workspaces to a session that is not known.
fn refuse_all(session: &str, all: &Vec<Forked>) -> (r: Vec<(u128, String)>)
    ensures
        refusals_view(r@) == all_unknown(session@, all@),
{
    let mut r: Vec<(u128, String)> = Vec::new();
    let mut i: usize = 0;
    while i < all.len()
        invariant
            i <= all@.len(),
            r@.len() == i,
            forall|k: int|
                0 <= k < i ==> (#[trigger] r@[k]).0 == all@[k].id && r@[k].1@ == error_text(
                    AuthErrorView::UnknownSession(session@),
                ),
        decreases all.len() - i,
    {
        let e: AuthError = AuthError::UnknownSession(owned(session));
        r.push((all[i].id, e.message()));
        i = i + 1;
    }
    proof {
        assert(refusals_view(r@) =~= all_unknown(session@, all@));
    }
    r
}

/// Adopt all workspaces without an owner.
///
/// Sessions that no client is connected to are removed first, so that only
/// this session is left and what others owned has no owner any more.
pub fn adopt_all(auth: &mut AuthManager, session: &str, all: &Vec<Forked>) -> (r: Adoption)
    requires
        old(auth).wf(),
    ensures
        final(auth).wf(),
        final(auth).new_quota() == old(auth).new_quota(),
        if old(auth)@.dom().contains(session@) {
            let start = old(auth)@[session@];
            let n = all@.len() as int;
            &&& final(auth)@ == Map::<Seq<char>, SessionView>::empty().insert(
                session@,
                after_adopting(start, all@, n),
            )
            &&& r.adopted@ == adopted_of(start, all@, n)
            &&& refusals_view(r.errors@) == refused_of(start, all@, n)
        } else {
            &&& final(auth)@ == Map::<Seq<char>, SessionView>::empty()
            &&& r.adopted@ == Seq::<u128>::empty()
            &&& refusals_view(r.errors@) == all_unknown(session@, all@)
        },
{
    let ghost start = auth@[session@];
    let known: bool = auth.get_usage(session).is_ok();
    let purged: usize = auth.purge_stale_sessions(session);
    if !known {
        proof {
            assert(auth@ =~= Map::<Seq<char>, SessionView>::empty());
        }
        return Adoption { adopted: Vec::new(), errors: refuse_all(session, all) };
    }
    proof {
        assert(auth@ =~= Map::<Seq<char>, SessionView>::empty().insert(session@, start));
    }
    let mut ids: Vec<u128> = Vec::new();
    let mut k: usize = 0;
    while k < all.len()
        invariant
            k <= all@.len(),
            ids@ == Seq::new(k as nat, |i: int| all@[i].id),
        decreases all.len() - k,
    {
        proof {
            assert(ids@.push(all@[k as int].id) =~= Seq::new((k + 1) as nat, |i: int| all@[i].id));
        }
        ids.push(all[k].id);
        k = k + 1;
    }
    let orphaned: Vec<u128> = auth.list_orphaned_workspaces(ids.as_slice());
    proof {
        let free = |id: u128| !is_owned(auth@, id);
        assert forall|i: int| 0 <= i < all@.len() implies orphaned@.contains(
            #[trigger] all@[i].id,
        ) == !start.workspaces.contains(all@[i].id) by {
            lemma_filter_contains(ids@, free, all@[i].id);
            assert(ids@[i] == all@[i].id);
            assert(ids@.contains(all@[i].id));
            if start.workspaces.contains(all@[i].id) {
                assert(auth@.dom().contains(session@));
                assert(is_owned(auth@, all@[i].id));
            } else if is_owned(auth@, all@[i].id) {
                let id = choose|id: Seq<char>| #[trigger]
                    auth@.dom().contains(id) && auth@[id].workspaces.contains(all@[i].id);
                assert(id == session@);
            }
        }
    }
    let mut adopted: Vec<u128> = Vec::new();
    let mut errors: Vec<(u128, String)> = Vec::new();
    let mut i: usize = 0;
    proof {
        assert(refusals_view(errors@) =~= seq![]);
    }
    while i < all.len()
        invariant
            i <= all@.len(),
            auth.wf(),
            auth.new_quota() == old(auth).new_quota(),
            forall|j: int|
                0 <= j < all@.len() ==> orphaned@.contains(#[trigger] all@[j].id)
                    == !start.workspaces.contains(all@[j].id),
            auth@ == Map::<Seq<char>, SessionView>::empty().insert(
                session@,
                after_adopting(start, all@, i as int),
            ),
            adopted@ == adopted_of(start, all@, i as int),
            refusals_view(errors@) == refused_of(start, all@, i as int),
        decreases all.len() - i,
    {
        let w: Forked = all[i];
        let ghost s = after_adopting(start, all@, i as int);
        let ghost before = auth@;
        proof {
            assert(w == all@[i as int]);
            assert(auth@.dom().contains(session@));
            assert(auth@[session@] == s);
            assert(!has_rival(auth@, session@, w.id)) by {
                if has_rival(auth@, session@, w.id) {
                    let rival = choose|rival: Seq<char>| #[trigger]
                        is_rival(auth@, session@, rival, w.id);
                    assert(auth@.dom().contains(rival));
                }
            }
            assert(orphaned@.contains(all@[i as int].id) == !start.workspaces.contains(w.id));
        }
        if contains_id(&orphaned, w.id) {
            match auth.adopt_workspace(
                session,
                &w.id,
                w.memory_mb as u64,
                w.disk_gb as u64,
                false,
            ) {
                Ok(()) => {
                    adopted.push(w.id);
                    proof {
                        assert(auth@ =~= Map::<Seq<char>, SessionView>::empty().insert(
                            session@,
                            after_adopting(start, all@, i + 1),
                        ));
                    }
                },
                Err(e) => {
                    let m: String = e.message();
                    let ghost old_errors = errors@;
                    errors.push((w.id, m));
                    proof {
                        assert(refusals_view(errors@) =~= refusals_view(old_errors).push(
                            (w.id, m@),
                        ));
                    }
                },
            }
        } else {
            proof {
                assert(start.workspaces.contains(w.id));
            }
        }
        i = i + 1;
    }
    Adoption { adopted, errors }
}

/// Whether an identifier is in a list.
fn contains_id(v: &Vec<u128>, id: u128) -> (r: bool)
    ensures
        r == v@.contains(id),
{
    let mut i: usize = 0;
    while i < v.len()
        invariant
            i <= v@.len(),
            forall|k: int| 0 <= k < i ==> v@[k] != id,
        decreases v.len() - i,
    {
        if v[i] == id {
            return true;
        }
        i = i + 1;
    }
    false
}

/// What a filtered list holds.
proof fn lemma_filter_contains(s: Seq<u128>, p: spec_fn(u128) -> bool, x: u128)
    ensures
        s.filter(p).contains(x) <==> s.contains(x) && p(x),
    decreases s.len(),
{
    reveal(Seq::filter);
    if s.len() > 0 {
        let init = s.drop_last();
        lemma_filter_contains(init, p, x);
        if s.contains(x) {
            let i = choose|i: int| 0 <= i < s.len() && s[i] == x;
            if i < init.len() {
                assert(init[i] == x);
            }
        }
        if init.contains(x) {
            let i = choose|i: int| 0 <= i < init.len() && init[i] == x;
            assert(s[i] == x);
        }
        let f = init.filter(p);
        if p(s.last()) {
            let g = f.push(s.last());
            assert(s.filter(p) == g);
            assert(g[f.len() as int] == s.last());
            assert(s[s.len() - 1] == s.last());
            if f.contains(x) {
                let i = choose|i: int| 0 <= i < f.len() && f[i] == x;
                assert(g[i] == x);
            }
            if g.contains(x) {
                let i = choose|i: int| 0 <= i < g.len() && g[i] == x;
                if i < f.len() {
                    assert(f[i] == x);
                }
            }
        }
    }
}

// ---------------------------------------------------------------------------
// Laws
// ---------------------------------------------------------------------------

/// Every setup command is run on a worker, each once and in order, as long as
/// none fails; then the worker is ready.
pub proof fn law_worker_runs_every_command(
    commands: Seq<Seq<char>>,
    workspace: u128,
    replies: Seq<Result<Output, Seq<char>>>,
)
    requires
        replies.len() <= commands.len(),
        forall|i: int|
            0 <= i < replies.len() ==> (#[trigger] replies[i] matches Ok(o) && o.code == 0),
    ensures
        worker_run(commands, workspace, replies) == worker_setup(
            commands,
            workspace,
            replies.len() as int,
        ),
    decreases replies.len(),
{
    if replies.len() > 0 {
        let before = replies.drop_last();
        assert forall|i: int| 0 <= i < before.len() implies (#[trigger] before[i] matches Ok(o)
            && o.code == 0) by {
            assert(before[i] == replies[i]);
        }
        law_worker_runs_every_command(commands, workspace, before);
        assert(replies.last() == replies[replies.len() - 1]);
    }
}

/// Adopting keeps a session within its quota.
pub proof fn law_adopting_keeps_quota(start: SessionView, all: Seq<Forked>, n: int)
    requires
        crate::mcp::auth::within_quota(start),
        0 <= n <= all.len(),
    ensures
        crate::mcp::auth::within_quota(after_adopting(start, all, n)),
    decreases n,
{
    if n > 0 {
        law_adopting_keeps_quota(start, all, n - 1);
    }
}

/// Every workspace of the list is owned by the session afterwards, or was
/// refused with a reason.
pub proof fn law_adoption_accounts_for_all(start: SessionView, all: Seq<Forked>, n: int, i: int)
    requires
        0 <= i < n <= all.len(),
    ensures
        after_adopting(start, all, n).workspaces.contains(all[i].id) || exists|k: int|
            0 <= k < refused_of(start, all, n).len() && (#[trigger] refused_of(
                start,
                all,
                n,
            )[k]).0 == all[i].id,
    decreases n,
{
    lemma_adopting_grows(start, all, n);
    let before = refused_of(start, all, n - 1);
    let now = refused_of(start, all, n);
    if i < n - 1 {
        law_adoption_accounts_for_all(start, all, n - 1, i);
        if !after_adopting(start, all, n - 1).workspaces.contains(all[i].id) {
            let k = choose|k: int| 0 <= k < before.len() && (#[trigger] before[k]).0 == all[i].id;
            assert(now[k] == before[k]);
        }
    } else {
        lemma_adopting_keeps(start, all, n - 1);
        let s = after_adopting(start, all, n - 1);
        let w = all[n - 1];
        if !(start.workspaces.contains(w.id) || s.workspaces.contains(w.id)) {
            if quota_problem(s, w.memory_mb as u64, w.disk_gb as u64) is Some {
                assert(now[before.len() as int].0 == w.id);
            }
        }
    }
}

/// A step of adopting takes nothing away.
proof fn lemma_adopting_grows(start: SessionView, all: Seq<Forked>, n: int)
    requires
        0 < n <= all.len(),
    ensures
        forall|w: u128|
            after_adopting(start, all, n - 1).workspaces.contains(w) ==> after_adopting(
                start,
                all,
                n,
            ).workspaces.contains(w),
{
}

/// Adopting takes nothing away.
proof fn lemma_adopting_keeps(start: SessionView, all: Seq<Forked>, n: int)
    requires
        0 <= n <= all.len(),
    ensures
        forall|w: u128|
            start.workspaces.contains(w) ==> after_adopting(start, all, n).workspaces.contains(w),
    decreases n,
{
    if n > 0 {
        lemma_adopting_keeps(start, all, n - 1);
    }
}

/// A preparation that fails after the workspace was registered with the
/// resources that were asked for leaves the session as it was before.
pub proof fn law_failed_preparation_leaves_no_trace(
    m: Map<Seq<char>, SessionView>,
    session: Seq<char>,
    workspace: u128,
)
    requires
        no_room(m, session, PREPARE_MEMORY_MB as u64, PREPARE_DISK_GB as u64) is None,
        !m[session].workspaces.contains(workspace),
    ensures
        released(
            m.insert(
                session,
                gained(
                    m[session],
                    workspace,
                    PREPARE_MEMORY_MB as u64,
                    PREPARE_DISK_GB as u64,
                ),
            ),
            session,
            workspace,
            PREPARE_MEMORY_MB as u64,
            PREPARE_DISK_GB as u64,
        ) == m,
{
    crate::mcp::workspace_tools::law_destroy_releases_quota(
        m,
        session,
        workspace,
        PREPARE_MEMORY_MB as u64,
        PREPARE_DISK_GB as u64,
    );
}

} // verus!
