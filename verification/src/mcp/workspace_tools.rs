//! Workspace tools: lifecycle, commands, files, snapshots, forks and ports.

use crate::mcp::auth::{
    error_text, gained, lost, quota_problem, AuthErrorView, AuthManager, SessionView,
};
use crate::mcp::error::{
    answer, internal_error, invalid_params, invalid_request, ErrorKind, ToolError,
};
use crate::mcp::git_tools::{is_timeout, str_or, tells_timeout, text_or};
use crate::mcp::rate_limit::{draws, too_soon, RateLimiter, Slot};
use crate::mcp::tools::{
    base_image_problem, debug_chars, is_plain, is_snapshot_name, odd_chars, odd_chars_of,
    odd_snapshot_name, parse_octal_mode, truncate_output, truncation, validate_base_image,
    validate_snapshot_name,
};
use crate::mcp::vault::holds;
use crate::number::{decimal, decimal_of};
use crate::storage::zfs::{snapshots_view, SnapshotView, ZfsSnapshotInfo};
use crate::text;
use crate::text::{cat2, cat3, cat5, cat7, lemma_texts_push, owned, same, texts};
use vstd::prelude::*;
use vstd::string::*;
use vstd::utf8::{encode_utf8, valid_utf8};

verus! {

// ---------------------------------------------------------------------------
// Failures
// ---------------------------------------------------------------------------

/// What could not be done. `id` is the workspace as the caller named it.
#[derive(Debug)]
pub enum Failure {
    Create,
    Destroy { id: String },
    FindForInfo { id: String },
    FindForDestroy { id: String },
    FindForAdopt { id: String },
    FindForFork { id: String },
    Stop { id: String },
    Start { id: String },
    FileWrite { id: String, path: String },
    FileRead { id: String, path: String },
    FileList { id: String, path: String },
    FileEdit { id: String, path: String },
    HostRead { path: String },
    HostWrite { path: String },
    SnapshotCreate { id: String, name: String },
    SnapshotRestore { id: String, name: String },
    SnapshotDelete { id: String, name: String },
    Fork { id: String, snapshot: String },
    PortAdd { id: String, port: u16 },
    PortRemove { id: String, port: u16 },
    JobStart { id: String },
    JobPoll { id: String, job: u32 },
    JobKill { id: String, job: u32 },
    Logs { id: String },
}

impl Failure {
    /// The answer to a call that failed, given why.
    pub open spec fn answer(self, why: Seq<char>) -> (ErrorKind, Seq<char>) {
        match self {
            Failure::Create => (
                ErrorKind::Internal,
                "Failed to create workspace: "@ + why
                    + ". Check that the agentiso service has sufficient resources (ZFS pool space, available IPs). Use workspace_list to see existing workspaces."@,
            ),
            Failure::Destroy { id } => (
                ErrorKind::Internal,
                "Failed to destroy workspace '"@ + id@ + "': "@ + why
                    + ". The workspace may be in an inconsistent state. Try workspace_stop first, then workspace_destroy again."@,
            ),
            Failure::FindForInfo { id } => (
                ErrorKind::InvalidRequest,
                "Workspace '"@ + id@ + "' not found: "@ + why
                    + ". Use workspace_list to see available workspaces, or workspace_create to make a new one."@,
            ),
            Failure::FindForDestroy { id } => (
                ErrorKind::InvalidRequest,
                "Workspace '"@ + id@ + "' not found: "@ + why
                    + ". Use workspace_list to see available workspaces."@,
            ),
            Failure::FindForAdopt { id } => (
                ErrorKind::InvalidRequest,
                "Workspace '"@ + id@ + "' not found: "@ + why
                    + ". Use workspace_list to see all workspaces, including orphaned ones."@,
            ),
            Failure::FindForFork { id } => (
                ErrorKind::InvalidRequest,
                "Source workspace '"@ + id@ + "' not found: "@ + why
                    + ". Use workspace_list to see available workspaces."@,
            ),
            Failure::Stop { id } => (
                ErrorKind::InvalidRequest,
                "Failed to stop workspace '"@ + id@ + "': "@ + why
                    + ". The workspace may already be stopped (use workspace_info to check state) or may not respond to graceful shutdown."@,
            ),
            Failure::Start { id } => (
                ErrorKind::InvalidRequest,
                "Failed to start workspace '"@ + id@ + "': "@ + why
                    + ". The workspace may already be running (use workspace_info to check state). If the VM failed to boot, use workspace_logs to see console output."@,
            ),
            Failure::FileWrite { id, path } => (
                ErrorKind::InvalidRequest,
                "Failed to write file '"@ + path@ + "' in workspace '"@ + id@ + "': "@ + why
                    + ". Ensure the path is absolute (e.g. /workspace/file.txt), the workspace is running, and the parent directory exists."@,
            ),
            Failure::FileRead { id, path } => (
                ErrorKind::InvalidRequest,
                "Failed to read file '"@ + path@ + "' in workspace '"@ + id@ + "': "@ + why
                    + ". Ensure the path is absolute (e.g. /workspace/file.txt) and the file exists. Use file_list to browse directory contents."@,
            ),
            Failure::FileList { id, path } => (
                ErrorKind::InvalidRequest,
                "Failed to list directory '"@ + path@ + "' in workspace '"@ + id@ + "': "@ + why
                    + ". Ensure the path is absolute (e.g. /workspace) and the directory exists."@,
            ),
            Failure::FileEdit { id, path } => (
                ErrorKind::InvalidRequest,
                "Failed to edit file '"@ + path@ + "' in workspace '"@ + id@ + "': "@ + why
                    + ". Ensure the file exists and that old_string appears in it exactly. Use file_read to verify file contents first."@,
            ),
            Failure::HostRead { path } => (
                ErrorKind::InvalidRequest,
                "Failed to read host file '"@ + path@ + "': "@ + why
                    + ". Ensure the file exists and is readable within the configured transfer directory."@,
            ),
            Failure::HostWrite { path } => (
                ErrorKind::Internal,
                "Failed to write host file '"@ + path@ + "': "@ + why
                    + ". Ensure the transfer directory is writable and has sufficient disk space."@,
            ),
            Failure::SnapshotCreate { id, name } => (
                ErrorKind::Internal,
                "Failed to create snapshot '"@ + name@ + "' on workspace '"@ + id@ + "': "@ + why
                    + ". This may indicate the storage pool is full or the workspace is in a bad state. Use snapshot(action=\"list\") to check workspace status and disk usage."@,
            ),
            Failure::SnapshotRestore { id, name } => (
                ErrorKind::InvalidRequest,
                "Failed to restore snapshot '"@ + name@ + "' on workspace '"@ + id@ + "': "@ + why
                    + ". Use snapshot(action=\"list\") to verify the snapshot exists. Note: restore is destructive and removes all snapshots newer than the target."@,
            ),
            Failure::SnapshotDelete { id, name } => (
                ErrorKind::InvalidRequest,
                "Failed to delete snapshot '"@ + name@ + "' from workspace '"@ + id@ + "': "@ + why
                    + ". Use snapshot(action=\"list\") to verify the snapshot exists."@,
            ),
            Failure::Fork { id, snapshot } => (
                ErrorKind::Internal,
                "Failed to fork workspace '"@ + id@ + "' from snapshot '"@ + snapshot@ + "': "@
                    + why
                    + ". Use snapshot(action=\"list\") to verify the snapshot exists and check that the storage pool has sufficient space."@,
            ),
            Failure::PortAdd { id, port } => (
                ErrorKind::Internal,
                "Failed to forward port "@ + decimal(port as nat) + " in workspace '"@ + id@
                    + "': "@ + why
                    + ". The host port may already be in use. Omit host_port to auto-assign, or choose a different port >= 1024."@,
            ),
            Failure::PortRemove { id, port } => (
                ErrorKind::InvalidRequest,
                "Failed to remove port forward for guest port "@ + decimal(port as nat)
                    + " in workspace '"@ + id@ + "': "@ + why
                    + ". Use workspace_info to see active port forwarding rules."@,
            ),
            Failure::JobStart { id } => (
                ErrorKind::InvalidRequest,
                "Failed to start background command in workspace '"@ + id@ + "': "@ + why
                    + ". Ensure the workspace is running (use workspace_start if stopped)."@,
            ),
            Failure::JobPoll { id, job } => (
                ErrorKind::InvalidRequest,
                "Failed to poll job "@ + decimal(job as nat) + " in workspace '"@ + id@ + "': "@
                    + why
                    + ". The job_id may be invalid or the workspace may have been restarted since the job was started."@,
            ),
            Failure::JobKill { id, job } => (
                ErrorKind::InvalidRequest,
                "Failed to kill job "@ + decimal(job as nat) + " in workspace '"@ + id@ + "': "@
                    + why
                    + ". The job may have already exited. Use exec_background(action=\"poll\") to check job status."@,
            ),
            Failure::Logs { id } => (
                ErrorKind::InvalidRequest,
                "Failed to retrieve logs for workspace '"@ + id@ + "': "@ + why
                    + ". The workspace may not have been started yet, or log files may not be available."@,
            ),
        }
    }

    /// The answer to a call that failed, given why.
    pub fn error(&self, why: &str) -> (e: ToolError)
        ensures
            e@ == self.answer(why@),
    {
        match self {
            Failure::Create => internal_error(
                cat3(
                    "Failed to create workspace: ",
                    why,
                    ". Check that the agentiso service has sufficient resources (ZFS pool space, available IPs). Use workspace_list to see existing workspaces.",
                ),
            ),
            Failure::Destroy { id } => internal_error(
                cat5(
                    "Failed to destroy workspace '",
                    id.as_str(),
                    "': ",
                    why,
                    ". The workspace may be in an inconsistent state. Try workspace_stop first, then workspace_destroy again.",
                ),
            ),
            Failure::FindForInfo { id } => invalid_request(
                cat5(
                    "Workspace '",
                    id.as_str(),
                    "' not found: ",
                    why,
                    ". Use workspace_list to see available workspaces, or workspace_create to make a new one.",
                ),
            ),
            Failure::FindForDestroy { id } => invalid_request(
                cat5(
                    "Workspace '",
                    id.as_str(),
                    "' not found: ",
                    why,
                    ". Use workspace_list to see available workspaces.",
                ),
            ),
            Failure::FindForAdopt { id } => invalid_request(
                cat5(
                    "Workspace '",
                    id.as_str(),
                    "' not found: ",
                    why,
                    ". Use workspace_list to see all workspaces, including orphaned ones.",
                ),
            ),
            Failure::FindForFork { id } => invalid_request(
                cat5(
                    "Source workspace '",
                    id.as_str(),
                    "' not found: ",
                    why,
                    ". Use workspace_list to see available workspaces.",
                ),
            ),
            Failure::Stop { id } => invalid_request(
                cat5(
                    "Failed to stop workspace '",
                    id.as_str(),
                    "': ",
                    why,
                    ". The workspace may already be stopped (use workspace_info to check state) or may not respond to graceful shutdown.",
                ),
            ),
            Failure::Start { id } => invalid_request(
                cat5(
                    "Failed to start workspace '",
                    id.as_str(),
                    "': ",
                    why,
                    ". The workspace may already be running (use workspace_info to check state). If the VM failed to boot, use workspace_logs to see console output.",
                ),
            ),
            Failure::FileWrite { id, path } => invalid_request(
                cat7(
                    "Failed to write file '",
                    path.as_str(),
                    "' in workspace '",
                    id.as_str(),
                    "': ",
                    why,
                    ". Ensure the path is absolute (e.g. /workspace/file.txt), the workspace is running, and the parent directory exists.",
                ),
            ),
            Failure::FileRead { id, path } => invalid_request(
                cat7(
                    "Failed to read file '",
                    path.as_str(),
                    "' in workspace '",
                    id.as_str(),
                    "': ",
                    why,
                    ". Ensure the path is absolute (e.g. /workspace/file.txt) and the file exists. Use file_list to browse directory contents.",
                ),
            ),
            Failure::FileList { id, path } => invalid_request(
                cat7(
                    "Failed to list directory '",
                    path.as_str(),
                    "' in workspace '",
                    id.as_str(),
                    "': ",
                    why,
                    ". Ensure the path is absolute (e.g. /workspace) and the directory exists.",
                ),
            ),
            Failure::FileEdit { id, path } => invalid_request(
                cat7(
                    "Failed to edit file '",
                    path.as_str(),
                    "' in workspace '",
                    id.as_str(),
                    "': ",
                    why,
                    ". Ensure the file exists and that old_string appears in it exactly. Use file_read to verify file contents first.",
                ),
            ),
            Failure::HostRead { path } => invalid_request(
                cat5(
                    "Failed to read host file '",
                    path.as_str(),
                    "': ",
                    why,
                    ". Ensure the file exists and is readable within the configured transfer directory.",
                ),
            ),
            Failure::HostWrite { path } => internal_error(
                cat5(
                    "Failed to write host file '",
                    path.as_str(),
                    "': ",
                    why,
                    ". Ensure the transfer directory is writable and has sufficient disk space.",
                ),
            ),
            Failure::SnapshotCreate { id, name } => internal_error(
                cat7(
                    "Failed to create snapshot '",
                    name.as_str(),
                    "' on workspace '",
                    id.as_str(),
                    "': ",
                    why,
                    ". This may indicate the storage pool is full or the workspace is in a bad state. Use snapshot(action=\"list\") to check workspace status and disk usage.",
                ),
            ),
            Failure::SnapshotRestore { id, name } => invalid_request(
                cat7(
                    "Failed to restore snapshot '",
                    name.as_str(),
                    "' on workspace '",
                    id.as_str(),
                    "': ",
                    why,
                    ". Use snapshot(action=\"list\") to verify the snapshot exists. Note: restore is destructive and removes all snapshots newer than the target.",
                ),
            ),
            Failure::SnapshotDelete { id, name } => invalid_request(
                cat7(
                    "Failed to delete snapshot '",
                    name.as_str(),
                    "' from workspace '",
                    id.as_str(),
                    "': ",
                    why,
                    ". Use snapshot(action=\"list\") to verify the snapshot exists.",
                ),
            ),
            Failure::Fork { id, snapshot } => internal_error(
                cat7(
                    "Failed to fork workspace '",
                    id.as_str(),
                    "' from snapshot '",
                    snapshot.as_str(),
                    "': ",
                    why,
                    ". Use snapshot(action=\"list\") to verify the snapshot exists and check that the storage pool has sufficient space.",
                ),
            ),
            Failure::PortAdd { id, port } => {
                let p: String = decimal_of(*port as u64);
                internal_error(
                    cat7(
                        "Failed to forward port ",
                        p.as_str(),
                        " in workspace '",
                        id.as_str(),
                        "': ",
                        why,
                        ". The host port may already be in use. Omit host_port to auto-assign, or choose a different port >= 1024.",
                    ),
                )
            },
            Failure::PortRemove { id, port } => {
                let p: String = decimal_of(*port as u64);
                invalid_request(
                    cat7(
                        "Failed to remove port forward for guest port ",
                        p.as_str(),
                        " in workspace '",
                        id.as_str(),
                        "': ",
                        why,
                        ". Use workspace_info to see active port forwarding rules.",
                    ),
                )
            },
            Failure::JobStart { id } => invalid_request(
                cat5(
                    "Failed to start background command in workspace '",
                    id.as_str(),
                    "': ",
                    why,
                    ". Ensure the workspace is running (use workspace_start if stopped).",
                ),
            ),
            Failure::JobPoll { id, job } => {
                let j: String = decimal_of(*job as u64);
                invalid_request(
                    cat7(
                        "Failed to poll job ",
                        j.as_str(),
                        " in workspace '",
                        id.as_str(),
                        "': ",
                        why,
                        ". The job_id may be invalid or the workspace may have been restarted since the job was started.",
                    ),
                )
            },
            Failure::JobKill { id, job } => {
                let j: String = decimal_of(*job as u64);
                invalid_request(
                    cat7(
                        "Failed to kill job ",
                        j.as_str(),
                        " in workspace '",
                        id.as_str(),
                        "': ",
                        why,
                        ". The job may have already exited. Use exec_background(action=\"poll\") to check job status.",
                    ),
                )
            },
            Failure::Logs { id } => invalid_request(
                cat5(
                    "Failed to retrieve logs for workspace '",
                    id.as_str(),
                    "': ",
                    why,
                    ". The workspace may not have been started yet, or log files may not be available.",
                ),
            ),
        }
    }
}

/// What was done.
#[derive(Debug)]
pub enum Done {
    Stopped { id: String },
    Started { id: String },
    FileWritten { path: String },
    FileEdited { path: String },
}

impl Done {
    /// The answer to a call that succeeded.
    pub open spec fn answer(self) -> Seq<char> {
        match self {
            Done::Stopped { id } => "Workspace "@ + id@ + " stopped."@,
            Done::Started { id } => "Workspace "@ + id@ + " started."@,
            Done::FileWritten { path } => "File written: "@ + path@,
            Done::FileEdited { path } => "File edited: "@ + path@,
        }
    }

    /// The answer to a call that succeeded.
    pub fn text(&self) -> (r: String)
        ensures
            r@ == self.answer(),
    {
        match self {
            Done::Stopped { id } => cat3("Workspace ", id.as_str(), " stopped."),
            Done::Started { id } => cat3("Workspace ", id.as_str(), " started."),
            Done::FileWritten { path } => cat2("File written: ", path.as_str()),
            Done::FileEdited { path } => cat2("File edited: ", path.as_str()),
        }
    }
}

// ---------------------------------------------------------------------------
// Creation and destruction
// ---------------------------------------------------------------------------

/// Parameters of `workspace_create`.
#[derive(Debug)]
pub struct WorkspaceCreateParams {
    /// Human-readable name for the workspace.
    pub name: Option<String>,
    /// Base image to use (default: alpine-dev).
    pub base_image: Option<String>,
    /// Number of virtual CPUs (default: 2).
    pub vcpus: Option<u32>,
    /// Memory in megabytes (default: 512).
    pub memory_mb: Option<u32>,
    /// Disk size in gigabytes (default: 10).
    pub disk_gb: Option<u32>,
    /// Allow outbound internet access (default: from server config).
    pub allow_internet: Option<bool>,
}

/// A workspace to be created.
#[derive(Debug)]
pub struct CreateRequest {
    pub name: Option<String>,
    pub base_image: Option<String>,
    pub vcpus: Option<u32>,
    pub memory_mb: u32,
    pub disk_gb: u32,
    pub allow_internet: Option<bool>,
}

/// A number where one is given, else a default.
pub open spec fn number_or(o: Option<u32>, default: u32) -> u32 {
    match o {
        Some(n) => n,
        None => default,
    }
}

/// A number where one is given, else a default.
pub fn or_default(o: Option<u32>, default: u32) -> (n: u32)
    ensures
        n == number_or(o, default),
{
    match o {
        Some(n) => n,
        None => default,
    }
}

/// Why a session may not get a workspace with these resources, if it may not:
/// there is no such session, or its quota has no room.
pub open spec fn no_room(
    m: Map<Seq<char>, SessionView>,
    session: Seq<char>,
    memory_mb: u64,
    disk_gb: u64,
) -> Option<AuthErrorView> {
    if !m.dom().contains(session) {
        Some(AuthErrorView::UnknownSession(session))
    } else {
        quota_problem(m[session], memory_mb, disk_gb)
    }
}

/// Check the quota before a tool uses resources.
pub fn require_room(auth: &AuthManager, session: &str, memory_mb: u64, disk_gb: u64) -> (r: Result<
    (),
    ToolError,
>)
    requires
        auth.wf(),
    ensures
        match no_room(auth@, session@, memory_mb, disk_gb) {
            None => r is Ok,
            Some(e) => r is Err && r->Err_0@ == (ErrorKind::InvalidRequest, error_text(e)),
        },
{
    match auth.check_quota(session, memory_mb, disk_gb) {
        Ok(()) => Ok(()),
        Err(e) => Err(invalid_request(e.message())),
    }
}

/// Decide on a call of `workspace_create`: the rate limit, the quota and the
/// image name are checked in this order.
pub fn create_start(
    params: WorkspaceCreateParams,
    auth: &AuthManager,
    session: &str,
    limiter: &mut RateLimiter,
    now: u64,
) -> (r: Result<CreateRequest, ToolError>)
    requires
        auth.wf(),
        old(limiter).wf(),
    ensures
        final(limiter).wf(),
        draws(*old(limiter), *final(limiter), Slot::Create, now),
        ({
            let mem = number_or(params.memory_mb, 512);
            let disk = number_or(params.disk_gb, 10);
            match too_soon(*old(limiter), Slot::Create, now) {
                Some(e) => r is Err && r->Err_0@ == e,
                None => match no_room(auth@, session@, mem as u64, disk as u64) {
                    Some(e) => r is Err && r->Err_0@ == (
                        ErrorKind::InvalidRequest,
                        error_text(e),
                    ),
                    None => match image_problem(params.base_image) {
                        Some(message) => r is Err && r->Err_0@ == (
                            ErrorKind::InvalidParams,
                            message,
                        ),
                        None => r == Ok::<CreateRequest, ToolError>(
                            CreateRequest {
                                name: params.name,
                                base_image: params.base_image,
                                vcpus: params.vcpus,
                                memory_mb: mem,
                                disk_gb: disk,
                                allow_internet: params.allow_internet,
                            },
                        ),
                    },
                },
            }
        }),
{
    match limiter.draw(Slot::Create, now) {
        Err(e) => {
            return Err(e);
        },
        Ok(()) => {},
    }
    let memory_mb: u32 = or_default(params.memory_mb, 512);
    let disk_gb: u32 = or_default(params.disk_gb, 10);
    match require_room(auth, session, memory_mb as u64, disk_gb as u64) {
        Err(e) => {
            return Err(e);
        },
        Ok(()) => {},
    }
    match &params.base_image {
        Some(image) => {
            match validate_base_image(image.as_str()) {
                Err(e) => {
                    return Err(e);
                },
                Ok(()) => {},
            }
        },
        None => {},
    }
    Ok(
        CreateRequest {
            name: params.name,
            base_image: params.base_image,
            vcpus: params.vcpus,
            memory_mb,
            disk_gb,
            allow_internet: params.allow_internet,
        },
    )
}

/// Why an image name that is given is refused.
pub open spec fn image_problem(image: Option<String>) -> Option<Seq<char>> {
    match image {
        Some(name) => base_image_problem(name@),
        None => None,
    }
}

/// Register a workspace that was just created for a session. Where that fails,
/// the workspace must be destroyed again and the call answered with the error.
pub fn create_finish(
    auth: &mut AuthManager,
    session: &str,
    workspace: u128,
    memory_mb: u32,
    disk_gb: u32,
) -> (r: Result<(), ToolError>)
    requires
        old(auth).wf(),
    ensures
        final(auth).wf(),
        final(auth).new_quota() == old(auth).new_quota(),
        match no_room(old(auth)@, session@, memory_mb as u64, disk_gb as u64) {
            Some(e) => {
                &&& r is Err
                &&& r->Err_0@ == (ErrorKind::InvalidRequest, error_text(e))
                &&& final(auth)@ == old(auth)@
            },
            None => {
                &&& r is Ok
                &&& final(auth)@ == old(auth)@.insert(
                    session@,
                    gained(old(auth)@[session@], workspace, memory_mb as u64, disk_gb as u64),
                )
            },
        },
{
    match auth.register_workspace(session, workspace, memory_mb as u64, disk_gb as u64) {
        Ok(()) => Ok(()),
        Err(e) => Err(invalid_request(e.message())),
    }
}

/// The sessions after a workspace was taken from one, if it was there.
pub open spec fn released(
    m: Map<Seq<char>, SessionView>,
    session: Seq<char>,
    workspace: u128,
    memory_mb: u64,
    disk_gb: u64,
) -> Map<Seq<char>, SessionView> {
    if m.dom().contains(session) && m[session].workspaces.contains(workspace) {
        m.insert(session, lost(m[session], workspace, memory_mb, disk_gb))
    } else {
        m
    }
}

/// Release a workspace of a session, whether the session owns it or not.
pub fn release(auth: &mut AuthManager, session: &str, workspace: u128, memory_mb: u64, disk_gb: u64)
    requires
        old(auth).wf(),
    ensures
        final(auth).wf(),
        final(auth).new_quota() == old(auth).new_quota(),
        final(auth)@ == released(old(auth)@, session@, workspace, memory_mb, disk_gb),
{
    match auth.unregister_workspace(session, workspace, memory_mb, disk_gb) {
        Ok(()) => {},
        Err(_) => {},
    }
}

/// The end of a call of `workspace_destroy`, given what became of the
/// destruction. The quota is released even if the destruction failed.
pub fn destroy_finish(
    auth: &mut AuthManager,
    session: &str,
    shown_id: &str,
    workspace: u128,
    memory_mb: u32,
    disk_gb: u32,
    outcome: &Result<(), String>,
) -> (r: Result<String, ToolError>)
    requires
        old(auth).wf(),
    ensures
        final(auth).wf(),
        final(auth).new_quota() == old(auth).new_quota(),
        final(auth)@ == released(
            old(auth)@,
            session@,
            workspace,
            memory_mb as u64,
            disk_gb as u64,
        ),
        match *outcome {
            Ok(_) => r is Ok && r->Ok_0@ == "Workspace "@ + shown_id@ + " destroyed."@,
            Err(why) => r is Err && r->Err_0@ == (
                ErrorKind::Internal,
                "Failed to destroy workspace '"@ + shown_id@ + "': "@ + why@
                    + ". The workspace may be in an inconsistent state. Try workspace_stop first, then workspace_destroy again."@,
            ),
        },
{
    release(auth, session, workspace, memory_mb as u64, disk_gb as u64);
    match outcome {
        Ok(()) => Ok(cat3("Workspace ", shown_id, " destroyed.")),
        Err(why) => {
            let f: Failure = Failure::Destroy { id: owned(shown_id) };
            Err(f.error(why.as_str()))
        },
    }
}

// ---------------------------------------------------------------------------
// Listing
// ---------------------------------------------------------------------------

/// What a listing needs to know of a workspace.
#[derive(Debug)]
pub struct WorkspaceSummary {
    pub id: u128,
    pub state: String,
}

/// A workspace of a listing: where it stands among all, and whether the session
/// owns it.
#[derive(Clone, Copy, Debug, PartialEq, Eq, Structural)]
pub struct Listed {
    pub index: usize,
    pub owned: bool,
}

/// The workspaces in a state, or all of them.
pub open spec fn in_state(all: Seq<WorkspaceSummary>, filter: Option<String>, i: int) -> bool {
    match filter {
        Some(f) => all[i].state@ == f@,
        None => true,
    }
}

/// The listing of the first `n` workspaces.
pub open spec fn listing(
    all: Seq<WorkspaceSummary>,
    mine: Set<u128>,
    filter: Option<String>,
    n: int,
) -> Seq<Listed>
    decreases n,
{
    if n <= 0 {
        seq![]
    } else if in_state(all, filter, n - 1) {
        listing(all, mine, filter, n - 1).push(
            Listed { index: (n - 1) as usize, owned: mine.contains(all[n - 1].id) },
        )
    } else {
        listing(all, mine, filter, n - 1)
    }
}

/// Answer a call of `workspace_list`: check the rate limit, then list all
/// workspaces, or those in a state, and tell which ones a session owns.
pub fn list_workspaces(
    auth: &AuthManager,
    session: &str,
    all: &Vec<WorkspaceSummary>,
    filter: &Option<String>,
    limiter: &mut RateLimiter,
    now: u64,
) -> (r: Result<Vec<Listed>, ToolError>)
    requires
        auth.wf(),
        old(limiter).wf(),
    ensures
        final(limiter).wf(),
        draws(*old(limiter), *final(limiter), Slot::Default, now),
        if too_soon(*old(limiter), Slot::Default, now) is Some {
            r is Err && r->Err_0@ == too_soon(*old(limiter), Slot::Default, now)->0
        } else if auth@.dom().contains(session@) {
            &&& r is Ok
            &&& r->Ok_0@ == listing(
                all@,
                auth@[session@].workspaces,
                *filter,
                all@.len() as int,
            )
        } else {
            r is Err && r->Err_0@ == (
                ErrorKind::Internal,
                error_text(AuthErrorView::UnknownSession(session@)),
            )
        },
{
    match limiter.draw(Slot::Default, now) {
        Err(e) => {
            return Err(e);
        },
        Ok(()) => {},
    }
    let mine: Vec<u128> = match auth.list_workspaces(session) {
        Ok(v) => v,
        Err(e) => {
            return Err(internal_error(e.message()));
        },
    };
    let ghost set = mine@.to_set();
    let mut out: Vec<Listed> = Vec::new();
    let mut i: usize = 0;
    while i < all.len()
        invariant
            i <= all@.len(),
            set == mine@.to_set(),
            out@ == listing(all@, set, *filter, i as int),
        decreases all.len() - i,
    {
        let fits: bool = match filter {
            Some(f) => same(all[i].state.as_str(), f.as_str()),
            None => true,
        };
        if fits {
            let owned_here: bool = has_id(&mine, all[i].id);
            out.push(Listed { index: i, owned: owned_here });
        }
        i = i + 1;
    }
    Ok(out)
}

/// Whether an identifier is in a list.
fn has_id(v: &Vec<u128>, id: u128) -> (r: bool)
    ensures
        r == v@.to_set().contains(id),
{
    let mut i: usize = 0;
    while i < v.len()
        invariant
            i <= v@.len(),
            forall|k: int| 0 <= k < i ==> v@[k] != id,
        decreases v.len() - i,
    {
        if v[i] == id {
            proof {
                assert(v@.contains(id));
            }
            return true;
        }
        i = i + 1;
    }
    false
}

// ---------------------------------------------------------------------------
// Commands
// ---------------------------------------------------------------------------

/// How much output a command shows if no limit is given.
pub const DEFAULT_OUTPUT_BYTES: usize = 262_144;

/// The error for a command that could not be run to its end.
pub fn exec_failure(shown_id: &str, timeout_secs: Option<u64>, why: &str) -> (e: ToolError)
    ensures
        e@ == (
            ErrorKind::InvalidRequest,
            if tells_timeout(why@) {
                let t = decimal(
                    match timeout_secs {
                        Some(n) => n as nat,
                        None => 120,
                    },
                );
                "exec timed out after "@ + t
                    + "s. For long-running commands, use exec_background to start the command, then exec_background(action=\"poll\") to check progress. You can also increase timeout_secs (current: "@
                    + t + "s)."@
            } else {
                "Command failed in workspace '"@ + shown_id@ + "': "@ + why@
                    + ". Ensure the workspace is running (use workspace_start if stopped). The guest OS is Alpine Linux; install missing packages with: exec(command='apk add <package>')."@
            },
        ),
{
    if is_timeout(why) {
        let n: u64 = match timeout_secs {
            Some(n) => n,
            None => 120,
        };
        let t: String = decimal_of(n);
        invalid_request(
            cat5(
                "exec timed out after ",
                t.as_str(),
                "s. For long-running commands, use exec_background to start the command, then exec_background(action=\"poll\") to check progress. You can also increase timeout_secs (current: ",
                t.as_str(),
                "s).",
            ),
        )
    } else {
        invalid_request(
            cat5(
                "Command failed in workspace '",
                shown_id,
                "': ",
                why,
                ". Ensure the workspace is running (use workspace_start if stopped). The guest OS is Alpine Linux; install missing packages with: exec(command='apk add <package>').",
            ),
        )
    }
}

/// The output of a command as it is shown: standard output and standard error,
/// each cut to a limit.
pub fn shown_output(stdout: String, stderr: String, max_output_bytes: Option<usize>) -> (r: (
    String,
    String,
))
    ensures
        ({
            let limit = match max_output_bytes {
                Some(n) => n as nat,
                None => DEFAULT_OUTPUT_BYTES as nat,
            };
            &&& r.0@ == truncation(stdout@, limit)
            &&& r.1@ == truncation(stderr@, limit)
        }),
{
    let limit: usize = match max_output_bytes {
        Some(n) => n,
        None => DEFAULT_OUTPUT_BYTES,
    };
    (truncate_output(stdout, limit), truncate_output(stderr, limit))
}

/// Parameters of `exec_background`, but those that are only passed on.
#[derive(Debug)]
pub struct ExecBackgroundParams {
    /// Action to perform: "start", "poll" or "kill".
    pub action: String,
    /// Shell command to run (for start).
    pub command: Option<String>,
    /// Job ID (for poll and kill).
    pub job_id: Option<u32>,
    /// Signal to send (for kill, default: 9).
    pub signal: Option<i32>,
}

/// What `exec_background` is asked to do.
#[derive(Debug)]
pub enum JobCall {
    Start { command: String },
    Poll { job: u32 },
    /// The signal as it was given, and the one that is reported.
    Kill { job: u32, signal: Option<i32>, shown_signal: i32 },
}

/// What `exec_background` is asked to do, or why it is refused.
pub open spec fn job_call(p: ExecBackgroundParams) -> Result<JobCall, Seq<char>> {
    if p.action@ == "start"@ {
        match p.command {
            Some(command) => Ok(JobCall::Start { command }),
            None => Err("The 'start' action requires a 'command' parameter."@),
        }
    } else if p.action@ == "poll"@ {
        match p.job_id {
            Some(job) => Ok(JobCall::Poll { job }),
            None => Err("The 'poll' action requires a 'job_id' parameter."@),
        }
    } else if p.action@ == "kill"@ {
        match p.job_id {
            Some(job) => Ok(
                JobCall::Kill {
                    job,
                    signal: p.signal,
                    shown_signal: match p.signal {
                        Some(s) => s,
                        None => 9,
                    },
                },
            ),
            None => Err("The 'kill' action requires a 'job_id' parameter."@),
        }
    } else {
        Err(
            "Unknown exec_background action '"@ + p.action@
                + "'. Valid actions: \"start\", \"poll\", \"kill\"."@,
        )
    }
}

/// What a call of `exec_background` is answered, given the limiter: the rate
/// limit comes first.
pub open spec fn job_answer(p: ExecBackgroundParams, l: RateLimiter, now: u64) -> Result<
    JobCall,
    (ErrorKind, Seq<char>),
> {
    match too_soon(l, Slot::Exec, now) {
        Some(e) => Err(e),
        None => match job_call(p) {
            Ok(call) => Ok(call),
            Err(message) => Err((ErrorKind::InvalidRequest, message)),
        },
    }
}

/// Decide on a call of `exec_background`. Every action draws on the rate limit
/// for commands.
pub fn exec_background(params: ExecBackgroundParams, limiter: &mut RateLimiter, now: u64) -> (r:
    Result<JobCall, ToolError>)
    requires
        old(limiter).wf(),
    ensures
        final(limiter).wf(),
        draws(*old(limiter), *final(limiter), Slot::Exec, now),
        answer(r) == job_answer(params, *old(limiter), now),
{
    match limiter.draw(Slot::Exec, now) {
        Err(e) => {
            return Err(e);
        },
        Ok(()) => {},
    }
    let action: &str = params.action.as_str();
    if same(action, "start") {
        match params.command {
            Some(command) => Ok(JobCall::Start { command }),
            None => Err(
                invalid_request(owned("The 'start' action requires a 'command' parameter.")),
            ),
        }
    } else if same(action, "poll") {
        match params.job_id {
            Some(job) => Ok(JobCall::Poll { job }),
            None => Err(
                invalid_request(owned("The 'poll' action requires a 'job_id' parameter.")),
            ),
        }
    } else if same(action, "kill") {
        match params.job_id {
            Some(job) => {
                let shown_signal: i32 = match params.signal {
                    Some(s) => s,
                    None => 9,
                };
                Ok(JobCall::Kill { job, signal: params.signal, shown_signal })
            },
            None => Err(
                invalid_request(owned("The 'kill' action requires a 'job_id' parameter.")),
            ),
        }
    } else {
        Err(
            invalid_request(
                cat3(
                    "Unknown exec_background action '",
                    action,
                    "'. Valid actions: \"start\", \"poll\", \"kill\".",
                ),
            ),
        )
    }
}

// ---------------------------------------------------------------------------
// Files
// ---------------------------------------------------------------------------

/// `String::from_utf8`: the text that bytes encode, or nothing where they are
/// no valid UTF-8.
#[verifier::external_body]
fn decode(data: Vec<u8>) -> (r: Option<String>)
    ensures
        match r {
            Some(s) => encode_utf8(s@) == data@,
            None => !valid_utf8(data@),
        },
{
    String::from_utf8(data).ok()
}

/// The text of a file that was read. Files that are no text are refused.
pub fn file_text(data: Vec<u8>) -> (r: Result<String, ToolError>)
    ensures
        match r {
            Ok(s) => encode_utf8(s@) == data@,
            Err(e) => !valid_utf8(data@) && e@ == (
                ErrorKind::InvalidRequest,
                "File contains binary data. Use file_transfer(direction=\"download\") for binary files, or use offset/limit to read a text portion."@,
            ),
        },
        r is Ok <==> valid_utf8(data@),
{
    match decode(data) {
        Some(s) => {
            proof {
                vstd::utf8::encode_utf8_valid_utf8(s@);
            }
            Ok(s)
        },
        None => Err(
            invalid_request(
                owned(
                    "File contains binary data. Use file_transfer(direction=\"download\") for binary files, or use offset/limit to read a text portion.",
                ),
            ),
        ),
    }
}

/// The permissions of a file to be written, if they are given.
pub fn file_mode(mode: &Option<String>) -> (r: Result<Option<u32>, ToolError>)
    ensures
        match *mode {
            None => r == Ok::<Option<u32>, ToolError>(None),
            Some(s) => match crate::number::parse_nat(
                crate::mcp::tools::octal_digits(s@),
                8,
                u32::MAX as nat,
            ) {
                Some(n) => r == Ok::<Option<u32>, ToolError>(Some(n as u32)),
                None => r is Err && r->Err_0@ == (
                    ErrorKind::InvalidParams,
                    "invalid octal mode '"@ + s@ + "'. Use octal notation like \"0644\"."@,
                ),
            },
        },
{
    match mode {
        None => Ok(None),
        Some(s) => match parse_octal_mode(s.as_str()) {
            Ok(n) => Ok(Some(n)),
            Err(e) => Err(e),
        },
    }
}

/// The direction of a transfer.
#[derive(Clone, Copy, Debug, PartialEq, Eq, Structural)]
pub enum Direction {
    /// From the host to the guest.
    Upload,
    /// From the guest to the host.
    Download,
}

/// The direction of a name.
pub fn parse_direction(direction: &str) -> (r: Result<Direction, ToolError>)
    ensures
        if direction@ == "upload"@ {
            r == Ok::<Direction, ToolError>(Direction::Upload)
        } else if direction@ == "download"@ {
            r == Ok::<Direction, ToolError>(Direction::Download)
        } else {
            r is Err && r->Err_0@ == (
                ErrorKind::InvalidParams,
                "Unknown file_transfer direction '"@ + direction@
                    + "'. Valid directions: upload, download."@,
            )
        },
{
    if same(direction, "upload") {
        Ok(Direction::Upload)
    } else if same(direction, "download") {
        Ok(Direction::Download)
    } else {
        Err(
            invalid_params(
                cat3(
                    "Unknown file_transfer direction '",
                    direction,
                    "'. Valid directions: upload, download.",
                ),
            ),
        )
    }
}

/// The answer to a transfer.
pub fn transfer_done(direction: Direction, host_path: &str, guest_path: &str, bytes: usize) -> (r:
    String)
    ensures
        r@ == match direction {
            Direction::Upload => "Uploaded "@ + host_path@ + " -> "@ + guest_path@ + " ("@
                + decimal(bytes as nat) + " bytes)"@,
            Direction::Download => "Downloaded "@ + guest_path@ + " -> "@ + host_path@ + " ("@
                + decimal(bytes as nat) + " bytes)"@,
        },
{
    let n: String = decimal_of(bytes as u64);
    match direction {
        Direction::Upload => cat7(
            "Uploaded ",
            host_path,
            " -> ",
            guest_path,
            " (",
            n.as_str(),
            " bytes)",
        ),
        Direction::Download => cat7(
            "Downloaded ",
            guest_path,
            " -> ",
            host_path,
            " (",
            n.as_str(),
            " bytes)",
        ),
    }
}

// ---------------------------------------------------------------------------
// Snapshots
// ---------------------------------------------------------------------------

/// Parameters of the snapshot tool.
#[derive(Debug)]
pub struct SnapshotParams {
    /// Action to perform: "create", "restore", "list" or "delete".
    pub action: String,
    /// Workspace ID.
    pub workspace_id: String,
    /// Snapshot name (for create, restore and delete).
    pub name: Option<String>,
    /// Include VM memory state (for create).
    pub include_memory: Option<bool>,
}

/// What the snapshot tool is asked to do.
#[derive(Debug)]
pub enum SnapshotCall {
    Create { name: String, include_memory: bool },
    Restore { name: String },
    List,
    Delete { name: String },
}

/// What is wrong with the parameters of the snapshot tool, if anything is.
pub open spec fn snapshot_problem(p: SnapshotParams) -> Option<Seq<char>> {
    let action = p.action@;
    if action == "create"@ || action == "restore"@ || action == "delete"@ {
        if p.name is None {
            Some(
                "The '"@ + action
                    + "' action requires a 'name' parameter with the snapshot name."@,
            )
        } else {
            None
        }
    } else if action == "list"@ {
        None
    } else {
        Some(
            "Unknown snapshot action '"@ + action
                + "'. Valid actions: create, restore, list, delete."@,
        )
    }
}

/// What the snapshot tool is asked to do, if its parameters are right.
pub open spec fn snapshot_call(p: SnapshotParams) -> SnapshotCall {
    let action = p.action@;
    if action == "create"@ {
        SnapshotCall::Create {
            name: p.name->0,
            include_memory: match p.include_memory {
                Some(b) => b,
                None => false,
            },
        }
    } else if action == "restore"@ {
        SnapshotCall::Restore { name: p.name->0 }
    } else if action == "list"@ {
        SnapshotCall::List
    } else {
        SnapshotCall::Delete { name: p.name->0 }
    }
}

/// The error for a snapshot name that is missing.
fn name_missing(action: &str) -> (e: ToolError)
    ensures
        e@ == (
            ErrorKind::InvalidParams,
            "The '"@ + action@ + "' action requires a 'name' parameter with the snapshot name."@,
        ),
{
    invalid_params(
        cat3("The '", action, "' action requires a 'name' parameter with the snapshot name."),
    )
}

/// Check the parameters of the snapshot tool, but for the name itself, which is
/// looked at once the workspace is known.
pub fn parse_snapshot_call(p: SnapshotParams) -> (r: Result<SnapshotCall, ToolError>)
    ensures
        match snapshot_problem(p) {
            Some(message) => r is Err && r->Err_0@ == (ErrorKind::InvalidParams, message),
            None => r == Ok::<SnapshotCall, ToolError>(snapshot_call(p)),
        },
{
    proof {
        reveal_strlit("list");
        reveal_strlit("create");
        reveal_strlit("restore");
        reveal_strlit("delete");
        assert("list"@.len() == 4);
        assert("create"@.len() == 6);
        assert("restore"@.len() == 7);
        assert("delete"@.len() == 6);
        assert("create"@[0] == 'c' && "delete"@[0] == 'd');
    }
    let action: String = owned(p.action.as_str());
    if same(action.as_str(), "create") {
        let include_memory: bool = match p.include_memory {
            Some(b) => b,
            None => false,
        };
        match p.name {
            Some(name) => Ok(SnapshotCall::Create { name, include_memory }),
            None => Err(name_missing(action.as_str())),
        }
    } else if same(action.as_str(), "restore") {
        match p.name {
            Some(name) => Ok(SnapshotCall::Restore { name }),
            None => Err(name_missing(action.as_str())),
        }
    } else if same(action.as_str(), "list") {
        Ok(SnapshotCall::List)
    } else if same(action.as_str(), "delete") {
        match p.name {
            Some(name) => Ok(SnapshotCall::Delete { name }),
            None => Err(name_missing(action.as_str())),
        }
    } else {
        Err(
            invalid_params(
                cat3(
                    "Unknown snapshot action '",
                    action.as_str(),
                    "'. Valid actions: create, restore, list, delete.",
                ),
            ),
        )
    }
}

/// The name that a snapshot call is about.
pub open spec fn call_name(call: SnapshotCall) -> Option<Seq<char>> {
    match call {
        SnapshotCall::Create { name, .. } => Some(name@),
        SnapshotCall::Restore { name } => Some(name@),
        SnapshotCall::List => None,
        SnapshotCall::Delete { name } => Some(name@),
    }
}

/// Check the name that a snapshot call is about.
pub fn check_snapshot_call(call: &SnapshotCall) -> (r: Result<(), ToolError>)
    ensures
        match call_name(*call) {
            None => r is Ok,
            Some(name) => if is_snapshot_name(name) {
                r is Ok
            } else if name.len() == 0 {
                r is Err && r->Err_0@ == (
                    ErrorKind::InvalidParams,
                    "snapshot name must not be empty"@,
                )
            } else {
                r is Err && r->Err_0@ == (
                    ErrorKind::InvalidParams,
                    odd_snapshot_name(name, debug_chars(odd_chars(name))),
                )
            },
        },
{
    match call {
        SnapshotCall::Create { name, .. } => validate_snapshot_name(name.as_str()),
        SnapshotCall::Restore { name } => validate_snapshot_name(name.as_str()),
        SnapshotCall::List => Ok(()),
        SnapshotCall::Delete { name } => validate_snapshot_name(name.as_str()),
    }
}

/// A snapshot as a workspace records it.
#[derive(Debug)]
pub struct SnapshotSummary {
    pub id: u128,
    pub name: String,
    /// Whether the memory of the VM is part of it.
    pub has_memory: bool,
    pub parent: Option<u128>,
    /// When it was made, in nanoseconds since 1970.
    pub created_at: i128,
}

/// An entry of a snapshot list: the snapshot, and the bytes that it refers to
/// on disk, as far as the storage knows of it.
#[derive(Debug)]
pub struct SnapshotEntry {
    pub snapshot: SnapshotSummary,
    pub referenced: Option<u64>,
}

/// The size of the first snapshot of a name.
pub open spec fn size_named(sizes: Seq<SnapshotView>, name: Seq<char>) -> Option<nat>
    decreases sizes.len(),
{
    if sizes.len() == 0 {
        None
    } else if sizes[0].snap_name == name {
        Some(sizes[0].referenced)
    } else {
        size_named(sizes.skip(1), name)
    }
}

/// A size as a mathematical number.
pub open spec fn opt_size(o: Option<u64>) -> Option<nat> {
    match o {
        Some(n) => Some(n as nat),
        None => None,
    }
}

/// The size of the first snapshot of a name.
fn find_size(sizes: &Vec<ZfsSnapshotInfo>, name: &str) -> (r: Option<u64>)
    ensures
        opt_size(r) == size_named(snapshots_view(sizes@), name@),
{
    let ghost all = snapshots_view(sizes@);
    let mut i: usize = 0;
    proof {
        assert(all.skip(0) =~= all);
    }
    while i < sizes.len()
        invariant
            i <= sizes@.len(),
            all == snapshots_view(sizes@),
            size_named(all, name@) == size_named(all.skip(i as int), name@),
        decreases sizes.len() - i,
    {
        proof {
            assert(all.skip(i as int)[0] == sizes@[i as int]@);
            assert(all.skip(i as int).skip(1) =~= all.skip(i + 1));
        }
        if same(sizes[i].snap_name.as_str(), name) {
            return Some(sizes[i].referenced);
        }
        i = i + 1;
    }
    proof {
        assert(all.skip(i as int) =~= seq![]);
    }
    None
}

/// The list of the snapshots of a workspace: one entry for each, in order, with
/// its disk usage from the list of the storage.
pub fn snapshot_entries(snapshots: Vec<SnapshotSummary>, sizes: &Vec<ZfsSnapshotInfo>) -> (r: Vec<
    SnapshotEntry,
>)
    ensures
        r@.len() == snapshots@.len(),
        forall|i: int|
            0 <= i < snapshots@.len() ==> {
                &&& (#[trigger] r@[i]).snapshot == snapshots@[i]
                &&& opt_size(r@[i].referenced) == size_named(
                    snapshots_view(sizes@),
                    snapshots@[i].name@,
                )
            },
{
    let ghost all = snapshots@;
    let mut out: Vec<SnapshotEntry> = Vec::new();
    for snapshot in it: snapshots
        invariant
            it.seq() == all,
            out@.len() == it.index(),
            forall|i: int|
                0 <= i < it.index() ==> {
                    &&& (#[trigger] out@[i]).snapshot == all[i]
                    &&& opt_size(out@[i].referenced) == size_named(
                        snapshots_view(sizes@),
                        all[i].name@,
                    )
                },
    {
        let referenced: Option<u64> = find_size(sizes, snapshot.name.as_str());
        out.push(SnapshotEntry { snapshot, referenced });
    }
    out
}

/// The answer to a restore, given how many snapshots there were before and
/// after: restoring removes the newer ones.
pub fn restore_done(shown_id: &str, name: &str, before: usize, after: usize) -> (r: String)
    ensures
        r@ == if before > after {
            "Workspace "@ + shown_id@ + " restored to snapshot '"@ + name@ + "'. "@ + decimal(
                (before - after) as nat,
            ) + " newer snapshot(s) were removed."@
        } else {
            "Workspace "@ + shown_id@ + " restored to snapshot '"@ + name@ + "'."@
        },
{
    let removed: usize = before.saturating_sub(after);
    if removed > 0 {
        let n: String = decimal_of(removed as u64);
        cat7(
            "Workspace ",
            shown_id,
            " restored to snapshot '",
            name,
            "'. ",
            n.as_str(),
            " newer snapshot(s) were removed.",
        )
    } else {
        cat5("Workspace ", shown_id, " restored to snapshot '", name, "'.")
    }
}

/// The answer to a deletion.
pub fn delete_done(shown_id: &str, name: &str) -> (r: String)
    ensures
        r@ == "Snapshot '"@ + name@ + "' deleted from workspace "@ + shown_id@ + "."@,
{
    cat5("Snapshot '", name, "' deleted from workspace ", shown_id, ".")
}

// ---------------------------------------------------------------------------
// Forks
// ---------------------------------------------------------------------------

/// Parameters of `workspace_fork`.
#[derive(Debug)]
pub struct WorkspaceForkParams {
    /// UUID or name of the source workspace.
    pub workspace_id: String,
    /// Name of the snapshot to fork from.
    pub snapshot_name: String,
    /// Name for the new workspace (if only one is made).
    pub new_name: Option<String>,
    /// Number of forks (default: 1, at most 20).
    pub count: Option<u32>,
    /// Prefix for worker names (if several are made, default: "worker").
    pub name_prefix: Option<String>,
    /// Shell commands to run on each worker after boot (if several are made).
    pub setup_commands: Option<Vec<String>>,
}

/// How a fork is done.
#[derive(Debug)]
pub enum ForkPlan {
    /// One workspace.
    Single { new_name: Option<String> },
    /// Several workspaces at once, under these names, and the commands to run
    /// on each of them.
    Batch { names: Vec<String>, setup_commands: Vec<String> },
}

/// The names of `n` workers.
pub open spec fn worker_names(prefix: Seq<char>, n: nat) -> Seq<Seq<char>> {
    Seq::new(n, |i: int| prefix + "-"@ + decimal((i + 1) as nat))
}

/// The names of `n` workers.
pub fn make_worker_names(prefix: &str, n: u32) -> (r: Vec<String>)
    ensures
        texts(r@) == worker_names(prefix@, n as nat),
{
    let mut out: Vec<String> = Vec::new();
    let mut i: u32 = 0;
    proof {
        assert(texts(out@) =~= worker_names(prefix@, 0));
    }
    while i < n
        invariant
            i <= n,
            texts(out@) == worker_names(prefix@, i as nat),
        decreases n - i,
    {
        let k: String = decimal_of(i as u64 + 1);
        let name: String = cat3(prefix, "-", k.as_str());
        proof {
            lemma_texts_push(out@, name);
            assert(worker_names(prefix@, (i + 1) as nat) =~= worker_names(prefix@, i as nat).push(
                name@,
            ));
        }
        out.push(name);
        i = i + 1;
    }
    out
}

/// Why a fork is refused once its source is known, if it is.
pub open spec fn fork_problem(
    p: WorkspaceForkParams,
    has_snapshot: bool,
    m: Map<Seq<char>, SessionView>,
    session: Seq<char>,
    memory_mb: u32,
    disk_gb: u32,
) -> Option<(ErrorKind, Seq<char>)> {
    let count = number_or(p.count, 1);
    let prefix = text_or(p.name_prefix, "worker"@);
    if count <= 1 {
        match no_room(m, session, memory_mb as u64, disk_gb as u64) {
            Some(e) => Some((ErrorKind::InvalidRequest, error_text(e))),
            None => None,
        }
    } else if count > 20 {
        Some(
            (
                ErrorKind::InvalidParams,
                "count must be between 1 and 20 (got "@ + decimal(count as nat) + ")"@,
            ),
        )
    } else if prefix.len() == 0 || !is_plain(prefix) {
        Some(
            (
                ErrorKind::InvalidParams,
                "name_prefix '"@ + prefix
                    + "' contains invalid characters (allowed: alphanumeric, -, _, .)"@,
            ),
        )
    } else if !has_snapshot {
        Some(
            (
                ErrorKind::InvalidRequest,
                "snapshot '"@ + p.snapshot_name@ + "' not found on workspace '"@ + p.workspace_id@
                    + "'. Use snapshot(action=\"list\") to see available snapshots."@,
            ),
        )
    } else {
        match no_room(
            m,
            session,
            (memory_mb * count) as u64,
            (disk_gb * count) as u64,
        ) {
            Some(e) => Some((ErrorKind::InvalidRequest, error_text(e))),
            None => None,
        }
    }
}

/// Decide on a fork once its source is known: the resources of the source, and
/// the names of its snapshots.
pub fn plan_fork(
    p: WorkspaceForkParams,
    snapshots: &Vec<String>,
    auth: &AuthManager,
    session: &str,
    memory_mb: u32,
    disk_gb: u32,
) -> (r: Result<ForkPlan, ToolError>)
    requires
        auth.wf(),
    ensures
        match fork_problem(
            p,
            texts(snapshots@).contains(p.snapshot_name@),
            auth@,
            session@,
            memory_mb,
            disk_gb,
        ) {
            Some(e) => r is Err && r->Err_0@ == e,
            None => if number_or(p.count, 1) <= 1 {
                r == Ok::<ForkPlan, ToolError>(ForkPlan::Single { new_name: p.new_name })
            } else {
                &&& r is Ok
                &&& r->Ok_0 is Batch
                &&& texts(r->Ok_0->names@) == worker_names(
                    text_or(p.name_prefix, "worker"@),
                    number_or(p.count, 1) as nat,
                )
                &&& texts(r->Ok_0->setup_commands@) == match p.setup_commands {
                    Some(v) => texts(v@),
                    None => seq![],
                }
            },
        },
{
    let count: u32 = or_default(p.count, 1);
    if count <= 1 {
        match require_room(auth, session, memory_mb as u64, disk_gb as u64) {
            Err(e) => {
                return Err(e);
            },
            Ok(()) => {},
        }
        return Ok(ForkPlan::Single { new_name: p.new_name });
    }
    if count > 20 {
        let n: String = decimal_of(count as u64);
        return Err(
            invalid_params(cat3("count must be between 1 and 20 (got ", n.as_str(), ")")),
        );
    }
    let prefix: &str = str_or(&p.name_prefix, "worker");
    let odd: Vec<char> = odd_chars_of(prefix);
    if prefix.is_empty() || odd.len() > 0 {
        return Err(
            invalid_params(
                cat3(
                    "name_prefix '",
                    prefix,
                    "' contains invalid characters (allowed: alphanumeric, -, _, .)",
                ),
            ),
        );
    }
    if !holds(snapshots, p.snapshot_name.as_str()) {
        return Err(
            invalid_request(
                cat5(
                    "snapshot '",
                    p.snapshot_name.as_str(),
                    "' not found on workspace '",
                    p.workspace_id.as_str(),
                    "'. Use snapshot(action=\"list\") to see available snapshots.",
                ),
            ),
        );
    }
    proof {
        assert(0 <= memory_mb * count <= 0xffff_ffff * 20) by (nonlinear_arith)
            requires
                0 <= memory_mb <= 0xffff_ffff,
                0 <= count <= 20,
        ;
        assert(0 <= disk_gb * count <= 0xffff_ffff * 20) by (nonlinear_arith)
            requires
                0 <= disk_gb <= 0xffff_ffff,
                0 <= count <= 20,
        ;
    }
    match require_room(
        auth,
        session,
        memory_mb as u64 * count as u64,
        disk_gb as u64 * count as u64,
    ) {
        Err(e) => {
            return Err(e);
        },
        Ok(()) => {},
    }
    let names: Vec<String> = make_worker_names(prefix, count);
    let setup_commands: Vec<String> = match p.setup_commands {
        Some(v) => v,
        None => Vec::new(),
    };
    proof {
        assert(p.setup_commands is None ==> texts(setup_commands@) =~= seq![]);
    }
    Ok(ForkPlan::Batch { names, setup_commands })
}

/// Register a workspace that was just forked for a session. Where that fails,
/// the workspace must be destroyed again and the call answered with the error.
pub fn fork_finish(auth: &mut AuthManager, session: &str, workspace: Forked) -> (r: Result<
    (),
    ToolError,
>)
    requires
        old(auth).wf(),
    ensures
        final(auth).wf(),
        final(auth).new_quota() == old(auth).new_quota(),
        match no_room(
            old(auth)@,
            session@,
            workspace.memory_mb as u64,
            workspace.disk_gb as u64,
        ) {
            Some(e) => {
                &&& r is Err
                &&& r->Err_0@ == (ErrorKind::Internal, error_text(e))
                &&& final(auth)@ == old(auth)@
            },
            None => {
                &&& r is Ok
                &&& final(auth)@ == old(auth)@.insert(
                    session@,
                    gained(
                        old(auth)@[session@],
                        workspace.id,
                        workspace.memory_mb as u64,
                        workspace.disk_gb as u64,
                    ),
                )
            },
        },
{
    match auth.register_workspace(
        session,
        workspace.id,
        workspace.memory_mb as u64,
        workspace.disk_gb as u64,
    ) {
        Ok(()) => Ok(()),
        Err(e) => Err(internal_error(e.message())),
    }
}

/// A workspace that was forked.
#[derive(Clone, Copy, Debug, PartialEq, Eq, Structural)]
pub struct Forked {
    pub id: u128,
    pub memory_mb: u32,
    pub disk_gb: u32,
}

/// What became of a worker of a batch.
#[derive(Debug)]
pub enum Worker {
    /// It exists and the session owns it.
    Created(Forked),
    /// It does not exist.
    Failed { error: String },
    /// It exists but the session cannot own it: it must be destroyed.
    Refused { id: u128, error: String },
}

/// Take a worker of a batch over into a session, given what became of its fork.
pub fn settle_worker(auth: &mut AuthManager, session: &str, outcome: Result<Forked, String>) -> (r:
    Worker)
    requires
        old(auth).wf(),
    ensures
        final(auth).wf(),
        final(auth).new_quota() == old(auth).new_quota(),
        match outcome {
            Err(e) => r == (Worker::Failed { error: e }) && final(auth)@ == old(auth)@,
            Ok(w) => match no_room(
                old(auth)@,
                session@,
                w.memory_mb as u64,
                w.disk_gb as u64,
            ) {
                None => {
                    &&& r == Worker::Created(w)
                    &&& final(auth)@ == old(auth)@.insert(
                        session@,
                        gained(
                            old(auth)@[session@],
                            w.id,
                            w.memory_mb as u64,
                            w.disk_gb as u64,
                        ),
                    )
                },
                Some(e) => {
                    &&& r is Refused
                    &&& r->id == w.id
                    &&& r->Refused_error@ == "quota registration failed: "@ + error_text(e)
                    &&& final(auth)@ == old(auth)@
                },
            },
        },
{
    match outcome {
        Err(error) => Worker::Failed { error },
        Ok(w) => match auth.register_workspace(
            session,
            w.id,
            w.memory_mb as u64,
            w.disk_gb as u64,
        ) {
            Ok(()) => Worker::Created(w),
            Err(e) => {
                let m: String = e.message();
                Worker::Refused { id: w.id, error: cat2("quota registration failed: ", m.as_str()) }
            },
        },
    }
}

// ---------------------------------------------------------------------------
// Ports and policies
// ---------------------------------------------------------------------------

/// What `port_forward` is asked to do.
#[derive(Clone, Copy, Debug, PartialEq, Eq, Structural)]
pub enum PortCall {
    Add,
    Remove,
}

/// Decide on a call of `port_forward`. Privileged host ports are refused.
pub fn port_forward(action: &str, host_port: Option<u16>) -> (r: Result<PortCall, ToolError>)
    ensures
        if action@ == "add"@ {
            match host_port {
                Some(p) => if p < 1024 {
                    r is Err && r->Err_0@ == (
                        ErrorKind::InvalidParams,
                        "host_port "@ + decimal(p as nat)
                            + " is a privileged port (< 1024). Privileged ports are reserved for host services like SSH (22), HTTP (80), and HTTPS (443). Choose a host_port >= 1024."@,
                    )
                } else {
                    r == Ok::<PortCall, ToolError>(PortCall::Add)
                },
                None => r == Ok::<PortCall, ToolError>(PortCall::Add),
            }
        } else if action@ == "remove"@ {
            r == Ok::<PortCall, ToolError>(PortCall::Remove)
        } else {
            r is Err && r->Err_0@ == (
                ErrorKind::InvalidParams,
                "Unknown port_forward action '"@ + action@ + "'. Valid actions: add, remove."@,
            )
        },
{
    if same(action, "add") {
        match host_port {
            Some(p) => if p < 1024 {
                let n: String = decimal_of(p as u64);
                return Err(
                    invalid_params(
                        cat3(
                            "host_port ",
                            n.as_str(),
                            " is a privileged port (< 1024). Privileged ports are reserved for host services like SSH (22), HTTP (80), and HTTPS (443). Choose a host_port >= 1024.",
                        ),
                    ),
                );
            },
            None => {},
        }
        Ok(PortCall::Add)
    } else if same(action, "remove") {
        Ok(PortCall::Remove)
    } else {
        Err(
            invalid_params(
                cat3(
                    "Unknown port_forward action '",
                    action,
                    "'. Valid actions: add, remove.",
                ),
            ),
        )
    }
}

/// The answer to removing a forwarded port.
pub fn port_remove_done(shown_id: &str, guest_port: u16) -> (r: String)
    ensures
        r@ == "Port forward for guest port "@ + decimal(guest_port as nat)
            + " removed from workspace "@ + shown_id@ + "."@,
{
    let n: String = decimal_of(guest_port as u64);
    cat5("Port forward for guest port ", n.as_str(), " removed from workspace ", shown_id, ".")
}

/// An optional flag as it is shown in messages.
pub open spec fn flag_form(o: Option<bool>) -> Seq<char> {
    match o {
        Some(true) => "Some(true)"@,
        Some(false) => "Some(false)"@,
        None => "None"@,
    }
}

/// Numbers as they are shown in messages, with commas between them.
pub open spec fn numbers_form(v: Seq<u16>) -> Seq<char>
    decreases v.len(),
{
    if v.len() == 0 {
        seq![]
    } else if v.len() == 1 {
        decimal(v[0] as nat)
    } else {
        numbers_form(v.drop_last()) + ", "@ + decimal(v.last() as nat)
    }
}

/// Optional ports as they are shown in messages.
pub open spec fn ports_form(o: Option<Vec<u16>>) -> Seq<char> {
    match o {
        Some(v) => "Some(["@ + numbers_form(v@) + "])"@,
        None => "None"@,
    }
}

/// An optional flag as it is shown in messages.
fn show_flag(o: Option<bool>) -> (r: &'static str)
    ensures
        r@ == flag_form(o),
{
    match o {
        Some(b) => if b {
            "Some(true)"
        } else {
            "Some(false)"
        },
        None => "None",
    }
}

/// Optional ports as they are shown in messages.
fn show_ports(o: &Option<Vec<u16>>) -> (r: String)
    ensures
        r@ == ports_form(*o),
{
    match o {
        None => owned("None"),
        Some(v) => {
            let mut inner: String = String::new();
            let mut i: usize = 0;
            proof {
                assert(inner@ =~= numbers_form(v@.take(0)));
            }
            while i < v.len()
                invariant
                    i <= v@.len(),
                    inner@ == numbers_form(v@.take(i as int)),
                decreases v.len() - i,
            {
                let n: String = decimal_of(v[i] as u64);
                proof {
                    let t = v@.take(i + 1);
                    assert(t.drop_last() =~= v@.take(i as int));
                    assert(t.last() == v@[i as int]);
                    if i == 0 {
                        assert(inner@ + n@ =~= n@);
                    }
                }
                if i > 0 {
                    inner.append(", ");
                }
                inner.append(n.as_str());
                i = i + 1;
            }
            proof {
                assert(v@.take(v@.len() as int) =~= v@);
            }
            cat3("Some([", inner.as_str(), "])")
        },
    }
}

/// The error for a network policy that could not be set, with what was asked
/// for.
pub fn policy_failure(
    allow_internet: Option<bool>,
    allow_inter_vm: Option<bool>,
    allowed_ports: &Option<Vec<u16>>,
    why: &str,
) -> (e: ToolError)
    ensures
        e@ == (
            ErrorKind::InvalidRequest,
            why@ + ". Requested changes: allow_internet="@ + flag_form(allow_internet)
                + ", allow_inter_vm="@ + flag_form(allow_inter_vm) + ", allowed_ports="@
                + ports_form(*allowed_ports),
        ),
{
    let p: String = show_ports(allowed_ports);
    invalid_request(
        cat7(
            why,
            ". Requested changes: allow_internet=",
            show_flag(allow_internet),
            ", allow_inter_vm=",
            show_flag(allow_inter_vm),
            ", allowed_ports=",
            p.as_str(),
        ),
    )
}

/// How many lines of a log are shown: as many as are asked for, else 100.
pub fn log_lines(max_lines: Option<usize>) -> (n: usize)
    ensures
        n == match max_lines {
            Some(n) => n,
            None => 100,
        },
{
    match max_lines {
        Some(n) => n,
        None => 100,
    }
}

/// Which logs are shown: the console's, and those of standard error. Any other
/// name than `console` and `stderr` stands for both.
pub fn shown_logs(log_type: &Option<String>) -> (r: (bool, bool))
    ensures
        r.0 == (text_or(*log_type, "all"@) != "stderr"@),
        r.1 == (text_or(*log_type, "all"@) != "console"@),
{
    let t: &str = str_or(log_type, "all");
    (!same(t, "stderr"), !same(t, "console"))
}

// ---------------------------------------------------------------------------
// Laws
// ---------------------------------------------------------------------------

/// A snapshot that the storage lists has a size in the snapshot list.
pub proof fn law_listed_snapshots_have_a_size(sizes: Seq<SnapshotView>, i: int)
    requires
        0 <= i < sizes.len(),
    ensures
        size_named(sizes, sizes[i].snap_name) is Some,
    decreases sizes.len(),
{
    if i > 0 {
        assert(sizes.skip(1)[i - 1] == sizes[i]);
        law_listed_snapshots_have_a_size(sizes.skip(1), i - 1);
    }
}

/// Workers of a batch have different names.
pub proof fn law_worker_names_differ(prefix: Seq<char>, n: nat, i: int, j: int)
    requires
        0 <= i < j < n,
    ensures
        worker_names(prefix, n)[i] != worker_names(prefix, n)[j],
{
    let a = worker_names(prefix, n)[i];
    let b = worker_names(prefix, n)[j];
    let p = prefix + "-"@;
    crate::number::law_decimal_round_trip((i + 1) as nat, n);
    crate::number::law_decimal_round_trip((j + 1) as nat, n);
    if a == b {
        assert(a.skip(p.len() as int) =~= decimal((i + 1) as nat));
        assert(b.skip(p.len() as int) =~= decimal((j + 1) as nat));
    }
}

/// A batch is allowed only if the quota has room for the memory and the disk
/// space of all its workers together.
pub proof fn law_batch_fits_quota(
    p: WorkspaceForkParams,
    has_snapshot: bool,
    m: Map<Seq<char>, SessionView>,
    session: Seq<char>,
    memory_mb: u32,
    disk_gb: u32,
)
    requires
        number_or(p.count, 1) > 1,
        fork_problem(p, has_snapshot, m, session, memory_mb, disk_gb) is None,
    ensures
        ({
            let count = number_or(p.count, 1);
            let s = m[session];
            &&& 2 <= count <= 20
            &&& s.usage.memory_mb + memory_mb * count <= s.quota.max_memory_mb
            &&& s.usage.disk_gb + disk_gb * count <= s.quota.max_disk_gb
        }),
{
    let count = number_or(p.count, 1);
    assert(0 <= memory_mb * count <= 0xffff_ffff * 20) by (nonlinear_arith)
        requires
            0 <= memory_mb <= 0xffff_ffff,
            0 <= count <= 20,
    ;
    assert(0 <= disk_gb * count <= 0xffff_ffff * 20) by (nonlinear_arith)
        requires
            0 <= disk_gb <= 0xffff_ffff,
            0 <= count <= 20,
    ;
}

/// A workspace whose creation was registered and which is then destroyed leaves
/// the session as it was, with nothing charged to its quota.
pub proof fn law_destroy_releases_quota(
    m: Map<Seq<char>, SessionView>,
    session: Seq<char>,
    workspace: u128,
    memory_mb: u64,
    disk_gb: u64,
)
    requires
        no_room(m, session, memory_mb, disk_gb) is None,
        !m[session].workspaces.contains(workspace),
    ensures
        released(
            m.insert(session, gained(m[session], workspace, memory_mb, disk_gb)),
            session,
            workspace,
            memory_mb,
            disk_gb,
        ) == m,
{
    crate::mcp::auth::law_unregister_undoes_register(
        m[session],
        workspace,
        memory_mb,
        disk_gb,
    );
    let after = m.insert(session, gained(m[session], workspace, memory_mb, disk_gb));
    assert(released(after, session, workspace, memory_mb, disk_gb) =~= m);
}

} // verus!
