//! The team tool: create, destroy, status, list, message and receive.

use crate::mcp::error::{internal_error, invalid_params, invalid_request, ErrorKind, ToolError};
use crate::mcp::git_tools::{str_or, text_or};
use crate::mcp::rate_limit::{draws, too_soon, RateLimiter, Slot};
use crate::team::RoleDef;
use crate::text::{
    byte_len, byte_size, cat2, cat3, cat4, cut, cut_to, lemma_texts_push, owned, same, texts,
};
use vstd::prelude::*;

verus! {

// ---------------------------------------------------------------------------
// Parameters
// ---------------------------------------------------------------------------

/// Parameters of the team tool.
#[derive(Debug)]
pub struct TeamParams {
    /// Action: "create", "destroy", "status", "list", "message", "receive".
    pub action: String,
    /// Team name.
    pub name: Option<String>,
    /// Role definitions for team members (for create).
    pub roles: Option<Vec<RoleDefParam>>,
    /// Maximum VMs for the team (for create, default: 10).
    pub max_vms: Option<u32>,
    /// Base snapshot to use for team workspaces (for create).
    pub base_snapshot: Option<String>,
    /// Parent team name for creating a sub-team (for create).
    pub parent_team: Option<String>,
    /// Sender agent name (for message), or the agent that receives.
    pub agent: Option<String>,
    /// Recipient agent name or "*" for broadcast (for message).
    pub to: Option<String>,
    /// Message content (for message).
    pub content: Option<String>,
    /// Message type hint (for message, default: "text").
    pub message_type: Option<String>,
    /// Max messages to retrieve (for receive, default: 10).
    pub limit: Option<u32>,
}

/// Role definition parameter.
#[derive(Debug)]
pub struct RoleDefParam {
    /// Member name.
    pub name: String,
    /// Role description.
    pub role: String,
    /// Skills of the agent.
    pub skills: Vec<String>,
    /// What the member is for.
    pub description: String,
}

impl From<RoleDefParam> for RoleDef {
    fn from(p: RoleDefParam) -> (r: RoleDef) {
        RoleDef { name: p.name, role: p.role, skills: p.skills, description: p.description }
    }
}

impl vstd::std_specs::convert::FromSpecImpl<RoleDefParam> for RoleDef {
    open spec fn obeys_from_spec() -> bool {
        true
    }

    open spec fn from_spec(p: RoleDefParam) -> RoleDef {
        RoleDef { name: p.name, role: p.role, skills: p.skills, description: p.description }
    }
}

/// The role that a parameter defines.
pub open spec fn role_of(p: RoleDefParam) -> RoleDef {
    RoleDef { name: p.name, role: p.role, skills: p.skills, description: p.description }
}

/// The roles that parameters define, in order.
fn roles_of(params: Vec<RoleDefParam>) -> (r: Vec<RoleDef>)
    ensures
        r@ == params@.map_values(|p: RoleDefParam| role_of(p)),
{
    let mut out: Vec<RoleDef> = Vec::new();
    let ghost all = params@;
    for p in it: params
        invariant
            it.seq() == all,
            out@ == all.take(it.index()).map_values(|p: RoleDefParam| role_of(p)),
    {
        proof {
            let i = it.index();
            assert(all.take(i + 1).map_values(|p: RoleDefParam| role_of(p)) =~= all.take(
                i,
            ).map_values(|p: RoleDefParam| role_of(p)).push(role_of(all[i])));
        }
        out.push(RoleDef::from(p));
    }
    proof {
        assert(all.take(all.len() as int) =~= all);
    }
    out
}

// ---------------------------------------------------------------------------
// Calls
// ---------------------------------------------------------------------------

/// What the team tool is asked to do, with its parameters checked.
#[derive(Debug)]
pub enum TeamCall {
    Create {
        name: String,
        roles: Vec<RoleDef>,
        base_snapshot: Option<String>,
        max_vms: u32,
        parent_team: Option<String>,
    },
    Destroy { name: String },
    Status { name: String },
    List,
    Message { name: String, from: String, to: String, content: String, message_type: String },
    Receive { name: String, agent: String, limit: u32 },
}

/// The error for a parameter that is missing.
pub open spec fn missing(params: TeamParams) -> Option<Seq<char>> {
    let action = params.action@;
    if action == "create"@ {
        if params.name is None {
            Some("'name' is required for action 'create'"@)
        } else if params.roles is None {
            Some(
                "'roles' is required for action 'create'. Provide an array of {name, role, skills?, description?} objects."@,
            )
        } else if params.roles->0@.len() == 0 {
            Some("'roles' must contain at least one role definition"@)
        } else {
            None
        }
    } else if action == "destroy"@ {
        if params.name is None {
            Some("'name' is required for action 'destroy'"@)
        } else {
            None
        }
    } else if action == "status"@ {
        if params.name is None {
            Some("'name' is required for action 'status'"@)
        } else {
            None
        }
    } else if action == "list"@ {
        None
    } else if action == "message"@ {
        if params.name is None {
            Some("'name' is required for action 'message' (team name)"@)
        } else if params.to is None {
            Some(
                "'to' is required for action 'message'. Provide a recipient agent name or \"*\" for broadcast."@,
            )
        } else if params.content is None {
            Some("'content' is required for action 'message'"@)
        } else if params.agent is None {
            Some("'agent' is required for action 'message' (sender agent name)"@)
        } else {
            None
        }
    } else if action == "receive"@ {
        if params.name is None {
            Some("'name' is required for action 'receive' (team name)"@)
        } else if params.agent is None {
            Some(
                "'agent' is required for action 'receive' (agent name to receive messages for)"@,
            )
        } else {
            None
        }
    } else {
        Some(
            "unknown team action '"@ + action
                + "'. Valid actions: create, destroy, status, list, message, receive"@,
        )
    }
}

/// The call asks for what the parameters say, with defaults filled in.
pub open spec fn asks_for(call: TeamCall, params: TeamParams) -> bool {
    let action = params.action@;
    if action == "create"@ {
        call matches TeamCall::Create { name, roles, base_snapshot, max_vms, parent_team } && {
            &&& Some(name) == params.name
            &&& roles@ == params.roles->0@.map_values(|p: RoleDefParam| role_of(p))
            &&& base_snapshot == params.base_snapshot
            &&& max_vms == match params.max_vms {
                Some(n) => n,
                None => 10,
            }
            &&& parent_team == params.parent_team
        }
    } else if action == "destroy"@ {
        call matches TeamCall::Destroy { name } && Some(name) == params.name
    } else if action == "status"@ {
        call matches TeamCall::Status { name } && Some(name) == params.name
    } else if action == "list"@ {
        call is List
    } else if action == "message"@ {
        call matches TeamCall::Message { name, from, to, content, message_type } && {
            &&& Some(name) == params.name
            &&& Some(from) == params.agent
            &&& Some(to) == params.to
            &&& Some(content) == params.content
            &&& message_type@ == text_or(params.message_type, "text"@)
        }
    } else {
        call matches TeamCall::Receive { name, agent, limit } && {
            &&& Some(name) == params.name
            &&& Some(agent) == params.agent
            &&& limit == match params.limit {
                Some(n) => n,
                None => 10,
            }
        }
    }
}

/// The error for a parameter that is missing.
fn lacks(message: &str) -> (r: Result<TeamCall, ToolError>)
    ensures
        r is Err,
        r->Err_0@ == (ErrorKind::InvalidParams, message@),
{
    Err(invalid_params(owned(message)))
}

/// Check the parameters of the team tool.
pub fn parse_team_call(params: TeamParams) -> (r: Result<TeamCall, ToolError>)
    ensures
        match missing(params) {
            Some(message) => r is Err && r->Err_0@ == (ErrorKind::InvalidParams, message),
            None => r is Ok && asks_for(r->Ok_0, params),
        },
{
    let action: &str = params.action.as_str();
    if same(action, "create") {
        let name: String = match params.name {
            Some(name) => name,
            None => {
                return lacks("'name' is required for action 'create'");
            },
        };
        let roles: Vec<RoleDefParam> = match params.roles {
            Some(roles) => roles,
            None => {
                return lacks(
                    "'roles' is required for action 'create'. Provide an array of {name, role, skills?, description?} objects.",
                );
            },
        };
        if roles.len() == 0 {
            return lacks("'roles' must contain at least one role definition");
        }
        let max_vms: u32 = match params.max_vms {
            Some(n) => n,
            None => 10,
        };
        Ok(
            TeamCall::Create {
                name,
                roles: roles_of(roles),
                base_snapshot: params.base_snapshot,
                max_vms,
                parent_team: params.parent_team,
            },
        )
    } else if same(action, "destroy") {
        match params.name {
            Some(name) => Ok(TeamCall::Destroy { name }),
            None => lacks("'name' is required for action 'destroy'"),
        }
    } else if same(action, "status") {
        match params.name {
            Some(name) => Ok(TeamCall::Status { name }),
            None => lacks("'name' is required for action 'status'"),
        }
    } else if same(action, "list") {
        Ok(TeamCall::List)
    } else if same(action, "message") {
        let name: String = match params.name {
            Some(name) => name,
            None => {
                return lacks("'name' is required for action 'message' (team name)");
            },
        };
        let to: String = match params.to {
            Some(to) => to,
            None => {
                return lacks(
                    "'to' is required for action 'message'. Provide a recipient agent name or \"*\" for broadcast.",
                );
            },
        };
        let content: String = match params.content {
            Some(content) => content,
            None => {
                return lacks("'content' is required for action 'message'");
            },
        };
        let from: String = match params.agent {
            Some(agent) => agent,
            None => {
                return lacks("'agent' is required for action 'message' (sender agent name)");
            },
        };
        let message_type: String = owned(str_or(&params.message_type, "text"));
        Ok(TeamCall::Message { name, from, to, content, message_type })
    } else if same(action, "receive") {
        let name: String = match params.name {
            Some(name) => name,
            None => {
                return lacks("'name' is required for action 'receive' (team name)");
            },
        };
        let agent: String = match params.agent {
            Some(agent) => agent,
            None => {
                return lacks(
                    "'agent' is required for action 'receive' (agent name to receive messages for)",
                );
            },
        };
        let limit: u32 = match params.limit {
            Some(n) => n,
            None => 10,
        };
        Ok(TeamCall::Receive { name, agent, limit })
    } else {
        Err(
            invalid_params(
                cat3(
                    "unknown team action '",
                    action,
                    "'. Valid actions: create, destroy, status, list, message, receive",
                ),
            ),
        )
    }
}

/// Decide on a call of the team tool.
///
/// `available` tells whether the server has team support. A message with all
/// its parameters draws on the rate limit for messages; any other action draws
/// on the default one before its parameters are looked at.
pub fn handle_team(params: TeamParams, available: bool, limiter: &mut RateLimiter, now: u64) -> (r:
    Result<TeamCall, ToolError>)
    requires
        old(limiter).wf(),
    ensures
        final(limiter).wf(),
        if available && params.action@ != "message"@ {
            draws(*old(limiter), *final(limiter), Slot::Default, now)
        } else if available && missing(params) is None {
            draws(*old(limiter), *final(limiter), Slot::TeamMessage, now)
        } else {
            *final(limiter) == *old(limiter)
        },
        !available ==> r is Err && r->Err_0@ == (
            ErrorKind::InvalidRequest,
            "Team management is not available. The server was started without team support."@,
        ),
        available && params.action@ != "message"@ ==> match (
            too_soon(*old(limiter), Slot::Default, now),
            missing(params),
        ) {
            (Some(e), _) => r is Err && r->Err_0@ == e,
            (None, Some(message)) => r is Err && r->Err_0@ == (
                ErrorKind::InvalidParams,
                message,
            ),
            (None, None) => r is Ok && asks_for(r->Ok_0, params),
        },
        available && params.action@ == "message"@ ==> match (
            missing(params),
            too_soon(*old(limiter), Slot::TeamMessage, now),
        ) {
            (Some(message), _) => r is Err && r->Err_0@ == (ErrorKind::InvalidParams, message),
            (None, Some(e)) => r is Err && r->Err_0@ == e,
            (None, None) => r is Ok && asks_for(r->Ok_0, params),
        },
{
    if !available {
        return Err(
            invalid_request(
                owned(
                    "Team management is not available. The server was started without team support.",
                ),
            ),
        );
    }
    let is_message: bool = same(params.action.as_str(), "message");
    if !is_message {
        match limiter.draw(Slot::Default, now) {
            Err(e) => {
                return Err(e);
            },
            Ok(()) => {},
        }
        return parse_team_call(params);
    }
    let call: TeamCall = match parse_team_call(params) {
        Err(e) => {
            return Err(e);
        },
        Ok(call) => call,
    };
    match limiter.draw(Slot::TeamMessage, now) {
        Err(e) => Err(e),
        Ok(()) => Ok(call),
    }
}

/// The error for a call that the team manager or the message relay refused,
/// with what it said.
pub fn team_failure(call: &TeamCall, detail: &str) -> (e: ToolError)
    ensures
        e@ == match *call {
            TeamCall::Create { name, .. } => (
                ErrorKind::Internal,
                "failed to create team '"@ + name@ + "': "@ + detail@,
            ),
            TeamCall::Destroy { name } => (
                ErrorKind::Internal,
                "failed to destroy team '"@ + name@ + "': "@ + detail@,
            ),
            TeamCall::Status { name } => (
                ErrorKind::Internal,
                "failed to get status for team '"@ + name@ + "': "@ + detail@,
            ),
            TeamCall::List => (ErrorKind::Internal, "failed to list teams: "@ + detail@),
            TeamCall::Message { .. } => (ErrorKind::InvalidRequest, detail@),
            TeamCall::Receive { .. } => (ErrorKind::InvalidRequest, detail@),
        },
{
    match call {
        TeamCall::Create { name, .. } => internal_error(
            cat4("failed to create team '", name.as_str(), "': ", detail),
        ),
        TeamCall::Destroy { name } => internal_error(
            cat4("failed to destroy team '", name.as_str(), "': ", detail),
        ),
        TeamCall::Status { name } => internal_error(
            cat4("failed to get status for team '", name.as_str(), "': ", detail),
        ),
        TeamCall::List => internal_error(cat2("failed to list teams: ", detail)),
        TeamCall::Message { .. } => invalid_request(owned(detail)),
        TeamCall::Receive { .. } => invalid_request(owned(detail)),
    }
}

// ---------------------------------------------------------------------------
// Messages
// ---------------------------------------------------------------------------

/// The agents but one, in order.
pub open spec fn all_but(agents: Seq<Seq<char>>, agent: Seq<char>) -> Seq<Seq<char>>
    decreases agents.len(),
{
    if agents.len() == 0 {
        seq![]
    } else if agents.last() == agent {
        all_but(agents.drop_last(), agent)
    } else {
        all_but(agents.drop_last(), agent).push(agents.last())
    }
}

/// Who a message goes to: the recipient, or for "*" every agent of the team
/// but the sender.
pub fn recipients(from: &str, to: &str, agents: &Vec<String>) -> (r: Vec<String>)
    ensures
        texts(r@) == if to@ == "*"@ {
            all_but(texts(agents@), from@)
        } else {
            seq![to@]
        },
{
    let mut out: Vec<String> = Vec::new();
    if !same(to, "*") {
        let only: String = owned(to);
        out.push(only);
        proof {
            assert(texts(out@) =~= seq![to@]);
        }
        return out;
    }
    let mut i: usize = 0;
    proof {
        assert(texts(out@) =~= seq![]);
    }
    while i < agents.len()
        invariant
            i <= agents@.len(),
            texts(out@) == all_but(texts(agents@).take(i as int), from@),
        decreases agents.len() - i,
    {
        proof {
            let t = texts(agents@).take(i + 1);
            assert(t.drop_last() =~= texts(agents@).take(i as int));
            assert(t.last() == agents@[i as int]@);
        }
        if !same(agents[i].as_str(), from) {
            let a: String = owned(agents[i].as_str());
            proof {
                lemma_texts_push(out@, a);
            }
            out.push(a);
        }
        i = i + 1;
    }
    proof {
        assert(texts(agents@).take(agents@.len() as int) =~= texts(agents@));
    }
    out
}

/// A message in an inbox: its type, and whatever else belongs to it.
#[derive(Debug)]
pub struct Posted<T> {
    pub message_type: String,
    pub body: T,
}

/// The messages that are shown: all but task assignments, which the guest
/// daemon handles.
pub open spec fn shown<T>(messages: Seq<Posted<T>>) -> Seq<Posted<T>>
    decreases messages.len(),
{
    if messages.len() == 0 {
        seq![]
    } else if messages.last().message_type@ == "task_assignment"@ {
        shown(messages.drop_last())
    } else {
        shown(messages.drop_last()).push(messages.last())
    }
}

/// The messages that are shown.
pub fn shown_messages<T>(messages: Vec<Posted<T>>) -> (r: Vec<Posted<T>>)
    ensures
        r@ == shown(messages@),
{
    let ghost all = messages@;
    let mut out: Vec<Posted<T>> = Vec::new();
    for m in it: messages
        invariant
            it.seq() == all,
            out@ == shown(all.take(it.index())),
    {
        proof {
            let t = all.take(it.index() + 1);
            assert(t.drop_last() =~= all.take(it.index()));
            assert(t.last() == all[it.index()]);
        }
        if !same(m.message_type.as_str(), "task_assignment") {
            out.push(m);
        }
    }
    proof {
        assert(all.take(all.len() as int) =~= all);
    }
    out
}

/// Text cut to a byte limit, with a notice where something was cut off.
pub open spec fn truncated(s: Seq<char>, max_bytes: nat) -> Seq<char> {
    if byte_size(s) <= max_bytes {
        s
    } else {
        cut(s, max_bytes as int) + "... (truncated)"@
    }
}

/// Truncate a string at a character boundary, appending "... (truncated)" if
/// needed.
pub fn safe_truncate(s: &str, max_bytes: usize) -> (r: String)
    ensures
        r@ == truncated(s@, max_bytes as nat),
{
    if byte_len(s) <= max_bytes {
        return owned(s);
    }
    let head: String = cut_to(s, max_bytes);
    cat2(head.as_str(), "... (truncated)")
}

/// A task that the guest daemon finished.
#[derive(Debug)]
pub struct DaemonResult {
    pub task_id: String,
    pub success: bool,
    pub exit_code: i32,
    pub stdout: String,
    pub stderr: String,
    pub elapsed_secs: u64,
    pub source_message_id: String,
}

/// A result of the guest daemon as it is shown: with its output truncated.
pub open spec fn is_shown_as(a: DaemonResult, b: DaemonResult) -> bool {
    &&& b.task_id == a.task_id
    &&& b.success == a.success
    &&& b.exit_code == a.exit_code
    &&& b.stdout@ == truncated(a.stdout@, 4096)
    &&& b.stderr@ == truncated(a.stderr@, 2048)
    &&& b.elapsed_secs == a.elapsed_secs
    &&& b.source_message_id == a.source_message_id
}

/// What the guest daemon reports besides messages: nothing, if it has neither
/// results nor pending tasks; else its results with their output truncated.
pub fn daemon_section(results: Vec<DaemonResult>, pending_tasks: u32) -> (r: Option<
    (Vec<DaemonResult>, u32),
>)
    ensures
        r is None <==> results@.len() == 0 && pending_tasks == 0,
        match r {
            Some((shown, pending)) => {
                &&& pending == pending_tasks
                &&& shown@.len() == results@.len()
                &&& forall|i: int|
                    0 <= i < results@.len() ==> is_shown_as(results@[i], #[trigger] shown@[i])
            },
            None => true,
        },
{
    if results.len() == 0 && pending_tasks == 0 {
        return None;
    }
    let ghost all = results@;
    let mut out: Vec<DaemonResult> = Vec::new();
    for d in it: results
        invariant
            it.seq() == all,
            out@.len() == it.index(),
            forall|i: int| 0 <= i < it.index() ==> is_shown_as(all[i], #[trigger] out@[i]),
    {
        let stdout: String = safe_truncate(d.stdout.as_str(), 4096);
        let stderr: String = safe_truncate(d.stderr.as_str(), 2048);
        out.push(
            DaemonResult {
                task_id: d.task_id,
                success: d.success,
                exit_code: d.exit_code,
                stdout,
                stderr,
                elapsed_secs: d.elapsed_secs,
                source_message_id: d.source_message_id,
            },
        );
    }
    Some((out, pending_tasks))
}

// ---------------------------------------------------------------------------
// Laws
// ---------------------------------------------------------------------------

/// A broadcast reaches every agent of the team but the sender, and never the
/// sender.
pub proof fn law_broadcast_skips_sender(agents: Seq<Seq<char>>, from: Seq<char>, agent: Seq<char>)
    ensures
        all_but(agents, from).contains(agent) <==> agents.contains(agent) && agent != from,
    decreases agents.len(),
{
    if agents.len() > 0 {
        let init = agents.drop_last();
        law_broadcast_skips_sender(init, from, agent);
        let rest = all_but(init, from);
        if agents.contains(agent) && agent != from {
            let i = choose|i: int| 0 <= i < agents.len() && agents[i] == agent;
            if i < init.len() {
                assert(init[i] == agent);
                assert(init.contains(agent));
                let k = choose|k: int| 0 <= k < rest.len() && rest[k] == agent;
                if agents.last() != from {
                    assert(rest.push(agents.last())[k] == agent);
                }
            } else {
                assert(rest.push(agents.last())[rest.len() as int] == agent);
            }
        }
        if all_but(agents, from).contains(agent) {
            let k = choose|k: int|
                0 <= k < all_but(agents, from).len() && all_but(agents, from)[k] == agent;
            if k < rest.len() {
                assert(rest[k] == agent);
                assert(rest.contains(agent));
                let i = choose|i: int| 0 <= i < init.len() && init[i] == agent;
                assert(agents[i] == agent);
            } else {
                assert(agents[agents.len() - 1] == agent);
            }
        }
    }
}

/// No shown message is a task assignment, and every other message is shown.
pub proof fn law_assignments_are_hidden<T>(messages: Seq<Posted<T>>, m: Posted<T>)
    ensures
        shown(messages).contains(m) <==> messages.contains(m) && m.message_type@
            != "task_assignment"@,
    decreases messages.len(),
{
    if messages.len() > 0 {
        let init = messages.drop_last();
        law_assignments_are_hidden(init, m);
        let rest = shown(init);
        if messages.contains(m) && m.message_type@ != "task_assignment"@ {
            let i = choose|i: int| 0 <= i < messages.len() && messages[i] == m;
            if i < init.len() {
                assert(init[i] == m);
                assert(init.contains(m));
                let k = choose|k: int| 0 <= k < rest.len() && rest[k] == m;
                assert(rest.push(messages.last())[k] == m);
            } else {
                assert(rest.push(messages.last())[rest.len() as int] == m);
            }
        }
        if shown(messages).contains(m) {
            let k = choose|k: int| 0 <= k < shown(messages).len() && shown(messages)[k] == m;
            if k < rest.len() {
                assert(rest[k] == m);
                assert(rest.contains(m));
                let i = choose|i: int| 0 <= i < init.len() && init[i] == m;
                assert(messages[i] == m);
            } else {
                assert(messages[messages.len() - 1] == m);
            }
        }
    }
}

} // verus!
