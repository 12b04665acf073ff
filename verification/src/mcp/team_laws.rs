//! What the team tools do with a call, a message and a result.

use crate::mcp::access_laws::{only, refused};
use crate::mcp::error::{ErrorKind, ToolError};
use crate::mcp::rate_limit::{RateLimiter, Slot};
use crate::mcp::team_tools::{
    daemon_section, handle_team, law_assignments_are_hidden, law_broadcast_skips_sender,
    parse_team_call, recipients, safe_truncate, shown, shown_messages, DaemonResult, Posted,
    TeamCall, TeamParams,
};
use crate::mcp::vault_call_laws::requirement;
use crate::text::{byte_size, cut, lemma_cut, texts};
use vstd::prelude::*;

verus! {

/// What a call must give besides its action: a name for all but a list; roles
/// to create a team; a recipient, a content and a sender for a message; and an
/// agent to receive for.
pub open spec fn is_complete(p: TeamParams) -> bool {
    ||| p.action@ == "create"@ && p.name is Some && p.roles is Some && p.roles->0@.len() > 0
    ||| p.action@ == "destroy"@ && p.name is Some
    ||| p.action@ == "status"@ && p.name is Some
    ||| p.action@ == "list"@
    ||| p.action@ == "message"@ && p.name is Some && p.to is Some && p.content is Some && p.agent
        is Some
    ||| p.action@ == "receive"@ && p.name is Some && p.agent is Some
}

/// The words of the actions differ.
proof fn lemma_actions()
    ensures
        "create"@ != "destroy"@ && "create"@ != "status"@ && "create"@ != "list"@,
        "create"@ != "message"@ && "create"@ != "receive"@ && "destroy"@ != "status"@,
        "destroy"@ != "list"@ && "destroy"@ != "message"@ && "destroy"@ != "receive"@,
        "status"@ != "list"@ && "status"@ != "message"@ && "status"@ != "receive"@,
        "list"@ != "message"@ && "list"@ != "receive"@ && "message"@ != "receive"@,
{
    reveal_strlit("create");
    reveal_strlit("destroy");
    reveal_strlit("status");
    reveal_strlit("list");
    reveal_strlit("message");
    reveal_strlit("receive");
    assert("create"@[0] == 'c' && "destroy"@[0] == 'd' && "status"@[0] == 's' && "list"@[0] == 'l'
        && "message"@[0] == 'm' && "receive"@[0] == 'r');
}

/// A call is understood exactly if it is complete, and then asks for what its
/// action says, with what was given. A team has ten VMs at most, a message is
/// a text and ten messages are received, unless told otherwise.
#[verifier::rlimit(40)]
pub proof fn law_team_call_is_told_by_its_action(p: TeamParams, r: Result<TeamCall, ToolError>)
    requires
        call_ensures(parse_team_call, (p,), r),
    ensures
        r is Ok <==> is_complete(p),
        r matches Err(e) ==> e.kind == ErrorKind::InvalidParams,
        r matches Ok(call) ==> match call {
            TeamCall::Create { name, roles, base_snapshot, max_vms, parent_team } => {
                &&& p.action@ == "create"@
                &&& p.name == Some(name)
                &&& roles@.len() == p.roles->0@.len()
                &&& forall|i: int|
                    0 <= i < roles@.len() ==> (#[trigger] roles@[i]).name == p.roles->0@[i].name
                        && roles@[i].role == p.roles->0@[i].role && roles@[i].skills
                        == p.roles->0@[i].skills && roles@[i].description
                        == p.roles->0@[i].description
                &&& base_snapshot == p.base_snapshot
                &&& parent_team == p.parent_team
                &&& p.max_vms matches Some(n) ==> max_vms == n
                &&& p.max_vms is None ==> max_vms == 10
            },
            TeamCall::Destroy { name } => p.action@ == "destroy"@ && p.name == Some(name),
            TeamCall::Status { name } => p.action@ == "status"@ && p.name == Some(name),
            TeamCall::List => p.action@ == "list"@,
            TeamCall::Message { name, from, to, content, message_type } => {
                &&& p.action@ == "message"@
                &&& p.name == Some(name)
                &&& p.agent == Some(from)
                &&& p.to == Some(to)
                &&& p.content == Some(content)
                &&& p.message_type matches Some(t) ==> message_type@ == t@
                &&& p.message_type is None ==> message_type@ == "text"@
            },
            TeamCall::Receive { name, agent, limit } => {
                &&& p.action@ == "receive"@
                &&& p.name == Some(name)
                &&& p.agent == Some(agent)
                &&& p.limit matches Some(n) ==> limit == n
                &&& p.limit is None ==> limit == 10
            },
        },
{
    lemma_actions();
}

/// Without team support nothing is done. A message draws on the limit for team
/// messages, once it is complete; any other call draws on the default limit
/// first.
#[verifier::rlimit(40)]
pub proof fn law_messages_have_their_own_limit(
    p: TeamParams,
    available: bool,
    limiter: &mut RateLimiter,
    now: u64,
    r: Result<TeamCall, ToolError>,
)
    requires
        call_ensures(handle_team, (p, available, limiter, now), r),
    ensures
        !available ==> r is Err && *final(limiter) == *old(limiter),
        p.action@ == "message"@ ==> only(*old(limiter), *final(limiter), Slot::TeamMessage),
        p.action@ == "message"@ && !is_complete(p) ==> *final(limiter) == *old(limiter),
        p.action@ != "message"@ ==> only(*old(limiter), *final(limiter), Slot::Default),
        r is Ok <==> available && is_complete(p) && !refused(
            *old(limiter),
            if p.action@ == "message"@ {
                Slot::TeamMessage
            } else {
                Slot::Default
            },
            now,
        ),
{
    lemma_actions();
}

/// A message goes to the agent that it names, or, to everybody, to each agent
/// of the team but the sender.
pub proof fn law_message_reaches_its_recipients(
    from: &str,
    to: &str,
    agents: &Vec<String>,
    r: Vec<String>,
    agent: Seq<char>,
)
    requires
        call_ensures(recipients, (from, to, agents), r),
    ensures
        to@ == "*"@ ==> (texts(r@).contains(agent) <==> texts(agents@).contains(agent) && agent
            != from@),
        to@ != "*"@ ==> texts(r@) == seq![to@],
{
    law_broadcast_skips_sender(texts(agents@), from@, agent);
}

/// Shown messages are the others in their order.
proof fn lemma_shown_order<T>(messages: Seq<Posted<T>>)
    ensures
        shown(messages) == messages.filter(
            |m: Posted<T>| m.message_type@ != "task_assignment"@,
        ),
    decreases messages.len(),
{
    reveal(Seq::filter);
    if messages.len() > 0 {
        lemma_shown_order(messages.drop_last());
    }
}

/// All messages are shown but task assignments, in their order.
pub proof fn law_shown_messages_are_no_assignments<T>(
    messages: Vec<Posted<T>>,
    r: Vec<Posted<T>>,
    m: Posted<T>,
)
    requires
        call_ensures(shown_messages::<T>, (messages,), r),
    ensures
        r@ == messages@.filter(|m: Posted<T>| m.message_type@ != "task_assignment"@),
        r@.contains(m) <==> messages@.contains(m) && m.message_type@ != "task_assignment"@,
{
    lemma_shown_order(messages@);
    law_assignments_are_hidden(messages@, m);
}

/// What is kept of a text: all of it where it fits, else the longest beginning
/// that fits, with a mark behind it.
pub open spec fn keeps(kept: Seq<char>, s: Seq<char>, limit: nat) -> bool {
    if byte_size(s) <= limit {
        kept == s
    } else {
        exists|head: Seq<char>|
            #![trigger head.is_prefix_of(s)]
            head.is_prefix_of(s) && byte_size(head) <= limit && (head.len() < s.len() ==> byte_size(
                s.take(head.len() as int + 1),
            ) > limit) && kept == head + "... (truncated)"@
    }
}

/// A text is cut to what fits.
pub proof fn law_truncation_keeps_what_fits(s: &str, max: usize, r: String)
    requires
        call_ensures(safe_truncate, (s, max), r),
    ensures
        keeps(r@, s@, max as nat),
{
    lemma_cut(s@, max as int);
    assert(cut(s@, max as int).is_prefix_of(s@));
}

/// The section on a daemon is left out where there is nothing to tell. It tells
/// each result in order, with 4096 bytes of its output and 2048 of its errors,
/// and how many tasks are pending.
pub proof fn law_daemon_results_are_told(
    results: Vec<DaemonResult>,
    pending: u32,
    r: Option<(Vec<DaemonResult>, u32)>,
    i: int,
)
    requires
        call_ensures(daemon_section, (results, pending), r),
        0 <= i < results@.len(),
    ensures
        r is Some,
        ({
            let (told, open) = r->0;
            let a = results@[i];
            let b = told@[i];
            &&& open == pending
            &&& told@.len() == results@.len()
            &&& keeps(b.stdout@, a.stdout@, 4096)
            &&& keeps(b.stderr@, a.stderr@, 2048)
            &&& b.task_id == a.task_id
            &&& b.success == a.success
            &&& b.exit_code == a.exit_code
            &&& b.elapsed_secs == a.elapsed_secs
            &&& b.source_message_id == a.source_message_id
        }),
{
    let a = results@[i];
    lemma_cut(a.stdout@, 4096);
    lemma_cut(a.stderr@, 2048);
    assert(cut(a.stdout@, 4096).is_prefix_of(a.stdout@));
    assert(cut(a.stderr@, 2048).is_prefix_of(a.stderr@));
}

/// A text begins with another one.
proof fn lemma_begins(s: Seq<char>, p: Seq<char>)
    requires
        p.len() <= s.len(),
        forall|i: int| 0 <= i < p.len() ==> s[i] == #[trigger] p[i],
    ensures
        p.is_prefix_of(s),
{
    assert(s.take(p.len() as int) =~= p);
}

/// The texts that name a parameter.
#[verifier::rlimit(60)]
proof fn lemma_requirements()
    ensures
        requirement("name"@, "create"@).is_prefix_of("'name' is required for action 'create'"@),
        requirement("roles"@, "create"@).is_prefix_of("'roles' is required for action 'create'. Provide an array of {name, role, skills?, description?} objects."@),
        requirement("name"@, "destroy"@).is_prefix_of("'name' is required for action 'destroy'"@),
        requirement("name"@, "status"@).is_prefix_of("'name' is required for action 'status'"@),
        requirement("name"@, "message"@).is_prefix_of("'name' is required for action 'message' (team name)"@),
        requirement("to"@, "message"@).is_prefix_of("'to' is required for action 'message'. Provide a recipient agent name or \"*\" for broadcast."@),
        requirement("content"@, "message"@).is_prefix_of("'content' is required for action 'message'"@),
        requirement("agent"@, "message"@).is_prefix_of("'agent' is required for action 'message' (sender agent name)"@),
        requirement("name"@, "receive"@).is_prefix_of("'name' is required for action 'receive' (team name)"@),
        requirement("agent"@, "receive"@).is_prefix_of("'agent' is required for action 'receive' (agent name to receive messages for)"@),
{
    reveal_strlit("'");
    reveal_strlit("' is required for action '");
    reveal_strlit("agent");
    reveal_strlit("content");
    reveal_strlit("name");
    reveal_strlit("roles");
    reveal_strlit("to");
    reveal_strlit("create");
    reveal_strlit("destroy");
    reveal_strlit("message");
    reveal_strlit("receive");
    reveal_strlit("status");
    reveal_strlit("'name' is required for action 'create'");
    lemma_begins("'name' is required for action 'create'"@, requirement("name"@, "create"@));
    reveal_strlit("'roles' is required for action 'create'. Provide an array of {name, role, skills?, description?} objects.");
    lemma_begins("'roles' is required for action 'create'. Provide an array of {name, role, skills?, description?} objects."@, requirement("roles"@, "create"@));
    reveal_strlit("'name' is required for action 'destroy'");
    lemma_begins("'name' is required for action 'destroy'"@, requirement("name"@, "destroy"@));
    reveal_strlit("'name' is required for action 'status'");
    lemma_begins("'name' is required for action 'status'"@, requirement("name"@, "status"@));
    reveal_strlit("'name' is required for action 'message' (team name)");
    lemma_begins("'name' is required for action 'message' (team name)"@, requirement("name"@, "message"@));
    reveal_strlit("'to' is required for action 'message'. Provide a recipient agent name or \"*\" for broadcast.");
    lemma_begins("'to' is required for action 'message'. Provide a recipient agent name or \"*\" for broadcast."@, requirement("to"@, "message"@));
    reveal_strlit("'content' is required for action 'message'");
    lemma_begins("'content' is required for action 'message'"@, requirement("content"@, "message"@));
    reveal_strlit("'agent' is required for action 'message' (sender agent name)");
    lemma_begins("'agent' is required for action 'message' (sender agent name)"@, requirement("agent"@, "message"@));
    reveal_strlit("'name' is required for action 'receive' (team name)");
    lemma_begins("'name' is required for action 'receive' (team name)"@, requirement("name"@, "receive"@));
    reveal_strlit("'agent' is required for action 'receive' (agent name to receive messages for)");
    lemma_begins("'agent' is required for action 'receive' (agent name to receive messages for)"@, requirement("agent"@, "receive"@));
}

/// The first parameter that is missing is named, with the action that needs it.
pub proof fn law_missing_team_parameter_is_named(p: TeamParams, r: Result<TeamCall, ToolError>)
    requires
        call_ensures(parse_team_call, (p,), r),
        p.action@ != "list"@,
        r is Err,
    ensures
        ({
            let action = p.action@;
            let told = r->Err_0.message@;
            let known = action == "create"@ || action == "destroy"@ || action == "status"@ || action
                == "message"@ || action == "receive"@;
            &&& known && p.name is None ==> requirement("name"@, action).is_prefix_of(told)
            &&& action == "create"@ && p.name is Some && p.roles is None ==> requirement(
                "roles"@,
                action,
            ).is_prefix_of(told)
            &&& action == "message"@ && p.name is Some && p.to is None ==> requirement(
                "to"@,
                action,
            ).is_prefix_of(told)
            &&& action == "message"@ && p.name is Some && p.to is Some && p.content is None
                ==> requirement("content"@, action).is_prefix_of(told)
            &&& action == "message"@ && p.name is Some && p.to is Some && p.content is Some
                && p.agent is None ==> requirement("agent"@, action).is_prefix_of(told)
            &&& action == "receive"@ && p.name is Some && p.agent is None ==> requirement(
                "agent"@,
                action,
            ).is_prefix_of(told)
        }),
{
    lemma_actions();
    lemma_requirements();
}

} // verus!
