//! What the workspace tools do with a call, from its parameters to its answer.

use crate::mcp::access_laws::{has_room, only, owns, refused, uses_more};
use crate::mcp::auth::{AuthManager, SessionView};
use crate::mcp::error::{ErrorKind, ToolError};
use crate::mcp::rate_limit::{RateLimiter, Slot};
use crate::mcp::tools::{octal_digits, parse_octal_mode};
use crate::mcp::workspace_tools::{
    create_finish, create_start, destroy_finish, exec_background, exec_failure, file_mode,
    fork_finish, in_state, list_workspaces, listing, log_lines, parse_direction,
    parse_snapshot_call, plan_fork, port_forward, settle_worker, shown_logs, shown_output,
    size_named, snapshot_entries, CreateRequest, Direction, ExecBackgroundParams, ForkPlan, Forked,
    JobCall, Listed, PortCall, SnapshotCall, SnapshotEntry, SnapshotParams, SnapshotSummary,
    Worker, WorkspaceCreateParams, WorkspaceForkParams, WorkspaceSummary,
};
use crate::number::{all_digits, decimal, is_digit, value};
use crate::storage::zfs::{snapshots_view, SnapshotView, ZfsSnapshotInfo};
use crate::text::{byte_size, contains_text, cut, lemma_cut, texts};
use vstd::prelude::*;

verus! {

// ---------------------------------------------------------------------------
// Creating and destroying
// ---------------------------------------------------------------------------

/// A name of letters, digits, underscores, hyphens and dots.
pub open spec fn is_name(name: Seq<char>) -> bool {
    name.len() > 0 && forall|i: int|
        0 <= i < name.len() ==> {
            let c = #[trigger] name[i];
            'a' <= c <= 'z' || 'A' <= c <= 'Z' || '0' <= c <= '9' || c == '_' || c == '-' || c
                == '.'
        }
}

/// A name for a base image: not too long, and with no way up.
pub open spec fn is_image(name: Seq<char>) -> bool {
    is_name(name) && byte_size(name) <= 128 && !contains_text(name, ".."@)
}

/// The session is known and has room for a workspace.
pub open spec fn can_take(auth: &AuthManager, session: Seq<char>, memory_mb: u64, disk_gb: u64) -> bool {
    auth@.dom().contains(session) && has_room(auth@[session], memory_mb, disk_gb)
}

/// Creating a workspace draws on the limit for creations. It goes on exactly if
/// the session has room for its memory and disk, of which 512 MB and 10 GB are
/// the defaults, and the base image has a proper name.
pub proof fn law_creating_asks_for_room_and_image(
    p: WorkspaceCreateParams,
    auth: &AuthManager,
    session: &str,
    limiter: &mut RateLimiter,
    now: u64,
    r: Result<CreateRequest, ToolError>,
)
    requires
        call_ensures(create_start, (p, auth, session, limiter, now), r),
    ensures
        ({
            let memory: u32 = match p.memory_mb {
                Some(n) => n,
                None => 512,
            };
            let disk: u32 = match p.disk_gb {
                Some(n) => n,
                None => 10,
            };
            &&& only(*old(limiter), *final(limiter), Slot::Create)
            &&& r is Ok <==> !refused(*old(limiter), Slot::Create, now) && can_take(
                auth,
                session@,
                memory as u64,
                disk as u64,
            ) && (p.base_image is Some ==> is_image(p.base_image->0@))
            &&& r matches Ok(request) ==> {
                &&& request.memory_mb == memory
                &&& request.disk_gb == disk
                &&& request.name == p.name
                &&& request.base_image == p.base_image
                &&& request.vcpus == p.vcpus
                &&& request.allow_internet == p.allow_internet
            }
        }),
{
    if p.base_image is Some {
        lemma_name(p.base_image->0@);
    }
}

/// Names are spelled with the same characters.
pub proof fn lemma_name(name: Seq<char>)
    ensures
        is_name(name) <==> name.len() > 0 && crate::mcp::tools::is_plain(name),
{
    if crate::mcp::tools::is_plain(name) {
        assert forall|i: int| 0 <= i < name.len() implies {
            let c = #[trigger] name[i];
            'a' <= c <= 'z' || 'A' <= c <= 'Z' || '0' <= c <= '9' || c == '_' || c == '-' || c
                == '.'
        } by {
            assert(crate::mcp::tools::is_name_char(name[i]));
        }
    }
}

/// A session gained a workspace, and nothing else changed.
pub open spec fn took(
    before: Map<Seq<char>, SessionView>,
    after: Map<Seq<char>, SessionView>,
    session: Seq<char>,
    workspace: u128,
    memory_mb: u64,
    disk_gb: u64,
) -> bool {
    &&& after.dom() == before.dom()
    &&& after[session].workspaces == before[session].workspaces.insert(workspace)
    &&& after[session].quota == before[session].quota
    &&& uses_more(before[session].usage, after[session].usage, memory_mb, disk_gb)
    &&& forall|other: Seq<char>|
        other != session && before.dom().contains(other) ==> #[trigger] after[other]
            == before[other]
}

/// A workspace that was created or forked is registered exactly if the session
/// still has room; otherwise nothing changes.
pub proof fn law_created_workspace_is_registered(
    auth: &mut AuthManager,
    forking: &mut AuthManager,
    session: &str,
    workspace: u128,
    memory_mb: u32,
    disk_gb: u32,
    r: Result<(), ToolError>,
    forked: Result<(), ToolError>,
)
    requires
        call_ensures(create_finish, (auth, session, workspace, memory_mb, disk_gb), r),
        call_ensures(
            fork_finish,
            (forking, session, Forked { id: workspace, memory_mb, disk_gb }),
            forked,
        ),
    ensures
        r is Ok <==> can_take(old(auth), session@, memory_mb as u64, disk_gb as u64),
        r is Err ==> final(auth)@ == old(auth)@,
        r is Ok ==> took(
            old(auth)@,
            final(auth)@,
            session@,
            workspace,
            memory_mb as u64,
            disk_gb as u64,
        ),
        forked is Ok <==> can_take(old(forking), session@, memory_mb as u64, disk_gb as u64),
        forked is Err ==> final(forking)@ == old(forking)@,
        forked is Ok ==> took(
            old(forking)@,
            final(forking)@,
            session@,
            workspace,
            memory_mb as u64,
            disk_gb as u64,
        ),
{
    if r is Ok {
        assert(final(auth)@.dom() =~= old(auth)@.dom());
    }
    if forked is Ok {
        assert(final(forking)@.dom() =~= old(forking)@.dom());
    }
}

/// A worker that was forked is registered if the session has room, and reported
/// as refused otherwise; one that could not be forked is reported with the
/// reason, and changes nothing.
pub proof fn law_worker_is_settled(
    auth: &mut AuthManager,
    session: &str,
    outcome: Result<Forked, String>,
    r: Worker,
)
    requires
        call_ensures(settle_worker, (auth, session, outcome), r),
    ensures
        match outcome {
            Err(e) => r == (Worker::Failed { error: e }) && final(auth)@ == old(auth)@,
            Ok(w) => if can_take(old(auth), session@, w.memory_mb as u64, w.disk_gb as u64) {
                r == Worker::Created(w) && took(
                    old(auth)@,
                    final(auth)@,
                    session@,
                    w.id,
                    w.memory_mb as u64,
                    w.disk_gb as u64,
                )
            } else {
                r is Refused && r->id == w.id && final(auth)@ == old(auth)@
            },
        },
{
    if outcome is Ok {
        assert(r is Created ==> final(auth)@.dom() =~= old(auth)@.dom());
    }
}

/// Destroying takes the workspace from its owner and gives its resources back,
/// whatever became of it; the answer tells that.
pub proof fn law_destroyed_workspace_is_released(
    auth: &mut AuthManager,
    session: &str,
    shown: &str,
    workspace: u128,
    memory_mb: u32,
    disk_gb: u32,
    outcome: &Result<(), String>,
    r: Result<String, ToolError>,
)
    requires
        call_ensures(
            destroy_finish,
            (auth, session, shown, workspace, memory_mb, disk_gb, outcome),
            r,
        ),
    ensures
        r is Ok <==> outcome is Ok,
        !owns(final(auth), session@, workspace),
        owns(old(auth), session@, workspace) ==> {
            let before = old(auth)@[session@];
            let after = final(auth)@[session@];
            &&& after.workspaces == before.workspaces.remove(workspace)
            &&& before.usage.workspace_count >= 1 && before.usage.memory_mb >= memory_mb
                && before.usage.disk_gb >= disk_gb ==> uses_more(
                after.usage,
                before.usage,
                memory_mb as u64,
                disk_gb as u64,
            )
        },
        !owns(old(auth), session@, workspace) ==> final(auth)@ == old(auth)@,
        forall|other: Seq<char>|
            other != session@ && old(auth)@.dom().contains(other) ==> #[trigger] final(auth)@[other]
                == old(auth)@[other],
{
}

// ---------------------------------------------------------------------------
// Listing
// ---------------------------------------------------------------------------

/// A list names the workspaces in the state that is asked for, in order.
proof fn lemma_listing(
    all: Seq<WorkspaceSummary>,
    mine: Set<u128>,
    filter: Option<String>,
    n: int,
)
    requires
        0 <= n <= all.len(),
        all.len() <= usize::MAX,
    ensures
        forall|k: int|
            0 <= k < listing(all, mine, filter, n).len() ==> {
                let e = #[trigger] listing(all, mine, filter, n)[k];
                &&& e.index < n
                &&& in_state(all, filter, e.index as int)
                &&& e.owned == mine.contains(all[e.index as int].id)
            },
        forall|j: int, k: int|
            0 <= j < k < listing(all, mine, filter, n).len() ==> (#[trigger] listing(
                all,
                mine,
                filter,
                n,
            )[j]).index < (#[trigger] listing(all, mine, filter, n)[k]).index,
        forall|i: int|
            0 <= i < n && #[trigger] in_state(all, filter, i) ==> exists|k: int|
                0 <= k < listing(all, mine, filter, n).len() && (#[trigger] listing(
                    all,
                    mine,
                    filter,
                    n,
                )[k]).index == i,
    decreases n,
{
    if n > 0 {
        lemma_listing(all, mine, filter, n - 1);
        let before = listing(all, mine, filter, n - 1);
        let now = listing(all, mine, filter, n);
        assert forall|i: int| 0 <= i < n && #[trigger] in_state(all, filter, i) implies exists|
            k: int,
        |
            0 <= k < now.len() && (#[trigger] now[k]).index == i by {
            if i < n - 1 {
                let k = choose|k: int|
                    0 <= k < before.len() && (#[trigger] before[k]).index == i;
                assert(now[k].index == i);
            } else {
                assert(now[before.len() as int].index == i);
            }
        }
    }
}

/// A workspace is in the state that is asked for, if one is.
pub open spec fn is_asked_for(w: WorkspaceSummary, filter: Option<String>) -> bool {
    filter is None || w.state@ == filter->0@
}

/// A list draws on the default limit. It names each workspace in the state that
/// is asked for, or each one at all, once and in order, and tells which of them
/// the session owns.
#[verifier::rlimit(40)]
pub proof fn law_list_tells_which_are_owned(
    auth: &AuthManager,
    session: &str,
    all: &Vec<WorkspaceSummary>,
    filter: &Option<String>,
    limiter: &mut RateLimiter,
    now: u64,
    r: Result<Vec<Listed>, ToolError>,
)
    requires
        all@.len() <= usize::MAX,
        call_ensures(list_workspaces, (auth, session, all, filter, limiter, now), r),
    ensures
        only(*old(limiter), *final(limiter), Slot::Default),
        r is Ok <==> !refused(*old(limiter), Slot::Default, now) && auth@.dom().contains(session@),
        r matches Ok(list) ==> {
            &&& forall|k: int|
                0 <= k < list@.len() ==> {
                    let e = #[trigger] list@[k];
                    &&& e.index < all@.len()
                    &&& is_asked_for(all@[e.index as int], *filter)
                    &&& e.owned == owns(auth, session@, all@[e.index as int].id)
                }
            &&& forall|j: int, k: int|
                0 <= j < k < list@.len() ==> (#[trigger] list@[j]).index < (#[trigger] list@[k]).index
            &&& forall|i: int|
                0 <= i < all@.len() && #[trigger] is_asked_for(all@[i], *filter) ==> exists|k: int|
                    0 <= k < list@.len() && (#[trigger] list@[k]).index == i
        },
{
    if r is Ok {
        lemma_listing(all@, auth@[session@].workspaces, *filter, all@.len() as int);
        let list = r->Ok_0@;
        assert forall|i: int| 0 <= i < all@.len() && #[trigger] is_asked_for(
            all@[i],
            *filter,
        ) implies exists|k: int| 0 <= k < list.len() && (#[trigger] list[k]).index == i by {
            assert(in_state(all@, *filter, i));
        }
        assert forall|k: int| 0 <= k < list.len() implies {
            let e = #[trigger] list[k];
            &&& e.index < all@.len()
            &&& is_asked_for(all@[e.index as int], *filter)
            &&& e.owned == owns(auth, session@, all@[e.index as int].id)
        } by {
            assert(in_state(all@, *filter, list[k].index as int));
        }
    }
}

// ---------------------------------------------------------------------------
// Running commands
// ---------------------------------------------------------------------------

/// What is shown of an output: all of it where it fits, else a beginning of it
/// that fits, and a notice behind it.
pub open spec fn shows(shown: Seq<char>, output: Seq<char>, limit: nat) -> bool {
    if byte_size(output) <= limit {
        shown == output
    } else {
        exists|kept: Seq<char>|
            #![trigger kept.is_prefix_of(output)]
            kept.is_prefix_of(output) && byte_size(kept) <= limit && (kept.len() < output.len()
                ==> byte_size(output.take(kept.len() as int + 1)) > limit) && shown == kept
                + "\n[TRUNCATED: "@ + decimal(byte_size(output)) + " bytes total, showing first "@
                + decimal(byte_size(kept)) + " bytes]"@
    }
}

/// Both outputs of a command are shown up to the same limit, which is 256 KiB
/// where none is given.
pub proof fn law_output_is_shown_up_to_the_limit(
    stdout: String,
    stderr: String,
    max: Option<usize>,
    r: (String, String),
)
    requires
        call_ensures(shown_output, (stdout, stderr, max), r),
    ensures
        ({
            let limit: nat = match max {
                Some(n) => n as nat,
                None => 262_144,
            };
            shows(r.0@, stdout@, limit) && shows(r.1@, stderr@, limit)
        }),
{
    let limit: nat = match max {
        Some(n) => n as nat,
        None => 262_144,
    };
    lemma_cut(stdout@, limit as int);
    lemma_cut(stderr@, limit as int);
    assert(cut(stdout@, limit as int).is_prefix_of(stdout@));
    assert(cut(stderr@, limit as int).is_prefix_of(stderr@));
}

/// A background call starts a command, or polls or kills a job, by its action,
/// and needs what that action needs. A job is killed with signal 9 unless
/// another is given.
pub proof fn law_background_call_is_told_by_its_action(
    p: ExecBackgroundParams,
    limiter: &mut RateLimiter,
    now: u64,
    r: Result<JobCall, ToolError>,
)
    requires
        call_ensures(exec_background, (p, limiter, now), r),
        !refused(*old(limiter), Slot::Exec, now),
    ensures
        p.action@ == "start"@ ==> (r is Ok <==> p.command is Some) && (r is Ok ==> r->Ok_0
            == (JobCall::Start { command: p.command->0 })),
        p.action@ == "poll"@ ==> (r is Ok <==> p.job_id is Some) && (r is Ok ==> r->Ok_0
            == (JobCall::Poll { job: p.job_id->0 })),
        p.action@ == "kill"@ ==> (r is Ok <==> p.job_id is Some) && (r is Ok ==> r->Ok_0
            == (JobCall::Kill {
            job: p.job_id->0,
            signal: p.signal,
            shown_signal: if p.signal is Some {
                p.signal->0
            } else {
                9
            },
        })),
        r is Ok ==> p.action@ == "start"@ || p.action@ == "poll"@ || p.action@ == "kill"@,
{
    reveal_strlit("start");
    reveal_strlit("poll");
    reveal_strlit("kill");
    assert("start"@.len() == 5 && "poll"@.len() == 4 && "kill"@.len() == 4);
    assert("poll"@[0] == 'p' && "kill"@[0] == 'k');
}

/// A command that timed out is told apart from one that failed otherwise, and
/// the answer gives the time that it had, which is 120 seconds by default.
#[verifier::rlimit(40)]
pub proof fn law_timeout_is_told(shown: &str, timeout: Option<u64>, why: &str, e: ToolError)
    requires
        call_ensures(exec_failure, (shown, timeout, why), e),
    ensures
        e.kind == ErrorKind::InvalidRequest,
        contains_text(why@, "timed out"@) || contains_text(why@, "Timeout"@) ==> (
        "exec timed out after "@ + decimal(
            match timeout {
                Some(n) => n as nat,
                None => 120,
            },
        ) + "s. "@).is_prefix_of(e.message@),
        !(contains_text(why@, "timed out"@) || contains_text(why@, "Timeout"@)) ==> (
        "Command failed in workspace '"@ + shown@ + "': "@ + why@ + ". "@).is_prefix_of(
            e.message@,
        ),
{
    let t = decimal(
        match timeout {
            Some(n) => n as nat,
            None => 120,
        },
    );
    let a = "exec timed out after "@ + t + "s. "@;
    let b = "Command failed in workspace '"@ + shown@ + "': "@ + why@ + ". "@;
    reveal_strlit("s. ");
    reveal_strlit(". ");
    reveal_strlit("s. For long-running commands, use exec_background to start the command, then exec_background(action=\"poll\") to check progress. You can also increase timeout_secs (current: ");
    reveal_strlit(". Ensure the workspace is running (use workspace_start if stopped). The guest OS is Alpine Linux; install missing packages with: exec(command='apk add <package>').");
    if contains_text(why@, "timed out"@) || contains_text(why@, "Timeout"@) {
        assert(e.message@.take(a.len() as int) =~= a);
    } else {
        assert(e.message@.take(b.len() as int) =~= b);
    }
}

// ---------------------------------------------------------------------------
// Files
// ---------------------------------------------------------------------------

/// A number in octal digits.
pub open spec fn octal(n: nat) -> Seq<char>
    decreases n,
{
    if n < 8 {
        seq![(48 + n) as u8 as char]
    } else {
        octal(n / 8).push((48 + n % 8) as u8 as char)
    }
}

/// Octal digits have the number as their value.
proof fn lemma_octal(n: nat)
    ensures
        all_digits(octal(n), 8),
        value(octal(n), 8) == n,
    decreases n,
{
    if n < 8 {
        assert(octal(n).drop_last() =~= Seq::<char>::empty());
        assert(value(octal(n).drop_last(), 8) == 0);
    } else {
        lemma_octal(n / 8);
        assert(octal(n).drop_last() =~= octal(n / 8));
    }
}

/// A file mode is read as an octal number, with or without a leading zero or
/// `0o`.
pub proof fn law_mode_is_octal(
    n: u32,
    plain: &str,
    zero: &str,
    marked: &str,
    a: Result<u32, ToolError>,
    b: Result<u32, ToolError>,
    c: Result<u32, ToolError>,
)
    requires
        n > 0,
        plain@ == octal(n as nat),
        zero@ == seq!['0'] + octal(n as nat),
        marked@ == "0o"@ + octal(n as nat),
        call_ensures(parse_octal_mode, (plain,), a),
        call_ensures(parse_octal_mode, (zero,), b),
        call_ensures(parse_octal_mode, (marked,), c),
    ensures
        a == Ok::<u32, ToolError>(n),
        b == Ok::<u32, ToolError>(n),
        c == Ok::<u32, ToolError>(n),
{
    lemma_octal(n as nat);
    lemma_octal_first(n as nat);
    reveal_strlit("0o");
    let o = octal(n as nat);
    assert(is_digit(o[0], 8));
    if "0o"@.is_prefix_of(plain@) {
        assert(plain@.subrange(0, 2)[1] == plain@[1]);
        assert(is_digit(o[1], 8));
    }
    if "0o"@.is_prefix_of(zero@) {
        assert(zero@.subrange(0, 2)[1] == zero@[1]);
    }
    assert(marked@.subrange(0, 2) =~= "0o"@);
    assert(octal_digits(plain@) =~= o);
    assert(octal_digits(zero@) =~= o);
    assert(octal_digits(marked@) =~= o);
}

/// No number but zero begins with a zero.
proof fn lemma_octal_first(n: nat)
    requires
        n > 0,
    ensures
        octal(n).len() > 0,
        octal(n)[0] != '0',
    decreases n,
{
    if n >= 8 {
        lemma_octal_first(n / 8);
    }
}

/// A file gets the mode that is given, and none where none is.
pub proof fn law_mode_is_optional(
    mode: &Option<String>,
    r: Result<Option<u32>, ToolError>,
    text: &str,
    parsed: Result<u32, ToolError>,
)
    requires
        call_ensures(file_mode, (mode,), r),
        mode matches Some(s) ==> s@ == text@,
        call_ensures(parse_octal_mode, (text,), parsed),
    ensures
        mode is None ==> r == Ok::<Option<u32>, ToolError>(None),
        mode is Some ==> (r is Ok <==> parsed is Ok) && (r is Ok ==> r->Ok_0 == Some(
            parsed->Ok_0,
        )),
{
}

/// A transfer goes up or down by its direction, and no other way.
pub proof fn law_direction_is_up_or_down(direction: &str, r: Result<Direction, ToolError>)
    requires
        call_ensures(parse_direction, (direction,), r),
    ensures
        r == Ok::<Direction, ToolError>(Direction::Upload) <==> direction@ == "upload"@,
        r == Ok::<Direction, ToolError>(Direction::Download) <==> direction@ == "download"@,
        r is Err <==> direction@ != "upload"@ && direction@ != "download"@,
{
    reveal_strlit("upload");
    reveal_strlit("download");
    assert("upload"@.len() == 6 && "download"@.len() == 8);
}

// ---------------------------------------------------------------------------
// Snapshots and forks
// ---------------------------------------------------------------------------

/// A snapshot call creates, restores, lists or deletes by its action. All but
/// listing need a name.
pub proof fn law_snapshot_call_is_told_by_its_action(
    p: SnapshotParams,
    r: Result<SnapshotCall, ToolError>,
)
    requires
        call_ensures(parse_snapshot_call, (p,), r),
    ensures
        p.action@ == "create"@ ==> (r is Ok <==> p.name is Some) && (r is Ok ==> r->Ok_0
            == (SnapshotCall::Create {
            name: p.name->0,
            include_memory: p.include_memory == Some(true),
        })),
        p.action@ == "restore"@ ==> (r is Ok <==> p.name is Some) && (r is Ok ==> r->Ok_0
            == (SnapshotCall::Restore { name: p.name->0 })),
        p.action@ == "delete"@ ==> (r is Ok <==> p.name is Some) && (r is Ok ==> r->Ok_0
            == (SnapshotCall::Delete { name: p.name->0 })),
        p.action@ == "list"@ ==> r == Ok::<SnapshotCall, ToolError>(SnapshotCall::List),
        r is Ok ==> p.action@ == "create"@ || p.action@ == "restore"@ || p.action@ == "delete"@
            || p.action@ == "list"@,
{
    reveal_strlit("create");
    reveal_strlit("restore");
    reveal_strlit("delete");
    reveal_strlit("list");
    assert("create"@.len() == 6 && "restore"@.len() == 7 && "delete"@.len() == 6 && "list"@.len()
        == 4);
    assert("create"@[0] == 'c' && "delete"@[0] == 'd');
}

/// Each snapshot is listed with the size that the storage tells for its name,
/// if it tells one.
pub proof fn law_snapshot_is_listed_with_its_size(
    snapshots: Vec<SnapshotSummary>,
    sizes: &Vec<ZfsSnapshotInfo>,
    r: Vec<SnapshotEntry>,
    i: int,
)
    requires
        call_ensures(snapshot_entries, (snapshots, sizes), r),
        0 <= i < snapshots@.len(),
    ensures
        r@.len() == snapshots@.len(),
        r@[i].snapshot == snapshots@[i],
        r@[i].referenced is None <==> forall|k: int|
            0 <= k < sizes@.len() ==> (#[trigger] sizes@[k])@.snap_name != snapshots@[i].name@,
        r@[i].referenced matches Some(n) ==> exists|k: int|
            0 <= k < sizes@.len() && (#[trigger] sizes@[k])@.snap_name == snapshots@[i].name@
                && sizes@[k]@.referenced == n,
{
    let views = snapshots_view(sizes@);
    lemma_size_named(views, snapshots@[i].name@);
    assert(views.len() == sizes@.len());
    assert(forall|k: int| 0 <= k < sizes@.len() ==> views[k] == (#[trigger] sizes@[k])@);
    assert(r@[i].snapshot == snapshots@[i]);
    match size_named(views, snapshots@[i].name@) {
        Some(n) => {
            let k = choose|k: int|
                0 <= k < views.len() && (#[trigger] views[k]).snap_name == snapshots@[i].name@
                    && views[k].referenced == n;
            assert(sizes@[k]@ == views[k]);
        },
        None => {
            assert forall|k: int| 0 <= k < sizes@.len() implies (#[trigger] sizes@[k])@.snap_name
                != snapshots@[i].name@ by {
                assert(views[k] == sizes@[k]@);
            }
        },
    }
}

/// The size under a name is that of a snapshot of the name.
proof fn lemma_size_named(sizes: Seq<SnapshotView>, name: Seq<char>)
    ensures
        match size_named(sizes, name) {
            Some(n) => exists|k: int|
                0 <= k < sizes.len() && (#[trigger] sizes[k]).snap_name == name
                    && sizes[k].referenced == n,
            None => forall|k: int| 0 <= k < sizes.len() ==> (#[trigger] sizes[k]).snap_name != name,
        },
    decreases sizes.len(),
{
    if sizes.len() > 0 {
        let rest = sizes.skip(1);
        lemma_size_named(rest, name);
        if sizes[0].snap_name != name {
            match size_named(rest, name) {
                Some(n) => {
                    let k = choose|k: int|
                        0 <= k < rest.len() && (#[trigger] rest[k]).snap_name == name
                            && rest[k].referenced == n;
                    assert(sizes[k + 1] == rest[k]);
                },
                None => {
                    assert forall|k: int| 0 <= k < sizes.len() implies (
                    #[trigger] sizes[k]).snap_name != name by {
                        if k > 0 {
                            assert(rest[k - 1] == sizes[k]);
                        }
                    }
                },
            }
        }
    }
}

/// A fork makes one workspace, or a batch of up to 20 whose names count up from
/// one. A batch needs a proper prefix, a snapshot that is there, and room for
/// all its workers; a single fork needs room for one.
#[verifier::rlimit(40)]
pub proof fn law_fork_plans_as_many_as_asked_for(
    p: WorkspaceForkParams,
    snapshots: &Vec<String>,
    auth: &AuthManager,
    session: &str,
    memory_mb: u32,
    disk_gb: u32,
    r: Result<ForkPlan, ToolError>,
)
    requires
        call_ensures(plan_fork, (p, snapshots, auth, session, memory_mb, disk_gb), r),
    ensures
        ({
            let count: u32 = match p.count {
                Some(n) => n,
                None => 1,
            };
            let prefix = match p.name_prefix {
                Some(s) => s@,
                None => "worker"@,
            };
            &&& count <= 1 ==> {
                &&& r is Ok <==> can_take(auth, session@, memory_mb as u64, disk_gb as u64)
                &&& r is Ok ==> r->Ok_0 == (ForkPlan::Single { new_name: p.new_name })
            }
            &&& count > 1 ==> {
                &&& r is Ok <==> count <= 20 && is_name(prefix) && texts(snapshots@).contains(
                    p.snapshot_name@,
                ) && can_take(
                    auth,
                    session@,
                    (memory_mb * count) as u64,
                    (disk_gb * count) as u64,
                )
                &&& r matches Ok(plan) ==> {
                    &&& plan is Batch
                    &&& plan->names@.len() == count
                    &&& forall|i: int|
                        0 <= i < count ==> (#[trigger] plan->names@[i])@ == prefix + "-"@ + decimal(
                            (i + 1) as nat,
                        )
                    &&& p.setup_commands matches Some(v) ==> texts(plan->setup_commands@) == texts(
                        v@,
                    )
                    &&& p.setup_commands is None ==> plan->setup_commands@.len() == 0
                }
            }
        }),
{
    let prefix = match p.name_prefix {
        Some(s) => s@,
        None => "worker"@,
    };
    lemma_name(prefix);
    match r {
        Ok(ForkPlan::Batch { names, setup_commands }) => {
            assert(texts(names@).len() == names@.len());
            assert(texts(setup_commands@).len() == setup_commands@.len());
            assert forall|i: int| 0 <= i < names@.len() implies (#[trigger] names@[i])@ == prefix
                + "-"@ + decimal((i + 1) as nat) by {
                assert(texts(names@)[i] == names@[i]@);
            }
        },
        _ => {},
    }
}

// ---------------------------------------------------------------------------
// Ports and logs
// ---------------------------------------------------------------------------

/// A port forward is added or removed by its action; a privileged port of the
/// host is never forwarded.
pub proof fn law_privileged_ports_are_not_forwarded(
    action: &str,
    host_port: Option<u16>,
    r: Result<PortCall, ToolError>,
)
    requires
        call_ensures(port_forward, (action, host_port), r),
    ensures
        r == Ok::<PortCall, ToolError>(PortCall::Add) <==> action@ == "add"@ && (host_port is None
            || host_port->0 >= 1024),
        r == Ok::<PortCall, ToolError>(PortCall::Remove) <==> action@ == "remove"@,
        r matches Err(e) ==> e.kind == ErrorKind::InvalidParams,
{
    reveal_strlit("add");
    reveal_strlit("remove");
    assert("add"@.len() == 3 && "remove"@.len() == 6);
}

/// Logs show the console, the standard error or both, 100 lines of them unless
/// told otherwise.
pub proof fn law_logs_show_what_is_asked_for(
    kind: &Option<String>,
    shown: (bool, bool),
    max: Option<usize>,
    n: usize,
)
    requires
        call_ensures(shown_logs, (kind,), shown),
        call_ensures(log_lines, (max,), n),
    ensures
        kind matches Some(s) ==> (s@ == "console"@ ==> shown == (true, false)) && (s@ == "stderr"@
            ==> shown == (false, true)) && (s@ == "all"@ ==> shown == (true, true)),
        kind is None ==> shown == (true, true),
        max matches Some(m) ==> n == m,
        max is None ==> n == 100,
{
    reveal_strlit("console");
    reveal_strlit("stderr");
    reveal_strlit("all");
    assert("console"@.len() == 7 && "stderr"@.len() == 6 && "all"@.len() == 3);
}

} // verus!
