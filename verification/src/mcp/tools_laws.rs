//! What checking names, paths and identifiers promises.

use crate::mcp::error::{ErrorKind, ToolError};
use crate::mcp::team_tools::{team_failure, TeamCall};
use crate::mcp::tools::{
    choose_workspace, odd_chars, odd_chars_of, resolve_workspace_id, shell_escape, shell_word,
    short_id, truncate_output, uuid_form, uuid_value, validate_base_image,
    validate_host_path_in_dir, validate_snapshot_name, HostTarget,
};
use crate::mcp::workspace_laws::{is_image, is_name, lemma_name, shows};
use crate::mcp::workspace_tools::{
    check_snapshot_call, delete_done, file_text, numbers_form, policy_failure, port_remove_done, restore_done,
    transfer_done, Direction, Done, Failure, SnapshotCall,
};
use crate::number::decimal;
use crate::text::{contains_text, cut, join, lemma_cut, texts};
use crate::text_laws::law_containing_is_standing_somewhere;
use vstd::prelude::*;
use vstd::utf8::{encode_utf8, valid_utf8};

verus! {

/// A quoted text is read by the shell as that text.
pub proof fn law_quoted_text_is_read_back(s: &str, r: String)
    requires
        call_ensures(shell_escape, (s,), r),
    ensures
        shell_word(r@, false) == Some(s@),
{
    crate::mcp::tools::law_shell_escape_is_one_word(s@);
}

/// A name for an image is accepted exactly if it is proper, and so is a name
/// for a snapshot.
pub proof fn law_names_are_checked(
    image: &str,
    checked: Result<(), ToolError>,
    snapshot: &str,
    named: Result<(), ToolError>,
)
    requires
        call_ensures(validate_base_image, (image,), checked),
        call_ensures(validate_snapshot_name, (snapshot,), named),
    ensures
        checked is Ok <==> is_image(image@),
        checked matches Err(e) ==> e.kind == ErrorKind::InvalidParams,
        named is Ok <==> is_name(snapshot@),
        named matches Err(e) ==> e.kind == ErrorKind::InvalidParams,
{
    lemma_name(image@);
    lemma_name(snapshot@);
}

/// The odd characters of a name are those that no name may hold, in order.
pub proof fn law_odd_characters_are_listed(s: &str, r: Vec<char>)
    requires
        call_ensures(odd_chars_of, (s,), r),
    ensures
        r@ == s@.filter(|c: char| !is_name(seq![c])),
        r@.len() == 0 && s@.len() > 0 <==> is_name(s@),
{
    lemma_odd_chars(s@);
    lemma_name(s@);
}

/// Odd characters are those that make no name.
proof fn lemma_odd_chars(s: Seq<char>)
    ensures
        odd_chars(s) == s.filter(|c: char| !is_name(seq![c])),
    decreases s.len(),
{
    reveal(Seq::filter);
    if s.len() > 0 {
        lemma_odd_chars(s.drop_last());
        let c = s.last();
        lemma_name(seq![c]);
        assert(crate::mcp::tools::is_plain(seq![c]) <==> crate::mcp::tools::is_name_char(c)) by {
            assert(seq![c][0] == c);
        }
    }
}

/// A snapshot call with a name is accepted exactly if the name is proper;
/// listing has none to check.
pub proof fn law_snapshot_call_needs_a_proper_name(call: &SnapshotCall, r: Result<(), ToolError>)
    requires
        call_ensures(check_snapshot_call, (call,), r),
    ensures
        r is Ok <==> match *call {
            SnapshotCall::Create { name, .. } => is_name(name@),
            SnapshotCall::Restore { name } => is_name(name@),
            SnapshotCall::Delete { name } => is_name(name@),
            SnapshotCall::List => true,
        },
{
    match *call {
        SnapshotCall::Create { name, .. } => lemma_name(name@),
        SnapshotCall::Restore { name } => lemma_name(name@),
        SnapshotCall::Delete { name } => lemma_name(name@),
        SnapshotCall::List => {},
    }
}

/// An identifier goes before a name, and the short form of an identifier is its
/// first eight digits.
pub proof fn law_identifier_goes_before_a_name(
    text: &str,
    parsed: Option<u128>,
    named: Option<u128>,
    chosen: Result<u128, ToolError>,
    resolved: Result<u128, ToolError>,
    id: u128,
    short: String,
)
    requires
        call_ensures(choose_workspace, (text, parsed, named), chosen),
        call_ensures(resolve_workspace_id, (text, named), resolved),
        call_ensures(short_id, (id,), short),
    ensures
        parsed is Some ==> chosen == Ok::<u128, ToolError>(parsed->0),
        parsed is None && named is Some ==> chosen == Ok::<u128, ToolError>(named->0),
        parsed is None && named is None ==> chosen is Err && contains_text(
            chosen->Err_0.message@,
            text@,
        ),
        resolved is Ok <==> uuid_value(text@) is Some || named is Some,
        uuid_value(text@) is Some ==> resolved == Ok::<u128, ToolError>(uuid_value(text@)->0),
        short@ == uuid_form(id).take(8),
{
    law_containing_is_standing_somewhere(
        "workspace '"@,
        text@,
        "' not found: not a valid UUID and no workspace with that name exists. Use workspace_list to see available workspaces and their IDs/names."@,
    );
}

/// An output is shown up to its limit.
pub proof fn law_truncated_output_shows_what_fits(s: String, limit: usize, r: String)
    requires
        call_ensures(truncate_output, (s, limit), r),
    ensures
        shows(r@, s@, limit as nat),
{
    lemma_cut(s@, limit as int);
    assert(cut(s@, limit as int).is_prefix_of(s@));
}

/// A file of the host is reached exactly if it can be found within the transfer
/// directory, and then it is the one that was found.
pub proof fn law_transfers_stay_within_their_directory(
    root: Result<Vec<String>, String>,
    target: HostTarget,
    shown: &str,
    must_exist: bool,
    r: Result<Vec<String>, ToolError>,
)
    requires
        call_ensures(validate_host_path_in_dir, (root, target, shown, must_exist), r),
    ensures
        r is Ok <==> root is Ok && target is At && texts(root->Ok_0@).is_prefix_of(
            texts(target->At_0@),
        ),
        r matches Ok(path) ==> texts(path@) == texts(target->At_0@),
        r matches Err(e) ==> (e.kind == ErrorKind::Internal <==> root is Err),
{
}

/// Bytes are shown as text exactly if they are one, and then as that text.
pub proof fn law_file_is_shown_as_text(data: Vec<u8>, r: Result<String, ToolError>)
    requires
        call_ensures(file_text, (data,), r),
    ensures
        r is Ok <==> valid_utf8(data@),
        r matches Ok(s) ==> encode_utf8(s@) == data@,
        r matches Err(e) ==> e.kind == ErrorKind::InvalidRequest,
{
}

/// A text stands behind another one and before a third.
proof fn lemma_tells(s: Seq<char>, a: Seq<char>, p: Seq<char>, b: Seq<char>)
    requires
        s == a + p + b,
    ensures
        contains_text(s, p),
{
    law_containing_is_standing_somewhere(a, p, b);
}

/// A transfer is told with its direction and its size.
pub proof fn law_transfer_is_told(
    direction: Direction,
    host: &str,
    guest: &str,
    bytes: usize,
    r: String,
)
    requires
        call_ensures(transfer_done, (direction, host, guest, bytes), r),
    ensures
        contains_text(r@, decimal(bytes as nat)),
        contains_text(
            r@,
            match direction {
                Direction::Upload => host@ + " -> "@ + guest@,
                Direction::Download => guest@ + " -> "@ + host@,
            },
        ),
{
    let n = decimal(bytes as nat);
    let (word, way) = match direction {
        Direction::Upload => ("Uploaded "@, host@ + " -> "@ + guest@),
        Direction::Download => ("Downloaded "@, guest@ + " -> "@ + host@),
    };
    assert(r@ =~= word + way + (" ("@ + n + " bytes)"@));
    lemma_tells(r@, word, way, " ("@ + n + " bytes)"@);
    assert(r@ =~= (word + way + " ("@) + n + " bytes)"@);
    lemma_tells(r@, word + way + " ("@, n, " bytes)"@);
}

/// A restored snapshot is told with its workspace, and with how many newer ones
/// went, if any did.
pub proof fn law_restoring_is_told(id: &str, name: &str, before: usize, after: usize, r: String)
    requires
        call_ensures(restore_done, (id, name, before, after), r),
    ensures
        contains_text(r@, name@),
        contains_text(r@, id@),
        before > after ==> contains_text(r@, decimal((before - after) as nat)),
{
    let a = "Workspace "@;
    let b = " restored to snapshot '"@;
    if before > after {
        let n = decimal((before - after) as nat);
        let c = "'. "@;
        let d = " newer snapshot(s) were removed."@;
        lemma_tells(r@, a + id@ + b + name@ + c, n, d);
        lemma_parts(r@, a, id@, b, name@, c + n + d);
    } else {
        lemma_parts(r@, a, id@, b, name@, "'."@);
    }
}

/// Two texts stand in a text.
proof fn lemma_parts(
    s: Seq<char>,
    a: Seq<char>,
    p: Seq<char>,
    b: Seq<char>,
    q: Seq<char>,
    c: Seq<char>,
)
    requires
        s =~= a + p + b + q + c,
    ensures
        contains_text(s, p),
        contains_text(s, q),
{
    lemma_tells(s, a + p + b, q, c);
    assert(s =~= a + p + (b + q + c));
    lemma_tells(s, a, p, b + q + c);
}

/// A snapshot that was deleted and a port forward that was removed are told
/// with their workspace.
pub proof fn law_removals_are_told(
    id: &str,
    name: &str,
    deleted: String,
    port: u16,
    removed: String,
)
    requires
        call_ensures(delete_done, (id, name), deleted),
        call_ensures(port_remove_done, (id, port), removed),
    ensures
        contains_text(deleted@, name@),
        contains_text(deleted@, id@),
        contains_text(removed@, decimal(port as nat)),
        contains_text(removed@, id@),
{
    lemma_parts(
        deleted@,
        "Snapshot '"@,
        name@,
        "' deleted from workspace "@,
        id@,
        "."@,
    );
    lemma_parts(
        removed@,
        "Port forward for guest port "@,
        decimal(port as nat),
        " removed from workspace "@,
        id@,
        "."@,
    );
}

/// The server is to blame where it could not make, destroy, write, snapshot,
/// fork or forward; in all other cases the request is.
pub open spec fn is_server_side(f: Failure) -> bool {
    f is Create || f is Destroy || f is HostWrite || f is SnapshotCreate || f is Fork || f
        is PortAdd
}

/// A failure is told with its reason, and blames the server or the request.
#[verifier::rlimit(40)]
pub proof fn law_failure_tells_why(f: &Failure, why: &str, e: ToolError)
    requires
        call_ensures(Failure::error, (f, why), e),
    ensures
        e.kind == if is_server_side(*f) {
            ErrorKind::Internal
        } else {
            ErrorKind::InvalidRequest
        },
        contains_text(e.message@, why@),
{
    let s = e.message@;
    match *f {
        Failure::Create => lemma_tells(
            s,
            "Failed to create workspace: "@,
            why@,
            ". Check that the agentiso service has sufficient resources (ZFS pool space, available IPs). Use workspace_list to see existing workspaces."@,
        ),
        Failure::Destroy { id } => lemma_tells(
            s,
            "Failed to destroy workspace '"@ + id@ + "': "@,
            why@,
            ". The workspace may be in an inconsistent state. Try workspace_stop first, then workspace_destroy again."@,
        ),
        Failure::FindForInfo { id } => lemma_tells(
            s,
            "Workspace '"@ + id@ + "' not found: "@,
            why@,
            ". Use workspace_list to see available workspaces, or workspace_create to make a new one."@,
        ),
        Failure::FindForDestroy { id } => lemma_tells(
            s,
            "Workspace '"@ + id@ + "' not found: "@,
            why@,
            ". Use workspace_list to see available workspaces."@,
        ),
        Failure::FindForAdopt { id } => lemma_tells(
            s,
            "Workspace '"@ + id@ + "' not found: "@,
            why@,
            ". Use workspace_list to see all workspaces, including orphaned ones."@,
        ),
        Failure::FindForFork { id } => lemma_tells(
            s,
            "Source workspace '"@ + id@ + "' not found: "@,
            why@,
            ". Use workspace_list to see available workspaces."@,
        ),
        Failure::Stop { id } => lemma_tells(
            s,
            "Failed to stop workspace '"@ + id@ + "': "@,
            why@,
            ". The workspace may already be stopped (use workspace_info to check state) or may not respond to graceful shutdown."@,
        ),
        Failure::Start { id } => lemma_tells(
            s,
            "Failed to start workspace '"@ + id@ + "': "@,
            why@,
            ". The workspace may already be running (use workspace_info to check state). If the VM failed to boot, use workspace_logs to see console output."@,
        ),
        Failure::FileWrite { id, path } => lemma_tells(
            s,
            "Failed to write file '"@ + path@ + "' in workspace '"@ + id@ + "': "@,
            why@,
            ". Ensure the path is absolute (e.g. /workspace/file.txt), the workspace is running, and the parent directory exists."@,
        ),
        Failure::FileRead { id, path } => lemma_tells(
            s,
            "Failed to read file '"@ + path@ + "' in workspace '"@ + id@ + "': "@,
            why@,
            ". Ensure the path is absolute (e.g. /workspace/file.txt) and the file exists. Use file_list to browse directory contents."@,
        ),
        Failure::FileList { id, path } => lemma_tells(
            s,
            "Failed to list directory '"@ + path@ + "' in workspace '"@ + id@ + "': "@,
            why@,
            ". Ensure the path is absolute (e.g. /workspace) and the directory exists."@,
        ),
        Failure::FileEdit { id, path } => lemma_tells(
            s,
            "Failed to edit file '"@ + path@ + "' in workspace '"@ + id@ + "': "@,
            why@,
            ". Ensure the file exists and that old_string appears in it exactly. Use file_read to verify file contents first."@,
        ),
        Failure::HostRead { path } => lemma_tells(
            s,
            "Failed to read host file '"@ + path@ + "': "@,
            why@,
            ". Ensure the file exists and is readable within the configured transfer directory."@,
        ),
        Failure::HostWrite { path } => lemma_tells(
            s,
            "Failed to write host file '"@ + path@ + "': "@,
            why@,
            ". Ensure the transfer directory is writable and has sufficient disk space."@,
        ),
        Failure::SnapshotCreate { id, name } => lemma_tells(
            s,
            "Failed to create snapshot '"@ + name@ + "' on workspace '"@ + id@ + "': "@,
            why@,
            ". This may indicate the storage pool is full or the workspace is in a bad state. Use snapshot(action=\"list\") to check workspace status and disk usage."@,
        ),
        Failure::SnapshotRestore { id, name } => lemma_tells(
            s,
            "Failed to restore snapshot '"@ + name@ + "' on workspace '"@ + id@ + "': "@,
            why@,
            ". Use snapshot(action=\"list\") to verify the snapshot exists. Note: restore is destructive and removes all snapshots newer than the target."@,
        ),
        Failure::SnapshotDelete { id, name } => lemma_tells(
            s,
            "Failed to delete snapshot '"@ + name@ + "' from workspace '"@ + id@ + "': "@,
            why@,
            ". Use snapshot(action=\"list\") to verify the snapshot exists."@,
        ),
        Failure::Fork { id, snapshot } => lemma_tells(
            s,
            "Failed to fork workspace '"@ + id@ + "' from snapshot '"@ + snapshot@ + "': "@,
            why@,
            ". Use snapshot(action=\"list\") to verify the snapshot exists and check that the storage pool has sufficient space."@,
        ),
        Failure::PortAdd { id, port } => lemma_tells(
            s,
            "Failed to forward port "@ + decimal(port as nat) + " in workspace '"@ + id@ + "': "@,
            why@,
            ". The host port may already be in use. Omit host_port to auto-assign, or choose a different port >= 1024."@,
        ),
        Failure::PortRemove { id, port } => lemma_tells(
            s,
            "Failed to remove port forward for guest port "@ + decimal(port as nat)
                + " in workspace '"@ + id@ + "': "@,
            why@,
            ". Use workspace_info to see active port forwarding rules."@,
        ),
        Failure::JobStart { id } => lemma_tells(
            s,
            "Failed to start background command in workspace '"@ + id@ + "': "@,
            why@,
            ". Ensure the workspace is running (use workspace_start if stopped)."@,
        ),
        Failure::JobPoll { id, job } => lemma_tells(
            s,
            "Failed to poll job "@ + decimal(job as nat) + " in workspace '"@ + id@ + "': "@,
            why@,
            ". The job_id may be invalid or the workspace may have been restarted since the job was started."@,
        ),
        Failure::JobKill { id, job } => lemma_tells(
            s,
            "Failed to kill job "@ + decimal(job as nat) + " in workspace '"@ + id@ + "': "@,
            why@,
            ". The job may have already exited. Use exec_background(action=\"poll\") to check job status."@,
        ),
        Failure::Logs { id } => lemma_tells(
            s,
            "Failed to retrieve logs for workspace '"@ + id@ + "': "@,
            why@,
            ". The workspace may not have been started yet, or log files may not be available."@,
        ),
    }
}

/// A call that succeeded names what it was about.
#[verifier::rlimit(40)]
pub proof fn law_success_names_its_object(d: &Done, r: String)
    requires
        call_ensures(Done::text, (d,), r),
    ensures
        match *d {
            Done::Stopped { id } => contains_text(r@, id@) && contains_text(r@, "stopped"@),
            Done::Started { id } => contains_text(r@, id@) && contains_text(r@, "started"@),
            Done::FileWritten { path } => path@.is_suffix_of(r@) && contains_text(r@, "written"@),
            Done::FileEdited { path } => path@.is_suffix_of(r@) && contains_text(r@, "edited"@),
        },
{
    reveal_strlit(" ");
    reveal_strlit(".");
    reveal_strlit("stopped");
    reveal_strlit("started");
    reveal_strlit("written");
    reveal_strlit("edited");
    reveal_strlit(" stopped.");
    reveal_strlit(" started.");
    reveal_strlit("File written: ");
    reveal_strlit("File edited: ");
    match *d {
        Done::Stopped { id } => {
            lemma_tells(r@, "Workspace "@, id@, " stopped."@);
            assert(r@ =~= ("Workspace "@ + id@ + " "@) + "stopped"@ + "."@);
            lemma_tells(r@, "Workspace "@ + id@ + " "@, "stopped"@, "."@);
        },
        Done::Started { id } => {
            lemma_tells(r@, "Workspace "@, id@, " started."@);
            assert(r@ =~= ("Workspace "@ + id@ + " "@) + "started"@ + "."@);
            lemma_tells(r@, "Workspace "@ + id@ + " "@, "started"@, "."@);
        },
        Done::FileWritten { path } => {
            assert(r@.subrange(r@.len() - path@.len(), r@.len() as int) =~= path@);
            assert(r@.subrange(5, 12) =~= "written"@);
            assert(crate::text::occurs_at(r@, "written"@, 5));
        },
        Done::FileEdited { path } => {
            assert(r@.subrange(r@.len() - path@.len(), r@.len() as int) =~= path@);
            assert(r@.subrange(5, 11) =~= "edited"@);
            assert(crate::text::occurs_at(r@, "edited"@, 5));
        },
    }
}

/// A policy that could not be changed is told with the reason first.
pub proof fn law_policy_failure_tells_why(
    internet: Option<bool>,
    inter_vm: Option<bool>,
    ports: &Option<Vec<u16>>,
    why: &str,
    e: ToolError,
)
    requires
        call_ensures(policy_failure, (internet, inter_vm, ports, why), e),
    ensures
        e.kind == ErrorKind::InvalidRequest,
        why@.is_prefix_of(e.message@),
{
    assert(e.message@.take(why@.len() as int) =~= why@);
}

/// What went wrong with a team is told; sending and receiving blame the
/// request, all else the server.
pub proof fn law_team_failure_tells_why(call: &TeamCall, detail: &str, e: ToolError)
    requires
        call_ensures(team_failure, (call, detail), e),
    ensures
        detail@.is_suffix_of(e.message@),
        e.kind == if call is Message || call is Receive {
            ErrorKind::InvalidRequest
        } else {
            ErrorKind::Internal
        },
        call matches TeamCall::Create { name, .. } ==> contains_text(e.message@, name@),
        call matches TeamCall::Destroy { name } ==> contains_text(e.message@, name@),
        call matches TeamCall::Status { name } ==> contains_text(e.message@, name@),
{
    let s = e.message@;
    assert(s.subrange(s.len() - detail@.len(), s.len() as int) =~= detail@);
    match *call {
        TeamCall::Create { name, .. } => {
            assert(s =~= "failed to create team '"@ + name@ + ("': "@ + detail@));
            lemma_tells(s, "failed to create team '"@, name@, "': "@ + detail@);
        },
        TeamCall::Destroy { name } => {
            assert(s =~= "failed to destroy team '"@ + name@ + ("': "@ + detail@));
            lemma_tells(s, "failed to destroy team '"@, name@, "': "@ + detail@);
        },
        TeamCall::Status { name } => {
            assert(s =~= "failed to get status for team '"@ + name@ + ("': "@ + detail@));
            lemma_tells(s, "failed to get status for team '"@, name@, "': "@ + detail@);
        },
        _ => {},
    }
}

/// A flag as it is shown.
pub open spec fn shown_flag(flag: Option<bool>) -> Seq<char> {
    if flag == Some(true) {
        "Some(true)"@
    } else if flag == Some(false) {
        "Some(false)"@
    } else {
        "None"@
    }
}

/// Numbers as they are shown: in decimal, with a comma and a blank between
/// neighbours.
proof fn lemma_shown_numbers(v: Seq<u16>)
    ensures
        numbers_form(v) == join(Seq::new(v.len(), |i: int| decimal(v[i] as nat)), ", "@),
    decreases v.len(),
{
    let all = Seq::new(v.len(), |i: int| decimal(v[i] as nat));
    if v.len() > 1 {
        let init = v.drop_last();
        lemma_shown_numbers(init);
        assert(all.drop_last() =~= Seq::new(init.len(), |i: int| decimal(init[i] as nat)));
    }
}

/// A policy that could not be changed is told with all changes that were asked
/// for.
pub proof fn law_policy_failure_tells_the_changes(
    internet: Option<bool>,
    inter_vm: Option<bool>,
    ports: &Option<Vec<u16>>,
    why: &str,
    e: ToolError,
)
    requires
        call_ensures(policy_failure, (internet, inter_vm, ports, why), e),
    ensures
        e.message@ == why@ + ". Requested changes: allow_internet="@ + shown_flag(internet)
            + ", allow_inter_vm="@ + shown_flag(inter_vm) + ", allowed_ports="@ + match *ports {
            Some(v) => "Some(["@ + join(
                Seq::new(v@.len(), |i: int| decimal(v@[i] as nat)),
                ", "@,
            ) + "])"@,
            None => "None"@,
        },
{
    match *ports {
        Some(v) => lemma_shown_numbers(v@),
        None => {},
    }
}

} // verus!
