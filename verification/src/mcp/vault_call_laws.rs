//! What the vault tool does with a call.

use crate::mcp::access_laws::{only, refused};
use crate::mcp::error::{ErrorKind, ToolError};
use crate::mcp::rate_limit::{RateLimiter, Slot};
use crate::mcp::vault::WriteMode;
use crate::mcp::vault_tools::{
    parse_vault_call, vault, vault_done, vault_failure, VaultCall, VaultParams,
};
use crate::mcp::yaml::Yaml;
use crate::text::contains_text;
use crate::text_laws::law_containing_is_standing_somewhere;
use vstd::prelude::*;

verus! {

/// A text is one of the ways to write.
pub open spec fn is_mode(name: Seq<char>) -> bool {
    name == "overwrite"@ || name == "append"@ || name == "prepend"@
}

/// A call gives all that its action needs. Deleting needs a confirmation.
pub open spec fn is_complete(p: VaultParams) -> bool {
    let action = p.action@;
    ||| action == "read"@ && p.path is Some
    ||| action == "write"@ && p.path is Some && p.content is Some && (p.mode is Some ==> is_mode(
        p.mode->0@,
    ))
    ||| action == "search"@ && p.query is Some
    ||| action == "list"@
    ||| action == "delete"@ && p.path is Some && p.confirm == Some(true)
    ||| action == "frontmatter"@ && p.path is Some && p.frontmatter_action is Some && {
        let sub_action = p.frontmatter_action->0@;
        ||| sub_action == "get"@
        ||| sub_action == "set"@ && p.key is Some && p.value is Some && p.value->0 is Ok
        ||| sub_action == "delete"@ && p.key is Some
    }
    ||| action == "tags"@ && p.path is Some && p.tags_action is Some && {
        let sub_action = p.tags_action->0@;
        ||| sub_action == "list"@
        ||| sub_action == "add"@ && p.tag is Some
        ||| sub_action == "remove"@ && p.tag is Some
    }
    ||| action == "replace"@ && p.path is Some && p.old_string is Some && p.new_string is Some
    ||| action == "move"@ && p.path is Some && p.new_path is Some
    ||| action == "batch_read"@ && p.paths is Some
    ||| action == "stats"@
}

/// The words of the actions differ.
#[verifier::rlimit(40)]
proof fn lemma_actions()
    ensures
        "read"@ != "write"@ && "read"@ != "search"@ && "read"@ != "list"@ && "read"@ != "delete"@,
        "read"@ != "frontmatter"@ && "read"@ != "tags"@ && "read"@ != "replace"@,
        "read"@ != "move"@ && "read"@ != "batch_read"@ && "read"@ != "stats"@,
        "write"@ != "search"@ && "write"@ != "list"@ && "write"@ != "delete"@,
        "write"@ != "frontmatter"@ && "write"@ != "tags"@ && "write"@ != "replace"@,
        "write"@ != "move"@ && "write"@ != "batch_read"@ && "write"@ != "stats"@,
        "search"@ != "list"@ && "search"@ != "delete"@ && "search"@ != "frontmatter"@,
        "search"@ != "tags"@ && "search"@ != "replace"@ && "search"@ != "move"@,
        "search"@ != "batch_read"@ && "search"@ != "stats"@,
        "list"@ != "delete"@ && "list"@ != "frontmatter"@ && "list"@ != "tags"@,
        "list"@ != "replace"@ && "list"@ != "move"@ && "list"@ != "batch_read"@,
        "list"@ != "stats"@ && "delete"@ != "frontmatter"@ && "delete"@ != "tags"@,
        "delete"@ != "replace"@ && "delete"@ != "move"@ && "delete"@ != "batch_read"@,
        "delete"@ != "stats"@ && "frontmatter"@ != "tags"@ && "frontmatter"@ != "replace"@,
        "frontmatter"@ != "move"@ && "frontmatter"@ != "batch_read"@ && "frontmatter"@ != "stats"@,
        "tags"@ != "replace"@ && "tags"@ != "move"@ && "tags"@ != "batch_read"@,
        "tags"@ != "stats"@ && "replace"@ != "move"@ && "replace"@ != "batch_read"@,
        "replace"@ != "stats"@ && "move"@ != "batch_read"@ && "move"@ != "stats"@,
        "batch_read"@ != "stats"@,
        "get"@ != "set"@ && "get"@ != "delete"@ && "set"@ != "delete"@,
        "list"@ != "add"@ && "list"@ != "remove"@ && "add"@ != "remove"@,
        "overwrite"@ != "append"@ && "overwrite"@ != "prepend"@ && "append"@ != "prepend"@,
        "markdown"@ != "json"@,
{
    reveal_strlit("read");
    reveal_strlit("write");
    reveal_strlit("search");
    reveal_strlit("list");
    reveal_strlit("delete");
    reveal_strlit("frontmatter");
    reveal_strlit("tags");
    reveal_strlit("replace");
    reveal_strlit("move");
    reveal_strlit("batch_read");
    reveal_strlit("stats");
    reveal_strlit("get");
    reveal_strlit("set");
    reveal_strlit("add");
    reveal_strlit("remove");
    reveal_strlit("overwrite");
    reveal_strlit("append");
    reveal_strlit("prepend");
    reveal_strlit("markdown");
    reveal_strlit("json");
    assert("read"@[0] == 'r' && "write"@[0] == 'w' && "search"@[0] == 's' && "list"@[0] == 'l');
    assert("delete"@[0] == 'd' && "frontmatter"@[0] == 'f' && "tags"@[0] == 't');
    assert("replace"@.len() == 7 && "read"@.len() == 4 && "search"@.len() == 6 && "stats"@.len()
        == 5);
    assert("replace"@[0] == 'r' && "move"@[0] == 'm' && "batch_read"@[0] == 'b' && "stats"@[0]
        == 's');
    assert("get"@[0] == 'g' && "set"@[0] == 's' && "add"@[0] == 'a' && "remove"@[0] == 'r');
    assert("overwrite"@[0] == 'o' && "append"@[0] == 'a' && "prepend"@[0] == 'p');
    assert("markdown"@[0] == 'm' && "json"@[0] == 'j');
}

/// A call is understood exactly if it is complete, and then asks for what its
/// action says, with what was given. Unless told otherwise, a note is read as
/// it is and overwritten, a search is for a text and gives twenty hits, a list
/// is of one directory, and ten recent files are told.
#[verifier::rlimit(40)]
pub proof fn law_vault_call_is_told_by_its_action(p: VaultParams, r: Result<VaultCall, ToolError>)
    requires
        call_ensures(parse_vault_call, (p,), r),
    ensures
        r is Ok <==> is_complete(p),
        r matches Err(e) ==> e.kind == ErrorKind::InvalidParams,
        r matches Ok(call) ==> match call {
            VaultCall::Read { path, as_json } => p.action@ == "read"@ && p.path == Some(path)
                && as_json == (p.format is Some && p.format->0@ == "json"@),
            VaultCall::Write { path, content, mode } => p.action@ == "write"@ && p.path == Some(
                path,
            ) && p.content == Some(content) && match mode {
                WriteMode::Overwrite => p.mode is None || p.mode->0@ == "overwrite"@,
                WriteMode::Append => p.mode is Some && p.mode->0@ == "append"@,
                WriteMode::Prepend => p.mode is Some && p.mode->0@ == "prepend"@,
            },
            VaultCall::Search { query, is_regex, path_prefix, tag, max } => {
                &&& p.action@ == "search"@
                &&& p.query == Some(query)
                &&& is_regex == (p.regex == Some(true))
                &&& path_prefix == p.path_prefix
                &&& tag == p.tag
                &&& p.max_results matches Some(n) ==> max == n
                &&& p.max_results is None ==> max == 20
            },
            VaultCall::List { path, recursive } => p.action@ == "list"@ && recursive == (
            p.recursive == Some(true)) && (p.path is Some ==> path == p.path) && (p.path is None
                ==> path == p.path_prefix),
            VaultCall::Delete { path } => p.action@ == "delete"@ && p.path == Some(path)
                && p.confirm == Some(true),
            VaultCall::GetFrontmatter { path } => p.action@ == "frontmatter"@
                && p.frontmatter_action->0@ == "get"@ && p.path == Some(path),
            VaultCall::SetFrontmatter { path, key, value } => p.action@ == "frontmatter"@
                && p.frontmatter_action->0@ == "set"@ && p.path == Some(path) && p.key == Some(key)
                && p.value == Some(Ok::<Yaml, String>(value)),
            VaultCall::DeleteFrontmatter { path, key } => p.action@ == "frontmatter"@
                && p.frontmatter_action->0@ == "delete"@ && p.path == Some(path) && p.key == Some(
                key,
            ),
            VaultCall::ListTags { path } => p.action@ == "tags"@ && p.tags_action->0@ == "list"@
                && p.path == Some(path),
            VaultCall::AddTag { path, tag } => p.action@ == "tags"@ && p.tags_action->0@ == "add"@
                && p.path == Some(path) && p.tag == Some(tag),
            VaultCall::RemoveTag { path, tag } => p.action@ == "tags"@ && p.tags_action->0@
                == "remove"@ && p.path == Some(path) && p.tag == Some(tag),
            VaultCall::Replace { path, old_string, new_string, is_regex } => p.action@
                == "replace"@ && p.path == Some(path) && p.old_string == Some(old_string)
                && p.new_string == Some(new_string) && is_regex == (p.regex == Some(true)),
            VaultCall::Move { path, new_path, overwrite } => p.action@ == "move"@ && p.path == Some(
                path,
            ) && p.new_path == Some(new_path) && overwrite == (p.overwrite == Some(true)),
            VaultCall::BatchRead { paths, include_content, include_frontmatter } => p.action@
                == "batch_read"@ && p.paths == Some(paths) && include_content == (p.include_content
                != Some(false)) && include_frontmatter == (p.include_frontmatter != Some(false)),
            VaultCall::Stats { recent_count } => p.action@ == "stats"@ && (
            p.recent_count is Some ==> recent_count == p.recent_count->0) && (p.recent_count is None
                ==> recent_count == 10),
        },
{
    lemma_actions();
}

/// Without a vault nothing is done; with one, a call draws on the default limit
/// and is then a matter of being complete.
#[verifier::rlimit(40)]
pub proof fn law_vault_calls_draw_on_the_default(
    p: VaultParams,
    available: bool,
    limiter: &mut RateLimiter,
    now: u64,
    r: Result<VaultCall, ToolError>,
)
    requires
        call_ensures(vault, (p, available, limiter, now), r),
    ensures
        only(*old(limiter), *final(limiter), Slot::Default),
        !available ==> r is Err && *final(limiter) == *old(limiter),
        r is Ok <==> available && !refused(*old(limiter), Slot::Default, now) && is_complete(p),
{
    lemma_actions();
}

/// What went wrong is told, and for a read also which note it was.
pub proof fn law_vault_failure_tells_why(call: &VaultCall, detail: &str, e: ToolError)
    requires
        call_ensures(vault_failure, (call, detail), e),
    ensures
        e.kind == ErrorKind::Internal,
        contains_text(e.message@, detail@),
        !(call is Read) ==> e.message@ == detail@,
        call matches VaultCall::Read { path, .. } ==> contains_text(e.message@, path@),
{
    match *call {
        VaultCall::Read { path, .. } => {
            let tail = ". Use vault(action=\"list\") to browse available notes, or vault(action=\"search\") to find notes by content."@;
            let head = "Failed to read vault note '"@ + path@ + "': "@;
            law_containing_is_standing_somewhere(head, detail@, tail);
            law_containing_is_standing_somewhere(
                "Failed to read vault note '"@,
                path@,
                "': "@ + detail@ + tail,
            );
            assert("Failed to read vault note '"@ + path@ + ("': "@ + detail@ + tail) =~= head
                + detail@ + tail);
        },
        _ => {
            law_containing_is_standing_somewhere(seq![], detail@, seq![]);
            assert(Seq::<char>::empty() + detail@ + Seq::<char>::empty() =~= detail@);
        },
    }
}

/// Calls that change a note are answered with what was done to which note; the
/// others answer with what they found.
pub proof fn law_vault_answers_what_was_done(call: &VaultCall, r: Option<String>)
    requires
        call_ensures(vault_done, (call,), r),
    ensures
        match *call {
            VaultCall::Write { path, mode, .. } => r is Some && r->0@ == "Note '"@ + path@
                + "' written ("@ + match mode {
                WriteMode::Overwrite => "overwrite"@,
                WriteMode::Append => "append"@,
                WriteMode::Prepend => "prepend"@,
            } + ")."@,
            VaultCall::Delete { path } => r is Some && r->0@ == "Note '"@ + path@ + "' deleted."@,
            VaultCall::SetFrontmatter { path, key, .. } => r is Some && r->0@
                == "Frontmatter key '"@ + key@ + "' set on '"@ + path@ + "'."@,
            VaultCall::DeleteFrontmatter { path, key } => r is Some && r->0@
                == "Frontmatter key '"@ + key@ + "' deleted from '"@ + path@ + "'."@,
            VaultCall::AddTag { path, tag } => r is Some && r->0@ == "Tag '"@ + tag@
                + "' added to '"@ + path@ + "'."@,
            VaultCall::RemoveTag { path, tag } => r is Some && r->0@ == "Tag '"@ + tag@
                + "' removed from '"@ + path@ + "'."@,
            _ => r is None,
        },
{
}

/// What is said of a parameter that an action needs.
pub open spec fn requirement(name: Seq<char>, action: Seq<char>) -> Seq<char> {
    "'"@ + name + "' is required for action '"@ + action + "'"@
}

/// The texts that name a parameter.
#[verifier::rlimit(60)]
proof fn lemma_requirements()
    ensures
        requirement("path"@, "read"@) == "'path' is required for action 'read'"@,
        requirement("path"@, "write"@) == "'path' is required for action 'write'"@,
        requirement("content"@, "write"@) == "'content' is required for action 'write'"@,
        requirement("query"@, "search"@) == "'query' is required for action 'search'"@,
        requirement("path"@, "delete"@) == "'path' is required for action 'delete'"@,
        requirement("path"@, "frontmatter"@) == "'path' is required for action 'frontmatter'"@,
        requirement("path"@, "tags"@) == "'path' is required for action 'tags'"@,
        requirement("path"@, "replace"@) == "'path' is required for action 'replace'"@,
        requirement("old_string"@, "replace"@) == "'old_string' is required for action 'replace'"@,
        requirement("new_string"@, "replace"@) == "'new_string' is required for action 'replace'"@,
        requirement("path"@, "move"@) == "'path' is required for action 'move'"@,
        requirement("new_path"@, "move"@) == "'new_path' is required for action 'move'"@,
        requirement("paths"@, "batch_read"@) == "'paths' is required for action 'batch_read'"@,
{
    reveal_strlit("'");
    reveal_strlit("' is required for action '");
    reveal_strlit("content");
    reveal_strlit("new_path");
    reveal_strlit("new_string");
    reveal_strlit("old_string");
    reveal_strlit("path");
    reveal_strlit("paths");
    reveal_strlit("query");
    reveal_strlit("batch_read");
    reveal_strlit("delete");
    reveal_strlit("frontmatter");
    reveal_strlit("move");
    reveal_strlit("read");
    reveal_strlit("replace");
    reveal_strlit("search");
    reveal_strlit("tags");
    reveal_strlit("write");
    reveal_strlit("'path' is required for action 'read'");
    assert(requirement("path"@, "read"@) =~= "'path' is required for action 'read'"@);
    reveal_strlit("'path' is required for action 'write'");
    assert(requirement("path"@, "write"@) =~= "'path' is required for action 'write'"@);
    reveal_strlit("'content' is required for action 'write'");
    assert(requirement("content"@, "write"@) =~= "'content' is required for action 'write'"@);
    reveal_strlit("'query' is required for action 'search'");
    assert(requirement("query"@, "search"@) =~= "'query' is required for action 'search'"@);
    reveal_strlit("'path' is required for action 'delete'");
    assert(requirement("path"@, "delete"@) =~= "'path' is required for action 'delete'"@);
    reveal_strlit("'path' is required for action 'frontmatter'");
    assert(requirement("path"@, "frontmatter"@) =~= "'path' is required for action 'frontmatter'"@);
    reveal_strlit("'path' is required for action 'tags'");
    assert(requirement("path"@, "tags"@) =~= "'path' is required for action 'tags'"@);
    reveal_strlit("'path' is required for action 'replace'");
    assert(requirement("path"@, "replace"@) =~= "'path' is required for action 'replace'"@);
    reveal_strlit("'old_string' is required for action 'replace'");
    assert(requirement("old_string"@, "replace"@) =~= "'old_string' is required for action 'replace'"@);
    reveal_strlit("'new_string' is required for action 'replace'");
    assert(requirement("new_string"@, "replace"@) =~= "'new_string' is required for action 'replace'"@);
    reveal_strlit("'path' is required for action 'move'");
    assert(requirement("path"@, "move"@) =~= "'path' is required for action 'move'"@);
    reveal_strlit("'new_path' is required for action 'move'");
    assert(requirement("new_path"@, "move"@) =~= "'new_path' is required for action 'move'"@);
    reveal_strlit("'paths' is required for action 'batch_read'");
    assert(requirement("paths"@, "batch_read"@) =~= "'paths' is required for action 'batch_read'"@);
}

/// The first parameter that is missing is named, with the action that needs it.
pub proof fn law_missing_vault_parameter_is_named(p: VaultParams, r: Result<VaultCall, ToolError>)
    requires
        call_ensures(parse_vault_call, (p,), r),
    ensures
        ({
            let action = p.action@;
            let needs_path = action == "read"@ || action == "write"@ || action == "delete"@
                || action == "frontmatter"@ || action == "tags"@ || action == "replace"@ || action
                == "move"@;
            &&& needs_path && p.path is None ==> r is Err && r->Err_0.message@ == requirement(
                "path"@,
                action,
            )
            &&& action == "write"@ && p.path is Some && p.content is None ==> r is Err
                && r->Err_0.message@ == requirement("content"@, action)
            &&& action == "search"@ && p.query is None ==> r is Err && r->Err_0.message@
                == requirement("query"@, action)
            &&& action == "replace"@ && p.path is Some && p.old_string is None ==> r is Err
                && r->Err_0.message@ == requirement("old_string"@, action)
            &&& action == "replace"@ && p.path is Some && p.old_string is Some && p.new_string
                is None ==> r is Err && r->Err_0.message@ == requirement("new_string"@, action)
            &&& action == "move"@ && p.path is Some && p.new_path is None ==> r is Err
                && r->Err_0.message@ == requirement("new_path"@, action)
            &&& action == "batch_read"@ && p.paths is None ==> r is Err && r->Err_0.message@
                == requirement("paths"@, action)
            &&& action == "delete"@ && p.path is Some && p.confirm != Some(true) ==> r is Err
                && r->Err_0.message@ == "confirm must be true to delete a note"@
        }),
{
    lemma_actions();
    lemma_requirements();
}

} // verus!
