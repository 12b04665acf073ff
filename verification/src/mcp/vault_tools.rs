//! The vault tool: one tool with an action for each operation on notes.

use crate::mcp::error::{internal_error, invalid_params, invalid_request, ErrorKind, ToolError};
use crate::mcp::git_tools::{flag_or, str_or, text_or};
use crate::mcp::rate_limit::{draws, too_soon, RateLimiter, Slot};
use crate::mcp::vault::WriteMode;
use crate::mcp::yaml::Yaml;
use crate::text::{cat2, cat3, cat5, owned, same};
use vstd::prelude::*;

verus! {

/// Parameters of the vault tool.
#[derive(Debug)]
pub struct VaultParams {
    /// Action: "read", "write", "search", "list", "delete", "frontmatter",
    /// "tags", "replace", "move", "batch_read" or "stats".
    pub action: String,
    /// Note path.
    pub path: Option<String>,
    /// Note content (for write).
    pub content: Option<String>,
    /// Write mode: "overwrite", "append" or "prepend" (for write, default:
    /// overwrite).
    pub mode: Option<String>,
    /// Search query (for search).
    pub query: Option<String>,
    /// Use a regular expression (for search and replace).
    pub regex: Option<bool>,
    /// Tag filter (for search), or the tag (for tags).
    pub tag: Option<String>,
    /// Max results (for search, default: 20).
    pub max_results: Option<usize>,
    /// Path prefix filter (for search and list).
    pub path_prefix: Option<String>,
    /// Recursive listing (for list).
    pub recursive: Option<bool>,
    /// Confirm deletion (for delete).
    pub confirm: Option<bool>,
    /// Frontmatter key (for frontmatter).
    pub key: Option<String>,
    /// Frontmatter value (for frontmatter set), or why it is none.
    pub value: Option<Result<Yaml, String>>,
    /// Frontmatter sub-action: "get", "set" or "delete".
    pub frontmatter_action: Option<String>,
    /// Tags sub-action: "list", "add" or "remove".
    pub tags_action: Option<String>,
    /// Old string (for replace).
    pub old_string: Option<String>,
    /// New string (for replace).
    pub new_string: Option<String>,
    /// New path (for move).
    pub new_path: Option<String>,
    /// Allow overwrite (for move).
    pub overwrite: Option<bool>,
    /// Paths (for batch_read).
    pub paths: Option<Vec<String>>,
    /// Give content (for batch_read, default: true).
    pub include_content: Option<bool>,
    /// Give frontmatter (for batch_read, default: true).
    pub include_frontmatter: Option<bool>,
    /// How many recent files (for stats, default: 10).
    pub recent_count: Option<usize>,
    /// Response format: "markdown" or "json" (for read, default: markdown).
    pub format: Option<String>,
}

/// What the vault tool is asked to do, with its parameters checked.
#[derive(Debug)]
pub enum VaultCall {
    Read { path: String, as_json: bool },
    Write { path: String, content: String, mode: WriteMode },
    Search {
        query: String,
        is_regex: bool,
        path_prefix: Option<String>,
        tag: Option<String>,
        max: usize,
    },
    List { path: Option<String>, recursive: bool },
    Delete { path: String },
    GetFrontmatter { path: String },
    SetFrontmatter { path: String, key: String, value: Yaml },
    DeleteFrontmatter { path: String, key: String },
    ListTags { path: String },
    AddTag { path: String, tag: String },
    RemoveTag { path: String, tag: String },
    Replace { path: String, old_string: String, new_string: String, is_regex: bool },
    Move { path: String, new_path: String, overwrite: bool },
    BatchRead { paths: Vec<String>, include_content: bool, include_frontmatter: bool },
    Stats { recent_count: usize },
}

/// The write mode of a name.
pub open spec fn mode_named(name: Seq<char>) -> Option<WriteMode> {
    if name == "overwrite"@ {
        Some(WriteMode::Overwrite)
    } else if name == "append"@ {
        Some(WriteMode::Append)
    } else if name == "prepend"@ {
        Some(WriteMode::Prepend)
    } else {
        None
    }
}

/// The name of a write mode.
pub open spec fn mode_name(mode: WriteMode) -> Seq<char> {
    match mode {
        WriteMode::Overwrite => "overwrite"@,
        WriteMode::Append => "append"@,
        WriteMode::Prepend => "prepend"@,
    }
}

/// The first of two texts that is given.
pub open spec fn first_given(a: Option<String>, b: Option<String>) -> Option<String> {
    match a {
        Some(_) => a,
        None => b,
    }
}

/// What is wrong with the parameters, if anything is.
pub open spec fn problem(p: VaultParams) -> Option<Seq<char>> {
    let action = p.action@;
    if action == "read"@ {
        if p.path is None {
            Some("'path' is required for action 'read'"@)
        } else {
            None
        }
    } else if action == "write"@ {
        if p.path is None {
            Some("'path' is required for action 'write'"@)
        } else if p.content is None {
            Some("'content' is required for action 'write'"@)
        } else if mode_named(text_or(p.mode, "overwrite"@)) is None {
            Some(
                "invalid write mode '"@ + text_or(p.mode, "overwrite"@)
                    + "': expected 'overwrite', 'append', or 'prepend'"@,
            )
        } else {
            None
        }
    } else if action == "search"@ {
        if p.query is None {
            Some("'query' is required for action 'search'"@)
        } else {
            None
        }
    } else if action == "list"@ {
        None
    } else if action == "delete"@ {
        if p.path is None {
            Some("'path' is required for action 'delete'"@)
        } else if !flag_or(p.confirm, false) {
            Some("confirm must be true to delete a note"@)
        } else {
            None
        }
    } else if action == "frontmatter"@ {
        frontmatter_problem(p)
    } else if action == "tags"@ {
        tags_problem(p)
    } else if action == "replace"@ {
        if p.path is None {
            Some("'path' is required for action 'replace'"@)
        } else if p.old_string is None {
            Some("'old_string' is required for action 'replace'"@)
        } else if p.new_string is None {
            Some("'new_string' is required for action 'replace'"@)
        } else {
            None
        }
    } else if action == "move"@ {
        if p.path is None {
            Some("'path' is required for action 'move'"@)
        } else if p.new_path is None {
            Some("'new_path' is required for action 'move'"@)
        } else {
            None
        }
    } else if action == "batch_read"@ {
        if p.paths is None {
            Some("'paths' is required for action 'batch_read'"@)
        } else {
            None
        }
    } else if action == "stats"@ {
        None
    } else {
        Some(
            "invalid vault action '"@ + action
                + "': expected one of 'read', 'write', 'search', 'list', 'delete', 'frontmatter', 'tags', 'replace', 'move', 'batch_read', 'stats'"@,
        )
    }
}

/// What is wrong with the parameters of a frontmatter action.
pub open spec fn frontmatter_problem(p: VaultParams) -> Option<Seq<char>> {
    if p.path is None {
        Some("'path' is required for action 'frontmatter'"@)
    } else if p.frontmatter_action is None {
        Some(
            "'frontmatter_action' is required for action 'frontmatter' (one of: 'get', 'set', 'delete')"@,
        )
    } else {
        let sub_action = p.frontmatter_action->0@;
        if sub_action == "get"@ {
            None
        } else if sub_action == "set"@ {
            if p.key is None {
                Some("'key' is required for frontmatter_action 'set'"@)
            } else {
                match p.value {
                    None => Some("'value' is required for frontmatter_action 'set'"@),
                    Some(Err(e)) => Some("invalid value: "@ + e@),
                    Some(Ok(_)) => None,
                }
            }
        } else if sub_action == "delete"@ {
            if p.key is None {
                Some("'key' is required for frontmatter_action 'delete'"@)
            } else {
                None
            }
        } else {
            Some(
                "invalid frontmatter_action '"@ + sub_action
                    + "': expected 'get', 'set', or 'delete'"@,
            )
        }
    }
}

/// What is wrong with the parameters of a tags action.
pub open spec fn tags_problem(p: VaultParams) -> Option<Seq<char>> {
    if p.path is None {
        Some("'path' is required for action 'tags'"@)
    } else if p.tags_action is None {
        Some("'tags_action' is required for action 'tags' (one of: 'list', 'add', 'remove')"@)
    } else {
        let sub_action = p.tags_action->0@;
        if sub_action == "list"@ {
            None
        } else if sub_action == "add"@ {
            if p.tag is None {
                Some("'tag' is required for tags_action 'add'"@)
            } else {
                None
            }
        } else if sub_action == "remove"@ {
            if p.tag is None {
                Some("'tag' is required for tags_action 'remove'"@)
            } else {
                None
            }
        } else {
            Some(
                "invalid tags_action '"@ + sub_action + "': expected 'list', 'add', or 'remove'"@,
            )
        }
    }
}

/// The call asks for what the parameters say, with defaults filled in.
pub open spec fn asks_for(call: VaultCall, p: VaultParams) -> bool {
    let action = p.action@;
    if action == "read"@ {
        call matches VaultCall::Read { path, as_json } && Some(path) == p.path && as_json == (
        text_or(p.format, "markdown"@) == "json"@)
    } else if action == "write"@ {
        call matches VaultCall::Write { path, content, mode } && Some(path) == p.path && Some(
            content,
        ) == p.content && Some(mode) == mode_named(text_or(p.mode, "overwrite"@))
    } else if action == "search"@ {
        call matches VaultCall::Search { query, is_regex, path_prefix, tag, max } && Some(query)
            == p.query && is_regex == flag_or(p.regex, false) && path_prefix == p.path_prefix && tag
            == p.tag && max == match p.max_results {
            Some(n) => n,
            None => 20,
        }
    } else if action == "list"@ {
        call matches VaultCall::List { path, recursive } && path == first_given(
            p.path,
            p.path_prefix,
        ) && recursive == flag_or(p.recursive, false)
    } else if action == "delete"@ {
        call matches VaultCall::Delete { path } && Some(path) == p.path
    } else if action == "frontmatter"@ {
        let sub_action = p.frontmatter_action->0@;
        if sub_action == "get"@ {
            call matches VaultCall::GetFrontmatter { path } && Some(path) == p.path
        } else if sub_action == "set"@ {
            call matches VaultCall::SetFrontmatter { path, key, value } && Some(path) == p.path
                && Some(key) == p.key && p.value == Some(Ok::<Yaml, String>(value))
        } else {
            call matches VaultCall::DeleteFrontmatter { path, key } && Some(path) == p.path && Some(
                key,
            ) == p.key
        }
    } else if action == "tags"@ {
        let sub_action = p.tags_action->0@;
        if sub_action == "list"@ {
            call matches VaultCall::ListTags { path } && Some(path) == p.path
        } else if sub_action == "add"@ {
            call matches VaultCall::AddTag { path, tag } && Some(path) == p.path && Some(tag)
                == p.tag
        } else {
            call matches VaultCall::RemoveTag { path, tag } && Some(path) == p.path && Some(tag)
                == p.tag
        }
    } else if action == "replace"@ {
        call matches VaultCall::Replace { path, old_string, new_string, is_regex } && Some(path)
            == p.path && Some(old_string) == p.old_string && Some(new_string) == p.new_string
            && is_regex == flag_or(p.regex, false)
    } else if action == "move"@ {
        call matches VaultCall::Move { path, new_path, overwrite } && Some(path) == p.path && Some(
            new_path,
        ) == p.new_path && overwrite == flag_or(p.overwrite, false)
    } else if action == "batch_read"@ {
        call matches VaultCall::BatchRead { paths, include_content, include_frontmatter } && Some(
            paths,
        ) == p.paths && include_content == flag_or(p.include_content, true) && include_frontmatter
            == flag_or(p.include_frontmatter, true)
    } else {
        call matches VaultCall::Stats { recent_count } && recent_count == match p.recent_count {
            Some(n) => n,
            None => 10,
        }
    }
}

/// An error about the parameters.
fn lacks(message: &str) -> (r: Result<VaultCall, ToolError>)
    ensures
        r is Err,
        r->Err_0@ == (ErrorKind::InvalidParams, message@),
{
    Err(invalid_params(owned(message)))
}

/// A flag where one is given, else a default.
fn flag(o: Option<bool>, default: bool) -> (r: bool)
    ensures
        r == flag_or(o, default),
{
    match o {
        Some(b) => b,
        None => default,
    }
}

/// Check the parameters of a frontmatter action.
fn frontmatter_call(p: VaultParams) -> (r: Result<VaultCall, ToolError>)
    ensures
        match frontmatter_problem(p) {
            Some(message) => r is Err && r->Err_0@ == (ErrorKind::InvalidParams, message),
            None => r is Ok && (p.action@ == "frontmatter"@ ==> asks_for(r->Ok_0, p)),
        },
{
    proof {
        lemma_frontmatter_differs();
    }
    let path: String = match p.path {
        Some(path) => path,
        None => {
            return lacks("'path' is required for action 'frontmatter'");
        },
    };
    let sub_action: String = match p.frontmatter_action {
        Some(a) => a,
        None => {
            return lacks(
                "'frontmatter_action' is required for action 'frontmatter' (one of: 'get', 'set', 'delete')",
            );
        },
    };
    if same(sub_action.as_str(), "get") {
        Ok(VaultCall::GetFrontmatter { path })
    } else if same(sub_action.as_str(), "set") {
        let key: String = match p.key {
            Some(key) => key,
            None => {
                return lacks("'key' is required for frontmatter_action 'set'");
            },
        };
        match p.value {
            None => lacks("'value' is required for frontmatter_action 'set'"),
            Some(v) => match v {
                Err(e) => Err(invalid_params(cat2("invalid value: ", e.as_str()))),
                Ok(value) => Ok(VaultCall::SetFrontmatter { path, key, value }),
            },
        }
    } else if same(sub_action.as_str(), "delete") {
        match p.key {
            Some(key) => Ok(VaultCall::DeleteFrontmatter { path, key }),
            None => lacks("'key' is required for frontmatter_action 'delete'"),
        }
    } else {
        Err(
            invalid_params(
                cat3(
                    "invalid frontmatter_action '",
                    sub_action.as_str(),
                    "': expected 'get', 'set', or 'delete'",
                ),
            ),
        )
    }
}

/// Check the parameters of a tags action.
fn tags_call(p: VaultParams) -> (r: Result<VaultCall, ToolError>)
    ensures
        match tags_problem(p) {
            Some(message) => r is Err && r->Err_0@ == (ErrorKind::InvalidParams, message),
            None => r is Ok && (p.action@ == "tags"@ ==> asks_for(r->Ok_0, p)),
        },
{
    proof {
        lemma_tags_differs();
    }
    let path: String = match p.path {
        Some(path) => path,
        None => {
            return lacks("'path' is required for action 'tags'");
        },
    };
    let sub_action: String = match p.tags_action {
        Some(a) => a,
        None => {
            return lacks(
                "'tags_action' is required for action 'tags' (one of: 'list', 'add', 'remove')",
            );
        },
    };
    if same(sub_action.as_str(), "list") {
        Ok(VaultCall::ListTags { path })
    } else if same(sub_action.as_str(), "add") {
        match p.tag {
            Some(tag) => Ok(VaultCall::AddTag { path, tag }),
            None => lacks("'tag' is required for tags_action 'add'"),
        }
    } else if same(sub_action.as_str(), "remove") {
        match p.tag {
            Some(tag) => Ok(VaultCall::RemoveTag { path, tag }),
            None => lacks("'tag' is required for tags_action 'remove'"),
        }
    } else {
        Err(
            invalid_params(
                cat3(
                    "invalid tags_action '",
                    sub_action.as_str(),
                    "': expected 'list', 'add', or 'remove'",
                ),
            ),
        )
    }
}

/// The action `frontmatter` is none of those before it.
proof fn lemma_frontmatter_differs()
    ensures
        "frontmatter"@ != "read"@,
        "frontmatter"@ != "write"@,
        "frontmatter"@ != "search"@,
        "frontmatter"@ != "list"@,
        "frontmatter"@ != "delete"@,
{
    reveal_strlit("frontmatter");
    reveal_strlit("read");
    reveal_strlit("write");
    reveal_strlit("search");
    reveal_strlit("list");
    reveal_strlit("delete");
    assert("frontmatter"@.len() == 11);
    assert("read"@.len() == 4);
    assert("write"@.len() == 5);
    assert("search"@.len() == 6);
    assert("list"@.len() == 4);
    assert("delete"@.len() == 6);
}

/// The action `tags` is none of those before it.
proof fn lemma_tags_differs()
    ensures
        "tags"@ != "read"@,
        "tags"@ != "write"@,
        "tags"@ != "search"@,
        "tags"@ != "list"@,
        "tags"@ != "delete"@,
        "tags"@ != "frontmatter"@,
{
    reveal_strlit("tags");
    reveal_strlit("frontmatter");
    reveal_strlit("read");
    reveal_strlit("write");
    reveal_strlit("search");
    reveal_strlit("list");
    reveal_strlit("delete");
    assert("tags"@[0] == 't');
    assert("read"@[0] == 'r');
    assert("write"@[0] == 'w');
    assert("search"@[0] == 's');
    assert("list"@[0] == 'l');
    assert("delete"@[0] == 'd');
    assert("frontmatter"@[0] == 'f');
}

/// Check the parameters of the vault tool.
pub fn parse_vault_call(p: VaultParams) -> (r: Result<VaultCall, ToolError>)
    ensures
        match problem(p) {
            Some(message) => r is Err && r->Err_0@ == (ErrorKind::InvalidParams, message),
            None => r is Ok && asks_for(r->Ok_0, p),
        },
{
    let action: String = owned(p.action.as_str());
    if same(action.as_str(), "read") {
        let as_json: bool = same(str_or(&p.format, "markdown"), "json");
        match p.path {
            Some(path) => Ok(VaultCall::Read { path, as_json }),
            None => lacks("'path' is required for action 'read'"),
        }
    } else if same(action.as_str(), "write") {
        let path: String = match p.path {
            Some(path) => path,
            None => {
                return lacks("'path' is required for action 'write'");
            },
        };
        let content: String = match p.content {
            Some(content) => content,
            None => {
                return lacks("'content' is required for action 'write'");
            },
        };
        let name: &str = str_or(&p.mode, "overwrite");
        let mode: WriteMode = if same(name, "overwrite") {
            WriteMode::Overwrite
        } else if same(name, "append") {
            WriteMode::Append
        } else if same(name, "prepend") {
            WriteMode::Prepend
        } else {
            return Err(
                invalid_params(
                    cat3(
                        "invalid write mode '",
                        name,
                        "': expected 'overwrite', 'append', or 'prepend'",
                    ),
                ),
            );
        };
        Ok(VaultCall::Write { path, content, mode })
    } else if same(action.as_str(), "search") {
        let query: String = match p.query {
            Some(query) => query,
            None => {
                return lacks("'query' is required for action 'search'");
            },
        };
        let max: usize = match p.max_results {
            Some(n) => n,
            None => 20,
        };
        Ok(
            VaultCall::Search {
                query,
                is_regex: flag(p.regex, false),
                path_prefix: p.path_prefix,
                tag: p.tag,
                max,
            },
        )
    } else if same(action.as_str(), "list") {
        let recursive: bool = flag(p.recursive, false);
        match p.path {
            Some(path) => Ok(VaultCall::List { path: Some(path), recursive }),
            None => Ok(VaultCall::List { path: p.path_prefix, recursive }),
        }
    } else if same(action.as_str(), "delete") {
        let path: String = match p.path {
            Some(path) => path,
            None => {
                return lacks("'path' is required for action 'delete'");
            },
        };
        if !flag(p.confirm, false) {
            return lacks("confirm must be true to delete a note");
        }
        Ok(VaultCall::Delete { path })
    } else if same(action.as_str(), "frontmatter") {
        frontmatter_call(p)
    } else if same(action.as_str(), "tags") {
        tags_call(p)
    } else if same(action.as_str(), "replace") {
        let path: String = match p.path {
            Some(path) => path,
            None => {
                return lacks("'path' is required for action 'replace'");
            },
        };
        let old_string: String = match p.old_string {
            Some(s) => s,
            None => {
                return lacks("'old_string' is required for action 'replace'");
            },
        };
        let new_string: String = match p.new_string {
            Some(s) => s,
            None => {
                return lacks("'new_string' is required for action 'replace'");
            },
        };
        Ok(VaultCall::Replace { path, old_string, new_string, is_regex: flag(p.regex, false) })
    } else if same(action.as_str(), "move") {
        let path: String = match p.path {
            Some(path) => path,
            None => {
                return lacks("'path' is required for action 'move'");
            },
        };
        match p.new_path {
            Some(new_path) => Ok(
                VaultCall::Move { path, new_path, overwrite: flag(p.overwrite, false) },
            ),
            None => lacks("'new_path' is required for action 'move'"),
        }
    } else if same(action.as_str(), "batch_read") {
        match p.paths {
            Some(paths) => Ok(
                VaultCall::BatchRead {
                    paths,
                    include_content: flag(p.include_content, true),
                    include_frontmatter: flag(p.include_frontmatter, true),
                },
            ),
            None => lacks("'paths' is required for action 'batch_read'"),
        }
    } else if same(action.as_str(), "stats") {
        let recent_count: usize = match p.recent_count {
            Some(n) => n,
            None => 10,
        };
        Ok(VaultCall::Stats { recent_count })
    } else {
        Err(
            invalid_params(
                cat3(
                    "invalid vault action '",
                    action.as_str(),
                    "': expected one of 'read', 'write', 'search', 'list', 'delete', 'frontmatter', 'tags', 'replace', 'move', 'batch_read', 'stats'",
                ),
            ),
        )
    }
}

/// Decide on a call of the vault tool; `available` tells whether there is a
/// vault. A call that can be served draws on the default rate limit before its
/// parameters are looked at.
pub fn vault(p: VaultParams, available: bool, limiter: &mut RateLimiter, now: u64) -> (r: Result<
    VaultCall,
    ToolError,
>)
    requires
        old(limiter).wf(),
    ensures
        final(limiter).wf(),
        if available {
            draws(*old(limiter), *final(limiter), Slot::Default, now)
        } else {
            *final(limiter) == *old(limiter)
        },
        !available ==> r is Err && r->Err_0@ == (
            ErrorKind::InvalidRequest,
            "Vault not configured. Enable [vault] in config.toml."@,
        ),
        available ==> match (too_soon(*old(limiter), Slot::Default, now), problem(p)) {
            (Some(e), _) => r is Err && r->Err_0@ == e,
            (None, Some(message)) => r is Err && r->Err_0@ == (
                ErrorKind::InvalidParams,
                message,
            ),
            (None, None) => r is Ok && asks_for(r->Ok_0, p),
        },
{
    if !available {
        return Err(
            invalid_request(owned("Vault not configured. Enable [vault] in config.toml.")),
        );
    }
    match limiter.draw(Slot::Default, now) {
        Err(e) => Err(e),
        Ok(()) => parse_vault_call(p),
    }
}

/// The error for a call that failed, with why.
pub fn vault_failure(call: &VaultCall, detail: &str) -> (e: ToolError)
    ensures
        e@ == match *call {
            VaultCall::Read { path, .. } => (
                ErrorKind::Internal,
                "Failed to read vault note '"@ + path@ + "': "@ + detail@
                    + ". Use vault(action=\"list\") to browse available notes, or vault(action=\"search\") to find notes by content."@,
            ),
            _ => (ErrorKind::Internal, detail@),
        },
{
    match call {
        VaultCall::Read { path, .. } => internal_error(
            cat5(
                "Failed to read vault note '",
                path.as_str(),
                "': ",
                detail,
                ". Use vault(action=\"list\") to browse available notes, or vault(action=\"search\") to find notes by content.",
            ),
        ),
        _ => internal_error(owned(detail)),
    }
}

/// The answer to a call that changed something, if it is a sentence.
pub open spec fn done_text(call: VaultCall) -> Option<Seq<char>> {
    match call {
        VaultCall::Write { path, mode, .. } => Some(
            "Note '"@ + path@ + "' written ("@ + mode_name(mode) + ")."@,
        ),
        VaultCall::Delete { path } => Some("Note '"@ + path@ + "' deleted."@),
        VaultCall::SetFrontmatter { path, key, .. } => Some(
            "Frontmatter key '"@ + key@ + "' set on '"@ + path@ + "'."@,
        ),
        VaultCall::DeleteFrontmatter { path, key } => Some(
            "Frontmatter key '"@ + key@ + "' deleted from '"@ + path@ + "'."@,
        ),
        VaultCall::AddTag { path, tag } => Some("Tag '"@ + tag@ + "' added to '"@ + path@ + "'."@),
        VaultCall::RemoveTag { path, tag } => Some(
            "Tag '"@ + tag@ + "' removed from '"@ + path@ + "'."@,
        ),
        _ => None,
    }
}

/// The answer to a call that changed something, if it is a sentence.
pub fn vault_done(call: &VaultCall) -> (r: Option<String>)
    ensures
        crate::text::opt_text(r) == done_text(*call),
{
    match call {
        VaultCall::Write { path, mode, .. } => {
            let name: &str = match mode {
                WriteMode::Overwrite => "overwrite",
                WriteMode::Append => "append",
                WriteMode::Prepend => "prepend",
            };
            Some(cat5("Note '", path.as_str(), "' written (", name, ")."))
        },
        VaultCall::Delete { path } => Some(cat3("Note '", path.as_str(), "' deleted.")),
        VaultCall::SetFrontmatter { path, key, .. } => Some(
            cat5("Frontmatter key '", key.as_str(), "' set on '", path.as_str(), "'."),
        ),
        VaultCall::DeleteFrontmatter { path, key } => Some(
            cat5("Frontmatter key '", key.as_str(), "' deleted from '", path.as_str(), "'."),
        ),
        VaultCall::AddTag { path, tag } => Some(
            cat5("Tag '", tag.as_str(), "' added to '", path.as_str(), "'."),
        ),
        VaultCall::RemoveTag { path, tag } => Some(
            cat5("Tag '", tag.as_str(), "' removed from '", path.as_str(), "'."),
        ),
        _ => None,
    }
}

} // verus!
