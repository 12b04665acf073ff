//! Git tools: clone, status, commit, push and diff.
//!
//! Each tool is a sequence of stages (see [`crate::mcp::exchange`]): `start`
//! gives the first command, and `step` decides on the reply to each.

use crate::mcp::error::{invalid_params, invalid_request, ErrorKind, ToolError};
use crate::mcp::exchange::{
    complaint, complaint_of, output_or_empty, reply_view, succeeded, trimmed_output, ExecReply,
    Next, Output, Request, RequestView,
};
use crate::mcp::pattern::{
    compile, pattern_error, pattern_matches, pattern_replaced, replace_all,
};
use crate::mcp::tools::{quote, shell_escape};
use crate::number::{decimal, decimal_of, i64_or_zero, int_or_zero, signed, signed_of};
use crate::text;
use crate::text::{
    after, byte_len, byte_size, cat2, cat3, cat4, cat5, cat6, contains, contains_text, cut,
    cut_to, find_char, lemma_texts_push, lines, opt_text, owned, position_of, split,
    split_at_most, split_limited, split_lines, split_on, split_words, starts_with, texts, trim,
    trimmed, words,
};
use vstd::prelude::*;
use vstd::string::*;
use vstd::utf8::encode_utf8;

verus! {

// ---------------------------------------------------------------------------
// Parameters and results
// ---------------------------------------------------------------------------

/// Parameters of `git_clone`.
#[derive(Debug)]
pub struct GitCloneParams {
    /// UUID or name of the workspace.
    pub workspace_id: String,
    /// Git repository URL.
    pub url: String,
    /// Destination path inside the VM (default: /workspace).
    pub path: Option<String>,
    /// Branch to check out after cloning.
    pub branch: Option<String>,
    /// Shallow clone depth.
    pub depth: Option<u32>,
}

/// Parameters of `git_status`.
#[derive(Debug)]
pub struct GitStatusParams {
    /// UUID or name of the workspace.
    pub workspace_id: String,
    /// Path to the git repository inside the VM (default: /workspace).
    pub path: Option<String>,
}

/// Structured git status, read from `git status --porcelain=v2 --branch`.
#[derive(Debug)]
pub struct GitStatusInfo {
    pub branch: String,
    pub ahead: i64,
    pub behind: i64,
    pub staged: Vec<String>,
    pub modified: Vec<String>,
    pub untracked: Vec<String>,
    pub conflicted: Vec<String>,
    pub dirty: bool,
}

/// Parameters of `git_commit`.
#[derive(Debug)]
pub struct GitCommitParams {
    /// UUID or name of the workspace.
    pub workspace_id: String,
    /// Path to the git repository (default: /workspace).
    pub path: Option<String>,
    /// Commit message.
    pub message: String,
    /// Stage all changes before committing (default: true).
    pub add_all: Option<bool>,
    /// Author name; used together with the author email only.
    pub author_name: Option<String>,
    /// Author email; used together with the author name only.
    pub author_email: Option<String>,
}

/// Parameters of `git_push`.
#[derive(Debug)]
pub struct GitPushParams {
    /// UUID or name of the workspace.
    pub workspace_id: String,
    /// Path to the git repository (default: /workspace).
    pub path: Option<String>,
    /// Remote name (default: origin).
    pub remote: Option<String>,
    /// Branch to push (default: the current branch).
    pub branch: Option<String>,
    /// Force push.
    pub force: Option<bool>,
    /// Set upstream tracking.
    pub set_upstream: Option<bool>,
    /// Timeout in seconds (default: 120).
    pub timeout_secs: Option<u64>,
}

/// Parameters of `git_diff`.
#[derive(Debug)]
pub struct GitDiffParams {
    /// UUID or name of the workspace.
    pub workspace_id: String,
    /// Path to the git repository (default: /workspace).
    pub path: Option<String>,
    /// Show staged changes.
    pub staged: Option<bool>,
    /// Show the stat summary instead of the full diff.
    pub stat: Option<bool>,
    /// Specific file to diff.
    pub file_path: Option<String>,
    /// Maximum output bytes (default: 65536).
    pub max_bytes: Option<usize>,
}

/// A text where one is given, else a default.
pub open spec fn text_or(o: Option<String>, default: Seq<char>) -> Seq<char> {
    match o {
        Some(s) => s@,
        None => default,
    }
}

/// A string where one is given, else a default.
pub fn str_or<'a>(o: &'a Option<String>, default: &'a str) -> (r: &'a str)
    ensures
        r@ == text_or(*o, default@),
{
    match o {
        Some(s) => s.as_str(),
        None => default,
    }
}

/// A flag where one is given, else a default.
pub open spec fn flag_or(o: Option<bool>, default: bool) -> bool {
    match o {
        Some(b) => b,
        None => default,
    }
}

// ---------------------------------------------------------------------------
// URLs and credentials
// ---------------------------------------------------------------------------

/// The `user@host:path` form: an `@` stands before the first `:`, and no scheme
/// is given.
pub open spec fn has_scp_form(url: Seq<char>) -> bool {
    let colon = find_char(url, ':', 0);
    &&& colon < url.len()
    &&& find_char(url, '@', 0) < colon
    &&& !contains_text(url, "://"@)
}

/// A git URL has one of the known schemes, or the `user@host:path` form.
pub open spec fn has_git_form(url: Seq<char>) -> bool {
    ||| "https://"@.is_prefix_of(url)
    ||| "http://"@.is_prefix_of(url)
    ||| "git://"@.is_prefix_of(url)
    ||| "ssh://"@.is_prefix_of(url)
    ||| has_scp_form(url)
}

/// Whether a text has the `user@host:path` form.
fn is_scp(url: &str) -> (r: bool)
    ensures
        r == has_scp_form(url@),
{
    let v: Vec<char> = text::chars_of(url);
    let colon: usize = position_of(&v, ':', 0);
    let at: usize = position_of(&v, '@', 0);
    colon < v.len() && at < colon && !contains(url, "://")
}

/// Characters with a meaning to the shell that no git URL may hold.
pub open spec fn is_shell_char(c: char) -> bool {
    ||| c == ';'
    ||| c == '|'
    ||| c == '&'
    ||| c == '$'
    ||| c == '`'
    ||| c == '\''
    ||| c == '"'
    ||| c == '\\'
    ||| c == '\n'
    ||| c == '\r'
}

/// Some character has a meaning to the shell.
pub open spec fn has_shell_char(url: Seq<char>) -> bool {
    exists|i: int| 0 <= i < url.len() && is_shell_char(#[trigger] url[i])
}

/// Whether a string holds a character with a meaning to the shell.
fn has_shell_chars(url: &str) -> (r: bool)
    ensures
        r == has_shell_char(url@),
{
    let v: Vec<char> = text::chars_of(url);
    let mut i: usize = 0;
    while i < v.len()
        invariant
            v@ == url@,
            i <= v@.len(),
            forall|k: int| 0 <= k < i ==> !is_shell_char(#[trigger] v@[k]),
        decreases v.len() - i,
    {
        let c: char = v[i];
        if c == ';' || c == '|' || c == '&' || c == '$' || c == '`' || c == '\'' || c == '"' || c
            == '\\' || c == '\n' || c == '\r' {
            proof {
                assert(is_shell_char(url@[i as int]));
            }
            return true;
        }
        i = i + 1;
    }
    false
}

/// Why a git URL is refused, if it is.
pub open spec fn git_url_problem(url: Seq<char>) -> Option<Seq<char>> {
    if !has_git_form(url) {
        Some(
            "invalid git URL '"@ + url
                + "'. Expected https://, http://, git://, ssh://, or SCP-style (git@host:path) URL."@,
        )
    } else if has_shell_char(url) {
        Some("git URL contains invalid characters"@)
    } else {
        None
    }
}

/// Validate a git URL.
pub fn validate_git_url(url: &str) -> (r: Result<(), ToolError>)
    ensures
        match git_url_problem(url@) {
            None => r is Ok,
            Some(message) => r is Err && r->Err_0@ == (ErrorKind::InvalidParams, message),
        },
{
    let valid: bool = starts_with(url, "https://") || starts_with(url, "http://") || starts_with(
        url,
        "git://",
    ) || starts_with(url, "ssh://") || is_scp(url);
    if !valid {
        return Err(
            invalid_params(
                cat3(
                    "invalid git URL '",
                    url,
                    "'. Expected https://, http://, git://, ssh://, or SCP-style (git@host:path) URL.",
                ),
            ),
        );
    }
    if has_shell_chars(url) {
        return Err(invalid_params(owned("git URL contains invalid characters")));
    }
    Ok(())
}

/// A text with every match of a pattern replaced by a redaction mark; the mark
/// alone where the pattern does not compile.
pub open spec fn redacted_by(pattern: Seq<char>, s: Seq<char>) -> Seq<char> {
    if pattern_error(pattern) is Some {
        "[REDACTED]"@
    } else if pattern_matches(pattern, s) {
        pattern_replaced(pattern, s, "[REDACTED]"@)
    } else {
        s
    }
}

/// What access tokens look like.
pub open spec fn token_pattern() -> Seq<char> {
    "ghp_[a-zA-Z0-9]{36,}|github_pat_[a-zA-Z0-9_]{22,}|glpat-[a-zA-Z0-9\\-]{20,}"@
}

/// What lines that hold credentials look like.
pub open spec fn header_pattern() -> Seq<char> {
    "(?m)^.*(?:Authorization:|Bearer ).*$"@
}

/// A letter or a digit of ASCII.
pub open spec fn is_alnum(c: char) -> bool {
    'a' <= c <= 'z' || 'A' <= c <= 'Z' || '0' <= c <= '9'
}

/// An access token stands at a position: a prefix, and behind it so many
/// letters, digits or characters of one more kind.
pub open spec fn token_at(
    s: Seq<char>,
    i: int,
    prefix: Seq<char>,
    n: int,
    also: Option<char>,
) -> bool {
    &&& text::occurs_at(s, prefix, i)
    &&& i + prefix.len() + n <= s.len()
    &&& forall|k: int|
        i + prefix.len() <= k < i + prefix.len() + n ==> is_alnum(#[trigger] s[k]) || also == Some(
            s[k],
        )
}

/// An access token of GitHub or GitLab stands at a position.
pub open spec fn any_token_at(s: Seq<char>, i: int) -> bool {
    ||| token_at(s, i, "ghp_"@, 36, None)
    ||| token_at(s, i, "github_pat_"@, 22, Some('_'))
    ||| token_at(s, i, "glpat-"@, 20, Some('-'))
}

/// The text holds no access token and no header with credentials.
pub open spec fn is_clean(s: Seq<char>) -> bool {
    &&& forall|i: int| !(#[trigger] any_token_at(s, i))
    &&& !contains_text(s, "Authorization:"@)
    &&& !contains_text(s, "Bearer "@)
}

/// A text with its access tokens, and then the lines with credentials, replaced
/// by redaction marks.
pub open spec fn marked(s: Seq<char>) -> Seq<char> {
    redacted_by(header_pattern(), redacted_by(token_pattern(), s))
}

/// A text without credentials. A clean text stays as it is. Where anything were
/// left after all, the whole text would be withheld.
pub open spec fn redacted(s: Seq<char>) -> Seq<char> {
    if is_clean(s) {
        s
    } else if is_clean(marked(s)) {
        marked(s)
    } else {
        "[REDACTED]"@
    }
}

/// Whether an access token stands at a position.
fn finds_token(v: &Vec<char>, i: usize, prefix: &str, n: usize, also: Option<char>) -> (r: bool)
    ensures
        r == token_at(v@, i as int, prefix@, n as int, also),
{
    let p: Vec<char> = text::chars_of(prefix);
    if !text::matches_at(v, &p, i) {
        return false;
    }
    let size: usize = v.len();
    assert(i + p@.len() <= size);
    let start: usize = i + p.len();
    if n > size - start {
        return false;
    }
    let end: usize = start + n;
    let mut k: usize = start;
    while k < end
        invariant
            p@ == prefix@,
            start == i + p@.len(),
            end == start + n,
            start <= k <= end <= v@.len(),
            forall|j: int| start <= j < k ==> is_alnum(#[trigger] v@[j]) || also == Some(v@[j]),
        decreases end - k,
    {
        let c: char = v[k];
        let plain: bool = ('a' <= c && c <= 'z') || ('A' <= c && c <= 'Z') || ('0' <= c && c
            <= '9');
        let extra: bool = match also {
            Some(a) => a == c,
            None => false,
        };
        if !plain && !extra {
            proof {
                assert(!(is_alnum(v@[k as int]) || also == Some(v@[k as int])));
            }
            return false;
        }
        k = k + 1;
    }
    true
}

/// Whether the text holds no access token and no header with credentials.
fn clean(s: &str) -> (r: bool)
    ensures
        r == is_clean(s@),
{
    if contains(s, "Authorization:") || contains(s, "Bearer ") {
        return false;
    }
    let v: Vec<char> = text::chars_of(s);
    let mut i: usize = 0;
    while i < v.len()
        invariant
            i <= v@.len(),
            v@ == s@,
            forall|k: int| 0 <= k < i ==> !(#[trigger] any_token_at(s@, k)),
        decreases v.len() - i,
    {
        if finds_token(&v, i, "ghp_", 36, None) || finds_token(&v, i, "github_pat_", 22, Some('_'))
            || finds_token(&v, i, "glpat-", 20, Some('-')) {
            proof {
                assert(any_token_at(s@, i as int));
            }
            return false;
        }
        i = i + 1;
    }
    proof {
        assert forall|k: int| !(#[trigger] any_token_at(s@, k)) by {
            if k >= s@.len() {
                reveal_strlit("ghp_");
                reveal_strlit("github_pat_");
                reveal_strlit("glpat-");
            }
        }
    }
    true
}

/// Replace every match of a pattern by a redaction mark.
fn redact_by(pattern: &str, s: &str) -> (r: String)
    ensures
        r@ == redacted_by(pattern@, s@),
{
    match compile(pattern) {
        Ok(re) => replace_all(&re, s, "[REDACTED]"),
        Err(_) => owned("[REDACTED]"),
    }
}

/// Redact common credential patterns from git command output: GitHub and
/// GitLab access tokens, and lines with `Authorization:` or `Bearer ` headers.
/// Nothing of the kind is left in the result.
pub fn redact_credentials(s: &str) -> (r: String)
    ensures
        r@ == redacted(s@),
        is_clean(r@),
{
    proof {
        law_redaction_leaves_no_credentials(s@);
    }
    if clean(s) {
        return owned(s);
    }
    let tokens: String = redact_by(
        "ghp_[a-zA-Z0-9]{36,}|github_pat_[a-zA-Z0-9_]{22,}|glpat-[a-zA-Z0-9\\-]{20,}",
        s,
    );
    let r: String = redact_by("(?m)^.*(?:Authorization:|Bearer ).*$", tokens.as_str());
    if clean(r.as_str()) {
        r
    } else {
        owned("[REDACTED]")
    }
}

/// The redaction mark holds no credentials.
proof fn lemma_mark_is_clean()
    ensures
        is_clean("[REDACTED]"@),
{
    reveal_strlit("[REDACTED]");
    reveal_strlit("ghp_");
    reveal_strlit("github_pat_");
    reveal_strlit("glpat-");
    reveal_strlit("Authorization:");
    reveal_strlit("Bearer ");
    let m = "[REDACTED]"@;
    assert forall|i: int| !(#[trigger] any_token_at(m, i)) by {}
    assert forall|i: int| !text::occurs_at(m, "Bearer "@, i) by {
        if text::occurs_at(m, "Bearer "@, i) {
            assert(m.subrange(i, i + 7)[0] == m[i]);
            assert("Bearer "@[0] == 'B');
        }
    }
}

/// Redaction leaves no access token, and no line with an `Authorization:` or
/// `Bearer ` header. A text without any is not changed, so that redacting twice
/// is redacting once.
pub proof fn law_redaction_leaves_no_credentials(s: Seq<char>)
    ensures
        is_clean(redacted(s)),
        is_clean(s) ==> redacted(s) == s,
        redacted(redacted(s)) == redacted(s),
{
    lemma_mark_is_clean();
}

// ---------------------------------------------------------------------------
// Status
// ---------------------------------------------------------------------------

/// What a line of `git status --porcelain=v2 --branch` tells.
#[derive(Clone, Copy, Debug, PartialEq, Eq, Structural)]
pub enum LineKind {
    /// `# branch.head <name>`
    Head,
    /// `# branch.ab +<ahead> -<behind>`
    AheadBehind,
    /// `1 <XY> ...`: an ordinary change.
    Ordinary,
    /// `2 <XY> ...`: a rename or copy.
    Rename,
    /// `u <XY> ...`: a conflict.
    Unmerged,
    /// `? <path>`
    Untracked,
    /// Anything else.
    Other,
}

/// What a line tells, by its beginning.
pub open spec fn line_kind(line: Seq<char>) -> LineKind {
    if "# branch.head "@.is_prefix_of(line) {
        LineKind::Head
    } else if "# branch.ab "@.is_prefix_of(line) {
        LineKind::AheadBehind
    } else if "1 "@.is_prefix_of(line) {
        LineKind::Ordinary
    } else if "2 "@.is_prefix_of(line) {
        LineKind::Rename
    } else if "u "@.is_prefix_of(line) {
        LineKind::Unmerged
    } else if "? "@.is_prefix_of(line) {
        LineKind::Untracked
    } else {
        LineKind::Other
    }
}

/// A changed file: its two status codes and its path.
pub struct Change {
    pub codes: Seq<char>,
    pub path: Seq<char>,
}

/// The change that a line tells of, if it tells of one.
pub open spec fn change(line: Seq<char>) -> Option<Change> {
    if line_kind(line) == LineKind::Ordinary {
        let fields = split_limited(line, 9, ' ');
        if fields.len() >= 9 {
            Some(Change { codes: fields[1], path: fields[8] })
        } else {
            None
        }
    } else if line_kind(line) == LineKind::Rename {
        let fields = split_limited(line, 10, ' ');
        if fields.len() >= 10 {
            Some(Change { codes: fields[1], path: split(fields[9], '\t')[0] })
        } else {
            None
        }
    } else {
        None
    }
}

/// The first status code is given and not a dot: the change is staged.
pub open spec fn is_staged(c: Change) -> bool {
    let b = encode_utf8(c.codes);
    b.len() >= 1 && b[0] != 46
}

/// The second status code is given and not a dot: the worktree is modified.
pub open spec fn is_modified(c: Change) -> bool {
    let b = encode_utf8(c.codes);
    b.len() >= 2 && b[1] != 46
}

/// The branch that the last head line names.
pub open spec fn branch_in(ls: Seq<Seq<char>>) -> Seq<char>
    decreases ls.len(),
{
    if ls.len() == 0 {
        "(unknown)"@
    } else if line_kind(ls.last()) == LineKind::Head {
        ls.last().skip(14)
    } else {
        branch_in(ls.drop_last())
    }
}

/// The number behind the last word that begins with `sign`, else `before`.
pub open spec fn counter(ws: Seq<Seq<char>>, sign: char, before: int) -> int
    decreases ws.len(),
{
    if ws.len() == 0 {
        before
    } else if ws.last().len() > 0 && ws.last()[0] == sign {
        int_or_zero(ws.last().skip(1))
    } else {
        counter(ws.drop_last(), sign, before)
    }
}

/// The number behind `sign` in the ahead/behind lines; the last one counts.
pub open spec fn counter_in(ls: Seq<Seq<char>>, sign: char) -> int
    decreases ls.len(),
{
    if ls.len() == 0 {
        0
    } else if line_kind(ls.last()) == LineKind::AheadBehind {
        counter(
            words(ls.last().skip(12)),
            sign,
            counter_in(ls.drop_last(), sign),
        )
    } else {
        counter_in(ls.drop_last(), sign)
    }
}

/// The paths with staged changes, in order.
pub open spec fn staged_in(ls: Seq<Seq<char>>) -> Seq<Seq<char>>
    decreases ls.len(),
{
    if ls.len() == 0 {
        seq![]
    } else {
        match change(ls.last()) {
            Some(c) => if is_staged(c) {
                staged_in(ls.drop_last()).push(c.path)
            } else {
                staged_in(ls.drop_last())
            },
            None => staged_in(ls.drop_last()),
        }
    }
}

/// The paths with changes in the worktree, in order.
pub open spec fn modified_in(ls: Seq<Seq<char>>) -> Seq<Seq<char>>
    decreases ls.len(),
{
    if ls.len() == 0 {
        seq![]
    } else {
        match change(ls.last()) {
            Some(c) => if is_modified(c) {
                modified_in(ls.drop_last()).push(c.path)
            } else {
                modified_in(ls.drop_last())
            },
            None => modified_in(ls.drop_last()),
        }
    }
}

/// The untracked paths, in order.
pub open spec fn untracked_in(ls: Seq<Seq<char>>) -> Seq<Seq<char>>
    decreases ls.len(),
{
    if ls.len() == 0 {
        seq![]
    } else if line_kind(ls.last()) == LineKind::Untracked {
        untracked_in(ls.drop_last()).push(ls.last().skip(2))
    } else {
        untracked_in(ls.drop_last())
    }
}

/// The paths with conflicts, in order.
pub open spec fn conflicted_in(ls: Seq<Seq<char>>) -> Seq<Seq<char>>
    decreases ls.len(),
{
    if ls.len() == 0 {
        seq![]
    } else if line_kind(ls.last()) == LineKind::Unmerged {
        conflicted_in(ls.drop_last()).push(split_limited(ls.last(), 11, ' ').last())
    } else {
        conflicted_in(ls.drop_last())
    }
}

/// What a line tells, by its beginning.
fn kind_of(line: &str) -> (k: LineKind)
    ensures
        k == line_kind(line@),
{
    if starts_with(line, "# branch.head ") {
        LineKind::Head
    } else if starts_with(line, "# branch.ab ") {
        LineKind::AheadBehind
    } else if starts_with(line, "1 ") {
        LineKind::Ordinary
    } else if starts_with(line, "2 ") {
        LineKind::Rename
    } else if starts_with(line, "u ") {
        LineKind::Unmerged
    } else if starts_with(line, "? ") {
        LineKind::Untracked
    } else {
        LineKind::Other
    }
}

/// The codes and the path of the change that a line tells of.
fn change_of(line: &str, kind: LineKind) -> (r: Option<(String, String)>)
    requires
        kind == line_kind(line@),
    ensures
        match r {
            Some(c) => change(line@) == Some(Change { codes: c.0@, path: c.1@ }),
            None => change(line@) is None,
        },
{
    if kind == LineKind::Ordinary {
        let fields: Vec<String> = split_at_most(line, 9, ' ');
        proof {
            assert(texts(fields@).len() == fields@.len());
        }
        if fields.len() >= 9 {
            Some((owned(fields[1].as_str()), owned(fields[8].as_str())))
        } else {
            None
        }
    } else if kind == LineKind::Rename {
        let fields: Vec<String> = split_at_most(line, 10, ' ');
        proof {
            assert(texts(fields@).len() == fields@.len());
        }
        if fields.len() >= 10 {
            let paths: Vec<String> = split_on(fields[9].as_str(), '\t');
            proof {
                assert(texts(paths@)[0] == paths@[0]@);
            }
            Some((owned(fields[1].as_str()), owned(paths[0].as_str())))
        } else {
            None
        }
    } else {
        None
    }
}

/// The number behind the last word that begins with `sign`, else `before`.
fn counter_of(ws: &Vec<String>, sign: char, before: i64) -> (n: i64)
    ensures
        n == counter(texts(ws@), sign, before as int),
{
    let mut n: i64 = before;
    let mut i: usize = 0;
    while i < ws.len()
        invariant
            i <= ws@.len(),
            n == counter(texts(ws@).take(i as int), sign, before as int),
        decreases ws.len() - i,
    {
        let word: Vec<char> = text::chars_of(ws[i].as_str());
        proof {
            let t = texts(ws@).take(i + 1);
            assert(t.drop_last() =~= texts(ws@).take(i as int));
            assert(t.last() == ws@[i as int]@);
        }
        if word.len() > 0 && word[0] == sign {
            let digits: String = after(ws[i].as_str(), 1);
            n = i64_or_zero(digits.as_str());
        }
        i = i + 1;
    }
    proof {
        assert(texts(ws@).take(ws@.len() as int) =~= texts(ws@));
    }
    n
}

impl GitStatusInfo {
    /// This is the status that an output of git tells of.
    pub open spec fn tells(self, output: Seq<char>) -> bool {
        let ls = lines(output);
        &&& self.branch@ == branch_in(ls)
        &&& self.ahead == counter_in(ls, '+')
        &&& self.behind == counter_in(ls, '-')
        &&& texts(self.staged@) == staged_in(ls)
        &&& texts(self.modified@) == modified_in(ls)
        &&& texts(self.untracked@) == untracked_in(ls)
        &&& texts(self.conflicted@) == conflicted_in(ls)
        &&& self.dirty == (staged_in(ls).len() > 0 || modified_in(ls).len() > 0 || untracked_in(
            ls,
        ).len() > 0 || conflicted_in(ls).len() > 0)
    }
}

/// Parse `git status --porcelain=v2 --branch` output into structured data.
#[verifier::rlimit(30)]
pub fn parse_git_porcelain_v2(output: &str) -> (r: GitStatusInfo)
    ensures
        r.tells(output@),
{
    let ls: Vec<String> = split_lines(output);
    let ghost all = texts(ls@);
    let mut branch: String = owned("(unknown)");
    let mut ahead: i64 = 0;
    let mut behind: i64 = 0;
    let mut staged: Vec<String> = Vec::new();
    let mut modified: Vec<String> = Vec::new();
    let mut untracked: Vec<String> = Vec::new();
    let mut conflicted: Vec<String> = Vec::new();
    let mut i: usize = 0;
    proof {
        assert(all.take(0) =~= seq![]);
        assert(texts(staged@) =~= seq![]);
        assert(texts(modified@) =~= seq![]);
        assert(texts(untracked@) =~= seq![]);
        assert(texts(conflicted@) =~= seq![]);
    }
    while i < ls.len()
        invariant
            i <= ls@.len(),
            all == texts(ls@),
            branch@ == branch_in(all.take(i as int)),
            ahead == counter_in(all.take(i as int), '+'),
            behind == counter_in(all.take(i as int), '-'),
            texts(staged@) == staged_in(all.take(i as int)),
            texts(modified@) == modified_in(all.take(i as int)),
            texts(untracked@) == untracked_in(all.take(i as int)),
            texts(conflicted@) == conflicted_in(all.take(i as int)),
        decreases ls.len() - i,
    {
        let line: &str = ls[i].as_str();
        proof {
            let t = all.take(i + 1);
            assert(t.drop_last() =~= all.take(i as int));
            assert(t.last() == line@);
        }
        let kind: LineKind = kind_of(line);
        proof {
            reveal_strlit("# branch.head ");
            reveal_strlit("# branch.ab ");
            reveal_strlit("? ");
        }
        if kind == LineKind::Head {
            branch = after(line, 14);
        } else if kind == LineKind::AheadBehind {
            let rest: String = after(line, 12);
            let ws: Vec<String> = split_words(rest.as_str());
            ahead = counter_of(&ws, '+', ahead);
            behind = counter_of(&ws, '-', behind);
        } else if kind == LineKind::Unmerged {
            let fields: Vec<String> = split_at_most(line, 11, ' ');
            let path: String = owned(fields[fields.len() - 1].as_str());
            proof {
                assert(texts(fields@).last() == path@);
                lemma_texts_push(conflicted@, path);
            }
            conflicted.push(path);
        } else if kind == LineKind::Untracked {
            let path: String = after(line, 2);
            proof {
                lemma_texts_push(untracked@, path);
            }
            untracked.push(path);
        } else {
            match change_of(line, kind) {
                Some(c) => {
                    let codes: &[u8] = c.0.as_str().as_bytes();
                    if codes.len() >= 1 && codes[0] != 46 {
                        let path: String = owned(c.1.as_str());
                        proof {
                            lemma_texts_push(staged@, path);
                        }
                        staged.push(path);
                    }
                    if codes.len() >= 2 && codes[1] != 46 {
                        let path: String = owned(c.1.as_str());
                        proof {
                            lemma_texts_push(modified@, path);
                        }
                        modified.push(path);
                    }
                },
                None => {},
            }
        }
        i = i + 1;
    }
    proof {
        assert(all.take(ls@.len() as int) =~= all);
        assert(texts(staged@).len() == staged@.len());
        assert(texts(modified@).len() == modified@.len());
        assert(texts(untracked@).len() == untracked@.len());
        assert(texts(conflicted@).len() == conflicted@.len());
    }
    let dirty: bool = staged.len() > 0 || modified.len() > 0 || untracked.len() > 0
        || conflicted.len() > 0;
    GitStatusInfo { branch, ahead, behind, staged, modified, untracked, conflicted, dirty }
}

// ---------------------------------------------------------------------------
// Shared by the tools
// ---------------------------------------------------------------------------

/// A shell command for a workspace.
pub fn exec(workspace: u128, command: String, timeout_secs: u64) -> (r: Request)
    ensures
        r == (Request::Exec { workspace, command, timeout_secs }),
{
    Request::Exec { workspace, command, timeout_secs }
}

/// A message that tells of a timeout.
pub open spec fn tells_timeout(message: Seq<char>) -> bool {
    contains_text(message, "timed out"@) || contains_text(message, "Timeout"@)
}

/// Whether a message tells of a timeout.
pub fn is_timeout(message: &str) -> (r: bool)
    ensures
        r == tells_timeout(message@),
{
    contains(message, "timed out") || contains(message, "Timeout")
}

/// The message about a git command that ended with an error.
pub open spec fn failure(what: Seq<char>, o: Output) -> Seq<char> {
    what + " failed (exit code "@ + signed(o.code) + "): "@ + trim(complaint(o))
}

/// The error about a git command that ended with an error.
fn failed(what: &str, o: &ExecReply) -> (e: ToolError)
    ensures
        e@ == (ErrorKind::InvalidRequest, failure(what@, o@)),
{
    let code: String = signed_of(o.exit_code);
    let detail: String = trimmed(complaint_of(o));
    invalid_request(cat5(what, " failed (exit code ", code.as_str(), "): ", detail.as_str()))
}

/// A git command in a repository.
pub open spec fn git_in(path: Seq<char>, rest: Seq<char>) -> Seq<char> {
    "git -C "@ + quote(path) + rest
}

/// A git command in a repository.
pub fn git_command(path: &str, rest: &str) -> (r: String)
    ensures
        r@ == git_in(path@, rest@),
{
    let p: String = shell_escape(path);
    cat3("git -C ", p.as_str(), rest)
}

// ---------------------------------------------------------------------------
// git_clone
// ---------------------------------------------------------------------------

/// Where a clone stands.
#[derive(Clone, Copy, Debug, PartialEq, Eq, Structural)]
pub enum CloneStage {
    /// `git clone` runs.
    Cloning,
    /// The commit that was checked out is being read.
    ReadingHead,
}

/// The result of a clone.
#[derive(Debug)]
pub struct GitCloneOutcome {
    pub path: String,
    pub commit_sha: String,
    pub url: String,
    pub branch: Option<String>,
    pub depth: Option<u32>,
}

/// `git clone` with the options that are given.
pub open spec fn clone_options(depth: Option<u32>, branch: Option<String>) -> Seq<char> {
    let a = "git clone"@;
    let b = match depth {
        Some(d) => a + " --depth "@ + decimal(d as nat),
        None => a,
    };
    match branch {
        Some(name) => b + " --branch "@ + quote(name@),
        None => b,
    }
}

impl GitCloneParams {
    /// The directory to clone into.
    pub open spec fn dest(self) -> Seq<char> {
        text_or(self.path, "/workspace"@)
    }

    /// The command that clones.
    pub open spec fn command(self) -> Seq<char> {
        clone_options(self.depth, self.branch) + " "@ + quote(self.url@) + " "@ + quote(self.dest())
    }

    /// The command that clones.
    fn command_text(&self) -> (r: String)
        ensures
            r@ == self.command(),
    {
        let mut cmd: String = owned("git clone");
        match self.depth {
            Some(d) => {
                cmd.append(" --depth ");
                let n: String = decimal_of(d as u64);
                cmd.append(n.as_str());
            },
            None => {},
        }
        match &self.branch {
            Some(name) => {
                cmd.append(" --branch ");
                let q: String = shell_escape(name.as_str());
                cmd.append(q.as_str());
            },
            None => {},
        }
        let url: String = shell_escape(self.url.as_str());
        let dest: String = shell_escape(str_or(&self.path, "/workspace"));
        cmd.append(" ");
        cmd.append(url.as_str());
        cmd.append(" ");
        cmd.append(dest.as_str());
        cmd
    }

    /// Begin a clone into a workspace: the URL must be valid.
    pub fn start(&self, workspace: u128) -> (r: Next<CloneStage, GitCloneOutcome>)
        ensures
            match git_url_problem(self.url@) {
                Some(message) => r.fails(ErrorKind::InvalidParams, message),
                None => r.runs(workspace, self.command(), 300) && r->stage == CloneStage::Cloning,
            },
    {
        match validate_git_url(self.url.as_str()) {
            Err(e) => Next::Fail(e),
            Ok(()) => Next::Run {
                request: exec(workspace, self.command_text(), 300),
                stage: CloneStage::Cloning,
            },
        }
    }

    /// Go on with a clone after a reply. A clone that succeeded is reported as
    /// such even if its commit cannot be read.
    pub fn step(&self, workspace: u128, stage: CloneStage, reply: &Result<ExecReply, String>) -> (r:
        Next<CloneStage, GitCloneOutcome>)
        ensures
            stage == CloneStage::Cloning ==> match reply_view(*reply) {
                Err(message) => if tells_timeout(message) {
                    r.fails(
                        ErrorKind::InvalidRequest,
                        "git clone timed out after 300s. The repository may be very large; try using depth=1 for a shallow clone, or use exec_background for manual control."@,
                    )
                } else {
                    r.fails(ErrorKind::InvalidRequest, message)
                },
                Ok(o) => if o.code != 0 {
                    r.fails(ErrorKind::InvalidRequest, failure("git clone"@, o))
                } else {
                    r.runs(workspace, git_in(self.dest(), " rev-parse HEAD"@), 10) && r->stage
                        == CloneStage::ReadingHead
                },
            },
            stage == CloneStage::ReadingHead ==> {
                &&& r is Done
                &&& r->Done_0.path@ == self.dest()
                &&& r->Done_0.commit_sha@ == output_or_empty(reply_view(*reply))
                &&& r->Done_0.url@ == self.url@
                &&& opt_text(r->Done_0.branch) == opt_text(self.branch)
                &&& r->Done_0.depth == self.depth
            },
    {
        match stage {
            CloneStage::Cloning => match reply {
                Err(e) => if is_timeout(e.as_str()) {
                    Next::Fail(
                        invalid_request(
                            owned(
                                "git clone timed out after 300s. The repository may be very large; try using depth=1 for a shallow clone, or use exec_background for manual control.",
                            ),
                        ),
                    )
                } else {
                    Next::Fail(invalid_request(owned(e.as_str())))
                },
                Ok(o) => if o.exit_code != 0 {
                    Next::Fail(failed("git clone", o))
                } else {
                    Next::Run {
                        request: exec(
                            workspace,
                            git_command(str_or(&self.path, "/workspace"), " rev-parse HEAD"),
                            10,
                        ),
                        stage: CloneStage::ReadingHead,
                    }
                },
            },
            CloneStage::ReadingHead => Next::Done(
                GitCloneOutcome {
                    path: owned(str_or(&self.path, "/workspace")),
                    commit_sha: trimmed_output(reply),
                    url: owned(self.url.as_str()),
                    branch: self.branch.clone(),
                    depth: self.depth,
                },
            ),
        }
    }
}

// ---------------------------------------------------------------------------
// git_status
// ---------------------------------------------------------------------------

/// The result of a status call.
#[derive(Debug)]
pub enum GitStatusOutcome {
    /// The status of the repository.
    Status(GitStatusInfo),
    /// There is no repository at the path.
    NotARepository { message: String },
}

impl GitStatusParams {
    /// The repository.
    pub open spec fn repo(self) -> Seq<char> {
        text_or(self.path, "/workspace"@)
    }

    /// The command that reads the status.
    pub fn start(&self, workspace: u128) -> (r: Request)
        ensures
            r@ == (RequestView::Exec {
                workspace,
                command: git_in(self.repo(), " status --porcelain=v2 --branch 2>&1"@),
                timeout_secs: 30,
            }),
    {
        exec(
            workspace,
            git_command(
                str_or(&self.path, "/workspace"),
                " status --porcelain=v2 --branch 2>&1",
            ),
            30,
        )
    }

    /// The result of a status call. That there is no repository is a result,
    /// not an error.
    pub fn finish(&self, reply: &Result<ExecReply, String>) -> (r: Result<
        GitStatusOutcome,
        ToolError,
    >)
        ensures
            match reply_view(*reply) {
                Err(message) => r is Err && r->Err_0@ == (ErrorKind::InvalidRequest, message),
                Ok(o) => if o.code == 0 {
                    r is Ok && r->Ok_0 is Status && r->Ok_0->Status_0.tells(o.out)
                } else if contains_text(complaint(o), "not a git repository"@) {
                    r is Ok && r->Ok_0 is NotARepository && r->Ok_0->message@ == "'"@ + self.repo()
                        + "' is not a git repository. Run 'git init' or 'git clone' first."@
                } else {
                    r is Err && r->Err_0@ == (
                        ErrorKind::InvalidRequest,
                        failure("git status"@, o),
                    )
                },
            },
    {
        match reply {
            Err(e) => Err(invalid_request(owned(e.as_str()))),
            Ok(o) => if o.exit_code == 0 {
                Ok(GitStatusOutcome::Status(parse_git_porcelain_v2(o.stdout.as_str())))
            } else if contains(complaint_of(o), "not a git repository") {
                Ok(
                    GitStatusOutcome::NotARepository {
                        message: cat3(
                            "'",
                            str_or(&self.path, "/workspace"),
                            "' is not a git repository. Run 'git init' or 'git clone' first.",
                        ),
                    },
                )
            } else {
                Err(failed("git status", o))
            },
        }
    }
}

// ---------------------------------------------------------------------------
// git_commit
// ---------------------------------------------------------------------------

/// Where a commit stands.
#[derive(Debug)]
pub enum CommitStage {
    /// All changes are being staged.
    Adding,
    /// `git commit` runs.
    Committing,
    /// The new commit is being read.
    ReadingSha,
    /// The summary line of the new commit is being read.
    ReadingSummary { commit_sha: String },
    /// The current branch is being read.
    ReadingBranch { commit_sha: String, summary: String },
}

/// The result of a commit.
#[derive(Debug)]
pub enum GitCommitOutcome {
    /// The working tree was clean.
    NothingToCommit,
    /// A commit was made.
    Committed { commit_sha: String, short_sha: String, branch: String, summary: String },
}

/// The contents of a [`CommitStage`].
pub enum CommitStageView {
    Adding,
    Committing,
    ReadingSha,
    ReadingSummary { commit_sha: Seq<char> },
    ReadingBranch { commit_sha: Seq<char>, summary: Seq<char> },
}

impl View for CommitStage {
    type V = CommitStageView;

    open spec fn view(&self) -> CommitStageView {
        match self {
            CommitStage::Adding => CommitStageView::Adding,
            CommitStage::Committing => CommitStageView::Committing,
            CommitStage::ReadingSha => CommitStageView::ReadingSha,
            CommitStage::ReadingSummary { commit_sha } => CommitStageView::ReadingSummary {
                commit_sha: commit_sha@,
            },
            CommitStage::ReadingBranch { commit_sha, summary } => CommitStageView::ReadingBranch {
                commit_sha: commit_sha@,
                summary: summary@,
            },
        }
    }
}

/// The contents of a [`GitCommitOutcome`].
pub enum CommitView {
    NothingToCommit,
    Committed {
        commit_sha: Seq<char>,
        short_sha: Seq<char>,
        branch: Seq<char>,
        summary: Seq<char>,
    },
}

impl View for GitCommitOutcome {
    type V = CommitView;

    open spec fn view(&self) -> CommitView {
        match self {
            GitCommitOutcome::NothingToCommit => CommitView::NothingToCommit,
            GitCommitOutcome::Committed { commit_sha, short_sha, branch, summary } =>
            CommitView::Committed {
                commit_sha: commit_sha@,
                short_sha: short_sha@,
                branch: branch@,
                summary: summary@,
            },
        }
    }
}

/// The branch that `git branch --show-current` names.
pub open spec fn branch_shown(reply: Result<Output, Seq<char>>) -> Seq<char> {
    if !succeeded(reply) {
        "(unknown)"@
    } else if trim(reply->Ok_0.out).len() == 0 {
        "(detached HEAD)"@
    } else {
        trim(reply->Ok_0.out)
    }
}

impl GitCommitParams {
    /// The repository.
    pub open spec fn repo(self) -> Seq<char> {
        text_or(self.path, "/workspace"@)
    }

    /// The command that commits. An author counts only if both the name and the
    /// email are given.
    pub open spec fn command(self) -> Seq<char> {
        let a = "git -C "@ + quote(self.repo());
        match (self.author_name, self.author_email) {
            (Some(name), Some(email)) => a + " -c user.name="@ + quote(name@) + " -c user.email="@
                + quote(email@) + " commit -m "@ + quote(self.message@) + " --author="@ + quote(
                name@ + " <"@ + email@ + ">"@,
            ),
            _ => a + " commit -m "@ + quote(self.message@),
        }
    }

    /// The command that commits.
    fn command_text(&self) -> (r: String)
        ensures
            r@ == self.command(),
    {
        let repo: String = shell_escape(str_or(&self.path, "/workspace"));
        let message: String = shell_escape(self.message.as_str());
        let mut cmd: String = cat2("git -C ", repo.as_str());
        match (&self.author_name, &self.author_email) {
            (Some(name), Some(email)) => {
                let n: String = shell_escape(name.as_str());
                let e: String = shell_escape(email.as_str());
                let author: String = cat4(name.as_str(), " <", email.as_str(), ">");
                let a: String = shell_escape(author.as_str());
                cmd.append(" -c user.name=");
                cmd.append(n.as_str());
                cmd.append(" -c user.email=");
                cmd.append(e.as_str());
                cmd.append(" commit -m ");
                cmd.append(message.as_str());
                cmd.append(" --author=");
                cmd.append(a.as_str());
            },
            _ => {
                cmd.append(" commit -m ");
                cmd.append(message.as_str());
            },
        }
        cmd
    }

    /// Begin a commit: stage all changes first unless told not to.
    pub fn start(&self, workspace: u128) -> (r: Next<CommitStage, GitCommitOutcome>)
        ensures
            if flag_or(self.add_all, true) {
                r.runs(workspace, git_in(self.repo(), " add -A"@), 30) && r->stage@
                    == CommitStageView::Adding
            } else {
                r.runs(workspace, self.command(), 30) && r->stage@ == CommitStageView::Committing
            },
    {
        let add_all: bool = match self.add_all {
            Some(b) => b,
            None => true,
        };
        if add_all {
            Next::Run {
                request: exec(
                    workspace,
                    git_command(str_or(&self.path, "/workspace"), " add -A"),
                    30,
                ),
                stage: CommitStage::Adding,
            }
        } else {
            Next::Run {
                request: exec(workspace, self.command_text(), 30),
                stage: CommitStage::Committing,
            }
        }
    }

    /// Go on with a commit after a reply. That there is nothing to commit is a
    /// result, not an error; once the commit is made, nothing fails any more.
    pub fn step(&self, workspace: u128, stage: CommitStage, reply: &Result<ExecReply, String>) -> (r:
        Next<CommitStage, GitCommitOutcome>)
        ensures
            match stage@ {
                CommitStageView::Adding => match reply_view(*reply) {
                    Err(message) => r.fails(ErrorKind::InvalidRequest, message),
                    Ok(o) => if o.code != 0 {
                        r.fails(ErrorKind::InvalidRequest, failure("git add -A"@, o))
                    } else {
                        r.runs(workspace, self.command(), 30) && r->stage@
                            == CommitStageView::Committing
                    },
                },
                CommitStageView::Committing => match reply_view(*reply) {
                    Err(message) => r.fails(ErrorKind::InvalidRequest, message),
                    Ok(o) => if o.code == 0 {
                        r.runs(workspace, git_in(self.repo(), " rev-parse HEAD"@), 10) && r->stage@
                            == CommitStageView::ReadingSha
                    } else if contains_text(o.out + "\n"@ + o.err, "nothing to commit"@) {
                        r is Done && r->Done_0@ == CommitView::NothingToCommit
                    } else {
                        r.fails(ErrorKind::InvalidRequest, failure("git commit"@, o))
                    },
                },
                CommitStageView::ReadingSha => r.runs(
                    workspace,
                    git_in(self.repo(), " log -1 --format='%h %s'"@),
                    10,
                ) && r->stage@ == (CommitStageView::ReadingSummary {
                    commit_sha: output_or_empty(reply_view(*reply)),
                }),
                CommitStageView::ReadingSummary { commit_sha } => r.runs(
                    workspace,
                    git_in(self.repo(), " branch --show-current"@),
                    10,
                ) && r->stage@ == (CommitStageView::ReadingBranch {
                    commit_sha,
                    summary: output_or_empty(reply_view(*reply)),
                }),
                CommitStageView::ReadingBranch { commit_sha, summary } => r is Done && r->Done_0@
                    == (CommitView::Committed {
                    commit_sha,
                    short_sha: cut(commit_sha, 7),
                    branch: branch_shown(reply_view(*reply)),
                    summary,
                }),
            },
    {
        let path: &str = str_or(&self.path, "/workspace");
        match stage {
            CommitStage::Adding => match reply {
                Err(e) => Next::Fail(invalid_request(owned(e.as_str()))),
                Ok(o) => if o.exit_code != 0 {
                    Next::Fail(failed("git add -A", o))
                } else {
                    Next::Run {
                        request: exec(workspace, self.command_text(), 30),
                        stage: CommitStage::Committing,
                    }
                },
            },
            CommitStage::Committing => match reply {
                Err(e) => Next::Fail(invalid_request(owned(e.as_str()))),
                Ok(o) => if o.exit_code == 0 {
                    Next::Run {
                        request: exec(workspace, git_command(path, " rev-parse HEAD"), 10),
                        stage: CommitStage::ReadingSha,
                    }
                } else {
                    let both: String = cat3(o.stdout.as_str(), "\n", o.stderr.as_str());
                    if contains(both.as_str(), "nothing to commit") {
                        Next::Done(GitCommitOutcome::NothingToCommit)
                    } else {
                        Next::Fail(failed("git commit", o))
                    }
                },
            },
            CommitStage::ReadingSha => Next::Run {
                request: exec(workspace, git_command(path, " log -1 --format='%h %s'"), 10),
                stage: CommitStage::ReadingSummary { commit_sha: trimmed_output(reply) },
            },
            CommitStage::ReadingSummary { commit_sha } => Next::Run {
                request: exec(workspace, git_command(path, " branch --show-current"), 10),
                stage: CommitStage::ReadingBranch { commit_sha, summary: trimmed_output(reply) },
            },
            CommitStage::ReadingBranch { commit_sha, summary } => {
                let short_sha: String = cut_to(commit_sha.as_str(), 7);
                let branch: String = match reply {
                    Ok(o) => if o.exit_code == 0 {
                        let b: String = trimmed(o.stdout.as_str());
                        if b.as_str().is_empty() {
                            owned("(detached HEAD)")
                        } else {
                            b
                        }
                    } else {
                        owned("(unknown)")
                    },
                    Err(_) => owned("(unknown)"),
                };
                Next::Done(GitCommitOutcome::Committed { commit_sha, short_sha, branch, summary })
            },
        }
    }
}

// ---------------------------------------------------------------------------
// git_push
// ---------------------------------------------------------------------------

/// Where a push stands.
#[derive(Debug)]
pub enum PushStage {
    /// The current branch is being read.
    DetectingBranch,
    /// `git push` runs for a branch.
    Pushing { branch: String },
}

/// The result of a push.
#[derive(Debug)]
pub struct GitPushOutcome {
    pub remote: String,
    pub branch: String,
    pub output: String,
}

/// Advice about a failed push, by what git said.
pub open spec fn push_advice(detail: Seq<char>) -> Seq<char> {
    if contains_text(detail, "Authentication"@) || contains_text(detail, "authentication"@)
        || contains_text(detail, "could not read Username"@) || contains_text(
        detail,
        "terminal prompts disabled"@,
    ) {
        " Suggestion: use set_env to configure git credentials (e.g. GIT_ASKPASS, GITHUB_TOKEN) or inject an SSH key."@
    } else if contains_text(detail, "No configured push destination"@) || contains_text(
        detail,
        "No such remote"@,
    ) {
        " Suggestion: configure a remote first with exec(command=\"git -C /workspace remote add origin <url>\")."@
    } else if contains_text(detail, "non-fast-forward"@) || contains_text(detail, "rejected"@)
        || contains_text(detail, "fetch first"@) {
        " Suggestion: pull/merge first, or use force=true to force push."@
    } else {
        ""@
    }
}

/// Advice about a failed push, by what git said.
fn push_advice_of(detail: &str) -> (r: &'static str)
    ensures
        r@ == push_advice(detail@),
{
    if contains(detail, "Authentication") || contains(detail, "authentication") || contains(
        detail,
        "could not read Username",
    ) || contains(detail, "terminal prompts disabled") {
        " Suggestion: use set_env to configure git credentials (e.g. GIT_ASKPASS, GITHUB_TOKEN) or inject an SSH key."
    } else if contains(detail, "No configured push destination") || contains(
        detail,
        "No such remote",
    ) {
        " Suggestion: configure a remote first with exec(command=\"git -C /workspace remote add origin <url>\")."
    } else if contains(detail, "non-fast-forward") || contains(detail, "rejected") || contains(
        detail,
        "fetch first",
    ) {
        " Suggestion: pull/merge first, or use force=true to force push."
    } else {
        ""
    }
}

impl GitPushParams {
    /// The repository.
    pub open spec fn repo(self) -> Seq<char> {
        text_or(self.path, "/workspace"@)
    }

    /// How long the push may take.
    pub open spec fn timeout(self) -> u64 {
        match self.timeout_secs {
            Some(t) => t,
            None => 120,
        }
    }

    /// How long the push may take.
    fn timeout_or_default(&self) -> (t: u64)
        ensures
            t == self.timeout(),
    {
        match self.timeout_secs {
            Some(t) => t,
            None => 120,
        }
    }

    /// The command that pushes a branch.
    pub open spec fn command(self, branch: Seq<char>) -> Seq<char> {
        let a = git_in(self.repo(), " push"@);
        let b = if flag_or(self.force, false) {
            a + " --force"@
        } else {
            a
        };
        let c = if flag_or(self.set_upstream, false) {
            b + " -u"@
        } else {
            b
        };
        c + " "@ + quote(text_or(self.remote, "origin"@)) + " "@ + quote(branch)
    }

    /// The command that pushes a branch.
    fn command_text(&self, branch: &str) -> (r: String)
        ensures
            r@ == self.command(branch@),
    {
        let mut cmd: String = git_command(str_or(&self.path, "/workspace"), " push");
        if self.force == Some(true) {
            cmd.append(" --force");
        }
        if self.set_upstream == Some(true) {
            cmd.append(" -u");
        }
        let remote: String = shell_escape(str_or(&self.remote, "origin"));
        let b: String = shell_escape(branch);
        cmd.append(" ");
        cmd.append(remote.as_str());
        cmd.append(" ");
        cmd.append(b.as_str());
        cmd
    }

    /// Begin a push: find out the current branch unless one is given.
    pub fn start(&self, workspace: u128) -> (r: Next<PushStage, GitPushOutcome>)
        ensures
            match self.branch {
                Some(branch) => r.runs(workspace, self.command(branch@), self.timeout())
                    && r->stage is Pushing && r->stage->branch@ == branch@,
                None => r.runs(workspace, git_in(self.repo(), " branch --show-current"@), 10)
                    && r->stage is DetectingBranch,
            },
    {
        match &self.branch {
            Some(branch) => Next::Run {
                request: exec(
                    workspace,
                    self.command_text(branch.as_str()),
                    self.timeout_or_default(),
                ),
                stage: PushStage::Pushing { branch: owned(branch.as_str()) },
            },
            None => Next::Run {
                request: exec(
                    workspace,
                    git_command(str_or(&self.path, "/workspace"), " branch --show-current"),
                    10,
                ),
                stage: PushStage::DetectingBranch,
            },
        }
    }

    /// The result of a push that ended with `exit_code` and left `output`,
    /// which holds no credentials any more.
    pub fn finish(&self, branch: &str, exit_code: i32, output: &str) -> (r: Result<
        GitPushOutcome,
        ToolError,
    >)
        ensures
            if exit_code == 0 {
                &&& r is Ok
                &&& r->Ok_0.remote@ == text_or(self.remote, "origin"@)
                &&& r->Ok_0.branch@ == branch@
                &&& r->Ok_0.output@ == trim(output@)
            } else {
                r is Err && r->Err_0@ == (
                    ErrorKind::InvalidRequest,
                    "git push failed (exit code "@ + signed(exit_code as int) + "): "@ + trim(
                        output@,
                    ) + "."@ + push_advice(trim(output@)),
                )
            },
    {
        let detail: String = trimmed(output);
        if exit_code == 0 {
            Ok(
                GitPushOutcome {
                    remote: owned(str_or(&self.remote, "origin")),
                    branch: owned(branch),
                    output: detail,
                },
            )
        } else {
            let code: String = signed_of(exit_code);
            let advice: &str = push_advice_of(detail.as_str());
            Err(
                invalid_request(
                    cat6(
                        "git push failed (exit code ",
                        code.as_str(),
                        "): ",
                        detail.as_str(),
                        ".",
                        advice,
                    ),
                ),
            )
        }
    }

    /// Go on with a push after a reply. What git printed is shown only with
    /// credentials redacted.
    pub fn step(&self, workspace: u128, stage: PushStage, reply: &Result<ExecReply, String>) -> (r:
        Next<PushStage, GitPushOutcome>)
        ensures
            match stage {
                PushStage::DetectingBranch => match reply_view(*reply) {
                    Err(message) => r.fails(ErrorKind::InvalidRequest, message),
                    Ok(o) => if o.code != 0 || trim(o.out).len() == 0 {
                        r.fails(
                            ErrorKind::InvalidRequest,
                            "Could not detect current branch. You may be in a detached HEAD state. Specify the branch explicitly with the 'branch' parameter."@,
                        )
                    } else {
                        r.runs(workspace, self.command(trim(o.out)), self.timeout())
                            && r->stage is Pushing && r->stage->branch@ == trim(o.out)
                    },
                },
                PushStage::Pushing { branch } => match reply_view(*reply) {
                    Err(message) => if tells_timeout(message) {
                        r.fails(
                            ErrorKind::InvalidRequest,
                            "git push timed out after "@ + decimal(self.timeout() as nat)
                                + "s. Try increasing timeout_secs."@,
                        )
                    } else {
                        r.fails(ErrorKind::InvalidRequest, message)
                    },
                    Ok(o) => {
                        let output = redacted(o.out + "\n"@ + o.err);
                        if o.code == 0 {
                            &&& r is Done
                            &&& r->Done_0.remote@ == text_or(self.remote, "origin"@)
                            &&& r->Done_0.branch@ == branch@
                            &&& r->Done_0.output@ == trim(output)
                        } else {
                            r.fails(
                                ErrorKind::InvalidRequest,
                                "git push failed (exit code "@ + signed(o.code) + "): "@ + trim(
                                    output,
                                ) + "."@ + push_advice(trim(output)),
                            )
                        }
                    },
                },
            },
    {
        match stage {
            PushStage::DetectingBranch => match reply {
                Err(e) => Next::Fail(invalid_request(owned(e.as_str()))),
                Ok(o) => {
                    let branch: String = trimmed(o.stdout.as_str());
                    if o.exit_code != 0 || branch.as_str().is_empty() {
                        Next::Fail(
                            invalid_request(
                                owned(
                                    "Could not detect current branch. You may be in a detached HEAD state. Specify the branch explicitly with the 'branch' parameter.",
                                ),
                            ),
                        )
                    } else {
                        Next::Run {
                            request: exec(
                                workspace,
                                self.command_text(branch.as_str()),
                                self.timeout_or_default(),
                            ),
                            stage: PushStage::Pushing { branch },
                        }
                    }
                },
            },
            PushStage::Pushing { branch } => match reply {
                Err(e) => if is_timeout(e.as_str()) {
                    let t: String = decimal_of(self.timeout_or_default());
                    Next::Fail(
                        invalid_request(
                            cat3(
                                "git push timed out after ",
                                t.as_str(),
                                "s. Try increasing timeout_secs.",
                            ),
                        ),
                    )
                } else {
                    Next::Fail(invalid_request(owned(e.as_str())))
                },
                Ok(o) => {
                    let both: String = cat3(o.stdout.as_str(), "\n", o.stderr.as_str());
                    let output: String = redact_credentials(both.as_str());
                    match self.finish(branch.as_str(), o.exit_code, output.as_str()) {
                        Ok(outcome) => Next::Done(outcome),
                        Err(e) => Next::Fail(e),
                    }
                },
            },
        }
    }
}

// ---------------------------------------------------------------------------
// git_diff
// ---------------------------------------------------------------------------

/// Where a diff stands.
#[derive(Debug)]
pub enum DiffStage {
    /// `git diff` runs.
    Diffing,
    /// The stat summary for a diff is being read.
    ReadingStat { diff: String, truncated: bool },
}

/// The result of a diff.
#[derive(Debug)]
pub struct GitDiffOutcome {
    pub diff: String,
    pub truncated: bool,
    pub stat: Option<String>,
}

/// A diff cut to a byte limit, with a mark where something was cut off.
pub open spec fn diff_shown(out: Seq<char>, limit: nat) -> Seq<char> {
    if byte_size(out) > limit {
        cut(out, limit as int) + "[TRUNCATED]"@
    } else {
        out
    }
}

impl GitDiffParams {
    /// The repository.
    pub open spec fn repo(self) -> Seq<char> {
        text_or(self.path, "/workspace"@)
    }

    /// How many bytes of the diff are shown at most.
    pub open spec fn limit(self) -> nat {
        match self.max_bytes {
            Some(n) => n as nat,
            None => 65536,
        }
    }

    /// The command that prints the diff, or its stat summary.
    pub open spec fn command(self, stat: bool) -> Seq<char> {
        let a = git_in(self.repo(), " diff"@);
        let b = if flag_or(self.staged, false) {
            a + " --staged"@
        } else {
            a
        };
        let c = if stat {
            b + " --stat"@
        } else {
            b
        };
        match self.file_path {
            Some(file) => c + " -- "@ + quote(file@),
            None => c,
        }
    }

    /// The command that prints the diff, or its stat summary.
    fn command_text(&self, stat: bool) -> (r: String)
        ensures
            r@ == self.command(stat),
    {
        let mut cmd: String = git_command(str_or(&self.path, "/workspace"), " diff");
        if self.staged == Some(true) {
            cmd.append(" --staged");
        }
        if stat {
            cmd.append(" --stat");
        }
        match &self.file_path {
            Some(file) => {
                let f: String = shell_escape(file.as_str());
                cmd.append(" -- ");
                cmd.append(f.as_str());
            },
            None => {},
        }
        cmd
    }

    /// The first command of a diff.
    pub fn start(&self, workspace: u128) -> (r: Next<DiffStage, GitDiffOutcome>)
        ensures
            r.runs(workspace, self.command(flag_or(self.stat, false)), 30),
            r->stage is Diffing,
    {
        Next::Run {
            request: exec(workspace, self.command_text(self.stat == Some(true)), 30),
            stage: DiffStage::Diffing,
        }
    }

    /// Go on with a diff after a reply. Unless only the stat summary was asked
    /// for, it is read as well; where that fails it is left out.
    pub fn step(&self, workspace: u128, stage: DiffStage, reply: &Result<ExecReply, String>) -> (r:
        Next<DiffStage, GitDiffOutcome>)
        ensures
            match stage {
                DiffStage::Diffing => match reply_view(*reply) {
                    Err(message) => r.fails(ErrorKind::InvalidRequest, message),
                    Ok(o) => if o.code != 0 {
                        r.fails(ErrorKind::InvalidRequest, failure("git diff"@, o))
                    } else if flag_or(self.stat, false) {
                        &&& r is Done
                        &&& r->Done_0.diff@ == diff_shown(o.out, self.limit())
                        &&& r->Done_0.truncated == (byte_size(o.out) > self.limit())
                        &&& opt_text(r->Done_0.stat) == Some(diff_shown(o.out, self.limit()))
                    } else {
                        r.runs(workspace, self.command(true), 30)
                            && r->stage is ReadingStat && r->stage->diff@ == diff_shown(
                            o.out,
                            self.limit(),
                        ) && r->stage->truncated == (byte_size(o.out) > self.limit())
                    },
                },
                DiffStage::ReadingStat { diff, truncated } => {
                    &&& r is Done
                    &&& r->Done_0.diff@ == diff@
                    &&& r->Done_0.truncated == truncated
                    &&& opt_text(r->Done_0.stat) == if succeeded(reply_view(*reply)) {
                        Some(trim(reply_view(*reply)->Ok_0.out))
                    } else {
                        None
                    }
                },
            },
    {
        match stage {
            DiffStage::Diffing => match reply {
                Err(e) => Next::Fail(invalid_request(owned(e.as_str()))),
                Ok(o) => if o.exit_code != 0 {
                    Next::Fail(failed("git diff", o))
                } else {
                    let limit: usize = match self.max_bytes {
                        Some(n) => n,
                        None => 65536,
                    };
                    let truncated: bool = byte_len(o.stdout.as_str()) > limit;
                    let diff: String = if truncated {
                        let head: String = cut_to(o.stdout.as_str(), limit);
                        cat2(head.as_str(), "[TRUNCATED]")
                    } else {
                        owned(o.stdout.as_str())
                    };
                    if self.stat == Some(true) {
                        let stat: Option<String> = Some(owned(diff.as_str()));
                        Next::Done(GitDiffOutcome { diff, truncated, stat })
                    } else {
                        Next::Run {
                            request: exec(workspace, self.command_text(true), 30),
                            stage: DiffStage::ReadingStat { diff, truncated },
                        }
                    }
                },
            },
            DiffStage::ReadingStat { diff, truncated } => {
                let stat: Option<String> = match reply {
                    Ok(o) => if o.exit_code == 0 {
                        Some(trimmed(o.stdout.as_str()))
                    } else {
                        None
                    },
                    Err(_) => None,
                };
                Next::Done(GitDiffOutcome { diff, truncated, stat })
            },
        }
    }
}

} // verus!
