//! Validation and text helpers shared by the tools.

use crate::mcp::error::{
    internal_error, invalid_params, invalid_request, ErrorKind, ToolError,
};
use crate::number::{decimal, decimal_of, parse_nat, parse_unsigned};
use crate::text;
use crate::text::{
    after, byte_len, byte_size, cat2, cat3, cat4, cat5, chars_of, contains, contains_text, cut,
    cut_to, owned, replace, replaced, same, starts_with, texts,
};
use vstd::prelude::*;
use vstd::string::*;

verus! {

// ---------------------------------------------------------------------------
// Shell quoting
// ---------------------------------------------------------------------------

/// A text as one word of a shell command: in single quotes, with each single
/// quote inside it written as `'\''`.
pub open spec fn quote(s: Seq<char>) -> Seq<char> {
    "'"@ + replace(s, "'"@, "'\\''"@) + "'"@
}

/// Escape a string for safe use in a shell command.
pub fn shell_escape(s: &str) -> (r: String)
    ensures
        r@ == quote(s@),
{
    proof {
        reveal_strlit("'");
    }
    let inner: (String, usize) = replaced(s, "'", "'\\''");
    cat3("'", inner.0.as_str(), "'")
}

/// How a POSIX shell reads a word that consists of single-quoted pieces and of
/// characters behind a backslash: the text that the word stands for, or `None`
/// where a quote stays open or a character stands unprotected.
pub open spec fn shell_word(s: Seq<char>, quoted: bool) -> Option<Seq<char>>
    decreases s.len(),
{
    if s.len() == 0 {
        if quoted {
            None
        } else {
            Some(seq![])
        }
    } else if s[0] == '\'' {
        shell_word(s.skip(1), !quoted)
    } else if quoted {
        match shell_word(s.skip(1), true) {
            Some(w) => Some(seq![s[0]] + w),
            None => None,
        }
    } else if s[0] == '\\' && s.len() >= 2 {
        match shell_word(s.skip(2), false) {
            Some(w) => Some(seq![s[1]] + w),
            None => None,
        }
    } else {
        None
    }
}

/// The shell reads an escaped text as one word, and that word is the text.
pub proof fn law_shell_escape_is_one_word(s: Seq<char>)
    ensures
        shell_word(quote(s), false) == Some(s),
{
    reveal_strlit("'");
    let inner = replace(s, "'"@, "'\\''"@) + "'"@;
    assert(quote(s).skip(1) =~= inner);
    lemma_quoted_inner(s);
}

/// Inside the opening quote, the escaped text reads as the text.
proof fn lemma_quoted_inner(s: Seq<char>)
    ensures
        shell_word(replace(s, "'"@, "'\\''"@) + "'"@, true) == Some(s),
    decreases s.len(),
{
    reveal_strlit("'");
    reveal_strlit("'\\''");
    let q = "'"@;
    let e = "'\\''"@;
    let w = replace(s, q, e) + q;
    if s.len() == 0 {
        assert(w =~= q);
        assert(w.skip(1) =~= seq![]);
        assert(shell_word(w.skip(1), false) == Some(Seq::<char>::empty()));
        assert(s =~= seq![]);
    } else {
        let rest = replace(s.skip(1), q, e) + q;
        lemma_quoted_inner(s.skip(1));
        if s[0] == '\'' {
            assert(s.subrange(0, 1) =~= q);
            assert(q.is_prefix_of(s));
            assert(w =~= e + rest);
            let w1 = w.skip(1);
            assert(w1[0] == '\\' && w1[1] == '\'');
            let w3 = w1.skip(2);
            assert(w3[0] == '\'');
            assert(w3.skip(1) =~= rest);
            assert(shell_word(w3, false) == Some(s.skip(1)));
            assert(shell_word(w1, false) == Some(seq!['\''] + s.skip(1)));
            assert(seq!['\''] + s.skip(1) =~= s);
        } else {
            assert(!q.is_prefix_of(s)) by {
                if q.is_prefix_of(s) {
                    assert(s.subrange(0, 1)[0] == q[0]);
                }
            }
            assert(w =~= seq![s[0]] + rest);
            assert(w.skip(1) =~= rest);
            assert(seq![s[0]] + s.skip(1) =~= s);
        }
    }
}

// ---------------------------------------------------------------------------
// Names
// ---------------------------------------------------------------------------

/// The characters that names of images and snapshots are made of: ASCII
/// letters and digits, underscore, hyphen and dot.
pub open spec fn is_name_char(c: char) -> bool {
    ||| 'a' <= c <= 'z'
    ||| 'A' <= c <= 'Z'
    ||| '0' <= c <= '9'
    ||| c == '_'
    ||| c == '-'
    ||| c == '.'
}

/// Every character is a name character.
pub open spec fn is_plain(s: Seq<char>) -> bool {
    forall|i: int| 0 <= i < s.len() ==> is_name_char(#[trigger] s[i])
}

/// The characters that are not name characters, in order.
pub open spec fn odd_chars(s: Seq<char>) -> Seq<char>
    decreases s.len(),
{
    if s.len() == 0 {
        seq![]
    } else if is_name_char(s.last()) {
        odd_chars(s.drop_last())
    } else {
        odd_chars(s.drop_last()).push(s.last())
    }
}

/// Whether a character is a name character.
pub fn name_char(c: char) -> (r: bool)
    ensures
        r == is_name_char(c),
{
    ('a' <= c && c <= 'z') || ('A' <= c && c <= 'Z') || ('0' <= c && c <= '9') || c == '_' || c
        == '-' || c == '.'
}

/// The characters of a string that are not name characters.
pub fn odd_chars_of(s: &str) -> (r: Vec<char>)
    ensures
        r@ == odd_chars(s@),
        r@.len() == 0 <==> is_plain(s@),
{
    let v: Vec<char> = chars_of(s);
    let mut out: Vec<char> = Vec::new();
    let mut i: usize = 0;
    while i < v.len()
        invariant
            v@ == s@,
            i <= v@.len(),
            out@ == odd_chars(v@.take(i as int)),
            out@.len() == 0 <==> is_plain(v@.take(i as int)),
        decreases v.len() - i,
    {
        proof {
            let t = v@.take(i + 1);
            assert(t.drop_last() =~= v@.take(i as int));
            assert(t.last() == v@[i as int]);
            if is_plain(t) {
                assert(is_plain(v@.take(i as int))) by {
                    assert forall|k: int| 0 <= k < i implies is_name_char(
                        #[trigger] v@.take(i as int)[k],
                    ) by {
                        assert(t[k] == v@.take(i as int)[k]);
                    }
                }
                assert(is_name_char(t[i as int]));
            }
            if is_plain(v@.take(i as int)) && is_name_char(v@[i as int]) {
                assert forall|k: int| 0 <= k < t.len() implies is_name_char(#[trigger] t[k]) by {
                    if k < i {
                        assert(t[k] == v@.take(i as int)[k]);
                    }
                }
            }
        }
        if !name_char(v[i]) {
            out.push(v[i]);
        }
        i = i + 1;
    }
    proof {
        assert(v@.take(v@.len() as int) =~= v@);
    }
    out
}

/// Why a base image name is refused, if it is.
pub open spec fn base_image_problem(name: Seq<char>) -> Option<Seq<char>> {
    if name.len() == 0 {
        Some("base_image must not be empty"@)
    } else if byte_size(name) > 128 {
        Some(
            "base_image name too long: "@ + decimal(byte_size(name)) + " chars (max 128)"@,
        )
    } else if !is_plain(name) {
        Some(
            "base_image '"@ + name
                + "' contains invalid characters (allowed: alphanumeric, -, _, .)"@,
        )
    } else if contains_text(name, ".."@) {
        Some("base_image '"@ + name + "' contains path traversal"@)
    } else {
        None
    }
}

/// Validate that a base image name contains only safe characters and no path
/// traversal.
pub fn validate_base_image(name: &str) -> (r: Result<(), ToolError>)
    ensures
        match base_image_problem(name@) {
            None => r is Ok,
            Some(message) => r is Err && r->Err_0@ == (ErrorKind::InvalidParams, message),
        },
{
    if name.is_empty() {
        return Err(invalid_params(owned("base_image must not be empty")));
    }
    let size: usize = byte_len(name);
    if size > 128 {
        let n: String = decimal_of(size as u64);
        return Err(
            invalid_params(cat3("base_image name too long: ", n.as_str(), " chars (max 128)")),
        );
    }
    let odd: Vec<char> = odd_chars_of(name);
    if odd.len() > 0 {
        return Err(
            invalid_params(
                cat3(
                    "base_image '",
                    name,
                    "' contains invalid characters (allowed: alphanumeric, -, _, .)",
                ),
            ),
        );
    }
    if contains(name, "..") {
        return Err(invalid_params(cat3("base_image '", name, "' contains path traversal")));
    }
    Ok(())
}

/// What the `Debug` form of a list of characters looks like.
pub uninterp spec fn debug_chars(v: Seq<char>) -> Seq<char>;

/// The `Debug` form of a `Vec<char>`, as `format!("{:?}", ..)` writes it. The
/// contract says only that it is a function of the characters.
#[verifier::external_body]
fn debug_of_chars(v: &Vec<char>) -> (r: String)
    ensures
        r@ == debug_chars(v@),
{
    format!("{:?}", v)
}

/// The message about a snapshot name with characters that are not allowed.
pub open spec fn odd_snapshot_name(name: Seq<char>, listing: Seq<char>) -> Seq<char> {
    "snapshot name '"@ + name + "' contains invalid character(s): "@ + listing
        + ". Allowed: letters (a-z, A-Z), digits (0-9), underscores (_), hyphens (-), and dots (.)."@
}

/// The error about a snapshot name whose characters `listing` are not allowed.
pub fn snapshot_name_error(name: &str, listing: &str) -> (e: ToolError)
    ensures
        e@ == (ErrorKind::InvalidParams, odd_snapshot_name(name@, listing@)),
{
    invalid_params(
        cat5(
            "snapshot name '",
            name,
            "' contains invalid character(s): ",
            listing,
            ". Allowed: letters (a-z, A-Z), digits (0-9), underscores (_), hyphens (-), and dots (.).",
        ),
    )
}

/// A snapshot name is accepted if it is not empty and holds name characters
/// only.
pub open spec fn is_snapshot_name(name: Seq<char>) -> bool {
    name.len() > 0 && is_plain(name)
}

/// Validate that a snapshot name contains only safe characters.
pub fn validate_snapshot_name(name: &str) -> (r: Result<(), ToolError>)
    ensures
        r is Ok <==> is_snapshot_name(name@),
        name@.len() == 0 ==> r is Err && r->Err_0@ == (
            ErrorKind::InvalidParams,
            "snapshot name must not be empty"@,
        ),
        name@.len() > 0 && !is_plain(name@) ==> r is Err && r->Err_0@ == (
            ErrorKind::InvalidParams,
            odd_snapshot_name(name@, debug_chars(odd_chars(name@))),
        ),
{
    if name.is_empty() {
        return Err(invalid_params(owned("snapshot name must not be empty")));
    }
    let odd: Vec<char> = odd_chars_of(name);
    if odd.len() > 0 {
        let listing: String = debug_of_chars(&odd);
        return Err(snapshot_name_error(name, listing.as_str()));
    }
    Ok(())
}

// ---------------------------------------------------------------------------
// File modes
// ---------------------------------------------------------------------------

/// A mode without its octal marker: `0o`, or else one leading zero.
pub open spec fn octal_digits(s: Seq<char>) -> Seq<char> {
    if "0o"@.is_prefix_of(s) {
        s.skip(2)
    } else if s.len() > 0 && s[0] == '0' {
        s.skip(1)
    } else {
        s
    }
}

/// Parse an octal mode string (e.g. "0644", "755").
pub fn parse_octal_mode(s: &str) -> (r: Result<u32, ToolError>)
    ensures
        match parse_nat(octal_digits(s@), 8, u32::MAX as nat) {
            Some(n) => r == Ok::<u32, ToolError>(n as u32),
            None => r is Err && r->Err_0@ == (
                ErrorKind::InvalidParams,
                "invalid octal mode '"@ + s@ + "'. Use octal notation like \"0644\"."@,
            ),
        },
{
    proof {
        reveal_strlit("0o");
    }
    let v: Vec<char> = chars_of(s);
    let stripped: String = if starts_with(s, "0o") {
        after(s, 2)
    } else if v.len() > 0 && v[0] == '0' {
        after(s, 1)
    } else {
        owned(s)
    };
    match parse_unsigned(stripped.as_str(), 8, u32::MAX as u64) {
        Some(n) => Ok(n as u32),
        None => Err(
            invalid_params(
                cat3("invalid octal mode '", s, "'. Use octal notation like \"0644\"."),
            ),
        ),
    }
}

// ---------------------------------------------------------------------------
// Output limits
// ---------------------------------------------------------------------------

/// A text cut to a byte limit, with a notice where something was cut off.
pub open spec fn truncation(s: Seq<char>, limit: nat) -> Seq<char> {
    if byte_size(s) <= limit {
        s
    } else {
        cut(s, limit as int) + "\n[TRUNCATED: "@ + decimal(byte_size(s))
            + " bytes total, showing first "@ + decimal(byte_size(cut(s, limit as int)))
            + " bytes]"@
    }
}

/// Truncate a string to a byte limit, appending a notice if truncated. The cut
/// never falls inside a character.
pub fn truncate_output(s: String, limit: usize) -> (r: String)
    ensures
        r@ == truncation(s@, limit as nat),
{
    let total: usize = byte_len(s.as_str());
    if total <= limit {
        return s;
    }
    let head: String = cut_to(s.as_str(), limit);
    let shown: usize = byte_len(head.as_str());
    let t: String = decimal_of(total as u64);
    let n: String = decimal_of(shown as u64);
    let mut out: String = cat4(
        head.as_str(),
        "\n[TRUNCATED: ",
        t.as_str(),
        " bytes total, showing first ",
    );
    out.append(n.as_str());
    out.append(" bytes]");
    out
}

// ---------------------------------------------------------------------------
// Host paths
// ---------------------------------------------------------------------------

/// What became of a host path when its links and `..` were resolved.
#[derive(Debug)]
pub enum HostTarget {
    /// The path has no parent directory.
    NoParent,
    /// The path has no file name.
    NoFileName,
    /// The path, or for a new file its parent directory, cannot be resolved.
    Inaccessible(String),
    /// The components of the resolved path.
    At(Vec<String>),
}

/// Decide whether a host path may be used for a transfer.
///
/// `root` holds the components of the resolved transfer directory, or why it
/// cannot be resolved; `shown_dir` is the directory as it is configured. If
/// `must_exist`, the path itself was resolved; else its parent was, and the
/// file name was put behind it.
pub fn validate_host_path_in_dir(
    root: Result<Vec<String>, String>,
    target: HostTarget,
    shown_dir: &str,
    must_exist: bool,
) -> (r: Result<Vec<String>, ToolError>)
    ensures
        match root {
            Err(e) => r is Err && r->Err_0@ == (
                ErrorKind::Internal,
                "transfer directory not accessible: "@ + e@,
            ),
            Ok(dir) => match target {
                HostTarget::NoParent => r is Err && r->Err_0@ == (
                    ErrorKind::InvalidRequest,
                    "host_path has no parent directory"@,
                ),
                HostTarget::NoFileName => r is Err && r->Err_0@ == (
                    ErrorKind::InvalidRequest,
                    "host_path has no file name"@,
                ),
                HostTarget::Inaccessible(e) => r is Err && r->Err_0@ == (
                    ErrorKind::InvalidRequest,
                    (if must_exist {
                        "host path not accessible: "@
                    } else {
                        "host path parent directory not accessible: "@
                    }) + e@,
                ),
                HostTarget::At(path) => if texts(dir@).is_prefix_of(texts(path@)) {
                    r == Ok::<Vec<String>, ToolError>(path)
                } else {
                    r is Err && r->Err_0@ == (
                        ErrorKind::InvalidRequest,
                        "host_path must be within transfer directory: "@ + shown_dir@,
                    )
                },
            },
        },
{
    let dir: Vec<String> = match root {
        Err(e) => {
            return Err(internal_error(cat2("transfer directory not accessible: ", e.as_str())));
        },
        Ok(dir) => dir,
    };
    match target {
        HostTarget::NoParent => Err(invalid_request(owned("host_path has no parent directory"))),
        HostTarget::NoFileName => Err(invalid_request(owned("host_path has no file name"))),
        HostTarget::Inaccessible(e) => if must_exist {
            Err(invalid_request(cat2("host path not accessible: ", e.as_str())))
        } else {
            Err(invalid_request(cat2("host path parent directory not accessible: ", e.as_str())))
        },
        HostTarget::At(path) => if is_below(&dir, &path) {
            Ok(path)
        } else {
            Err(
                invalid_request(cat2("host_path must be within transfer directory: ", shown_dir)),
            )
        },
    }
}

/// Whether the components of one path begin with those of another.
pub fn is_below(dir: &Vec<String>, path: &Vec<String>) -> (r: bool)
    ensures
        r == texts(dir@).is_prefix_of(texts(path@)),
{
    if dir.len() > path.len() {
        return false;
    }
    let mut i: usize = 0;
    while i < dir.len()
        invariant
            i <= dir@.len() <= path@.len(),
            forall|k: int| 0 <= k < i ==> dir@[k]@ == path@[k]@,
        decreases dir.len() - i,
    {
        if !same(dir[i].as_str(), path[i].as_str()) {
            proof {
                if texts(dir@).is_prefix_of(texts(path@)) {
                    assert(texts(dir@)[i as int] == texts(path@).subrange(
                        0,
                        texts(dir@).len() as int,
                    )[i as int]);
                }
            }
            return false;
        }
        i = i + 1;
    }
    proof {
        assert(texts(dir@) =~= texts(path@).subrange(0, texts(dir@).len() as int));
    }
    true
}

// ---------------------------------------------------------------------------
// Workspace identifiers
// ---------------------------------------------------------------------------

/// The identifier that a text stands for, if it is a UUID in one of the usual
/// forms.
pub uninterp spec fn uuid_value(s: Seq<char>) -> Option<u128>;

/// `uuid::Uuid::parse_str`, with the identifier taken as a 128-bit number. The
/// contract says only that the result is a function of the text.
#[verifier::external_body]
fn parse_uuid(s: &str) -> (r: Option<u128>)
    ensures
        r == uuid_value(s@),
{
    uuid::Uuid::parse_str(s).ok().map(|u| u.as_u128())
}

/// A lower-case hexadecimal digit.
pub open spec fn hex_digit(d: nat) -> char {
    seq!['0', '1', '2', '3', '4', '5', '6', '7', '8', '9', 'a', 'b', 'c', 'd', 'e', 'f'][d as int]
}

/// The last `n` hexadecimal digits of a number, the highest first.
pub open spec fn hex_digits(id: nat, n: nat) -> Seq<char>
    decreases n,
{
    if n == 0 {
        seq![]
    } else {
        hex_digits(id / 16, (n - 1) as nat).push(hex_digit(id % 16))
    }
}

/// The hyphenated form of a UUID: its 32 hexadecimal digits in groups of 8, 4,
/// 4, 4 and 12.
pub open spec fn uuid_form(id: u128) -> Seq<char> {
    let h = hex_digits(id as nat, 32);
    h.subrange(0, 8) + seq!['-'] + h.subrange(8, 12) + seq!['-'] + h.subrange(12, 16) + seq!['-']
        + h.subrange(16, 20) + seq!['-'] + h.subrange(20, 32)
}

/// So many digits are as many characters.
proof fn lemma_hex_digits(id: nat, n: nat)
    ensures
        hex_digits(id, n).len() == n,
    decreases n,
{
    if n > 0 {
        lemma_hex_digits(id / 16, (n - 1) as nat);
    }
}

/// The `Display` form of a `uuid::Uuid` that is made by `Uuid::from_u128`: the
/// hyphenated form in lower case, with the highest digit of the number first.
#[verifier::external_body]
pub(crate) fn uuid_text(id: u128) -> (r: String)
    ensures
        r@ == uuid_form(id),
{
    uuid::Uuid::from_u128(id).to_string()
}

/// The first eight characters of the hyphenated form of a UUID.
pub open spec fn short_form(id: u128) -> Seq<char> {
    uuid_form(id).take(8)
}

/// The first eight characters of the hyphenated form of a UUID.
pub fn short_id(id: u128) -> (r: String)
    ensures
        r@ == short_form(id),
{
    let t: String = uuid_text(id);
    let v: Vec<char> = chars_of(t.as_str());
    proof {
        lemma_hex_digits(id as nat, 32);
        assert(v@.subrange(0, 8) =~= v@.take(8));
    }
    text::string_of(&v, 0, 8)
}

/// The workspace that an identifier names: `parsed` where it reads as a UUID,
/// else `named`, the workspace of that name.
pub fn choose_workspace(id_or_name: &str, parsed: Option<u128>, named: Option<u128>) -> (r: Result<
    u128,
    ToolError,
>)
    ensures
        match (parsed, named) {
            (Some(id), _) => r == Ok::<u128, ToolError>(id),
            (None, Some(id)) => r == Ok::<u128, ToolError>(id),
            (None, None) => r is Err && r->Err_0@ == (
                ErrorKind::InvalidRequest,
                "workspace '"@ + id_or_name@
                    + "' not found: not a valid UUID and no workspace with that name exists. Use workspace_list to see available workspaces and their IDs/names."@,
            ),
        },
{
    match parsed {
        Some(id) => Ok(id),
        None => match named {
            Some(id) => Ok(id),
            None => Err(
                invalid_request(
                    cat3(
                        "workspace '",
                        id_or_name,
                        "' not found: not a valid UUID and no workspace with that name exists. Use workspace_list to see available workspaces and their IDs/names.",
                    ),
                ),
            ),
        },
    }
}

/// Resolve a workspace identifier that may be either a UUID or a workspace
/// name; `named` is the workspace of that name, if there is one.
pub fn resolve_workspace_id(id_or_name: &str, named: Option<u128>) -> (r: Result<u128, ToolError>)
    ensures
        match (uuid_value(id_or_name@), named) {
            (Some(id), _) => r == Ok::<u128, ToolError>(id),
            (None, Some(id)) => r == Ok::<u128, ToolError>(id),
            (None, None) => r is Err && r->Err_0@ == (
                ErrorKind::InvalidRequest,
                "workspace '"@ + id_or_name@
                    + "' not found: not a valid UUID and no workspace with that name exists. Use workspace_list to see available workspaces and their IDs/names."@,
            ),
        },
{
    let parsed: Option<u128> = parse_uuid(id_or_name);
    choose_workspace(id_or_name, parsed, named)
}

} // verus!
