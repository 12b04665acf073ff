//! Notes of a markdown vault: metadata, tags, search and listings.

use crate::config::VaultConfig;
use crate::mcp::pattern::{
    compile, count_matches, first_groups, is_match, opt_texts, pattern_count, pattern_error,
    pattern_groups, pattern_matches, pattern_replaced, replace_all, source_of,
};
use crate::mcp::tools::is_below;
use crate::mcp::walk::{opt_parts, End, Outcome, Walk};
use crate::mcp::yaml::{
    find_key, key_place, key_value, lemma_key_place, lemma_map_view, lemma_seq_view, map_view,
    opt_yaml, parse_yaml, remove_key, render_yaml, seq_view, set_key, with_key, without_key,
    yaml_text, yaml_value, yaml_view, Entry, Yaml, YamlView,
};
use crate::number::{decimal, decimal_of};
use crate::text;
use crate::text::{
    byte_len, byte_size, cat2, cat3, cat4, cat5, chars_of, contains, contains_text, find,
    index_of, join, joined, lemma_texts_push, lines, opt_text, owned, replace, replaced, same,
    split, split_lines, split_on, starts_with, string_of, strip_repeated, texts,
    without_repeated_prefix,
};
use vstd::prelude::*;
use vstd::string::*;

verus! {

/// Maximum write size for vault notes (10 MiB).
pub const MAX_WRITE_BYTES: usize = 10_485_760;

/// A note with its metadata.
#[derive(Debug)]
pub struct VaultNote {
    /// Path relative to the vault root.
    pub path: String,
    /// Full file content (including frontmatter markers).
    pub content: String,
    /// Parsed frontmatter, if present.
    pub frontmatter: Option<Yaml>,
}

/// A single search hit.
#[derive(Debug)]
pub struct SearchResult {
    /// Path relative to the vault root.
    pub path: String,
    /// 1-based line number of the match.
    pub line_number: usize,
    /// The matching line.
    pub line: String,
    /// A few surrounding lines for context.
    pub context: String,
}

/// The contents of a [`SearchResult`].
pub struct HitView {
    pub path: Seq<char>,
    pub line_number: int,
    pub line: Seq<char>,
    pub context: Seq<char>,
}

impl View for SearchResult {
    type V = HitView;

    open spec fn view(&self) -> HitView {
        HitView {
            path: self.path@,
            line_number: self.line_number as int,
            line: self.line@,
            context: self.context@,
        }
    }
}

/// The contents of a list of hits.
pub open spec fn hits_view(v: Seq<SearchResult>) -> Seq<HitView> {
    Seq::new(v.len(), |i: int| v[i]@)
}

/// A directory entry.
#[derive(Debug)]
pub struct NoteEntry {
    /// Path relative to the vault root.
    pub path: String,
    /// Whether this entry is a directory.
    pub is_dir: bool,
    /// File size in bytes (None for directories).
    pub size: Option<u64>,
}

/// How a note is written.
#[derive(Clone, Copy, Debug, PartialEq, Eq, Structural)]
pub enum WriteMode {
    Overwrite,
    Append,
    Prepend,
}

// ---------------------------------------------------------------------------
// Frontmatter
// ---------------------------------------------------------------------------

/// The frontmatter text and the body of a note, if it begins with frontmatter:
/// `---`, the text, and `---` on a line of its own.
pub open spec fn fences(content: Seq<char>) -> Option<(Seq<char>, Seq<char>)> {
    if !"---\n"@.is_prefix_of(content) && !"---\r\n"@.is_prefix_of(content) {
        None
    } else {
        let rest = content.skip(4);
        match index_of(rest, "\n---\n"@, 0) {
            Some(i) => Some((rest.take(i), rest.skip(i + 5))),
            None => match index_of(rest, "\n---\r\n"@, 0) {
                Some(i) => Some((rest.take(i), rest.skip(i + 6))),
                None => if "\n---"@.is_suffix_of(rest) {
                    Some((rest.take(rest.len() - 4), seq![]))
                } else {
                    None
                },
            },
        }
    }
}

/// The metadata of a note, if it has any that can be read.
pub open spec fn metadata(content: Seq<char>) -> Option<YamlView> {
    match fences(content) {
        Some(parts) => yaml_value(parts.0),
        None => None,
    }
}

/// The body of a note.
pub open spec fn body_of(content: Seq<char>) -> Seq<char> {
    match fences(content) {
        Some(parts) => parts.1,
        None => content,
    }
}

/// The text without the newlines at its end.
pub open spec fn without_newlines(s: Seq<char>) -> Seq<char>
    decreases s.len(),
{
    if s.len() > 0 && s.last() == '\n' {
        without_newlines(s.drop_last())
    } else {
        s
    }
}

/// A note with frontmatter text.
pub open spec fn fenced(yaml: Seq<char>, body: Seq<char>) -> Seq<char> {
    "---\n"@ + without_newlines(yaml) + "\n---\n"@ + body
}

/// A note from its metadata and its body.
pub open spec fn rendered(fm: Option<YamlView>, body: Seq<char>) -> Seq<char> {
    match fm {
        Some(v) => fenced(
            match yaml_text(v) {
                Some(t) => t,
                None => seq![],
            },
            body,
        ),
        None => body,
    }
}

/// Split a note into its frontmatter text and its body.
pub fn split_fences(content: &str) -> (r: Option<(String, String)>)
    ensures
        match (r, fences(content@)) {
            (Some(x), Some(y)) => x.0@ == y.0 && x.1@ == y.1,
            (None, None) => true,
            _ => false,
        },
{
    proof {
        reveal_strlit("---\n");
        reveal_strlit("---\r\n");
        reveal_strlit("\n---\n");
        reveal_strlit("\n---\r\n");
        reveal_strlit("\n---");
    }
    if !starts_with(content, "---\n") && !starts_with(content, "---\r\n") {
        return None;
    }
    let all: Vec<char> = chars_of(content);
    let rest_text: String = string_of(&all, 4, all.len());
    proof {
        assert(rest_text@ =~= content@.skip(4));
    }
    let rest: Vec<char> = chars_of(rest_text.as_str());
    let unix: Vec<char> = chars_of("\n---\n");
    let dos: Vec<char> = chars_of("\n---\r\n");
    let last: Vec<char> = chars_of("\n---");
    let n: usize = rest.len();
    match find(&rest, &unix, 0) {
        Some(i) => {
            let yaml: String = string_of(&rest, 0, i);
            let body: String = string_of(&rest, i + 5, n);
            proof {
                assert(yaml@ =~= rest@.take(i as int));
                assert(body@ =~= rest@.skip(i + 5));
            }
            Some((yaml, body))
        },
        None => match find(&rest, &dos, 0) {
            Some(i) => {
                let yaml: String = string_of(&rest, 0, i);
                let body: String = string_of(&rest, i + 6, n);
                proof {
                    assert(yaml@ =~= rest@.take(i as int));
                    assert(body@ =~= rest@.skip(i + 6));
                }
                Some((yaml, body))
            },
            None => {
                if n >= 4 && text::matches_at(&rest, &last, n - 4) {
                    let yaml: String = string_of(&rest, 0, n - 4);
                    let body: String = String::new();
                    proof {
                        assert(yaml@ =~= rest@.take(n - 4));
                        assert(body@ =~= seq![]);
                        assert("\n---"@.is_suffix_of(rest@));
                    }
                    Some((yaml, body))
                } else {
                    proof {
                        if "\n---"@.is_suffix_of(rest@) {
                            assert(rest@.subrange(n - 4, n as int) =~= "\n---"@);
                        }
                    }
                    None
                }
            },
        },
    }
}

/// Parse the frontmatter of a note.
pub fn parse_frontmatter(content: &str) -> (r: Option<Yaml>)
    ensures
        opt_yaml(r) == metadata(content@),
{
    match split_fences(content) {
        Some(parts) => parse_yaml(parts.0.as_str()),
        None => None,
    }
}

/// Split a note into its metadata and its body.
pub fn split_frontmatter(content: &str) -> (r: (Option<Yaml>, String))
    ensures
        opt_yaml(r.0) == metadata(content@),
        r.1@ == body_of(content@),
{
    match split_fences(content) {
        Some(parts) => (parse_yaml(parts.0.as_str()), parts.1),
        None => (None, owned(content)),
    }
}

/// Put frontmatter text before a body.
pub fn put_fences(yaml: &str, body: &str) -> (r: String)
    ensures
        r@ == fenced(yaml@, body@),
{
    let v: Vec<char> = chars_of(yaml);
    let mut n: usize = v.len();
    proof {
        assert(v@.take(n as int) =~= v@);
    }
    while n > 0 && v[n - 1] == '\n'
        invariant
            n <= v@.len(),
            without_newlines(v@) == without_newlines(v@.take(n as int)),
        decreases n,
    {
        proof {
            let t = v@.take(n as int);
            assert(t.last() == v@[n - 1]);
            assert(t.drop_last() =~= v@.take(n - 1));
        }
        n = n - 1;
    }
    let trimmed: String = string_of(&v, 0, n);
    proof {
        let t = v@.take(n as int);
        assert(trimmed@ =~= t);
        if n > 0 {
            assert(t.last() == v@[n - 1]);
        }
    }
    cat4("---\n", trimmed.as_str(), "\n---\n", body)
}

/// Reconstruct a note from its metadata and its body.
pub fn render_with_frontmatter(fm: Option<&Yaml>, body: &str) -> (r: String)
    ensures
        r@ == rendered(
            match fm {
                Some(y) => Some(y@),
                None => None,
            },
            body@,
        ),
{
    match fm {
        Some(y) => match render_yaml(y) {
            Some(t) => put_fences(t.as_str(), body),
            None => {
                let empty: String = String::new();
                proof {
                    assert(empty@ =~= seq![]);
                }
                put_fences(empty.as_str(), body)
            },
        },
        None => owned(body),
    }
}

/// The metadata with a value for a key; none where it is no mapping.
pub open spec fn metadata_with(
    fm: Option<YamlView>,
    key: Seq<char>,
    value: YamlView,
) -> Option<YamlView> {
    match fm {
        None => Some(YamlView::Mapping(with_key(seq![], key, value))),
        Some(YamlView::Mapping(m)) => Some(YamlView::Mapping(with_key(m, key, value))),
        Some(_) => None,
    }
}

/// Set a key of metadata, which is created if absent.
pub fn set_metadata(fm: Option<Yaml>, key: &str, value: Yaml) -> (r: Result<Yaml, String>)
    ensures
        match metadata_with(opt_yaml(fm), key@, value@) {
            Some(v) => r is Ok && r->Ok_0@ == v,
            None => r is Err && r->Err_0@ == "frontmatter is not a YAML mapping"@,
        },
{
    let m: Vec<Entry> = match fm {
        None => Vec::new(),
        Some(y) => match y {
            Yaml::Mapping(m) => m,
            _ => {
                return Err(owned("frontmatter is not a YAML mapping"));
            },
        },
    };
    proof {
        if fm is None {
            assert(map_view(m@) =~= seq![]);
        }
    }
    Ok(Yaml::Mapping(set_key(m, key, value)))
}

/// The note after a key of its frontmatter is set.
pub fn set_frontmatter(content: &str, key: &str, value: Yaml) -> (r: Result<String, String>)
    ensures
        match metadata_with(metadata(content@), key@, value@) {
            Some(v) => r is Ok && r->Ok_0@ == rendered(Some(v), body_of(content@)),
            None => r is Err && r->Err_0@ == "frontmatter is not a YAML mapping"@,
        },
{
    let parts: (Option<Yaml>, String) = split_frontmatter(content);
    match set_metadata(parts.0, key, value) {
        Err(e) => Err(e),
        Ok(y) => Ok(render_with_frontmatter(Some(&y), parts.1.as_str())),
    }
}

/// The metadata without a key; none where no entry is left.
pub open spec fn metadata_without(v: YamlView, key: Seq<char>) -> Option<YamlView> {
    match v {
        YamlView::Mapping(m) => if without_key(m, key).len() == 0 {
            None
        } else {
            Some(YamlView::Mapping(without_key(m, key)))
        },
        _ => Some(v),
    }
}

/// Delete a key of metadata.
pub fn delete_metadata(fm: Yaml, key: &str) -> (r: Option<Yaml>)
    ensures
        opt_yaml(r) == metadata_without(fm@, key@),
{
    match fm {
        Yaml::Mapping(m) => {
            let rest: Vec<Entry> = remove_key(m, key);
            proof {
                lemma_map_view(rest@);
            }
            if rest.len() == 0 {
                None
            } else {
                Some(Yaml::Mapping(rest))
            }
        },
        _ => Some(fm),
    }
}

/// The note after a key of its frontmatter is deleted; `None` where the note
/// has no frontmatter and is left as it is.
pub fn delete_frontmatter(content: &str, key: &str) -> (r: Option<String>)
    ensures
        match metadata(content@) {
            Some(v) => r is Some && r->0@ == rendered(
                metadata_without(v, key@),
                body_of(content@),
            ),
            None => r is None,
        },
{
    let parts: (Option<Yaml>, String) = split_frontmatter(content);
    match parts.0 {
        None => None,
        Some(y) => match delete_metadata(y, key) {
            Some(rest) => Some(render_with_frontmatter(Some(&rest), parts.1.as_str())),
            None => Some(render_with_frontmatter(None, parts.1.as_str())),
        },
    }
}

// ---------------------------------------------------------------------------
// Tags
// ---------------------------------------------------------------------------

/// A list of tags with one more, unless it is there already.
pub open spec fn with_tag(tags: Seq<Seq<char>>, tag: Seq<char>) -> Seq<Seq<char>> {
    if tags.contains(tag) {
        tags
    } else {
        tags.push(tag)
    }
}

/// The texts of a sequence, each once.
pub open spec fn texts_in(s: Seq<YamlView>) -> Seq<Seq<char>>
    decreases s.len(),
{
    if s.len() == 0 {
        seq![]
    } else {
        match s.last() {
            YamlView::Text(t) => with_tag(texts_in(s.drop_last()), t),
            _ => texts_in(s.drop_last()),
        }
    }
}

/// A value without the tags that it stands under.
pub open spec fn untagged(v: YamlView) -> YamlView
    decreases v,
{
    match v {
        YamlView::Tagged(_, inner) => untagged(*inner),
        _ => v,
    }
}

/// The tags that metadata names.
pub open spec fn metadata_tags(fm: Option<YamlView>) -> Seq<Seq<char>> {
    match fm {
        Some(v) => match untagged(v) {
            YamlView::Mapping(m) => match key_value(m, "tags"@) {
                Some(YamlView::Sequence(s)) => texts_in(s),
                _ => seq![],
            },
            _ => seq![],
        },
        None => seq![],
    }
}

/// A line that begins or ends a code block.
pub open spec fn is_code_fence(line: Seq<char>) -> bool {
    "```"@.is_prefix_of(line)
}

/// After these lines, a code block is open.
pub open spec fn in_code(ls: Seq<Seq<char>>) -> bool
    decreases ls.len(),
{
    if ls.len() == 0 {
        false
    } else if is_code_fence(ls.last()) {
        !in_code(ls.drop_last())
    } else {
        in_code(ls.drop_last())
    }
}

/// Tags with those that were found on a line, without their hash marks.
pub open spec fn with_found(tags: Seq<Seq<char>>, found: Seq<Option<Seq<char>>>) -> Seq<Seq<char>>
    decreases found.len(),
{
    if found.len() == 0 {
        tags
    } else {
        match found.last() {
            Some(t) => with_tag(with_found(tags, found.drop_last()), strip_repeated(t, "#"@)),
            None => with_found(tags, found.drop_last()),
        }
    }
}

/// Tags with those that were found on lines outside code blocks.
pub open spec fn with_inline(
    tags: Seq<Seq<char>>,
    ls: Seq<Seq<char>>,
    found: Seq<Seq<Option<Seq<char>>>>,
) -> Seq<Seq<char>>
    decreases ls.len(),
{
    if ls.len() == 0 {
        tags
    } else {
        let before = with_inline(tags, ls.drop_last(), found);
        if is_code_fence(ls.last()) || in_code(ls.drop_last()) {
            before
        } else {
            with_found(before, found[ls.len() - 1])
        }
    }
}

/// The pattern of inline tags.
pub open spec fn tag_pattern() -> Seq<char> {
    "(?:^|[\\s(])(#[a-zA-Z][a-zA-Z0-9_/-]*)"@
}

/// What the tag pattern finds on each line.
pub open spec fn found_on(ls: Seq<Seq<char>>) -> Seq<Seq<Option<Seq<char>>>> {
    Seq::new(
        ls.len(),
        |i: int|
            if pattern_error(tag_pattern()) is None {
                pattern_groups(tag_pattern(), ls[i])
            } else {
                seq![]
            },
    )
}

/// The tags of a note: those in its metadata, then those in its body.
pub open spec fn tags_of(content: Seq<char>) -> Seq<Seq<char>> {
    let ls = lines(body_of(content));
    with_inline(metadata_tags(metadata(content)), ls, found_on(ls))
}

/// Whether a list of strings holds a text.
pub fn holds(v: &Vec<String>, s: &str) -> (r: bool)
    ensures
        r == texts(v@).contains(s@),
{
    let mut i: usize = 0;
    while i < v.len()
        invariant
            i <= v@.len(),
            forall|k: int| 0 <= k < i ==> (#[trigger] v@[k])@ != s@,
        decreases v.len() - i,
    {
        if same(v[i].as_str(), s) {
            proof {
                assert(texts(v@)[i as int] == s@);
            }
            return true;
        }
        i = i + 1;
    }
    proof {
        if texts(v@).contains(s@) {
            let k = choose|k: int| 0 <= k < texts(v@).len() && texts(v@)[k] == s@;
            assert(v@[k]@ == s@);
        }
    }
    false
}

/// Add a tag to a list unless it is there already.
fn add_unique(tags: Vec<String>, tag: &str) -> (r: Vec<String>)
    ensures
        texts(r@) == with_tag(texts(tags@), tag@),
{
    let mut r: Vec<String> = tags;
    if !holds(&r, tag) {
        let s: String = owned(tag);
        proof {
            lemma_texts_push(r@, s);
        }
        r.push(s);
    }
    r
}

/// A value without the tags that it stands under.
fn untag(y: &Yaml) -> (r: &Yaml)
    ensures
        r@ == untagged(y@),
    decreases y,
{
    match y {
        Yaml::Tagged(_, inner) => untag(inner),
        _ => y,
    }
}

/// The tags that metadata names.
pub fn tags_in_metadata(fm: &Option<Yaml>) -> (r: Vec<String>)
    ensures
        texts(r@) == metadata_tags(opt_yaml(*fm)),
{
    let mut out: Vec<String> = Vec::new();
    proof {
        assert(texts(out@) =~= seq![]);
    }
    match fm {
        None => out,
        Some(top) => {
            let y: &Yaml = untag(top);
            match y {
                Yaml::Mapping(m) => {
                    let i: usize = find_key(m, "tags");
                    proof {
                        lemma_map_view(m@);
                    }
                    if i == m.len() {
                        return out;
                    }
                    proof {
                        assert(map_view(m@)[i as int] == (
                            yaml_view(m@[i as int].key),
                            yaml_view(m@[i as int].value),
                        ));
                    }
                    match &m[i].value {
                        Yaml::Sequence(s) => {
                            proof {
                                lemma_seq_view(s@);
                            }
                            let mut k: usize = 0;
                            while k < s.len()
                                invariant
                                    k <= s@.len(),
                                    seq_view(s@).len() == s@.len(),
                                    forall|j: int|
                                        0 <= j < s@.len() ==> #[trigger] seq_view(s@)[j]
                                            == yaml_view(s@[j]),
                                    texts(out@) == texts_in(seq_view(s@).take(k as int)),
                                decreases s.len() - k,
                            {
                                proof {
                                    let t = seq_view(s@).take(k + 1);
                                    assert(t.drop_last() =~= seq_view(s@).take(k as int));
                                    assert(t.last() == seq_view(s@)[k as int]);
                                }
                                match &s[k] {
                                    Yaml::Text(t) => {
                                        out = add_unique(out, t.as_str());
                                    },
                                    _ => {},
                                }
                                k = k + 1;
                            }
                            proof {
                                assert(seq_view(s@).take(s@.len() as int) =~= seq_view(s@));
                            }
                            out
                        },
                        _ => out,
                    }
                },
                _ => out,
            }
        },
    }
}

/// The contents of what was found on each line.
pub open spec fn found_view(v: Seq<Vec<Option<String>>>) -> Seq<Seq<Option<Seq<char>>>> {
    Seq::new(v.len(), |i: int| opt_texts(v[i]@))
}

/// Add the tags that were found on the lines of a body. Code blocks are left
/// out.
pub fn collect_tags(tags: Vec<String>, ls: &Vec<String>, found: &Vec<Vec<Option<String>>>) -> (r:
    Vec<String>)
    requires
        found@.len() == ls@.len(),
    ensures
        texts(r@) == with_inline(texts(tags@), texts(ls@), found_view(found@)),
{
    let ghost start = texts(tags@);
    let ghost all = texts(ls@);
    let ghost f = found_view(found@);
    let mut out: Vec<String> = tags;
    let mut code: bool = false;
    let mut i: usize = 0;
    while i < ls.len()
        invariant
            i <= ls@.len(),
            found@.len() == ls@.len(),
            all == texts(ls@),
            f == found_view(found@),
            code == in_code(all.take(i as int)),
            texts(out@) == with_inline(start, all.take(i as int), f),
        decreases ls.len() - i,
    {
        proof {
            let t = all.take(i + 1);
            assert(t.drop_last() =~= all.take(i as int));
            assert(t.last() == ls@[i as int]@);
        }
        if starts_with(ls[i].as_str(), "```") {
            code = !code;
        } else if !code {
            let line: &Vec<Option<String>> = &found[i];
            let ghost before = texts(out@);
            let ghost fl = opt_texts(line@);
            let mut k: usize = 0;
            proof {
                assert(fl.take(0) =~= seq![]);
            }
            while k < line.len()
                invariant
                    k <= line@.len(),
                    fl == opt_texts(line@),
                    texts(out@) == with_found(before, fl.take(k as int)),
                decreases line.len() - k,
            {
                proof {
                    let t = fl.take(k + 1);
                    assert(t.drop_last() =~= fl.take(k as int));
                    assert(t.last() == opt_text(line@[k as int]));
                }
                match &line[k] {
                    Some(t) => {
                        let tag: String = without_repeated_prefix(t.as_str(), "#");
                        out = add_unique(out, tag.as_str());
                    },
                    None => {},
                }
                k = k + 1;
            }
            proof {
                assert(fl.take(line@.len() as int) =~= fl);
                assert(f[i as int] == fl);
            }
        }
        i = i + 1;
    }
    proof {
        assert(all.take(ls@.len() as int) =~= all);
    }
    out
}

/// Extract the tags of a note: those in its metadata and inline `#tag`s.
pub fn extract_tags(content: &str) -> (r: Vec<String>)
    ensures
        texts(r@) == tags_of(content@),
{
    let parts: (Option<Yaml>, String) = split_frontmatter(content);
    let tags: Vec<String> = tags_in_metadata(&parts.0);
    let ls: Vec<String> = split_lines(parts.1.as_str());
    let ghost all = texts(ls@);
    let mut found: Vec<Vec<Option<String>>> = Vec::new();
    let compiled: Result<regex::Regex, String> = compile(
        "(?:^|[\\s(])(#[a-zA-Z][a-zA-Z0-9_/-]*)",
    );
    let mut i: usize = 0;
    while i < ls.len()
        invariant
            i <= ls@.len(),
            all == texts(ls@),
            found@.len() == i,
            match compiled {
                Ok(re) => pattern_error(tag_pattern()) is None && source_of(&re) == tag_pattern(),
                Err(_) => pattern_error(tag_pattern()) is Some,
            },
            forall|k: int| 0 <= k < i ==> opt_texts((#[trigger] found@[k])@) == found_on(all)[k],
        decreases ls.len() - i,
    {
        let groups: Vec<Option<String>> = match &compiled {
            Ok(re) => first_groups(re, ls[i].as_str()),
            Err(_) => Vec::new(),
        };
        proof {
            if compiled is Err {
                assert(opt_texts(groups@) =~= seq![]);
            }
            assert(opt_texts(groups@) == found_on(all)[i as int]);
        }
        found.push(groups);
        i = i + 1;
    }
    proof {
        assert(found_view(found@) =~= found_on(all));
    }
    collect_tags(tags, &ls, &found)
}

/// A text value is in a sequence.
pub open spec fn has_text(s: Seq<YamlView>, t: Seq<char>) -> bool {
    s.contains(YamlView::Text(t))
}

/// The metadata with a tag. Where it is no mapping, or its tags are no
/// sequence, nothing changes.
pub open spec fn metadata_with_tag(fm: Option<YamlView>, tag: Seq<char>) -> YamlView {
    match fm {
        None => YamlView::Mapping(
            with_key(seq![], "tags"@, YamlView::Sequence(seq![YamlView::Text(tag)])),
        ),
        Some(YamlView::Mapping(m)) => match key_value(m, "tags"@) {
            None => YamlView::Mapping(
                with_key(m, "tags"@, YamlView::Sequence(seq![YamlView::Text(tag)])),
            ),
            Some(YamlView::Sequence(s)) => if has_text(s, tag) {
                YamlView::Mapping(m)
            } else {
                YamlView::Mapping(
                    with_key(m, "tags"@, YamlView::Sequence(s.push(YamlView::Text(tag)))),
                )
            },
            Some(_) => YamlView::Mapping(m),
        },
        Some(v) => v,
    }
}

/// Whether a sequence holds a text.
fn holds_text(s: &Vec<Yaml>, t: &str) -> (r: bool)
    ensures
        r == has_text(seq_view(s@), t@),
{
    proof {
        lemma_seq_view(s@);
    }
    let mut i: usize = 0;
    while i < s.len()
        invariant
            i <= s@.len(),
            seq_view(s@).len() == s@.len(),
            forall|j: int| 0 <= j < s@.len() ==> #[trigger] seq_view(s@)[j] == yaml_view(s@[j]),
            forall|j: int| 0 <= j < i ==> #[trigger] seq_view(s@)[j] != YamlView::Text(t@),
        decreases s.len() - i,
    {
        let found: bool = match &s[i] {
            Yaml::Text(x) => same(x.as_str(), t),
            _ => false,
        };
        proof {
            assert(seq_view(s@)[i as int] == yaml_view(s@[i as int]));
        }
        if found {
            return true;
        }
        i = i + 1;
    }
    false
}

/// Add a tag to metadata, which is created if absent.
pub fn add_tag_to_metadata(fm: Option<Yaml>, tag: &str) -> (r: Yaml)
    ensures
        r@ == metadata_with_tag(opt_yaml(fm), tag@),
{
    let top: Yaml = match fm {
        None => Yaml::Mapping(Vec::new()),
        Some(y) => y,
    };
    match top {
        Yaml::Mapping(m) => {
            let ghost before = map_view(m@);
            proof {
                lemma_map_view(m@);
                lemma_key_place(before, "tags"@);
                if fm is None {
                    assert(before =~= seq![]);
                }
            }
            let mut entries: Vec<Entry> = m;
            let i: usize = find_key(&entries, "tags");
            if i == entries.len() {
                let text: Yaml = Yaml::Text(owned(tag));
                let items: Vec<Yaml> = vec![text];
                proof {
                    assert(items@.drop_last() =~= seq![]);
                    assert(seq_view(items@.drop_last()) =~= seq![]);
                    assert(items@.last() == text);
                    assert(yaml_view(text) == YamlView::Text(tag@));
                    assert(seq_view(items@) =~= seq![YamlView::Text(tag@)]);
                }
                Yaml::Mapping(set_key(entries, "tags", Yaml::Sequence(items)))
            } else {
                proof {
                    assert(before[i as int] == (
                        yaml_view(entries@[i as int].key),
                        yaml_view(entries@[i as int].value),
                    ));
                }
                let add: bool = match &entries[i].value {
                    Yaml::Sequence(s) => !holds_text(s, tag),
                    _ => false,
                };
                if !add {
                    return Yaml::Mapping(entries);
                }
                let mut value: Yaml = Yaml::Null;
                core::mem::swap(&mut entries[i].value, &mut value);
                let ghost hollow = entries@;
                match value {
                    Yaml::Sequence(s) => {
                        let mut items: Vec<Yaml> = s;
                        let text: Yaml = Yaml::Text(owned(tag));
                        items.push(text);
                        proof {
                            assert(items@.drop_last() =~= s@);
                            assert(items@.last() == text);
                            assert(yaml_view(text) == YamlView::Text(tag@));
                            assert(seq_view(items@) =~= seq_view(s@).push(YamlView::Text(tag@)));
                            lemma_map_view(hollow);
                            lemma_hollow(before, map_view(hollow), "tags"@, i as int);
                            assert forall|k: int| 0 <= k < before.len() && k != i implies
                                #[trigger] map_view(hollow)[k] == before[k] by {
                                assert(hollow[k] == m@[k]);
                                assert(before[k] == (
                                    yaml_view(m@[k].key),
                                    yaml_view(m@[k].value),
                                ));
                            }
                            assert(map_view(hollow)[i as int].0 == before[i as int].0);
                            assert(with_key(
                                map_view(hollow),
                                "tags"@,
                                YamlView::Sequence(seq_view(items@)),
                            ) =~= with_key(
                                before,
                                "tags"@,
                                YamlView::Sequence(seq_view(items@)),
                            ));
                        }
                        Yaml::Mapping(set_key(entries, "tags", Yaml::Sequence(items)))
                    },
                    other => {
                        proof {
                            assert(false);
                        }
                        Yaml::Mapping(entries)
                    },
                }
            }
        },
        other => other,
    }
}

/// A mapping with another value in the place of a key has the key in the same
/// place.
proof fn lemma_hollow(
    a: Seq<(YamlView, YamlView)>,
    b: Seq<(YamlView, YamlView)>,
    key: Seq<char>,
    i: int,
)
    requires
        i == key_place(a, key),
        i < a.len(),
        a.len() == b.len(),
        forall|k: int| 0 <= k < a.len() ==> (#[trigger] a[k]).0 == b[k].0,
    ensures
        key_place(b, key) == i,
{
    lemma_key_place(a, key);
    assert forall|k: int| 0 <= k < i implies (#[trigger] b[k]).0 != YamlView::Text(key) by {
        assert(a[k].0 == b[k].0);
    }
    assert(a[i].0 == b[i].0);
    crate::mcp::yaml::lemma_key_place_is(b, key, i);
}

/// The note after a tag is added to its frontmatter.
pub fn add_tag(content: &str, tag: &str) -> (r: String)
    ensures
        r@ == rendered(
            Some(metadata_with_tag(metadata(content@), tag@)),
            body_of(content@),
        ),
{
    let parts: (Option<Yaml>, String) = split_frontmatter(content);
    let y: Yaml = add_tag_to_metadata(parts.0, tag);
    render_with_frontmatter(Some(&y), parts.1.as_str())
}

/// The values of a sequence but a text.
pub open spec fn drop_text(s: Seq<YamlView>, t: Seq<char>) -> Seq<YamlView>
    decreases s.len(),
{
    if s.len() == 0 {
        seq![]
    } else if s.last() == YamlView::Text(t) {
        drop_text(s.drop_last(), t)
    } else {
        drop_text(s.drop_last(), t).push(s.last())
    }
}

/// The metadata without a tag. Where it is no mapping, or its tags are no
/// sequence, nothing changes.
pub open spec fn metadata_without_tag(v: YamlView, tag: Seq<char>) -> YamlView {
    match v {
        YamlView::Mapping(m) => match key_value(m, "tags"@) {
            Some(YamlView::Sequence(s)) => YamlView::Mapping(
                with_key(m, "tags"@, YamlView::Sequence(drop_text(s, tag))),
            ),
            _ => v,
        },
        _ => v,
    }
}

/// The values of a sequence but a text.
fn retain_others(s: Vec<Yaml>, t: &str) -> (r: Vec<Yaml>)
    ensures
        seq_view(r@) == drop_text(seq_view(s@), t@),
{
    let ghost all = s@;
    let ghost view = seq_view(s@);
    let mut out: Vec<Yaml> = Vec::new();
    proof {
        lemma_seq_view(all);
        assert(view.take(0) =~= seq![]);
    }
    for y in it: s
        invariant
            it.seq() == all,
            view == seq_view(all),
            view.len() == all.len(),
            forall|j: int| 0 <= j < all.len() ==> #[trigger] view[j] == yaml_view(all[j]),
            seq_view(out@) == drop_text(view.take(it.index()), t@),
    {
        let ghost i = it.index();
        proof {
            let w = view.take(i + 1);
            assert(w.drop_last() =~= view.take(i));
            assert(w.last() == view[i]);
        }
        let drop: bool = match &y {
            Yaml::Text(x) => same(x.as_str(), t),
            _ => false,
        };
        if !drop {
            let ghost before = out@;
            out.push(y);
            proof {
                assert(out@.drop_last() =~= before);
                assert(out@.last() == y);
            }
        }
    }
    proof {
        assert(view.take(view.len() as int) =~= view);
    }
    out
}

/// Remove a tag from metadata.
pub fn remove_tag_from_metadata(fm: Yaml, tag: &str) -> (r: Yaml)
    ensures
        r@ == metadata_without_tag(fm@, tag@),
{
    match fm {
        Yaml::Mapping(m) => {
            let ghost before = map_view(m@);
            proof {
                lemma_map_view(m@);
                lemma_key_place(before, "tags"@);
            }
            let mut entries: Vec<Entry> = m;
            let i: usize = find_key(&entries, "tags");
            if i == entries.len() {
                return Yaml::Mapping(entries);
            }
            proof {
                assert(before[i as int] == (
                    yaml_view(entries@[i as int].key),
                    yaml_view(entries@[i as int].value),
                ));
            }
            let is_list: bool = match &entries[i].value {
                Yaml::Sequence(_) => true,
                _ => false,
            };
            if !is_list {
                return Yaml::Mapping(entries);
            }
            let mut value: Yaml = Yaml::Null;
            core::mem::swap(&mut entries[i].value, &mut value);
            let ghost hollow = entries@;
            match value {
                Yaml::Sequence(s) => {
                    let items: Vec<Yaml> = retain_others(s, tag);
                    proof {
                        lemma_map_view(hollow);
                        assert forall|k: int| 0 <= k < before.len() && k != i implies
                            #[trigger] map_view(hollow)[k] == before[k] by {
                            assert(hollow[k] == m@[k]);
                            assert(before[k] == (yaml_view(m@[k].key), yaml_view(m@[k].value)));
                        }
                        assert(map_view(hollow)[i as int].0 == before[i as int].0);
                        lemma_hollow(before, map_view(hollow), "tags"@, i as int);
                        assert(with_key(
                            map_view(hollow),
                            "tags"@,
                            YamlView::Sequence(seq_view(items@)),
                        ) =~= with_key(before, "tags"@, YamlView::Sequence(seq_view(items@))));
                    }
                    Yaml::Mapping(set_key(entries, "tags", Yaml::Sequence(items)))
                },
                other => {
                    proof {
                        assert(false);
                    }
                    Yaml::Mapping(entries)
                },
            }
        },
        other => other,
    }
}

/// The note after a tag is removed from its frontmatter; `None` where the note
/// has no frontmatter and is left as it is.
pub fn remove_tag(content: &str, tag: &str) -> (r: Option<String>)
    ensures
        match metadata(content@) {
            Some(v) => r is Some && r->0@ == rendered(
                Some(metadata_without_tag(v, tag@)),
                body_of(content@),
            ),
            None => r is None,
        },
{
    let parts: (Option<Yaml>, String) = split_frontmatter(content);
    match parts.0 {
        None => None,
        Some(y) => {
            let rest: Yaml = remove_tag_from_metadata(y, tag);
            Some(render_with_frontmatter(Some(&rest), parts.1.as_str()))
        },
    }
}

// ---------------------------------------------------------------------------
// Writing
// ---------------------------------------------------------------------------

/// What a note holds after it is written.
pub open spec fn written(existing: Option<String>, content: Seq<char>, mode: WriteMode) -> Seq<char> {
    let before = match existing {
        Some(s) => s@,
        None => seq![],
    };
    match mode {
        WriteMode::Overwrite => content,
        WriteMode::Append => before + content,
        WriteMode::Prepend => content + before,
    }
}

/// What a note holds after it is written, given what it held before. Content
/// that is too large is refused.
pub fn write_note(existing: &Option<String>, content: &str, mode: WriteMode) -> (r: Result<
    String,
    String,
>)
    ensures
        if byte_size(content@) > MAX_WRITE_BYTES {
            r is Err && r->Err_0@ == "content size "@ + decimal(byte_size(content@))
                + " bytes exceeds maximum write size of "@ + decimal(MAX_WRITE_BYTES as nat)
                + " bytes (10 MiB)"@
        } else {
            r is Ok && r->Ok_0@ == written(*existing, content@, mode)
        },
{
    let size: usize = byte_len(content);
    if size > MAX_WRITE_BYTES {
        let n: String = decimal_of(size as u64);
        let max: String = decimal_of(MAX_WRITE_BYTES as u64);
        return Err(
            cat5(
                "content size ",
                n.as_str(),
                " bytes exceeds maximum write size of ",
                max.as_str(),
                " bytes (10 MiB)",
            ),
        );
    }
    let before: String = match existing {
        Some(s) => owned(s.as_str()),
        None => String::new(),
    };
    proof {
        if existing is None {
            assert(before@ =~= seq![]);
        }
    }
    match mode {
        WriteMode::Overwrite => Ok(owned(content)),
        WriteMode::Append => Ok(cat2(before.as_str(), content)),
        WriteMode::Prepend => Ok(cat2(content, before.as_str())),
    }
}

// ---------------------------------------------------------------------------
// Replacing
// ---------------------------------------------------------------------------

/// A text with another one before, between and after its characters.
pub open spec fn interleaved(s: Seq<char>, to: Seq<char>) -> Seq<char>
    decreases s.len(),
{
    if s.len() == 0 {
        to
    } else {
        interleaved(s.drop_last(), to).push(s.last()) + to
    }
}

/// A text with each occurrence of another one replaced. The empty text occurs
/// around each character.
pub open spec fn plain_replaced(s: Seq<char>, p: Seq<char>, to: Seq<char>) -> Seq<char> {
    if p.len() == 0 {
        interleaved(s, to)
    } else {
        replace(s, p, to)
    }
}

/// How often a text occurs in another one.
pub open spec fn plain_count(s: Seq<char>, p: Seq<char>) -> nat {
    if p.len() == 0 {
        s.len() + 1
    } else {
        text::count(s, p)
    }
}

/// Replace each occurrence of a text, and count them.
pub fn replace_plain(s: &str, p: &str, to: &str) -> (r: (String, usize))
    requires
        s@.len() < usize::MAX,
    ensures
        r.0@ == plain_replaced(s@, p@, to@),
        r.1 == plain_count(s@, p@),
{
    if !p.is_empty() {
        return replaced(s, p, to);
    }
    let v: Vec<char> = chars_of(s);
    let mut out: String = owned(to);
    let mut i: usize = 0;
    while i < v.len()
        invariant
            v@ == s@,
            i <= v@.len(),
            out@ == interleaved(v@.take(i as int), to@),
        decreases v.len() - i,
    {
        proof {
            let t = v@.take(i + 1);
            assert(t.drop_last() =~= v@.take(i as int));
            assert(t.last() == v@[i as int]);
        }
        out.push(v[i]);
        out.append(to);
        i = i + 1;
    }
    proof {
        assert(v@.take(v@.len() as int) =~= v@);
    }
    (out, v.len() + 1)
}

/// A search-and-replace within a note: what the note holds afterwards, and the
/// number of replacements. The note must be written only if there were any.
pub fn search_replace(content: &str, search: &str, replacement: &str, is_regex: bool) -> (r: Result<
    (String, usize),
    String,
>)
    requires
        content@.len() < usize::MAX,
    ensures
        if is_regex {
            match pattern_error(search@) {
                Some(e) => r is Err && r->Err_0@ == "invalid regex pattern: "@ + e,
                None => {
                    &&& r is Ok
                    &&& r->Ok_0.0@ == pattern_replaced(search@, content@, replacement@)
                    &&& r->Ok_0.1 == pattern_count(search@, content@)
                },
            }
        } else {
            &&& r is Ok
            &&& r->Ok_0.0@ == plain_replaced(content@, search@, replacement@)
            &&& r->Ok_0.1 == plain_count(content@, search@)
        },
{
    if is_regex {
        match compile(search) {
            Err(e) => Err(cat2("invalid regex pattern: ", e.as_str())),
            Ok(re) => Ok((replace_all(&re, content, replacement), count_matches(&re, content))),
        }
    } else {
        Ok(replace_plain(content, search, replacement))
    }
}

// ---------------------------------------------------------------------------
// Searching
// ---------------------------------------------------------------------------

/// What lines are searched for: a text, or the matches of a regular expression.
#[derive(Debug)]
pub struct Matcher {
    query: String,
    pattern: Option<regex::Regex>,
}

impl Matcher {
    /// The text or the regular expression that is searched for.
    pub closed spec fn wanted(self) -> Seq<char> {
        match self.pattern {
            Some(re) => source_of(&re),
            None => self.query@,
        }
    }

    /// A regular expression is searched for.
    pub closed spec fn by_pattern(self) -> bool {
        self.pattern is Some
    }

    /// The line is one that is searched for.
    pub open spec fn finds(self, line: Seq<char>) -> bool {
        if self.by_pattern() {
            pattern_matches(self.wanted(), line)
        } else {
            contains_text(line, self.wanted())
        }
    }

    /// What a query searches for.
    pub fn new(query: &str, is_regex: bool) -> (r: Result<Matcher, String>)
        ensures
            if is_regex && pattern_error(query@) is Some {
                r is Err && r->Err_0@ == "invalid regex pattern: "@ + pattern_error(query@)->0
            } else {
                &&& r is Ok
                &&& r->Ok_0.by_pattern() == is_regex
                &&& r->Ok_0.wanted() == query@
            },
    {
        if is_regex {
            match compile(query) {
                Err(e) => Err(cat2("invalid regex pattern: ", e.as_str())),
                Ok(re) => Ok(Matcher { query: owned(query), pattern: Some(re) }),
            }
        } else {
            Ok(Matcher { query: owned(query), pattern: None })
        }
    }

    /// Which lines are searched for.
    pub fn flags(&self, ls: &Vec<String>) -> (r: Vec<bool>)
        ensures
            r@ == Seq::new(ls@.len(), |i: int| self.finds(ls@[i]@)),
    {
        let mut out: Vec<bool> = Vec::new();
        let mut i: usize = 0;
        while i < ls.len()
            invariant
                i <= ls@.len(),
                out@ == Seq::new(i as nat, |k: int| self.finds(ls@[k]@)),
            decreases ls.len() - i,
        {
            let found: bool = match &self.pattern {
                Some(re) => is_match(re, ls[i].as_str()),
                None => contains(ls[i].as_str(), self.query.as_str()),
            };
            proof {
                assert(out@.push(found) =~= Seq::new(
                    (i + 1) as nat,
                    |k: int| self.finds(ls@[k]@),
                ));
            }
            out.push(found);
            i = i + 1;
        }
        out
    }
}

/// The hit on a line: the line, its number, and up to two lines before and
/// after it.
pub open spec fn hit(path: Seq<char>, ls: Seq<Seq<char>>, i: int) -> HitView {
    let from = if i >= 2 {
        i - 2
    } else {
        0
    };
    let to = if i + 3 <= ls.len() {
        i + 3
    } else {
        ls.len() as int
    };
    HitView {
        path,
        line_number: i + 1,
        line: ls[i],
        context: join(ls.subrange(from, to), "\n"@),
    }
}

/// The hits on the first `n` lines.
pub open spec fn hits(path: Seq<char>, ls: Seq<Seq<char>>, flags: Seq<bool>, n: int) -> Seq<HitView>
    decreases n,
{
    if n <= 0 {
        seq![]
    } else if flags[n - 1] {
        hits(path, ls, flags, n - 1).push(hit(path, ls, n - 1))
    } else {
        hits(path, ls, flags, n - 1)
    }
}

/// At most so many results; zero stands for any number.
pub open spec fn limited(all: Seq<HitView>, max: usize) -> Seq<HitView> {
    if max == 0 || all.len() <= max {
        all
    } else {
        all.take(max as int)
    }
}

/// The lines around a hit.
fn context_of(ls: &Vec<String>, i: usize) -> (r: String)
    requires
        i < ls@.len(),
    ensures
        r@ == hit(seq![], texts(ls@), i as int).context,
{
    let from: usize = if i >= 2 {
        i - 2
    } else {
        0
    };
    let to: usize = if ls.len() - i >= 3 {
        i + 3
    } else {
        ls.len()
    };
    let mut part: Vec<String> = Vec::new();
    let mut k: usize = from;
    proof {
        assert(texts(part@) =~= texts(ls@).subrange(from as int, from as int));
    }
    while k < to
        invariant
            from <= k <= to <= ls@.len(),
            texts(part@) == texts(ls@).subrange(from as int, k as int),
        decreases to - k,
    {
        let s: String = owned(ls[k].as_str());
        proof {
            lemma_texts_push(part@, s);
            assert(texts(ls@).subrange(from as int, k + 1) =~= texts(ls@).subrange(
                from as int,
                k as int,
            ).push(s@));
        }
        part.push(s);
        k = k + 1;
    }
    joined(&part, "\n")
}

/// Add the hits on the lines that are flagged, as far as there is room for
/// results.
pub fn collect_hits(
    results: &mut Vec<SearchResult>,
    path: &str,
    ls: &Vec<String>,
    flags: &Vec<bool>,
    max: usize,
)
    requires
        flags@.len() == ls@.len(),
        max == 0 || old(results)@.len() <= max,
    ensures
        hits_view(final(results)@) == limited(
            hits_view(old(results)@) + hits(path@, texts(ls@), flags@, ls@.len() as int),
            max,
        ),
        max == 0 || final(results)@.len() <= max,
{
    let ghost start = hits_view(results@);
    let ghost all = texts(ls@);
    let mut i: usize = 0;
    proof {
        assert(start + hits(path@, all, flags@, 0) =~= start);
    }
    while i < ls.len()
        invariant
            i <= ls@.len(),
            flags@.len() == ls@.len(),
            all == texts(ls@),
            max == 0 || results@.len() <= max,
            hits_view(results@) == limited(start + hits(path@, all, flags@, i as int), max),
        decreases ls.len() - i,
    {
        let ghost before = start + hits(path@, all, flags@, i as int);
        let ghost now = start + hits(path@, all, flags@, i + 1);
        if flags[i] {
            proof {
                assert(now =~= before.push(hit(path@, all, i as int)));
            }
            if max == 0 || results.len() < max {
                let r: SearchResult = SearchResult {
                    path: owned(path),
                    line_number: i + 1,
                    line: owned(ls[i].as_str()),
                    context: context_of(ls, i),
                };
                proof {
                    assert(r@ == hit(path@, all, i as int));
                    assert(hits_view(results@.push(r)) =~= hits_view(results@).push(r@));
                    assert(hits_view(results@).len() == results@.len());
                }
                results.push(r);
                proof {
                    assert(hits_view(results@) =~= limited(now, max));
                }
            } else {
                proof {
                    assert(hits_view(results@).len() == results@.len());
                    assert(limited(now, max) =~= limited(before, max));
                }
            }
        }
        i = i + 1;
    }
}

/// A note is searched: if a tag is required, the note must have it.
pub open spec fn is_searched(content: Seq<char>, tag: Option<String>) -> bool {
    match tag {
        Some(t) => tags_of(content).contains(t@),
        None => true,
    }
}

/// Add the hits in a note.
pub fn search_note(
    results: &mut Vec<SearchResult>,
    path: &str,
    content: &str,
    matcher: &Matcher,
    tag: &Option<String>,
    max: usize,
)
    requires
        max == 0 || old(results)@.len() <= max,
    ensures
        max == 0 || final(results)@.len() <= max,
        hits_view(final(results)@) == if is_searched(content@, *tag) {
            let ls = lines(content@);
            limited(
                hits_view(old(results)@) + hits(
                    path@,
                    ls,
                    Seq::new(ls.len(), |i: int| matcher.finds(ls[i])),
                    ls.len() as int,
                ),
                max,
            )
        } else {
            hits_view(old(results)@)
        },
{
    match tag {
        Some(t) => {
            let tags: Vec<String> = extract_tags(content);
            if !holds(&tags, t.as_str()) {
                return;
            }
        },
        None => {},
    }
    let ls: Vec<String> = split_lines(content);
    let flags: Vec<bool> = matcher.flags(&ls);
    proof {
        let all = lines(content@);
        assert(texts(ls@).len() == ls@.len());
        assert(flags@ =~= Seq::new(all.len(), |i: int| matcher.finds(all[i])));
    }
    collect_hits(results, path, &ls, &flags, max)
}

/// A note that is searched: its path and its content.
#[derive(Debug)]
pub struct NoteFile {
    pub path: String,
    pub content: String,
}

/// The query is found on the line.
pub open spec fn is_found(query: Seq<char>, is_regex: bool, line: Seq<char>) -> bool {
    if is_regex {
        pattern_matches(query, line)
    } else {
        contains_text(line, query)
    }
}

/// The hits in one note.
pub open spec fn note_hits(
    note: NoteFile,
    query: Seq<char>,
    is_regex: bool,
    tag: Option<String>,
) -> Seq<HitView> {
    let ls = lines(note.content@);
    if is_searched(note.content@, tag) {
        hits(
            note.path@,
            ls,
            Seq::new(ls.len(), |i: int| is_found(query, is_regex, ls[i])),
            ls.len() as int,
        )
    } else {
        seq![]
    }
}

/// The hits in all notes, note by note.
pub open spec fn all_hits(
    notes: Seq<NoteFile>,
    query: Seq<char>,
    is_regex: bool,
    tag: Option<String>,
) -> Seq<HitView>
    decreases notes.len(),
{
    if notes.len() == 0 {
        seq![]
    } else {
        all_hits(notes.drop_last(), query, is_regex, tag) + note_hits(
            notes.last(),
            query,
            is_regex,
            tag,
        )
    }
}

/// Limiting early makes no difference.
proof fn lemma_limited(a: Seq<HitView>, b: Seq<HitView>, max: usize)
    ensures
        limited(limited(a, max) + b, max) == limited(a + b, max),
{
    if max != 0 && a.len() > max {
        assert(limited(limited(a, max) + b, max) =~= limited(a + b, max));
    }
}

/// Search notes for a text or a regular expression.
///
/// The hits come note by note and line by line, at most `max` of them; zero
/// stands for any number. If a tag is given, only notes with the tag are
/// searched.
pub fn search(
    notes: &Vec<NoteFile>,
    query: &str,
    is_regex: bool,
    tag: &Option<String>,
    max: usize,
) -> (r: Result<Vec<SearchResult>, String>)
    ensures
        if is_regex && pattern_error(query@) is Some {
            r is Err && r->Err_0@ == "invalid regex pattern: "@ + pattern_error(query@)->0
        } else {
            r is Ok && hits_view(r->Ok_0@) == limited(
                all_hits(notes@, query@, is_regex, *tag),
                max,
            )
        },
{
    let matcher: Matcher = match Matcher::new(query, is_regex) {
        Ok(m) => m,
        Err(e) => {
            return Err(e);
        },
    };
    let mut results: Vec<SearchResult> = Vec::new();
    let mut i: usize = 0;
    proof {
        assert(hits_view(results@) =~= seq![]);
    }
    while i < notes.len()
        invariant
            i <= notes@.len(),
            max == 0 || results@.len() <= max,
            forall|line: Seq<char>|
                #[trigger] matcher.finds(line) == is_found(query@, is_regex, line),
            hits_view(results@) == limited(
                all_hits(notes@.take(i as int), query@, is_regex, *tag),
                max,
            ),
        decreases notes.len() - i,
    {
        let ghost before = all_hits(notes@.take(i as int), query@, is_regex, *tag);
        let ghost note = notes@[i as int];
        proof {
            let t = notes@.take(i + 1);
            assert(t.drop_last() =~= notes@.take(i as int));
            assert(t.last() == note);
            lemma_limited(before, note_hits(note, query@, is_regex, *tag), max);
            let ls = lines(note.content@);
            assert(Seq::new(ls.len(), |k: int| matcher.finds(ls[k])) =~= Seq::new(
                ls.len(),
                |k: int| is_found(query@, is_regex, ls[k]),
            ));
            if !is_searched(note.content@, *tag) {
                assert(limited(before, max) + note_hits(note, query@, is_regex, *tag) =~= limited(
                    before,
                    max,
                ));
            }
        }
        search_note(
            &mut results,
            notes[i].path.as_str(),
            notes[i].content.as_str(),
            &matcher,
            tag,
            max,
        );
        i = i + 1;
    }
    proof {
        assert(notes@.take(notes@.len() as int) =~= notes@);
    }
    Ok(results)
}

// ---------------------------------------------------------------------------
// Listing
// ---------------------------------------------------------------------------

/// Texts in the order of their characters' code points.
pub open spec fn text_le(a: Seq<char>, b: Seq<char>) -> bool
    decreases a.len(),
{
    if a.len() == 0 {
        true
    } else if b.len() == 0 {
        false
    } else if a[0] != b[0] {
        a[0] < b[0]
    } else {
        text_le(a.skip(1), b.skip(1))
    }
}

/// Whether one text comes before another one, or is the same.
pub fn comes_before(a: &str, b: &str) -> (r: bool)
    ensures
        r == text_le(a@, b@),
{
    let x: Vec<char> = chars_of(a);
    let y: Vec<char> = chars_of(b);
    let mut i: usize = 0;
    proof {
        assert(x@.skip(0) =~= x@);
        assert(y@.skip(0) =~= y@);
    }
    while i < x.len() && i < y.len() && x[i] == y[i]
        invariant
            i <= x@.len(),
            i <= y@.len(),
            text_le(x@, y@) == text_le(x@.skip(i as int), y@.skip(i as int)),
        decreases x.len() - i,
    {
        proof {
            assert(x@.skip(i as int).skip(1) =~= x@.skip(i + 1));
            assert(y@.skip(i as int).skip(1) =~= y@.skip(i + 1));
        }
        i = i + 1;
    }
    if i == x.len() {
        true
    } else if i == y.len() {
        false
    } else {
        x[i] < y[i]
    }
}

/// Every text comes before itself, of two texts one comes before the other, and
/// only the same text does both.
pub proof fn lemma_text_order(a: Seq<char>, b: Seq<char>)
    ensures
        text_le(a, a),
        text_le(a, b) || text_le(b, a),
        text_le(a, b) && text_le(b, a) ==> a == b,
    decreases a.len(),
{
    if a.len() > 0 {
        lemma_text_order(a.skip(1), a.skip(1));
        if b.len() > 0 {
            lemma_text_order(a.skip(1), b.skip(1));
            if text_le(a, b) && text_le(b, a) {
                assert(a.skip(1) == b.skip(1));
                assert(a =~= seq![a[0]] + a.skip(1));
                assert(b =~= seq![b[0]] + b.skip(1));
            }
        }
    } else {
        if b.len() == 0 {
            assert(a =~= b);
        }
    }
}

/// The order of texts is transitive.
pub proof fn lemma_text_order_transitive(a: Seq<char>, b: Seq<char>, c: Seq<char>)
    requires
        text_le(a, b),
        text_le(b, c),
    ensures
        text_le(a, c),
    decreases a.len(),
{
    if a.len() > 0 && b.len() > 0 && c.len() > 0 && a[0] == b[0] && b[0] == c[0] {
        lemma_text_order_transitive(a.skip(1), b.skip(1), c.skip(1));
    }
}

/// Something that was found while walking the vault.
#[derive(Debug)]
pub struct Found {
    /// Path relative to the vault root.
    pub path: String,
    /// The last component of the path, if it is text.
    pub name: Option<String>,
    /// The file extension, if there is one that is text.
    pub extension: Option<String>,
    pub is_dir: bool,
    /// File size in bytes, if it is known.
    pub size: Option<u64>,
}

/// The contents of a [`NoteEntry`].
pub open spec fn entry_view(e: NoteEntry) -> (Seq<char>, bool, Option<u64>) {
    (e.path@, e.is_dir, e.size)
}

/// The contents of a list of entries.
pub open spec fn entries_view(v: Seq<NoteEntry>) -> Seq<(Seq<char>, bool, Option<u64>)> {
    Seq::new(v.len(), |i: int| entry_view(v[i]))
}

/// The list with an entry behind all that come before it or have its path.
pub open spec fn inserted(s: Seq<(Seq<char>, bool, Option<u64>)>, e: (Seq<char>, bool, Option<u64>)) -> Seq<
    (Seq<char>, bool, Option<u64>),
>
    decreases s.len(),
{
    if s.len() == 0 || text_le(s.last().0, e.0) {
        s.push(e)
    } else {
        inserted(s.drop_last(), e).push(s.last())
    }
}

/// Inserting at the right place.
proof fn lemma_inserted(
    s: Seq<(Seq<char>, bool, Option<u64>)>,
    e: (Seq<char>, bool, Option<u64>),
    i: int,
)
    requires
        0 <= i <= s.len(),
        i > 0 ==> text_le(s[i - 1].0, e.0),
        forall|k: int| i <= k < s.len() ==> !text_le((#[trigger] s[k]).0, e.0),
    ensures
        inserted(s, e) == s.insert(i, e),
    decreases s.len(),
{
    if i == s.len() {
        assert(s.insert(i, e) =~= s.push(e));
    } else {
        assert(!text_le(s[s.len() - 1].0, e.0));
        let init = s.drop_last();
        assert forall|k: int| i <= k < init.len() implies !text_le((#[trigger] init[k]).0, e.0) by {
            assert(s[k] == init[k]);
        }
        lemma_inserted(init, e, i);
        assert(s.insert(i, e) =~= init.insert(i, e).push(s.last()));
    }
}

/// A directory that is left out.
pub open spec fn is_excluded(config: VaultConfig, name: Option<String>) -> bool {
    match name {
        Some(n) => texts(config.exclude_dirs@).contains(n@),
        None => false,
    }
}

/// A file is a note if it has one of the extensions of notes.
pub open spec fn is_note(config: VaultConfig, extension: Option<String>) -> bool {
    match extension {
        Some(e) => texts(config.extensions@).contains(e@),
        None => false,
    }
}

/// What was found is listed: directories that are not left out, and notes.
pub open spec fn is_listed(config: VaultConfig, f: Found) -> bool {
    if f.is_dir {
        !is_excluded(config, f.name)
    } else {
        is_note(config, f.extension)
    }
}

/// The entry for what was found.
pub open spec fn entry_for(f: Found) -> (Seq<char>, bool, Option<u64>) {
    (
        f.path@,
        f.is_dir,
        if f.is_dir {
            None
        } else {
            f.size
        },
    )
}

/// What is listed of what was found, by path.
pub open spec fn listing(config: VaultConfig, found: Seq<Found>) -> Seq<
    (Seq<char>, bool, Option<u64>),
>
    decreases found.len(),
{
    if found.len() == 0 {
        seq![]
    } else if is_listed(config, found.last()) {
        inserted(listing(config, found.drop_last()), entry_for(found.last()))
    } else {
        listing(config, found.drop_last())
    }
}

/// Whether a directory is left out.
pub fn excluded(config: &VaultConfig, name: &Option<String>) -> (r: bool)
    ensures
        r == is_excluded(*config, *name),
{
    match name {
        Some(n) => holds(&config.exclude_dirs, n.as_str()),
        None => false,
    }
}

/// Whether a file is a note.
pub fn has_matching_extension(config: &VaultConfig, extension: &Option<String>) -> (r: bool)
    ensures
        r == is_note(*config, *extension),
{
    match extension {
        Some(e) => holds(&config.extensions, e.as_str()),
        None => false,
    }
}

/// List the notes and directories among what was found, sorted by path.
pub fn list_notes(config: &VaultConfig, found: &Vec<Found>) -> (r: Vec<NoteEntry>)
    ensures
        entries_view(r@) == listing(*config, found@),
{
    let mut out: Vec<NoteEntry> = Vec::new();
    let mut i: usize = 0;
    proof {
        assert(entries_view(out@) =~= seq![]);
    }
    while i < found.len()
        invariant
            i <= found@.len(),
            entries_view(out@) == listing(*config, found@.take(i as int)),
        decreases found.len() - i,
    {
        let f: &Found = &found[i];
        proof {
            let t = found@.take(i + 1);
            assert(t.drop_last() =~= found@.take(i as int));
            assert(t.last() == found@[i as int]);
        }
        let listed: bool = if f.is_dir {
            !excluded(config, &f.name)
        } else {
            has_matching_extension(config, &f.extension)
        };
        if listed {
            let size: Option<u64> = if f.is_dir {
                None
            } else {
                f.size
            };
            let e: NoteEntry = NoteEntry { path: owned(f.path.as_str()), is_dir: f.is_dir, size };
            let ghost before = out@;
            let mut k: usize = out.len();
            while k > 0 && !comes_before(out[k - 1].path.as_str(), e.path.as_str())
                invariant
                    k <= out@.len(),
                    forall|j: int|
                        k <= j < out@.len() ==> !text_le((#[trigger] out@[j]).path@, e.path@),
                decreases k,
            {
                k = k - 1;
            }
            proof {
                let s = entries_view(before);
                assert forall|j: int| k <= j < s.len() implies !text_le(
                    (#[trigger] s[j]).0,
                    entry_view(e).0,
                ) by {
                    assert(s[j].0 == before[j].path@);
                }
                lemma_inserted(s, entry_view(e), k as int);
                assert(entries_view(before.insert(k as int, e)) =~= s.insert(
                    k as int,
                    entry_view(e),
                ));
            }
            out.insert(k, e);
        }
        i = i + 1;
    }
    proof {
        assert(found@.take(found@.len() as int) =~= found@);
    }
    out
}

// ---------------------------------------------------------------------------
// Statistics
// ---------------------------------------------------------------------------

/// A note with its size and when it was modified.
#[derive(Debug)]
pub struct RecentFile {
    pub path: String,
    pub size_bytes: u64,
    /// Nanoseconds since the epoch.
    pub modified: i128,
}

/// The contents of a [`RecentFile`].
pub open spec fn recent_view(f: RecentFile) -> (Seq<char>, u64, i128) {
    (f.path@, f.size_bytes, f.modified)
}

/// The contents of a list of files.
pub open spec fn recents_view(v: Seq<RecentFile>) -> Seq<(Seq<char>, u64, i128)> {
    Seq::new(v.len(), |i: int| recent_view(v[i]))
}

/// Statistics about a vault.
#[derive(Debug)]
pub struct VaultStats {
    pub total_notes: usize,
    pub total_folders: usize,
    pub total_size_bytes: u128,
    /// The notes that were modified last, most recent first.
    pub recent_files: Vec<RecentFile>,
}

/// Something that was found while walking the vault, with when it was modified.
#[derive(Debug)]
pub struct Walked {
    /// Path relative to the vault root.
    pub path: String,
    /// The file extension, if there is one that is text.
    pub extension: Option<String>,
    pub is_dir: bool,
    /// Size and time of modification of a file, if they are known.
    pub meta: Option<(u64, i128)>,
}

/// What was found counts as a note.
pub open spec fn counts(config: VaultConfig, w: Walked) -> bool {
    !w.is_dir && is_note(config, w.extension) && w.meta is Some
}

/// The number of directories.
pub open spec fn folders_in(ws: Seq<Walked>) -> nat
    decreases ws.len(),
{
    if ws.len() == 0 {
        0
    } else if ws.last().is_dir {
        folders_in(ws.drop_last()) + 1
    } else {
        folders_in(ws.drop_last())
    }
}

/// The number of notes.
pub open spec fn notes_in(config: VaultConfig, ws: Seq<Walked>) -> nat
    decreases ws.len(),
{
    if ws.len() == 0 {
        0
    } else if counts(config, ws.last()) {
        notes_in(config, ws.drop_last()) + 1
    } else {
        notes_in(config, ws.drop_last())
    }
}

/// The size of all notes.
pub open spec fn size_in(config: VaultConfig, ws: Seq<Walked>) -> nat
    decreases ws.len(),
{
    if ws.len() == 0 {
        0
    } else {
        match ws.last().meta {
            Some(meta) => if counts(config, ws.last()) {
                size_in(config, ws.drop_last()) + meta.0 as nat
            } else {
                size_in(config, ws.drop_last())
            },
            None => size_in(config, ws.drop_last()),
        }
    }
}

/// The list with a file behind all that were modified no earlier.
pub open spec fn placed(s: Seq<(Seq<char>, u64, i128)>, f: (Seq<char>, u64, i128)) -> Seq<
    (Seq<char>, u64, i128),
>
    decreases s.len(),
{
    if s.len() == 0 || s.last().2 >= f.2 {
        s.push(f)
    } else {
        placed(s.drop_last(), f).push(s.last())
    }
}

/// All notes, most recent first.
pub open spec fn recents_in(config: VaultConfig, ws: Seq<Walked>) -> Seq<(Seq<char>, u64, i128)>
    decreases ws.len(),
{
    if ws.len() == 0 {
        seq![]
    } else {
        let before = recents_in(config, ws.drop_last());
        match ws.last().meta {
            Some(meta) => if counts(config, ws.last()) {
                placed(before, (ws.last().path@, meta.0, meta.1))
            } else {
                before
            },
            None => before,
        }
    }
}

/// Placing at the right place.
proof fn lemma_placed(s: Seq<(Seq<char>, u64, i128)>, f: (Seq<char>, u64, i128), i: int)
    requires
        0 <= i <= s.len(),
        i > 0 ==> s[i - 1].2 >= f.2,
        forall|k: int| i <= k < s.len() ==> (#[trigger] s[k]).2 < f.2,
    ensures
        placed(s, f) == s.insert(i, f),
    decreases s.len(),
{
    if i == s.len() {
        assert(s.insert(i, f) =~= s.push(f));
    } else {
        assert(s[s.len() - 1].2 < f.2);
        let init = s.drop_last();
        assert forall|k: int| i <= k < init.len() implies (#[trigger] init[k]).2 < f.2 by {
            assert(s[k] == init[k]);
        }
        lemma_placed(init, f, i);
        assert(s.insert(i, f) =~= init.insert(i, f).push(s.last()));
    }
}

/// Compute statistics about a vault from what was found in it.
pub fn stats(config: &VaultConfig, ws: &Vec<Walked>, recent_count: usize) -> (r: VaultStats)
    ensures
        r.total_notes == notes_in(*config, ws@),
        r.total_folders == folders_in(ws@),
        r.total_size_bytes == size_in(*config, ws@),
        recents_view(r.recent_files@) == {
            let all = recents_in(*config, ws@);
            if all.len() <= recent_count {
                all
            } else {
                all.take(recent_count as int)
            }
        },
{
    let mut notes: usize = 0;
    let mut folders: usize = 0;
    let mut size: u128 = 0;
    let mut recent: Vec<RecentFile> = Vec::new();
    let mut i: usize = 0;
    proof {
        assert(recents_view(recent@) =~= seq![]);
    }
    while i < ws.len()
        invariant
            i <= ws.len(),
            notes == notes_in(*config, ws@.take(i as int)),
            folders == folders_in(ws@.take(i as int)),
            size == size_in(*config, ws@.take(i as int)),
            notes <= i,
            folders <= i,
            size <= i * 0xffff_ffff_ffff_ffff,
            recents_view(recent@) == recents_in(*config, ws@.take(i as int)),
        decreases ws.len() - i,
    {
        let w: &Walked = &ws[i];
        proof {
            let t = ws@.take(i + 1);
            assert(t.drop_last() =~= ws@.take(i as int));
            assert(t.last() == ws@[i as int]);
            assert(i * 0xffff_ffff_ffff_ffff + 0xffff_ffff_ffff_ffff == (i + 1)
                * 0xffff_ffff_ffff_ffff);
        }
        if w.is_dir {
            folders = folders + 1;
        } else if has_matching_extension(config, &w.extension) {
            match w.meta {
                Some(meta) => {
                    notes = notes + 1;
                    size = size + meta.0 as u128;
                    let f: RecentFile = RecentFile {
                        path: owned(w.path.as_str()),
                        size_bytes: meta.0,
                        modified: meta.1,
                    };
                    let ghost before = recent@;
                    let mut k: usize = recent.len();
                    while k > 0 && recent[k - 1].modified < f.modified
                        invariant
                            k <= recent@.len(),
                            forall|j: int|
                                k <= j < recent@.len() ==> (#[trigger] recent@[j]).modified
                                    < f.modified,
                        decreases k,
                    {
                        k = k - 1;
                    }
                    proof {
                        let s = recents_view(before);
                        assert forall|j: int| k <= j < s.len() implies (#[trigger] s[j]).2
                            < f.modified by {
                            assert(s[j].2 == before[j].modified);
                        }
                        lemma_placed(s, recent_view(f), k as int);
                        assert(recents_view(before.insert(k as int, f)) =~= s.insert(
                            k as int,
                            recent_view(f),
                        ));
                    }
                    recent.insert(k, f);
                },
                None => {},
            }
        }
        i = i + 1;
    }
    proof {
        assert(ws@.take(ws@.len() as int) =~= ws@);
    }
    let ghost all = recents_view(recent@);
    if recent.len() > recent_count {
        recent.truncate(recent_count);
        proof {
            assert(recents_view(recent@) =~= all.take(recent_count as int));
        }
    }
    VaultStats {
        total_notes: notes,
        total_folders: folders,
        total_size_bytes: size,
        recent_files: recent,
    }
}

// ---------------------------------------------------------------------------
// Batches and paths
// ---------------------------------------------------------------------------

/// A note of a batch. `error` tells why it could not be read.
#[derive(Debug)]
pub struct BatchEntry {
    pub path: String,
    pub content: Option<String>,
    pub frontmatter: Option<Yaml>,
    pub error: Option<String>,
}

/// Refuse a batch that is too large.
pub fn check_batch(paths: &Vec<String>) -> (r: Result<(), String>)
    ensures
        if paths@.len() > 10 {
            r is Err && r->Err_0@ == "batch_read accepts at most 10 paths, got "@ + decimal(
                paths@.len(),
            )
        } else {
            r is Ok
        },
{
    if paths.len() > 10 {
        let n: String = decimal_of(paths.len() as u64);
        return Err(cat2("batch_read accepts at most 10 paths, got ", n.as_str()));
    }
    Ok(())
}

/// The entry of a batch for a path: the note with what was asked for, or why it
/// could not be read.
pub fn batch_entry(
    path: &str,
    note: Result<VaultNote, String>,
    include_content: bool,
    include_frontmatter: bool,
) -> (r: BatchEntry)
    ensures
        match note {
            Ok(n) => {
                &&& r.path == n.path
                &&& r.content == if include_content {
                    Some(n.content)
                } else {
                    None
                }
                &&& r.frontmatter == if include_frontmatter {
                    n.frontmatter
                } else {
                    None
                }
                &&& r.error is None
            },
            Err(e) => {
                &&& r.path@ == path@
                &&& r.content is None
                &&& r.frontmatter is None
                &&& r.error == Some(e)
            },
        },
{
    match note {
        Ok(n) => {
            let content: Option<String> = if include_content {
                Some(n.content)
            } else {
                None
            };
            let frontmatter: Option<Yaml> = if include_frontmatter {
                n.frontmatter
            } else {
                None
            };
            BatchEntry { path: n.path, content, frontmatter, error: None }
        },
        Err(e) => BatchEntry {
            path: owned(path),
            content: None,
            frontmatter: None,
            error: Some(e),
        },
    }
}

/// A path with a component that leads upwards.
pub open spec fn climbs(path: Seq<char>) -> bool {
    split(path, '/').contains(".."@)
}

/// Refuse paths that lead upwards, before anything is looked up.
pub fn check_components(path: &str) -> (r: Result<(), String>)
    ensures
        if climbs(path@) {
            r is Err && r->Err_0@ == "path traversal (.. component) is not allowed"@
        } else {
            r is Ok
        },
{
    let parts: Vec<String> = split_on(path, '/');
    if holds(&parts, "..") {
        Err(owned("path traversal (.. component) is not allowed"))
    } else {
        Ok(())
    }
}

/// What was found of a path that was joined to the base directory.
///
/// Where nothing is there, `leads_to` is the place where something that is
/// written to the path would come to stand, with links resolved; `None` if
/// nothing can be written there.
#[derive(Debug)]
pub enum Target {
    /// It exists: its components with links resolved, or why they cannot be.
    Existing(Result<Vec<String>, String>),
    /// It has no parent.
    NoParent,
    /// Its parent exists: the parent with links resolved, or why it cannot be,
    /// and the name of the file, under which there may be a link that leads to
    /// nothing.
    InParent {
        parent: Result<Vec<String>, String>,
        name: Option<String>,
        leads_to: Option<Vec<String>>,
    },
    /// Not even its parent exists: the base directory as it is configured, and
    /// the path joined to it.
    Fresh { base: Vec<String>, joined: Vec<String>, leads_to: Option<Vec<String>> },
}

/// The contents of components, or of why there are none.
pub open spec fn parts_view(r: Result<Vec<String>, String>) -> Result<Seq<Seq<char>>, Seq<char>> {
    match r {
        Ok(v) => Ok(texts(v@)),
        Err(e) => Err(e@),
    }
}

/// A path as it is shown; the component `/` in front stands for the root.
pub open spec fn shown_path(parts: Seq<Seq<char>>) -> Seq<char> {
    if parts.len() > 0 && parts[0] == "/"@ {
        "/"@ + join(parts.skip(1), "/"@)
    } else {
        join(parts, "/"@)
    }
}

/// A path below a directory, or an absolute path by itself.
pub open spec fn joined_to(dir: Seq<Seq<char>>, path: Seq<Seq<char>>) -> Seq<Seq<char>> {
    if path.len() > 0 && path[0] == "/"@ {
        path
    } else {
        dir + path
    }
}

/// The path that stands for what a caller named, or why there is none: the
/// resolved path of what exists, a name in a resolved directory, or a path
/// below the base directory.
pub open spec fn located(base: Result<Seq<Seq<char>>, Seq<char>>, target: Target) -> Result<
    Seq<Seq<char>>,
    Seq<char>,
> {
    match target {
        Target::Existing(found) => parts_view(found),
        Target::NoParent => Err("path has no parent"@),
        Target::InParent { parent, name, .. } => match parts_view(parent) {
            Err(e) => Err(e),
            Ok(dir) => match name {
                None => Err("path has no file name"@),
                Some(n) => Ok(dir.push(n@)),
            },
        },
        Target::Fresh { base: raw, joined, .. } => match base {
            Err(e) => Err(e),
            Ok(root) => Ok(
                joined_to(
                    root,
                    if texts(raw@).is_prefix_of(texts(joined@)) {
                        texts(joined@).skip(raw@.len() as int)
                    } else {
                        texts(joined@)
                    },
                ),
            ),
        },
    }
}

/// Where something that is written to the path would come to stand, if nothing
/// is there yet and something can be written.
pub open spec fn landing(target: Target) -> Option<Seq<Seq<char>>> {
    match target {
        Target::InParent { leads_to, .. } => opt_parts(leads_to),
        Target::Fresh { leads_to, .. } => opt_parts(leads_to),
        _ => None,
    }
}

/// The refusal of a path that is outside the base directory.
pub open spec fn outside_text(path: Seq<Seq<char>>, root: Seq<Seq<char>>) -> Seq<char> {
    "resolved path "@ + shown_path(path) + " is outside vault base "@ + shown_path(root)
}

/// The path that a caller may use, or why there is none: a path that leads
/// upwards, that cannot be resolved, or that leads out of the base directory,
/// by itself or over links.
pub open spec fn resolution(
    path: Seq<char>,
    base: Result<Seq<Seq<char>>, Seq<char>>,
    target: Target,
) -> Result<Seq<Seq<char>>, Seq<char>> {
    if climbs(path) {
        Err("path traversal (.. component) is not allowed"@)
    } else {
        match (located(base, target), base) {
            (Err(e), _) => Err(e),
            (_, Err(e)) => Err(e),
            (Ok(resolved), Ok(root)) => if !root.is_prefix_of(resolved) {
                Err(outside_text(resolved, root))
            } else {
                match landing(target) {
                    Some(place) => if root.is_prefix_of(place) {
                        Ok(resolved)
                    } else {
                        Err(outside_text(place, root))
                    },
                    None => Ok(resolved),
                }
            },
        }
    }
}

/// The components of a path from one on.
fn parts_from(parts: &Vec<String>, from: usize) -> (r: Vec<String>)
    requires
        from <= parts@.len(),
    ensures
        texts(r@) == texts(parts@).skip(from as int),
{
    let mut r: Vec<String> = Vec::new();
    let mut i: usize = from;
    while i < parts.len()
        invariant
            from <= i <= parts@.len(),
            r@.len() == i - from,
            forall|k: int| 0 <= k < r@.len() ==> (#[trigger] r@[k])@ == parts@[from + k]@,
        decreases parts.len() - i,
    {
        r.push(owned(parts[i].as_str()));
        i = i + 1;
    }
    proof {
        assert(texts(r@) =~= texts(parts@).skip(from as int));
    }
    r
}

/// Whether the components begin at the root.
fn is_absolute(parts: &Vec<String>) -> (r: bool)
    ensures
        r == (parts@.len() > 0 && texts(parts@)[0] == "/"@),
{
    parts.len() > 0 && same(parts[0].as_str(), "/")
}

/// A path as it is shown.
fn show_path(parts: &Vec<String>) -> (r: String)
    ensures
        r@ == shown_path(texts(parts@)),
{
    if is_absolute(parts) {
        let rest: Vec<String> = parts_from(parts, 1);
        let below: String = joined(&rest, "/");
        cat2("/", below.as_str())
    } else {
        joined(parts, "/")
    }
}

/// The path that stands for what a caller named, and where something that is
/// written to it would come to stand.
fn locate(base: &Result<Vec<String>, String>, target: Target) -> (r: Result<
    (Vec<String>, Option<Vec<String>>),
    String,
>)
    ensures
        match located(parts_view(*base), target) {
            Ok(path) => {
                &&& r is Ok
                &&& texts(r->Ok_0.0@) == path
                &&& opt_parts(r->Ok_0.1) == landing(target)
            },
            Err(e) => r is Err && r->Err_0@ == e,
        },
{
    match target {
        Target::Existing(found) => match found {
            Ok(parts) => Ok((parts, None)),
            Err(e) => Err(e),
        },
        Target::NoParent => Err(owned("path has no parent")),
        Target::InParent { parent, name, leads_to } => match parent {
            Err(e) => Err(e),
            Ok(dir) => match name {
                None => Err(owned("path has no file name")),
                Some(n) => {
                    let mut r: Vec<String> = dir;
                    proof {
                        lemma_texts_push(r@, n);
                    }
                    r.push(n);
                    Ok((r, leads_to))
                },
            },
        },
        Target::Fresh { base: raw, joined, leads_to } => match base {
            Err(e) => Err(owned(e.as_str())),
            Ok(root) => {
                let from: usize = if is_below(&raw, &joined) {
                    raw.len()
                } else {
                    0
                };
                let mut rest: Vec<String> = parts_from(&joined, from);
                proof {
                    assert(texts(joined@).skip(0) =~= texts(joined@));
                }
                if is_absolute(&rest) {
                    return Ok((rest, leads_to));
                }
                let mut r: Vec<String> = parts_from(root, 0);
                let ghost a = r@;
                let ghost b = rest@;
                r.append(&mut rest);
                proof {
                    assert(texts(root@).skip(0) =~= texts(root@));
                    assert(texts(r@) =~= texts(a) + texts(b));
                }
                Ok((r, leads_to))
            },
        },
    }
}

/// The refusal of a path that is outside the base directory.
fn outside(path: &Vec<String>, root: &Vec<String>) -> (r: String)
    ensures
        r@ == outside_text(texts(path@), texts(root@)),
{
    let p: String = show_path(path);
    let b: String = show_path(root);
    cat4("resolved path ", p.as_str(), " is outside vault base ", b.as_str())
}

/// Resolve a path that a caller gave: `base` holds the components of the base
/// directory with links resolved, or why it has none. The result is always
/// inside the base directory, and so is the place where something that is
/// written to it comes to stand.
pub fn resolve_path(path: &str, base: Result<Vec<String>, String>, target: Target) -> (r: Result<
    Vec<String>,
    String,
>)
    ensures
        parts_view(r) == resolution(path@, parts_view(base), target),
        r is Ok ==> {
            &&& base is Ok
            &&& texts(base->Ok_0@).is_prefix_of(texts(r->Ok_0@))
            &&& landing(target) matches Some(place) ==> texts(base->Ok_0@).is_prefix_of(place)
        },
{
    match check_components(path) {
        Err(e) => {
            return Err(e);
        },
        Ok(()) => {},
    }
    let located: (Vec<String>, Option<Vec<String>>) = match locate(&base, target) {
        Err(e) => {
            return Err(e);
        },
        Ok(l) => l,
    };
    let root: Vec<String> = match base {
        Err(e) => {
            return Err(e);
        },
        Ok(root) => root,
    };
    if !is_below(&root, &located.0) {
        return Err(outside(&located.0, &root));
    }
    match &located.1 {
        Some(place) => {
            if !is_below(&root, place) {
                return Err(outside(place, &root));
            }
        },
        None => {},
    }
    Ok(located.0)
}

/// What a walk along a path found of it, once it has ended: `base` is the base
/// directory as it is configured, and `joined` the path joined to it, along
/// which the walk went.
pub fn target_of(walk: Walk, base: Vec<String>, joined: Vec<String>) -> (r: Option<Target>)
    ensures
        match walk@.end {
            None => r is None,
            Some(End::There) => {
                &&& r is Some
                &&& r->0 is Existing
                &&& parts_view(r->0->Existing_0) == Ok::<Seq<Seq<char>>, Seq<char>>(walk@.at)
            },
            Some(end) => {
                &&& r is Some
                &&& landing(r->0) == if end == End::Missing {
                    Some(walk@.at)
                } else {
                    None
                }
                &&& match walk@.entry {
                    Some(entry) => {
                        &&& r->0 is InParent
                        &&& entry.len() > 0 ==> {
                            &&& parts_view(r->0->parent) == Ok::<Seq<Seq<char>>, Seq<char>>(
                                entry.drop_last(),
                            )
                            &&& opt_text(r->0->name) == Some(entry.last())
                        }
                        &&& entry.len() == 0 ==> r->0->name is None
                    },
                    None => {
                        &&& r->0 is Fresh
                        &&& r->0->base == base
                        &&& r->0->joined == joined
                    },
                }
            },
        },
{
    let o: Outcome = match walk.outcome() {
        None => {
            return None;
        },
        Some(o) => o,
    };
    let leads_to: Option<Vec<String>> = match o.end {
        End::There => {
            return Some(Target::Existing(Ok(o.at)));
        },
        End::Missing => Some(o.at),
        End::Nowhere => None,
    };
    match o.entry {
        None => Some(Target::Fresh { base, joined, leads_to }),
        Some(e) => {
            let mut dir: Vec<String> = e;
            let ghost before = dir@;
            let name: Option<String> = dir.pop();
            proof {
                if before.len() > 0 {
                    assert(texts(dir@) =~= texts(before).drop_last());
                }
            }
            Some(Target::InParent { parent: Ok(dir), name, leads_to })
        },
    }
}

/// A path below the base directory, relative to it; another path as it is
/// shown.
pub fn relative_path(base: &Vec<String>, path: &Vec<String>, shown_path: &str) -> (r: String)
    ensures
        r@ == if texts(base@).is_prefix_of(texts(path@)) {
            join(texts(path@).skip(base@.len() as int), "/"@)
        } else {
            shown_path@
        },
{
    if !is_below(base, path) {
        return owned(shown_path);
    }
    let rest: Vec<String> = parts_from(path, base.len());
    joined(&rest, "/")
}

/// A note with its metadata, given its path and its content.
pub fn read_note(path: String, content: String) -> (r: VaultNote)
    ensures
        r.path == path,
        r.content == content,
        opt_yaml(r.frontmatter) == metadata(content@),
{
    let frontmatter: Option<Yaml> = parse_frontmatter(content.as_str());
    VaultNote { path, content, frontmatter }
}

/// Decide whether a note may be moved, given whether the source is a file and
/// whether the destination exists.
pub fn check_move(
    source: &str,
    destination: &str,
    source_is_file: bool,
    destination_taken: bool,
    overwrite: bool,
) -> (r: Result<(), String>)
    ensures
        if !source_is_file {
            r is Err && r->Err_0@ == "source '"@ + source@ + "' does not exist or is not a file"@
        } else if destination_taken && !overwrite {
            r is Err && r->Err_0@ == "destination '"@ + destination@
                + "' already exists (set overwrite=true to replace)"@
        } else {
            r is Ok
        },
{
    if !source_is_file {
        Err(cat3("source '", source, "' does not exist or is not a file"))
    } else if !overwrite && destination_taken {
        Err(
            cat3(
                "destination '",
                destination,
                "' already exists (set overwrite=true to replace)",
            ),
        )
    } else {
        Ok(())
    }
}

/// Decides over the notes of a vault.
#[derive(Debug)]
pub struct VaultManager {
    config: VaultConfig,
    /// Subdirectory that all operations are restricted to, if there is one.
    scope: Option<String>,
}

impl VaultManager {
    /// The configuration.
    pub closed spec fn settings(&self) -> VaultConfig {
        self.config
    }

    /// The subdirectory that all operations are restricted to.
    pub closed spec fn scoped_to(&self) -> Option<Seq<char>> {
        opt_text(self.scope)
    }

    /// A manager for a vault; `None` if the vault is disabled or its path is no
    /// directory.
    pub fn new(config: VaultConfig, is_directory: bool) -> (r: Option<VaultManager>)
        ensures
            match r {
                Some(m) => config.enabled && is_directory && m.settings() == config
                    && m.scoped_to() is None,
                None => !config.enabled || !is_directory,
            },
    {
        if !config.enabled || !is_directory {
            return None;
        }
        Some(VaultManager { config, scope: None })
    }

    /// A manager that restricts all operations to a subdirectory of the vault;
    /// `None` if the vault is disabled or the subdirectory cannot be had.
    pub fn with_scope(config: VaultConfig, scope: &str, is_directory: bool) -> (r: Option<
        VaultManager,
    >)
        ensures
            match r {
                Some(m) => config.enabled && is_directory && m.settings() == config
                    && m.scoped_to() == Some(scope@),
                None => !config.enabled || !is_directory,
            },
    {
        if !config.enabled || !is_directory {
            return None;
        }
        Some(VaultManager { config, scope: Some(owned(scope)) })
    }

    /// The vault root path.
    pub fn root(&self) -> (r: &str)
        ensures
            r@ == self.settings().path@,
    {
        self.config.path.as_str()
    }

    /// The configuration.
    pub fn config(&self) -> (r: &VaultConfig)
        ensures
            *r == self.settings(),
    {
        &self.config
    }

    /// The subdirectory that all operations are restricted to.
    pub fn scope(&self) -> (r: Option<&str>)
        ensures
            match r {
                Some(s) => self.scoped_to() == Some(s@),
                None => self.scoped_to() is None,
            },
    {
        match &self.scope {
            Some(s) => Some(s.as_str()),
            None => None,
        }
    }
}

// ---------------------------------------------------------------------------
// Laws
// ---------------------------------------------------------------------------

/// A frontmatter text that can stand between its fences: it does not end with a
/// newline, and no line of it but perhaps the first is `---`.
pub open spec fn is_fenceable(yaml: Seq<char>) -> bool {
    without_newlines(yaml) == yaml && !contains_text(yaml + "\n"@, "\n---\n"@)
}

/// The closing fence does not stand before the end of the text.
proof fn lemma_no_early_fence(yaml: Seq<char>, body: Seq<char>, j: int)
    requires
        is_fenceable(yaml),
        0 <= j < yaml.len(),
    ensures
        !text::occurs_at(yaml + "\n---\n"@ + body, "\n---\n"@, j),
{
    reveal_strlit("\n---\n");
    reveal_strlit("\n");
    let p = "\n---\n"@;
    let rest = yaml + p + body;
    let n = yaml.len() as int;
    if text::occurs_at(rest, p, j) {
        if j + 5 <= n + 1 {
            let y = yaml + "\n"@;
            assert(y.subrange(j, j + 5) =~= rest.subrange(j, j + 5));
            assert(text::occurs_at(y, p, j));
        } else {
            assert(rest.subrange(j, j + 5)[n - j] == rest[n]);
            assert(rest[n] == p[0]);
            assert(p[n - j] == '-');
        }
    }
}

/// The closing fence is found at the end of the text.
proof fn lemma_closing_fence(yaml: Seq<char>, body: Seq<char>)
    requires
        is_fenceable(yaml),
    ensures
        index_of(yaml + "\n---\n"@ + body, "\n---\n"@, 0) == Some(yaml.len() as int),
{
    let p = "\n---\n"@;
    let rest = yaml + p + body;
    let n = yaml.len() as int;
    assert(rest.subrange(n, n + p.len()) =~= p);
    assert(text::occurs_at(rest, p, n));
    text::lemma_index_of(rest, p, 0);
    match index_of(rest, p, 0) {
        Some(i) => {
            if i < n {
                lemma_no_early_fence(yaml, body, i);
            }
        },
        None => {},
    }
}

/// A note that is put together from a frontmatter text and a body is taken
/// apart into the same text and body.
pub proof fn law_fences_read_back(yaml: Seq<char>, body: Seq<char>)
    requires
        is_fenceable(yaml),
    ensures
        fences(fenced(yaml, body)) == Some((yaml, body)),
{
    let content = fenced(yaml, body);
    let n = yaml.len() as int;
    assert("---\n"@.len() == 4 && "\n---\n"@.len() == 5) by {
        reveal_strlit("---\n");
        reveal_strlit("\n---\n");
    }
    assert(content.subrange(0, 4) =~= "---\n"@);
    let rest = content.skip(4);
    assert(rest =~= yaml + "\n---\n"@ + body);
    lemma_closing_fence(yaml, body);
    assert(rest.take(n) =~= yaml);
    assert(rest.skip(n + 5) =~= body);
}

/// A note that is put together from metadata and a body is taken apart into the
/// same metadata and body, wherever YAML reads back the text that it wrote for
/// the metadata and that text can stand between fences.
pub proof fn law_rendered_note_splits(v: YamlView, body: Seq<char>, yaml: Seq<char>)
    requires
        yaml_text(v) == Some(yaml),
        yaml_value(without_newlines(yaml)) == Some(v),
        is_fenceable(without_newlines(yaml)),
    ensures
        metadata(rendered(Some(v), body)) == Some(v),
        body_of(rendered(Some(v), body)) == body,
{
    let short = without_newlines(yaml);
    assert(fenced(yaml, body) == fenced(short, body));
    law_fences_read_back(short, body);
}

/// A text that does not begin with a fence is all body, and has no metadata.
pub proof fn law_plain_note_is_body(content: Seq<char>)
    requires
        !"---\n"@.is_prefix_of(content),
        !"---\r\n"@.is_prefix_of(content),
    ensures
        metadata(content) is None,
        body_of(content) == content,
{
}

/// Setting a key of a note's frontmatter leaves its body alone. Where YAML
/// reads back what it wrote, the key then has the value that it was set to.
pub proof fn law_set_frontmatter_reads_back(
    content: Seq<char>,
    key: Seq<char>,
    value: YamlView,
    v: YamlView,
    yaml: Seq<char>,
)
    requires
        metadata_with(metadata(content), key, value) == Some(v),
        yaml_text(v) == Some(yaml),
        is_fenceable(without_newlines(yaml)),
    ensures
        ({
            let after = rendered(Some(v), body_of(content));
            &&& body_of(after) == body_of(content)
            &&& metadata(after) == yaml_value(without_newlines(yaml))
            &&& yaml_value(without_newlines(yaml)) == Some(v) ==> match metadata(after) {
                Some(YamlView::Mapping(m)) => key_value(m, key) == Some(value),
                _ => false,
            }
        }),
{
    let short = without_newlines(yaml);
    assert(fenced(yaml, body_of(content)) == fenced(short, body_of(content)));
    law_fences_read_back(short, body_of(content));
    let m = match metadata(content) {
        Some(YamlView::Mapping(m)) => m,
        _ => seq![],
    };
    crate::mcp::yaml::law_set_key_then_get(m, key, value, key);
}

/// Adding a tag twice is adding it once.
pub proof fn law_add_tag_is_idempotent(fm: Option<YamlView>, tag: Seq<char>)
    ensures
        metadata_with_tag(Some(metadata_with_tag(fm, tag)), tag) == metadata_with_tag(fm, tag),
{
    let m = match fm {
        Some(YamlView::Mapping(m)) => m,
        _ => seq![],
    };
    let one = YamlView::Sequence(seq![YamlView::Text(tag)]);
    crate::mcp::yaml::law_set_key_then_get(m, "tags"@, one, "tags"@);
    assert(seq![YamlView::Text(tag)][0] == YamlView::Text(tag));
    assert(has_text(seq![YamlView::Text(tag)], tag));
    if let Some(YamlView::Sequence(s)) = key_value(m, "tags"@) {
        let more = s.push(YamlView::Text(tag));
        crate::mcp::yaml::law_set_key_then_get(
            m,
            "tags"@,
            YamlView::Sequence(more),
            "tags"@,
        );
        assert(more[s.len() as int] == YamlView::Text(tag));
        assert(has_text(more, tag));
    }
}

/// A list of tags with one more holds it, and all that it held before.
proof fn lemma_with_tag(tags: Seq<Seq<char>>, tag: Seq<char>, t: Seq<char>)
    ensures
        with_tag(tags, tag).contains(t) <==> tags.contains(t) || t == tag,
        tags.no_duplicates() ==> with_tag(tags, tag).no_duplicates(),
{
    if !tags.contains(tag) {
        let r = tags.push(tag);
        assert(r[tags.len() as int] == tag);
        if tags.contains(t) {
            let i = choose|i: int| 0 <= i < tags.len() && tags[i] == t;
            assert(r[i] == t);
        }
        if r.contains(t) && t != tag {
            let i = choose|i: int| 0 <= i < r.len() && r[i] == t;
            assert(tags[i] == t);
        }
        if tags.no_duplicates() {
            assert forall|i: int, j: int| 0 <= i < r.len() && 0 <= j < r.len() && i
                != j implies r[i] != r[j] by {
                if i < tags.len() && j < tags.len() {
                    assert(tags[i] != tags[j]);
                } else if i < tags.len() {
                    assert(tags.contains(tags[i]));
                } else {
                    assert(tags.contains(tags[j]));
                }
            }
        }
    }
}

/// The tags of a sequence are its texts, each once.
proof fn lemma_texts_in(s: Seq<YamlView>, t: Seq<char>)
    ensures
        texts_in(s).contains(t) <==> has_text(s, t),
        texts_in(s).no_duplicates(),
    decreases s.len(),
{
    if s.len() > 0 {
        let init = s.drop_last();
        lemma_texts_in(init, t);
        if has_text(init, t) {
            let i = choose|i: int| 0 <= i < init.len() && init[i] == YamlView::Text(t);
            assert(s[i] == YamlView::Text(t));
        }
        if has_text(s, t) {
            let i = choose|i: int| 0 <= i < s.len() && s[i] == YamlView::Text(t);
            if i < init.len() {
                assert(init[i] == YamlView::Text(t));
            }
        }
        match s.last() {
            YamlView::Text(x) => {
                lemma_with_tag(texts_in(init), x, t);
                if x == t {
                    assert(s[s.len() - 1] == YamlView::Text(t));
                }
            },
            _ => {},
        }
    }
}

/// A tag that was added to metadata that can hold tags is among its tags.
pub proof fn law_added_tag_is_listed(fm: Option<YamlView>, tag: Seq<char>)
    requires
        match fm {
            None => true,
            Some(YamlView::Mapping(m)) => key_value(m, "tags"@) is None || key_value(
                m,
                "tags"@,
            )->0 is Sequence,
            Some(_) => false,
        },
    ensures
        metadata_tags(Some(metadata_with_tag(fm, tag))).contains(tag),
{
    let m = match fm {
        Some(YamlView::Mapping(m)) => m,
        _ => seq![],
    };
    let only = seq![YamlView::Text(tag)];
    crate::mcp::yaml::law_set_key_then_get(
        m,
        "tags"@,
        YamlView::Sequence(only),
        "tags"@,
    );
    assert(only[0] == YamlView::Text(tag));
    assert(has_text(only, tag));
    lemma_texts_in(only, tag);
    if let Some(YamlView::Sequence(s)) = key_value(m, "tags"@) {
        let more = s.push(YamlView::Text(tag));
        crate::mcp::yaml::law_set_key_then_get(
            m,
            "tags"@,
            YamlView::Sequence(more),
            "tags"@,
        );
        assert(more[s.len() as int] == YamlView::Text(tag));
        assert(has_text(more, tag));
        lemma_texts_in(more, tag);
        lemma_texts_in(s, tag);
    }
}

/// A sequence without a text does not hold it.
proof fn lemma_drop_text(s: Seq<YamlView>, t: Seq<char>, y: YamlView)
    ensures
        drop_text(s, t).contains(y) <==> s.contains(y) && y != YamlView::Text(t),
    decreases s.len(),
{
    if s.len() > 0 {
        let init = s.drop_last();
        lemma_drop_text(init, t, y);
        let rest = drop_text(init, t);
        if s.contains(y) {
            let i = choose|i: int| 0 <= i < s.len() && s[i] == y;
            if i < init.len() {
                assert(init[i] == y);
            }
        }
        if init.contains(y) {
            let i = choose|i: int| 0 <= i < init.len() && init[i] == y;
            assert(s[i] == y);
        }
        if s.last() != YamlView::Text(t) {
            let r = rest.push(s.last());
            assert(r[rest.len() as int] == s.last());
            assert(s[s.len() - 1] == s.last());
            if rest.contains(y) {
                let i = choose|i: int| 0 <= i < rest.len() && rest[i] == y;
                assert(r[i] == y);
            }
            if r.contains(y) {
                let i = choose|i: int| 0 <= i < r.len() && r[i] == y;
                if i < rest.len() {
                    assert(rest[i] == y);
                }
            }
        }
    }
}

/// A tag that was removed from metadata that does not stand under a YAML tag
/// is not among its tags any more, and all other tags still are.
pub proof fn law_removed_tag_is_gone(v: YamlView, tag: Seq<char>, other: Seq<char>)
    requires
        !(v is Tagged),
        other != tag,
    ensures
        !metadata_tags(Some(metadata_without_tag(v, tag))).contains(tag),
        metadata_tags(Some(metadata_without_tag(v, tag))).contains(other) <==> metadata_tags(
            Some(v),
        ).contains(other),
{
    if let YamlView::Mapping(m) = v {
        if let Some(YamlView::Sequence(s)) = key_value(m, "tags"@) {
            let rest = drop_text(s, tag);
            crate::mcp::yaml::law_set_key_then_get(
                m,
                "tags"@,
                YamlView::Sequence(rest),
                "tags"@,
            );
            lemma_texts_in(rest, tag);
            lemma_texts_in(rest, other);
            lemma_texts_in(s, other);
            lemma_drop_text(s, tag, YamlView::Text(tag));
            lemma_drop_text(s, tag, YamlView::Text(other));
        }
    }
}

/// Adding what was found keeps a list of tags free of repetitions.
proof fn lemma_found_unique(tags: Seq<Seq<char>>, found: Seq<Option<Seq<char>>>)
    requires
        tags.no_duplicates(),
    ensures
        with_found(tags, found).no_duplicates(),
    decreases found.len(),
{
    if found.len() > 0 {
        lemma_found_unique(tags, found.drop_last());
        match found.last() {
            Some(t) => lemma_with_tag(
                with_found(tags, found.drop_last()),
                strip_repeated(t, "#"@),
                t,
            ),
            None => {},
        }
    }
}

/// Adding the tags of lines keeps a list of tags free of repetitions.
proof fn lemma_inline_unique(
    tags: Seq<Seq<char>>,
    ls: Seq<Seq<char>>,
    found: Seq<Seq<Option<Seq<char>>>>,
)
    requires
        tags.no_duplicates(),
    ensures
        with_inline(tags, ls, found).no_duplicates(),
    decreases ls.len(),
{
    if ls.len() > 0 {
        lemma_inline_unique(tags, ls.drop_last(), found);
        lemma_found_unique(with_inline(tags, ls.drop_last(), found), found[ls.len() - 1]);
    }
}

/// A note never has the same tag twice.
pub proof fn law_tags_are_unique(content: Seq<char>)
    ensures
        tags_of(content).no_duplicates(),
{
    match metadata(content) {
        Some(v) => match untagged(v) {
            YamlView::Mapping(m) => match key_value(m, "tags"@) {
                Some(YamlView::Sequence(s)) => lemma_texts_in(s, seq![]),
                _ => {},
            },
            _ => {},
        },
        None => {},
    }
    let ls = lines(body_of(content));
    lemma_inline_unique(metadata_tags(metadata(content)), ls, found_on(ls));
}

/// Where there is nothing to replace, a note stays as it is.
pub proof fn law_no_match_no_change(s: Seq<char>, p: Seq<char>, to: Seq<char>)
    requires
        plain_count(s, p) == 0,
    ensures
        plain_replaced(s, p, to) == s,
    decreases s.len(),
{
    if s.len() > 0 {
        law_no_match_no_change(s.skip(1), p, to);
        assert(seq![s[0]] + s.skip(1) =~= s);
    }
}

/// The hits in a note come in the order of its lines, one for each line that
/// is searched for, with the line's own number and text.
pub proof fn law_hits_are_the_matching_lines(
    path: Seq<char>,
    ls: Seq<Seq<char>>,
    flags: Seq<bool>,
    n: int,
)
    requires
        0 <= n <= ls.len(),
        flags.len() == ls.len(),
    ensures
        forall|k: int|
            0 <= k < hits(path, ls, flags, n).len() ==> {
                let h = #[trigger] hits(path, ls, flags, n)[k];
                &&& 1 <= h.line_number <= n
                &&& flags[h.line_number - 1]
                &&& h.line == ls[h.line_number - 1]
                &&& h.path == path
            },
        forall|j: int, k: int|
            0 <= j < k < hits(path, ls, flags, n).len() ==> (#[trigger] hits(
                path,
                ls,
                flags,
                n,
            )[j]).line_number < (#[trigger] hits(path, ls, flags, n)[k]).line_number,
        forall|i: int|
            0 <= i < n && #[trigger] flags[i] ==> exists|k: int|
                0 <= k < hits(path, ls, flags, n).len() && (#[trigger] hits(
                    path,
                    ls,
                    flags,
                    n,
                )[k]).line_number == i + 1,
    decreases n,
{
    if n > 0 {
        law_hits_are_the_matching_lines(path, ls, flags, n - 1);
        let before = hits(path, ls, flags, n - 1);
        let now = hits(path, ls, flags, n);
        assert forall|i: int| 0 <= i < n && #[trigger] flags[i] implies exists|k: int|
            0 <= k < now.len() && (#[trigger] now[k]).line_number == i + 1 by {
            if i < n - 1 {
                let k = choose|k: int|
                    0 <= k < before.len() && (#[trigger] before[k]).line_number == i + 1;
                assert(now[k].line_number == i + 1);
            } else {
                assert(now[before.len() as int].line_number == i + 1);
            }
        }
    }
}

/// A list of entries is in the order of their paths.
pub open spec fn by_path(s: Seq<(Seq<char>, bool, Option<u64>)>) -> bool {
    forall|i: int, j: int| 0 <= i < j < s.len() ==> text_le((#[trigger] s[i]).0, (#[trigger] s[j]).0)
}

/// Inserting an entry keeps the order.
proof fn lemma_inserted_by_path(
    s: Seq<(Seq<char>, bool, Option<u64>)>,
    e: (Seq<char>, bool, Option<u64>),
)
    requires
        by_path(s),
    ensures
        by_path(inserted(s, e)),
        inserted(s, e).len() == s.len() + 1,
        forall|k: int|
            0 <= k < inserted(s, e).len() ==> #[trigger] inserted(s, e)[k] == e || s.contains(
                inserted(s, e)[k],
            ),
    decreases s.len(),
{
    let r = inserted(s, e);
    if s.len() == 0 || text_le(s.last().0, e.0) {
        assert forall|i: int, j: int| 0 <= i < j < r.len() implies text_le(
            (#[trigger] r[i]).0,
            (#[trigger] r[j]).0,
        ) by {
            if j == s.len() {
                if i < s.len() - 1 {
                    assert(text_le(s[i].0, s[s.len() - 1].0));
                    lemma_text_order_transitive(s[i].0, s.last().0, e.0);
                }
            } else {
                assert(text_le(s[i].0, s[j].0));
            }
        }
        assert forall|k: int| 0 <= k < r.len() implies #[trigger] r[k] == e || s.contains(r[k]) by {
            if k < s.len() {
                assert(s[k] == r[k]);
            }
        }
    } else {
        let init = s.drop_last();
        assert(by_path(init)) by {
            assert forall|i: int, j: int| 0 <= i < j < init.len() implies text_le(
                (#[trigger] init[i]).0,
                (#[trigger] init[j]).0,
            ) by {
                assert(text_le(s[i].0, s[j].0));
            }
        }
        lemma_inserted_by_path(init, e);
        let front = inserted(init, e);
        lemma_text_order(s.last().0, e.0);
        assert forall|i: int, j: int| 0 <= i < j < r.len() implies text_le(
            (#[trigger] r[i]).0,
            (#[trigger] r[j]).0,
        ) by {
            if j == front.len() {
                assert(r[i] == front[i]);
                if front[i] != e {
                    let k = choose|k: int| 0 <= k < init.len() && init[k] == front[i];
                    assert(text_le(s[k].0, s[s.len() - 1].0));
                }
            } else {
                assert(text_le(front[i].0, front[j].0));
            }
        }
        assert forall|k: int| 0 <= k < r.len() implies #[trigger] r[k] == e || s.contains(r[k]) by {
            if k < front.len() {
                assert(r[k] == front[k]);
                if front[k] != e {
                    let q = choose|q: int| 0 <= q < init.len() && init[q] == front[k];
                    assert(s[q] == r[k]);
                }
            } else {
                assert(s[s.len() - 1] == r[k]);
            }
        }
    }
}

/// A listing is in the order of the paths.
pub proof fn law_listing_is_sorted(config: VaultConfig, found: Seq<Found>)
    ensures
        by_path(listing(config, found)),
    decreases found.len(),
{
    if found.len() > 0 {
        law_listing_is_sorted(config, found.drop_last());
        if is_listed(config, found.last()) {
            lemma_inserted_by_path(listing(config, found.drop_last()), entry_for(found.last()));
        }
    }
}

/// A list of files is in the order of their modification, latest first.
pub open spec fn by_recency(s: Seq<(Seq<char>, u64, i128)>) -> bool {
    forall|i: int, j: int| 0 <= i < j < s.len() ==> (#[trigger] s[i]).2 >= (#[trigger] s[j]).2
}

/// Placing a file keeps the order.
proof fn lemma_placed_by_recency(s: Seq<(Seq<char>, u64, i128)>, f: (Seq<char>, u64, i128))
    requires
        by_recency(s),
    ensures
        by_recency(placed(s, f)),
        placed(s, f).len() == s.len() + 1,
        forall|k: int|
            0 <= k < placed(s, f).len() ==> #[trigger] placed(s, f)[k] == f || s.contains(
                placed(s, f)[k],
            ),
    decreases s.len(),
{
    let r = placed(s, f);
    if s.len() == 0 || s.last().2 >= f.2 {
        assert forall|i: int, j: int| 0 <= i < j < r.len() implies (#[trigger] r[i]).2 >= (
        #[trigger] r[j]).2 by {
            if j == s.len() {
                if i < s.len() - 1 {
                    assert(s[i].2 >= s[s.len() - 1].2);
                }
            } else {
                assert(s[i].2 >= s[j].2);
            }
        }
        assert forall|k: int| 0 <= k < r.len() implies #[trigger] r[k] == f || s.contains(r[k]) by {
            if k < s.len() {
                assert(s[k] == r[k]);
            }
        }
    } else {
        let init = s.drop_last();
        assert(by_recency(init)) by {
            assert forall|i: int, j: int| 0 <= i < j < init.len() implies (#[trigger] init[i]).2 >= (
            #[trigger] init[j]).2 by {
                assert(s[i].2 >= s[j].2);
            }
        }
        lemma_placed_by_recency(init, f);
        let front = placed(init, f);
        assert forall|i: int, j: int| 0 <= i < j < r.len() implies (#[trigger] r[i]).2 >= (
        #[trigger] r[j]).2 by {
            if j == front.len() {
                assert(r[i] == front[i]);
                if front[i] != f {
                    let k = choose|k: int| 0 <= k < init.len() && init[k] == front[i];
                    assert(s[k].2 >= s[s.len() - 1].2);
                }
            } else {
                assert(front[i].2 >= front[j].2);
            }
        }
        assert forall|k: int| 0 <= k < r.len() implies #[trigger] r[k] == f || s.contains(r[k]) by {
            if k < front.len() {
                assert(r[k] == front[k]);
                if front[k] != f {
                    let q = choose|q: int| 0 <= q < init.len() && init[q] == front[k];
                    assert(s[q] == r[k]);
                }
            } else {
                assert(s[s.len() - 1] == r[k]);
            }
        }
    }
}

/// The recent files come latest first, and before they are cut off there is one
/// for each note.
pub proof fn law_recent_files_are_sorted(config: VaultConfig, ws: Seq<Walked>)
    ensures
        by_recency(recents_in(config, ws)),
        recents_in(config, ws).len() == notes_in(config, ws),
    decreases ws.len(),
{
    if ws.len() > 0 {
        law_recent_files_are_sorted(config, ws.drop_last());
        match ws.last().meta {
            Some(meta) => lemma_placed_by_recency(
                recents_in(config, ws.drop_last()),
                (ws.last().path@, meta.0, meta.1),
            ),
            None => {},
        }
    }
}

} // verus!
