//! What editing the metadata of a note does to the note.

use crate::mcp::vault::{
    add_tag, body_of, delete_frontmatter, drop_text, metadata, parse_frontmatter,
    read_note, remove_tag, render_with_frontmatter, set_frontmatter, split_fences, split_frontmatter, text_le,
    without_newlines, VaultNote,
};
use crate::mcp::yaml::{
    key_place, key_value, law_removed_key_is_gone, law_set_key_then_get, lemma_key_place, opt_yaml,
    with_key, without_key, yaml_text, Yaml, YamlView,
};
use crate::text::{contains_text, index_of, lemma_contains_index_of, lemma_index_of, occurs_at};
use vstd::prelude::*;

verus! {

/// A note consists of metadata between fences and a body.
pub open spec fn consists_of(
    note: Seq<char>,
    m: Seq<(YamlView, YamlView)>,
    body: Seq<char>,
) -> bool {
    note == "---\n"@ + without_newlines(
        match yaml_text(YamlView::Mapping(m)) {
            Some(t) => t,
            None => Seq::<char>::empty(),
        },
    ) + "\n---\n"@ + body
}

/// The entries of metadata; none where there is no metadata.
pub open spec fn entries_of(fm: Option<YamlView>) -> Seq<(YamlView, YamlView)> {
    match fm {
        Some(YamlView::Mapping(m)) => m,
        _ => Seq::<(YamlView, YamlView)>::empty(),
    }
}

/// Metadata has entries, or there is none.
pub open spec fn has_entries(fm: Option<YamlView>) -> bool {
    fm is None || fm->0 is Mapping
}

/// Two lists of entries differ in one key at most.
pub open spec fn only_key(
    a: Seq<(YamlView, YamlView)>,
    b: Seq<(YamlView, YamlView)>,
    key: Seq<char>,
) -> bool {
    forall|other: Seq<char>|
        other != key ==> #[trigger] key_value(a, other) == key_value(b, other)
}

/// Setting a key gives it the value, keeps all other keys and keeps the body.
/// Metadata that has no entries is refused.
pub proof fn law_setting_sets_one_key(
    content: &str,
    key: &str,
    value: Yaml,
    r: Result<String, String>,
)
    requires
        call_ensures(set_frontmatter, (content, key, value), r),
    ensures
        r is Ok <==> has_entries(metadata(content@)),
        r matches Ok(note) ==> exists|m: Seq<(YamlView, YamlView)>|
            #[trigger] consists_of(note@, m, body_of(content@)) && key_value(m, key@)
                == Some(value@) && only_key(m, entries_of(metadata(content@)), key@),
{
    if r is Ok {
        let before = entries_of(metadata(content@));
        let m = with_key(before, key@, value@);
        law_set_key_then_get(before, key@, value@, key@);
        assert forall|other: Seq<char>| other != key@ implies #[trigger] key_value(m, other)
            == key_value(before, other) by {
            law_set_key_then_get(before, key@, value@, other);
        }
        assert(consists_of(r->Ok_0@, m, body_of(content@)));
    }
}

/// Deleting a key takes it away, keeps all other keys and keeps the body; where
/// no key is left, the body is all that is left. A note without metadata is
/// left alone.
pub proof fn law_deleting_takes_one_key(content: &str, key: &str, r: Option<String>)
    requires
        call_ensures(delete_frontmatter, (content, key), r),
        metadata(content@) is Some ==> metadata(content@)->0 is Mapping
            && crate::mcp::yaml::keys_differ(entries_of(metadata(content@))),
    ensures
        r is Some <==> metadata(content@) is Some,
        r matches Some(note) ==> note@ == body_of(content@) || exists|
            m: Seq<(YamlView, YamlView)>,
        |
            #[trigger] consists_of(note@, m, body_of(content@)) && key_value(m, key@)
                is None && only_key(m, entries_of(metadata(content@)), key@) && m.len() > 0,
        r matches Some(note) ==> forall|other: Seq<char>|
            other != key@ && #[trigger] key_value(entries_of(metadata(content@)), other) is Some
                ==> exists|m: Seq<(YamlView, YamlView)>| #[trigger]
                consists_of(note@, m, body_of(content@)) && key_value(m, other) == key_value(
                    entries_of(metadata(content@)),
                    other,
                ),
{
    if r is Some {
        let before = entries_of(metadata(content@));
        let m = without_key(before, key@);
        assert forall|other: Seq<char>| other != key@ implies #[trigger] key_value(m, other)
            == key_value(before, other) by {
            law_removed_key_is_gone(before, key@, other);
        }
        let another = key@.push('a');
        assert(another.len() != key@.len());
        law_removed_key_is_gone(before, key@, another);
        if m.len() > 0 {
            assert(consists_of(r->0@, m, body_of(content@)));
        } else {
            assert forall|other: Seq<char>| other != key@ implies #[trigger] key_value(
                before,
                other,
            ) is None by {
                assert(key_value(m, other) is None);
            }
        }
    }
}

/// Metadata can list tags: it lists some, or none yet.
pub open spec fn can_list_tags(fm: Option<YamlView>) -> bool {
    has_entries(fm) && (key_value(entries_of(fm), "tags"@) is Some ==> key_value(
        entries_of(fm),
        "tags"@,
    )->0 is Sequence)
}

/// The tags that metadata lists, with whatever else stands among them.
pub open spec fn tag_list(m: Seq<(YamlView, YamlView)>) -> Seq<YamlView> {
    match key_value(m, "tags"@) {
        Some(YamlView::Sequence(s)) => s,
        _ => Seq::<YamlView>::empty(),
    }
}

/// Adding a tag puts it at the end of the tags, unless it is there already, and
/// keeps all else.
pub proof fn law_adding_lists_one_tag(content: &str, tag: &str, note: String)
    requires
        call_ensures(add_tag, (content, tag), note),
        can_list_tags(metadata(content@)),
    ensures
        exists|m: Seq<(YamlView, YamlView)>|
            {
                let before = entries_of(metadata(content@));
                &&& #[trigger] consists_of(note@, m, body_of(content@))
                &&& only_key(m, before, "tags"@)
                &&& tag_list(m) == if tag_list(before).contains(YamlView::Text(tag@)) {
                    tag_list(before)
                } else {
                    tag_list(before).push(YamlView::Text(tag@))
                }
            },
{
    let before = entries_of(metadata(content@));
    let held = tag_list(before).contains(YamlView::Text(tag@));
    let list = YamlView::Sequence(tag_list(before).push(YamlView::Text(tag@)));
    assert(seq![YamlView::Text(tag@)] =~= Seq::<YamlView>::empty().push(YamlView::Text(tag@)));
    let m = if held {
        before
    } else {
        with_key(before, "tags"@, list)
    };
    law_set_key_then_get(before, "tags"@, list, "tags"@);
    assert forall|other: Seq<char>| other != "tags"@ implies #[trigger] key_value(m, other)
        == key_value(before, other) by {
        law_set_key_then_get(before, "tags"@, list, other);
    }
    assert(consists_of(note@, m, body_of(content@)));
}

/// Dropping a text keeps the others in their order.
proof fn lemma_drop_text_filters(s: Seq<YamlView>, t: Seq<char>)
    ensures
        drop_text(s, t) == s.filter(|v: YamlView| v != YamlView::Text(t)),
    decreases s.len(),
{
    reveal(Seq::filter);
    if s.len() > 0 {
        lemma_drop_text_filters(s.drop_last(), t);
    }
}

/// Removing a tag takes it out of the tags and keeps all else, the order of the
/// other tags too. A note without metadata is left alone.
pub proof fn law_removing_takes_one_tag(content: &str, tag: &str, r: Option<String>)
    requires
        call_ensures(remove_tag, (content, tag), r),
        can_list_tags(metadata(content@)),
    ensures
        r is Some <==> metadata(content@) is Some,
        r matches Some(note) ==> exists|m: Seq<(YamlView, YamlView)>|
            {
                let before = entries_of(metadata(content@));
                &&& #[trigger] consists_of(note@, m, body_of(content@))
                &&& only_key(m, before, "tags"@)
                &&& tag_list(m) == tag_list(before).filter(
                    |v: YamlView| v != YamlView::Text(tag@),
                )
            },
{
    if r is Some {
        let before = entries_of(metadata(content@));
        let left = drop_text(tag_list(before), tag@);
        lemma_drop_text_filters(tag_list(before), tag@);
        let list = YamlView::Sequence(left);
        let m = match key_value(before, "tags"@) {
            Some(YamlView::Sequence(_)) => with_key(before, "tags"@, list),
            _ => before,
        };
        law_set_key_then_get(before, "tags"@, list, "tags"@);
        assert forall|other: Seq<char>| other != "tags"@ implies #[trigger] key_value(m, other)
            == key_value(before, other) by {
            law_set_key_then_get(before, "tags"@, list, other);
        }
        reveal(Seq::filter);
        assert(consists_of(r->0@, m, body_of(content@)));
    }
}

/// A key is found at its first place, and nowhere if it has none.
pub proof fn law_key_is_found_at_its_place(m: Seq<(YamlView, YamlView)>, key: Seq<char>, i: int)
    requires
        0 <= i < m.len(),
        m[i].0 == YamlView::Text(key),
        forall|k: int| 0 <= k < i ==> (#[trigger] m[k]).0 != YamlView::Text(key),
    ensures
        key_value(m, key) == Some(m[i].1),
{
    lemma_key_place(m, key);
    assert(key_place(m, key) == i);
}

/// Reading and splitting a note give the same metadata; without metadata a note
/// is written as its body alone.
pub proof fn law_note_is_read_as_it_is(
    content: &str,
    parsed: Option<Yaml>,
    parts: (Option<Yaml>, String),
    path: String,
    whole: String,
    note: VaultNote,
    body: &str,
    plain: String,
)
    requires
        call_ensures(parse_frontmatter, (content,), parsed),
        call_ensures(split_frontmatter, (content,), parts),
        whole@ == content@,
        call_ensures(read_note, (path, whole), note),
        call_ensures(render_with_frontmatter, (None, body), plain),
    ensures
        opt_yaml(parts.0) == opt_yaml(parsed),
        opt_yaml(note.frontmatter) == opt_yaml(parsed),
        note.path == path,
        note.content == whole,
        parts.1@.is_suffix_of(content@),
        plain@ == body@,
{
    reveal_strlit("---\n");
    reveal_strlit("---\r\n");
    reveal_strlit("\n---\n");
    reveal_strlit("\n---\r\n");
    reveal_strlit("\n---");
    lemma_body_is_suffix(content@);
}

/// The body of a note is its end.
pub proof fn lemma_body_is_suffix(content: Seq<char>)
    ensures
        body_of(content).is_suffix_of(content),
{
    reveal_strlit("---\n");
    reveal_strlit("---\r\n");
    reveal_strlit("\n---\n");
    reveal_strlit("\n---\r\n");
    reveal_strlit("\n---");
    let body = body_of(content);
    let rest = content.skip(4);
    crate::text::lemma_index_of(rest, "\n---\n"@, 0);
    crate::text::lemma_index_of(rest, "\n---\r\n"@, 0);
    assert(content.subrange(content.len() - body.len(), content.len() as int) =~= body);
}

/// Texts are in the order of their first characters that differ; a beginning
/// comes before the whole.
pub proof fn law_order_is_by_characters(
    start: Seq<char>,
    a: char,
    b: char,
    x: Seq<char>,
    y: Seq<char>,
)
    requires
        a < b,
    ensures
        text_le(start + seq![a] + x, start + seq![b] + y),
        !text_le(start + seq![b] + y, start + seq![a] + x),
        text_le(start, start + x),
        x.len() > 0 ==> !text_le(start + x, start),
    decreases start.len(),
{
    let p = start + seq![a] + x;
    let q = start + seq![b] + y;
    if start.len() > 0 {
        let rest = start.skip(1);
        law_order_is_by_characters(rest, a, b, x, y);
        assert(p.skip(1) =~= rest + seq![a] + x);
        assert(q.skip(1) =~= rest + seq![b] + y);
        assert((start + x).skip(1) =~= rest + x);
        assert(p[0] == start[0] && q[0] == start[0] && (start + x)[0] == start[0]);
    } else {
        assert(p[0] == a && q[0] == b);
    }
}

/// The closing fence may end with a carriage return and a newline, or with the
/// note. Without a closing fence there is no metadata.
#[verifier::rlimit(40)]
pub proof fn law_closing_fence_may_end_otherwise(
    yaml: Seq<char>,
    body: Seq<char>,
    dos: &str,
    a: Option<(String, String)>,
    last: &str,
    b: Option<(String, String)>,
    open: &str,
    c: Option<(String, String)>,
)
    requires
        dos@ == "---\n"@ + yaml + "\n---\r\n"@ + body,
        !contains_text(dos@.skip(4), "\n---\n"@),
        forall|j: int|
            0 <= j < yaml.len() ==> !occurs_at(dos@.skip(4), "\n---\r\n"@, j),
        call_ensures(split_fences, (dos,), a),
        last@ == "---\n"@ + yaml + "\n---"@,
        !contains_text(last@.skip(4), "\n---\n"@),
        !contains_text(last@.skip(4), "\n---\r\n"@),
        call_ensures(split_fences, (last,), b),
        !contains_text(open@, "\n---"@),
        open@.len() >= 4,
        call_ensures(split_fences, (open,), c),
    ensures
        a matches Some((front, rest)) && front@ == yaml && rest@ == body,
        b matches Some((front, rest)) && front@ == yaml && rest@.len() == 0,
        c is None,
{
    reveal_strlit("---\n");
    reveal_strlit("---\r\n");
    reveal_strlit("\n---\n");
    reveal_strlit("\n---\r\n");
    reveal_strlit("\n---");
    let n = yaml.len() as int;
    assert(dos@.take(4) =~= "---\n"@);
    let x = dos@.skip(4);
    assert(x =~= yaml + "\n---\r\n"@ + body);
    lemma_contains_index_of(x, "\n---\n"@);
    lemma_index_of(x, "\n---\r\n"@, 0);
    assert(x.subrange(n, n + 6) =~= "\n---\r\n"@);
    assert(occurs_at(x, "\n---\r\n"@, n));
    assert(index_of(x, "\n---\r\n"@, 0) == Some(n));
    assert(x.take(n) =~= yaml);
    assert(x.skip(n + 6) =~= body);
    assert(last@.take(4) =~= "---\n"@);
    let y = last@.skip(4);
    assert(y =~= yaml + "\n---"@);
    lemma_contains_index_of(y, "\n---\n"@);
    lemma_contains_index_of(y, "\n---\r\n"@);
    assert(y.subrange(y.len() - 4, y.len() as int) =~= "\n---"@);
    assert(y.take(y.len() - 4) =~= yaml);
    let z = open@.skip(4);
    lemma_no_fence(open@, "\n---\n"@);
    lemma_no_fence(open@, "\n---\r\n"@);
    if "\n---"@.is_suffix_of(z) {
        let k = open@.len() - 4;
        assert(z.subrange(z.len() - 4, z.len() as int) =~= open@.subrange(k, k + 4));
        assert(occurs_at(open@, "\n---"@, k));
    }
}

/// A text without the beginning of a fence has no fence.
proof fn lemma_no_fence(s: Seq<char>, fence: Seq<char>)
    requires
        s.len() >= 4,
        !contains_text(s, "\n---"@),
        fence.len() >= 4,
        fence.take(4) =~= "\n---"@,
    ensures
        index_of(s.skip(4), fence, 0) is None,
{
    reveal_strlit("\n---");
    let t = s.skip(4);
    lemma_index_of(t, fence, 0);
    if index_of(t, fence, 0) is Some {
        let i = index_of(t, fence, 0)->0;
        assert(t.subrange(i, i + fence.len()).take(4) =~= s.subrange(i + 4, i + 8));
        assert(occurs_at(s, "\n---"@, i + 4));
    }
}

} // verus!
