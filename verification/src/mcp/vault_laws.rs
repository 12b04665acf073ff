//! What tags, searches, replacements and listings of a vault promise.

use crate::mcp::pattern::{
    pattern_count, pattern_error, pattern_groups, pattern_matches, pattern_replaced,
};
use crate::config::VaultConfig;
use crate::mcp::vault::{
    all_hits, batch_entry, body_of, by_path, by_recency, check_batch, check_move, counts,
    entries_view, entry_for, extract_tags, folders_in, found_on, hit, hits, hits_view, in_code,
    inserted, interleaved, is_found, is_listed, law_listing_is_sorted, law_recent_files_are_sorted,
    law_tags_are_unique, limited, list_notes, listing, metadata, metadata_tags, note_hits,
    notes_in, placed, plain_count, plain_replaced, recents_in, recents_view, relative_path, resolve_path,
    search, search_replace, size_in, stats, tags_of, target_of, text_le, texts_in, untagged, with_found,
    with_inline, with_tag, write_note, written, BatchEntry, Found, HitView, NoteEntry, NoteFile,
    SearchResult, Target, VaultManager, VaultNote, VaultStats, Walked, WriteMode,
};
use crate::mcp::walk::{End, Walk};
use crate::mcp::yaml::{key_value, YamlView};
use crate::text::{
    byte_size, index_of, join, lemma_index_of, lines, occurs_at, split, strip_repeated, texts,
};
use crate::text_laws::{
    law_no_line_holds_a_newline, law_replace_goes_from_left_to_right, law_split_undoes_join,
    law_stripping_takes_all_copies,
};
use vstd::prelude::*;

verus! {

// ---------------------------------------------------------------------------
// Tags
// ---------------------------------------------------------------------------

/// Metadata lists a tag: under `tags` stands a list with it.
pub open spec fn lists_tag(fm: Option<YamlView>, tag: Seq<char>) -> bool {
    &&& fm is Some
    &&& untagged(fm->0) is Mapping
    &&& key_value(untagged(fm->0)->Mapping_0, "tags"@) is Some
    &&& key_value(untagged(fm->0)->Mapping_0, "tags"@)->0 is Sequence
    &&& key_value(untagged(fm->0)->Mapping_0, "tags"@)->0->Sequence_0.contains(YamlView::Text(tag))
}

/// How many of the lines begin or end a code block.
pub open spec fn fence_count(ls: Seq<Seq<char>>) -> nat {
    ls.filter(|line: Seq<char>| "```"@.is_prefix_of(line)).len()
}

/// A line is text, and no part of a code block: it is no fence, and every
/// block that was opened before it is closed.
pub open spec fn is_prose(ls: Seq<Seq<char>>, i: int) -> bool {
    !"```"@.is_prefix_of(ls[i]) && fence_count(ls.take(i)) % 2 == 0
}

/// A tag is marked on a line: a hash mark at the beginning, after white space
/// or after a bracket, and then the tag.
pub open spec fn marks_tag(line: Seq<char>, tag: Seq<char>) -> bool {
    let marks = pattern_groups("(?:^|[\\s(])(#[a-zA-Z][a-zA-Z0-9_/-]*)"@, line);
    &&& pattern_error("(?:^|[\\s(])(#[a-zA-Z][a-zA-Z0-9_/-]*)"@) is None
    &&& exists|k: int|
        0 <= k < marks.len() && #[trigger] marks[k] is Some && strip_repeated(marks[k]->0, "#"@) == tag
}

/// The text of a note marks a tag.
pub open spec fn prose_marks_tag(ls: Seq<Seq<char>>, tag: Seq<char>) -> bool {
    exists|i: int| 0 <= i < ls.len() && is_prose(ls, i) && #[trigger] marks_tag(ls[i], tag)
}

/// A note has a tag: its metadata lists it, or its text marks it.
pub open spec fn has_tag(content: Seq<char>, tag: Seq<char>) -> bool {
    lists_tag(metadata(content), tag) || prose_marks_tag(lines(body_of(content)), tag)
}

/// A code block is open after an odd number of fences.
proof fn lemma_in_code(ls: Seq<Seq<char>>)
    ensures
        in_code(ls) == (fence_count(ls) % 2 == 1),
    decreases ls.len(),
{
    reveal(Seq::filter);
    if ls.len() > 0 {
        lemma_in_code(ls.drop_last());
    }
}

/// Texts in a list are exactly its texts.
proof fn lemma_texts_in_contains(s: Seq<YamlView>, t: Seq<char>)
    ensures
        texts_in(s).contains(t) <==> s.contains(YamlView::Text(t)),
    decreases s.len(),
{
    if s.len() > 0 {
        let init = s.drop_last();
        lemma_texts_in_contains(init, t);
        lemma_with_tag_contains(texts_in(init), s.last()->Text_0, t);
        assert(s =~= init.push(s.last()));
        assert(s.contains(YamlView::Text(t)) <==> init.contains(YamlView::Text(t)) || s.last()
            == YamlView::Text(t)) by {
            if init.contains(YamlView::Text(t)) {
                let k = choose|k: int| 0 <= k < init.len() && init[k] == YamlView::Text(t);
                assert(s[k] == YamlView::Text(t));
            }
            if s.contains(YamlView::Text(t)) && s.last() != YamlView::Text(t) {
                let k = choose|k: int| 0 <= k < s.len() && s[k] == YamlView::Text(t);
                assert(init[k] == YamlView::Text(t));
            }
            if s.last() == YamlView::Text(t) {
                assert(s[s.len() - 1] == YamlView::Text(t));
            }
        }
    }
}

/// A list with one more tag holds that tag and those it held.
proof fn lemma_with_tag_contains(tags: Seq<Seq<char>>, tag: Seq<char>, t: Seq<char>)
    ensures
        with_tag(tags, tag).contains(t) <==> tags.contains(t) || t == tag,
{
    if !tags.contains(tag) {
        let now = tags.push(tag);
        if tags.contains(t) {
            let k = choose|k: int| 0 <= k < tags.len() && tags[k] == t;
            assert(now[k] == t);
        }
        if t == tag {
            assert(now[tags.len() as int] == t);
        }
        if now.contains(t) && t != tag {
            let k = choose|k: int| 0 <= k < now.len() && now[k] == t;
            assert(tags[k] == t);
        }
    }
}

/// What was found on a line is added, and nothing else.
proof fn lemma_with_found_contains(
    tags: Seq<Seq<char>>,
    found: Seq<Option<Seq<char>>>,
    t: Seq<char>,
)
    ensures
        with_found(tags, found).contains(t) <==> tags.contains(t) || exists|k: int|
            0 <= k < found.len() && #[trigger] found[k] is Some && strip_repeated(found[k]->0, "#"@)
                == t,
    decreases found.len(),
{
    if found.len() > 0 {
        let init = found.drop_last();
        lemma_with_found_contains(tags, init, t);
        lemma_with_tag_contains(
            with_found(tags, init),
            strip_repeated(found.last()->0, "#"@),
            t,
        );
        assert(forall|k: int| 0 <= k < init.len() ==> #[trigger] init[k] == found[k]);
        assert(found.last() == found[found.len() - 1]);
        if exists|k: int|
            0 <= k < init.len() && #[trigger] init[k] is Some && strip_repeated(init[k]->0, "#"@)
                == t {
            let k = choose|k: int|
                0 <= k < init.len() && #[trigger] init[k] is Some && strip_repeated(
                    init[k]->0,
                    "#"@,
                ) == t;
            assert(found[k] is Some && strip_repeated(found[k]->0, "#"@) == t);
        }
        if exists|k: int|
            0 <= k < found.len() && #[trigger] found[k] is Some && strip_repeated(found[k]->0, "#"@)
                == t {
            let k = choose|k: int|
                0 <= k < found.len() && #[trigger] found[k] is Some && strip_repeated(
                    found[k]->0,
                    "#"@,
                ) == t;
            if k < init.len() {
                assert(init[k] is Some && strip_repeated(init[k]->0, "#"@) == t);
            }
        }
    }
}

/// What the text marks is added, and nothing else.
#[verifier::rlimit(40)]
proof fn lemma_with_inline_contains(
    tags: Seq<Seq<char>>,
    ls: Seq<Seq<char>>,
    found: Seq<Seq<Option<Seq<char>>>>,
    t: Seq<char>,
)
    requires
        found.len() >= ls.len(),
        forall|i: int| 0 <= i < ls.len() ==> #[trigger] found[i] == found_on(ls)[i],
    ensures
        with_inline(tags, ls, found).contains(t) <==> tags.contains(t) || prose_marks_tag(ls, t),
    decreases ls.len(),
{
    if ls.len() > 0 {
        let init = ls.drop_last();
        let n = ls.len() - 1;
        assert forall|i: int| 0 <= i < init.len() implies #[trigger] found[i] == found_on(init)[i] by {
            assert(found_on(init)[i] == found_on(ls)[i]);
        }
        lemma_with_inline_contains(tags, init, found, t);
        lemma_in_code(init);
        assert(ls.take(n) =~= init);
        assert(found[n] == found_on(ls)[n]);
        lemma_with_found_contains(with_inline(tags, init, found), found[n], t);
        assert forall|i: int| 0 <= i < n implies is_prose(ls, i) == #[trigger] is_prose(init, i) by {
            assert(ls.take(i) =~= init.take(i));
        }
        if prose_marks_tag(init, t) {
            let i = choose|i: int|
                0 <= i < init.len() && is_prose(init, i) && #[trigger] marks_tag(init[i], t);
            assert(is_prose(ls, i) && marks_tag(ls[i], t));
        }
        if prose_marks_tag(ls, t) {
            let i = choose|i: int|
                0 <= i < ls.len() && is_prose(ls, i) && #[trigger] marks_tag(ls[i], t);
            if i < n {
                assert(is_prose(init, i) && marks_tag(init[i], t));
            }
        }
        if is_prose(ls, n) {
            assert(marks_tag(ls[n], t) <==> exists|k: int|
                0 <= k < found[n].len() && #[trigger] found[n][k] is Some && strip_repeated(
                    found[n][k]->0,
                    "#"@,
                ) == t);
        }
    }
}

/// A note's tags are those that its metadata lists and those that its text
/// marks outside code blocks, and no others.
pub proof fn law_note_has_its_tags(content: Seq<char>, tag: Seq<char>)
    ensures
        tags_of(content).contains(tag) <==> has_tag(content, tag),
{
    let ls = lines(body_of(content));
    lemma_with_inline_contains(metadata_tags(metadata(content)), ls, found_on(ls), tag);
    match metadata(content) {
        Some(v) => match untagged(v) {
            YamlView::Mapping(m) => match key_value(m, "tags"@) {
                Some(YamlView::Sequence(s)) => lemma_texts_in_contains(s, tag),
                _ => {},
            },
            _ => {},
        },
        None => {},
    }
}

/// A tag is read without the hash marks before it.
pub proof fn law_marked_tag_has_no_hash(marks: Seq<char>, tag: Seq<char>)
    requires
        forall|i: int| 0 <= i < marks.len() ==> #[trigger] marks[i] == '#',
        tag.len() == 0 || tag[0] != '#',
    ensures
        strip_repeated(marks + tag, "#"@) == tag,
{
    reveal_strlit("#");
    assert("#"@ =~= seq!['#']);
    law_stripping_takes_all_copies(marks, '#', tag);
}

// ---------------------------------------------------------------------------
// Searching
// ---------------------------------------------------------------------------

/// A line holds what is searched for.
pub open spec fn holds_query(line: Seq<char>, query: Seq<char>, is_regex: bool) -> bool {
    if is_regex {
        pattern_matches(query, line)
    } else {
        exists|i: int|
            0 <= i && i + query.len() <= line.len() && #[trigger] line.subrange(i, i + query.len())
                == query
    }
}

/// A tag narrows a search to the notes that have it, by metadata or by text:
/// there the hits are those of a search without a tag, and elsewhere there are
/// none.
pub proof fn law_tag_narrows_a_note(
    note: NoteFile,
    query: Seq<char>,
    is_regex: bool,
    tag: String,
)
    ensures
        note_hits(note, query, is_regex, Some(tag)) == if has_tag(note.content@, tag@) {
            note_hits(note, query, is_regex, None)
        } else {
            Seq::<HitView>::empty()
        },
{
    law_note_has_its_tags(note.content@, tag@);
}

/// A search with a tag finds what a search without one finds in the notes that
/// have the tag.
pub proof fn law_tag_narrows_a_search(
    notes: Seq<NoteFile>,
    query: Seq<char>,
    is_regex: bool,
    tag: String,
)
    ensures
        all_hits(notes, query, is_regex, Some(tag)) == all_hits(
            notes.filter(|note: NoteFile| has_tag(note.content@, tag@)),
            query,
            is_regex,
            None,
        ),
    decreases notes.len(),
{
    reveal(Seq::filter);
    if notes.len() > 0 {
        let has = |note: NoteFile| has_tag(note.content@, tag@);
        let init = notes.drop_last();
        law_tag_narrows_a_search(init, query, is_regex, tag);
        law_tag_narrows_a_note(notes.last(), query, is_regex, tag);
        let before = init.filter(has);
        if has(notes.last()) {
            assert(before.push(notes.last()).drop_last() =~= before);
            assert(notes.filter(has) == before.push(notes.last()));
        } else {
            assert(notes.filter(has) == before);
            assert(all_hits(init, query, is_regex, Some(tag)) + Seq::<HitView>::empty()
                =~= all_hits(init, query, is_regex, Some(tag)));
        }
    }
}

/// The hits on the first lines are those lines on which there is one.
proof fn lemma_hits(path: Seq<char>, ls: Seq<Seq<char>>, flags: Seq<bool>, n: int, h: HitView)
    requires
        0 <= n <= ls.len(),
        flags.len() == ls.len(),
    ensures
        hits(path, ls, flags, n).contains(h) <==> exists|i: int|
            0 <= i < n && flags[i] && h == #[trigger] hit(path, ls, i),
    decreases n,
{
    let now = hits(path, ls, flags, n);
    if n > 0 {
        lemma_hits(path, ls, flags, n - 1, h);
        let before = hits(path, ls, flags, n - 1);
        if flags[n - 1] {
            let last = hit(path, ls, n - 1);
            assert(now == before.push(last));
            if before.contains(h) {
                let k = choose|k: int| 0 <= k < before.len() && before[k] == h;
                assert(now[k] == h);
            }
            if h == last {
                assert(now[before.len() as int] == h);
            }
            if now.contains(h) && h != last {
                let k = choose|k: int| 0 <= k < now.len() && now[k] == h;
                assert(before[k] == h);
            }
        }
    }
}

/// A search goes note by note, in their order.
pub proof fn law_search_goes_note_by_note(
    a: Seq<NoteFile>,
    b: Seq<NoteFile>,
    query: Seq<char>,
    is_regex: bool,
    tag: Option<String>,
)
    ensures
        all_hits(a + b, query, is_regex, tag) == all_hits(a, query, is_regex, tag) + all_hits(
            b,
            query,
            is_regex,
            tag,
        ),
        b.len() == 1 ==> all_hits(b, query, is_regex, tag) == note_hits(b[0], query, is_regex, tag),
    decreases b.len(),
{
    if b.len() == 0 {
        assert(a + b =~= a);
        assert(all_hits(a, query, is_regex, tag) + all_hits(b, query, is_regex, tag) =~= all_hits(
            a,
            query,
            is_regex,
            tag,
        ));
    } else {
        law_search_goes_note_by_note(a, b.drop_last(), query, is_regex, tag);
        assert((a + b).drop_last() =~= a + b.drop_last());
        assert(all_hits(a + b, query, is_regex, tag) =~= all_hits(a, query, is_regex, tag)
            + all_hits(b, query, is_regex, tag));
        if b.len() == 1 {
            assert(all_hits(b.drop_last(), query, is_regex, tag) =~= Seq::<HitView>::empty());
            assert(all_hits(b, query, is_regex, tag) =~= note_hits(b[0], query, is_regex, tag));
        }
    }
}

/// In a note that has the tag, a search finds the lines that hold the query,
/// each under the note's path and the line's number, and nothing else. In any
/// other note it finds nothing.
pub proof fn law_search_finds_what_is_there(
    note: NoteFile,
    query: Seq<char>,
    is_regex: bool,
    tag: Option<String>,
    h: HitView,
)
    ensures
        note_hits(note, query, is_regex, tag).contains(h) <==> {
            &&& tag is Some ==> has_tag(note.content@, tag->0@)
            &&& h.path == note.path@
            &&& 1 <= h.line_number <= lines(note.content@).len()
            &&& h.line == lines(note.content@)[h.line_number - 1]
            &&& holds_query(h.line, query, is_regex)
            &&& h.context == hit(note.path@, lines(note.content@), h.line_number - 1).context
        },
{
    if tag is Some {
        law_note_has_its_tags(note.content@, tag->0@);
    }
    let ls = lines(note.content@);
    let flags = Seq::new(ls.len(), |i: int| is_found(query, is_regex, ls[i]));
    lemma_hits(note.path@, ls, flags, ls.len() as int, h);
    lemma_contained(h.line, query);
    let i = h.line_number - 1;
    assert(h == hit(note.path@, ls, i) || h != hit(note.path@, ls, i));
}

/// A text is contained where a part of the line is that text.
proof fn lemma_contained(line: Seq<char>, query: Seq<char>)
    ensures
        crate::text::contains_text(line, query) <==> holds_query(line, query, false),
{
    if crate::text::contains_text(line, query) {
        let i = choose|i: int| occurs_at(line, query, i);
        assert(line.subrange(i, i + query.len()) == query);
    }
    if holds_query(line, query, false) {
        let i = choose|i: int|
            0 <= i && i + query.len() <= line.len() && #[trigger] line.subrange(i, i + query.len())
                == query;
        assert(occurs_at(line, query, i));
    }
}

/// Around a hit stand the two lines before it and the two after it, as far as
/// there are any, each on a line of its own.
pub proof fn law_hit_shows_the_lines_around(path: Seq<char>, content: Seq<char>, i: int)
    requires
        0 <= i < lines(content).len(),
    ensures
        ({
            let ls = lines(content);
            let shown = split(hit(path, ls, i).context, '\n');
            let before = if i < 2 {
                i
            } else {
                2
            };
            let after = if ls.len() - 1 - i < 2 {
                ls.len() - 1 - i
            } else {
                2
            };
            &&& shown.len() == before + 1 + after
            &&& shown[before] == ls[i]
            &&& forall|d: int|
                -before <= d <= after ==> #[trigger] shown[before + d] == ls[i + d]
        }),
{
    let ls = lines(content);
    law_no_line_holds_a_newline(content);
    reveal_strlit("\n");
    assert("\n"@ =~= seq!['\n']);
    let before = if i < 2 {
        i
    } else {
        2
    };
    let after = if ls.len() - 1 - i < 2 {
        ls.len() - 1 - i
    } else {
        2
    };
    let part = ls.subrange(i - before, i + after + 1);
    assert forall|k: int| 0 <= k < part.len() implies !(#[trigger] part[k]).contains('\n') by {
        assert(part[k] == ls[i - before + k]);
    }
    law_split_undoes_join(part, '\n');
    assert(hit(path, ls, i).context == join(part, "\n"@));
}

/// A limit keeps the first hits, and as many as it says if there are so many;
/// zero keeps all.
pub proof fn law_limit_keeps_the_first(all: Seq<HitView>, max: usize)
    ensures
        limited(all, max).is_prefix_of(all),
        max == 0 ==> limited(all, max).len() == all.len(),
        max > 0 ==> limited(all, max).len() == if all.len() < max {
            all.len()
        } else {
            max as nat
        },
{
    if max == 0 || all.len() <= max {
        assert(all.take(all.len() as int) =~= all);
    }
}

// ---------------------------------------------------------------------------
// Writing and replacing
// ---------------------------------------------------------------------------

/// Overwriting leaves nothing of a note; appending keeps it in front, and
/// prepending behind. A note that is not there is written as if it were empty.
pub proof fn law_writing_keeps_what_it_should(before: String, content: Seq<char>)
    ensures
        written(Some(before), content, WriteMode::Overwrite) == content,
        before@.is_prefix_of(written(Some(before), content, WriteMode::Append)),
        written(Some(before), content, WriteMode::Append).skip(before@.len() as int) == content,
        content.is_prefix_of(written(Some(before), content, WriteMode::Prepend)),
        written(Some(before), content, WriteMode::Prepend).skip(content.len() as int) == before@,
        forall|mode: WriteMode| #[trigger] written(None, content, mode) == content,
{
    let appended = written(Some(before), content, WriteMode::Append);
    assert(appended.take(before@.len() as int) =~= before@);
    assert(appended.skip(before@.len() as int) =~= content);
    let prepended = written(Some(before), content, WriteMode::Prepend);
    assert(prepended.take(content.len() as int) =~= content);
    assert(prepended.skip(content.len() as int) =~= before@);
    assert(seq![] + content =~= content);
    assert(content + seq![] =~= content);
}

/// Replacing a text in a note puts the new text where the old one first
/// stands, keeps what is before it, and goes on behind it; every occurrence
/// counts once.
pub proof fn law_note_is_replaced_from_left_to_right(s: Seq<char>, p: Seq<char>, to: Seq<char>)
    requires
        p.len() > 0,
    ensures
        match index_of(s, p, 0) {
            Some(i) => {
                let rest = s.skip(i + p.len());
                &&& plain_replaced(s, p, to) == s.take(i) + to + plain_replaced(rest, p, to)
                &&& plain_count(s, p) == 1 + plain_count(rest, p)
            },
            None => plain_replaced(s, p, to) == s && plain_count(s, p) == 0,
        },
{
    law_replace_goes_from_left_to_right(s, p, to);
}

/// The empty text stands before, between and after all characters: replacing
/// it keeps each character, at its place among the new texts.
pub proof fn law_empty_text_stands_around_characters(s: Seq<char>, to: Seq<char>)
    ensures
        plain_count(s, seq![]) == s.len() + 1,
        plain_replaced(s, seq![], to).len() == s.len() + (s.len() + 1) * to.len(),
        s.len() == 0 ==> plain_replaced(s, seq![], to) == to,
        s.len() > 0 ==> plain_replaced(s, seq![], to) == plain_replaced(s.drop_last(), seq![], to)
            + seq![s.last()] + to,
    decreases s.len(),
{
    if s.len() > 0 {
        law_empty_text_stands_around_characters(s.drop_last(), to);
        assert(interleaved(s, to) =~= interleaved(s.drop_last(), to) + seq![s.last()] + to);
        let n = s.len() as int;
        let m = to.len() as int;
        assert(n + (n + 1) * m == (n - 1) + ((n - 1) + 1) * m + 1 + m) by (nonlinear_arith);
    } else {
        assert(1 * to.len() == to.len());
    }
}

// ---------------------------------------------------------------------------
// Calls
// ---------------------------------------------------------------------------

/// Extracting gives every tag of a note, each once.
pub proof fn law_extracted_tags_are_the_tags(content: &str, r: Vec<String>, tag: Seq<char>)
    requires
        call_ensures(extract_tags, (content,), r),
    ensures
        texts(r@).contains(tag) <==> has_tag(content@, tag),
        texts(r@).no_duplicates(),
{
    law_note_has_its_tags(content@, tag);
    law_tags_are_unique(content@);
}

/// A hit is one in some note.
#[verifier::rlimit(40)]
proof fn lemma_all_hits(
    notes: Seq<NoteFile>,
    query: Seq<char>,
    is_regex: bool,
    tag: Option<String>,
    h: HitView,
)
    ensures
        all_hits(notes, query, is_regex, tag).contains(h) <==> exists|n: int|
            0 <= n < notes.len() && note_hits(#[trigger] notes[n], query, is_regex, tag).contains(h),
    decreases notes.len(),
{
    if notes.len() > 0 {
        let init = notes.drop_last();
        let last = notes.len() - 1;
        lemma_all_hits(init, query, is_regex, tag, h);
        let a = all_hits(init, query, is_regex, tag);
        let b = note_hits(notes[last], query, is_regex, tag);
        let all = all_hits(notes, query, is_regex, tag);
        assert(all == a + b);
        if a.contains(h) {
            let k = choose|k: int| 0 <= k < a.len() && a[k] == h;
            assert(all[k] == h);
            let n = choose|n: int|
                0 <= n < init.len() && note_hits(#[trigger] init[n], query, is_regex, tag).contains(
                    h,
                );
            assert(notes[n] == init[n]);
        }
        if b.contains(h) {
            let k = choose|k: int| 0 <= k < b.len() && b[k] == h;
            assert(all[a.len() + k] == h);
        }
        if all.contains(h) {
            let k = choose|k: int| 0 <= k < all.len() && all[k] == h;
            if k < a.len() {
                assert(a[k] == h);
            } else {
                assert(b[k - a.len()] == h);
            }
        }
        if exists|n: int|
            0 <= n < notes.len() && note_hits(#[trigger] notes[n], query, is_regex, tag).contains(
                h,
            ) {
            let n = choose|n: int|
                0 <= n < notes.len() && note_hits(
                    #[trigger] notes[n],
                    query,
                    is_regex,
                    tag,
                ).contains(h);
            if n < last {
                assert(init[n] == notes[n]);
            }
        }
    }
}

/// A note has a line that is to be found: it has the tag, if one is asked for,
/// and the line holds the query.
pub open spec fn is_to_be_found(
    note: NoteFile,
    query: Seq<char>,
    is_regex: bool,
    tag: Option<String>,
    h: HitView,
) -> bool {
    &&& tag is Some ==> has_tag(note.content@, tag->0@)
    &&& h.path == note.path@
    &&& 1 <= h.line_number <= lines(note.content@).len()
    &&& h.line == lines(note.content@)[h.line_number - 1]
    &&& holds_query(h.line, query, is_regex)
    &&& h.context == hit(note.path@, lines(note.content@), h.line_number - 1).context
}

/// A search is refused only for a pattern that is none. What it returns is to
/// be found; and unless a limit cut it off, all that is to be found is
/// returned.
#[verifier::rlimit(40)]
pub proof fn law_search_returns_what_is_to_be_found(
    notes: &Vec<NoteFile>,
    query: &str,
    is_regex: bool,
    tag: &Option<String>,
    max: usize,
    r: Result<Vec<SearchResult>, String>,
    h: HitView,
)
    requires
        call_ensures(search, (notes, query, is_regex, tag, max), r),
    ensures
        r is Err <==> is_regex && pattern_error(query@) is Some,
        r matches Ok(found) ==> {
            let is_there = exists|n: int|
                0 <= n < notes@.len() && is_to_be_found(
                    #[trigger] notes@[n],
                    query@,
                    is_regex,
                    *tag,
                    h,
                );
            &&& hits_view(found@).contains(h) ==> is_there
            &&& is_there && (max == 0 || found@.len() < max) ==> hits_view(found@).contains(h)
            &&& max > 0 ==> found@.len() <= max
        },
{
    if r is Ok {
        let found = hits_view(r->Ok_0@);
        let all = all_hits(notes@, query@, is_regex, *tag);
        assert(found.len() == r->Ok_0@.len());
        lemma_all_hits(notes@, query@, is_regex, *tag, h);
        law_limit_keeps_the_first(all, max);
        assert forall|n: int| 0 <= n < notes@.len() implies note_hits(
            #[trigger] notes@[n],
            query@,
            is_regex,
            *tag,
        ).contains(h) == is_to_be_found(notes@[n], query@, is_regex, *tag, h) by {
            law_search_finds_what_is_there(notes@[n], query@, is_regex, *tag, h);
        }
        if found.contains(h) {
            let k = choose|k: int| 0 <= k < found.len() && found[k] == h;
            assert(all[k] == h);
        }
    }
}

/// Content of more than ten mebibytes is refused; anything else is written in
/// its mode.
pub proof fn law_large_content_is_refused(
    existing: &Option<String>,
    content: &str,
    mode: WriteMode,
    r: Result<String, String>,
)
    requires
        call_ensures(write_note, (existing, content, mode), r),
    ensures
        r is Err <==> byte_size(content@) > 10_485_760,
        r is Ok && mode == WriteMode::Overwrite ==> r->Ok_0@ == content@,
        r is Ok && mode == WriteMode::Append && existing is Some ==> r->Ok_0@ == existing->0@
            + content@,
        r is Ok && mode == WriteMode::Prepend && existing is Some ==> r->Ok_0@ == content@
            + existing->0@,
        r is Ok && existing is None ==> r->Ok_0@ == content@,
{
    assert(seq![] + content@ =~= content@);
    assert(content@ + seq![] =~= content@);
}

/// Replacing in a note tells how many occurrences there were, and leaves none
/// that begin before the first new text.
pub proof fn law_replacing_counts_what_it_replaced(
    content: &str,
    old_text: &str,
    new_text: &str,
    r: Result<(String, usize), String>,
)
    requires
        content@.len() < usize::MAX,
        old_text@.len() > 0,
        call_ensures(search_replace, (content, old_text, new_text, false), r),
    ensures
        r is Ok,
        match r {
            Ok((text, count)) => {
                &&& count == 0 <==> forall|i: int| !occurs_at(content@, old_text@, i)
                &&& count == 0 ==> text@ == content@
                &&& index_of(content@, old_text@, 0) matches Some(i) ==> (content@.take(i)
                    + new_text@).is_prefix_of(text@)
            },
            Err(_) => false,
        },
{
    law_replace_goes_from_left_to_right(content@, old_text@, new_text@);
    lemma_index_of(content@, old_text@, 0);
    match r {
        Ok((text, count)) => {
            match index_of(content@, old_text@, 0) {
                Some(i) => {
                    assert(occurs_at(content@, old_text@, i));
                    let p = content@.take(i) + new_text@;
                    assert(text@.take(p.len() as int) =~= p);
                },
                None => {
                    assert forall|i: int| !occurs_at(content@, old_text@, i) by {
                        if occurs_at(content@, old_text@, i) {
                            assert(0 <= i);
                        }
                    }
                },
            }
        },
        Err(_) => {},
    }
}

// ---------------------------------------------------------------------------
// Listings and statistics
// ---------------------------------------------------------------------------

/// What is found belongs in a listing: a directory that is not left out, or a
/// file with the extension of a note.
pub open spec fn belongs(config: VaultConfig, f: Found) -> bool {
    if f.is_dir {
        f.name is None || !texts(config.exclude_dirs@).contains(f.name->0@)
    } else {
        f.extension is Some && texts(config.extensions@).contains(f.extension->0@)
    }
}

/// Inserting adds one entry.
#[verifier::rlimit(40)]
proof fn lemma_inserted_contains(
    s: Seq<(Seq<char>, bool, Option<u64>)>,
    e: (Seq<char>, bool, Option<u64>),
    x: (Seq<char>, bool, Option<u64>),
)
    ensures
        inserted(s, e).contains(x) <==> s.contains(x) || x == e,
        inserted(s, e).len() == s.len() + 1,
    decreases s.len(),
{
    let r = inserted(s, e);
    if s.len() == 0 || text_le(s.last().0, e.0) {
        assert(r == s.push(e));
        if s.contains(x) {
            let k = choose|k: int| 0 <= k < s.len() && s[k] == x;
            assert(r[k] == x);
        }
        assert(r[s.len() as int] == e);
        if r.contains(x) && x != e {
            let k = choose|k: int| 0 <= k < r.len() && r[k] == x;
            assert(s[k] == x);
        }
    } else {
        let init = s.drop_last();
        lemma_inserted_contains(init, e, x);
        let front = inserted(init, e);
        assert(r == front.push(s.last()));
        assert(r[front.len() as int] == s.last());
        assert(s[s.len() - 1] == s.last());
        if s.contains(x) && x != s.last() {
            let k = choose|k: int| 0 <= k < s.len() && s[k] == x;
            assert(init[k] == x);
        }
        if front.contains(x) {
            let k = choose|k: int| 0 <= k < front.len() && front[k] == x;
            assert(r[k] == x);
            if x != e {
                let q = choose|q: int| 0 <= q < init.len() && init[q] == x;
                assert(s[q] == x);
            }
        }
        if r.contains(x) && x != s.last() {
            let k = choose|k: int| 0 <= k < r.len() && r[k] == x;
            assert(front[k] == x);
        }
    }
}

/// A listing holds what belongs in it, and nothing else.
#[verifier::rlimit(40)]
proof fn lemma_listing(config: VaultConfig, found: Seq<Found>, x: (Seq<char>, bool, Option<u64>))
    ensures
        listing(config, found).contains(x) <==> exists|i: int|
            0 <= i < found.len() && belongs(config, #[trigger] found[i]) && shows_entry(
                found[i],
                x,
            ),
        listing(config, found).len() == found.filter(|f: Found| belongs(config, f)).len(),
    decreases found.len(),
{
    reveal(Seq::filter);
    if found.len() > 0 {
        let init = found.drop_last();
        let last = found.len() - 1;
        lemma_listing(config, init, x);
        let before = listing(config, init);
        assert(is_listed(config, found[last]) == belongs(config, found[last]));
        if belongs(config, found[last]) {
            lemma_inserted_contains(before, entry_for(found[last]), x);
        }
        if exists|i: int|
            0 <= i < init.len() && belongs(config, #[trigger] init[i]) && shows_entry(init[i], x) {
            let i = choose|i: int|
                0 <= i < init.len() && belongs(config, #[trigger] init[i]) && shows_entry(
                    init[i],
                    x,
                );
            assert(found[i] == init[i]);
        }
        if exists|i: int|
            0 <= i < found.len() && belongs(config, #[trigger] found[i]) && shows_entry(
                found[i],
                x,
            ) {
            let i = choose|i: int|
                0 <= i < found.len() && belongs(config, #[trigger] found[i]) && shows_entry(
                    found[i],
                    x,
                );
            if i < last {
                assert(init[i] == found[i]);
            }
        }
    }
}

/// An entry shows what was found: its path, whether it is a directory, and the
/// size of a file.
pub open spec fn shows_entry(f: Found, e: (Seq<char>, bool, Option<u64>)) -> bool {
    let (path, is_dir, size) = e;
    &&& path == f.path@
    &&& is_dir == f.is_dir
    &&& f.is_dir ==> size is None
    &&& !f.is_dir ==> size == f.size
}

/// A listing shows each directory and note that belongs in it, once, and
/// nothing else, in the order of their paths.
pub proof fn law_listing_shows_what_belongs(
    config: &VaultConfig,
    found: &Vec<Found>,
    r: Vec<NoteEntry>,
    x: (Seq<char>, bool, Option<u64>),
)
    requires
        call_ensures(list_notes, (config, found), r),
    ensures
        entries_view(r@).contains(x) <==> exists|i: int|
            0 <= i < found@.len() && belongs(*config, #[trigger] found@[i]) && shows_entry(
                found@[i],
                x,
            ),
        r@.len() == found@.filter(|f: Found| belongs(*config, f)).len(),
        by_path(entries_view(r@)),
{
    lemma_listing(*config, found@, x);
    law_listing_is_sorted(*config, found@);
    assert(entries_view(r@).len() == r@.len());
}

/// A file counts as a note: it has the extension of one, and could be read.
pub open spec fn is_counted(config: VaultConfig, w: Walked) -> bool {
    !w.is_dir && w.meta is Some && w.extension is Some && texts(config.extensions@).contains(
        w.extension->0@,
    )
}

/// The sizes of all files, added up.
pub open spec fn added_sizes(ws: Seq<Walked>) -> nat {
    ws.fold_left(
        0nat,
        |sum: nat, w: Walked|
            sum + match w.meta {
                Some((size, _)) => size as nat,
                None => 0,
            },
    )
}

/// Counting and adding up.
proof fn lemma_stats(config: VaultConfig, ws: Seq<Walked>)
    ensures
        notes_in(config, ws) == ws.filter(|w: Walked| is_counted(config, w)).len(),
        folders_in(ws) == ws.filter(|w: Walked| w.is_dir).len(),
        size_in(config, ws) == added_sizes(ws.filter(|w: Walked| is_counted(config, w))),
    decreases ws.len(),
{
    reveal(Seq::filter);
    reveal(Seq::fold_left);
    if ws.len() > 0 {
        let init = ws.drop_last();
        lemma_stats(config, init);
        let pass = |w: Walked| is_counted(config, w);
        let before = init.filter(pass);
        assert(counts(config, ws.last()) == is_counted(config, ws.last()));
        if is_counted(config, ws.last()) {
            assert(ws.filter(pass) == before.push(ws.last()));
            assert(before.push(ws.last()).drop_last() =~= before);
        }
    }
}

/// Statistics count the notes and the folders, add up the sizes of the notes,
/// and tell the notes that were modified last, the latest first, as many as
/// are asked for.
pub proof fn law_stats_count_notes(
    config: &VaultConfig,
    ws: &Vec<Walked>,
    recent: usize,
    r: VaultStats,
)
    requires
        call_ensures(stats, (config, ws, recent), r),
    ensures
        ({
            let notes = ws@.filter(|w: Walked| is_counted(*config, w));
            let told = recents_view(r.recent_files@);
            &&& r.total_notes == notes.len()
            &&& r.total_folders == ws@.filter(|w: Walked| w.is_dir).len()
            &&& r.total_size_bytes == added_sizes(notes)
            &&& by_recency(told)
            &&& told.len() == if notes.len() < recent {
                notes.len()
            } else {
                recent as nat
            }
        }),
{
    lemma_stats(*config, ws@);
    law_recent_files_are_sorted(*config, ws@);
    let all = recents_in(*config, ws@);
    let told = recents_view(r.recent_files@);
    assert forall|i: int, j: int| 0 <= i < j < told.len() implies (#[trigger] told[i]).2 >= (
    #[trigger] told[j]).2 by {
        assert(told[i] == all[i] && told[j] == all[j]);
        assert(all[i].2 >= all[j].2);
    }
}

// ---------------------------------------------------------------------------
// Paths and batches
// ---------------------------------------------------------------------------

/// A path with a component that goes up is refused, and so is one that leads
/// out of the vault; one that is there, within the vault, is resolved to where
/// it is.
pub proof fn law_paths_stay_within_the_vault(
    path: &str,
    base: Result<Vec<String>, String>,
    target: Target,
    r: Result<Vec<String>, String>,
)
    requires
        call_ensures(resolve_path, (path, base, target), r),
    ensures
        split(path@, '/').contains(".."@) ==> r is Err,
        r matches Ok(parts) ==> base is Ok && texts(base->Ok_0@).is_prefix_of(texts(parts@)),
        !split(path@, '/').contains(".."@) && base is Ok ==> (target matches Target::Existing(
            Ok(found),
        ) ==> (r is Ok <==> texts(base->Ok_0@).is_prefix_of(texts(found@))) && (r is Ok ==> texts(
            r->Ok_0@,
        ) == texts(found@))),
{
}

/// A path within the vault is shown as what is left of it behind the vault's.
pub proof fn law_relative_path_is_the_rest(
    base: &Vec<String>,
    path: &Vec<String>,
    shown: &str,
    r: String,
)
    requires
        call_ensures(relative_path, (base, path, shown), r),
        texts(base@).is_prefix_of(texts(path@)),
        base@.len() < path@.len(),
        forall|i: int| 0 <= i < path@.len() ==> !(#[trigger] path@[i])@.contains('/'),
    ensures
        texts(base@) + split(r@, '/') == texts(path@),
{
    let all = texts(path@);
    let rest = all.skip(base@.len() as int);
    assert forall|i: int| 0 <= i < rest.len() implies !(#[trigger] rest[i]).contains('/') by {
        assert(rest[i] == path@[base@.len() + i]@);
    }
    reveal_strlit("/");
    assert("/"@ =~= seq!['/']);
    law_split_undoes_join(rest, '/');
    assert(texts(base@).len() == base@.len());
    assert(texts(base@) + rest =~= all);
}

/// A note is moved if it is a file, and over another one only where that is
/// asked for.
pub proof fn law_moving_overwrites_only_if_asked(
    source: &str,
    destination: &str,
    is_file: bool,
    taken: bool,
    overwrite: bool,
    r: Result<(), String>,
)
    requires
        call_ensures(check_move, (source, destination, is_file, taken, overwrite), r),
    ensures
        r is Ok <==> is_file && (taken ==> overwrite),
{
}

/// Up to ten notes are read at once. Each is told with its content and its
/// metadata as far as they are asked for, or with why it could not be read.
pub proof fn law_batch_tells_each_note(
    paths: &Vec<String>,
    checked: Result<(), String>,
    path: &str,
    note: Result<VaultNote, String>,
    with_content: bool,
    with_metadata: bool,
    r: BatchEntry,
)
    requires
        call_ensures(check_batch, (paths,), checked),
        call_ensures(batch_entry, (path, note, with_content, with_metadata), r),
    ensures
        checked is Ok <==> paths@.len() <= 10,
        r.error is None <==> note is Ok,
        r.content is Some <==> note is Ok && with_content,
        note matches Ok(n) ==> r.path == n.path && (with_content ==> r.content == Some(n.content))
            && (with_metadata ==> r.frontmatter == n.frontmatter) && (!with_metadata
            ==> r.frontmatter is None),
        note matches Err(e) ==> r.path@ == path@ && r.error == Some(e) && r.frontmatter is None,
{
}

/// A note that is not there yet is placed under its name in its parent, and only
/// within the vault; where its name leads elsewhere, that must be within the
/// vault too. Where there is no parent either, it is placed below the vault as
/// its path says.
pub proof fn law_new_notes_are_placed_within_the_vault(
    path: &str,
    base: Result<Vec<String>, String>,
    target: Target,
    r: Result<Vec<String>, String>,
)
    requires
        call_ensures(resolve_path, (path, base, target), r),
        base is Ok,
        !split(path@, '/').contains(".."@),
    ensures
        target matches Target::InParent { parent, name, leads_to } ==> {
            &&& parent is Err || name is None ==> r is Err
            &&& parent is Ok && name is Some ==> {
                let place = texts(parent->Ok_0@).push(name->0@);
                &&& r is Ok <==> texts(base->Ok_0@).is_prefix_of(place) && (leads_to is Some
                    ==> texts(base->Ok_0@).is_prefix_of(texts(leads_to->0@)))
                &&& r is Ok ==> texts(r->Ok_0@) == place
            }
        },
        target matches Target::Fresh { base: raw, joined, leads_to } ==> (texts(raw@).is_prefix_of(
            texts(joined@),
        ) && leads_to is None && (joined@.len() > raw@.len() ==> joined@[raw@.len() as int]@
            != "/"@) ==> r is Ok && texts(r->Ok_0@) == texts(base->Ok_0@) + texts(joined@).skip(
            raw@.len() as int,
        )),
        target is NoParent ==> r is Err,
{
    match target {
        Target::Fresh { base: raw, joined, leads_to } => {
            let root = texts(base->Ok_0@);
            let rest = texts(joined@).skip(raw@.len() as int);
            if texts(raw@).is_prefix_of(texts(joined@)) {
                assert(texts(raw@).len() == raw@.len() && texts(joined@).len() == joined@.len());
                assert((root + rest).take(root.len() as int) =~= root);
            }
        },
        _ => {},
    }
}

/// Placing adds one file.
#[verifier::rlimit(40)]
proof fn lemma_placed_contains(
    s: Seq<(Seq<char>, u64, i128)>,
    f: (Seq<char>, u64, i128),
    x: (Seq<char>, u64, i128),
)
    ensures
        placed(s, f).contains(x) <==> s.contains(x) || x == f,
    decreases s.len(),
{
    let r = placed(s, f);
    if s.len() == 0 || s.last().2 >= f.2 {
        assert(r == s.push(f));
        if s.contains(x) {
            let k = choose|k: int| 0 <= k < s.len() && s[k] == x;
            assert(r[k] == x);
        }
        assert(r[s.len() as int] == f);
        if r.contains(x) && x != f {
            let k = choose|k: int| 0 <= k < r.len() && r[k] == x;
            assert(s[k] == x);
        }
    } else {
        let init = s.drop_last();
        lemma_placed_contains(init, f, x);
        let front = placed(init, f);
        assert(r == front.push(s.last()));
        assert(r[front.len() as int] == s.last());
        assert(s[s.len() - 1] == s.last());
        if s.contains(x) && x != s.last() {
            let k = choose|k: int| 0 <= k < s.len() && s[k] == x;
            assert(init[k] == x);
        }
        if front.contains(x) {
            let k = choose|k: int| 0 <= k < front.len() && front[k] == x;
            assert(r[k] == x);
            if x != f {
                let q = choose|q: int| 0 <= q < init.len() && init[q] == x;
                assert(s[q] == x);
            }
        }
        if r.contains(x) && x != s.last() {
            let k = choose|k: int| 0 <= k < r.len() && r[k] == x;
            assert(front[k] == x);
        }
    }
}

/// A recent file tells the path, the size and the time of a note.
pub open spec fn tells_of(x: (Seq<char>, u64, i128), w: Walked) -> bool {
    let (path, size, modified) = x;
    path == w.path@ && w.meta == Some((size, modified))
}

/// Recent files are the notes.
proof fn lemma_recents(config: VaultConfig, ws: Seq<Walked>, x: (Seq<char>, u64, i128))
    ensures
        recents_in(config, ws).contains(x) <==> exists|i: int|
            0 <= i < ws.len() && is_counted(config, #[trigger] ws[i]) && tells_of(x, ws[i]),
    decreases ws.len(),
{
    if ws.len() > 0 {
        let init = ws.drop_last();
        let last = ws.len() - 1;
        lemma_recents(config, init, x);
        assert(counts(config, ws[last]) == is_counted(config, ws[last]));
        if is_counted(config, ws[last]) {
            let (size, modified) = ws[last].meta->0;
            lemma_placed_contains(recents_in(config, init), (ws[last].path@, size, modified), x);
        }
        if exists|i: int|
            0 <= i < init.len() && is_counted(config, #[trigger] init[i]) && tells_of(x, init[i]) {
            let i = choose|i: int|
                0 <= i < init.len() && is_counted(config, #[trigger] init[i]) && tells_of(
                    x,
                    init[i],
                );
            assert(ws[i] == init[i]);
        }
        if exists|i: int|
            0 <= i < ws.len() && is_counted(config, #[trigger] ws[i]) && tells_of(x, ws[i]) {
            let i = choose|i: int|
                0 <= i < ws.len() && is_counted(config, #[trigger] ws[i]) && tells_of(x, ws[i]);
            if i < last {
                assert(init[i] == ws[i]);
            }
        }
    }
}

/// Each recent file that is told is a note, with its own size and time; and
/// where all are told, every note is.
pub proof fn law_recent_files_are_notes(
    config: &VaultConfig,
    ws: &Vec<Walked>,
    recent: usize,
    r: VaultStats,
    x: (Seq<char>, u64, i128),
)
    requires
        call_ensures(stats, (config, ws, recent), r),
    ensures
        ({
            let told = recents_view(r.recent_files@).contains(x);
            let is_note = exists|i: int|
                0 <= i < ws@.len() && is_counted(*config, #[trigger] ws@[i]) && tells_of(x, ws@[i]);
            &&& told ==> is_note
            &&& is_note && r.total_notes <= recent ==> told
        }),
{
    lemma_recents(*config, ws@, x);
    law_recent_files_are_sorted(*config, ws@);
    let all = recents_in(*config, ws@);
    let told = recents_view(r.recent_files@);
    if told.contains(x) {
        let k = choose|k: int| 0 <= k < told.len() && told[k] == x;
        assert(all[k] == x);
    }
}

/// There is a vault exactly if it is enabled and its directory is there; it has
/// the configuration and the scope that it was made with.
pub proof fn law_vault_needs_its_directory(
    config: VaultConfig,
    is_directory: bool,
    scope: &str,
    whole: Option<VaultManager>,
    part: Option<VaultManager>,
)
    requires
        call_ensures(VaultManager::new, (config, is_directory), whole),
        call_ensures(VaultManager::with_scope, (config, scope, is_directory), part),
    ensures
        whole is Some <==> config.enabled && is_directory,
        part is Some <==> config.enabled && is_directory,
        whole matches Some(m) ==> m.settings() == config && m.scoped_to() is None,
        part matches Some(m) ==> m.settings() == config && m.scoped_to() == Some(scope@),
{
}

/// A path that was walked to its end is there; one that was not is to be placed
/// under the name at which its last part stands, and leads to where the walk
/// would have gone; and one whose parent is not there either is to be placed as
/// its path says.
pub proof fn law_walk_tells_the_target(
    walk: Walk,
    base: Vec<String>,
    joined: Vec<String>,
    r: Option<Target>,
)
    requires
        call_ensures(target_of, (walk, base, joined), r),
    ensures
        r is Some <==> walk@.end is Some,
        walk@.end == Some(End::There) ==> (r->0 matches Target::Existing(Ok(parts)) && texts(
            parts@,
        ) == walk@.at),
        walk@.end is Some && walk@.end != Some(End::There) ==> match walk@.entry {
            Some(entry) => entry.len() > 0 ==> (r->0 matches Target::InParent {
                parent,
                name,
                leads_to,
            } && parent is Ok && texts(parent->Ok_0@).push(name->0@) == entry && name is Some && (
            leads_to is Some <==> walk@.end == Some(End::Missing)) && (leads_to is Some ==> texts(
                leads_to->0@,
            ) == walk@.at)),
            None => r->0 matches Target::Fresh { base: b, joined: j, leads_to } && b == base && j
                == joined && (leads_to is Some <==> walk@.end == Some(End::Missing)) && (
            leads_to is Some ==> texts(leads_to->0@) == walk@.at),
        },
{
    if walk@.end is Some {
        match walk@.entry {
            Some(entry) => {
                if entry.len() > 0 {
                    assert(entry.drop_last().push(entry.last()) =~= entry);
                }
            },
            None => {},
        }
    }
}

/// Replacing by a regular expression puts the replacement for every match in
/// the note, and counts the matches; a pattern that is none is refused.
pub proof fn law_replacing_by_pattern_replaces_matches(
    content: &str,
    pattern: &str,
    replacement: &str,
    r: Result<(String, usize), String>,
)
    requires
        content@.len() < usize::MAX,
        call_ensures(search_replace, (content, pattern, replacement, true), r),
    ensures
        r is Ok <==> pattern_error(pattern@) is None,
        r matches Ok((text, count)) ==> text@ == pattern_replaced(
            pattern@,
            content@,
            replacement@,
        ) && count == pattern_count(pattern@, content@),
{
}

} // verus!
