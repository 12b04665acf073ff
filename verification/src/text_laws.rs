//! What splitting, trimming, joining and replacing do to texts.

use crate::text::{
    contains_text, count, find_char, find_space, index_of, is_space, join, lemma_find_char,
    lemma_find_space, lemma_index_of, lemma_skip_space, lemma_trim_end, lemma_trim_start, lines,
    occurs_at, replace, skip_space, split, split_limited, strip_repeated, trim, trim_start, words,
};
use vstd::prelude::*;

verus! {

/// All characters are white space.
pub open spec fn is_blank(s: Seq<char>) -> bool {
    forall|i: int| 0 <= i < s.len() ==> is_space(#[trigger] s[i])
}

/// No character is white space, and there is one.
pub open spec fn is_word(s: Seq<char>) -> bool {
    s.len() > 0 && forall|i: int| 0 <= i < s.len() ==> !is_space(#[trigger] s[i])
}

/// The first separator is where the part before it ends.
proof fn lemma_first_separator(a: Seq<char>, c: char, b: Seq<char>)
    requires
        !a.contains(c),
    ensures
        find_char(a.push(c) + b, c, 0) == a.len(),
        find_char(a, c, 0) == a.len(),
        (a.push(c) + b).take(a.len() as int) == a,
        (a.push(c) + b).skip(a.len() as int + 1) == b,
{
    let s = a.push(c) + b;
    lemma_find_char(s, c, 0);
    lemma_find_char(a, c, 0);
    let i = find_char(s, c, 0);
    if i < a.len() {
        assert(a[i] == s[i]);
        assert(a.contains(c));
    }
    if i > a.len() {
        assert(s[a.len() as int] == c);
    }
    let k = find_char(a, c, 0);
    if k < a.len() {
        assert(a.contains(a[k]));
    }
    assert(s.take(a.len() as int) =~= a);
    assert(s.skip(a.len() as int + 1) =~= b);
}

/// A text splits at each separator: what stands before the first one is the
/// first part, and the rest splits likewise. Without a separator there is one
/// part.
pub proof fn law_split_at_each_separator(a: Seq<char>, c: char, b: Seq<char>)
    requires
        !a.contains(c),
    ensures
        split(a.push(c) + b, c) == seq![a] + split(b, c),
        split(a, c) == seq![a],
{
    lemma_first_separator(a, c, b);
}

/// A text that is split into at most so many parts splits at the first
/// separators, and the last part is all that is left.
pub proof fn law_split_limited_keeps_the_rest(a: Seq<char>, c: char, b: Seq<char>, n: nat)
    requires
        !a.contains(c),
        n > 1,
    ensures
        split_limited(a.push(c) + b, n, c) == seq![a] + split_limited(b, (n - 1) as nat, c),
        split_limited(a, n, c) == seq![a],
        split_limited(b, 1, c) == seq![b],
{
    lemma_first_separator(a, c, b);
}

/// A line ends at a newline, which it does not hold, nor a carriage return
/// before it. What follows the last newline is a line if it is not empty.
pub proof fn law_lines_end_at_newlines(a: Seq<char>, b: Seq<char>)
    requires
        !a.contains('\n'),
    ensures
        a.len() == 0 || a.last() != '\r' ==> lines(a.push('\n') + b) == seq![a] + lines(b),
        lines(a.push('\r').push('\n') + b) == seq![a] + lines(b),
        lines(a) == if a.len() == 0 {
            Seq::<Seq<char>>::empty()
        } else {
            seq![a]
        },
{
    lemma_first_separator(a, '\n', b);
    let d = a.push('\r');
    assert(!d.contains('\n')) by {
        if d.contains('\n') {
            let i = choose|i: int| 0 <= i < d.len() && d[i] == '\n';
            assert(a[i] == '\n');
        }
    }
    lemma_first_separator(d, '\n', b);
    assert(d.drop_last() =~= a);
    assert((a.push('\n') + b).len() > 0);
    assert((d.push('\n') + b).len() > 0);
    assert(a.len() == 0 ==> lines(a) =~= Seq::<Seq<char>>::empty());
}

/// No line holds a newline.
pub proof fn law_no_line_holds_a_newline(s: Seq<char>)
    ensures
        forall|i: int| 0 <= i < lines(s).len() ==> !(#[trigger] lines(s)[i]).contains('\n'),
    decreases s.len(),
{
    if s.len() > 0 {
        lemma_find_char(s, '\n', 0);
        let n = find_char(s, '\n', 0);
        if n < s.len() {
            law_no_line_holds_a_newline(s.skip(n + 1));
            let rest = lines(s.skip(n + 1));
            assert forall|i: int| 0 <= i < lines(s).len() implies !(#[trigger] lines(s)[i]).contains(
                '\n',
            ) by {
                if i > 0 {
                    assert(lines(s)[i] == rest[i - 1]);
                }
            }
        }
    }
}

/// Words stand between white space.
pub proof fn law_words_stand_between_white_space(a: Seq<char>, w: Seq<char>, b: Seq<char>)
    requires
        is_blank(a),
        is_word(w),
        b.len() == 0 || is_space(b[0]),
    ensures
        words(a + w + b) == seq![w] + words(b),
        words(a) == Seq::<Seq<char>>::empty(),
{
    let s = a + w + b;
    lemma_skip_space(s, 0);
    let i = skip_space(s, 0);
    assert(s[a.len() as int] == w[0]);
    if i < a.len() {
        assert(s[i] == a[i]);
    }
    assert(i == a.len());
    lemma_find_space(s, i);
    let j = find_space(s, i);
    if j < a.len() + w.len() {
        assert(s[j] == w[j - a.len()]);
    }
    if b.len() > 0 {
        assert(s[(a + w).len() as int] == b[0]);
    }
    assert(j == a.len() + w.len());
    assert(s.subrange(i, j) =~= w);
    assert(s.skip(j) =~= b);
    lemma_skip_space(a, 0);
    assert(words(a) =~= Seq::<Seq<char>>::empty());
}

/// Trimming takes the white space at both ends, and nothing else.
pub proof fn law_trim_takes_the_white_space_around(a: Seq<char>, m: Seq<char>, b: Seq<char>)
    requires
        is_blank(a),
        is_blank(b),
        m.len() > 0 ==> !is_space(m[0]) && !is_space(m.last()),
    ensures
        trim(a + m + b) == m,
{
    let s = a + m + b;
    if m.len() > 0 {
        assert(s[a.len() as int] == m[0]);
        lemma_trim_start(s, a.len() as int);
        let t = s.skip(a.len() as int);
        assert(t =~= m + b);
        lemma_trim_end(t, m.len() as int);
        assert(t.take(m.len() as int) =~= m);
    } else {
        lemma_trim_start(s, s.len() as int);
        assert(trim_start(s) =~= Seq::<char>::empty());
    }
}

/// Trimmed text has no white space at its ends, and is all that is left of
/// the text but for white space.
pub proof fn law_trimmed_text_is_tight(s: Seq<char>)
    ensures
        trim(s).len() > 0 ==> !is_space(trim(s)[0]) && !is_space(trim(s).last()),
        trim(s).len() == 0 <==> is_blank(s),
        exists|a: Seq<char>, b: Seq<char>|
            #[trigger] is_blank(a) && #[trigger] is_blank(b) && s == a + trim(s) + b,
{
    lemma_skip_space(s, 0);
    let i = skip_space(s, 0);
    lemma_trim_start(s, i);
    let t = s.skip(i);
    let a = s.take(i);
    if i < s.len() {
        let j = lemma_last_character(t);
        lemma_trim_end(t, j);
        let b = t.skip(j);
        assert(s =~= (a + trim(s)) + b);
        assert(is_blank(a) && is_blank(b));
        assert(!is_space(s[i]));
    } else {
        assert(s =~= (a + trim(s)) + Seq::<char>::empty());
        assert(is_blank(Seq::<char>::empty()));
    }
}

/// Where the last character stands that is no white space.
proof fn lemma_last_character(t: Seq<char>) -> (j: int)
    requires
        t.len() > 0,
        !is_space(t[0]),
    ensures
        0 < j <= t.len(),
        !is_space(t[j - 1]),
        forall|k: int| j <= k < t.len() ==> is_space(t[k]),
    decreases t.len(),
{
    if is_space(t.last()) {
        let j = lemma_last_character(t.drop_last());
        assert forall|k: int| j <= k < t.len() implies is_space(t[k]) by {
            if k < t.len() - 1 {
                assert(t.drop_last()[k] == t[k]);
            }
        }
        j
    } else {
        t.len() as int
    }
}

/// What was joined splits into the same parts again.
pub proof fn law_split_undoes_join(parts: Seq<Seq<char>>, c: char)
    requires
        parts.len() > 0,
        forall|i: int| 0 <= i < parts.len() ==> !(#[trigger] parts[i]).contains(c),
    ensures
        split(join(parts, seq![c]), c) == parts,
    decreases parts.len(),
{
    if parts.len() == 1 {
        law_split_at_each_separator(parts[0], c, seq![]);
        assert(seq![parts[0]] =~= parts);
    } else {
        lemma_join_first(parts, seq![c]);
        let rest = parts.skip(1);
        law_split_undoes_join(rest, c);
        law_split_at_each_separator(parts[0], c, join(rest, seq![c]));
        assert(parts[0] + seq![c] + join(rest, seq![c]) =~= parts[0].push(c) + join(rest, seq![c]));
        assert(seq![parts[0]] + rest =~= parts);
    }
}

/// Joining begins with the first part.
pub proof fn lemma_join_first(parts: Seq<Seq<char>>, sep: Seq<char>)
    requires
        parts.len() > 1,
    ensures
        join(parts, sep) == parts[0] + sep + join(parts.skip(1), sep),
    decreases parts.len(),
{
    let rest = parts.skip(1);
    if parts.len() == 2 {
        assert(parts.drop_last()[0] == parts[0]);
        assert(join(parts.drop_last(), sep) == parts[0]);
        assert(join(rest, sep) == parts[1]);
    } else {
        lemma_join_first(parts.drop_last(), sep);
        assert(parts.drop_last().skip(1) =~= rest.drop_last());
        assert(join(parts, sep) =~= parts[0] + sep + join(rest, sep));
    }
}

/// A text is contained where it stands at some position; and the first such
/// position is the one that is found.
pub proof fn law_containing_is_standing_somewhere(a: Seq<char>, p: Seq<char>, b: Seq<char>)
    ensures
        contains_text(a + p + b, p),
        index_of(a + p + b, p, 0) is Some,
        index_of(a + p + b, p, 0)->0 <= a.len(),
{
    let s = a + p + b;
    assert(s.subrange(a.len() as int, a.len() as int + p.len()) =~= p);
    assert(occurs_at(s, p, a.len() as int));
    lemma_index_of(s, p, 0);
}

/// Replacing puts the new text where the old one first stands, keeps what is
/// before it, and goes on behind it; each occurrence counts once. Without an
/// occurrence nothing changes.
#[verifier::rlimit(40)]
pub proof fn law_replace_goes_from_left_to_right(s: Seq<char>, p: Seq<char>, to: Seq<char>)
    requires
        p.len() > 0,
    ensures
        match index_of(s, p, 0) {
            Some(i) => {
                let rest = s.skip(i + p.len());
                &&& replace(s, p, to) == s.take(i) + to + replace(rest, p, to)
                &&& count(s, p) == 1 + count(rest, p)
            },
            None => replace(s, p, to) == s && count(s, p) == 0,
        },
        contains_text(s, p) <==> count(s, p) > 0,
    decreases s.len(),
{
    lemma_index_of(s, p, 0);
    crate::text::lemma_contains_index_of(s, p);
    if s.len() > 0 {
        if p.is_prefix_of(s) {
            assert(s.subrange(0, p.len() as int) =~= p);
            assert(occurs_at(s, p, 0));
            assert(s.take(0) + to =~= to);
        } else {
            if occurs_at(s, p, 0) {
                assert(s.subrange(0, p.len() as int) =~= s.take(p.len() as int));
                assert(p.is_prefix_of(s));
            }
            let t = s.skip(1);
            law_replace_goes_from_left_to_right(t, p, to);
            lemma_index_of(t, p, 0);
            assert forall|i: int| 0 <= i implies occurs_at(t, p, i) == #[trigger] occurs_at(s, p, i + 1) by {
                if i + p.len() <= t.len() {
                    assert(t.subrange(i, i + p.len()) =~= s.subrange(i + 1, i + 1 + p.len()));
                }
            }
            match index_of(s, p, 0) {
                Some(i) => {
                    assert(occurs_at(s, p, (i - 1) + 1));
                    assert(occurs_at(t, p, i - 1));
                    let j = index_of(t, p, 0)->0;
                    assert(occurs_at(s, p, j + 1));
                    assert(j == i - 1);
                    assert(t.skip(j + p.len()) =~= s.skip(i + p.len()));
                    assert(seq![s[0]] + (t.take(j) + to + replace(t.skip(j + p.len()), p, to))
                        =~= s.take(i) + to + replace(s.skip(i + p.len()), p, to));
                },
                None => {
                    match index_of(t, p, 0) {
                        Some(j) => {
                            assert(occurs_at(s, p, j + 1));
                        },
                        None => {},
                    }
                    assert(seq![s[0]] + t =~= s);
                },
            }
        }
    }
}

/// Stripping takes all copies of a text at the beginning, and nothing else.
pub proof fn law_stripping_takes_all_copies(copies: Seq<char>, c: char, rest: Seq<char>)
    requires
        forall|i: int| 0 <= i < copies.len() ==> #[trigger] copies[i] == c,
        rest.len() == 0 || rest[0] != c,
    ensures
        strip_repeated(copies + rest, seq![c]) == rest,
    decreases copies.len(),
{
    let s = copies + rest;
    if copies.len() > 0 {
        assert(s.take(1) =~= seq![c]);
        assert(s.skip(1) =~= copies.skip(1) + rest);
        law_stripping_takes_all_copies(copies.skip(1), c, rest);
    } else {
        assert(s =~= rest);
        if seq![c].is_prefix_of(s) {
            assert(s[0] == seq![c][0]);
        }
    }
}

/// White space are the blank, the tab, the ends of lines and pages, and the
/// spaces of Unicode.
#[verifier::rlimit(40)]
pub proof fn law_white_space_is_known(c: char)
    ensures
        is_space(c) <==> seq![
            '\t',
            '\n',
            '\u{b}',
            '\u{c}',
            '\r',
            ' ',
            '\u{85}',
            '\u{a0}',
            '\u{1680}',
            '\u{2000}',
            '\u{2001}',
            '\u{2002}',
            '\u{2003}',
            '\u{2004}',
            '\u{2005}',
            '\u{2006}',
            '\u{2007}',
            '\u{2008}',
            '\u{2009}',
            '\u{200a}',
            '\u{2028}',
            '\u{2029}',
            '\u{202f}',
            '\u{205f}',
            '\u{3000}',
        ].contains(c),
{
    let all = seq![
        '\t',
        '\n',
        '\u{b}',
        '\u{c}',
        '\r',
        ' ',
        '\u{85}',
        '\u{a0}',
        '\u{1680}',
        '\u{2000}',
        '\u{2001}',
        '\u{2002}',
        '\u{2003}',
        '\u{2004}',
        '\u{2005}',
        '\u{2006}',
        '\u{2007}',
        '\u{2008}',
        '\u{2009}',
        '\u{200a}',
        '\u{2028}',
        '\u{2029}',
        '\u{202f}',
        '\u{205f}',
        '\u{3000}',
    ];
    let u = c as u32;
    if 0x09 <= u <= 0x0d {
        assert(all[u - 0x09] == c);
    } else if u == 0x20 {
        assert(all[5] == c);
    } else if u == 0x85 {
        assert(all[6] == c);
    } else if u == 0xa0 {
        assert(all[7] == c);
    } else if u == 0x1680 {
        assert(all[8] == c);
    } else if 0x2000 <= u <= 0x200a {
        assert(all[u - 0x2000 + 9] == c);
    } else if u == 0x2028 {
        assert(all[20] == c);
    } else if u == 0x2029 {
        assert(all[21] == c);
    } else if u == 0x202f {
        assert(all[22] == c);
    } else if u == 0x205f {
        assert(all[23] == c);
    } else if u == 0x3000 {
        assert(all[24] == c);
    }
}

} // verus!
