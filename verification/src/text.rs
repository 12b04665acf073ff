//! Text as sequences of characters: searching, splitting, trimming, replacing
//! and cutting to a byte budget.

use vstd::prelude::*;
use vstd::string::*;
use vstd::utf8::*;

verus! {

/// `String::push` appends one character to the end of the string.
pub assume_specification[ String::push ](s: &mut String, c: char)
    ensures
        final(s)@ == old(s)@.push(c),
;

// ---------------------------------------------------------------------------
// Conversions
// ---------------------------------------------------------------------------

/// The contents of a sequence of strings.
pub open spec fn texts(v: Seq<String>) -> Seq<Seq<char>> {
    Seq::new(v.len(), |i: int| v[i]@)
}

/// The contents of an optional string.
pub open spec fn opt_text(o: Option<String>) -> Option<Seq<char>> {
    match o {
        Some(s) => Some(s@),
        None => None,
    }
}

/// Pushing a string pushes its contents.
pub proof fn lemma_texts_push(v: Seq<String>, s: String)
    ensures
        texts(v.push(s)) == texts(v).push(s@),
{
    assert(texts(v.push(s)) =~= texts(v).push(s@));
}

/// The characters of a string, in order.
pub fn chars_of(s: &str) -> (v: Vec<char>)
    ensures
        v@ == s@,
{
    let mut v: Vec<char> = Vec::new();
    for c in it: s.chars()
        invariant
            it.seq() == s@,
            v@ == s@.take(it.index()),
    {
        v.push(c);
    }
    v
}

/// The string made of the characters `v[from..to]`.
pub fn string_of(v: &Vec<char>, from: usize, to: usize) -> (s: String)
    requires
        from <= to <= v@.len(),
    ensures
        s@ == v@.subrange(from as int, to as int),
{
    let mut s: String = String::new();
    let mut i: usize = from;
    while i < to
        invariant
            from <= i <= to <= v@.len(),
            s@ == v@.subrange(from as int, i as int),
        decreases to - i,
    {
        s.push(v[i]);
        i = i + 1;
    }
    s
}

/// An owned copy of a string slice.
pub fn owned(s: &str) -> (r: String)
    ensures
        r@ == s@,
{
    String::from_str(s)
}

/// Whether two strings hold the same characters.
pub fn same(a: &str, b: &str) -> (r: bool)
    ensures
        r == (a@ == b@),
{
    let x: Vec<char> = chars_of(a);
    let y: Vec<char> = chars_of(b);
    if x.len() != y.len() {
        return false;
    }
    let mut i: usize = 0;
    while i < x.len()
        invariant
            x@.len() == y@.len(),
            i <= x@.len(),
            forall|k: int| 0 <= k < i ==> x@[k] == y@[k],
            x@ == a@,
            y@ == b@,
        decreases x.len() - i,
    {
        if x[i] != y[i] {
            return false;
        }
        i = i + 1;
    }
    proof {
        assert(x@ =~= y@);
    }
    true
}

// ---------------------------------------------------------------------------
// Searching
// ---------------------------------------------------------------------------

/// `p` stands in `s` at position `i`.
pub open spec fn occurs_at(s: Seq<char>, p: Seq<char>, i: int) -> bool {
    0 <= i && i + p.len() <= s.len() && s.subrange(i, i + p.len()) == p
}

/// `p` stands somewhere in `s`.
pub open spec fn contains_text(s: Seq<char>, p: Seq<char>) -> bool {
    exists|i: int| occurs_at(s, p, i)
}

/// The first position, not before `from`, at which `p` stands in `s`.
pub open spec fn index_of(s: Seq<char>, p: Seq<char>, from: int) -> Option<int>
    decreases s.len() - from + 1,
{
    if from + p.len() > s.len() {
        None
    } else if occurs_at(s, p, from) {
        Some(from)
    } else {
        index_of(s, p, from + 1)
    }
}

/// `index_of` gives the first occurrence, and `None` only where there is none.
pub proof fn lemma_index_of(s: Seq<char>, p: Seq<char>, from: int)
    requires
        0 <= from,
    ensures
        match index_of(s, p, from) {
            Some(i) => from <= i && occurs_at(s, p, i) && forall|j: int|
                from <= j < i ==> !occurs_at(s, p, j),
            None => forall|j: int| from <= j ==> !occurs_at(s, p, j),
        },
    decreases s.len() - from + 1,
{
    if from + p.len() > s.len() {
    } else if occurs_at(s, p, from) {
    } else {
        lemma_index_of(s, p, from + 1);
    }
}

/// A text contains a pattern exactly if `index_of` finds it.
pub proof fn lemma_contains_index_of(s: Seq<char>, p: Seq<char>)
    ensures
        contains_text(s, p) == index_of(s, p, 0) is Some,
{
    lemma_index_of(s, p, 0);
    if let Some(i) = index_of(s, p, 0) {
        assert(occurs_at(s, p, i));
    }
}

/// Whether `p` stands in `s` at position `i`.
pub fn matches_at(s: &Vec<char>, p: &Vec<char>, i: usize) -> (r: bool)
    ensures
        r == occurs_at(s@, p@, i as int),
{
    if p.len() > s.len() || i > s.len() - p.len() {
        return false;
    }
    let mut k: usize = 0;
    while k < p.len()
        invariant
            k <= p.len(),
            i + p.len() <= s.len(),
            forall|j: int| 0 <= j < k ==> s@[i + j] == p@[j],
        decreases p.len() - k,
    {
        if s[i + k] != p[k] {
            proof {
                if s@.subrange(i as int, i + p@.len()) == p@ {
                    assert(s@.subrange(i as int, i + p@.len())[k as int] == p@[k as int]);
                }
            }
            return false;
        }
        k = k + 1;
    }
    proof {
        assert(s@.subrange(i as int, i + p@.len()) =~= p@);
    }
    true
}

/// The first position, not before `from`, at which `p` stands in `s`.
pub fn find(s: &Vec<char>, p: &Vec<char>, from: usize) -> (r: Option<usize>)
    ensures
        match r {
            Some(i) => index_of(s@, p@, from as int) == Some(i as int) && i + p.len() <= s.len()
                && from <= i,
            None => index_of(s@, p@, from as int) is None,
        },
{
    let mut i: usize = from;
    while p.len() <= s.len() && i <= s.len() - p.len()
        invariant
            from <= i,
            index_of(s@, p@, from as int) == index_of(s@, p@, i as int),
        decreases s.len() - i,
    {
        if matches_at(s, p, i) {
            return Some(i);
        }
        if i == s.len() - p.len() {
            proof {
                assert(index_of(s@, p@, i + 1) is None);
            }
            return None;
        }
        i = i + 1;
    }
    None
}

/// Whether `p` stands somewhere in `s`.
pub fn contains(s: &str, p: &str) -> (r: bool)
    ensures
        r == contains_text(s@, p@),
{
    let sv: Vec<char> = chars_of(s);
    let pv: Vec<char> = chars_of(p);
    proof {
        lemma_contains_index_of(s@, p@);
    }
    match find(&sv, &pv, 0) {
        Some(_) => true,
        None => false,
    }
}

/// Whether `s` begins with `p`.
pub fn starts_with(s: &str, p: &str) -> (r: bool)
    ensures
        r == p@.is_prefix_of(s@),
{
    let sv: Vec<char> = chars_of(s);
    let pv: Vec<char> = chars_of(p);
    let r: bool = matches_at(&sv, &pv, 0);
    r
}

/// The first position of `c` in `s` not before `from`; the length of `s` if
/// there is none.
pub open spec fn find_char(s: Seq<char>, c: char, from: int) -> int
    decreases s.len() - from,
{
    if from >= s.len() {
        s.len() as int
    } else if s[from] == c {
        from
    } else {
        find_char(s, c, from + 1)
    }
}

/// `find_char` gives the first position of the character.
pub proof fn lemma_find_char(s: Seq<char>, c: char, from: int)
    requires
        0 <= from <= s.len(),
    ensures
        from <= find_char(s, c, from) <= s.len(),
        find_char(s, c, from) < s.len() ==> s[find_char(s, c, from)] == c,
        forall|k: int| from <= k < find_char(s, c, from) ==> s[k] != c,
    decreases s.len() - from,
{
    if from < s.len() && s[from] != c {
        lemma_find_char(s, c, from + 1);
    }
}

/// Searching a suffix is searching the whole from that point.
pub proof fn lemma_find_char_skip(s: Seq<char>, c: char, from: int, at: int)
    requires
        0 <= from <= at <= s.len(),
    ensures
        find_char(s.skip(from), c, at - from) == find_char(s, c, at) - from,
    decreases s.len() - at,
{
    if at < s.len() && s[at] != c {
        lemma_find_char_skip(s, c, from, at + 1);
    }
}

/// The first position of `c` in `s` not before `from`.
pub fn position_of(s: &Vec<char>, c: char, from: usize) -> (r: usize)
    requires
        from <= s@.len(),
    ensures
        r == find_char(s@, c, from as int),
        from <= r <= s@.len(),
{
    let mut i: usize = from;
    while i < s.len() && s[i] != c
        invariant
            from <= i <= s@.len(),
            find_char(s@, c, from as int) == find_char(s@, c, i as int),
        decreases s.len() - i,
    {
        i = i + 1;
    }
    i
}

// ---------------------------------------------------------------------------
// Splitting
// ---------------------------------------------------------------------------

/// The pieces of `s` between the occurrences of `c`; one more than there are
/// occurrences.
pub open spec fn split(s: Seq<char>, c: char) -> Seq<Seq<char>>
    decreases s.len(),
{
    let i = find_char(s, c, 0);
    if 0 <= i < s.len() {
        seq![s.take(i)] + split(s.skip(i + 1), c)
    } else {
        seq![s]
    }
}

/// The first `n - 1` pieces of `s` before occurrences of `c`, and then the
/// whole rest.
pub open spec fn split_limited(s: Seq<char>, n: nat, c: char) -> Seq<Seq<char>>
    decreases n,
{
    let i = find_char(s, c, 0);
    if n == 0 {
        seq![]
    } else if n > 1 && 0 <= i < s.len() {
        seq![s.take(i)] + split_limited(s.skip(i + 1), (n - 1) as nat, c)
    } else {
        seq![s]
    }
}

/// A line without the carriage return before its newline.
pub open spec fn without_cr(s: Seq<char>) -> Seq<char> {
    if s.len() > 0 && s.last() == '\r' {
        s.drop_last()
    } else {
        s
    }
}

/// The lines of `s`: each ends at a newline, with or without a carriage return
/// before it; an unfinished last line counts, an empty one does not.
pub open spec fn lines(s: Seq<char>) -> Seq<Seq<char>>
    decreases s.len(),
{
    if s.len() == 0 {
        seq![]
    } else {
        let i = find_char(s, '\n', 0);
        if 0 <= i < s.len() {
            seq![without_cr(s.take(i))] + lines(s.skip(i + 1))
        } else {
            seq![s]
        }
    }
}

/// The pieces of a string between the occurrences of a character.
pub fn split_on(s: &str, c: char) -> (r: Vec<String>)
    ensures
        texts(r@) == split(s@, c),
        r@.len() >= 1,
{
    let v: Vec<char> = chars_of(s);
    let mut out: Vec<String> = Vec::new();
    let mut start: usize = 0;
    proof {
        assert(v@.skip(0) =~= v@);
        assert(texts(out@) + split(v@, c) =~= split(v@, c));
    }
    loop
        invariant
            v@ == s@,
            start <= v@.len(),
            texts(out@) + split(v@.skip(start as int), c) == split(s@, c),
        decreases v@.len() - start,
    {
        let end: usize = position_of(&v, c, start);
        let piece: String = string_of(&v, start, end);
        proof {
            let rest = v@.skip(start as int);
            lemma_find_char_skip(v@, c, start as int, start as int);
            lemma_find_char(v@, c, start as int);
            assert(rest.take(end - start) =~= v@.subrange(start as int, end as int));
            lemma_texts_push(out@, piece);
            if end < v@.len() {
                assert(rest.skip(end - start + 1) =~= v@.skip(end + 1));
                assert(texts(out@) + (seq![piece@] + split(v@.skip(end + 1), c)) =~= texts(
                    out@.push(piece),
                ) + split(v@.skip(end + 1), c));
            } else {
                assert(rest =~= piece@);
                assert(texts(out@) + seq![piece@] =~= texts(out@.push(piece)));
            }
        }
        out.push(piece);
        if end == v.len() {
            return out;
        }
        start = end + 1;
    }
}

/// At most `n` pieces of a string; the last one holds the whole rest.
pub fn split_at_most(s: &str, n: usize, c: char) -> (r: Vec<String>)
    requires
        n >= 1,
    ensures
        texts(r@) == split_limited(s@, n as nat, c),
        r@.len() >= 1,
{
    let v: Vec<char> = chars_of(s);
    let mut out: Vec<String> = Vec::new();
    let mut start: usize = 0;
    let mut left: usize = n;
    proof {
        assert(v@.skip(0) =~= v@);
        assert(texts(out@) + split_limited(v@, n as nat, c) =~= split_limited(v@, n as nat, c));
    }
    loop
        invariant
            v@ == s@,
            start <= v@.len(),
            left >= 1,
            texts(out@) + split_limited(v@.skip(start as int), left as nat, c) == split_limited(
                s@,
                n as nat,
                c,
            ),
        decreases left,
    {
        let end: usize = if left > 1 {
            position_of(&v, c, start)
        } else {
            v.len()
        };
        let piece: String = string_of(&v, start, end);
        proof {
            let rest = v@.skip(start as int);
            lemma_find_char_skip(v@, c, start as int, start as int);
            lemma_find_char(v@, c, start as int);
            assert(rest.take(end - start) =~= v@.subrange(start as int, end as int));
            lemma_texts_push(out@, piece);
            if end < v@.len() {
                assert(rest.skip(end - start + 1) =~= v@.skip(end + 1));
                assert(texts(out@) + (seq![piece@] + split_limited(
                    v@.skip(end + 1),
                    (left - 1) as nat,
                    c,
                )) =~= texts(out@.push(piece)) + split_limited(
                    v@.skip(end + 1),
                    (left - 1) as nat,
                    c,
                ));
            } else {
                assert(rest =~= piece@);
                assert(texts(out@) + seq![piece@] =~= texts(out@.push(piece)));
            }
        }
        out.push(piece);
        if end == v.len() {
            return out;
        }
        start = end + 1;
        left = left - 1;
    }
}

/// The lines of a string.
pub fn split_lines(s: &str) -> (r: Vec<String>)
    ensures
        texts(r@) == lines(s@),
{
    let v: Vec<char> = chars_of(s);
    let mut out: Vec<String> = Vec::new();
    let mut start: usize = 0;
    proof {
        assert(v@.skip(0) =~= v@);
        assert(texts(out@) + lines(v@) =~= lines(v@));
    }
    while start < v.len()
        invariant
            v@ == s@,
            start <= v@.len(),
            texts(out@) + lines(v@.skip(start as int)) == lines(s@),
        decreases v@.len() - start,
    {
        let end: usize = position_of(&v, '\n', start);
        let cut: usize = if end < v.len() && end > start && v[end - 1] == '\r' {
            end - 1
        } else {
            end
        };
        let piece: String = string_of(&v, start, cut);
        proof {
            let rest = v@.skip(start as int);
            lemma_find_char_skip(v@, '\n', start as int, start as int);
            lemma_find_char(v@, '\n', start as int);
            lemma_texts_push(out@, piece);
            if end < v@.len() {
                let whole = rest.take(end - start);
                assert(whole =~= v@.subrange(start as int, end as int));
                assert(without_cr(whole) =~= piece@);
                assert(rest.skip(end - start + 1) =~= v@.skip(end + 1));
                assert(texts(out@) + (seq![piece@] + lines(v@.skip(end + 1))) =~= texts(
                    out@.push(piece),
                ) + lines(v@.skip(end + 1)));
            } else {
                assert(rest =~= piece@);
                assert(texts(out@) + seq![piece@] =~= texts(out@.push(piece)));
            }
        }
        out.push(piece);
        if end == v.len() {
            return out;
        }
        start = end + 1;
    }
    proof {
        assert(v@.skip(start as int) =~= Seq::<char>::empty());
        assert(texts(out@) + lines(v@.skip(start as int)) =~= texts(out@));
    }
    out
}

// ---------------------------------------------------------------------------
// White space
// ---------------------------------------------------------------------------

/// The characters with the Unicode property `White_Space`.
pub open spec fn is_space(c: char) -> bool {
    let u = c as u32;
    ||| 0x09 <= u <= 0x0d
    ||| u == 0x20
    ||| u == 0x85
    ||| u == 0xa0
    ||| u == 0x1680
    ||| 0x2000 <= u <= 0x200a
    ||| u == 0x2028
    ||| u == 0x2029
    ||| u == 0x202f
    ||| u == 0x205f
    ||| u == 0x3000
}

/// Whether a character is white space.
pub fn space(c: char) -> (r: bool)
    ensures
        r == is_space(c),
{
    let u: u32 = c as u32;
    (0x09 <= u && u <= 0x0d) || u == 0x20 || u == 0x85 || u == 0xa0 || u == 0x1680 || (0x2000 <= u
        && u <= 0x200a) || u == 0x2028 || u == 0x2029 || u == 0x202f || u == 0x205f || u == 0x3000
}

/// The first position, not before `from`, that holds no white space.
pub open spec fn skip_space(s: Seq<char>, from: int) -> int
    decreases s.len() - from,
{
    if from < s.len() && is_space(s[from]) {
        skip_space(s, from + 1)
    } else {
        from
    }
}

/// The first position, not before `from`, that holds white space; the length
/// of `s` if there is none.
pub open spec fn find_space(s: Seq<char>, from: int) -> int
    decreases s.len() - from,
{
    if from < s.len() && !is_space(s[from]) {
        find_space(s, from + 1)
    } else {
        from
    }
}

/// The text without the white space at its beginning.
pub open spec fn trim_start(s: Seq<char>) -> Seq<char>
    decreases s.len(),
{
    if s.len() > 0 && is_space(s[0]) {
        trim_start(s.skip(1))
    } else {
        s
    }
}

/// The text without the white space at its end.
pub open spec fn trim_end(s: Seq<char>) -> Seq<char>
    decreases s.len(),
{
    if s.len() > 0 && is_space(s.last()) {
        trim_end(s.drop_last())
    } else {
        s
    }
}

/// The text without the white space at both ends.
pub open spec fn trim(s: Seq<char>) -> Seq<char> {
    trim_end(trim_start(s))
}

/// The words of `s`: the longest runs of characters that are not white space.
pub open spec fn words(s: Seq<char>) -> Seq<Seq<char>>
    decreases s.len(),
{
    let a = skip_space(s, 0);
    if 0 <= a < s.len() {
        let b = find_space(s, a);
        if a < b <= s.len() {
            seq![s.subrange(a, b)] + words(s.skip(b))
        } else {
            seq![]
        }
    } else {
        seq![]
    }
}

/// `skip_space` stops at the first character that is not white space.
pub proof fn lemma_skip_space(s: Seq<char>, from: int)
    requires
        0 <= from <= s.len(),
    ensures
        from <= skip_space(s, from) <= s.len(),
        skip_space(s, from) < s.len() ==> !is_space(s[skip_space(s, from)]),
        forall|k: int| from <= k < skip_space(s, from) ==> is_space(s[k]),
    decreases s.len() - from,
{
    if from < s.len() && is_space(s[from]) {
        lemma_skip_space(s, from + 1);
    }
}

/// `find_space` stops at the first white space.
pub proof fn lemma_find_space(s: Seq<char>, from: int)
    requires
        0 <= from <= s.len(),
    ensures
        from <= find_space(s, from) <= s.len(),
        find_space(s, from) < s.len() ==> is_space(s[find_space(s, from)]),
        forall|k: int| from <= k < find_space(s, from) ==> !is_space(s[k]),
    decreases s.len() - from,
{
    if from < s.len() && !is_space(s[from]) {
        lemma_find_space(s, from + 1);
    }
}

/// Searching a suffix is searching the whole from that point.
pub proof fn lemma_space_skip(s: Seq<char>, from: int, at: int)
    requires
        0 <= from <= at <= s.len(),
    ensures
        skip_space(s.skip(from), at - from) == skip_space(s, at) - from,
        find_space(s.skip(from), at - from) == find_space(s, at) - from,
    decreases s.len() - at,
{
    if at < s.len() {
        assert(s.skip(from)[at - from] == s[at]);
        lemma_space_skip(s, from, at + 1);
    }
}

/// Trimming the start drops exactly the leading white space.
pub proof fn lemma_trim_start(s: Seq<char>, k: int)
    requires
        0 <= k <= s.len(),
        forall|i: int| 0 <= i < k ==> is_space(s[i]),
        k < s.len() ==> !is_space(s[k]),
    ensures
        trim_start(s) == s.skip(k),
    decreases s.len(),
{
    if k > 0 {
        lemma_trim_start(s.skip(1), k - 1);
        assert(s.skip(1).skip(k - 1) =~= s.skip(k));
    } else {
        assert(s.skip(0) =~= s);
    }
}

/// Trimming the end drops exactly the trailing white space.
pub proof fn lemma_trim_end(s: Seq<char>, k: int)
    requires
        0 <= k <= s.len(),
        forall|i: int| k <= i < s.len() ==> is_space(s[i]),
        k > 0 ==> !is_space(s[k - 1]),
    ensures
        trim_end(s) == s.take(k),
    decreases s.len(),
{
    if k < s.len() {
        lemma_trim_end(s.drop_last(), k);
        assert(s.drop_last().take(k) =~= s.take(k));
    } else {
        assert(s.take(k) =~= s);
    }
}

/// The text without the white space at both ends.
pub fn trimmed(s: &str) -> (r: String)
    ensures
        r@ == trim(s@),
{
    let v: Vec<char> = chars_of(s);
    let mut a: usize = 0;
    while a < v.len() && space(v[a])
        invariant
            a <= v@.len(),
            forall|i: int| 0 <= i < a ==> is_space(v@[i]),
        decreases v.len() - a,
    {
        a = a + 1;
    }
    let mut b: usize = v.len();
    while b > a && space(v[b - 1])
        invariant
            a <= b <= v@.len(),
            forall|i: int| b <= i < v@.len() ==> is_space(v@[i]),
        decreases b,
    {
        b = b - 1;
    }
    proof {
        lemma_trim_start(v@, a as int);
        let rest = v@.skip(a as int);
        lemma_trim_end(rest, b - a);
        assert(rest.take(b - a) =~= v@.subrange(a as int, b as int));
    }
    string_of(&v, a, b)
}

/// The words of a string.
pub fn split_words(s: &str) -> (r: Vec<String>)
    ensures
        texts(r@) == words(s@),
{
    let v: Vec<char> = chars_of(s);
    let mut out: Vec<String> = Vec::new();
    let mut start: usize = 0;
    proof {
        assert(v@.skip(0) =~= v@);
        assert(texts(out@) + words(v@) =~= words(v@));
    }
    loop
        invariant
            v@ == s@,
            start <= v@.len(),
            texts(out@) + words(v@.skip(start as int)) == words(s@),
        decreases v@.len() - start,
    {
        let ghost rest = v@.skip(start as int);
        proof {
            lemma_skip_space(rest, 0);
            lemma_skip_space(v@, start as int);
            lemma_space_skip(v@, start as int, start as int);
        }
        let mut a: usize = start;
        while a < v.len() && space(v[a])
            invariant
                start <= a <= v@.len(),
                skip_space(v@, start as int) == skip_space(v@, a as int),
            decreases v.len() - a,
        {
            a = a + 1;
        }
        if a == v.len() {
            proof {
                assert(words(rest) =~= seq![]);
                assert(texts(out@) + words(rest) =~= texts(out@));
            }
            return out;
        }
        let mut b: usize = a;
        while b < v.len() && !space(v[b])
            invariant
                a <= b <= v@.len(),
                find_space(v@, a as int) == find_space(v@, b as int),
            decreases v.len() - b,
        {
            b = b + 1;
        }
        let piece: String = string_of(&v, a, b);
        proof {
            lemma_find_space(v@, a as int);
            lemma_space_skip(v@, start as int, a as int);
            assert(rest.subrange(a - start, b - start) =~= v@.subrange(a as int, b as int));
            assert(rest.skip(b - start) =~= v@.skip(b as int));
            lemma_texts_push(out@, piece);
            assert(texts(out@) + (seq![piece@] + words(v@.skip(b as int))) =~= texts(
                out@.push(piece),
            ) + words(v@.skip(b as int)));
        }
        out.push(piece);
        start = b;
    }
}

// ---------------------------------------------------------------------------
// Prefixes
// ---------------------------------------------------------------------------

/// The text after as many copies of `p` as stand at its beginning.
pub open spec fn strip_repeated(s: Seq<char>, p: Seq<char>) -> Seq<char>
    decreases s.len(),
{
    if p.len() > 0 && p.is_prefix_of(s) {
        strip_repeated(s.skip(p.len() as int), p)
    } else {
        s
    }
}

/// The text after as many copies of `p` as stand at its beginning.
pub fn without_repeated_prefix(s: &str, p: &str) -> (r: String)
    ensures
        r@ == strip_repeated(s@, p@),
{
    let v: Vec<char> = chars_of(s);
    let pv: Vec<char> = chars_of(p);
    let mut start: usize = 0;
    proof {
        assert(v@.skip(0) =~= v@);
    }
    while pv.len() > 0 && matches_at(&v, &pv, start)
        invariant
            v@ == s@,
            pv@ == p@,
            start <= v.len(),
            strip_repeated(v@.skip(start as int), p@) == strip_repeated(s@, p@),
        decreases v@.len() - start,
    {
        proof {
            let rest = v@.skip(start as int);
            assert(rest.subrange(0, p@.len() as int) =~= v@.subrange(
                start as int,
                start + p@.len(),
            ));
            assert(p@.is_prefix_of(rest));
            assert(rest.skip(p@.len() as int) =~= v@.skip(start + p@.len()));
        }
        start = start + pv.len();
    }
    proof {
        let rest = v@.skip(start as int);
        if p@.len() > 0 && p@.is_prefix_of(rest) {
            assert(v@.subrange(start as int, start + p@.len()) =~= rest.subrange(
                0,
                p@.len() as int,
            ));
            assert(occurs_at(v@, p@, start as int));
        }
        assert(rest =~= v@.subrange(start as int, v@.len() as int));
    }
    string_of(&v, start, v.len())
}

/// The text after the first `n` characters.
pub fn after(s: &str, n: usize) -> (r: String)
    requires
        n <= s@.len(),
    ensures
        r@ == s@.skip(n as int),
{
    let v: Vec<char> = chars_of(s);
    proof {
        assert(s@.skip(n as int) =~= v@.subrange(n as int, v@.len() as int));
    }
    string_of(&v, n, v.len())
}

// ---------------------------------------------------------------------------
// Replacing and joining
// ---------------------------------------------------------------------------

/// `s` with each occurrence of `p`, taken from the left and without overlap,
/// replaced by `to`.
pub open spec fn replace(s: Seq<char>, p: Seq<char>, to: Seq<char>) -> Seq<char>
    decreases s.len(),
{
    if p.len() == 0 || s.len() == 0 {
        s
    } else if p.is_prefix_of(s) {
        to + replace(s.skip(p.len() as int), p, to)
    } else {
        seq![s[0]] + replace(s.skip(1), p, to)
    }
}

/// How many occurrences of `p` there are in `s`, taken from the left and
/// without overlap.
pub open spec fn count(s: Seq<char>, p: Seq<char>) -> nat
    decreases s.len(),
{
    if p.len() == 0 || s.len() == 0 {
        0
    } else if p.is_prefix_of(s) {
        1 + count(s.skip(p.len() as int), p)
    } else {
        count(s.skip(1), p)
    }
}

/// The string with each occurrence of a pattern replaced, and how many there
/// were.
pub fn replaced(s: &str, p: &str, to: &str) -> (r: (String, usize))
    requires
        p@.len() > 0,
    ensures
        r.0@ == replace(s@, p@, to@),
        r.1 == count(s@, p@),
{
    let v: Vec<char> = chars_of(s);
    let pv: Vec<char> = chars_of(p);
    let mut out: String = String::new();
    let mut n: usize = 0;
    let mut i: usize = 0;
    proof {
        assert(v@.skip(0) =~= v@);
        assert(out@ + replace(v@, p@, to@) =~= replace(v@, p@, to@));
    }
    while i < v.len()
        invariant
            v@ == s@,
            pv@ == p@,
            p@.len() > 0,
            i <= v@.len(),
            n <= i,
            out@ + replace(v@.skip(i as int), p@, to@) == replace(s@, p@, to@),
            n + count(v@.skip(i as int), p@) == count(s@, p@),
        decreases v@.len() - i,
    {
        let ghost rest = v@.skip(i as int);
        if matches_at(&v, &pv, i) {
            proof {
                assert(rest.subrange(0, p@.len() as int) =~= v@.subrange(i as int, i + p@.len()));
                assert(p@.is_prefix_of(rest));
                assert(rest.skip(p@.len() as int) =~= v@.skip(i + p@.len()));
                let tail = replace(v@.skip(i + p@.len()), p@, to@);
                assert(out@ + (to@ + tail) =~= (out@ + to@) + tail);
            }
            out.append(to);
            n = n + 1;
            i = i + pv.len();
        } else {
            proof {
                if p@.is_prefix_of(rest) {
                    assert(v@.subrange(i as int, i + p@.len()) =~= rest.subrange(
                        0,
                        p@.len() as int,
                    ));
                    assert(occurs_at(v@, p@, i as int));
                }
                assert(rest.skip(1) =~= v@.skip(i + 1));
                let tail = replace(v@.skip(i + 1), p@, to@);
                assert(out@ + (seq![v@[i as int]] + tail) =~= out@.push(v@[i as int]) + tail);
            }
            out.push(v[i]);
            i = i + 1;
        }
    }
    proof {
        assert(v@.skip(i as int) =~= Seq::<char>::empty());
        assert(out@ + replace(v@.skip(i as int), p@, to@) =~= out@);
    }
    (out, n)
}

/// The texts one after the other, with `sep` between neighbours.
pub open spec fn join(parts: Seq<Seq<char>>, sep: Seq<char>) -> Seq<char>
    decreases parts.len(),
{
    if parts.len() == 0 {
        seq![]
    } else if parts.len() == 1 {
        parts[0]
    } else {
        join(parts.drop_last(), sep) + sep + parts.last()
    }
}

/// The strings one after the other, with a separator between neighbours.
pub fn joined(parts: &Vec<String>, sep: &str) -> (r: String)
    ensures
        r@ == join(texts(parts@), sep@),
{
    let mut out: String = String::new();
    let mut i: usize = 0;
    while i < parts.len()
        invariant
            i <= parts@.len(),
            out@ == join(texts(parts@).take(i as int), sep@),
        decreases parts.len() - i,
    {
        if i > 0 {
            out.append(sep);
        }
        out.append(parts[i].as_str());
        proof {
            let t = texts(parts@).take(i + 1);
            assert(t.drop_last() =~= texts(parts@).take(i as int));
            if i == 0 {
                assert(join(t, sep@) =~= Seq::<char>::empty() + parts@[0]@);
            }
        }
        i = i + 1;
    }
    proof {
        assert(texts(parts@).take(parts@.len() as int) =~= texts(parts@));
    }
    out
}

/// Two texts one after the other.
pub fn cat2(a: &str, b: &str) -> (s: String)
    ensures
        s@ == a@ + b@,
{
    let mut s: String = String::from_str(a);
    s.append(b);
    s
}

/// Three texts one after the other.
pub fn cat3(a: &str, b: &str, c: &str) -> (s: String)
    ensures
        s@ == a@ + b@ + c@,
{
    let mut s: String = String::from_str(a);
    s.append(b);
    s.append(c);
    s
}

/// Four texts one after the other.
pub fn cat4(a: &str, b: &str, c: &str, d: &str) -> (s: String)
    ensures
        s@ == a@ + b@ + c@ + d@,
{
    let mut s: String = String::from_str(a);
    s.append(b);
    s.append(c);
    s.append(d);
    s
}

/// Five texts one after the other.
pub fn cat5(a: &str, b: &str, c: &str, d: &str, e: &str) -> (s: String)
    ensures
        s@ == a@ + b@ + c@ + d@ + e@,
{
    let mut s: String = String::from_str(a);
    s.append(b);
    s.append(c);
    s.append(d);
    s.append(e);
    s
}

/// Six texts one after the other.
pub fn cat6(a: &str, b: &str, c: &str, d: &str, e: &str, f: &str) -> (s: String)
    ensures
        s@ == a@ + b@ + c@ + d@ + e@ + f@,
{
    let mut s: String = String::from_str(a);
    s.append(b);
    s.append(c);
    s.append(d);
    s.append(e);
    s.append(f);
    s
}

/// Seven texts one after the other.
pub fn cat7(a: &str, b: &str, c: &str, d: &str, e: &str, f: &str, g: &str) -> (s: String)
    ensures
        s@ == a@ + b@ + c@ + d@ + e@ + f@ + g@,
{
    let mut s: String = String::from_str(a);
    s.append(b);
    s.append(c);
    s.append(d);
    s.append(e);
    s.append(f);
    s.append(g);
    s
}

/// Eight texts one after the other.
pub fn cat8(a: &str, b: &str, c: &str, d: &str, e: &str, f: &str, g: &str, h: &str) -> (s: String)
    ensures
        s@ == a@ + b@ + c@ + d@ + e@ + f@ + g@ + h@,
{
    let mut s: String = String::from_str(a);
    s.append(b);
    s.append(c);
    s.append(d);
    s.append(e);
    s.append(f);
    s.append(g);
    s.append(h);
    s
}

/// What the `Debug` form of a string looks like.
pub uninterp spec fn debug_form(s: Seq<char>) -> Seq<char>;

/// The `Debug` form of a string, as `format!("{:?}", ..)` writes it. The
/// contract says only that it is a function of the characters.
#[verifier::external_body]
pub(crate) fn debug_of(s: &str) -> (r: String)
    ensures
        r@ == debug_form(s@),
{
    format!("{:?}", s)
}

// ---------------------------------------------------------------------------
// Byte sizes
// ---------------------------------------------------------------------------

/// How many bytes the UTF-8 form of a character takes.
pub open spec fn width(c: char) -> nat {
    let u = c as u32;
    if u <= 0x7f {
        1
    } else if u <= 0x7ff {
        2
    } else if u <= 0xffff {
        3
    } else {
        4
    }
}

/// How many bytes the UTF-8 form of a text takes.
pub open spec fn byte_size(s: Seq<char>) -> nat
    decreases s.len(),
{
    if s.len() == 0 {
        0
    } else {
        width(s[0]) + byte_size(s.skip(1))
    }
}

/// The longest prefix of `s` whose UTF-8 form takes at most `limit` bytes.
pub open spec fn cut(s: Seq<char>, limit: int) -> Seq<char>
    decreases s.len(),
{
    if s.len() == 0 || width(s[0]) > limit {
        seq![]
    } else {
        seq![s[0]] + cut(s.skip(1), limit - width(s[0]))
    }
}

/// The byte size is the length of the UTF-8 encoding.
pub proof fn lemma_byte_size(s: Seq<char>)
    ensures
        byte_size(s) == encode_utf8(s).len(),
    decreases s.len(),
{
    if s.len() > 0 {
        char_is_scalar(s[0]);
        lemma_byte_size(s.skip(1));
        assert(s.skip(1) =~= s.drop_first());
    }
}

/// Byte sizes add up.
pub proof fn lemma_byte_size_concat(a: Seq<char>, b: Seq<char>)
    ensures
        byte_size(a + b) == byte_size(a) + byte_size(b),
    decreases a.len(),
{
    if a.len() == 0 {
        assert(a + b =~= b);
    } else {
        assert((a + b).skip(1) =~= a.skip(1) + b);
        lemma_byte_size_concat(a.skip(1), b);
    }
}

/// A cut text is a prefix of the text, fits the limit, and no longer prefix
/// does.
pub proof fn lemma_cut(s: Seq<char>, limit: int)
    requires
        0 <= limit,
    ensures
        cut(s, limit).is_prefix_of(s),
        byte_size(cut(s, limit)) <= limit,
        cut(s, limit).len() < s.len() ==> byte_size(s.take(cut(s, limit).len() as int + 1)) > limit,
        byte_size(s) <= limit ==> cut(s, limit) == s,
    decreases s.len(),
{
    if s.len() == 0 {
        assert(cut(s, limit) =~= s);
    } else if width(s[0]) > limit {
        assert(s.take(1).skip(1) =~= seq![]);
        assert(byte_size(s.take(1)) == width(s[0]) + byte_size(s.take(1).skip(1)));
    } else {
        let rest = s.skip(1);
        let c = cut(rest, limit - width(s[0]));
        lemma_cut(rest, limit - width(s[0]));
        let whole = cut(s, limit);
        assert(whole =~= seq![s[0]] + c);
        assert(whole.skip(1) =~= c);
        assert(s.subrange(0, whole.len() as int) =~= seq![s[0]] + rest.subrange(0, c.len() as int));
        if whole.len() < s.len() {
            let longer = s.take(whole.len() as int + 1);
            assert(longer.skip(1) =~= rest.take(c.len() as int + 1));
        }
        if byte_size(s) <= limit {
            assert(whole =~= s);
        }
    }
}

/// How many bytes the UTF-8 form of a string takes.
pub fn byte_len(s: &str) -> (n: usize)
    ensures
        n == byte_size(s@),
{
    proof {
        lemma_byte_size(s@);
    }
    s.as_bytes().len()
}

/// How many bytes the UTF-8 form of a character takes.
pub fn char_width(c: char) -> (n: usize)
    ensures
        n == width(c),
{
    let u: u32 = c as u32;
    if u <= 0x7f {
        1
    } else if u <= 0x7ff {
        2
    } else if u <= 0xffff {
        3
    } else {
        4
    }
}

/// The longest prefix of a string that takes at most `limit` bytes.
pub fn cut_to(s: &str, limit: usize) -> (r: String)
    ensures
        r@ == cut(s@, limit as int),
{
    let v: Vec<char> = chars_of(s);
    let mut i: usize = 0;
    let mut left: usize = limit;
    proof {
        assert(v@.skip(0) =~= v@);
        assert(v@.take(0) + cut(v@, limit as int) =~= cut(v@, limit as int));
    }
    while i < v.len() && char_width(v[i]) <= left
        invariant
            v@ == s@,
            i <= v@.len(),
            v@.take(i as int) + cut(v@.skip(i as int), left as int) == cut(s@, limit as int),
        decreases v@.len() - i,
    {
        proof {
            let rest = v@.skip(i as int);
            let w = width(v@[i as int]);
            assert(rest.skip(1) =~= v@.skip(i + 1));
            let tail = cut(v@.skip(i + 1), left - w);
            assert(v@.take(i as int) + (seq![v@[i as int]] + tail) =~= v@.take(i + 1) + tail);
        }
        left = left - char_width(v[i]);
        i = i + 1;
    }
    proof {
        assert(v@.take(i as int) + cut(v@.skip(i as int), left as int) =~= v@.take(i as int));
        assert(v@.take(i as int) =~= v@.subrange(0, i as int));
    }
    string_of(&v, 0, i)
}

} // verus!
