//! YAML values, as far as note metadata needs them.

use crate::text::{opt_text, owned, same};
use serde_yaml::value::{Tag, TaggedValue};
use serde_yaml::Value;
use vstd::prelude::*;

verus! {

/// A YAML value.
#[derive(Debug)]
pub enum Yaml {
    Null,
    Bool(bool),
    /// A number, as YAML writes it.
    Number(String),
    Text(String),
    Sequence(Vec<Yaml>),
    /// Keys with their values, in order.
    Mapping(Vec<Entry>),
    /// A value under a tag; the tag stands without its exclamation mark.
    Tagged(String, Box<Yaml>),
}

/// A key with its value.
#[derive(Debug)]
pub struct Entry {
    pub key: Yaml,
    pub value: Yaml,
}

/// The contents of a [`Yaml`].
pub enum YamlView {
    Null,
    Bool(bool),
    Number(Seq<char>),
    Text(Seq<char>),
    Sequence(Seq<YamlView>),
    Mapping(Seq<(YamlView, YamlView)>),
    Tagged(Seq<char>, Box<YamlView>),
}

/// The contents of a value.
pub open spec fn yaml_view(y: Yaml) -> YamlView
    decreases y,
{
    match y {
        Yaml::Null => YamlView::Null,
        Yaml::Bool(b) => YamlView::Bool(b),
        Yaml::Number(n) => YamlView::Number(n@),
        Yaml::Text(t) => YamlView::Text(t@),
        Yaml::Sequence(v) => YamlView::Sequence(seq_view(v@)),
        Yaml::Mapping(m) => YamlView::Mapping(map_view(m@)),
        Yaml::Tagged(t, b) => YamlView::Tagged(t@, Box::new(yaml_view(*b))),
    }
}

/// The contents of a sequence of values.
pub open spec fn seq_view(s: Seq<Yaml>) -> Seq<YamlView>
    decreases s,
{
    if s.len() == 0 {
        seq![]
    } else {
        seq_view(s.drop_last()).push(yaml_view(s.last()))
    }
}

/// The contents of a sequence of entries.
pub open spec fn map_view(s: Seq<Entry>) -> Seq<(YamlView, YamlView)>
    decreases s,
{
    if s.len() == 0 {
        seq![]
    } else {
        map_view(s.drop_last()).push((yaml_view(s.last().key), yaml_view(s.last().value)))
    }
}

impl View for Yaml {
    type V = YamlView;

    open spec fn view(&self) -> YamlView {
        yaml_view(*self)
    }
}

/// The contents of an optional value.
pub open spec fn opt_yaml(o: Option<Yaml>) -> Option<YamlView> {
    match o {
        Some(y) => Some(y@),
        None => None,
    }
}

/// The contents of a sequence, item by item.
pub proof fn lemma_seq_view(s: Seq<Yaml>)
    ensures
        seq_view(s).len() == s.len(),
        forall|i: int| 0 <= i < s.len() ==> #[trigger] seq_view(s)[i] == yaml_view(s[i]),
    decreases s.len(),
{
    if s.len() > 0 {
        lemma_seq_view(s.drop_last());
        assert forall|i: int| 0 <= i < s.len() implies #[trigger] seq_view(s)[i] == yaml_view(
            s[i],
        ) by {
            if i < s.len() - 1 {
                assert(seq_view(s.drop_last())[i] == yaml_view(s.drop_last()[i]));
            }
        }
    }
}

/// The contents of a mapping, entry by entry.
pub proof fn lemma_map_view(s: Seq<Entry>)
    ensures
        map_view(s).len() == s.len(),
        forall|i: int|
            0 <= i < s.len() ==> #[trigger] map_view(s)[i] == (
                yaml_view(s[i].key),
                yaml_view(s[i].value),
            ),
    decreases s.len(),
{
    if s.len() > 0 {
        lemma_map_view(s.drop_last());
        assert forall|i: int| 0 <= i < s.len() implies #[trigger] map_view(s)[i] == (
            yaml_view(s[i].key),
            yaml_view(s[i].value),
        ) by {
            if i < s.len() - 1 {
                assert(map_view(s.drop_last())[i] == (
                    yaml_view(s.drop_last()[i].key),
                    yaml_view(s.drop_last()[i].value),
                ));
            }
        }
    }
}

// ---------------------------------------------------------------------------
// YAML as text
// ---------------------------------------------------------------------------

/// A value as `serde_yaml` holds it.
#[verifier::external_type_specification]
#[verifier::external_body]
pub struct ExValue(serde_yaml::Value);

/// The tree that a `serde_yaml::Value` holds: each number in its `Display`
/// form, each tag in its `Display` form without the exclamation mark in front,
/// and the entries of a mapping in order.
pub uninterp spec fn value_tree(v: &Value) -> YamlView;

/// The trees of a sequence of values.
pub open spec fn trees(s: Seq<Value>) -> Seq<YamlView> {
    Seq::new(s.len(), |i: int| value_tree(&s[i]))
}

/// The trees of a sequence of entries.
pub open spec fn entry_trees(s: Seq<(Value, Value)>) -> Seq<(YamlView, YamlView)> {
    Seq::new(s.len(), |i: int| (value_tree(&s[i].0), value_tree(&s[i].1)))
}

/// The tree of an optional value.
pub open spec fn opt_tree(o: Option<Value>) -> Option<YamlView> {
    match o {
        Some(v) => Some(value_tree(&v)),
        None => None,
    }
}

/// The top of a tree, with the values below it still as `serde_yaml` holds
/// them.
pub enum Level {
    Null,
    Bool(bool),
    Number(String),
    Text(String),
    Sequence(Vec<Value>),
    Mapping(Vec<(Value, Value)>),
    Tagged(String, Value),
}

/// The whole tree under a top.
pub open spec fn level_tree(l: Level) -> YamlView {
    match l {
        Level::Null => YamlView::Null,
        Level::Bool(b) => YamlView::Bool(b),
        Level::Number(n) => YamlView::Number(n@),
        Level::Text(t) => YamlView::Text(t@),
        Level::Sequence(s) => YamlView::Sequence(trees(s@)),
        Level::Mapping(m) => YamlView::Mapping(entry_trees(m@)),
        Level::Tagged(t, v) => YamlView::Tagged(t@, Box::new(value_tree(&v))),
    }
}

/// The top of a `serde_yaml::Value`, which is an enum of these variants. A
/// `Number` and a `Tag` are taken by their `Display`, a `Mapping` by its
/// `into_iter`, which keeps the order of the entries.
#[verifier::external_body]
fn open_value(v: Value) -> (l: Level)
    ensures
        level_tree(l) == value_tree(&v),
{
    match v {
        Value::Null => Level::Null,
        Value::Bool(b) => Level::Bool(b),
        Value::Number(n) => Level::Number(n.to_string()),
        Value::String(s) => Level::Text(s),
        Value::Sequence(s) => Level::Sequence(s),
        Value::Mapping(m) => Level::Mapping(m.into_iter().collect()),
        Value::Tagged(t) => Level::Tagged(t.tag.to_string().split_off(1), t.value),
    }
}

/// The number that `serde_yaml` reads in a text, in its `Display` form; `None`
/// where it reads none.
pub uninterp spec fn number_read(text: Seq<char>) -> Option<Seq<char>>;

/// The entries of the mapping that `serde_yaml` makes of a list of entries.
pub uninterp spec fn mapping_made(
    entries: Seq<(YamlView, YamlView)>,
) -> Seq<(YamlView, YamlView)>;

/// The name of a tag, which is never empty: a lone exclamation mark stands for
/// the empty name.
pub open spec fn tag_name(t: Seq<char>) -> Seq<char> {
    if t.len() == 0 {
        seq!['!']
    } else {
        t
    }
}

/// The `serde_yaml::Value` with a given top: the variant of that name.
#[verifier::external_body]
fn plain_value(l: Level) -> (v: Value)
    requires
        !(l is Number || l is Mapping || l is Tagged),
    ensures
        value_tree(&v) == level_tree(l),
{
    match l {
        Level::Bool(b) => Value::Bool(b),
        Level::Text(s) => Value::String(s),
        Level::Sequence(s) => Value::Sequence(s),
        _ => Value::Null,
    }
}

/// `serde_yaml::Number::from_str`, with the errors left out. The contract says
/// only that the number is a function of the text.
#[verifier::external_body]
fn number_value(n: &str) -> (v: Option<Value>)
    ensures
        opt_tree(v) == match number_read(n@) {
            Some(n) => Some(YamlView::Number(n)),
            None => None,
        },
{
    Some(Value::Number(n.parse().ok()?))
}

/// `serde_yaml::Mapping::from_iter`. The contract says only that the entries
/// of the mapping are a function of those that it is made of.
#[verifier::external_body]
fn mapping_value(m: Vec<(Value, Value)>) -> (v: Value)
    ensures
        value_tree(&v) == YamlView::Mapping(mapping_made(entry_trees(m@))),
{
    Value::Mapping(m.into_iter().collect())
}

/// `serde_yaml::value::Tag::new`, with an exclamation mark in front of the
/// name, which the tag's `Display` form has too.
#[verifier::external_body]
fn tagged_value(t: &str, value: Value) -> (v: Value)
    ensures
        value_tree(&v) == YamlView::Tagged(tag_name(t@), Box::new(value_tree(&value))),
{
    Value::Tagged(Box::new(TaggedValue { tag: Tag::new(format!("!{}", t)), value }))
}

/// The value that a YAML text stands for, if it stands for one.
pub uninterp spec fn yaml_value(text: Seq<char>) -> Option<YamlView>;

/// The YAML text for the tree of a `serde_yaml::Value`, if it can be written.
pub uninterp spec fn tree_text(tree: YamlView) -> Option<Seq<char>>;

/// `serde_yaml::from_str` into a `serde_yaml::Value`, with the errors left out.
/// The contract says only that the result is a function of the text.
#[verifier::external_body]
fn read_text(text: &str) -> (r: Option<Value>)
    ensures
        opt_tree(r) == yaml_value(text@),
{
    serde_yaml::from_str(text).ok()
}

/// `serde_yaml::to_string` of a `serde_yaml::Value`, with the errors left out.
/// The contract says only that the result is a function of the value's tree.
#[verifier::external_body]
fn write_text(v: &Value) -> (r: Option<String>)
    ensures
        opt_text(r) == tree_text(value_tree(v)),
{
    serde_yaml::to_string(v).ok()
}

/// An item of a sequence is a smaller tree.
proof fn lemma_item_is_smaller(s: Seq<YamlView>, i: int)
    requires
        0 <= i < s.len(),
    ensures
        decreases_to!(YamlView::Sequence(s) => s[i]),
{
    let y = YamlView::Sequence(s);
    assert(decreases_to!(y => y->Sequence_0));
    assert(decreases_to!(s => s[i]));
}

/// A key and a value of a mapping are smaller trees.
proof fn lemma_entry_is_smaller(m: Seq<(YamlView, YamlView)>, i: int)
    requires
        0 <= i < m.len(),
    ensures
        decreases_to!(YamlView::Mapping(m) => m[i].0),
        decreases_to!(YamlView::Mapping(m) => m[i].1),
{
    let y = YamlView::Mapping(m);
    assert(decreases_to!(y => y->Mapping_0));
    assert(decreases_to!(m => m[i]));
    assert(decreases_to!(m[i] => m[i].0));
    assert(decreases_to!(m[i] => m[i].1));
}

/// A `serde_yaml::Value` as a [`Yaml`]: the same tree.
pub fn from_value(v: Value) -> (y: Yaml)
    ensures
        y@ == value_tree(&v),
    decreases value_tree(&v),
{
    let ghost tree = value_tree(&v);
    match open_value(v) {
        Level::Null => Yaml::Null,
        Level::Bool(b) => Yaml::Bool(b),
        Level::Number(n) => Yaml::Number(n),
        Level::Text(t) => Yaml::Text(t),
        Level::Sequence(items) => {
            let ghost all = items@;
            let mut out: Vec<Yaml> = Vec::new();
            for item in it: items
                invariant
                    it.seq() == all,
                    tree == YamlView::Sequence(trees(all)),
                    tree == value_tree(&v),
                    seq_view(out@) == trees(all).take(it.index() as int),
            {
                proof {
                    assert(trees(all)[it.index() as int] == value_tree(&item));
                    lemma_item_is_smaller(trees(all), it.index() as int);
                }
                let y: Yaml = from_value(item);
                let ghost before = out@;
                out.push(y);
                proof {
                    assert(out@.drop_last() =~= before);
                    assert(seq_view(out@) =~= trees(all).take(it.index() as int + 1));
                }
            }
            proof {
                assert(trees(all).take(all.len() as int) =~= trees(all));
            }
            Yaml::Sequence(out)
        },
        Level::Mapping(items) => {
            let ghost all = items@;
            let mut out: Vec<Entry> = Vec::new();
            for item in it: items
                invariant
                    it.seq() == all,
                    tree == YamlView::Mapping(entry_trees(all)),
                    tree == value_tree(&v),
                    map_view(out@) == entry_trees(all).take(it.index() as int),
            {
                proof {
                    assert(entry_trees(all)[it.index() as int] == (
                        value_tree(&item.0),
                        value_tree(&item.1),
                    ));
                    lemma_entry_is_smaller(entry_trees(all), it.index() as int);
                }
                let e: Entry = Entry { key: from_value(item.0), value: from_value(item.1) };
                let ghost before = out@;
                out.push(e);
                proof {
                    assert(out@.drop_last() =~= before);
                    assert(map_view(out@) =~= entry_trees(all).take(it.index() as int + 1));
                }
            }
            proof {
                assert(entry_trees(all).take(all.len() as int) =~= entry_trees(all));
            }
            Yaml::Mapping(out)
        },
        Level::Tagged(t, below) => {
            proof {
                assert(decreases_to!(tree => *tree->Tagged_1));
            }
            Yaml::Tagged(t, Box::new(from_value(below)))
        },
    }
}

/// The tree that `serde_yaml` makes of a value, if it can make one.
pub open spec fn built(y: YamlView) -> Option<YamlView>
    decreases y,
{
    match y {
        YamlView::Number(n) => match number_read(n) {
            Some(n) => Some(YamlView::Number(n)),
            None => None,
        },
        YamlView::Sequence(s) => match built_all(s) {
            Some(t) => Some(YamlView::Sequence(t)),
            None => None,
        },
        YamlView::Mapping(m) => match built_entries(m) {
            Some(t) => Some(YamlView::Mapping(mapping_made(t))),
            None => None,
        },
        YamlView::Tagged(t, b) => match built(*b) {
            Some(v) => Some(YamlView::Tagged(tag_name(t), Box::new(v))),
            None => None,
        },
        _ => Some(y),
    }
}

/// The trees made of a sequence of values; `None` if one cannot be made.
pub open spec fn built_all(s: Seq<YamlView>) -> Option<Seq<YamlView>>
    decreases s,
{
    if s.len() == 0 {
        Some(seq![])
    } else {
        match (built_all(s.drop_last()), built(s.last())) {
            (Some(t), Some(v)) => Some(t.push(v)),
            _ => None,
        }
    }
}

/// The trees made of a sequence of entries; `None` if one cannot be made.
pub open spec fn built_entries(s: Seq<(YamlView, YamlView)>) -> Option<Seq<(YamlView, YamlView)>>
    decreases s,
{
    if s.len() == 0 {
        Some(seq![])
    } else {
        match (built_entries(s.drop_last()), built(s.last().0), built(s.last().1)) {
            (Some(t), Some(k), Some(v)) => Some(t.push((k, v))),
            _ => None,
        }
    }
}

/// What cannot be made of a part cannot be made of the whole.
proof fn lemma_part_fails(s: Seq<YamlView>, n: int)
    requires
        0 <= n <= s.len(),
        built_all(s.take(n)) is None,
    ensures
        built_all(s) is None,
    decreases s.len(),
{
    if n == s.len() {
        assert(s.take(n) =~= s);
    } else {
        assert(s.drop_last().take(n) =~= s.take(n));
        lemma_part_fails(s.drop_last(), n);
    }
}

/// What cannot be made of a part of the entries cannot be made of all.
proof fn lemma_entries_fail(s: Seq<(YamlView, YamlView)>, n: int)
    requires
        0 <= n <= s.len(),
        built_entries(s.take(n)) is None,
    ensures
        built_entries(s) is None,
    decreases s.len(),
{
    if n == s.len() {
        assert(s.take(n) =~= s);
    } else {
        assert(s.drop_last().take(n) =~= s.take(n));
        lemma_entries_fail(s.drop_last(), n);
    }
}

/// A [`Yaml`] as a `serde_yaml::Value`; `None` where it holds a number that
/// `serde_yaml` does not read.
pub fn to_value(y: &Yaml) -> (r: Option<Value>)
    ensures
        opt_tree(r) == built(y@),
    decreases y@,
{
    match y {
        Yaml::Null => Some(plain_value(Level::Null)),
        Yaml::Bool(b) => Some(plain_value(Level::Bool(*b))),
        Yaml::Number(n) => number_value(n.as_str()),
        Yaml::Text(t) => Some(plain_value(Level::Text(owned(t.as_str())))),
        Yaml::Sequence(s) => {
            let ghost all = seq_view(s@);
            proof {
                lemma_seq_view(s@);
            }
            let mut out: Vec<Value> = Vec::new();
            let mut i: usize = 0;
            while i < s.len()
                invariant
                    i <= s@.len(),
                    y@ == YamlView::Sequence(all),
                    all.len() == s@.len(),
                    forall|k: int| 0 <= k < s@.len() ==> #[trigger] all[k] == yaml_view(s@[k]),
                    built_all(all.take(i as int)) == Some(trees(out@)),
                decreases s@.len() - i,
            {
                let ghost next = all.take(i as int + 1);
                proof {
                    assert(next.drop_last() =~= all.take(i as int));
                    assert(next.last() == all[i as int]);
                }
                let v: Value = match to_value(&s[i]) {
                    Some(v) => v,
                    None => {
                        proof {
                            lemma_part_fails(all, i as int + 1);
                        }
                        return None;
                    },
                };
                let ghost before = out@;
                out.push(v);
                proof {
                    assert(trees(out@) =~= trees(before).push(value_tree(&v)));
                }
                i = i + 1;
            }
            proof {
                assert(all.take(i as int) =~= all);
            }
            Some(plain_value(Level::Sequence(out)))
        },
        Yaml::Mapping(m) => {
            let ghost all = map_view(m@);
            proof {
                lemma_map_view(m@);
            }
            let mut out: Vec<(Value, Value)> = Vec::new();
            let mut i: usize = 0;
            while i < m.len()
                invariant
                    i <= m@.len(),
                    y@ == YamlView::Mapping(all),
                    all.len() == m@.len(),
                    forall|k: int|
                        0 <= k < m@.len() ==> #[trigger] all[k] == (
                            yaml_view(m@[k].key),
                            yaml_view(m@[k].value),
                        ),
                    built_entries(all.take(i as int)) == Some(entry_trees(out@)),
                decreases m@.len() - i,
            {
                let ghost next = all.take(i as int + 1);
                proof {
                    assert(next.drop_last() =~= all.take(i as int));
                    assert(next.last() == all[i as int]);
                }
                proof {
                    lemma_entry_is_smaller(all, i as int);
                }
                let e: (Value, Value) = match (to_value(&m[i].key), to_value(&m[i].value)) {
                    (Some(k), Some(v)) => (k, v),
                    _ => {
                        proof {
                            lemma_entries_fail(all, i as int + 1);
                        }
                        return None;
                    },
                };
                let ghost before = out@;
                out.push(e);
                proof {
                    assert(entry_trees(out@) =~= entry_trees(before).push(
                        (value_tree(&e.0), value_tree(&e.1)),
                    ));
                }
                i = i + 1;
            }
            proof {
                assert(all.take(i as int) =~= all);
            }
            Some(mapping_value(out))
        },
        Yaml::Tagged(t, b) => match to_value(b) {
            Some(v) => Some(tagged_value(t.as_str(), v)),
            None => None,
        },
    }
}

/// The YAML text for a value, if it can be written.
pub open spec fn yaml_text(y: YamlView) -> Option<Seq<char>> {
    match built(y) {
        Some(tree) => tree_text(tree),
        None => None,
    }
}

/// Read a YAML text.
pub fn parse_yaml(text: &str) -> (r: Option<Yaml>)
    ensures
        opt_yaml(r) == yaml_value(text@),
{
    match read_text(text) {
        Some(v) => Some(from_value(v)),
        None => None,
    }
}

/// Write a value as a YAML text.
pub fn render_yaml(y: &Yaml) -> (r: Option<String>)
    ensures
        opt_text(r) == yaml_text(y@),
{
    match to_value(y) {
        Some(v) => write_text(&v),
        None => None,
    }
}

// ---------------------------------------------------------------------------
// Keys
// ---------------------------------------------------------------------------

/// The place of a text key in a mapping; its length if the key is not there.
pub open spec fn key_place(m: Seq<(YamlView, YamlView)>, key: Seq<char>) -> int
    decreases m.len(),
{
    if m.len() == 0 {
        0
    } else if m[0].0 == YamlView::Text(key) {
        0
    } else {
        1 + key_place(m.skip(1), key)
    }
}

/// The value of a text key in a mapping.
pub open spec fn key_value(m: Seq<(YamlView, YamlView)>, key: Seq<char>) -> Option<YamlView> {
    let i = key_place(m, key);
    if i < m.len() {
        Some(m[i].1)
    } else {
        None
    }
}

/// The mapping with a value for a key: in the key's place, or at the end if the
/// key is new.
pub open spec fn with_key(m: Seq<(YamlView, YamlView)>, key: Seq<char>, value: YamlView) -> Seq<
    (YamlView, YamlView),
> {
    let i = key_place(m, key);
    if i < m.len() {
        m.update(i, (m[i].0, value))
    } else {
        m.push((YamlView::Text(key), value))
    }
}

/// The mapping without a key. The last entry takes the place of the one that
/// leaves.
pub open spec fn without_key(m: Seq<(YamlView, YamlView)>, key: Seq<char>) -> Seq<
    (YamlView, YamlView),
> {
    let i = key_place(m, key);
    if i < m.len() {
        m.update(i, m.last()).drop_last()
    } else {
        m
    }
}

/// `key_place` gives the first place of the key.
pub proof fn lemma_key_place(m: Seq<(YamlView, YamlView)>, key: Seq<char>)
    ensures
        0 <= key_place(m, key) <= m.len(),
        key_place(m, key) < m.len() ==> m[key_place(m, key)].0 == YamlView::Text(key),
        forall|i: int| 0 <= i < key_place(m, key) ==> (#[trigger] m[i]).0 != YamlView::Text(key),
    decreases m.len(),
{
    if m.len() > 0 && m[0].0 != YamlView::Text(key) {
        lemma_key_place(m.skip(1), key);
        assert forall|i: int| 0 <= i < key_place(m, key) implies (#[trigger] m[i]).0
            != YamlView::Text(key) by {
            if i > 0 {
                assert(m.skip(1)[i - 1] == m[i]);
            }
        }
    }
}

/// The first place of a key is where nothing before has it.
pub proof fn lemma_key_place_is(m: Seq<(YamlView, YamlView)>, key: Seq<char>, k: int)
    requires
        0 <= k <= m.len(),
        k < m.len() ==> m[k].0 == YamlView::Text(key),
        forall|i: int| 0 <= i < k ==> (#[trigger] m[i]).0 != YamlView::Text(key),
    ensures
        key_place(m, key) == k,
{
    lemma_key_place(m, key);
    let p = key_place(m, key);
    if p < k {
        assert(m[p].0 != YamlView::Text(key));
    }
}

/// The place of a text key.
pub fn find_key(m: &Vec<Entry>, key: &str) -> (i: usize)
    ensures
        i == key_place(map_view(m@), key@),
        i <= m@.len(),
{
    let mut i: usize = 0;
    proof {
        lemma_map_view(m@);
    }
    while i < m.len()
        invariant
            i <= m@.len(),
            map_view(m@).len() == m@.len(),
            forall|k: int|
                0 <= k < m@.len() ==> #[trigger] map_view(m@)[k] == (
                    yaml_view(m@[k].key),
                    yaml_view(m@[k].value),
                ),
            forall|k: int|
                0 <= k < i ==> (#[trigger] map_view(m@)[k]).0 != YamlView::Text(key@),
        decreases m.len() - i,
    {
        let found: bool = match &m[i].key {
            Yaml::Text(t) => same(t.as_str(), key),
            _ => false,
        };
        proof {
            assert(map_view(m@)[i as int].0 == yaml_view(m@[i as int].key));
        }
        if found {
            proof {
                lemma_key_place_is(map_view(m@), key@, i as int);
            }
            return i;
        }
        i = i + 1;
    }
    proof {
        lemma_key_place_is(map_view(m@), key@, i as int);
    }
    i
}

/// Set the value of a key.
pub fn set_key(m: Vec<Entry>, key: &str, value: Yaml) -> (r: Vec<Entry>)
    ensures
        map_view(r@) == with_key(map_view(m@), key@, value@),
{
    let mut r: Vec<Entry> = m;
    let i: usize = find_key(&r, key);
    proof {
        lemma_map_view(r@);
    }
    let ghost before = r@;
    if i < r.len() {
        let mut v: Yaml = value;
        core::mem::swap(&mut r[i].value, &mut v);
        proof {
            lemma_map_view(r@);
            let old_map = map_view(before);
            assert forall|k: int| 0 <= k < before.len() implies #[trigger] map_view(r@)[k] == with_key(
                old_map,
                key@,
                value@,
            )[k] by {
                assert(old_map[k] == (yaml_view(before[k].key), yaml_view(before[k].value)));
                assert(r@[k] == if k == i {
                    Entry { key: before[k].key, value }
                } else {
                    before[k]
                });
            }
            assert(map_view(r@) =~= with_key(old_map, key@, value@));
        }
    } else {
        let e: Entry = Entry { key: Yaml::Text(owned(key)), value };
        r.push(e);
        proof {
            assert(r@.drop_last() =~= before);
            assert(r@.last() == e);
            assert(yaml_view(e.key) == YamlView::Text(key@));
            assert(map_view(r@) == map_view(before).push((yaml_view(e.key), yaml_view(e.value))));
            assert(map_view(r@) =~= with_key(map_view(before), key@, value@));
        }
    }
    r
}

/// Remove a key.
pub fn remove_key(m: Vec<Entry>, key: &str) -> (r: Vec<Entry>)
    ensures
        map_view(r@) == without_key(map_view(m@), key@),
{
    let mut r: Vec<Entry> = m;
    let i: usize = find_key(&r, key);
    proof {
        lemma_map_view(r@);
    }
    let ghost before = r@;
    if i < r.len() {
        let gone: Entry = r.swap_remove(i);
        proof {
            lemma_map_view(r@);
            assert(map_view(r@) =~= without_key(map_view(before), key@));
        }
    }
    r
}

// ---------------------------------------------------------------------------
// Laws
// ---------------------------------------------------------------------------

/// A key that was set has the value that it was set to, and every other key
/// keeps its value.
pub proof fn law_set_key_then_get(
    m: Seq<(YamlView, YamlView)>,
    key: Seq<char>,
    value: YamlView,
    other: Seq<char>,
)
    ensures
        key_value(with_key(m, key, value), key) == Some(value),
        other != key ==> key_value(with_key(m, key, value), other) == key_value(m, other),
{
    lemma_key_place(m, key);
    lemma_key_place(m, other);
    let r = with_key(m, key, value);
    let i = key_place(m, key);
    let j = key_place(m, other);
    assert forall|k: int| 0 <= k < i implies (#[trigger] r[k]).0 != YamlView::Text(key) by {
        assert(r[k] == m[k]);
    }
    lemma_key_place_is(r, key, i);
    if other != key {
        assert forall|k: int| 0 <= k < j implies (#[trigger] r[k]).0 != YamlView::Text(other) by {
            if k < m.len() {
                assert(m[k].0 != YamlView::Text(other));
            }
        }
        if j < m.len() {
            lemma_key_place_is(r, other, j);
        } else {
            assert forall|k: int| 0 <= k < r.len() implies (#[trigger] r[k]).0 != YamlView::Text(
                other,
            ) by {
                if k < m.len() {
                    assert(m[k].0 != YamlView::Text(other));
                }
            }
            lemma_key_place_is(r, other, r.len() as int);
        }
    }
}

/// No key occurs twice.
pub open spec fn keys_differ(m: Seq<(YamlView, YamlView)>) -> bool {
    forall|i: int, j: int| 0 <= i < j < m.len() ==> (#[trigger] m[i]).0 != (#[trigger] m[j]).0
}

/// In a mapping without repeated keys, a key that was removed is gone, and
/// every other key keeps its value.
pub proof fn law_removed_key_is_gone(
    m: Seq<(YamlView, YamlView)>,
    key: Seq<char>,
    other: Seq<char>,
)
    requires
        keys_differ(m),
        other != key,
    ensures
        key_value(without_key(m, key), key) is None,
        key_value(without_key(m, key), other) == key_value(m, other),
        keys_differ(without_key(m, key)),
{
    lemma_key_place(m, key);
    lemma_key_place(m, other);
    let r = without_key(m, key);
    let i = key_place(m, key);
    let j = key_place(m, other);
    if i < m.len() {
        assert forall|k: int| 0 <= k < r.len() implies #[trigger] r[k] == m[if k == i {
            m.len() - 1
        } else {
            k
        }] by {}
        assert forall|k: int| 0 <= k < r.len() implies (#[trigger] r[k]).0 != YamlView::Text(
            key,
        ) by {
            if k == i {
                assert(m[i].0 != m[m.len() - 1].0);
            } else if k < i {
                assert(m[k].0 != m[i].0);
            } else {
                assert(m[i].0 != m[k].0);
            }
        }
        lemma_key_place_is(r, key, r.len() as int);
        if j < m.len() {
            let at = if j == m.len() - 1 {
                i
            } else {
                j
            };
            assert(r[at] == m[j]);
            assert forall|k: int| 0 <= k < at implies (#[trigger] r[k]).0 != YamlView::Text(
                other,
            ) by {
                let p = if k == i {
                    m.len() - 1
                } else {
                    k
                };
                if p < j {
                    assert(m[p].0 != m[j].0);
                } else if p > j {
                    assert(m[j].0 != m[p].0);
                }
            }
            lemma_key_place_is(r, other, at);
        } else {
            assert forall|k: int| 0 <= k < r.len() implies (#[trigger] r[k]).0 != YamlView::Text(
                other,
            ) by {
                let p = if k == i {
                    m.len() - 1
                } else {
                    k
                };
                assert(m[p].0 != YamlView::Text(other));
            }
            lemma_key_place_is(r, other, r.len() as int);
        }
        assert forall|a: int, b: int| 0 <= a < b < r.len() implies (#[trigger] r[a]).0 != (
        #[trigger] r[b]).0 by {
            let p = if a == i {
                m.len() - 1
            } else {
                a
            };
            let q = if b == i {
                m.len() - 1
            } else {
                b
            };
            if p < q {
                assert(m[p].0 != m[q].0);
            } else {
                assert(m[q].0 != m[p].0);
            }
        }
    }
}

/// A value is built part by part: what is no number, list, mapping or tagged
/// value is kept as it is, a list keeps its length and its order, and a tagged
/// value keeps its tag. One part that cannot be built spoils the whole.
pub proof fn law_values_are_built_part_by_part(y: YamlView, s: Seq<YamlView>, i: int)
    ensures
        y is Null || y is Bool || y is Text ==> built(y) == Some(y),
        y matches YamlView::Tagged(tag, inner) ==> (built(*inner) is None ==> built(y) is None) && (
        built(*inner) is Some && tag.len() > 0 ==> built(y) == Some(
            YamlView::Tagged(tag, Box::new(built(*inner)->0)),
        )),
        built(YamlView::Sequence(s)) matches Some(t) ==> t is Sequence && t->Sequence_0.len()
            == s.len() && (0 <= i < s.len() ==> built(s[i]) == Some(t->Sequence_0[i])),
        0 <= i < s.len() && built(s[i]) is None ==> built(YamlView::Sequence(s)) is None,
{
    lemma_built_all(s, i);
}

/// A list is built item by item.
proof fn lemma_built_all(s: Seq<YamlView>, i: int)
    ensures
        built_all(s) matches Some(t) ==> t.len() == s.len() && (0 <= i < s.len() ==> built(s[i])
            == Some(t[i])),
        0 <= i < s.len() && built(s[i]) is None ==> built_all(s) is None,
    decreases s.len(),
{
    if s.len() > 0 {
        lemma_built_all(s.drop_last(), i);
        if 0 <= i < s.len() - 1 {
            assert(s.drop_last()[i] == s[i]);
        }
    }
}

} // verus!
