//! Finding out where a path leads when links are followed.
//!
//! A walk goes through the components of a path from the root on. It asks what
//! stands at one place after the other, and is told. So it also tells where a
//! path leads that does not exist, or that ends in a link to what does not.

use crate::text::{lemma_texts_push, owned, same, texts};
use vstd::prelude::*;

verus! {

/// How many links are followed before a path is taken to lead nowhere.
pub const MAX_LINKS: usize = 40;

/// What stands at a place.
#[derive(Debug)]
pub enum Found {
    /// Nothing that can be reached.
    Nothing,
    /// A link, and the components of where it points to.
    Link(Vec<String>),
    /// A file or a directory.
    Place,
}

/// The contents of a [`Found`].
pub enum FoundView {
    Nothing,
    Link(Seq<Seq<char>>),
    Place,
}

impl View for Found {
    type V = FoundView;

    open spec fn view(&self) -> FoundView {
        match *self {
            Found::Nothing => FoundView::Nothing,
            Found::Link(parts) => FoundView::Link(texts(parts@)),
            Found::Place => FoundView::Place,
        }
    }
}

/// How a walk ended.
#[derive(Clone, Copy, Debug, PartialEq, Eq, Structural)]
pub enum End {
    /// At something that exists.
    There,
    /// At a place where something can be made.
    Missing,
    /// Nowhere: in a circle of links, or above something that does not exist.
    Nowhere,
}

/// A walk along the components of a path. The component `/` stands for the
/// root.
#[derive(Debug)]
pub struct Walk {
    /// The place that was reached, without links.
    at: Vec<String>,
    /// The components to go.
    rest: Vec<String>,
    /// How many of the components to go are of the path itself and not of a
    /// link.
    own: usize,
    /// How many links were followed.
    links: usize,
    /// The place of the path's last component, once its parent was reached.
    entry: Option<Vec<String>>,
    end: Option<End>,
}

/// How a walk ended, and where.
#[derive(Debug)]
pub struct Outcome {
    pub end: End,
    /// The place that was reached, without links.
    pub at: Vec<String>,
    /// The place of the path's last component, if its parent exists.
    pub entry: Option<Vec<String>>,
}

/// The contents of a [`Walk`].
pub struct WalkView {
    pub at: Seq<Seq<char>>,
    pub rest: Seq<Seq<char>>,
    pub own: int,
    pub links: int,
    pub entry: Option<Seq<Seq<char>>>,
    pub end: Option<End>,
}

/// Components, if there are any.
pub open spec fn opt_parts(o: Option<Vec<String>>) -> Option<Seq<Seq<char>>> {
    match o {
        Some(v) => Some(texts(v@)),
        None => None,
    }
}

impl View for Walk {
    type V = WalkView;

    closed spec fn view(&self) -> WalkView {
        WalkView {
            at: texts(self.at@),
            rest: texts(self.rest@),
            own: self.own as int,
            links: self.links as int,
            entry: opt_parts(self.entry),
            end: self.end,
        }
    }
}

/// A component that names no entry of a directory.
pub open spec fn is_special(part: Seq<char>) -> bool {
    part == "/"@ || part == ".."@ || part == "."@ || part.len() == 0
}

/// Some component names no entry of a directory.
pub open spec fn has_special(parts: Seq<Seq<char>>) -> bool {
    exists|i: int| 0 <= i < parts.len() && is_special(#[trigger] parts[i])
}

/// A walk that has ended, or that has an entry to ask for.
pub open spec fn walk_ok(w: WalkView) -> bool {
    &&& 0 <= w.links <= MAX_LINKS
    &&& 0 <= w.own <= w.rest.len()
    &&& w.end is None ==> w.rest.len() > 0 && !is_special(w.rest[0])
}

/// The directory above; the root is above itself.
pub open spec fn above(at: Seq<Seq<char>>) -> Seq<Seq<char>> {
    if at.len() > 1 {
        at.drop_last()
    } else {
        at
    }
}

/// A walk past the next component, at a given place.
pub open spec fn passed(w: WalkView, at: Seq<Seq<char>>) -> WalkView {
    let rest = w.rest.skip(1);
    WalkView {
        at,
        rest,
        own: if w.own > rest.len() {
            rest.len() as int
        } else {
            w.own
        },
        ..w
    }
}

/// A walk past the components that name no entry, up to the next one that
/// does.
pub open spec fn settled(w: WalkView) -> WalkView
    decreases w.rest.len(),
{
    if w.end is Some {
        w
    } else if w.rest.len() == 0 {
        WalkView { end: Some(End::There), ..w }
    } else if w.rest[0] == "/"@ {
        settled(passed(w, seq!["/"@]))
    } else if w.rest[0] == ".."@ {
        settled(passed(w, above(w.at)))
    } else if is_special(w.rest[0]) {
        settled(passed(w, w.at))
    } else {
        w
    }
}

/// A walk from the root along a path.
pub open spec fn walk_from(path: Seq<Seq<char>>) -> WalkView {
    settled(
        WalkView {
            at: seq!["/"@],
            rest: path,
            own: path.len() as int,
            links: 0,
            entry: None,
            end: None,
        },
    )
}

/// A walk when what it asked for was found.
pub open spec fn walk_after(w: WalkView, found: FoundView) -> WalkView {
    if w.end is Some || w.rest.len() == 0 {
        w
    } else {
        let here = w.at.push(w.rest[0]);
        let tail = w.rest.skip(1);
        let known = WalkView {
            entry: if w.own == 1 && w.rest.len() == 1 {
                Some(here)
            } else {
                w.entry
            },
            ..w
        };
        match found {
            FoundView::Place => settled(passed(known, here)),
            FoundView::Nothing => if has_special(tail) {
                WalkView { rest: seq![], own: 0, end: Some(End::Nowhere), ..known }
            } else {
                WalkView {
                    at: here + tail,
                    rest: seq![],
                    own: 0,
                    end: Some(End::Missing),
                    ..known
                }
            },
            FoundView::Link(to) => if w.links >= MAX_LINKS {
                WalkView { rest: seq![], own: 0, end: Some(End::Nowhere), ..known }
            } else {
                settled(
                    WalkView {
                        rest: to + tail,
                        own: passed(known, w.at).own,
                        links: w.links + 1,
                        ..known
                    },
                )
            },
        }
    }
}

/// The place that a walk asks about.
pub open spec fn walk_asks(w: WalkView) -> Option<Seq<Seq<char>>> {
    if w.end is Some || w.rest.len() == 0 {
        None
    } else {
        Some(w.at.push(w.rest[0]))
    }
}

/// A settled walk asks for an entry or has ended.
proof fn lemma_settled(w: WalkView)
    requires
        0 <= w.links <= MAX_LINKS,
        0 <= w.own <= w.rest.len(),
    ensures
        walk_ok(settled(w)),
        settled(w).links == w.links,
        settled(w).rest.len() <= w.rest.len(),
    decreases w.rest.len(),
{
    if w.end is None && w.rest.len() > 0 && is_special(w.rest[0]) {
        if w.rest[0] == "/"@ {
            lemma_settled(passed(w, seq!["/"@]));
        } else if w.rest[0] == ".."@ {
            lemma_settled(passed(w, above(w.at)));
        } else {
            lemma_settled(passed(w, w.at));
        }
    }
}

/// Whether a component names no entry of a directory.
fn special(part: &str) -> (r: bool)
    ensures
        r == is_special(part@),
{
    same(part, "/") || same(part, "..") || same(part, ".") || part.is_empty()
}

/// Whether some component names no entry of a directory.
fn some_special(parts: &Vec<String>) -> (r: bool)
    ensures
        r == has_special(texts(parts@)),
{
    let mut i: usize = 0;
    while i < parts.len()
        invariant
            i <= parts@.len(),
            forall|k: int| 0 <= k < i ==> !is_special(#[trigger] texts(parts@)[k]),
        decreases parts.len() - i,
    {
        if special(parts[i].as_str()) {
            proof {
                assert(is_special(texts(parts@)[i as int]));
            }
            return true;
        }
        i = i + 1;
    }
    false
}

/// Drop the first component.
fn without_first(parts: Vec<String>) -> (r: Vec<String>)
    requires
        parts@.len() > 0,
    ensures
        texts(r@) == texts(parts@).skip(1),
{
    let mut r: Vec<String> = parts;
    let ghost before = r@;
    let first: String = r.remove(0);
    proof {
        assert(texts(r@) =~= texts(before).skip(1));
    }
    r
}

/// The smaller of two numbers.
fn at_most(n: usize, limit: usize) -> (r: usize)
    ensures
        r == if n > limit {
            limit
        } else {
            n
        },
{
    if n > limit {
        limit
    } else {
        n
    }
}

/// A copy of components with one more.
fn extended(parts: &Vec<String>, part: &str) -> (r: Vec<String>)
    ensures
        texts(r@) == texts(parts@).push(part@),
{
    let mut r: Vec<String> = Vec::new();
    let mut i: usize = 0;
    while i < parts.len()
        invariant
            i <= parts@.len(),
            r@.len() == i,
            forall|k: int| 0 <= k < i ==> (#[trigger] r@[k])@ == parts@[k]@,
        decreases parts.len() - i,
    {
        r.push(owned(parts[i].as_str()));
        i = i + 1;
    }
    let last: String = owned(part);
    proof {
        assert(texts(r@) =~= texts(parts@));
        lemma_texts_push(r@, last);
    }
    r.push(last);
    r
}

impl Walk {
    /// Go past the components that name no entry.
    fn settle(self) -> (r: Walk)
        requires
            0 <= self@.links <= MAX_LINKS,
            0 <= self@.own <= self@.rest.len(),
        ensures
            r@ == settled(self@),
            walk_ok(r@),
        decreases self@.rest.len(),
    {
        proof {
            lemma_settled(self@);
        }
        if self.end.is_some() {
            return self;
        }
        if self.rest.len() == 0 {
            return Walk {
                at: self.at,
                rest: self.rest,
                own: self.own,
                links: self.links,
                entry: self.entry,
                end: Some(End::There),
            };
        }
        proof {
            assert(self@.rest[0] == self.rest@[0]@);
        }
        if !special(self.rest[0].as_str()) {
            return self;
        }
        let to_root: bool = same(self.rest[0].as_str(), "/");
        let upwards: bool = same(self.rest[0].as_str(), "..");
        let mut at: Vec<String> = self.at;
        let ghost before = at@;
        if to_root {
            at = vec![owned("/")];
            proof {
                assert(texts(at@) =~= seq!["/"@]);
            }
        } else if upwards {
            if at.len() > 1 {
                let gone: Option<String> = at.pop();
                proof {
                    assert(texts(at@) =~= texts(before).drop_last());
                }
            }
        }
        let rest: Vec<String> = without_first(self.rest);
        let own: usize = at_most(self.own, rest.len());
        proof {
            assert(texts(rest@).len() == rest@.len());
        }
        let next: Walk = Walk {
            at,
            rest,
            own,
            links: self.links,
            entry: self.entry,
            end: None,
        };
        next.settle()
    }

    /// A walk from the root along a path.
    pub fn new(path: Vec<String>) -> (r: Walk)
        ensures
            r@ == walk_from(texts(path@)),
            walk_ok(r@),
    {
        let own: usize = path.len();
        let at: Vec<String> = vec![owned("/")];
        proof {
            assert(texts(at@) =~= seq!["/"@]);
            assert(texts(path@).len() == path@.len());
        }
        let w: Walk = Walk { at, rest: path, own, links: 0, entry: None, end: None };
        w.settle()
    }

    /// The place that the walk asks about; `None` if it has ended.
    pub fn asks(&self) -> (r: Option<Vec<String>>)
        ensures
            opt_parts(r) == walk_asks(self@),
    {
        if self.end.is_some() || self.rest.len() == 0 {
            return None;
        }
        proof {
            assert(self@.rest[0] == self.rest@[0]@);
        }
        Some(extended(&self.at, self.rest[0].as_str()))
    }

    /// Go on when what the walk asked for was found.
    pub fn step(self, found: Found) -> (r: Walk)
        requires
            walk_ok(self@),
        ensures
            r@ == walk_after(self@, found@),
            walk_ok(r@),
    {
        if self.end.is_some() || self.rest.len() == 0 {
            return self;
        }
        let ghost w = self@;
        proof {
            assert(w.rest[0] == self.rest@[0]@);
            assert(w.rest.len() == self.rest@.len());
        }
        let here: Vec<String> = extended(&self.at, self.rest[0].as_str());
        let entry: Option<Vec<String>> = if self.own == 1 && self.rest.len() == 1 {
            Some(extended(&self.at, self.rest[0].as_str()))
        } else {
            self.entry
        };
        let mut tail: Vec<String> = without_first(self.rest);
        let own: usize = at_most(self.own, tail.len());
        proof {
            assert(texts(tail@).len() == tail@.len());
        }
        match found {
            Found::Place => {
                let next: Walk = Walk {
                    at: here,
                    rest: tail,
                    own,
                    links: self.links,
                    entry,
                    end: None,
                };
                next.settle()
            },
            Found::Nothing => {
                let none: Vec<String> = Vec::new();
                proof {
                    assert(texts(none@) =~= seq![]);
                }
                if some_special(&tail) {
                    return Walk {
                        at: self.at,
                        rest: none,
                        own: 0,
                        links: self.links,
                        entry,
                        end: Some(End::Nowhere),
                    };
                }
                let mut at: Vec<String> = here;
                let ghost a = at@;
                let ghost b = tail@;
                at.append(&mut tail);
                proof {
                    assert(texts(at@) =~= texts(a) + texts(b));
                }
                Walk {
                    at,
                    rest: none,
                    own: 0,
                    links: self.links,
                    entry,
                    end: Some(End::Missing),
                }
            },
            Found::Link(to) => {
                if self.links >= MAX_LINKS {
                    let none: Vec<String> = Vec::new();
                    proof {
                        assert(texts(none@) =~= seq![]);
                    }
                    return Walk {
                        at: self.at,
                        rest: none,
                        own: 0,
                        links: self.links,
                        entry,
                        end: Some(End::Nowhere),
                    };
                }
                let mut rest: Vec<String> = to;
                let ghost a = rest@;
                let ghost b = tail@;
                rest.append(&mut tail);
                proof {
                    assert(texts(rest@) =~= texts(a) + texts(b));
                }
                let next: Walk = Walk {
                    at: self.at,
                    rest,
                    own,
                    links: self.links + 1,
                    entry,
                    end: None,
                };
                next.settle()
            },
        }
    }

    /// How the walk ended; `None` if it has not.
    pub fn outcome(self) -> (r: Option<Outcome>)
        ensures
            match self@.end {
                Some(end) => {
                    &&& r is Some
                    &&& r->0.end == end
                    &&& texts(r->0.at@) == self@.at
                    &&& opt_parts(r->0.entry) == self@.entry
                },
                None => r is None,
            },
    {
        match self.end {
            Some(end) => Some(Outcome { end, at: self.at, entry: self.entry }),
            None => None,
        }
    }
}

// ---------------------------------------------------------------------------
// Laws
// ---------------------------------------------------------------------------

/// Every walk ends, whatever it finds: each step follows one of a limited
/// number of links, or leaves fewer components to go.
pub proof fn law_walk_ends(w: WalkView, found: FoundView)
    requires
        walk_ok(w),
        w.end is None,
    ensures
        walk_ok(walk_after(w, found)),
        ({
            let next = walk_after(w, found);
            ||| next.end is Some
            ||| next.links > w.links
            ||| next.links == w.links && next.rest.len() < w.rest.len()
        }),
{
    let here = w.at.push(w.rest[0]);
    let tail = w.rest.skip(1);
    let known = WalkView {
        entry: if w.own == 1 && w.rest.len() == 1 {
            Some(here)
        } else {
            w.entry
        },
        ..w
    };
    match found {
        FoundView::Place => {
            lemma_settled(passed(known, here));
        },
        FoundView::Nothing => {},
        FoundView::Link(to) => {
            if w.links < MAX_LINKS {
                lemma_settled(
                    WalkView {
                        rest: to + tail,
                        own: passed(known, w.at).own,
                        links: w.links + 1,
                        ..known
                    },
                );
            }
        },
    }
}

/// A component that names an entry of a directory.
pub open spec fn is_plain_part(part: Seq<char>) -> bool {
    part != "/"@ && part != ".."@ && part != "."@ && part.len() > 0
}

/// A walk goes into a directory that is there, part by part, and is at its end
/// after the last part.
pub proof fn law_walk_goes_part_by_part(walk: Walk, next: Walk)
    requires
        walk_ok(walk@),
        walk@.end is None,
        walk@.rest.len() > 1 ==> is_plain_part(walk@.rest[1]),
        call_ensures(Walk::step, (walk, Found::Place), next),
    ensures
        next@.at == walk@.at.push(walk@.rest[0]),
        next@.rest == walk@.rest.skip(1),
        next@.links == walk@.links,
        next@.end == if walk@.rest.len() == 1 {
            Some(End::There)
        } else {
            None
        },
{
    let rest = walk@.rest.skip(1);
    if rest.len() > 0 {
        assert(rest[0] == walk@.rest[1]);
    }
}

/// A walk that finds nothing is at its end: it would have gone to what is left
/// of the path, or nowhere, if what is left would go up or around.
pub proof fn law_walk_ends_where_nothing_is(walk: Walk, next: Walk)
    requires
        walk_ok(walk@),
        walk@.end is None,
        call_ensures(Walk::step, (walk, Found::Nothing), next),
    ensures
        next@.end == if forall|i: int|
            1 <= i < walk@.rest.len() ==> is_plain_part(#[trigger] walk@.rest[i]) {
            Some(End::Missing)
        } else {
            Some(End::Nowhere)
        },
        next@.end == Some(End::Missing) ==> next@.at == walk@.at + walk@.rest,
{
    let tail = walk@.rest.skip(1);
    if has_special(tail) {
        let i = choose|i: int| 0 <= i < tail.len() && is_special(#[trigger] tail[i]);
        assert(walk@.rest[i + 1] == tail[i]);
    } else {
        assert forall|i: int| 1 <= i < walk@.rest.len() implies is_plain_part(
            #[trigger] walk@.rest[i],
        ) by {
            assert(tail[i - 1] == walk@.rest[i]);
        }
        assert(walk@.at.push(walk@.rest[0]) + tail =~= walk@.at + walk@.rest);
    }
}

/// A walk follows a link: from the root where it begins there, from the
/// directory above where it goes up, and else from the directory that the link
/// is in. Behind the link it goes on with what is left of the path. After forty
/// links it gets nowhere.
#[verifier::rlimit(40)]
pub proof fn law_walk_follows_links(walk: Walk, to: Vec<String>, next: Walk)
    requires
        walk_ok(walk@),
        walk@.end is None,
        call_ensures(Walk::step, (walk, Found::Link(to)), next),
    ensures
        ({
            let parts = texts(to@);
            let tail = walk@.rest.skip(1);
            &&& walk@.links == 40 ==> next@.end == Some(End::Nowhere)
            &&& walk@.links < 40 ==> next@.links == walk@.links + 1
            &&& walk@.links < 40 && parts.len() > 0 && is_plain_part(parts[0]) ==> next@.end is None
                && next@.at == walk@.at && next@.rest == parts + tail
            &&& walk@.links < 40 && parts.len() > 1 && parts[0] == "/"@ && is_plain_part(parts[1])
                ==> next@.end is None && next@.at == seq!["/"@] && next@.rest == parts.skip(1) + tail
            &&& walk@.links < 40 && parts.len() > 1 && parts[0] == ".."@ && is_plain_part(parts[1])
                && walk@.at.len() > 1 ==> next@.end is None && next@.at == walk@.at.drop_last()
                && next@.rest == parts.skip(1) + tail
        }),
{
    reveal_strlit("/");
    reveal_strlit("..");
    reveal_strlit(".");
    assert("/"@.len() == 1 && ".."@.len() == 2);
    let parts = texts(to@);
    let tail = walk@.rest.skip(1);
    let all = parts + tail;
    if parts.len() > 1 {
        assert(all.skip(1) =~= parts.skip(1) + tail);
        assert(all.skip(1)[0] == parts[1]);
    }
    if walk@.links < MAX_LINKS {
        let here = walk@.at.push(walk@.rest[0]);
        let known = WalkView {
            entry: if walk@.own == 1 && walk@.rest.len() == 1 {
                Some(here)
            } else {
                walk@.entry
            },
            ..walk@
        };
        let start = WalkView {
            rest: all,
            own: passed(known, walk@.at).own,
            links: walk@.links + 1,
            ..known
        };
        lemma_settled(start);
        reveal_with_fuel(settled, 3);
    }
}

/// A walk begins at the root.
pub proof fn law_walk_begins_at_the_root(path: Vec<String>, walk: Walk)
    requires
        call_ensures(Walk::new, (path,), walk),
        path@.len() > 1,
        path@[0]@ == "/"@,
        is_plain_part(path@[1]@),
    ensures
        walk@.at == seq!["/"@],
        walk@.rest == texts(path@).skip(1),
        walk@.end is None,
        walk@.links == 0,
{
    let parts = texts(path@);
    assert(parts[0] == "/"@);
    assert(parts.skip(1)[0] == path@[1]@);
    reveal_with_fuel(settled, 2);
}

/// A walk asks for the next part in the directory that it is in, and remembers
/// where the last part of the path itself stands, whatever is found there;
/// parts that links brought in do not count.
pub proof fn law_walk_remembers_its_last_part(
    walk: Walk,
    asked: Option<Vec<String>>,
    found: Found,
    next: Walk,
)
    requires
        walk_ok(walk@),
        call_ensures(Walk::asks, (&walk,), asked),
        call_ensures(Walk::step, (walk, found), next),
    ensures
        asked is None <==> walk@.end is Some || walk@.rest.len() == 0,
        asked matches Some(parts) ==> texts(parts@) == walk@.at.push(walk@.rest[0]),
        walk@.end is None ==> next@.entry == if walk@.rest.len() == 1 && walk@.own == 1 {
            Some(walk@.at.push(walk@.rest[0]))
        } else {
            walk@.entry
        },
        walk@.end is Some ==> next@ == walk@,
{
    if walk@.end is None {
        let here = walk@.at.push(walk@.rest[0]);
        let known = WalkView {
            entry: if walk@.own == 1 && walk@.rest.len() == 1 {
                Some(here)
            } else {
                walk@.entry
            },
            ..walk@
        };
        lemma_settled_entry(passed(known, here));
        match found@ {
            FoundView::Link(to) => lemma_settled_entry(
                WalkView {
                    rest: to + walk@.rest.skip(1),
                    own: passed(known, walk@.at).own,
                    links: walk@.links + 1,
                    ..known
                },
            ),
            _ => {},
        }
    }
}

/// Settling remembers nothing new.
proof fn lemma_settled_entry(w: WalkView)
    ensures
        settled(w).entry == w.entry,
    decreases w.rest.len(),
{
    if w.end is None && w.rest.len() > 0 && is_special(w.rest[0]) {
        if w.rest[0] == "/"@ {
            lemma_settled_entry(passed(w, seq!["/"@]));
        } else if w.rest[0] == ".."@ {
            lemma_settled_entry(passed(w, above(w.at)));
        } else {
            lemma_settled_entry(passed(w, w.at));
        }
    }
}

/// The outcome of a walk that ended is where it ended.
pub proof fn law_outcome_is_where_it_ended(walk: Walk, r: Option<Outcome>)
    requires
        call_ensures(Walk::outcome, (walk,), r),
    ensures
        r is Some <==> walk@.end is Some,
        r matches Some(o) ==> walk@.end == Some(o.end) && texts(o.at@) == walk@.at && (o.entry
            is Some <==> walk@.entry is Some) && (o.entry is Some ==> texts(o.entry->0@)
            == walk@.entry->0),
{
}

} // verus!
