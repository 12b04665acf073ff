//! Regular expressions of the `regex` crate.

use crate::text::opt_text;
use vstd::prelude::*;

verus! {

/// A compiled regular expression.
#[verifier::external_type_specification]
#[verifier::external_body]
pub struct ExRegex(regex::Regex);

/// The pattern that [`compile`] was given for a regular expression. `Regex::as_str`
/// gives it back. Every regular expression here is made by [`compile`], so that
/// no other options than the default ones are ever in force.
pub uninterp spec fn source_of(re: &regex::Regex) -> Seq<char>;

/// What the `regex` crate says about a pattern: nothing if it compiles, else
/// the text of the error.
pub uninterp spec fn pattern_error(pattern: Seq<char>) -> Option<Seq<char>>;

/// A text with every match of a pattern replaced, where `$` in the
/// replacement refers to groups of the match.
pub uninterp spec fn pattern_replaced(
    pattern: Seq<char>,
    text: Seq<char>,
    replacement: Seq<char>,
) -> Seq<char>;

/// `regex::Regex::new`: the compiled pattern, or the text of the error. Which
/// patterns compile is left to the crate; it depends on the pattern alone.
#[verifier::external_body]
pub(crate) fn compile(pattern: &str) -> (r: Result<regex::Regex, String>)
    ensures
        match r {
            Ok(re) => pattern_error(pattern@) is None && source_of(&re) == pattern@,
            Err(e) => pattern_error(pattern@) == Some(e@),
        },
{
    regex::Regex::new(pattern).map_err(|e| e.to_string())
}

/// Whether a pattern matches somewhere in a text.
pub uninterp spec fn pattern_matches(pattern: Seq<char>, text: Seq<char>) -> bool;

/// How many matches a pattern has in a text, taken from the left and without
/// overlap.
pub uninterp spec fn pattern_count(pattern: Seq<char>, text: Seq<char>) -> nat;

/// For each match of a pattern in a text, what its first group matched.
pub uninterp spec fn pattern_groups(pattern: Seq<char>, text: Seq<char>) -> Seq<Option<Seq<char>>>;

/// The contents of a list of optional strings.
pub open spec fn opt_texts(v: Seq<Option<String>>) -> Seq<Option<Seq<char>>> {
    Seq::new(v.len(), |i: int| opt_text(v[i]))
}

/// `regex::Regex::is_match`. The result depends on the pattern and the text
/// alone.
#[verifier::external_body]
pub(crate) fn is_match(re: &regex::Regex, text: &str) -> (r: bool)
    ensures
        r == pattern_matches(source_of(re), text@),
{
    re.is_match(text)
}

/// `regex::Regex::replace_all` with a replacement text. The result depends on
/// the pattern, the text and the replacement alone, and a text without a match
/// is given back unchanged.
#[verifier::external_body]
pub(crate) fn replace_all(re: &regex::Regex, text: &str, replacement: &str) -> (r: String)
    ensures
        r@ == pattern_replaced(source_of(re), text@, replacement@),
        !pattern_matches(source_of(re), text@) ==> r@ == text@,
{
    re.replace_all(text, replacement).into_owned()
}

/// The number of matches that `regex::Regex::find_iter` gives. It depends on
/// the pattern and the text alone.
#[verifier::external_body]
pub(crate) fn count_matches(re: &regex::Regex, text: &str) -> (n: usize)
    ensures
        n == pattern_count(source_of(re), text@),
{
    re.find_iter(text).count()
}

/// The first group of each match that `regex::Regex::captures_iter` gives, in
/// order; `None` where the group took no part in the match. The result depends
/// on the pattern and the text alone.
#[verifier::external_body]
pub(crate) fn first_groups(re: &regex::Regex, text: &str) -> (r: Vec<Option<String>>)
    ensures
        opt_texts(r@) == pattern_groups(source_of(re), text@),
{
    re.captures_iter(text).map(|c| c.get(1).map(|m| m.as_str().to_string())).collect()
}

} // verus!
