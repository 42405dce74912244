//! The boundary to the `regex` crate.
//!
//! Regular expressions are held as their source text. Each function below
//! compiles the source it is given and runs one search, and its contract
//! names what the search yields; nothing here is proved.

use vstd::prelude::*;
use regex::Regex;
use crate::search::contains_text;
use crate::text::{text_of, texts_of};

verus! {

/// Whether `Regex::new` accepts `pattern`.
pub uninterp spec fn regex_compiles(pattern: Seq<char>) -> bool;

/// The texts of the successive non-overlapping matches, from left to right,
/// that `Regex::find_iter` yields for the regex compiled from `pattern` on
/// `haystack`.
pub uninterp spec fn regex_find_all(pattern: Seq<char>, haystack: Seq<char>) -> Seq<Seq<char>>;

/// The text of the leftmost match that `Regex::find` yields for the regex
/// compiled from `pattern` on `haystack`, if there is a match.
pub uninterp spec fn regex_find(pattern: Seq<char>, haystack: Seq<char>) -> Option<Seq<char>>;

/// Calls `Regex::new` and reports whether it returned a regex. The answer
/// depends on the pattern alone.
#[verifier::external_body]
pub(crate) fn pattern_compiles(pattern: &str) -> (ok: bool)
    ensures
        ok == regex_compiles(pattern@),
{
    Regex::new(pattern).is_ok()
}

/// Calls `Regex::find_iter` on the regex compiled from `pattern` and hands
/// out `Match::as_str` of every match, in the order of the iterator. `None`
/// stands for a pattern that `Regex::new` rejects. `Match::as_str` is a slice
/// of the haystack, so every text handed out stands in the haystack.
#[verifier::external_body]
pub(crate) fn find_all(pattern: &str, haystack: &str) -> (found: Option<Vec<String>>)
    ensures
        (found is Some) <==> regex_compiles(pattern@),
        found matches Some(texts) ==> texts_of(texts@) == regex_find_all(pattern@, haystack@),
        found matches Some(texts) ==> forall|i: int|
            0 <= i < texts.len() ==> contains_text(haystack@, (#[trigger] texts[i])@),
{
    match Regex::new(pattern) {
        Ok(re) => Some(re.find_iter(haystack).map(|m| m.as_str().to_string()).collect()),
        Err(_) => None,
    }
}

/// Calls `Regex::find` on the regex compiled from `pattern` and hands out
/// `Match::as_str` of the match, if there is one. The outer `None` stands for
/// a pattern that `Regex::new` rejects. `Match::as_str` is a slice of the
/// haystack, so the text handed out stands in the haystack.
#[verifier::external_body]
pub(crate) fn find_first(pattern: &str, haystack: &str) -> (found: Option<Option<String>>)
    ensures
        (found is Some) <==> regex_compiles(pattern@),
        found matches Some(text) ==> text_of(text) == regex_find(pattern@, haystack@),
        found matches Some(Some(text)) ==> contains_text(haystack@, text@),
{
    match Regex::new(pattern) {
        Ok(re) => Some(re.find(haystack).map(|m| m.as_str().to_string())),
        Err(_) => None,
    }
}

} // verus!
