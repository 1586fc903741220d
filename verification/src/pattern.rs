//! Searching a text for a regular expression, and splitting a text at what
//! an expression matches.

use crate::text::string_views;
use regex::Regex;
use vstd::prelude::*;

verus! {

/// What a search for the regular expression `pattern` in `text` gives:
/// `None` where `pattern` is not a regular expression that the `regex` crate
/// accepts, else whether the expression matches anywhere in `text`.
pub uninterp spec fn regex_search(pattern: Seq<char>, text: Seq<char>) -> Option<bool>;

/// `Regex::new` and `Regex::is_match`: compiles `pattern` and searches `text`
/// for it.
#[verifier::external_body]
pub(crate) fn search(pattern: &str, text: &str) -> (found: Option<bool>)
    ensures
        found == regex_search(pattern@, text@),
{
    match Regex::new(pattern) {
        Ok(compiled) => Some(compiled.is_match(text)),
        Err(_) => None,
    }
}

/// What a search for every match of the regular expression `pattern` in
/// `text` gives: `None` where `pattern` is not a regular expression that the
/// `regex` crate accepts, else the matches that do not overlap, from the
/// left.
pub uninterp spec fn regex_found(pattern: Seq<char>, text: Seq<char>) -> Option<Seq<Seq<char>>>;

/// Into how many pieces the matches of the regular expression `pattern` cut
/// `text`: `None` where `pattern` is not a regular expression that the
/// `regex` crate accepts.
pub uninterp spec fn regex_pieces(pattern: Seq<char>, text: Seq<char>) -> Option<nat>;

/// Optional texts by their views.
pub open spec fn found_views(found: Option<Vec<String>>) -> Option<Seq<Seq<char>>> {
    match found {
        Some(texts) => Some(string_views(texts@)),
        None => None,
    }
}

/// An optional count as a natural number.
pub open spec fn count_view(count: Option<usize>) -> Option<nat> {
    match count {
        Some(n) => Some(n as nat),
        None => None,
    }
}

/// `Regex::new` and `Regex::find_iter`: compiles `pattern` and collects its
/// matches in `text`.
#[verifier::external_body]
pub(crate) fn find_all(pattern: &str, text: &str) -> (found: Option<Vec<String>>)
    ensures
        found_views(found) == regex_found(pattern@, text@),
{
    match Regex::new(pattern) {
        Ok(compiled) => {
            let mut found = Vec::new();
            for one in compiled.find_iter(text) {
                found.push(one.as_str().to_owned());
            }
            Some(found)
        },
        Err(_) => None,
    }
}

/// `Regex::new` and `Regex::split`: compiles `pattern` and counts the pieces
/// that its matches cut `text` into.
#[verifier::external_body]
pub(crate) fn count_pieces(pattern: &str, text: &str) -> (count: Option<usize>)
    ensures
        count_view(count) == regex_pieces(pattern@, text@),
{
    match Regex::new(pattern) {
        Ok(compiled) => Some(compiled.split(text).count()),
        Err(_) => None,
    }
}

} // verus!
