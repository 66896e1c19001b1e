//! Regular expressions, matched by the `regex` crate.
//!
//! Every function takes the pattern as a text and compiles it on the spot;
//! a pattern that does not compile matches nothing.

use crate::text::views;
use vstd::prelude::*;

verus! {

/// Whether `pattern` compiles and `Regex::is_match` finds it in `text`.
pub uninterp spec fn regex_matches(pattern: Seq<char>, text: Seq<char>) -> bool;

/// What `Regex::replace_all` makes of `text` with the replacement `rep`, in
/// which `$1` stands for the first group; `text` itself where `pattern` does
/// not compile.
pub uninterp spec fn regex_replaced(pattern: Seq<char>, text: Seq<char>, rep: Seq<char>) -> Seq<
    char,
>;

/// The matches that `Regex::find_iter` yields in `text`, in order; none where
/// `pattern` does not compile.
pub uninterp spec fn regex_found(pattern: Seq<char>, text: Seq<char>) -> Seq<Seq<char>>;

/// For each match that `Regex::captures_iter` yields in `text`, in order, what
/// the first group has captured, if anything; none where `pattern` does not
/// compile.
pub uninterp spec fn regex_captured(pattern: Seq<char>, text: Seq<char>) -> Seq<
    Option<Seq<char>>,
>;

/// The views of a list of texts of which each may be absent.
pub open spec fn opt_views(list: Seq<Option<String>>) -> Seq<Option<Seq<char>>> {
    Seq::new(
        list.len(),
        |i: int|
            match list[i] {
                Some(t) => Some(t@),
                None => None,
            },
    )
}

/// `regex::Regex::new`, then `is_match`.
#[verifier::external_body]
pub(crate) fn is_match(pattern: &str, text: &str) -> (out: bool)
    ensures
        out == regex_matches(pattern@, text@),
{
    match regex::Regex::new(pattern) {
        Ok(re) => re.is_match(text),
        Err(_) => false,
    }
}

/// `regex::Regex::new`, then `replace_all`.
#[verifier::external_body]
pub(crate) fn replace_matches(pattern: &str, text: &str, rep: &str) -> (out: String)
    ensures
        out@ == regex_replaced(pattern@, text@, rep@),
{
    match regex::Regex::new(pattern) {
        Ok(re) => re.replace_all(text, rep).into_owned(),
        Err(_) => text.to_string(),
    }
}

/// `regex::Regex::new`, then `find_iter`, each match copied out by `as_str`.
#[verifier::external_body]
pub(crate) fn find_matches(pattern: &str, text: &str) -> (out: Vec<String>)
    ensures
        views(out@) == regex_found(pattern@, text@),
{
    match regex::Regex::new(pattern) {
        Ok(re) => re.find_iter(text).map(|m| m.as_str().to_string()).collect(),
        Err(_) => Vec::new(),
    }
}

/// `regex::Regex::new`, then `captures_iter`, of each match the first group
/// copied out by `get(1)` and `as_str`.
#[verifier::external_body]
pub(crate) fn first_groups(pattern: &str, text: &str) -> (out: Vec<Option<String>>)
    ensures
        opt_views(out@) == regex_captured(pattern@, text@),
{
    match regex::Regex::new(pattern) {
        Ok(re) => re
            .captures_iter(text)
            .map(|c| c.get(1).map(|m| m.as_str().to_string()))
            .collect(),
        Err(_) => Vec::new(),
    }
}

} // verus!
