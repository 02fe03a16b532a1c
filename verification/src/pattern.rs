//! Regular-expression search, done by the `regex` crate.
//!
//! Verus does not look inside the engine. What it finds is given a name,
//! [`regex_first_match`], and the rest of the library states its results over
//! that name.

use vstd::prelude::*;
use crate::text::opt_text;

verus! {

/// Whether the `regex` crate compiles `pattern` with its default limits.
pub uninterp spec fn regex_accepts(pattern: Seq<char>) -> bool;

/// The text of the leftmost match of `pattern` in `haystack`, as the `regex`
/// crate finds it, or `None` where nothing matches.
pub uninterp spec fn regex_first_match(pattern: Seq<char>, haystack: Seq<char>) -> Option<
    Seq<char>,
>;

/// Why a regular expression was not compiled (`regex::Error`).
#[verifier::external_type_specification]
#[verifier::external_body]
pub struct ExRegexError(regex::Error);

/// The pattern that finds the subject header line of an email.
pub const SUBJECT_PATTERN: &'static str = "(?m)^Subject: [^\\r\\n]*";

/// The pattern that finds the forwarding marker at the start of a line.
pub const MARKER_PATTERN: &'static str = "(?m)^SendToIRC.*";

/// The pattern that finds the HTML region of an email, from a line that
/// starts with `<html` to the last `</html>`.
pub const HTML_PATTERN: &'static str = "(?ms)^<html.*>.*</html>";

/// Calls `regex::Regex::new` on `pattern` and `Regex::find` on `haystack`,
/// and copies the matched text out of the `Match`.
///
/// Trusted: the call fails exactly when the crate rejects the pattern, and
/// otherwise returns the text that [`regex_first_match`] names.
#[verifier::external_body]
fn regex_find(pattern: &str, haystack: &str) -> (r: Result<Option<String>, regex::Error>)
    ensures
        r is Ok <==> regex_accepts(pattern@),
        r matches Ok(m) ==> opt_text(m) == regex_first_match(pattern@, haystack@),
{
    Ok(regex::Regex::new(pattern)?.find(haystack).map(|m| m.as_str().to_owned()))
}

/// What a search yields once a rejected pattern counts as no match.
pub open spec fn search_result(pattern: Seq<char>, haystack: Seq<char>) -> Option<Seq<char>> {
    if regex_accepts(pattern) {
        regex_first_match(pattern, haystack)
    } else {
        None
    }
}

/// The text of the first match of `pattern` in `haystack`. A pattern that
/// the engine rejects matches nothing.
pub fn first_match_text(pattern: &str, haystack: &str) -> (r: Option<String>)
    ensures
        opt_text(r) == search_result(pattern@, haystack@),
{
    match regex_find(pattern, haystack) {
        Ok(m) => m,
        Err(_) => None,
    }
}

} // verus!
