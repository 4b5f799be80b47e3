//! Regular-expression matching through the `regex` crate. A compiled regex
//! is carried as an opaque value; what it was compiled from, whether a
//! pattern compiles at all, and what it matches are named here and believed
//! of the crate.

use vstd::prelude::*;

verus! {

#[verifier::external_type_specification]
#[verifier::external_body]
pub struct ExRegex(regex::Regex);

/// The pattern a compiled regex was built from.
pub uninterp spec fn regex_pattern(re: regex::Regex) -> Seq<char>;

/// Whether a pattern is one the regex crate compiles.
pub uninterp spec fn regex_valid(pattern: Seq<char>) -> bool;

/// Whether a pattern matches somewhere in a text; the result depends on the
/// pattern and the text alone.
pub uninterp spec fn regex_match(pattern: Seq<char>, text: Seq<char>) -> bool;

/// Relies on regex::Regex::new: compiles the pattern, succeeding exactly on
/// the patterns the crate accepts.
#[verifier::external_body]
pub fn regex_new(pattern: &str) -> (r: Result<regex::Regex, ()>)
    ensures
        r is Ok <==> regex_valid(pattern@),
        r matches Ok(re) ==> regex_pattern(re) == pattern@,
{
    match regex::Regex::new(pattern) {
        Ok(re) => Ok(re),
        Err(_) => Err(()),
    }
}

/// Relies on regex::Regex::is_match: true exactly when the compiled pattern
/// matches somewhere in the text.
#[verifier::external_body]
pub fn regex_is_match(re: &regex::Regex, text: &str) -> (r: bool)
    ensures
        r == regex_match(regex_pattern(*re), text@),
{
    re.is_match(text)
}

} // verus!
