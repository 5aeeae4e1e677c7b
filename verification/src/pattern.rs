//! Regular expressions.

use vstd::prelude::*;

verus! {

/// A compiled regular expression of the crate `regex`.
#[verifier::external_type_specification]
#[verifier::external_body]
pub struct ExRegex(regex::Regex);

/// What `regex::Regex::new` makes of a pattern: the expression, or the text of
/// the error.
pub uninterp spec fn regex_of(pattern: Seq<char>) -> Result<regex::Regex, Seq<char>>;

/// What `regex::Regex::as_str` gives for an expression.
pub uninterp spec fn regex_source(re: regex::Regex) -> Seq<char>;

/// `regex::Regex::new`: compiles a pattern, or says what is wrong with it. What
/// comes out depends on the pattern alone, and an expression keeps its pattern.
#[verifier::external_body]
pub(crate) fn compile_regex(pattern: &str) -> (r: Result<regex::Regex, String>)
    ensures
        match r {
            Ok(re) => regex_of(pattern@) == Ok::<regex::Regex, Seq<char>>(re) && regex_source(re)
                == pattern@,
            Err(e) => regex_of(pattern@) == Err::<regex::Regex, Seq<char>>(e@),
        },
{
    match regex::Regex::new(pattern) {
        Ok(re) => Ok(re),
        Err(e) => Err(e.to_string()),
    }
}

/// `regex::Regex::as_str`: the pattern that an expression was made from.
pub assume_specification[ regex::Regex::as_str ](re: &regex::Regex) -> (r: &str)
    ensures
        r@ == regex_source(*re),
;

/// What `regex::Regex::is_match` says of an expression and a text.
pub uninterp spec fn regex_found(re: regex::Regex, text: Seq<char>) -> bool;

/// `regex::Regex::is_match`: whether the expression matches anywhere in the text.
/// The answer depends on the expression and the text alone.
pub assume_specification[ regex::Regex::is_match ](re: &regex::Regex, haystack: &str) -> (r: bool)
    ensures
        r == regex_found(*re, haystack@),
;

} // verus!
