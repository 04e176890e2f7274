//! The regular-expression engine, as seen by the rest of the library.
//!
//! Compiling, matching and substituting are done by `regex_lite`. Their
//! results depend on the pattern, subject and template alone, so each one is
//! given a name here and the verified code speaks of those names.

use vstd::prelude::*;

verus! {

#[verifier::external_type_specification]
#[verifier::external_body]
pub struct ExRegex(regex_lite::Regex);

#[verifier::external_type_specification]
#[verifier::external_body]
pub struct ExRegexError(regex_lite::Error);

/// Whether `regex_lite::Regex::new` accepts `pattern`.
pub uninterp spec fn compiles(pattern: Seq<char>) -> bool;

/// Whether a regex compiled from `pattern` matches anywhere in `subject`.
pub uninterp spec fn is_match_of(pattern: Seq<char>, subject: Seq<char>) -> bool;

/// The result of replacing every non-overlapping match of `pattern` in
/// `subject` by `template`, with its `$` group references expanded.
pub uninterp spec fn replace_all_of(
    pattern: Seq<char>,
    subject: Seq<char>,
    template: Seq<char>,
) -> Seq<char>;

/// Relies on `regex_lite::Regex::new`: whether it succeeds depends on the
/// pattern alone (its syntax and the default size limit).
#[verifier::external_body]
pub(crate) fn compile_regex(pattern: &str) -> (r: Result<regex_lite::Regex, regex_lite::Error>)
    ensures
        r.is_ok() == compiles(pattern@),
{
    regex_lite::Regex::new(pattern)
}

/// Relies on `regex_lite::Error`'s `Display`: the text of a compile error.
#[verifier::external_body]
pub(crate) fn error_message(e: &regex_lite::Error) -> (r: String) {
    e.to_string()
}

} // verus!
