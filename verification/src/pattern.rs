//! Regular expressions, as the crate `regex` has them.
use regex::Regex;
use vstd::prelude::*;

verus! {

/// `regex::Regex`, carried as an opaque value.
#[verifier::external_type_specification]
#[verifier::external_body]
pub struct ExRegex(regex::Regex);

/// `regex::Error`, carried as an opaque value.
#[verifier::external_type_specification]
#[verifier::external_body]
pub struct ExRegexError(regex::Error);

/// What `Regex::new` gives for `pattern`: the expression where it makes one,
/// and the error where it makes none.
pub uninterp spec fn regex_outcomes(pattern: Seq<char>) -> (Regex, regex::Error);

/// The expression that is made of `pattern`, where one is made.
pub open spec fn compiled_regex(pattern: Seq<char>) -> Regex {
    regex_outcomes(pattern).0
}

/// The error that `pattern` is refused with, where it is refused.
pub open spec fn pattern_refusal(pattern: Seq<char>) -> regex::Error {
    regex_outcomes(pattern).1
}

/// What `Regex::is_match` says of `regex` and `line`.
pub uninterp spec fn regex_is_match(regex: Regex, line: Seq<char>) -> bool;

/// `Regex::new`: an expression that is made is determined by the pattern, and
/// so is an error that is given: that of the syntax where the pattern is
/// ill-formed, else that of the fixed size limit. The alternation of four short
/// words is well-formed and far below that limit, so it is always accepted.
/// Which other well-formed patterns are accepted is left unsaid: the memory that
/// a pattern takes depends on the machine.
pub assume_specification[ Regex::new ](re: &str) -> (result: Result<Regex, regex::Error>)
    ensures
        match result {
            Ok(regex) => regex == regex_outcomes(re@).0,
            Err(error) => error == regex_outcomes(re@).1,
        },
        re@ == "(err|error|ERR|ERROR)"@ ==> result is Ok,
;

/// `Regex::is_match`: whether there is a match anywhere in the text, which is a
/// function of the expression and the text.
pub assume_specification[ Regex::is_match ](regex: &Regex, haystack: &str) -> (found: bool)
    ensures
        found == regex_is_match(*regex, haystack@),
;

} // verus!
