//! Regular-expression matching, as the `regex` crate performs it.

use vstd::prelude::*;

verus! {

#[verifier::external_type_specification]
#[verifier::external_body]
pub struct ExRegexError(regex::Error);

/// What compiling `pattern` as a regular expression and testing `text`
/// against it gives: `None` where the pattern does not compile, else
/// whether the pattern matches somewhere in `text`.
pub uninterp spec fn regex_outcome(pattern: Seq<char>, text: Seq<char>) -> Option<bool>;

/// Relies on `regex::Regex::new`, which compiles `pattern` or reports why it
/// cannot, and on `regex::Regex::is_match`, which says whether the compiled
/// expression matches anywhere in `text`. Both depend on their arguments alone.
#[verifier::external_body]
pub(crate) fn regex_test(pattern: &str, text: &str) -> (r: Result<bool, regex::Error>)
    ensures
        match r {
            Ok(b) => regex_outcome(pattern@, text@) == Some(b),
            Err(_) => regex_outcome(pattern@, text@) is None,
        },
{
    match regex::Regex::new(pattern) {
        Ok(re) => Ok(re.is_match(text)),
        Err(e) => Err(e),
    }
}

} // verus!
