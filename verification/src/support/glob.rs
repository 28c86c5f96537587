//! Glob patterns, evaluated by the `globset` crate.
use vstd::prelude::*;

verus! {

/// Whether `globset::Glob::new` accepts `pattern`.
pub uninterp spec fn glob_valid(pattern: Seq<char>) -> bool;

/// What [`glob_match`] gives for `pattern` and `text`: `None` when the
/// pattern or its set does not build, else whether the glob matches.
pub uninterp spec fn glob_outcome(pattern: Seq<char>, text: Seq<char>) -> Option<bool>;

/// Whether the glob `pattern` builds and matches `text`.
pub open spec fn glob_matches(pattern: Seq<char>, text: Seq<char>) -> bool {
    glob_outcome(pattern, text) == Some(true)
}

/// `globset::Glob::new(pattern)`, then a `GlobSet` of that one glob built
/// with `GlobSetBuilder::build` and asked `is_match(text)`.
/// Claims: a pattern `Glob::new` refuses gives `None`; `Some` only for a
/// pattern it accepts, holding whether the glob matches `text`. A pattern
/// that parses but whose regex cannot be built (too deeply nested, or over
/// the size limit) also gives `None`: `build` reports it as an error.
#[verifier::external_body]
pub(crate) fn glob_match(pattern: &str, text: &str) -> (r: Option<bool>)
    ensures
        r == glob_outcome(pattern@, text@),
        r is Some ==> glob_valid(pattern@),
{
    let glob = match globset::Glob::new(pattern) {
        Ok(g) => g,
        Err(_) => return None,
    };
    let mut builder = globset::GlobSetBuilder::new();
    builder.add(glob);
    match builder.build() {
        Ok(set) => Some(set.is_match(text)),
        Err(_) => None,
    }
}

/// `globset::Glob::new(pattern)`, keeping only the error's message.
/// Claims: `Ok` exactly when `Glob::new` accepts the pattern. The message text
/// is globset's own and is not stated.
#[verifier::external_body]
pub(crate) fn glob_check(pattern: &str) -> (r: Result<(), String>)
    ensures
        r is Ok == glob_valid(pattern@),
{
    match globset::Glob::new(pattern) {
        Ok(_) => Ok(()),
        Err(e) => Err(e.to_string()),
    }
}

} // verus!
