//! Regular expressions, compiled and run by the `regex` crate.
use vstd::prelude::*;

verus! {

/// `regex::Regex`, carried opaquely.
#[verifier::external_type_specification]
#[verifier::external_body]
pub struct ExRegex(regex::Regex);

/// Whether `regex::Regex::new` accepts `pattern`.
pub uninterp spec fn regex_valid(pattern: Seq<char>) -> bool;

/// Whether the regex compiled from a valid `pattern` finds a match anywhere
/// in `text` (`regex::Regex::is_match`).
pub uninterp spec fn regex_matches(pattern: Seq<char>, text: Seq<char>) -> bool;

/// A compiled regular expression with the pattern it was compiled from. Its
/// fields are private and [`compile_regex`] alone makes one, so `re` is
/// always `pattern` compiled.
pub struct Pattern {
    pattern: String,
    re: regex::Regex,
}

impl Pattern {
    /// The pattern text.
    pub closed spec fn text(&self) -> Seq<char> {
        self.pattern@
    }
}

/// `regex::Regex::new(pattern)`, kept with its pattern; the error keeps only
/// its message.
/// Claims: `Ok` exactly when `Regex::new` accepts the pattern, and then the
/// value holds that pattern. The message text is the crate's own and is not
/// stated.
#[verifier::external_body]
pub(crate) fn compile_regex(pattern: &str) -> (r: Result<Pattern, String>)
    ensures
        r is Ok <==> regex_valid(pattern@),
        r matches Ok(p) ==> p.text() == pattern@,
{
    match regex::Regex::new(pattern) {
        Ok(re) => Ok(Pattern { pattern: pattern.to_string(), re }),
        Err(e) => Err(e.to_string()),
    }
}

/// `regex::Regex::is_match(text)` of a compiled pattern.
/// Claims: the result is the one [`regex_matches`] names for the pattern.
#[verifier::external_body]
pub(crate) fn regex_is_match(p: &Pattern, text: &str) -> (r: bool)
    ensures
        r == regex_matches(p.text(), text@),
{
    p.re.is_match(text)
}

} // verus!
