//! URL resolution, done by the `url` crate (through `reqwest::Url`).
use vstd::prelude::*;

verus! {

/// The absolute URL `rel` names relative to `base` (`Url::parse(base)`,
/// then `join(rel)`), when both steps succeed.
pub uninterp spec fn url_joined(base: Seq<char>, rel: Seq<char>) -> Option<Seq<char>>;

/// `reqwest::Url::parse(base)` then `join(rel)`, as text; the error keeps
/// its message.
/// Claims: `Ok` exactly when both steps succeed, with the text
/// [`url_joined`] names. The message text is the crate's own and is not
/// stated.
#[verifier::external_body]
pub(crate) fn url_join(base: &str, rel: &str) -> (r: Result<String, String>)
    ensures
        r is Ok <==> url_joined(base@, rel@) is Some,
        r matches Ok(u) ==> url_joined(base@, rel@) == Some(u@),
{
    match reqwest::Url::parse(base).and_then(|b| b.join(rel)) {
        Ok(u) => Ok(u.to_string()),
        Err(e) => Err(e.to_string()),
    }
}

} // verus!
