//! Bytes as text: UTF-8 decoding is `std`'s.
use vstd::prelude::*;

verus! {

/// The text `bytes` hold when they are valid UTF-8 (`String::from_utf8`).
pub uninterp spec fn utf8_decoded(bytes: Seq<u8>) -> Option<Seq<char>>;

/// `String::from_utf8(bytes)`, the error dropped.
/// Claims: `Some` exactly when the bytes are valid UTF-8, and then the text
/// [`utf8_decoded`] names.
#[verifier::external_body]
pub(crate) fn utf8_text(bytes: Vec<u8>) -> (r: Option<String>)
    ensures
        r is Some <==> utf8_decoded(bytes@) is Some,
        r matches Some(s) ==> utf8_decoded(bytes@) == Some(s@),
{
    String::from_utf8(bytes).ok()
}

} // verus!
