//! Timestamps: `chrono::NaiveDateTime` is carried through the library as an
//! opaque value, produced by reading a text with a format or by reading the
//! clock.
use vstd::prelude::*;

verus! {

/// `chrono::NaiveDateTime`, carried opaquely (the library never looks inside).
#[verifier::external_type_specification]
#[verifier::external_body]
pub struct ExNaiveDateTime(chrono::NaiveDateTime);

/// `<chrono::NaiveDateTime as Clone>::clone`: the type is `Copy`, so a clone
/// is the same value.
pub assume_specification[ <chrono::NaiveDateTime as Clone>::clone ](
    t: &chrono::NaiveDateTime,
) -> (r: chrono::NaiveDateTime)
    ensures
        r == *t,
;

/// The time `chrono::NaiveDateTime::parse_from_str` reads from `text` with
/// the format `fmt`, if it reads one (it depends on the text and the format
/// alone).
pub uninterp spec fn time_read(text: Seq<char>, fmt: Seq<char>) -> Option<chrono::NaiveDateTime>;

/// Whether chrono reads a time from `text` with the format `fmt`.
pub open spec fn time_parses(text: Seq<char>, fmt: Seq<char>) -> bool {
    time_read(text, fmt) is Some
}

/// `chrono::NaiveDateTime::parse_from_str(text, fmt)`, the error kept as its
/// message.
/// Claims: `Ok` exactly when chrono reads a time from the text with that
/// format, and then holds that time (see [`time_read`]). The message is not
/// stated.
#[verifier::external_body]
pub(crate) fn parse_time_fmt(text: &str, fmt: &str) -> (r: Result<chrono::NaiveDateTime, String>)
    ensures
        r is Ok <==> time_parses(text@, fmt@),
        r matches Ok(t) ==> time_read(text@, fmt@) == Some(t),
{
    chrono::NaiveDateTime::parse_from_str(text, fmt).map_err(|e| e.to_string())
}

/// `chrono::Local::now().naive_local()`: the current local wall-clock time.
/// Nothing is stated about the value, which depends on the machine's clock.
#[verifier::external_body]
pub fn local_now() -> chrono::NaiveDateTime {
    chrono::Local::now().naive_local()
}

} // verus!
