//! Stored rows: the data directory, stored times, and the rows of each
//! table with their conversion to the domain's values. Queries are the
//! caller's.
pub mod checkpoint_repo;
pub mod datasource;
pub mod mcp_repo;
pub mod model_repo;
pub mod perm_rule_repo;
pub mod plugin_repo;
pub mod project_repo;
pub mod session_repo;

use vstd::prelude::*;

use crate::support::clock::{parse_time_fmt, time_parses, time_read};

verus! {

/// Whether a stored time text reads in the storage format
/// (`YYYY-MM-DD HH:MM:SS`).
pub open spec fn stored_time(t: Seq<char>) -> bool {
    time_parses(t, "%Y-%m-%d %H:%M:%S"@)
}

/// The time a stored text reads as, in the storage format.
pub open spec fn stored(t: Seq<char>) -> Option<chrono::NaiveDateTime> {
    time_read(t, "%Y-%m-%d %H:%M:%S"@)
}

/// The time an optional stored text reads as (`None` when absent).
pub open spec fn opt_stored(t: Option<String>) -> Option<chrono::NaiveDateTime> {
    match t {
        Some(v) => stored(v@),
        None => None,
    }
}

/// Reads a stored time; the error is chrono's message.
pub fn parse_time(s: &str) -> (r: Result<chrono::NaiveDateTime, String>)
    ensures
        r is Ok <==> stored_time(s@),
        r matches Ok(t) ==> stored(s@) == Some(t),
{
    parse_time_fmt(s, "%Y-%m-%d %H:%M:%S")
}

/// Reads an optional stored time.
pub fn parse_time_opt(s: &Option<String>) -> (r: Result<Option<chrono::NaiveDateTime>, String>)
    ensures
        r is Ok <==> match s {
            Some(t) => stored_time(t@),
            None => true,
        },
        r matches Ok(x) ==> (x is Some <==> s is Some),
        r matches Ok(x) ==> x == opt_stored(*s),
{
    match s {
        Some(t) => match parse_time(t.as_str()) {
            Ok(v) => Ok(Some(v)),
            Err(e) => Err(e),
        },
        None => Ok(None),
    }
}

/// Whether every stored time of a row reads.
pub open spec fn times_read(created: Seq<char>, updated: Seq<char>) -> bool {
    stored_time(created) && stored_time(updated)
}

/// Whether an optional stored time reads (an absent one does).
pub open spec fn opt_time_reads(t: Option<String>) -> bool {
    match t {
        Some(v) => stored_time(v@),
        None => true,
    }
}

} // verus!
