//! Verified core of the cyan desktop agent: permission decisions, session and
//! configuration state machines, path confinement, and the parsers and codecs
//! that the agent's tools and MCP transports use.
use vstd::prelude::*;

pub mod domain;
pub mod error;
pub mod infra;
pub mod support;
pub mod text;

verus! {
} // verus!
