//! The error every command returns: a numeric code and a message. Codes:
//! 1xxx parameters and validation, 2xxx business rules, 3xxx outside
//! services, 9001 a denied operation.
use vstd::prelude::*;

use crate::domain::DomainError;
use crate::support::num::{i64_text, int_text};
use crate::text::{chars_of, extend_str, extend_vec, string_of};

verus! {

/// A command's error.
#[derive(Debug, Clone)]
pub struct ServiceError {
    /// Error code.
    pub code: i32,
    /// Message.
    pub message: String,
}

/// The code of each domain error: validation 1001, missing resource 2002,
/// conflict 2001, illegal state 2003, denied 9001.
pub open spec fn domain_code(e: DomainError) -> i32 {
    match e {
        DomainError::Validation(_) => 1001,
        DomainError::NotFound(_) => 2002,
        DomainError::Conflict(_) => 2001,
        DomainError::State(_) => 2003,
        DomainError::Denied(_) => 9001,
    }
}

/// The service error a domain error becomes: its code (see
/// [`domain_code`]) and its message.
pub open spec fn from_domain(e: DomainError) -> ServiceError {
    match e {
        DomainError::Validation(m) => ServiceError { code: 1001, message: m },
        DomainError::NotFound(m) => ServiceError { code: 2002, message: m },
        DomainError::Conflict(m) => ServiceError { code: 2001, message: m },
        DomainError::State(m) => ServiceError { code: 2003, message: m },
        DomainError::Denied(m) => ServiceError { code: 9001, message: m },
    }
}

impl ServiceError {
    /// An error with any code.
    pub fn new(code: i32, message: String) -> (r: ServiceError)
        ensures
            r.code == code,
            r.message == message,
    {
        ServiceError { code, message }
    }

    /// 1001: a parameter or validation error.
    pub fn validation(message: String) -> (r: ServiceError)
        ensures
            r.code == 1001,
            r.message == message,
    {
        Self::new(1001, message)
    }

    /// 2002: a missing resource.
    pub fn not_found(message: String) -> (r: ServiceError)
        ensures
            r.code == 2002,
            r.message == message,
    {
        Self::new(2002, message)
    }

    /// 2001: a business conflict (concurrent run, duplicate name, protected
    /// default).
    pub fn conflict(message: String) -> (r: ServiceError)
        ensures
            r.code == 2001,
            r.message == message,
    {
        Self::new(2001, message)
    }

    /// 2003: an illegal state transition.
    pub fn state(message: String) -> (r: ServiceError)
        ensures
            r.code == 2003,
            r.message == message,
    {
        Self::new(2003, message)
    }

    /// 9001: an operation a deny rule refused.
    pub fn denied(message: String) -> (r: ServiceError)
        ensures
            r.code == 9001,
            r.message == message,
    {
        Self::new(9001, message)
    }

    /// 3000: an outside service failed (model, MCP, git, database).
    pub fn external(message: String) -> (r: ServiceError)
        ensures
            r.code == 3000,
            r.message == message,
    {
        Self::new(3000, message)
    }

    /// The error as shown: `[code] message`.
    pub fn to_text(&self) -> (r: String)
        ensures
            r@ == "["@ + int_text(self.code as int) + "] "@ + self.message@,
    {
        let mut v = chars_of("[");
        extend_vec(&mut v, &i64_text(self.code as i64));
        extend_str(&mut v, "] ");
        extend_str(&mut v, self.message.as_str());
        string_of(&v)
    }
}

impl From<DomainError> for ServiceError {
    fn from(e: DomainError) -> (r: ServiceError) {
        match e {
            DomainError::Validation(m) => Self::validation(m),
            DomainError::NotFound(m) => Self::not_found(m),
            DomainError::Conflict(m) => Self::conflict(m),
            DomainError::State(m) => Self::state(m),
            DomainError::Denied(m) => Self::denied(m),
        }
    }
}

impl vstd::std_specs::convert::FromSpecImpl<DomainError> for ServiceError {
    open spec fn obeys_from_spec() -> bool {
        true
    }

    open spec fn from_spec(v: DomainError) -> ServiceError {
        from_domain(v)
    }
}

} // verus!
