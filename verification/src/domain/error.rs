//! Domain errors: the failures of validation, lookups, state transitions and
//! permission decisions.
use vstd::prelude::*;
use crate::text::{concat_vec, chars_of, string_of};

verus! {

/// Domain error.
#[derive(Debug, Clone)]
pub enum DomainError {
    /// A parameter or business rule failed validation.
    Validation(String),
    /// A resource does not exist.
    NotFound(String),
    /// A business conflict (duplicate name, concurrent run, protected default).
    Conflict(String),
    /// An illegal state transition.
    State(String),
    /// The permission engine denied the operation.
    Denied(String),
}

/// The message prefix of each variant, as shown to users.
pub open spec fn error_prefix(e: DomainError) -> Seq<char> {
    match e {
        DomainError::Validation(_) => "校验失败："@,
        DomainError::NotFound(_) => "资源不存在："@,
        DomainError::Conflict(_) => "业务冲突："@,
        DomainError::State(_) => "非法状态："@,
        DomainError::Denied(_) => "操作被拒绝："@,
    }
}

/// The detail text an error carries.
pub open spec fn error_detail(e: DomainError) -> Seq<char> {
    match e {
        DomainError::Validation(m) => m@,
        DomainError::NotFound(m) => m@,
        DomainError::Conflict(m) => m@,
        DomainError::State(m) => m@,
        DomainError::Denied(m) => m@,
    }
}

impl DomainError {
    /// The user-facing message: the variant's prefix followed by the detail.
    pub fn message(&self) -> (r: String)
        ensures
            r@ == error_prefix(*self) + error_detail(*self),
    {
        let (prefix, detail) = match self {
            DomainError::Validation(m) => ("校验失败：", m),
            DomainError::NotFound(m) => ("资源不存在：", m),
            DomainError::Conflict(m) => ("业务冲突：", m),
            DomainError::State(m) => ("非法状态：", m),
            DomainError::Denied(m) => ("操作被拒绝：", m),
        };
        let p = chars_of(prefix);
        let d = chars_of(detail.as_str());
        string_of(&concat_vec(&p, &d))
    }
}

} // verus!
