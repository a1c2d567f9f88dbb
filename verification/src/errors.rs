//! The error taxonomy of the engine: one typed failure per kind, and the
//! structured aggregate a plan revert reports when several reverts fail.
use vstd::prelude::*;

use crate::model::ErrV;

verus! {

/// A single shift failure.
///
/// The kinds: an I/O failure wrapping an underlying system-level message, a
/// command failure (launch failure or non-accepted exit code, with captured
/// diagnostic text), a validation failure (observed state contradicts the
/// action's expectations), a conflict with a creation precondition, a failed
/// lookup, and a catch-all custom failure used for structurally unsupported
/// operations such as reverting a command execution.
#[derive(Debug)]
pub enum ShiftError {
    IoError(String),
    CommandFailed(String),
    ValidationFailed(String),
    AlreadyExists(String),
    NotFound(String),
    Custom(String),
}

impl View for ShiftError {
    type V = ErrV;

    open spec fn view(&self) -> ErrV {
        match self {
            ShiftError::IoError(m) => ErrV::Io(m@),
            ShiftError::CommandFailed(m) => ErrV::Command(m@),
            ShiftError::ValidationFailed(m) => ErrV::Validation(m@),
            ShiftError::AlreadyExists(m) => ErrV::AlreadyExists(m@),
            ShiftError::NotFound(m) => ErrV::NotFound(m@),
            ShiftError::Custom(m) => ErrV::Custom(m@),
        }
    }
}

/// The message a failure view carries, whatever its kind.
pub open spec fn err_msg(e: ErrV) -> Seq<char> {
    match e {
        ErrV::Io(m) => m,
        ErrV::Command(m) => m,
        ErrV::Validation(m) => m,
        ErrV::AlreadyExists(m) => m,
        ErrV::NotFound(m) => m,
        ErrV::Custom(m) => m,
    }
}

impl ShiftError {
    /// The human-readable message the failure carries.
    pub fn message(&self) -> (r: &String)
        ensures
            r@ == err_msg(self@),
    {
        match self {
            ShiftError::IoError(m) => m,
            ShiftError::CommandFailed(m) => m,
            ShiftError::ValidationFailed(m) => m,
            ShiftError::AlreadyExists(m) => m,
            ShiftError::NotFound(m) => m,
            ShiftError::Custom(m) => m,
        }
    }
}

/// One failed revert within a plan revert: the failing shift's description
/// and the failure it returned.
pub struct RevertFailure {
    pub description: String,
    pub error: ShiftError,
}

impl View for RevertFailure {
    type V = (Seq<char>, ErrV);

    open spec fn view(&self) -> (Seq<char>, ErrV) {
        (self.description@, self.error@)
    }
}

/// The aggregate failure a plan revert reports: one entry per failed shift,
/// in the order the reverts were attempted. The structure is preserved —
/// an ordered list of (description, failure) pairs — rather than a
/// pre-formatted string, so callers can consume it programmatically.
pub struct AggregateError {
    pub failures: Vec<RevertFailure>,
}

impl View for AggregateError {
    type V = Seq<(Seq<char>, ErrV)>;

    open spec fn view(&self) -> Seq<(Seq<char>, ErrV)> {
        Seq::new(self.failures@.len(), |i: int| self.failures@[i]@)
    }
}

/// The view of an apply or revert outcome, for stating contracts: the
/// failure's view when there is one.
pub open spec fn res_err_view(r: Result<(), ShiftError>) -> Option<ErrV> {
    match r {
        Result::Ok(u) => Option::None,
        Result::Err(e) => Option::Some(e@),
    }
}

/// The view of an observation outcome, for stating contracts.
pub open spec fn check_view(r: Result<bool, ShiftError>) -> Result<bool, ErrV> {
    match r {
        Result::Ok(b) => Result::Ok(b),
        Result::Err(e) => Result::Err(e@),
    }
}

} // verus!
