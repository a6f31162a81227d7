//! Failure kinds of the repair engine.

use vstd::prelude::*;

verus! {

/// Why a repair was abandoned. Every kind is fatal: no text is produced.
#[derive(Debug, Clone, Copy, PartialEq, Eq, Structural)]
pub enum RepairError {
    /// One of the input texts is not well formed.
    ParseError,
    /// The caller or the callee is not defined in the extracted program.
    FunctionNotFound,
    /// The callee's parameters cannot be matched with the original caller.
    CaptureMismatch,
    /// The mutable-call evidence names a variable that is not captured.
    InconsistentMutabilityEvidence,
    /// The rewritten program no longer satisfies the engine's own invariants.
    RenderError,
}

/// The single coarse failure that the command-line driver reports.
#[derive(Debug, Clone, Copy, PartialEq, Eq, Structural)]
pub enum BorrowerError {
    BorrowerFailed,
}

impl BorrowerError {
    /// The text shown to the user for this failure.
    pub fn message(&self) -> (s: String)
        ensures
            s@ == "Borrower failed"@,
    {
        "Borrower failed".to_owned()
    }
}

impl RepairError {
    /// The text shown to the user for this failure.
    pub fn message(&self) -> (s: String)
        ensures
            s@ == match *self {
                RepairError::ParseError => "input is not well formed"@,
                RepairError::FunctionNotFound => "caller or callee not found"@,
                RepairError::CaptureMismatch => "parameters do not match the original caller"@,
                RepairError::InconsistentMutabilityEvidence => "evidence names an uncaptured variable"@,
                RepairError::RenderError => "rewritten program is inconsistent"@,
            },
    {
        match self {
            RepairError::ParseError => "input is not well formed".to_owned(),
            RepairError::FunctionNotFound => "caller or callee not found".to_owned(),
            RepairError::CaptureMismatch => "parameters do not match the original caller".to_owned(),
            RepairError::InconsistentMutabilityEvidence => "evidence names an uncaptured variable".to_owned(),
            RepairError::RenderError => "rewritten program is inconsistent".to_owned(),
        }
    }
}

impl From<RepairError> for BorrowerError {
    fn from(e: RepairError) -> (r: BorrowerError) {
        BorrowerError::BorrowerFailed
    }
}

impl vstd::std_specs::convert::FromSpecImpl<RepairError> for BorrowerError {
    open spec fn obeys_from_spec() -> bool {
        true
    }

    open spec fn from_spec(e: RepairError) -> BorrowerError {
        BorrowerError::BorrowerFailed
    }
}

} // verus!
