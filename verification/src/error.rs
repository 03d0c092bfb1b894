//! Error taxonomy of the worker runtime.

use vstd::prelude::*;

verus! {

/// The kinds of failure that can surface while consuming and processing
/// orders. Handler errors stay below this type; transport errors are mapped
/// into `RuntimeError` by the embedding binary.
#[derive(Debug, Clone, PartialEq, Eq)]
pub enum MessageError {
    /// Malformed order document.
    ParseError(String),
    /// Missing requirement paths or unresolved credentials; the source
    /// delivery should be requeued so that upstream may fix the cause.
    RequirementsError(String),
    /// The handler did not override the relevant hook.
    NotImplemented(),
    /// The handler returned an error for the job with the given identifier.
    ProcessingError(u64, String),
    /// Unexpected internal failure, not tied to a particular job.
    RuntimeError(String),
}

} // verus!
