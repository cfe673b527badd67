//! The closed set of failure kinds the orchestrator can report. Each variant
//! carries an opaque description of the underlying cause, kept for logging
//! and never inspected by control flow.

use vstd::prelude::*;

verus! {

/// Typed failure classification unifying store and invocation failures.
#[derive(Debug)]
pub enum RegulatorsError {
    StoreReadError(String),
    StoreWriteError(String),
    SerializationError(String),
    InvocationError(String),
}

/// Outcome of a task status update: the only signal the operation yields.
#[derive(Clone, Copy, PartialEq, Eq, Structural, Debug)]
pub enum UpdateOutcome {
    Accepted,
    NotFound,
    BadRequest,
}

} // verus!
