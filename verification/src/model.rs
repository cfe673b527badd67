//! Data model: workflows, tasks, regulators, and their lifecycle statuses.

use vstd::prelude::*;
use vstd::string::*;

verus! {

/// Lifecycle state shared by workflows and tasks. `Failed` and `Succeeded`
/// are terminal: once reached, no further transition is permitted.
#[derive(Clone, Copy, PartialEq, Eq, Structural, Debug)]
pub enum Status {
    InProgress,
    Failed,
    Succeeded,
}

/// A JSON-like value. A regulator's `context` is an arbitrary mapping of
/// string keys to such values; the orchestrator never inspects it and
/// forwards it verbatim into the invocation payload.
#[derive(Debug)]
pub enum JsonValue {
    Null,
    Bool(bool),
    /// A number, held as its decimal text: the orchestrator never computes
    /// with it, so it is carried exactly as it arrived.
    Number(String),
    Text(String),
    Array(Vec<JsonValue>),
    Object(Vec<(String, JsonValue)>),
}

/// A named external function together with its opaque context payload:
/// the description of what one task will invoke.
#[derive(Debug)]
pub struct Regulator {
    pub name: String,
    pub context: Vec<(String, JsonValue)>,
}

/// The top-level unit of work representing one submission.
#[derive(Debug)]
pub struct Workflow {
    pub id: String,
    pub status: Status,
}

/// One regulator's unit of work within a workflow.
#[derive(Debug)]
pub struct Task {
    pub id: String,
    pub workflow_id: String,
    pub status: Status,
    pub regulator: Regulator,
}

/// `Failed` and `Succeeded` admit no further transition.
pub open spec fn is_terminal(s: Status) -> bool {
    s == Status::Failed || s == Status::Succeeded
}

/// A pending task is one whose status is not yet terminal.
pub open spec fn is_pending(t: Task) -> bool {
    !is_terminal(t.status)
}

/// Executable form of `is_terminal`.
pub fn status_is_terminal(s: Status) -> (r: bool)
    ensures
        r == is_terminal(s),
{
    match s {
        Status::InProgress => false,
        Status::Failed => true,
        Status::Succeeded => true,
    }
}

/// The textual form under which a status travels over the wire.
pub open spec fn spec_status_text(s: Status) -> Seq<char> {
    match s {
        Status::InProgress => "InProgress"@,
        Status::Failed => "Failed"@,
        Status::Succeeded => "Succeeded"@,
    }
}

/// Renders a status as its wire text.
pub fn status_text(s: Status) -> (r: &'static str)
    ensures
        r@ == spec_status_text(s),
{
    match s {
        Status::InProgress => "InProgress",
        Status::Failed => "Failed",
        Status::Succeeded => "Succeeded",
    }
}

/// A caller-supplied status is valid exactly when it reads `InProgress`,
/// `Failed` or `Succeeded`; anything else is rejected.
pub open spec fn spec_parse_status(s: Seq<char>) -> Option<Status> {
    if s == "InProgress"@ {
        Option::Some(Status::InProgress)
    } else if s == "Failed"@ {
        Option::Some(Status::Failed)
    } else if s == "Succeeded"@ {
        Option::Some(Status::Succeeded)
    } else {
        Option::None
    }
}

/// Validates a caller-supplied status against the enumerated set.
pub fn parse_status(s: &String) -> (r: Option<Status>)
    ensures
        r == spec_parse_status(s@),
{
    if *s == String::from_str("InProgress") {
        Option::Some(Status::InProgress)
    } else if *s == String::from_str("Failed") {
        Option::Some(Status::Failed)
    } else if *s == String::from_str("Succeeded") {
        Option::Some(Status::Succeeded)
    } else {
        Option::None
    }
}

} // verus!
