//! A minimal workflow orchestrator: clients submit a batch of named
//! "regulator" tasks, the orchestrator records a workflow together with its
//! tasks, and later task status reports cascade into an overall workflow
//! status.

pub mod errors;
mod ids;
pub mod model;
pub mod orchestrator;
pub mod props;
pub mod store;

use vstd::prelude::*;

verus! {

/// Greeting served at the service root.
pub fn index() -> (r: &'static str)
    ensures
        r@ == "Regulators!"@,
{
    "Regulators!"
}

} // verus!
