//! The polling protocol: the tagged outcomes a caller can observe for a job.

use vstd::prelude::*;

verus! {

/// Why a poll or a removal could not produce a job outcome.
///
/// `NotExist`: the handle was never issued, or the job already reached a
/// terminal outcome that erased its record. `Disconnected`: the job's
/// execution unit ended without ever sending a result.
#[derive(Debug, Clone, Copy, PartialEq, Eq, Structural)]
pub enum PollingError {
    NotExist,
    Disconnected,
}

/// The outcome of one registry operation on a job, as reported to a caller.
///
/// A single job moves through these as a state machine: `Started(handle)`
/// is returned exactly once, at enqueue; `Pending` zero or more times while
/// the job still runs; then exactly one terminal outcome among `Done`,
/// `Error(Disconnected)` and `Removed`. `Error(NotExist)` is returned for
/// any handle whose record is not in the registry.
#[derive(Debug)]
pub enum PollingState {
    Started(u64),
    Pending,
    Done(serde_json::Value),
    Removed,
    Error(PollingError),
}

} // verus!
