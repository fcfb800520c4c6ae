//! What the registry takes on trust from outside code: JSON result values,
//! the receiving end of a job's one-shot result channel, the clock, and the
//! formatting of diagnostic text.

use vstd::prelude::*;
use std::sync::mpsc::Receiver;
use std::sync::mpsc::TryRecvError;
use std::time::SystemTime;

verus! {

#[verifier::external_type_specification]
#[verifier::external_body]
pub struct ExValue(serde_json::Value);

#[verifier::external_type_specification]
#[verifier::external_body]
#[verifier::reject_recursive_types(T)]
pub struct ExReceiver<T>(Receiver<T>);

#[verifier::external_type_specification]
#[verifier::external_body]
pub struct ExSystemTime(SystemTime);

/// One non-blocking read of a job's result channel, as the registry sees it.
#[derive(Debug)]
pub enum ChannelRead {
    Received(serde_json::Value),
    Empty,
    Disconnected,
}

/// Relies on std::time::SystemTime::now: the current wall-clock time, of
/// which nothing is promised.
#[verifier::external_body]
pub(crate) fn system_now() -> SystemTime {
    SystemTime::now()
}

/// Relies on std::sync::mpsc::Receiver::try_recv: a non-blocking check that
/// returns a value the sender sent, or reports that nothing has been sent
/// yet, or that the sending side was dropped without sending. Which of the
/// three comes back depends on what the sending side has done, so nothing is
/// promised of the outcome.
#[verifier::external_body]
pub(crate) fn try_recv_value(receiver: &Receiver<serde_json::Value>) -> ChannelRead {
    match receiver.try_recv() {
        Ok(value) => ChannelRead::Received(value),
        Err(TryRecvError::Empty) => ChannelRead::Empty,
        Err(TryRecvError::Disconnected) => ChannelRead::Disconnected,
    }
}

/// Relies on the std `format!` macro: renders one job's diagnostic line.
/// The text is free-form; the format string holds literal characters, so
/// the line is never empty, and nothing more is promised of it.
#[verifier::external_body]
pub(crate) fn snapshot_line(id: u64, name: &String, read: &ChannelRead) -> (r: String)
    ensures
        r@.len() >= 1,
{
    format!("{}: {} {:?}\n", id, name, read)
}

} // verus!
