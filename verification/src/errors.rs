use vstd::prelude::*;

verus! {

/// Every failure the broker reports to its callers.
///
/// Each variant carries the name or identifier the failing call referred to.
/// Faults of outside origin (serialization, storage backends) carry their
/// description as plain text.
#[derive(Debug)]
pub enum Error {
    /// The referenced queue name has no corresponding state.
    QueueNotFound(String),
    /// A queue with this name is already registered.
    QueueAlreadyExists(String),
    /// An acknowledgement referenced a message id that is not in flight.
    MessageNotFound(String),
    /// A publish was rejected because the queue reached its capacity.
    QueueFull(String),
    /// The queue holds no messages.
    QueueEmpty(String),
    /// Malformed input, rejected at the transport boundary.
    InvalidMessage(String),
    /// A backend-specific storage fault.
    Storage(String),
    /// A serialization fault.
    Serialization(String),
    /// Any other internal fault.
    Internal(String),
}

} // verus!
