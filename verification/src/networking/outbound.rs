//! The per-client outbound queue: a bounded channel whose sending half the
//! registry keeps and whose receiving half the connection's writer drains.

use serde_json::Value;
use tokio::sync::mpsc::error::TrySendError;
use tokio::sync::mpsc::{Receiver, Sender};
use vstd::prelude::*;

verus! {

/// `tokio::sync::mpsc::Sender`: the sending half of a queue, carried as it
/// is.
#[verifier::external_type_specification]
#[verifier::external_body]
#[verifier::reject_recursive_types(T)]
pub struct ExSender<T>(Sender<T>);

/// `tokio::sync::mpsc::Receiver`: the receiving half of a queue, carried
/// as it is.
#[verifier::external_type_specification]
#[verifier::external_body]
#[verifier::reject_recursive_types(T)]
pub struct ExReceiver<T>(Receiver<T>);

/// The largest capacity a queue can be made with.
pub const MAX_QUEUE_CAPACITY: usize = usize::MAX / 8;

/// What became of one payload offered to one client's queue.
#[derive(Clone, Copy, Debug, PartialEq, Eq, Structural)]
pub enum DeliveryOutcome {
    /// The payload is in the queue.
    Enqueued,
    /// The queue was at capacity; the payload was dropped.
    QueueFull,
    /// The receiving half is gone; the payload was dropped.
    Closed,
    /// The registry holds no queue for the target; the payload was dropped.
    NotConnected,
}

/// The capacity that a queue was made with.
pub uninterp spec fn queue_bound(handle: Sender<Value>) -> nat;

/// Calls `tokio::sync::mpsc::channel`.
///
/// Trusted: the channel is made with the capacity asked for. The call
/// panics on a capacity of zero or above `MAX_QUEUE_CAPACITY`, which the
/// precondition leaves out.
#[verifier::external_body]
pub(crate) fn open_queue(capacity: usize) -> (ends: (Sender<Value>, Receiver<Value>))
    requires
        0 < capacity <= MAX_QUEUE_CAPACITY,
    ensures
        queue_bound(ends.0) == capacity,
{
    tokio::sync::mpsc::channel(capacity)
}

/// Why a queue did not take a payload.
#[derive(Clone, Copy, Debug, PartialEq, Eq, Structural)]
pub enum Refusal {
    /// The queue holds as many payloads as it was made for.
    Full,
    /// The receiving half of the queue is gone.
    Closed,
}

impl DeliveryOutcome {
    /// What became of a payload, from the answer of the queue it was
    /// offered to: a payload that the queue refused is dropped.
    pub fn of_offer(answer: Result<(), Refusal>) -> (outcome: DeliveryOutcome)
        ensures
            outcome == match answer {
                Ok(()) => DeliveryOutcome::Enqueued,
                Err(Refusal::Full) => DeliveryOutcome::QueueFull,
                Err(Refusal::Closed) => DeliveryOutcome::Closed,
            },
    {
        match answer {
            Ok(()) => DeliveryOutcome::Enqueued,
            Err(Refusal::Full) => DeliveryOutcome::QueueFull,
            Err(Refusal::Closed) => DeliveryOutcome::Closed,
        }
    }

    /// Whether the payload was dropped.
    pub fn is_dropped(&self) -> (dropped: bool)
        ensures
            dropped == (*self != DeliveryOutcome::Enqueued),
    {
        match self {
            DeliveryOutcome::Enqueued => false,
            _ => true,
        }
    }
}

/// Calls `tokio::sync::mpsc::Sender::try_send`, which never waits.
///
/// Trusted: nothing is claimed of the answer, which depends on what the
/// queue holds at that moment and on whether its receiver is still there.
#[verifier::external_body]
pub(crate) fn offer(handle: &Sender<Value>, payload: Value) -> Result<(), Refusal> {
    match handle.try_send(payload) {
        Ok(()) => Ok(()),
        Err(TrySendError::Full(_)) => Err(Refusal::Full),
        Err(TrySendError::Closed(_)) => Err(Refusal::Closed),
    }
}

/// Calls `serde_json::Value::clone`.
///
/// Trusted: the copy is the same document.
#[verifier::external_body]
pub(crate) fn copy_of(payload: &Value) -> (copy: Value)
    ensures
        copy == *payload,
{
    payload.clone()
}

} // verus!
