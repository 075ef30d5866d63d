//! The consumer's end of a client session: the transport's background
//! context reads frames, decodes them with the message codec and queues
//! the results; the screen state machine polls here once per update cycle,
//! never blocking. Lines that fail to decode are dropped by the producer
//! and never reach the consumer, so only fully formed messages are ever
//! observed, in arrival order.

use vstd::prelude::*;
use crate::model::ServerMessage;

verus! {

#[verifier::external_type_specification]
#[verifier::external_body]
#[verifier::reject_recursive_types(T)]
pub struct ExMpscReceiver<T>(std::sync::mpsc::Receiver<T>);

/// The poll-based view of an inherently asynchronous connection.
pub struct Receiver {
    queue: std::sync::mpsc::Receiver<ServerMessage>,
}

impl Receiver {
    /// Wraps the consuming end of the queue that the transport's
    /// background context fills with decoded messages.
    pub fn new(queue: std::sync::mpsc::Receiver<ServerMessage>) -> Receiver {
        Receiver { queue }
    }

    /// Relies on `std::sync::mpsc::Receiver::try_recv`: returns at most
    /// one queued message and never blocks; `None` on an empty queue and
    /// on one whose producer is gone. What arrives, and when, depends on
    /// the connection, so nothing is promised of the result.
    #[verifier::external_body]
    pub fn try_recv(&self) -> Option<ServerMessage> {
        match self.queue.try_recv() {
            Ok(message) => Some(message),
            Err(_) => None,
        }
    }
}

} // verus!
