//! Acknowledgement kinds sent to the bus for an inbound message.
use vstd::prelude::*;

verus! {

/// How a message is acknowledged: positively (remove from the stream),
/// negatively with an optional redelivery delay in seconds, or terminally
/// (drop without redelivery).
#[derive(Debug, Clone, Copy, PartialEq, Eq)]
pub enum AckKind {
    Ack,
    Nak(Option<u64>),
    Term,
}

} // verus!
