//! The payload that a source publishes through the broker.

use vstd::prelude::*;

verus! {

/// A notification: who published it, what kind of event it reports, and the
/// event's data.
#[derive(Clone)]
pub struct Notification {
    pub source: soroban_sdk::Address,
    pub event_type: soroban_sdk::Symbol,
    pub data: soroban_sdk::Bytes,
}

} // verus!
