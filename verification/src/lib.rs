//! Verified core of a Soroban notification broker and of the records that a
//! contract registry keeps.
//!
//! - [`sdk`]: the Soroban SDK types that the library carries, and the few SDK
//!   calls its logic makes.
//! - [`registry`]: the storage records and events of the contract registry.
//! - [`notification`]: the payload that a source publishes.
//! - [`receivers`]: reference subscribers (one that accepts, one that rejects,
//!   one that traps).
//! - [`broker`]: the subscription registry and the routing of notifications.

pub mod sdk;
pub mod registry;
pub mod notification;
pub mod receivers;
pub mod broker;
pub mod laws;
