//! The records that the contract registry keeps, and the events it publishes.

use vstd::prelude::*;

verus! {

/// Published once the registry has its admin.
#[derive(Clone)]
pub struct InitializedEvent {
    pub admin: soroban_sdk::Address,
}

/// Published when a contract is registered under a key.
#[derive(Clone)]
pub struct ContractRegisteredEvent {
    pub key: soroban_sdk::Symbol,
    pub address: soroban_sdk::Address,
    pub version: u32,
    pub env: soroban_sdk::Symbol,
}

/// Published when the contract registered under a key changes.
#[derive(Clone)]
pub struct ContractUpdatedEvent {
    pub key: soroban_sdk::Symbol,
    pub version: u32,
    pub env: soroban_sdk::Symbol,
}

/// What the registry stores about a registered contract.
#[derive(Clone)]
pub struct ContractInfo {
    pub key: soroban_sdk::Symbol,
    pub address: soroban_sdk::Address,
    pub version: u32,
    pub environment: soroban_sdk::Symbol,
}

/// The keys under which the registry stores its data.
pub enum DataKey {
    Admin,
    Paused,
    /// The `ContractInfo` registered under a contract key.
    Contract(soroban_sdk::Symbol),
    /// The list of all registered contract keys.
    ContractKeys,
}

} // verus!
