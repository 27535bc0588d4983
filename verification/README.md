# notification_broker

A verified core for two Soroban contracts: a notification broker, through which
sources publish events to the listeners that subscribed to them, and a contract
registry, whose storage records and events are defined here.

- `src/broker.rs` — the subscription registry (subscribe, unsubscribe, queries)
  and the selection of the listeners a notification goes to, with its
  best-effort count and its reentrancy guard. Specified over `BrokerState`.
- `src/laws.rs` — properties that relate several broker operations
  (idempotent subscription, unsubscribe undoing subscribe, routing by source,
  event type and wildcard, a dispatch leaving the state as it found it).
- `src/receivers.rs` — reference subscribers that accept, reject or trap.
- `src/notification.rs`, `src/registry.rs` — the data types.
- `src/sdk.rs` — the Soroban SDK types and calls the library relies on, with
  the contracts assumed of them.
- `app/` — the Soroban contracts: storage, authorization, cross-contract calls
  and events around the verified library.
