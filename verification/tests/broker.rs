use notification_broker::broker::{BrokerError, NotificationBroker};
use notification_broker::notification::Notification;
use notification_broker::receivers::{MockReceiverFailure, MockReceiverPanic, MockReceiverSuccess};
use soroban_sdk::testutils::Address as TestAddress;
use soroban_sdk::{Address, Bytes, Env, Symbol};

/// The kinds of reference receiver that a test registers.
#[derive(Clone, Copy)]
enum Receiver {
    Success,
    Failure,
    Panic,
}

struct TestFixture {
    env: Env,
    broker: NotificationBroker,
    admin: Address,
    source1: Address,
    source2: Address,
    listener1: Address,
    listener2: Address,
    listener3: Address,
    /// The receiver contracts registered in the environment.
    receivers: Vec<(Vec<u8>, Receiver)>,
}

/// The strkey bytes by which the broker knows an address.
fn key(a: &Address) -> Vec<u8> {
    let s = a.to_string();
    let mut buf = vec![0u8; s.len() as usize];
    s.copy_into_slice(&mut buf);
    buf
}

/// The bytes by which the broker knows an event type.
fn event(s: &Symbol) -> Vec<u8> {
    s.to_string().into_bytes()
}

fn setup() -> TestFixture {
    let env = Env::default();
    env.mock_all_auths();

    let mut broker = NotificationBroker::new();

    let admin = Address::generate(&env);
    let source1 = Address::generate(&env);
    let source2 = Address::generate(&env);
    let listener1 = Address::generate(&env);
    let listener2 = Address::generate(&env);
    let listener3 = Address::generate(&env);

    broker.initialize(key(&admin)).expect("Failed to initialize broker");

    TestFixture { env, broker, admin, source1, source2, listener1, listener2, listener3, receivers: Vec::new() }
}

fn register_receiver(f: &mut TestFixture, kind: Receiver) -> Address {
    let id = Address::generate(&f.env);
    f.receivers.push((key(&id), kind));
    id
}

fn create_test_notification(env: &Env, source: &Address, event_type: &str, data: &str) -> Notification {
    Notification {
        source: source.clone(),
        event_type: Symbol::new(env, event_type),
        data: Bytes::from_slice(env, data.as_bytes()),
    }
}

fn subscribe(f: &mut TestFixture, listener: &Address, source: &Address, event_type: Option<&Symbol>) -> Result<(), BrokerError> {
    f.broker.subscribe(key(listener), key(source), event_type.map(event))
}

fn unsubscribe(f: &mut TestFixture, listener: &Address, source: &Address, event_type: Option<&Symbol>) -> Result<(), BrokerError> {
    f.broker.unsubscribe(&key(listener), &key(source), &event_type.map(event))
}

fn is_subscribed(f: &TestFixture, listener: &Address, source: &Address, event_type: Option<&Symbol>) -> bool {
    f.broker.is_subscribed(&key(listener), &key(source), &event_type.map(event))
}

/// Publishes `notification` as `source`: every listener that the broker
/// selects is called, whatever it answers, and the count is returned.
fn notify_as(f: &mut TestFixture, source: &Address, notification: &Notification, authorized: bool) -> Result<u32, BrokerError> {
    let listeners = f.broker.begin_notify(&key(source), &event(&notification.event_type), authorized)?;
    for l in &listeners {
        if let Some((_, kind)) = f.receivers.iter().find(|(k, _)| k == l) {
            let _outcome = match kind {
                Receiver::Success => MockReceiverSuccess::try_on_notify(f.env.clone(), notification.clone()),
                Receiver::Failure => MockReceiverFailure::try_on_notify(f.env.clone(), notification.clone()),
                Receiver::Panic => MockReceiverPanic::try_on_notify(f.env.clone(), notification.clone()),
            };
        }
    }
    Ok(f.broker.finish_notify())
}

fn notify(f: &mut TestFixture, source: &Address, notification: &Notification) -> Result<u32, BrokerError> {
    notify_as(f, source, notification, true)
}

// ----------------------------------------------------------------------------
// Initialization
// ----------------------------------------------------------------------------

#[test]
fn test_initialize_success() {
    let f = setup();
    let stored_admin = f.broker.admin().expect("Failed to get admin");
    assert_eq!(stored_admin, key(&f.admin));
}

#[test]
fn test_initialize_twice_fails() {
    let mut f = setup();
    let result = f.broker.initialize(key(&f.admin));
    assert!(result.is_err());
}

#[test]
fn test_admin_before_init_fails() {
    let env = Env::default();
    env.mock_all_auths();
    let broker = NotificationBroker::new();
    let result = broker.admin();
    assert!(result.is_err());
}

// ----------------------------------------------------------------------------
// Subscription management
// ----------------------------------------------------------------------------

#[test]
fn test_subscribe_specific_event() {
    let mut f = setup();
    let event_type = Symbol::new(&f.env, "deposit");
    let (l1, s1) = (f.listener1.clone(), f.source1.clone());
    subscribe(&mut f, &l1, &s1, Some(&event_type)).expect("Failed to subscribe");
    assert!(is_subscribed(&f, &l1, &s1, Some(&event_type)));
}

#[test]
fn test_subscribe_all_events_wildcard() {
    let mut f = setup();
    let (l1, s1) = (f.listener1.clone(), f.source1.clone());
    subscribe(&mut f, &l1, &s1, None).expect("Failed to subscribe");
    assert!(is_subscribed(&f, &l1, &s1, None));
}

#[test]
fn test_subscribe_multiple_listeners_same_source() {
    let mut f = setup();
    let event_type = Symbol::new(&f.env, "deposit");
    let (l1, l2, s1) = (f.listener1.clone(), f.listener2.clone(), f.source1.clone());
    subscribe(&mut f, &l1, &s1, Some(&event_type)).expect("Failed to subscribe listener1");
    subscribe(&mut f, &l2, &s1, Some(&event_type)).expect("Failed to subscribe listener2");
    let is_sub1 = is_subscribed(&f, &l1, &s1, Some(&event_type));
    let is_sub2 = is_subscribed(&f, &l2, &s1, Some(&event_type));
    assert!(is_sub1);
    assert!(is_sub2);
}

#[test]
fn test_subscribe_duplicate_idempotent() {
    let mut f = setup();
    let event_type = Symbol::new(&f.env, "deposit");
    let (l1, s1) = (f.listener1.clone(), f.source1.clone());
    subscribe(&mut f, &l1, &s1, Some(&event_type)).expect("Failed to subscribe first time");
    let result = subscribe(&mut f, &l1, &s1, Some(&event_type));
    assert!(result.is_ok(), "Duplicate subscription should be idempotent");
    assert!(is_subscribed(&f, &l1, &s1, Some(&event_type)));
}

#[test]
fn test_unsubscribe_success() {
    let mut f = setup();
    let event_type = Symbol::new(&f.env, "deposit");
    let (l1, s1) = (f.listener1.clone(), f.source1.clone());
    subscribe(&mut f, &l1, &s1, Some(&event_type)).expect("Failed to subscribe");
    unsubscribe(&mut f, &l1, &s1, Some(&event_type)).expect("Failed to unsubscribe");
    assert!(!is_subscribed(&f, &l1, &s1, Some(&event_type)));
}

#[test]
fn test_unsubscribe_nonexistent_fails() {
    let mut f = setup();
    let event_type = Symbol::new(&f.env, "deposit");
    let (l1, s1) = (f.listener1.clone(), f.source1.clone());
    let result = unsubscribe(&mut f, &l1, &s1, Some(&event_type));
    assert!(result.is_err());
}

#[test]
fn test_unsubscribe_leaves_other_subscriptions() {
    let mut f = setup();
    let deposit = Symbol::new(&f.env, "deposit");
    let withdraw = Symbol::new(&f.env, "withdraw");
    let (l1, s1) = (f.listener1.clone(), f.source1.clone());
    subscribe(&mut f, &l1, &s1, Some(&deposit)).expect("Failed to subscribe to deposit");
    subscribe(&mut f, &l1, &s1, Some(&withdraw)).expect("Failed to subscribe to withdraw");
    unsubscribe(&mut f, &l1, &s1, Some(&deposit)).expect("Failed to unsubscribe from deposit");
    let is_sub_deposit = is_subscribed(&f, &l1, &s1, Some(&deposit));
    assert!(!is_sub_deposit);
    let is_sub_withdraw = is_subscribed(&f, &l1, &s1, Some(&withdraw));
    assert!(is_sub_withdraw);
}

// ----------------------------------------------------------------------------
// Queries
// ----------------------------------------------------------------------------

#[test]
fn test_get_listeners_for_source_empty() {
    let f = setup();
    let listeners = f.broker.get_listeners_for_source(&key(&f.source1));
    assert_eq!(listeners.len(), 0);
}

#[test]
fn test_get_listeners_for_source_multiple() {
    let mut f = setup();
    let deposit = Symbol::new(&f.env, "deposit");
    let (l1, l2, l3, s1) = (f.listener1.clone(), f.listener2.clone(), f.listener3.clone(), f.source1.clone());
    subscribe(&mut f, &l1, &s1, Some(&deposit)).expect("Failed to subscribe listener1");
    subscribe(&mut f, &l2, &s1, None).expect("Failed to subscribe listener2");
    subscribe(&mut f, &l3, &s1, Some(&deposit)).expect("Failed to subscribe listener3");
    let listeners = f.broker.get_listeners_for_source(&key(&s1));
    assert_eq!(listeners.len(), 3);
    assert!(listeners.iter().any(|l| l == &key(&l1)));
    assert!(listeners.iter().any(|l| l == &key(&l2)));
    assert!(listeners.iter().any(|l| l == &key(&l3)));
}

// ----------------------------------------------------------------------------
// Dispatch
// ----------------------------------------------------------------------------

#[test]
fn test_notify_single_listener_specific_event() {
    let mut f = setup();
    let deposit = Symbol::new(&f.env, "deposit");
    let receiver_id = register_receiver(&mut f, Receiver::Success);
    let s1 = f.source1.clone();
    subscribe(&mut f, &receiver_id, &s1, Some(&deposit)).expect("Failed to subscribe");
    let notification = create_test_notification(&f.env, &s1, "deposit", "test_data");
    let notified_count = notify(&mut f, &s1, &notification).expect("Failed to notify");
    assert_eq!(notified_count, 1);
}

#[test]
fn test_notify_multiple_listeners_specific_event() {
    let mut f = setup();
    let deposit = Symbol::new(&f.env, "deposit");
    let receiver1_id = register_receiver(&mut f, Receiver::Success);
    let receiver2_id = register_receiver(&mut f, Receiver::Success);
    let s1 = f.source1.clone();
    subscribe(&mut f, &receiver1_id, &s1, Some(&deposit)).expect("Failed to subscribe receiver1");
    subscribe(&mut f, &receiver2_id, &s1, Some(&deposit)).expect("Failed to subscribe receiver2");
    let notification = create_test_notification(&f.env, &s1, "deposit", "test_data");
    let notified_count = notify(&mut f, &s1, &notification).expect("Failed to notify");
    assert_eq!(notified_count, 2);
}

#[test]
fn test_notify_wildcard_subscription() {
    let mut f = setup();
    let receiver_id = register_receiver(&mut f, Receiver::Success);
    let s1 = f.source1.clone();
    subscribe(&mut f, &receiver_id, &s1, None).expect("Failed to subscribe with wildcard");
    let notification_deposit = create_test_notification(&f.env, &s1, "deposit", "data");
    let count1 = notify(&mut f, &s1, &notification_deposit).expect("Failed to notify deposit");
    let notification_withdraw = create_test_notification(&f.env, &s1, "withdraw", "data");
    let count2 = notify(&mut f, &s1, &notification_withdraw).expect("Failed to notify withdraw");
    assert_eq!(count1, 1);
    assert_eq!(count2, 1);
}

#[test]
fn test_notify_no_matching_subscribers() {
    let mut f = setup();
    let deposit = Symbol::new(&f.env, "deposit");
    let receiver_id = register_receiver(&mut f, Receiver::Success);
    let s1 = f.source1.clone();
    subscribe(&mut f, &receiver_id, &s1, Some(&deposit)).expect("Failed to subscribe");
    let notification = create_test_notification(&f.env, &s1, "withdraw", "data");
    let notified_count = notify(&mut f, &s1, &notification).expect("Failed to notify");
    assert_eq!(notified_count, 0);
}

#[test]
fn test_notify_multiple_sources() {
    let mut f = setup();
    let event_type = Symbol::new(&f.env, "update");
    let receiver1_id = register_receiver(&mut f, Receiver::Success);
    let receiver2_id = register_receiver(&mut f, Receiver::Success);
    let (s1, s2) = (f.source1.clone(), f.source2.clone());
    subscribe(&mut f, &receiver1_id, &s1, Some(&event_type)).expect("Failed to subscribe receiver1");
    subscribe(&mut f, &receiver2_id, &s2, Some(&event_type)).expect("Failed to subscribe receiver2");
    let notification = create_test_notification(&f.env, &s1, "update", "data");
    let count1 = notify(&mut f, &s1, &notification).expect("Failed to notify source1");
    assert_eq!(count1, 1);
    let notification2 = create_test_notification(&f.env, &s2, "update", "data");
    let count2 = notify(&mut f, &s2, &notification2).expect("Failed to notify source2");
    assert_eq!(count2, 1);
}

#[test]
fn test_notify_continues_on_listener_failure() {
    let mut f = setup();
    let event_type = Symbol::new(&f.env, "deposit");
    let failing_receiver_id = register_receiver(&mut f, Receiver::Failure);
    let success_receiver_id = register_receiver(&mut f, Receiver::Success);
    let s1 = f.source1.clone();
    subscribe(&mut f, &failing_receiver_id, &s1, Some(&event_type)).expect("Failed to subscribe failing receiver");
    subscribe(&mut f, &success_receiver_id, &s1, Some(&event_type)).expect("Failed to subscribe success receiver");
    let notification = create_test_notification(&f.env, &s1, "deposit", "data");
    let notified_count = notify(&mut f, &s1, &notification).expect("Failed to notify");
    assert_eq!(notified_count, 2, "Best-effort delivery should attempt all subscribers");
}

#[test]
fn test_notify_mixed_success_and_failures() {
    let mut f = setup();
    let event_type = Symbol::new(&f.env, "harvest");
    let receiver1_id = register_receiver(&mut f, Receiver::Success);
    let failing_id = register_receiver(&mut f, Receiver::Failure);
    let receiver3_id = register_receiver(&mut f, Receiver::Success);
    let s1 = f.source1.clone();
    subscribe(&mut f, &receiver1_id, &s1, Some(&event_type)).expect("Failed to subscribe receiver1");
    subscribe(&mut f, &failing_id, &s1, Some(&event_type)).expect("Failed to subscribe failing receiver");
    subscribe(&mut f, &receiver3_id, &s1, Some(&event_type)).expect("Failed to subscribe receiver3");
    let notification = create_test_notification(&f.env, &s1, "harvest", "data");
    let notified_count = notify(&mut f, &s1, &notification).expect("Failed to notify");
    assert_eq!(notified_count, 3);
}

#[test]
fn test_notify_requires_source_auth() {
    let env = Env::default();
    env.mock_all_auths();
    let mut broker = NotificationBroker::new();
    let admin = Address::generate(&env);
    let source1 = Address::generate(&env);
    broker.initialize(key(&admin)).expect("Failed to initialize");
    let notification = create_test_notification(&env, &source1, "deposit", "data");
    let result = broker.begin_notify(&key(&source1), &event(&notification.event_type), false);
    assert!(result.is_err());
}

// ----------------------------------------------------------------------------
// Recorded state behind the emitted events
// ----------------------------------------------------------------------------

#[test]
fn test_initialize_event_shape() {
    let f = setup();
    let stored_admin = f.broker.admin().expect("Failed to get admin");
    assert_eq!(stored_admin, key(&f.admin));
}

#[test]
fn test_subscription_event_on_subscribe() {
    let mut f = setup();
    let event_type = Symbol::new(&f.env, "deposit");
    let (l1, s1) = (f.listener1.clone(), f.source1.clone());
    subscribe(&mut f, &l1, &s1, Some(&event_type)).expect("Failed to subscribe");
    let again = Symbol::new(&f.env, "deposit");
    assert!(is_subscribed(&f, &l1, &s1, Some(&again)));
}

#[test]
fn test_subscription_event_on_unsubscribe() {
    let mut f = setup();
    let event_type = Symbol::new(&f.env, "deposit");
    let (l1, s1) = (f.listener1.clone(), f.source1.clone());
    subscribe(&mut f, &l1, &s1, Some(&event_type)).expect("Failed to subscribe");
    unsubscribe(&mut f, &l1, &s1, Some(&event_type)).expect("Failed to unsubscribe");
    let again = Symbol::new(&f.env, "deposit");
    assert!(!is_subscribed(&f, &l1, &s1, Some(&again)));
}

#[test]
fn test_notification_emitted_event_structure() {
    let mut f = setup();
    let deposit = Symbol::new(&f.env, "deposit");
    let receiver_id = register_receiver(&mut f, Receiver::Success);
    let s1 = f.source1.clone();
    subscribe(&mut f, &receiver_id, &s1, Some(&deposit)).expect("Failed to subscribe");
    let notification = create_test_notification(&f.env, &s1, "deposit", "event_data_123");
    let notified_count = notify(&mut f, &s1, &notification).expect("Failed to notify");
    assert_eq!(notified_count, 1);
}

// ----------------------------------------------------------------------------
// Edge cases
// ----------------------------------------------------------------------------

#[test]
fn test_subscribe_unsubscribe_resubscribe_cycle() {
    let mut f = setup();
    let event_type = Symbol::new(&f.env, "deposit");
    let (l1, s1) = (f.listener1.clone(), f.source1.clone());
    subscribe(&mut f, &l1, &s1, Some(&event_type)).expect("Failed to subscribe");
    assert!(is_subscribed(&f, &l1, &s1, Some(&event_type)));
    unsubscribe(&mut f, &l1, &s1, Some(&event_type)).expect("Failed to unsubscribe");
    assert!(!is_subscribed(&f, &l1, &s1, Some(&event_type)));
    subscribe(&mut f, &l1, &s1, Some(&event_type)).expect("Failed to resubscribe");
    assert!(is_subscribed(&f, &l1, &s1, Some(&event_type)));
}

#[test]
fn test_listener_not_in_registry_no_notification() {
    let mut f = setup();
    let event_type = Symbol::new(&f.env, "deposit");
    let receiver_id = register_receiver(&mut f, Receiver::Success);
    let s1 = f.source1.clone();
    subscribe(&mut f, &receiver_id, &s1, Some(&event_type)).expect("Failed to subscribe");
    let notification = create_test_notification(&f.env, &s1, "deposit", "data");
    let notified_count = notify(&mut f, &s1, &notification).expect("Failed to notify");
    assert_eq!(notified_count, 1);
}

#[test]
fn test_empty_notification_data_allowed() {
    let mut f = setup();
    let event_type = Symbol::new(&f.env, "ping");
    let receiver_id = register_receiver(&mut f, Receiver::Success);
    let s1 = f.source1.clone();
    subscribe(&mut f, &receiver_id, &s1, Some(&event_type)).expect("Failed to subscribe");
    let notification = Notification {
        source: s1.clone(),
        event_type: Symbol::new(&f.env, "ping"),
        data: Bytes::new(&f.env),
    };
    let result = notify(&mut f, &s1, &notification);
    assert!(result.is_ok());
}

#[test]
fn test_large_notification_data() {
    let mut f = setup();
    let event_type = Symbol::new(&f.env, "bulk");
    let receiver_id = register_receiver(&mut f, Receiver::Success);
    let s1 = f.source1.clone();
    subscribe(&mut f, &receiver_id, &s1, Some(&event_type)).expect("Failed to subscribe");
    let large_data = "x".repeat(1000);
    let notification = create_test_notification(&f.env, &s1, "bulk", &large_data);
    let result = notify(&mut f, &s1, &notification);
    assert!(result.is_ok());
}

// ----------------------------------------------------------------------------
// Reentrancy
// ----------------------------------------------------------------------------

#[test]
fn test_notify_completes_without_reentrancy_error() {
    let mut f = setup();
    let event_type = Symbol::new(&f.env, "action");
    let receiver_id = register_receiver(&mut f, Receiver::Success);
    let s1 = f.source1.clone();
    subscribe(&mut f, &receiver_id, &s1, Some(&event_type)).expect("Failed to subscribe");
    let notification = create_test_notification(&f.env, &s1, "action", "data");
    let result1 = notify(&mut f, &s1, &notification);
    assert!(result1.is_ok());
    let notification2 = create_test_notification(&f.env, &s1, "action", "data2");
    let result2 = notify(&mut f, &s1, &notification2);
    assert!(result2.is_ok());
}

#[test]
fn test_subscribe_completes_without_reentrancy_error() {
    let mut f = setup();
    let event_type1 = Symbol::new(&f.env, "event1");
    let event_type2 = Symbol::new(&f.env, "event2");
    let (l1, s1) = (f.listener1.clone(), f.source1.clone());
    let result1 = subscribe(&mut f, &l1, &s1, Some(&event_type1));
    assert!(result1.is_ok());
    let result2 = subscribe(&mut f, &l1, &s1, Some(&event_type2));
    assert!(result2.is_ok());
}
