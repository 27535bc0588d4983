//! Laws of the broker that relate several of its operations. Each is stated
//! over the specification functions that the operations' own contracts use.

use vstd::prelude::*;
use crate::broker::{
    admin_outcome, guarded, initialize_outcome, key_of, listeners_of, opt_bytes, recipients, released,
    selects, subscribe_outcome, unsubscribe_outcome, BrokerError, BrokerState, SubscriptionKey,
};

verus! {

/// After a successful `initialize(a)`, `admin()` answers `a`.
pub proof fn lemma_initialize_then_admin(s: BrokerState, a: Seq<u8>)
    requires
        s.admin is None,
    ensures
        initialize_outcome(s, a).1 is Ok,
        admin_outcome(initialize_outcome(s, a).0) == Ok::<Seq<u8>, BrokerError>(a),
{
}

/// Initializing a second time is refused and leaves the state, and so the
/// first admin, as it was.
pub proof fn lemma_initialize_twice_refused(s: BrokerState, a: Seq<u8>, b: Seq<u8>)
    ensures
        ({
            let t = initialize_outcome(s, a).0;
            &&& initialize_outcome(t, b) == (t, Err::<(), BrokerError>(BrokerError::AlreadyInitialized))
            &&& admin_outcome(t) is Ok
        }),
{
}

/// Before `initialize`, `admin()` is refused.
pub proof fn lemma_admin_before_initialize(s: BrokerState)
    requires
        s.admin is None,
    ensures
        admin_outcome(s) == Err::<Seq<u8>, BrokerError>(BrokerError::NotInitialized),
{
}

/// Outside a dispatch, `subscribe` succeeds and the subscription is then held.
pub proof fn lemma_subscribe_then_subscribed(s: BrokerState, k: SubscriptionKey)
    requires
        !s.notifying,
    ensures
        subscribe_outcome(s, k).1 is Ok,
        subscribe_outcome(s, k).0.subscriptions.contains(k),
{
}

/// Subscribing twice is the same as subscribing once: the second call
/// answers as the first did and changes nothing.
pub proof fn lemma_subscribe_idempotent(s: BrokerState, k: SubscriptionKey)
    ensures
        subscribe_outcome(subscribe_outcome(s, k).0, k) == subscribe_outcome(s, k),
{
    assert(s.subscriptions.insert(k).insert(k) =~= s.subscriptions.insert(k));
}

/// `unsubscribe` undoes `subscribe`: after subscribing, unsubscribing
/// succeeds, the subscription is gone, and a subscription that was new leaves
/// the broker as it was before.
pub proof fn lemma_unsubscribe_undoes_subscribe(s: BrokerState, k: SubscriptionKey)
    requires
        !s.notifying,
    ensures
        ({
            let t = subscribe_outcome(s, k).0;
            let u = unsubscribe_outcome(t, k);
            &&& u.1 is Ok
            &&& !u.0.subscriptions.contains(k)
            &&& !s.subscriptions.contains(k) ==> u.0 == s
        }),
{
    if !s.subscriptions.contains(k) {
        assert(s.subscriptions.insert(k).remove(k) =~= s.subscriptions);
    }
}

/// Unsubscribing from a subscription that does not exist is refused and
/// changes nothing.
pub proof fn lemma_unsubscribe_missing_refused(s: BrokerState, k: SubscriptionKey)
    requires
        !s.notifying,
        !s.subscriptions.contains(k),
    ensures
        unsubscribe_outcome(s, k) == (s, Err::<(), BrokerError>(BrokerError::SubscriptionNotFound)),
{
}

/// `unsubscribe` removes one subscription and leaves every other one as it
/// was.
pub proof fn lemma_unsubscribe_keeps_others(s: BrokerState, k: SubscriptionKey, j: SubscriptionKey)
    requires
        j != k,
    ensures
        unsubscribe_outcome(s, k).0.subscriptions.contains(j) == s.subscriptions.contains(j),
{
}

/// Subscribe, unsubscribe, subscribe again: each step succeeds, and the end
/// state is the one a single `subscribe` gives.
pub proof fn lemma_resubscribe_cycle(s: BrokerState, k: SubscriptionKey)
    requires
        !s.notifying,
    ensures
        ({
            let t1 = subscribe_outcome(s, k);
            let t2 = unsubscribe_outcome(t1.0, k);
            let t3 = subscribe_outcome(t2.0, k);
            &&& t1.1 is Ok && t2.1 is Ok && t3.1 is Ok
            &&& !t2.0.subscriptions.contains(k)
            &&& t3.0 == t1.0
        }),
{
    assert(s.subscriptions.insert(k).remove(k).insert(k) =~= s.subscriptions.insert(k));
}

/// A broker without subscriptions has no listener for any source.
pub proof fn lemma_no_listeners_without_subscriptions(source: Seq<u8>)
    ensures
        listeners_of(Set::empty(), source) == Set::<Seq<u8>>::empty(),
{
    assert(listeners_of(Set::empty(), source) =~= Set::<Seq<u8>>::empty());
}

/// A subscription adds its listener to the listeners of its source, whatever
/// its event type, and changes the listeners of no other source.
pub proof fn lemma_listeners_after_subscribe(subs: Set<SubscriptionKey>, k: SubscriptionKey, source: Seq<u8>)
    ensures
        listeners_of(subs.insert(k), source) == if k.source == source {
            listeners_of(subs, source).insert(k.listener)
        } else {
            listeners_of(subs, source)
        },
{
    let a = listeners_of(subs.insert(k), source);
    let b = if k.source == source { listeners_of(subs, source).insert(k.listener) } else { listeners_of(subs, source) };
    assert forall|l: Seq<u8>| #[trigger] a.contains(l) == b.contains(l) by {
        if a.contains(l) {
            let m = choose|m: SubscriptionKey| #[trigger] subs.insert(k).contains(m) && selects(m, source, None) && m.listener == l;
            if m != k {
                assert(subs.contains(m));
            }
        }
        if b.contains(l) {
            if k.source == source && l == k.listener {
                assert(subs.insert(k).contains(k));
            } else {
                let m = choose|m: SubscriptionKey| #[trigger] subs.contains(m) && selects(m, source, None) && m.listener == l;
                assert(subs.insert(k).contains(m));
            }
        }
    }
    assert(a =~= b);
}

/// A subscription adds its listener to the recipients of an event exactly
/// when it is for that source and for that event type or for all events;
/// otherwise the recipients are unchanged. So a wildcard subscriber receives
/// every event of its source, a subscriber to one event type receives no
/// other, and subscriptions to other sources play no part.
pub proof fn lemma_recipients_after_subscribe(
    subs: Set<SubscriptionKey>,
    k: SubscriptionKey,
    source: Seq<u8>,
    event_type: Seq<u8>,
)
    ensures
        recipients(subs.insert(k), source, event_type) == if selects(k, source, Some(event_type)) {
            recipients(subs, source, event_type).insert(k.listener)
        } else {
            recipients(subs, source, event_type)
        },
{
    let f = Some(event_type);
    let a = recipients(subs.insert(k), source, event_type);
    let b = if selects(k, source, f) { recipients(subs, source, event_type).insert(k.listener) } else { recipients(subs, source, event_type) };
    assert forall|l: Seq<u8>| #[trigger] a.contains(l) == b.contains(l) by {
        if a.contains(l) {
            let m = choose|m: SubscriptionKey| #[trigger] subs.insert(k).contains(m) && selects(m, source, f) && m.listener == l;
            if m != k {
                assert(subs.contains(m));
            }
        }
        if b.contains(l) {
            if selects(k, source, f) && l == k.listener {
                assert(subs.insert(k).contains(k));
            } else {
                let m = choose|m: SubscriptionKey| #[trigger] subs.contains(m) && selects(m, source, f) && m.listener == l;
                assert(subs.insert(k).contains(m));
            }
        }
    }
    assert(a =~= b);
}

/// A listener subscribed to all events of a source receives every event of
/// that source.
pub proof fn lemma_wildcard_receives_every_event(
    subs: Set<SubscriptionKey>,
    listener: Seq<u8>,
    source: Seq<u8>,
    event_type: Seq<u8>,
)
    requires
        subs.contains(key_of(listener, source, None)),
    ensures
        recipients(subs, source, event_type).contains(listener),
{
    assert(selects(key_of(listener, source, None), source, Some(event_type)));
}

/// Every recipient of an event is a listener of its source: no subscription
/// to another source receives it.
pub proof fn lemma_recipients_listen_to_source(subs: Set<SubscriptionKey>, source: Seq<u8>, event_type: Seq<u8>)
    ensures
        recipients(subs, source, event_type).subset_of(listeners_of(subs, source)),
{
    assert forall|l: Seq<u8>| #[trigger] recipients(subs, source, event_type).contains(l) implies listeners_of(subs, source).contains(l) by {
        let m = choose|m: SubscriptionKey| #[trigger] subs.contains(m) && selects(m, source, Some(event_type)) && m.listener == l;
        assert(selects(m, source, None));
    }
}

/// A dispatch that begins and finishes leaves an idle broker as it found
/// it, so the next notification, and any subscription change, is accepted
/// again; while it runs, subscription changes are refused.
pub proof fn lemma_dispatch_restores_state(s: BrokerState, listeners: Set<Seq<u8>>, k: SubscriptionKey)
    requires
        !s.notifying,
        s.pending == Set::<Seq<u8>>::empty(),
    ensures
        released(guarded(s, listeners)) == s,
        subscribe_outcome(guarded(s, listeners), k) == (guarded(s, listeners), Err::<(), BrokerError>(BrokerError::Reentrant)),
        unsubscribe_outcome(guarded(s, listeners), k) == (guarded(s, listeners), Err::<(), BrokerError>(BrokerError::Reentrant)),
{
}

/// Best-effort count: a dispatch that `begin_notify` starts records as its
/// listeners exactly the distinct recipients of the event, so the count that
/// `finish_notify` then returns is their number, whatever each listener
/// answered.
pub proof fn lemma_dispatch_counts_recipients(s: BrokerState, source: Seq<u8>, event_type: Seq<u8>)
    ensures
        guarded(s, recipients(s.subscriptions, source, event_type)).pending.len()
            == recipients(s.subscriptions, source, event_type).len(),
        released(guarded(s, recipients(s.subscriptions, source, event_type))).subscriptions == s.subscriptions,
{
}

/// A subscription key holds exactly the listener, source and event type it
/// is made of, and optional bytes are seen as the bytes they hold.
pub proof fn lemma_key_fields(listener: Seq<u8>, source: Seq<u8>, event_type: Option<Seq<u8>>, v: Vec<u8>)
    ensures
        key_of(listener, source, event_type).listener == listener,
        key_of(listener, source, event_type).source == source,
        key_of(listener, source, event_type).event_type == event_type,
        opt_bytes(Some(v)) == Some(v@),
        opt_bytes(None) == None::<Seq<u8>>,
{
}

/// Who receives an event: a listener is a recipient of an event of type `e`
/// from `source` exactly when it holds a subscription to that source for all
/// its events or for events of type `e` itself. A subscription to another
/// event type, however alike, does not make it one.
pub proof fn lemma_recipients_exact(subs: Set<SubscriptionKey>, source: Seq<u8>, e: Seq<u8>, l: Seq<u8>)
    ensures
        recipients(subs, source, e).contains(l) <==> (subs.contains(key_of(l, source, None)) || subs.contains(
            key_of(l, source, Some(e)),
        )),
{
    if recipients(subs, source, e).contains(l) {
        let k = choose|k: SubscriptionKey| #[trigger] subs.contains(k) && selects(k, source, Some(e)) && k.listener == l;
        if k.event_type is None {
            assert(k == key_of(l, source, None));
        } else {
            assert(k == key_of(l, source, Some(e)));
        }
    }
    if subs.contains(key_of(l, source, None)) {
        assert(selects(key_of(l, source, None), source, Some(e)));
    }
    if subs.contains(key_of(l, source, Some(e))) {
        assert(selects(key_of(l, source, Some(e)), source, Some(e)));
    }
}

/// A subscription for one event type is selected for an event only when the
/// event has that very type.
pub proof fn lemma_specific_subscription_matches_only_its_type(l: Seq<u8>, source: Seq<u8>, t: Seq<u8>, e: Seq<u8>)
    ensures
        selects(key_of(l, source, Some(t)), source, Some(e)) <==> t == e,
        recipients(set![key_of(l, source, Some(t))], source, e).contains(l) <==> t == e,
{
    lemma_recipients_exact(set![key_of(l, source, Some(t))], source, e, l);
}

/// The listeners of a source are exactly those that hold some subscription
/// to it, for all its events or for some event type.
pub proof fn lemma_listeners_exact(subs: Set<SubscriptionKey>, source: Seq<u8>, l: Seq<u8>)
    ensures
        listeners_of(subs, source).contains(l) <==> (exists|e: Option<Seq<u8>>| #[trigger] subs.contains(key_of(l, source, e))),
{
    if listeners_of(subs, source).contains(l) {
        let k = choose|k: SubscriptionKey| #[trigger] subs.contains(k) && selects(k, source, None) && k.listener == l;
        assert(k == key_of(l, source, k.event_type));
    }
    if exists|e: Option<Seq<u8>>| #[trigger] subs.contains(key_of(l, source, e)) {
        let e = choose|e: Option<Seq<u8>>| #[trigger] subs.contains(key_of(l, source, e));
        assert(selects(key_of(l, source, e), source, None));
    }
}

/// `admin()` answers the admin the broker holds, whichever way it came to
/// hold it (by `initialize` or by `restore`), and refuses when it holds none.
pub proof fn lemma_admin_answers_held_admin(s: BrokerState)
    ensures
        s.admin matches Some(a) ==> admin_outcome(s) == Ok::<Seq<u8>, BrokerError>(a),
        s.admin is None ==> admin_outcome(s) == Err::<Seq<u8>, BrokerError>(BrokerError::NotInitialized),
{
}

/// `initialize(a)` on a broker without admin makes it hold `a` itself, and
/// changes nothing else.
pub proof fn lemma_initialize_holds_given_admin(s: BrokerState, a: Seq<u8>)
    requires
        s.admin is None,
    ensures
        initialize_outcome(s, a).0.admin == Some(a),
        initialize_outcome(s, a).0.subscriptions == s.subscriptions,
        initialize_outcome(s, a).0.notifying == s.notifying,
        initialize_outcome(s, a).0.pending == s.pending,
{
}

/// `subscribe` adds exactly the one subscription and changes nothing else.
pub proof fn lemma_subscribe_adds_exactly(s: BrokerState, k: SubscriptionKey, j: SubscriptionKey)
    requires
        !s.notifying,
    ensures
        subscribe_outcome(s, k).0.subscriptions.contains(j) <==> (j == k || s.subscriptions.contains(j)),
        subscribe_outcome(s, k).0.admin == s.admin,
        subscribe_outcome(s, k).0.notifying == s.notifying,
        subscribe_outcome(s, k).0.pending == s.pending,
{
}

/// A successful `unsubscribe` removes exactly the one subscription and
/// changes nothing else.
pub proof fn lemma_unsubscribe_removes_exactly(s: BrokerState, k: SubscriptionKey, j: SubscriptionKey)
    requires
        !s.notifying,
        s.subscriptions.contains(k),
    ensures
        unsubscribe_outcome(s, k).1 is Ok,
        unsubscribe_outcome(s, k).0.subscriptions.contains(j) <==> (j != k && s.subscriptions.contains(j)),
        unsubscribe_outcome(s, k).0.admin == s.admin,
        unsubscribe_outcome(s, k).0.notifying == s.notifying,
        unsubscribe_outcome(s, k).0.pending == s.pending,
{
}

/// A dispatch records the listeners it is given and takes the guard; its end
/// drops them and releases the guard; neither touches the admin or the
/// subscriptions.
pub proof fn lemma_dispatch_fields(s: BrokerState, listeners: Set<Seq<u8>>)
    ensures
        guarded(s, listeners).pending == listeners,
        guarded(s, listeners).notifying,
        guarded(s, listeners).admin == s.admin,
        guarded(s, listeners).subscriptions == s.subscriptions,
        released(s).pending.len() == 0,
        !released(s).notifying,
        released(s).admin == s.admin,
        released(s).subscriptions == s.subscriptions,
{
}

} // verus!
