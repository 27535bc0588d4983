//! The subscription registry of the notification broker, and the routing of a
//! published notification to its listeners.
//!
//! Addresses are held as the bytes of their strkey and event types as the
//! bytes of the symbol's text: the broker only ever compares them for
//! equality. A subscription with no event type is a wildcard: it receives
//! every event of its source.
//!
//! Delivery is best effort. [`NotificationBroker::begin_notify`] checks the
//! source's authorization, takes the reentrancy guard and returns the distinct
//! listeners to call; the caller invokes each of them, whatever each answers,
//! and hands the dispatch back to [`NotificationBroker::finish_notify`], which
//! releases the guard and returns how many listeners were notified.

use vstd::prelude::*;

verus! {

/// A subscription, as the broker's specification sees it.
pub struct SubscriptionKey {
    pub listener: Seq<u8>,
    pub source: Seq<u8>,
    /// `None`: every event of the source.
    pub event_type: Option<Seq<u8>>,
}

/// The abstract state of a broker.
pub struct BrokerState {
    pub admin: Option<Seq<u8>>,
    pub subscriptions: Set<SubscriptionKey>,
    /// Whether a notification is being dispatched (the reentrancy guard).
    pub notifying: bool,
    /// The listeners called in the dispatch under way; none outside one.
    pub pending: Set<Seq<u8>>,
}

/// Why a broker operation was refused.
#[derive(Debug, Clone, Copy, PartialEq, Eq, Structural)]
pub enum BrokerError {
    /// `initialize` was called on a broker that has an admin.
    AlreadyInitialized,
    /// The admin was asked for before `initialize`.
    NotInitialized,
    /// `unsubscribe` named a subscription that does not exist.
    SubscriptionNotFound,
    /// The source did not authorize the notification.
    Unauthorized,
    /// A state-changing call arrived while a notification is being dispatched.
    Reentrant,
}

/// The view of optional bytes.
pub open spec fn opt_bytes(o: Option<Vec<u8>>) -> Option<Seq<u8>> {
    match o {
        Some(v) => Some(v@),
        None => None,
    }
}

/// The views of a sequence of byte strings.
pub open spec fn byte_strings(v: Seq<Vec<u8>>) -> Seq<Seq<u8>> {
    v.map_values(|b: Vec<u8>| b@)
}

/// The key of a subscription of `listener` to `source` for `event_type`.
pub open spec fn key_of(listener: Seq<u8>, source: Seq<u8>, event_type: Option<Seq<u8>>) -> SubscriptionKey {
    SubscriptionKey { listener, source, event_type }
}

/// Whether subscription `k` is selected for `source` under `filter`: with no
/// filter every subscription to the source is; with an event type, those for
/// that event type and the wildcard ones.
pub open spec fn selects(k: SubscriptionKey, source: Seq<u8>, filter: Option<Seq<u8>>) -> bool {
    &&& k.source == source
    &&& match filter {
        None => true,
        Some(e) => k.event_type == Some(e) || k.event_type is None,
    }
}

/// The listeners of the subscriptions that `filter` selects for `source`.
pub open spec fn selected_listeners(
    subs: Set<SubscriptionKey>,
    source: Seq<u8>,
    filter: Option<Seq<u8>>,
) -> Set<Seq<u8>> {
    Set::new(
        |l: Seq<u8>|
            exists|k: SubscriptionKey| #[trigger] subs.contains(k) && selects(k, source, filter) && k.listener == l,
    )
}

/// The listeners that hold any subscription to `source`.
pub open spec fn listeners_of(subs: Set<SubscriptionKey>, source: Seq<u8>) -> Set<Seq<u8>> {
    selected_listeners(subs, source, None)
}

/// The listeners that an event of `event_type` from `source` is delivered to:
/// those subscribed to that event type of the source, or to all its events.
pub open spec fn recipients(subs: Set<SubscriptionKey>, source: Seq<u8>, event_type: Seq<u8>) -> Set<Seq<u8>> {
    selected_listeners(subs, source, Some(event_type))
}

/// What `initialize(admin)` leaves and returns: the admin is set once, and
/// a broker that has one refuses.
pub open spec fn initialize_outcome(s: BrokerState, admin: Seq<u8>) -> (BrokerState, Result<(), BrokerError>) {
    match s.admin {
        Some(_) => (s, Err(BrokerError::AlreadyInitialized)),
        None => (BrokerState { admin: Some(admin), ..s }, Ok(())),
    }
}

/// What `admin()` returns.
pub open spec fn admin_outcome(s: BrokerState) -> Result<Seq<u8>, BrokerError> {
    match s.admin {
        Some(a) => Ok(a),
        None => Err(BrokerError::NotInitialized),
    }
}

/// What `subscribe` leaves and returns: the subscription is added (a set
/// holds it once), unless a dispatch is under way.
pub open spec fn subscribe_outcome(s: BrokerState, k: SubscriptionKey) -> (BrokerState, Result<(), BrokerError>) {
    if s.notifying {
        (s, Err(BrokerError::Reentrant))
    } else {
        (BrokerState { subscriptions: s.subscriptions.insert(k), ..s }, Ok(()))
    }
}

/// What `unsubscribe` leaves and returns: the subscription is removed, or the
/// call is refused when it does not exist or a dispatch is under way.
pub open spec fn unsubscribe_outcome(s: BrokerState, k: SubscriptionKey) -> (BrokerState, Result<(), BrokerError>) {
    if s.notifying {
        (s, Err(BrokerError::Reentrant))
    } else if !s.subscriptions.contains(k) {
        (s, Err(BrokerError::SubscriptionNotFound))
    } else {
        (BrokerState { subscriptions: s.subscriptions.remove(k), ..s }, Ok(()))
    }
}

/// The state while a notification is dispatched to `listeners`.
pub open spec fn guarded(s: BrokerState, listeners: Set<Seq<u8>>) -> BrokerState {
    BrokerState { notifying: true, pending: listeners, ..s }
}

/// The state once a dispatch is over.
pub open spec fn released(s: BrokerState) -> BrokerState {
    BrokerState { notifying: false, pending: Set::empty(), ..s }
}

/// A subscription as stored: the listener's and the source's strkey bytes,
/// and the event type's bytes (`None`: all events of the source).
pub struct Subscription {
    pub listener: Vec<u8>,
    pub source: Vec<u8>,
    pub event_type: Option<Vec<u8>>,
}

impl View for Subscription {
    type V = SubscriptionKey;

    open spec fn view(&self) -> SubscriptionKey {
        key_of(self.listener@, self.source@, opt_bytes(self.event_type))
    }
}

/// The keys of a sequence of stored subscriptions.
pub open spec fn keys(s: Seq<Subscription>) -> Seq<SubscriptionKey> {
    s.map_values(|x: Subscription| x@)
}

/// The registry of a notification broker.
pub struct NotificationBroker {
    admin: Option<Vec<u8>>,
    subscriptions: Vec<Subscription>,
    notifying: bool,
    /// The listeners of the dispatch under way.
    pending: Vec<Vec<u8>>,
}

impl View for NotificationBroker {
    type V = BrokerState;

    closed spec fn view(&self) -> BrokerState {
        BrokerState {
            admin: opt_bytes(self.admin),
            subscriptions: keys(self.subscriptions@).to_set(),
            notifying: self.notifying,
            pending: byte_strings(self.pending@).to_set(),
        }
    }
}

/// A copy of `v`.
fn copy_bytes(v: &Vec<u8>) -> (r: Vec<u8>)
    ensures
        r@ == v@,
{
    let r = v.clone();
    assert(r@ =~= v@);
    r
}

/// A copy of `v`.
fn copy_opt_bytes(v: &Option<Vec<u8>>) -> (r: Option<Vec<u8>>)
    ensures
        opt_bytes(r) == opt_bytes(*v),
{
    match v {
        Some(b) => Some(copy_bytes(b)),
        None => None,
    }
}

/// Whether `a` and `b` hold the same bytes.
fn same_bytes(a: &Vec<u8>, b: &Vec<u8>) -> (r: bool)
    ensures
        r == (a@ == b@),
{
    let n = a.len();
    if n != b.len() {
        return false;
    }
    let mut i: usize = 0;
    while i < n
        invariant
            n == a.len(),
            n == b.len(),
            i <= n,
            forall|j: int| 0 <= j < i ==> a@[j] == b@[j],
        decreases n - i,
    {
        if a[i] != b[i] {
            return false;
        }
        i = i + 1;
    }
    assert(a@ =~= b@);
    true
}

/// Whether `a` and `b` are both absent or hold the same bytes.
fn same_opt_bytes(a: &Option<Vec<u8>>, b: &Option<Vec<u8>>) -> (r: bool)
    ensures
        r == (opt_bytes(*a) == opt_bytes(*b)),
{
    match (a, b) {
        (Some(x), Some(y)) => same_bytes(x, y),
        (None, None) => true,
        _ => false,
    }
}

proof fn lemma_keys_push(s: Seq<Subscription>, x: Subscription)
    ensures
        keys(s.push(x)) == keys(s).push(x@),
{
    assert(keys(s.push(x)) =~= keys(s).push(x@));
}

proof fn lemma_keys_remove(s: Seq<Subscription>, i: int)
    requires
        0 <= i < s.len(),
    ensures
        keys(s.remove(i)) == keys(s).remove(i),
{
    assert(keys(s.remove(i)) =~= keys(s).remove(i));
}

/// Removing the element at `i` from a sequence without duplicates removes
/// exactly that element from its set.
proof fn lemma_remove_to_set<A>(s: Seq<A>, i: int)
    requires
        s.no_duplicates(),
        0 <= i < s.len(),
    ensures
        s.remove(i).to_set() == s.to_set().remove(s[i]),
        s.remove(i).no_duplicates(),
{
    let r = s.remove(i);
    assert forall|a: A| #[trigger] r.to_set().contains(a) == s.to_set().remove(s[i]).contains(a) by {
        if r.contains(a) {
            let j = choose|j: int| 0 <= j < r.len() && r[j] == a;
            if j < i {
                assert(s[j] == a);
            } else {
                assert(s[j + 1] == a);
            }
        }
        if s.contains(a) && a != s[i] {
            let j = choose|j: int| 0 <= j < s.len() && s[j] == a;
            if j < i {
                assert(r[j] == a);
            } else {
                assert(r[j - 1] == a);
            }
        }
    }
    assert(r.to_set() =~= s.to_set().remove(s[i]));
}

/// The listeners of the first `i` keys of `ks` that `filter` selects for `source`.
spec fn selected_prefix(ks: Seq<SubscriptionKey>, i: int, source: Seq<u8>, filter: Option<Seq<u8>>) -> Set<Seq<u8>> {
    Set::new(
        |l: Seq<u8>|
            exists|j: int| 0 <= j < i && #[trigger] selects(ks[j], source, filter) && ks[j].listener == l,
    )
}

proof fn lemma_selected_prefix_full(ks: Seq<SubscriptionKey>, source: Seq<u8>, filter: Option<Seq<u8>>)
    ensures
        selected_prefix(ks, ks.len() as int, source, filter) == selected_listeners(ks.to_set(), source, filter),
{
    let a = selected_prefix(ks, ks.len() as int, source, filter);
    let b = selected_listeners(ks.to_set(), source, filter);
    assert forall|l: Seq<u8>| #[trigger] a.contains(l) == b.contains(l) by {
        if a.contains(l) {
            let j = choose|j: int| 0 <= j < ks.len() && #[trigger] selects(ks[j], source, filter) && ks[j].listener == l;
            assert(ks.to_set().contains(ks[j]));
        }
        if b.contains(l) {
            let k = choose|k: SubscriptionKey| #[trigger] ks.to_set().contains(k) && selects(k, source, filter) && k.listener == l;
            let j = choose|j: int| 0 <= j < ks.len() && ks[j] == k;
            assert(selects(ks[j], source, filter));
        }
    }
    assert(a =~= b);
}

proof fn lemma_byte_strings_push(v: Seq<Vec<u8>>, x: Vec<u8>)
    ensures
        byte_strings(v.push(x)) == byte_strings(v).push(x@),
{
    assert(byte_strings(v.push(x)) =~= byte_strings(v).push(x@));
}

/// Whether `v` holds a byte string equal to `x`.
fn holds(v: &Vec<Vec<u8>>, x: &Vec<u8>) -> (r: bool)
    ensures
        r == byte_strings(v@).contains(x@),
{
    let n = v.len();
    let mut i: usize = 0;
    while i < n
        invariant
            n == v@.len(),
            i <= n,
            forall|j: int| 0 <= j < i ==> byte_strings(v@)[j] != x@,
        decreases n - i,
    {
        if same_bytes(&v[i], x) {
            assert(byte_strings(v@)[i as int] == x@);
            return true;
        }
        i = i + 1;
    }
    false
}

/// The distinct byte strings of `v`.
fn distinct_byte_strings(v: &Vec<Vec<u8>>) -> (r: Vec<Vec<u8>>)
    ensures
        byte_strings(r@).no_duplicates(),
        byte_strings(r@).to_set() == byte_strings(v@).to_set(),
        r@.len() <= v@.len(),
{
    let ghost bv = byte_strings(v@);
    let n = v.len();
    let mut r: Vec<Vec<u8>> = Vec::new();
    let mut i: usize = 0;
    assert(byte_strings(r@).to_set() =~= bv.subrange(0, 0).to_set());
    while i < n
        invariant
            n == v@.len(),
            bv == byte_strings(v@),
            i <= n,
            r@.len() <= i,
            byte_strings(r@).no_duplicates(),
            byte_strings(r@).to_set() == bv.subrange(0, i as int).to_set(),
        decreases n - i,
    {
        let ghost prefix = bv.subrange(0, i as int);
        assert(bv.subrange(0, i + 1) =~= prefix.push(bv[i as int]));
        proof {
            prefix.lemma_push_to_set_commute(bv[i as int]);
        }
        if holds(&r, &v[i]) {
            assert(byte_strings(r@).to_set().contains(v@[i as int]@));
            assert(prefix.to_set().insert(bv[i as int]) =~= prefix.to_set());
        } else {
            let ghost old_r = r@;
            r.push(copy_bytes(&v[i]));
            proof {
                lemma_byte_strings_push(old_r, r@[r@.len() - 1]);
                byte_strings(old_r).lemma_push_to_set_commute(v@[i as int]@);
            }
        }
        i = i + 1;
    }
    assert(bv.subrange(0, n as int) =~= bv);
    r
}

/// Whether a subscription for `event_type` passes `filter` (see [`selects`]).
fn passes_filter(event_type: &Option<Vec<u8>>, filter: &Option<Vec<u8>>) -> (r: bool)
    ensures
        r == match opt_bytes(*filter) {
            None => true,
            Some(e) => opt_bytes(*event_type) == Some(e) || opt_bytes(*event_type) is None,
        },
{
    match filter {
        None => true,
        Some(e) => match event_type {
            None => true,
            Some(t) => same_bytes(t, e),
        },
    }
}

impl NotificationBroker {
    /// The broker's internal invariant: no subscription is stored twice, and
    /// there are no more of them than a Soroban vector can count; the same of
    /// the listeners of a dispatch, of which there are none outside one.
    pub closed spec fn wf(&self) -> bool {
        &&& keys(self.subscriptions@).no_duplicates()
        &&& self.subscriptions@.len() <= u32::MAX
        &&& byte_strings(self.pending@).no_duplicates()
        &&& self.pending@.len() <= u32::MAX
        &&& !self.notifying ==> self.pending@.len() == 0
    }

    /// An uninitialized broker with no subscription.
    pub fn new() -> (b: Self)
        ensures
            b.wf(),
            b@ == (BrokerState { admin: None, subscriptions: Set::empty(), notifying: false, pending: Set::empty() }),
    {
        let b = NotificationBroker { admin: None, subscriptions: Vec::new(), notifying: false, pending: Vec::new() };
        assert(keys(b.subscriptions@).to_set() =~= Set::empty());
        assert(byte_strings(b.pending@).to_set() =~= Set::empty());
        b
    }

    /// The position of the subscription with the given key, if it is stored.
    fn find(
        &self,
        listener: &Vec<u8>,
        source: &Vec<u8>,
        event_type: &Option<Vec<u8>>,
    ) -> (r: Option<usize>)
        ensures
            match r {
                Some(i) => i < self.subscriptions@.len()
                    && keys(self.subscriptions@)[i as int] == key_of(listener@, source@, opt_bytes(*event_type)),
                None => !keys(self.subscriptions@).contains(key_of(listener@, source@, opt_bytes(*event_type))),
            },
    {
        let ghost k = key_of(listener@, source@, opt_bytes(*event_type));
        let n = self.subscriptions.len();
        let mut i: usize = 0;
        while i < n
            invariant
                n == self.subscriptions@.len(),
                i <= n,
                k == key_of(listener@, source@, opt_bytes(*event_type)),
                forall|j: int| 0 <= j < i ==> keys(self.subscriptions@)[j] != k,
            decreases n - i,
        {
            let s = &self.subscriptions[i];
            if same_bytes(&s.listener, listener) && same_bytes(&s.source, source)
                && same_opt_bytes(&s.event_type, event_type) {
                return Some(i);
            }
            i = i + 1;
        }
        None
    }

    /// The distinct listeners of the stored subscriptions that `filter`
    /// selects for `source`, in the order of their first subscription.
    fn collect(&self, source: &Vec<u8>, filter: &Option<Vec<u8>>) -> (r: Vec<Vec<u8>>)
        requires
            self.wf(),
        ensures
            byte_strings(r@).no_duplicates(),
            byte_strings(r@).to_set() == selected_listeners(self@.subscriptions, source@, opt_bytes(*filter)),
            r@.len() <= self.subscriptions@.len(),
    {
        let ghost ks = keys(self.subscriptions@);
        let ghost f = opt_bytes(*filter);
        let n = self.subscriptions.len();
        let mut r: Vec<Vec<u8>> = Vec::new();
        let mut i: usize = 0;
        assert(byte_strings(r@).to_set() =~= selected_prefix(ks, 0, source@, f));
        while i < n
            invariant
                n == self.subscriptions@.len(),
                ks == keys(self.subscriptions@),
                f == opt_bytes(*filter),
                i <= n,
                r@.len() <= i,
                byte_strings(r@).no_duplicates(),
                byte_strings(r@).to_set() == selected_prefix(ks, i as int, source@, f),
            decreases n - i,
        {
            let s = &self.subscriptions[i];
            assert(ks[i as int] == s@);
            let ghost before = selected_prefix(ks, i as int, source@, f);
            let ghost after = selected_prefix(ks, i + 1, source@, f);
            if same_bytes(&s.source, source) && passes_filter(&s.event_type, filter) {
                assert(selects(ks[i as int], source@, f));
                if holds(&r, &s.listener) {
                    assert forall|l: Seq<u8>| #[trigger] after.contains(l) == before.contains(l) by {
                        if after.contains(l) && l == s.listener@ {
                            let j = choose|j: int| 0 <= j < r@.len() && byte_strings(r@)[j] == l;
                            assert(byte_strings(r@).to_set().contains(l));
                        }
                        if after.contains(l) && l != s.listener@ {
                            let j = choose|j: int| 0 <= j < i + 1 && #[trigger] selects(ks[j], source@, f) && ks[j].listener == l;
                            assert(j < i);
                        }
                    }
                    assert(after =~= before);
                } else {
                    let ghost old_r = r@;
                    r.push(copy_bytes(&s.listener));
                    proof {
                        lemma_byte_strings_push(old_r, r@[r@.len() - 1]);
                        byte_strings(old_r).lemma_push_to_set_commute(s.listener@);
                        assert forall|l: Seq<u8>| #[trigger] after.contains(l) == before.insert(s.listener@).contains(l) by {
                            if after.contains(l) && l != s.listener@ {
                                let j = choose|j: int| 0 <= j < i + 1 && #[trigger] selects(ks[j], source@, f) && ks[j].listener == l;
                                assert(j < i);
                            }
                            if before.contains(l) {
                                let j = choose|j: int| 0 <= j < i && #[trigger] selects(ks[j], source@, f) && ks[j].listener == l;
                                assert(selects(ks[j], source@, f));
                            }
                        }
                        assert(after =~= before.insert(s.listener@));
                    }
                }
            } else {
                assert(!selects(ks[i as int], source@, f));
                assert forall|l: Seq<u8>| #[trigger] after.contains(l) == before.contains(l) by {
                    if after.contains(l) {
                        let j = choose|j: int| 0 <= j < i + 1 && #[trigger] selects(ks[j], source@, f) && ks[j].listener == l;
                        assert(j < i);
                    }
                    if before.contains(l) {
                        let j = choose|j: int| 0 <= j < i && #[trigger] selects(ks[j], source@, f) && ks[j].listener == l;
                        assert(selects(ks[j], source@, f));
                    }
                }
                assert(after =~= before);
            }
            i = i + 1;
        }
        proof {
            lemma_selected_prefix_full(ks, source@, f);
        }
        r
    }

    /// The distinct listeners that hold a subscription to `source`, whatever
    /// its event type.
    pub fn get_listeners_for_source(&self, source: &Vec<u8>) -> (r: Vec<Vec<u8>>)
        requires
            self.wf(),
        ensures
            byte_strings(r@).no_duplicates(),
            byte_strings(r@).to_set() == listeners_of(self@.subscriptions, source@),
    {
        self.collect(source, &None)
    }

    /// Starts the dispatch of an event of `event_type` published by `source`.
    /// The source must have authorized the call (`Unauthorized` otherwise),
    /// and no other dispatch may be under way (`Reentrant`). On success the
    /// reentrancy guard is taken, and the distinct listeners to call, those
    /// subscribed to this event type of the source or to all its events, are
    /// recorded as the dispatch's listeners and returned.
    pub fn begin_notify(&mut self, source: &Vec<u8>, event_type: &Vec<u8>, source_authorized: bool) -> (r: Result<Vec<Vec<u8>>, BrokerError>)
        requires
            old(self).wf(),
        ensures
            final(self).wf(),
            !source_authorized ==> r == Err::<Vec<Vec<u8>>, BrokerError>(BrokerError::Unauthorized) && final(self)@ == old(self)@,
            source_authorized && old(self)@.notifying ==> r == Err::<Vec<Vec<u8>>, BrokerError>(BrokerError::Reentrant) && final(self)@ == old(self)@,
            source_authorized && !old(self)@.notifying ==> {
                &&& r is Ok
                &&& final(self)@ == guarded(old(self)@, recipients(old(self)@.subscriptions, source@, event_type@))
                &&& byte_strings(r->Ok_0@).no_duplicates()
                &&& byte_strings(r->Ok_0@).to_set() == recipients(old(self)@.subscriptions, source@, event_type@)
                &&& r->Ok_0@.len() == recipients(old(self)@.subscriptions, source@, event_type@).len()
                &&& r->Ok_0@.len() <= u32::MAX
            },
    {
        if !source_authorized {
            return Err(BrokerError::Unauthorized);
        }
        if self.notifying {
            return Err(BrokerError::Reentrant);
        }
        let filter = Some(copy_bytes(event_type));
        let targets = self.collect(source, &filter);
        proof {
            byte_strings(targets@).unique_seq_to_set();
        }
        self.pending = distinct_byte_strings(&targets);
        self.notifying = true;
        Ok(targets)
    }

    /// Ends a dispatch: releases the reentrancy guard and returns how many
    /// listeners the dispatch called, that is the number of distinct
    /// recipients that `begin_notify` selected. Delivery is best effort, so
    /// every listener that was called counts, whatever it answered.
    pub fn finish_notify(&mut self) -> (count: u32)
        requires
            old(self).wf(),
        ensures
            final(self).wf(),
            final(self)@ == released(old(self)@),
            count == old(self)@.pending.len(),
    {
        proof {
            byte_strings(self.pending@).unique_seq_to_set();
        }
        let count = self.pending.len() as u32;
        self.pending = Vec::new();
        self.notifying = false;
        assert(byte_strings(self.pending@).to_set() =~= Set::empty());
        count
    }

    /// The distinct listeners of the dispatch under way.
    pub fn pending_listeners(&self) -> (r: Vec<Vec<u8>>)
        requires
            self.wf(),
        ensures
            byte_strings(r@).no_duplicates(),
            byte_strings(r@).to_set() == self@.pending,
    {
        distinct_byte_strings(&self.pending)
    }

    /// Whether a notification is being dispatched.
    pub fn notifying(&self) -> (r: bool)
        ensures
            r == self@.notifying,
    {
        self.notifying
    }

    /// The stored subscriptions, each once, in the order they were made.
    /// With [`Self::restore`] this is how a broker is saved and loaded.
    pub fn subscriptions(&self) -> (r: Vec<Subscription>)
        requires
            self.wf(),
        ensures
            keys(r@).no_duplicates(),
            keys(r@).to_set() == self@.subscriptions,
            r@.len() <= u32::MAX,
    {
        let n = self.subscriptions.len();
        let mut r: Vec<Subscription> = Vec::new();
        let mut i: usize = 0;
        while i < n
            invariant
                n == self.subscriptions@.len(),
                i <= n,
                keys(r@) == keys(self.subscriptions@).subrange(0, i as int),
            decreases n - i,
        {
            let s = &self.subscriptions[i];
            let c = Subscription {
                listener: copy_bytes(&s.listener),
                source: copy_bytes(&s.source),
                event_type: copy_opt_bytes(&s.event_type),
            };
            let ghost prev = r@;
            r.push(c);
            proof {
                lemma_keys_push(prev, c);
                assert(keys(r@) =~= keys(self.subscriptions@).subrange(0, i + 1));
            }
            i = i + 1;
        }
        assert(keys(r@) =~= keys(self.subscriptions@));
        r
    }

    /// A broker with the given admin, subscriptions and dispatch: `pending`
    /// is `None` outside a dispatch and the dispatch's listeners inside one.
    /// A subscription or listener listed twice is held once.
    pub fn restore(admin: Option<Vec<u8>>, subscriptions: &Vec<Subscription>, pending: Option<&Vec<Vec<u8>>>) -> (b: Self)
        requires
            subscriptions@.len() <= u32::MAX,
            pending matches Some(p) ==> p@.len() <= u32::MAX,
        ensures
            b.wf(),
            b@ == (BrokerState {
                admin: opt_bytes(admin),
                subscriptions: keys(subscriptions@).to_set(),
                notifying: pending is Some,
                pending: match pending {
                    Some(p) => byte_strings(p@).to_set(),
                    None => Set::empty(),
                },
            }),
    {
        let ghost ks = keys(subscriptions@);
        let mut b = NotificationBroker::new();
        let n = subscriptions.len();
        let mut i: usize = 0;
        assert(ks.subrange(0, 0).to_set() =~= Set::empty());
        while i < n
            invariant
                b.wf(),
                !b@.notifying,
                b@.pending == Set::<Seq<u8>>::empty(),
                b@.admin is None,
                n == subscriptions@.len(),
                ks == keys(subscriptions@),
                n <= u32::MAX,
                i <= n,
                b@.subscriptions == ks.subrange(0, i as int).to_set(),
            decreases n - i,
        {
            let s = &subscriptions[i];
            let ghost prefix = ks.subrange(0, i as int);
            proof {
                prefix.lemma_cardinality_of_set();
            }
            let _ = b.subscribe(copy_bytes(&s.listener), copy_bytes(&s.source), copy_opt_bytes(&s.event_type));
            proof {
                assert(ks.subrange(0, i + 1) =~= prefix.push(ks[i as int]));
                prefix.lemma_push_to_set_commute(ks[i as int]);
            }
            i = i + 1;
        }
        assert(ks.subrange(0, n as int) =~= ks);
        b.admin = admin;
        match pending {
            Some(p) => {
                b.pending = distinct_byte_strings(p);
                b.notifying = true;
            },
            None => {},
        }
        b
    }

    /// Sets the admin of an uninitialized broker; a broker that has one keeps
    /// it and refuses with `AlreadyInitialized`.
    pub fn initialize(&mut self, admin: Vec<u8>) -> (r: Result<(), BrokerError>)
        requires
            old(self).wf(),
        ensures
            final(self).wf(),
            (final(self)@, r) == initialize_outcome(old(self)@, admin@),
    {
        if self.admin.is_some() {
            return Err(BrokerError::AlreadyInitialized);
        }
        self.admin = Some(admin);
        Ok(())
    }

    /// The admin set by `initialize`; `NotInitialized` before it.
    pub fn admin(&self) -> (r: Result<Vec<u8>, BrokerError>)
        ensures
            match r {
                Ok(a) => admin_outcome(self@) == Ok::<Seq<u8>, BrokerError>(a@),
                Err(e) => admin_outcome(self@) == Err::<Seq<u8>, BrokerError>(e),
            },
    {
        match &self.admin {
            Some(a) => Ok(copy_bytes(a)),
            None => Err(BrokerError::NotInitialized),
        }
    }

    /// Whether `listener` holds exactly this subscription to `source`
    /// (`None`: the subscription to all of the source's events).
    pub fn is_subscribed(&self, listener: &Vec<u8>, source: &Vec<u8>, event_type: &Option<Vec<u8>>) -> (r: bool)
        ensures
            r == self@.subscriptions.contains(key_of(listener@, source@, opt_bytes(*event_type))),
    {
        self.find(listener, source, event_type).is_some()
    }

    /// Subscribes `listener` to the events of `event_type` from `source`
    /// (`None`: to all its events). Subscribing again is harmless: the
    /// subscription is held once. Refused while a notification is dispatched.
    pub fn subscribe(&mut self, listener: Vec<u8>, source: Vec<u8>, event_type: Option<Vec<u8>>) -> (r: Result<(), BrokerError>)
        requires
            old(self).wf(),
            old(self)@.subscriptions.contains(key_of(listener@, source@, opt_bytes(event_type)))
                || old(self)@.subscriptions.len() < u32::MAX,
        ensures
            final(self).wf(),
            (final(self)@, r) == subscribe_outcome(old(self)@, key_of(listener@, source@, opt_bytes(event_type))),
    {
        let ghost k = key_of(listener@, source@, opt_bytes(event_type));
        let ghost old_keys = keys(self.subscriptions@);
        proof {
            old_keys.unique_seq_to_set();
        }
        if self.notifying {
            return Err(BrokerError::Reentrant);
        }
        match self.find(&listener, &source, &event_type) {
            Some(_) => {
                assert(old_keys.to_set().insert(k) =~= old_keys.to_set());
                Ok(())
            },
            None => {
                let sub = Subscription { listener, source, event_type };
                assert(sub@ == k);
                self.subscriptions.push(sub);
                proof {
                    lemma_keys_push(old(self).subscriptions@, sub);
                    old_keys.lemma_push_to_set_commute(k);
                    assert(keys(self.subscriptions@).no_duplicates());
                }
                Ok(())
            },
        }
    }

    /// Removes the subscription of `listener` to `source` for `event_type`;
    /// `SubscriptionNotFound` when there is none, and the other subscriptions
    /// stay as they are. Refused while a notification is dispatched.
    pub fn unsubscribe(&mut self, listener: &Vec<u8>, source: &Vec<u8>, event_type: &Option<Vec<u8>>) -> (r: Result<(), BrokerError>)
        requires
            old(self).wf(),
        ensures
            final(self).wf(),
            (final(self)@, r) == unsubscribe_outcome(old(self)@, key_of(listener@, source@, opt_bytes(*event_type))),
    {
        if self.notifying {
            return Err(BrokerError::Reentrant);
        }
        match self.find(listener, source, event_type) {
            None => Err(BrokerError::SubscriptionNotFound),
            Some(i) => {
                let ghost old_subs = self.subscriptions@;
                self.subscriptions.remove(i);
                proof {
                    lemma_keys_remove(old_subs, i as int);
                    lemma_remove_to_set(keys(old_subs), i as int);
                }
                Ok(())
            },
        }
    }
}

} // verus!
