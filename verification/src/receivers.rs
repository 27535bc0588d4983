//! Reference subscribers: one that accepts notifications, one that rejects
//! them, and one that traps. They show how listeners may answer a delivery,
//! which the broker tolerates in every case.
//!
//! `on_notify` is the receiver's entry point. `try_on_notify` is how a call
//! to it ends as seen from the caller: `None` when the receiver traps,
//! otherwise what it returned. The trapping receiver has no `on_notify` here:
//! a function that never returns has no contract that a caller could meet.

use vstd::prelude::*;
use crate::notification::Notification;
use crate::sdk::{address_strkey, bytes_contents, bytes_len, text_is_empty};

verus! {

/// A subscriber that accepts every notification that names its source and
/// carries data.
pub struct MockReceiverSuccess;

/// A subscriber that rejects every notification with code 500.
pub struct MockReceiverFailure;

/// A subscriber that traps on every notification.
pub struct MockReceiverPanic;

/// Whether a notification carries data.
pub open spec fn has_data(n: Notification) -> bool {
    bytes_contents(n.data).len() > 0
}

impl MockReceiverSuccess {
    /// Accepts the notification. The receiver checks that the source's
    /// strkey is not empty and that the data is not; it traps otherwise,
    /// which the precondition rules out.
    pub fn on_notify(_env: soroban_sdk::Env, notification: Notification) -> (r: Result<(), u32>)
        requires
            has_data(notification),
        ensures
            r == Ok::<(), u32>(()),
    {
        let source_key = address_strkey(&notification.source);
        let unnamed = text_is_empty(&source_key);
        let size = bytes_len(&notification.data);
        assert(!unnamed && size > 0);
        Ok(())
    }

    /// The outcome of a call to [`Self::on_notify`]: it traps on a
    /// notification without data.
    pub fn try_on_notify(env: soroban_sdk::Env, notification: Notification) -> (r: Option<Result<(), u32>>)
        ensures
            r == if has_data(notification) { Some(Ok::<(), u32>(())) } else { None },
            bytes_contents(notification.data).len() > 0 ==> r == Some(Ok::<(), u32>(())),
            bytes_contents(notification.data).len() == 0 ==> r is None,
    {
        if bytes_len(&notification.data) == 0 {
            None
        } else {
            Some(Self::on_notify(env, notification))
        }
    }
}

impl MockReceiverFailure {
    /// Rejects the notification with code 500.
    pub fn on_notify(_env: soroban_sdk::Env, _notification: Notification) -> (r: Result<(), u32>)
        ensures
            r == Err::<(), u32>(500),
    {
        Err(500)
    }

    /// The outcome of a call to [`Self::on_notify`]: always the rejection.
    pub fn try_on_notify(env: soroban_sdk::Env, notification: Notification) -> (r: Option<Result<(), u32>>)
        ensures
            r == Some(Err::<(), u32>(500)),
    {
        Some(Self::on_notify(env, notification))
    }
}

impl MockReceiverPanic {
    /// The outcome of a call to this receiver: it always traps, so the call
    /// never returns a value.
    pub fn try_on_notify(_env: soroban_sdk::Env, _notification: Notification) -> (r: Option<Result<(), u32>>)
        ensures
            r is None,
    {
        None
    }
}

/// The accepting receiver needs nothing of a notification but data: every
/// notification that holds at least one byte, whatever its size, meets
/// [`has_data`], and only those do.
pub proof fn lemma_success_accepts_any_data(n: Notification)
    ensures
        has_data(n) <==> bytes_contents(n.data).len() >= 1,
{
}

} // verus!
