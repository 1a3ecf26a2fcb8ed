//! Waking whoever waits for something to happen.
use std::sync::Arc;
use tokio::sync::futures::OwnedNotified;
use tokio::sync::Notify;
use vstd::prelude::*;

verus! {

#[verifier::external_type_specification]
#[verifier::external_body]
pub struct ExNotify(Notify);

#[verifier::external_type_specification]
#[verifier::external_body]
pub struct ExOwnedNotified(OwnedNotified);

/// How many times `notify_waiters` has been called on `notify`.
pub uninterp spec fn notify_calls(notify: Notify) -> nat;

/// How many times `notify_waiters` had been called, on the `Notify` that `wait` waits for, when
/// `wait` was made. The next such call completes `wait`.
pub uninterp spec fn notified_since(wait: OwnedNotified) -> nat;

/// Calls `Notify::new`: nobody has been notified yet.
#[verifier::external_body]
fn notify_new() -> (notify: Notify)
    ensures
        notify_calls(notify) == 0,
{
    Notify::new()
}

/// Calls `Notify::notify_waiters`, which counts its calls. A bell is the only one to call it on its
/// `Notify`, so that the count changes by this call alone. That those who wait are polled again
/// is the executor's business and is not stated.
#[verifier::external_body]
fn notify_waiters(bell: &mut Bell)
    ensures
        notify_calls(*final(bell).notify) == notify_calls(*old(bell).notify) + 1,
{
    bell.notify.notify_waiters();
}

/// Calls `Notify::notified_owned`: a future that remembers how many calls of `notify_waiters` there
/// were when it was made. It completes with the next one, even if it has not been polled by then.
/// It shares the `Notify`, but cannot notify.
#[verifier::external_body]
fn notified_owned(bell: &Bell) -> (wait: OwnedNotified)
    ensures
        notified_since(wait) == notify_calls(*bell.notify),
{
    Arc::clone(&bell.notify).notified_owned()
}

/// What wakes whoever waits on it.
///
/// The `Notify` is kept in here and shared with the futures that wait for it only, none of which can
/// notify. So whoever holds the bell mutably is the only one who can see the count change.
pub struct Bell {
    notify: Arc<Notify>,
}

impl Bell {
    /// How often the bell has been rung.
    pub closed spec fn rings(&self) -> nat {
        notify_calls(*self.notify)
    }

    /// A bell that has not been rung.
    pub fn new() -> (bell: Bell)
        ensures
            bell.rings() == 0,
    {
        Bell { notify: Arc::new(notify_new()) }
    }

    /// Wakes everyone who waits.
    pub fn ring(&mut self)
        ensures
            final(self).rings() == old(self).rings() + 1,
    {
        notify_waiters(self);
    }

    /// Begins to wait for the next time that the bell is rung.
    pub fn wait(&self) -> (wait: OwnedNotified)
        ensures
            notified_since(wait) == self.rings(),
    {
        notified_owned(self)
    }
}

} // verus!
