//! What a paused runner sleeps on, with a count of the wake-ups that were given.
use std::sync::Arc;
use vstd::prelude::*;

verus! {

/// `tokio::sync::Notify`, on which a paused runner sleeps. Nothing is claimed of what it holds.
#[verifier::external_type_specification]
#[verifier::external_body]
pub struct ExNotify(tokio::sync::Notify);

/// `Notify::new` makes a `Notify`. Nothing is claimed of the result.
pub assume_specification[ tokio::sync::Notify::new ]() -> tokio::sync::Notify;

/// A `Notify` of which it is known how often its `notify_one` has been called. Only `wake` moves
/// the count, so the count stands for the calls.
pub struct WakeSignal {
    notify: Arc<tokio::sync::Notify>,
    wakeups: Ghost<nat>,
}

impl WakeSignal {
    /// The `Notify` that is slept on.
    pub closed spec fn notify(&self) -> tokio::sync::Notify {
        *self.notify
    }

    /// How many wake-ups have been given.
    pub closed spec fn wakeups(&self) -> nat {
        self.wakeups@
    }

    /// A signal that has given no wake-up yet.
    pub fn new() -> (r: WakeSignal)
        ensures
            r.wakeups() == 0,
    {
        WakeSignal { notify: Arc::new(tokio::sync::Notify::new()), wakeups: Ghost(0) }
    }

    /// Gives a wake-up by `tokio::sync::Notify::notify_one`, which wakes one sleeper, or else the
    /// next one to sleep, at most one such being kept. Claimed of it: the call was made, once, and
    /// on the `Notify` that is slept on. When the sleeper runs is up to its task and is not said.
    #[verifier::external_body]
    pub(crate) fn wake(&mut self)
        ensures
            final(self).wakeups() == old(self).wakeups() + 1,
            final(self).notify() == old(self).notify(),
    {
        self.notify.notify_one();
    }

    /// The `Notify` to sleep on.
    pub fn sleep_on(&self) -> (r: &Arc<tokio::sync::Notify>)
        ensures
            **r == self.notify(),
    {
        &self.notify
    }
}

} // verus!
