//! A single-slot signal between two logical threads.

use vstd::prelude::*;

verus! {

/// A binary signal: one side fires it, the other side waits for it.
///
/// Firing is idempotent, and the signal stays fired once it has fired.
pub struct Notify {
    pre_armed: bool,
    notified: bool,
}

impl Notify {
    /// Whether `notify` has been called at least once since construction.
    pub closed spec fn is_notified(&self) -> bool {
        self.notified
    }

    /// The flag the signal was constructed with.
    pub closed spec fn is_pre_armed(&self) -> bool {
        self.pre_armed
    }

    /// A signal that has not fired. The flag is bookkeeping for the
    /// scheduler and does not fire the signal.
    pub fn new(flag: bool) -> (n: Notify)
        ensures
            !n.is_notified(),
            n.is_pre_armed() == flag,
    {
        Notify { pre_armed: flag, notified: false }
    }

    /// Fires the signal, releasing the current or any future waiter.
    pub fn notify(&mut self)
        ensures
            final(self).is_notified(),
            final(self).is_pre_armed() == old(self).is_pre_armed(),
    {
        self.notified = true;
    }

    /// One turn of a waiter: `true` when the signal has fired and the
    /// waiting logical thread may proceed, `false` when it stays parked.
    pub fn wait(&self) -> (released: bool)
        ensures
            released == self.is_notified(),
    {
        self.notified
    }
}

} // verus!
