//! Guarded state: a value that may only be touched through the monitor
//! discipline of three operations — a read, a notifying write, and a wait
//! that retries a condition until it produces a result.  No reference to
//! the value ever escapes an operation.
//!
//! This is the single-owner form of the monitor: the owner drives every
//! operation itself, so a `wait` whose condition yields nothing cannot be
//! woken by anyone and reports that it would block instead of blocking.
//! Code that runs the two ends of a bridge on separate threads supplies
//! its own lock and condition around the same state value.

use vstd::prelude::*;

verus! {

/// A value under the monitor discipline.
pub struct WaitNotifyState<S> {
    pub state: S,
}

impl<S> WaitNotifyState<S> {
    pub fn new(s: S) -> (r: WaitNotifyState<S>)
        ensures
            r.state == s,
    {
        WaitNotifyState { state: s }
    }

    /// Applies a reader to the guarded value and hands its result out.
    pub fn read<R, F: FnOnce(&S) -> R>(&self, f: F) -> (r: R)
        requires
            call_requires(f, (&self.state,)),
        ensures
            call_ensures(f, (&self.state,), r),
    {
        f(&self.state)
    }

    /// Applies a writer to the guarded value, notifying any waiters, and
    /// hands the value's new form back under guard.
    pub fn write<R, F: FnOnce(S) -> (S, R)>(self, f: F) -> (r: (WaitNotifyState<S>, R))
        requires
            call_requires(f, (self.state,)),
        ensures
            call_ensures(f, (self.state,), (r.0.state, r.1)),
    {
        let (s, out) = f(self.state);
        (WaitNotifyState { state: s }, out)
    }

    /// Applies a waiting condition to the guarded value: the condition
    /// yields an optional result and a flag asking that other waiters be
    /// notified.  With a single owner there is nobody to produce the
    /// result later, so a condition that yields nothing reports `None`
    /// where the threaded monitor would block.
    pub fn wait<R, F: FnOnce(S) -> (S, Option<R>, bool)>(self, f: F) -> (r: (
        WaitNotifyState<S>,
        Option<R>,
    ))
        requires
            call_requires(f, (self.state,)),
        ensures
            exists|n: bool| call_ensures(f, (self.state,), (r.0.state, r.1, n)),
    {
        let ghost s0 = self.state;
        let (s, out, notify) = f(self.state);
        let res = (WaitNotifyState { state: s }, out);
        proof {
            assert(call_ensures(f, (s0,), (res.0.state, res.1, notify)));
        }
        res
    }
}

} // verus!
