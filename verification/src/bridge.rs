//! The concurrency bridge's shared state: a queue of pending entries, a
//! closed flag raised by the producing front handle, and a reader-closed
//! flag raised by the consuming back handle.  These transitions are the
//! whole decision logic of the bridge; the code that runs the two ends on
//! separate threads guards one `BridgeState` with its lock and condition
//! and calls nothing but these.

use std::collections::VecDeque;
use vstd::prelude::*;

use crate::record::entries_view;
use crate::record::Entry;
use crate::record::EntryV;

verus! {

/// What the front handle's write does to the pending queue: an entry is
/// enqueued unless the consumer has declared it wants no more, in which
/// case it is abandoned.
pub open spec fn fe_write_effect(pending: Seq<EntryV>, rclosed: bool, e: EntryV) -> Seq<EntryV> {
    if rclosed {
        pending
    } else {
        pending.push(e)
    }
}

/// A whole sequence of front-handle writes.
pub open spec fn fe_write_all(pending: Seq<EntryV>, rclosed: bool, es: Seq<EntryV>) -> Seq<
    EntryV,
>
    decreases es.len(),
{
    if es.len() == 0 {
        pending
    } else {
        fe_write_all(fe_write_effect(pending, rclosed, es[0]), rclosed, es.drop_first())
    }
}

/// The guarded state a bridge pair shares.
pub struct BridgeState {
    pub queue: VecDeque<Entry>,
    pub closed: bool,
    pub rclosed: bool,
}

impl BridgeState {
    pub open spec fn pending(&self) -> Seq<EntryV> {
        entries_view(self.queue@)
    }

    pub fn new() -> (r: BridgeState)
        ensures
            r.pending() == Seq::<EntryV>::empty(),
            !r.closed,
            !r.rclosed,
    {
        let r = BridgeState { queue: VecDeque::new(), closed: false, rclosed: false };
        proof {
            assert(r.pending() =~= Seq::<EntryV>::empty());
        }
        r
    }

    /// The front handle's write: enqueues the entry and answers whether
    /// the consumer side is still open.
    pub fn fe_write(&mut self, e: Entry) -> (r: bool)
        ensures
            final(self).pending() == fe_write_effect(old(self).pending(), old(self).rclosed, e@),
            final(self).closed == old(self).closed,
            final(self).rclosed == old(self).rclosed,
            r == !old(self).rclosed,
    {
        if self.rclosed {
            return false;
        }
        self.queue.push_back(e);
        proof {
            assert(self.pending() =~= old(self).pending().push(e@));
        }
        true
    }

    /// The front handle's close: marks end-of-input so the consumer, once
    /// the queue drains, observes that nothing more is coming.
    pub fn fe_close(&mut self)
        ensures
            final(self).pending() == old(self).pending(),
            final(self).closed,
            final(self).rclosed == old(self).rclosed,
    {
        self.closed = true;
    }

    /// One step of the back handle's read: the oldest pending entry if
    /// there is one; the end-of-input mark if the input is closed and
    /// drained; otherwise nothing yet, and a threaded reader blocks until
    /// notified.
    pub fn be_step(&mut self) -> (r: Option<Option<Entry>>)
        ensures
            final(self).closed == old(self).closed,
            final(self).rclosed == old(self).rclosed,
            match r {
                Some(Some(e)) => old(self).pending().len() > 0 && e@ == old(self).pending()[0]
                    && final(self).pending() == old(self).pending().drop_first(),
                Some(None) => old(self).pending().len() == 0 && old(self).closed
                    && final(self).pending() == old(self).pending(),
                None => old(self).pending().len() == 0 && !old(self).closed
                    && final(self).pending() == old(self).pending(),
            },
    {
        match self.queue.pop_front() {
            Some(e) => {
                proof {
                    assert(self.pending() =~= old(self).pending().drop_first());
                }
                Some(Some(e))
            },
            None => {
                if self.closed {
                    Some(None)
                } else {
                    None
                }
            },
        }
    }

    /// The back handle's close: the consumer declares it wants no more
    /// input, which every later front-handle write observes.  Entries
    /// still pending are abandoned.
    pub fn be_rclose(&mut self)
        ensures
            final(self).pending() == old(self).pending(),
            final(self).closed == old(self).closed,
            final(self).rclosed,
    {
        self.rclosed = true;
    }
}

/// Entries cross the bridge in order and none is lost: while the consumer
/// side is open, a sequence of front-handle writes leaves the queue
/// holding exactly the old queue followed by the written entries.
pub proof fn lemma_bridge_order(pending: Seq<EntryV>, es: Seq<EntryV>)
    ensures
        fe_write_all(pending, false, es) == pending + es,
    decreases es.len(),
{
    if es.len() == 0 {
        assert(fe_write_all(pending, false, es) =~= pending + es);
    } else {
        lemma_bridge_order(pending.push(es[0]), es.drop_first());
        assert(pending.push(es[0]) + es.drop_first() =~= pending + es);
    }
}

} // verus!
