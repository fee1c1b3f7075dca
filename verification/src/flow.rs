//! The push-based execution contract every stage honors.
//!
//! A stage is driven by zero or more `write` calls and exactly one `close`.
//! Both hand the stage a downstream sink; the stage forwards entries by
//! calling `put` on it.  Booleans are cooperative flow control: a sink
//! answers `false` from `put` when it no longer wants input, and a stage
//! answers `false` from `write` to ask its owner to stop sending.  Neither
//! signal is an error, and neither closes anything by itself.

use vstd::prelude::*;

use crate::record::Entry;
use crate::record::EntryV;

verus! {

/// A downstream consumer of entries.  `taken()` is the log of every entry
/// handed to the sink so far; `wants_after(log)` is the sink's acceptance
/// policy: whether, with `log` as its history, it still wants input.  The
/// policy is fixed for the sink's lifetime, so a stage's behavior against a
/// sink is a function of the entries it puts.
pub trait Sink: Sized {
    spec fn taken(&self) -> Seq<EntryV>;

    spec fn wants_after(&self, log: Seq<EntryV>) -> bool;

    /// Hand one entry to the sink.  Returns whether the sink still wants
    /// further input.
    fn put(&mut self, e: Entry) -> (r: bool)
        ensures
            final(self).taken() == old(self).taken().push(e@),
            forall|s: Seq<EntryV>|
                #[trigger] final(self).wants_after(s) == old(self).wants_after(s),
            r == old(self).wants_after(final(self).taken()),
    ;
}

/// The entries a sink has taken after a stage flushes the sequence `flush`
/// onto it one entry at a time, starting from history `base` and stopping
/// early as soon as the sink's `policy` answers `false`.
pub open spec fn flush_onto(
    base: Seq<EntryV>,
    flush: Seq<EntryV>,
    policy: spec_fn(Seq<EntryV>) -> bool,
) -> Seq<EntryV>
    decreases flush.len(),
{
    if flush.len() == 0 {
        base
    } else {
        let stepped = base.push(flush[0]);
        if policy(stepped) {
            flush_onto(stepped, flush.drop_first(), policy)
        } else {
            stepped
        }
    }
}

/// When the policy accepts everything, a flush delivers every entry.
pub proof fn lemma_flush_onto_accepting(
    base: Seq<EntryV>,
    flush: Seq<EntryV>,
    policy: spec_fn(Seq<EntryV>) -> bool,
)
    requires
        forall|s: Seq<EntryV>| #[trigger] policy(s),
    ensures
        flush_onto(base, flush, policy) == base + flush,
    decreases flush.len(),
{
    if flush.len() == 0 {
        assert(flush_onto(base, flush, policy) =~= base + flush);
    } else {
        lemma_flush_onto_accepting(base.push(flush[0]), flush.drop_first(), policy);
        assert(base.push(flush[0]) + flush.drop_first() =~= base + flush);
    }
}

/// A pipeline stage.  `fed()` is the log of entries written to the stage;
/// `closed()` records that the single `close` call has happened.  What a
/// stage does to the sink is stated by the stage's own `write_ens` and
/// `close_ens` relations over the sink's entry log and acceptance policy,
/// so a caller that knows the concrete stage knows its exact behavior.
pub trait Stream: Sized {
    spec fn inv(&self) -> bool;

    spec fn fed(&self) -> Seq<EntryV>;

    spec fn closed(&self) -> bool;

    spec fn write_ens(
        pre: Self,
        post: Self,
        e: EntryV,
        taken0: Seq<EntryV>,
        policy: spec_fn(Seq<EntryV>) -> bool,
        taken1: Seq<EntryV>,
        r: bool,
    ) -> bool;

    spec fn close_ens(
        pre: Self,
        post: Self,
        taken0: Seq<EntryV>,
        policy: spec_fn(Seq<EntryV>) -> bool,
        taken1: Seq<EntryV>,
    ) -> bool;

    /// Accept one entry, forwarding zero or more entries downstream.
    /// Returns `false` to ask the owner to stop sending.
    fn write<D: Sink>(&mut self, e: Entry, down: &mut D) -> (r: bool)
        requires
            old(self).inv(),
            !old(self).closed(),
        ensures
            final(self).inv(),
            !final(self).closed(),
            final(self).fed() == old(self).fed().push(e@),
            old(down).taken().is_prefix_of(final(down).taken()),
            forall|s: Seq<EntryV>|
                #[trigger] final(down).wants_after(s) == old(down).wants_after(s),
            Self::write_ens(
                *old(self),
                *final(self),
                e@,
                old(down).taken(),
                (|s: Seq<EntryV>| old(down).wants_after(s)),
                final(down).taken(),
                r,
            ),
    ;

    /// Flush buffered entries and end the stage's lifecycle.
    fn close<D: Sink>(&mut self, down: &mut D)
        requires
            old(self).inv(),
            !old(self).closed(),
        ensures
            final(self).closed(),
            final(self).fed() == old(self).fed(),
            old(down).taken().is_prefix_of(final(down).taken()),
            forall|s: Seq<EntryV>|
                #[trigger] final(down).wants_after(s) == old(down).wants_after(s),
            Self::close_ens(
                *old(self),
                *final(self),
                old(down).taken(),
                (|s: Seq<EntryV>| old(down).wants_after(s)),
                final(down).taken(),
            ),
    ;
}

/// A sink that accepts and keeps everything.
pub struct CollectSink {
    pub got: Vec<Entry>,
}

impl View for CollectSink {
    type V = Seq<EntryV>;

    open spec fn view(&self) -> Seq<EntryV> {
        self.got@.map_values(|e: Entry| e@)
    }
}

impl Sink for CollectSink {
    open spec fn taken(&self) -> Seq<EntryV> {
        self@
    }

    open spec fn wants_after(&self, log: Seq<EntryV>) -> bool {
        true
    }

    fn put(&mut self, e: Entry) -> (r: bool)
        ensures
            final(self).taken() == old(self).taken().push(e@),
            forall|s: Seq<EntryV>|
                #[trigger] final(self).wants_after(s) == old(self).wants_after(s),
            r == old(self).wants_after(final(self).taken()),
    {
        self.got.push(e);
        proof {
            assert(self@ =~= old(self)@.push(e@));
        }
        true
    }
}

impl CollectSink {
    pub fn new() -> (r: CollectSink)
        ensures
            r.taken() == Seq::<EntryV>::empty(),
    {
        let r = CollectSink { got: Vec::new() };
        proof {
            assert(r@ =~= Seq::<EntryV>::empty());
        }
        r
    }
}

/// A sink that keeps everything handed to it but stops wanting input once
/// it holds `limit` entries, the way a bounded consumer signals upstream.
pub struct LimitSink {
    pub got: Vec<Entry>,
    pub limit: usize,
}

impl Sink for LimitSink {
    open spec fn taken(&self) -> Seq<EntryV> {
        self.got@.map_values(|e: Entry| e@)
    }

    open spec fn wants_after(&self, log: Seq<EntryV>) -> bool {
        log.len() < self.limit
    }

    fn put(&mut self, e: Entry) -> (r: bool)
        ensures
            final(self).taken() == old(self).taken().push(e@),
            forall|s: Seq<EntryV>|
                #[trigger] final(self).wants_after(s) == old(self).wants_after(s),
            r == old(self).wants_after(final(self).taken()),
    {
        self.got.push(e);
        proof {
            assert(self.taken() =~= old(self).taken().push(e@));
        }
        self.got.len() < self.limit
    }
}

impl LimitSink {
    pub fn new(limit: usize) -> (r: LimitSink)
        ensures
            r.taken() == Seq::<EntryV>::empty(),
            r.limit == limit,
    {
        let r = LimitSink { got: Vec::new(), limit };
        proof {
            assert(r.taken() =~= Seq::<EntryV>::empty());
        }
        r
    }
}

} // verus!
