//! The clumper that buckets records by overlapping windows: once `size`
//! records have arrived, every further record completes a window, and each
//! window drives a brand-new sub-pipeline to completion.
//!
//! A sub-stream's early termination says nothing about the window stage
//! itself: one bucket ending (say, a nested stage that keeps one entry)
//! does not mean later buckets want no data, so the sub-stream's flow
//! signal is disregarded and the stage always answers `true`.

use std::collections::VecDeque;
use vstd::prelude::*;

use crate::flow::Sink;
use crate::flow::Stream;
use crate::record::entry_parse;
use crate::record::records_view;
use crate::record::Entry;
use crate::record::EntryV;
use crate::record::Record;
use crate::record::RecordV;

verus! {

/// Arguments of the window clumper: the window size.
pub struct Args {
    pub count: usize,
}

/// Records presented to a sub-pipeline, as entries.
pub open spec fn recs_as_entries(rs: Seq<RecordV>) -> Seq<EntryV> {
    rs.map_values(|r: RecordV| EntryV::Rec(r))
}

/// A source of fresh sub-pipelines.  `history()` is the record of every
/// retired sub-stream: the sequence of entries each one was fed before it
/// was closed and handed back.  Only `retire` extends the history, so the
/// history is a faithful log of completed sub-pipeline runs.
pub trait StreamFactory: Sized {
    type S: Stream;

    spec fn history(&self) -> Seq<Seq<EntryV>>;

    /// A brand-new sub-pipeline that has seen nothing yet.
    fn make(&mut self) -> (s: Self::S)
        ensures
            final(self).history() == old(self).history(),
            s.inv(),
            !s.closed(),
            s.fed() == Seq::<EntryV>::empty(),
    ;

    /// Takes a completed sub-pipeline back, recording what it was fed.
    fn retire(&mut self, s: Self::S)
        requires
            s.closed(),
        ensures
            final(self).history() == old(self).history().push(s.fed()),
    ;
}

/// The window stage's buffer and completed runs after the given inputs:
/// a fold of one buffer update, and possibly one sub-pipeline run, per
/// entry.
pub open spec fn window_model(inputs: Seq<EntryV>, n: int) -> (Seq<RecordV>, Seq<Seq<EntryV>>)
    decreases inputs.len(),
{
    if inputs.len() == 0 {
        (Seq::empty(), Seq::empty())
    } else {
        let prev = window_model(inputs.drop_last(), n);
        let grown = prev.0.push(entry_parse(inputs.last()));
        let buf = if grown.len() > n {
            grown.drop_first()
        } else {
            grown
        };
        if buf.len() == n {
            (buf, prev.1.push(recs_as_entries(buf)))
        } else {
            (buf, prev.1)
        }
    }
}

/// The stage itself: a bounded FIFO of parsed records plus the factory
/// that builds one sub-pipeline per full window.
pub struct WindowStream<F: StreamFactory> {
    pub size: usize,
    pub buf: VecDeque<Record>,
    pub factory: F,
    pub log: Ghost<Seq<EntryV>>,
    pub done: Ghost<bool>,
}

impl<F: StreamFactory> WindowStream<F> {
    pub open spec fn records(&self) -> Seq<RecordV> {
        records_view(self.buf@)
    }

    pub fn new(size: usize, factory: F) -> (r: WindowStream<F>)
        requires
            factory.history() == Seq::<Seq<EntryV>>::empty(),
        ensures
            r.inv(),
            !r.closed(),
            r.fed() == Seq::<EntryV>::empty(),
            r.size == size,
            r.factory.history() == Seq::<Seq<EntryV>>::empty(),
    {
        let r = WindowStream {
            size,
            buf: VecDeque::new(),
            factory,
            log: Ghost(Seq::empty()),
            done: Ghost(false),
        };
        proof {
            assert(records_view(r.buf@) =~= Seq::<RecordV>::empty());
        }
        r
    }
}

impl<F: StreamFactory> Stream for WindowStream<F> {
    /// The buffer and the factory's history always match the model of
    /// everything fed so far.
    open spec fn inv(&self) -> bool {
        &&& self.records() == window_model(self.log@, self.size as int).0
        &&& self.factory.history() == window_model(self.log@, self.size as int).1
    }

    open spec fn fed(&self) -> Seq<EntryV> {
        self.log@
    }

    open spec fn closed(&self) -> bool {
        self.done@
    }

    open spec fn write_ens(
        pre: Self,
        post: Self,
        e: EntryV,
        taken0: Seq<EntryV>,
        policy: spec_fn(Seq<EntryV>) -> bool,
        taken1: Seq<EntryV>,
        r: bool,
    ) -> bool {
        let grown = pre.records().push(entry_parse(e));
        let buf = if grown.len() > pre.size {
            grown.drop_first()
        } else {
            grown
        };
        &&& post.size == pre.size
        &&& post.records() == buf
        &&& post.factory.history() == if buf.len() == pre.size {
            pre.factory.history().push(recs_as_entries(buf))
        } else {
            pre.factory.history()
        }
        &&& r == true
    }

    open spec fn close_ens(
        pre: Self,
        post: Self,
        taken0: Seq<EntryV>,
        policy: spec_fn(Seq<EntryV>) -> bool,
        taken1: Seq<EntryV>,
    ) -> bool {
        &&& taken1 == taken0
        &&& post.factory.history() == pre.factory.history()
    }

    #[verifier::loop_isolation(false)]
    fn write<D: Sink>(&mut self, e: Entry, down: &mut D) -> (r: bool) {
        let ghost lg = self.log@;
        let ghost n = self.size as int;
        let ghost b0 = self.records();
        let ghost lg2 = lg.push(e@);
        self.log = Ghost(lg2);
        let rec = e.parse();
        self.buf.push_back(rec);
        proof {
            assert(self.records() =~= b0.push(entry_parse(e@)));
            assert(lg2.drop_last() =~= lg);
        }
        if self.buf.len() > self.size {
            let ghost b1 = self.records();
            self.buf.pop_front();
            proof {
                assert(self.records() =~= b1.drop_first());
            }
        }
        proof {
            assert(self.records() == window_model(lg2, n).0);
        }
        if self.buf.len() == self.size {
            let ghost rv = self.records();
            let mut sub = self.factory.make();
            let mut i: usize = 0;
            while i < self.buf.len()
                invariant
                    0 <= i <= self.buf@.len(),
                    sub.inv(),
                    !sub.closed(),
                    sub.fed() == recs_as_entries(rv).take(i as int),
                    old(down).taken().is_prefix_of(down.taken()),
                    forall|s: Seq<EntryV>|
                        #[trigger] down.wants_after(s) == old(down).wants_after(s),
                decreases self.buf@.len() - i,
            {
                let r = (&self.buf[i]).clone();
                let ghost pre_taken = down.taken();
                sub.write(Entry::Rec(r), down);
                proof {
                    assert(recs_as_entries(rv).take(i + 1) =~= recs_as_entries(rv).take(
                        i as int,
                    ).push(EntryV::Rec(rv[i as int])));
                }
                i = i + 1;
            }
            proof {
                assert(recs_as_entries(rv).take(rv.len() as int) =~= recs_as_entries(rv));
            }
            sub.close(down);
            self.factory.retire(sub);
        }
        true
    }

    fn close<D: Sink>(&mut self, down: &mut D) {
        self.done = Ghost(true);
    }
}

/// Builds the window clumper over the given sub-pipeline source.
pub fn window_stream<F: StreamFactory>(a: &Args, factory: F) -> (r: WindowStream<F>)
    requires
        factory.history() == Seq::<Seq<EntryV>>::empty(),
    ensures
        r.inv(),
        !r.closed(),
        r.fed() == Seq::<EntryV>::empty(),
        r.size == a.count,
        r.factory.history() == Seq::<Seq<EntryV>>::empty(),
{
    WindowStream::new(a.count, factory)
}

/// A sub-pipeline source whose every bucket is a fresh prefix stage: each
/// window keeps its first `n` entries, the way a nested bounded head runs
/// once per bucket.
pub struct PrefixFactory {
    pub n: usize,
    pub hist: Ghost<Seq<Seq<EntryV>>>,
}

impl PrefixFactory {
    pub fn new(n: usize) -> (r: PrefixFactory)
        ensures
            r.history() == Seq::<Seq<EntryV>>::empty(),
            r.n == n,
    {
        PrefixFactory { n, hist: Ghost(Seq::empty()) }
    }
}

impl StreamFactory for PrefixFactory {
    type S = crate::head::HeadStream;

    open spec fn history(&self) -> Seq<Seq<EntryV>> {
        self.hist@
    }

    fn make(&mut self) -> (s: crate::head::HeadStream) {
        crate::head::HeadStream::new(self.n)
    }

    fn retire(&mut self, s: crate::head::HeadStream) {
        self.hist = Ghost(self.hist@.push(s.fed()));
    }
}

/// A window of size `n` over entries `[e1..ek]` triggers exactly
/// `max(0, k - n + 1)` sub-pipeline runs, the i-th fed the parsed records
/// `[e_i .. e_{i+n-1}]` in order, and none runs before `n` entries have
/// arrived.
pub proof fn lemma_window_runs(inputs: Seq<EntryV>, n: int)
    requires
        n >= 1,
    ensures
        window_model(inputs, n).1.len() == if inputs.len() >= n {
            inputs.len() - n + 1
        } else {
            0
        },
        forall|i: int|
            0 <= i < window_model(inputs, n).1.len() ==> #[trigger] window_model(inputs, n).1[i]
                == recs_as_entries(
                inputs.subrange(i, i + n).map_values(|e: EntryV| entry_parse(e)),
            ),
        window_model(inputs, n).0 == inputs.map_values(|e: EntryV| entry_parse(e)).skip(
            vstd::math::max(0, inputs.len() - n),
        ),
    decreases inputs.len(),
{
    let parsed = inputs.map_values(|e: EntryV| entry_parse(e));
    if inputs.len() == 0 {
        assert(window_model(inputs, n).0 =~= parsed.skip(0));
    } else {
        let head = inputs.drop_last();
        lemma_window_runs(head, n);
        let prev = window_model(head, n);
        let parsed_head = head.map_values(|e: EntryV| entry_parse(e));
        assert(parsed.drop_last() =~= parsed_head);
        assert(parsed.last() == entry_parse(inputs.last()));
        let grown = prev.0.push(entry_parse(inputs.last()));
        assert(grown =~= parsed.skip(vstd::math::max(0, inputs.len() - 1 - n)));
        let buf = if grown.len() > n {
            grown.drop_first()
        } else {
            grown
        };
        assert(buf =~= parsed.skip(vstd::math::max(0, inputs.len() - n)));
        if buf.len() == n {
            assert(buf =~= inputs.subrange(inputs.len() - n, inputs.len() as int).map_values(
                |e: EntryV| entry_parse(e),
            ));
        }
        assert(forall|i: int|
            0 <= i < window_model(inputs, n).1.len() ==> #[trigger] window_model(inputs, n).1[i]
                == recs_as_entries(
                inputs.subrange(i, i + n).map_values(|e: EntryV| entry_parse(e)),
            )) by {
            assert(forall|i: int|
                0 <= i < prev.1.len() ==> #[trigger] head.subrange(i, i + n) =~= inputs.subrange(
                    i,
                    i + n,
                ));
        }
    }
}

} // verus!
