//! The stage that keeps a suffix of its inputs.
//!
//! Its count argument follows the usual tail conventions: `N` or `-N`
//! keeps the last `N` entries, `+N` skips the first `N` and forwards the
//! rest as they arrive.

use std::collections::VecDeque;
use vstd::prelude::*;

use crate::flow::flush_onto;
use crate::flow::lemma_flush_onto_accepting;
use crate::flow::Sink;
use crate::flow::Stream;
use crate::head::trim_suffix;
use crate::record::Entry;
use crate::record::EntryV;
use crate::record::entries_view;

verus! {

/// The last `min(n, |s|)` elements of `s`, in order.
pub open spec fn suffix_window(s: Seq<EntryV>, n: int) -> Seq<EntryV> {
    if s.len() > n {
        s.skip(s.len() - n)
    } else {
        s
    }
}

/// The stage that keeps a trailing window: a bounded double-ended buffer
/// holds the most recent `keep` entries, evicting the oldest past
/// capacity, and the finalizer drains the buffer in order.
pub struct LastStream {
    pub keep: usize,
    pub buf: VecDeque<Entry>,
    pub log: Ghost<Seq<EntryV>>,
    pub done: Ghost<bool>,
}

impl LastStream {
    pub fn new(n: usize) -> (r: LastStream)
        ensures
            r.keep == n,
            r.fed() == Seq::<EntryV>::empty(),
            !r.closed(),
            r.inv(),
    {
        let r = LastStream { keep: n, buf: VecDeque::new(), log: Ghost(Seq::empty()), done: Ghost(
            false,
        ) };
        proof {
            assert(entries_view(r.buf@) =~= Seq::<EntryV>::empty());
        }
        r
    }
}

impl Stream for LastStream {
    /// The buffer always holds exactly the trailing window of what was fed.
    open spec fn inv(&self) -> bool {
        entries_view(self.buf@) == suffix_window(self.log@, self.keep as int)
    }

    open spec fn fed(&self) -> Seq<EntryV> {
        self.log@
    }

    open spec fn closed(&self) -> bool {
        self.done@
    }

    open spec fn write_ens(
        pre: Self,
        post: Self,
        e: EntryV,
        taken0: Seq<EntryV>,
        policy: spec_fn(Seq<EntryV>) -> bool,
        taken1: Seq<EntryV>,
        r: bool,
    ) -> bool {
        taken1 == taken0 && r == true && post.keep == pre.keep
    }

    open spec fn close_ens(
        pre: Self,
        post: Self,
        taken0: Seq<EntryV>,
        policy: spec_fn(Seq<EntryV>) -> bool,
        taken1: Seq<EntryV>,
    ) -> bool {
        taken1 == flush_onto(taken0, suffix_window(pre.fed(), pre.keep as int), policy)
    }

    fn write<D: Sink>(&mut self, e: Entry, down: &mut D) -> (r: bool) {
        let ghost lg = self.log@;
        let ghost n = self.keep as int;
        let ghost b0 = entries_view(self.buf@);
        let ghost lg2 = lg.push(e@);
        self.log = Ghost(lg2);
        self.buf.push_back(e);
        proof {
            assert(entries_view(self.buf@) =~= b0.push(e@));
        }
        if self.buf.len() > self.keep {
            let ghost b1 = entries_view(self.buf@);
            self.buf.pop_front();
            proof {
                assert(entries_view(self.buf@) =~= b1.drop_first());
            }
        }
        proof {
            if lg.len() > n {
                assert(b0 == lg.skip(lg.len() - n));
                assert(b0.len() == n);
            } else {
                assert(b0 == lg);
            }
            assert(entries_view(self.buf@) =~= suffix_window(lg2, n));
        }
        true
    }

    #[verifier::loop_isolation(false)]
    fn close<D: Sink>(&mut self, down: &mut D) {
        self.done = Ghost(true);
        let ghost flush = suffix_window(self.log@, self.keep as int);
        let ghost policy = |s: Seq<EntryV>| old(down).wants_after(s);
        let ghost taken0 = old(down).taken();
        let end = self.buf.len();
        proof {
            assert(flush == entries_view(self.buf@));
            assert(flush.skip(0) =~= flush);
            assert(taken0 + flush.take(0) =~= taken0);
        }
        let mut i: usize = 0;
        while i < end
            invariant
                0 <= i <= end,
                end == self.buf@.len(),
                down.taken() == taken0 + flush.take(i as int),
                forall|s: Seq<EntryV>| #[trigger] down.wants_after(s) == policy(s),
                flush_onto(taken0, flush, policy) == flush_onto(
                    down.taken(),
                    flush.skip(i as int),
                    policy,
                ),
            decreases end - i,
        {
            let e = (&self.buf[i]).clone();
            proof {
                assert(flush.skip(i as int)[0] == flush[i as int]);
                assert(e@ == entries_view(self.buf@)[i as int]);
            }
            let keep = down.put(e);
            proof {
                assert(down.taken() =~= taken0 + flush.take(i + 1));
                assert(flush.skip(i as int).drop_first() =~= flush.skip(i + 1));
            }
            if !keep {
                return ;
            }
            i = i + 1;
        }
        proof {
            assert(flush.skip(end as int) =~= Seq::<EntryV>::empty());
            assert(flush.take(end as int) =~= flush);
        }
    }
}

/// One write of the skip-prefix stage: while entries remain to be skipped
/// the entry is swallowed; afterwards every entry is forwarded at once.
pub open spec fn skip_step(
    left: nat,
    e: EntryV,
    taken: Seq<EntryV>,
    policy: spec_fn(Seq<EntryV>) -> bool,
) -> (nat, Seq<EntryV>, bool) {
    if left > 0 {
        ((left - 1) as nat, taken, true)
    } else {
        let stepped = taken.push(e);
        (0 as nat, stepped, policy(stepped))
    }
}

/// The stage that drops the first `left` entries and forwards the rest.
pub struct SkipFirstStream {
    pub left: usize,
    pub log: Ghost<Seq<EntryV>>,
    pub done: Ghost<bool>,
}

impl SkipFirstStream {
    pub fn new(n: usize) -> (r: SkipFirstStream)
        ensures
            r.left == n,
            r.fed() == Seq::<EntryV>::empty(),
            !r.closed(),
            r.inv(),
    {
        SkipFirstStream { left: n, log: Ghost(Seq::empty()), done: Ghost(false) }
    }
}

impl Stream for SkipFirstStream {
    open spec fn inv(&self) -> bool {
        true
    }

    open spec fn fed(&self) -> Seq<EntryV> {
        self.log@
    }

    open spec fn closed(&self) -> bool {
        self.done@
    }

    open spec fn write_ens(
        pre: Self,
        post: Self,
        e: EntryV,
        taken0: Seq<EntryV>,
        policy: spec_fn(Seq<EntryV>) -> bool,
        taken1: Seq<EntryV>,
        r: bool,
    ) -> bool {
        let s = skip_step(pre.left as nat, e, taken0, policy);
        post.left == s.0 && taken1 == s.1 && r == s.2
    }

    open spec fn close_ens(
        pre: Self,
        post: Self,
        taken0: Seq<EntryV>,
        policy: spec_fn(Seq<EntryV>) -> bool,
        taken1: Seq<EntryV>,
    ) -> bool {
        taken1 == taken0
    }

    fn write<D: Sink>(&mut self, e: Entry, down: &mut D) -> (r: bool) {
        self.log = Ghost(self.log@.push(e@));
        if self.left > 0 {
            self.left = self.left - 1;
            return true;
        }
        down.put(e)
    }

    fn close<D: Sink>(&mut self, down: &mut D) {
        self.done = Ghost(true);
    }
}

/// Typed configuration of the suffix-keeping stage.
pub struct Options {
    pub n: crate::head::HeadCountOption,
}

/// The stage built from a tail count: a positive count skips the first
/// `n` entries; a negative (or unspecified) count keeps the last `n`.
pub enum TailStage {
    SkipFirst(SkipFirstStream),
    Last(LastStream),
}

impl Stream for TailStage {
    open spec fn inv(&self) -> bool {
        match self {
            TailStage::SkipFirst(h) => h.inv(),
            TailStage::Last(t) => t.inv(),
        }
    }

    open spec fn fed(&self) -> Seq<EntryV> {
        match self {
            TailStage::SkipFirst(h) => h.fed(),
            TailStage::Last(t) => t.fed(),
        }
    }

    open spec fn closed(&self) -> bool {
        match self {
            TailStage::SkipFirst(h) => h.closed(),
            TailStage::Last(t) => t.closed(),
        }
    }

    open spec fn write_ens(
        pre: Self,
        post: Self,
        e: EntryV,
        taken0: Seq<EntryV>,
        policy: spec_fn(Seq<EntryV>) -> bool,
        taken1: Seq<EntryV>,
        r: bool,
    ) -> bool {
        match (pre, post) {
            (TailStage::SkipFirst(a), TailStage::SkipFirst(b)) => SkipFirstStream::write_ens(
                a,
                b,
                e,
                taken0,
                policy,
                taken1,
                r,
            ),
            (TailStage::Last(a), TailStage::Last(b)) => LastStream::write_ens(
                a,
                b,
                e,
                taken0,
                policy,
                taken1,
                r,
            ),
            _ => false,
        }
    }

    open spec fn close_ens(
        pre: Self,
        post: Self,
        taken0: Seq<EntryV>,
        policy: spec_fn(Seq<EntryV>) -> bool,
        taken1: Seq<EntryV>,
    ) -> bool {
        match (pre, post) {
            (TailStage::SkipFirst(a), TailStage::SkipFirst(b)) => SkipFirstStream::close_ens(
                a,
                b,
                taken0,
                policy,
                taken1,
            ),
            (TailStage::Last(a), TailStage::Last(b)) => LastStream::close_ens(
                a,
                b,
                taken0,
                policy,
                taken1,
            ),
            _ => false,
        }
    }

    fn write<D: Sink>(&mut self, e: Entry, down: &mut D) -> (r: bool) {
        match self {
            TailStage::SkipFirst(h) => h.write(e, down),
            TailStage::Last(t) => t.write(e, down),
        }
    }

    fn close<D: Sink>(&mut self, down: &mut D) {
        match self {
            TailStage::SkipFirst(h) => h.close(down),
            TailStage::Last(t) => t.close(down),
        }
    }
}

/// Builds the stage a tail configuration calls for; an unspecified sign
/// keeps a suffix.
pub fn tail_stream(o: &Options) -> (s: TailStage)
    ensures
        s.inv(),
        !s.closed(),
        s.fed() == Seq::<EntryV>::empty(),
        crate::head::sign_is_positive(o.n.sign, false) ==> (s matches TailStage::SkipFirst(h)
            && h.left == o.n.n),
        !crate::head::sign_is_positive(o.n.sign, false) ==> (s matches TailStage::Last(t)
            && t.keep == o.n.n),
{
    if o.n.sign.is_positive(false) {
        TailStage::SkipFirst(SkipFirstStream::new(o.n.n))
    } else {
        TailStage::Last(LastStream::new(o.n.n))
    }
}

/// Flushing the trailing-window stage into a sink that accepts everything
/// emits exactly the last `min(n, total)` entries, in arrival order.
pub proof fn lemma_bounded_suffix_flush(
    fed: Seq<EntryV>,
    n: int,
    taken0: Seq<EntryV>,
    policy: spec_fn(Seq<EntryV>) -> bool,
)
    requires
        forall|s: Seq<EntryV>| #[trigger] policy(s),
        n >= 0,
    ensures
        flush_onto(taken0, suffix_window(fed, n), policy) == taken0 + suffix_window(fed, n),
        suffix_window(fed, n).len() == vstd::math::min(n, fed.len() as int),
        forall|i: int|
            0 <= i < suffix_window(fed, n).len() ==> #[trigger] suffix_window(fed, n)[i] == fed[
                fed.len() - vstd::math::min(n, fed.len() as int) + i
            ],
{
    lemma_flush_onto_accepting(taken0, suffix_window(fed, n), policy);
}

/// Trimming the last `n` entries and keeping the last `n` entries are
/// complementary: run over the same input they reconstruct it whole.
pub proof fn lemma_trim_then_last_roundtrip(s: Seq<EntryV>, n: int)
    requires
        n >= 0,
    ensures
        trim_suffix(s, n) + suffix_window(s, n) == s,
{
    assert(trim_suffix(s, n) + suffix_window(s, n) =~= s);
}

} // verus!
