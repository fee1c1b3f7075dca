//! The sequential compound: an inner stage behind a transform applied to
//! every entry in transit.  A write reshapes the entry and forwards it into
//! the inner stage; a close forwards unchanged.  This lets a stage reuse
//! another stage's logic while reshaping records on the way in.

use vstd::prelude::*;

use crate::flow::Sink;
use crate::flow::Stream;
use crate::record::entry_parse;
use crate::record::Entry;
use crate::record::EntryV;

verus! {

/// A per-entry reshaping function, with its mathematical meaning.
pub trait Transform: Sized {
    spec fn spec_apply(&self, e: EntryV) -> EntryV;

    fn apply(&self, e: Entry) -> (r: Entry)
        ensures
            r@ == self.spec_apply(e@),
    ;
}

/// The transform that parses every entry into a record on the way in, so
/// the inner stage always sees structured records.
pub struct ParseTransform {}

impl Transform for ParseTransform {
    open spec fn spec_apply(&self, e: EntryV) -> EntryV {
        EntryV::Rec(entry_parse(e))
    }

    fn apply(&self, e: Entry) -> (r: Entry) {
        Entry::Rec(e.parse())
    }
}

/// An inner stage driven through a transform.
pub struct CompoundStream<T: Transform, S: Stream> {
    pub tf: T,
    pub inner: S,
    pub log: Ghost<Seq<EntryV>>,
}

impl<T: Transform, S: Stream> CompoundStream<T, S> {
    pub fn new(tf: T, inner: S) -> (r: CompoundStream<T, S>)
        requires
            inner.inv(),
            !inner.closed(),
            inner.fed() == Seq::<EntryV>::empty(),
        ensures
            r.inv(),
            !r.closed(),
            r.fed() == Seq::<EntryV>::empty(),
            r.tf == tf,
            r.inner == inner,
    {
        let r = CompoundStream { tf, inner, log: Ghost(Seq::empty()) };
        proof {
            assert(r.log@.map_values(|x: EntryV| r.tf.spec_apply(x)) =~= Seq::<EntryV>::empty());
        }
        r
    }
}

impl<T: Transform, S: Stream> Stream for CompoundStream<T, S> {
    /// The inner stage has been fed exactly the transforms of this stage's
    /// own input.
    open spec fn inv(&self) -> bool {
        &&& self.inner.inv()
        &&& self.inner.fed() == self.log@.map_values(|x: EntryV| self.tf.spec_apply(x))
    }

    open spec fn fed(&self) -> Seq<EntryV> {
        self.log@
    }

    open spec fn closed(&self) -> bool {
        self.inner.closed()
    }

    open spec fn write_ens(
        pre: Self,
        post: Self,
        e: EntryV,
        taken0: Seq<EntryV>,
        policy: spec_fn(Seq<EntryV>) -> bool,
        taken1: Seq<EntryV>,
        r: bool,
    ) -> bool {
        &&& post.tf == pre.tf
        &&& S::write_ens(
            pre.inner,
            post.inner,
            pre.tf.spec_apply(e),
            taken0,
            policy,
            taken1,
            r,
        )
    }

    open spec fn close_ens(
        pre: Self,
        post: Self,
        taken0: Seq<EntryV>,
        policy: spec_fn(Seq<EntryV>) -> bool,
        taken1: Seq<EntryV>,
    ) -> bool {
        &&& post.tf == pre.tf
        &&& S::close_ens(pre.inner, post.inner, taken0, policy, taken1)
    }

    fn write<D: Sink>(&mut self, e: Entry, down: &mut D) -> (r: bool) {
        let ghost lg2 = self.log@.push(e@);
        self.log = Ghost(lg2);
        let shaped = self.tf.apply(e);
        let r = self.inner.write(shaped, down);
        proof {
            assert(self.inner.fed() =~= lg2.map_values(|x: EntryV| self.tf.spec_apply(x)));
        }
        r
    }

    fn close<D: Sink>(&mut self, down: &mut D) {
        self.inner.close(down);
    }
}

} // verus!
